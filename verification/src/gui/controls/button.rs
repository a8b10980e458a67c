use crate::epaper::target::DrawTarget;
use crate::gui::fonts::Fonts;
use crate::gui::geometry::{Dimensions, Padding, Point, Rectangle};
use crate::gui::{
    drawn_within, Action, CommandSender, Control, ControlSignal, Event, Structure, Widget,
};
use crate::playback::PlaybackStatus;
use vstd::prelude::*;

verus! {

/// A control that can be pressed: a touch inside its bounding box sends its
/// action on the command channel.
#[verifier::reject_recursive_types(T)]
pub struct Button<T: DrawTarget> {
    pub content: Widget<T>,
    pub padding: Padding,
    pub action: Action,
    pub command_channel: Option<CommandSender<T>>,
    pub bounding_box: Option<Rectangle>,
}

impl<T: DrawTarget> Button<T> {
    /// Whether a touch at `point` presses the button: it holds the channel,
    /// was rendered, and the point lies in the region it was rendered into.
    pub open spec fn pressed_at(&self, point: Point) -> bool {
        &&& self.command_channel.is_some()
        &&& self.bounding_box matches Some(region) && region.covers(point.0 as int, point.1 as int)
    }

    /// A button that shows `content` inside `padding` and asks for `action`
    /// when it is pressed.
    pub fn new(content: Widget<T>, padding: Padding, action: Action) -> (button: Self)
        requires
            content.control.wf(),
        ensures
            button.wf(),
            button.content == content,
            button.padding == padding,
            button.action == action,
            !button.command_channel.is_some(),
            button.bounding_box is None,
    {
        Self { content, padding, action, command_channel: None, bounding_box: None }
    }
}

impl<T: DrawTarget> Control<T> for Button<T> {
    open spec fn wf(&self) -> bool {
        self.content.control.wf()
    }

    open spec fn bound(&self) -> bool {
        self.command_channel.is_some() && self.content.control.bound()
    }

    open spec fn bounding_box(&self) -> Option<Rectangle> {
        self.bounding_box
    }

    open spec fn structure(&self) -> Structure {
        Structure::Button {
            content: Box::new(self.content.control.structure()),
            padding: self.padding,
            action: self.action,
        }
    }

    /// A touch changes nothing of what the control is made of.
    open spec fn touched(&self, point: Point) -> Structure {
        self.structure()
    }

    /// A touch that presses the button sends its action; a heartbeat goes on
    /// to what the button shows.
    open spec fn emitted(&self, event: Event) -> Seq<ControlSignal> {
        match event {
            Event::Touch(point) => if self.pressed_at(point) {
                seq![ControlSignal::Pressed(self.action)]
            } else {
                Seq::empty()
            },
            Event::Heartbeat => self.content.control.emitted(event),
        }
    }

    fn register_command_channel(&mut self, tx: CommandSender<T>)
        ensures
            final(self).action == old(self).action,
            final(self).padding == old(self).padding,
    {
        self.command_channel = Some(tx);
        self.content.control.register_command_channel(tx);
    }

    fn on_status(&mut self, status: &PlaybackStatus)
        ensures
            final(self).action == old(self).action,
            final(self).padding == old(self).padding,
            final(self).command_channel == old(self).command_channel,
    {
        self.content.control.on_status(status);
    }

    /// The size of what the button shows, with the padding around it.
    fn compute_natural_dimensions(&mut self, fonts: &Fonts) -> (natural: Dimensions)
        ensures
            final(self).action == old(self).action,
            final(self).padding == old(self).padding,
            final(self).command_channel.is_some() == old(self).command_channel.is_some(),
            natural == crate::gui::layouts::natural::padded_by(
                crate::gui::layouts::natural::natural_size(
                    old(self).content.control.structure(),
                    fonts,
                ),
                old(self).padding,
            ),
    {
        let content: Dimensions = self.content.control.compute_natural_dimensions(fonts);
        Dimensions::new(
            content.width.saturating_add(self.padding.total_horizontal()),
            content.height.saturating_add(self.padding.total_vertical()),
        )
    }

    /// Draws what the button shows into the region that the padding leaves,
    /// and nothing outside that region.
    fn render(&mut self, target: &mut T, dimensions: Dimensions, position: Point, fonts: &Fonts)
        ensures
            final(self).action == old(self).action,
            final(self).padding == old(self).padding,
            final(self).command_channel.is_some() == old(self).command_channel.is_some(),
            final(self).bounding_box == Some(Rectangle { position, dimensions }),
            crate::gui::recorded_in(
                final(self).content.control.bounding_box(),
                old(self).content.control.structure(),
                Rectangle {
                    position: old(self).padding.spec_adjust_position(position),
                    dimensions: old(self).padding.spec_adjust_dimensions(dimensions),
                },
            ),
            drawn_within(
                old(target),
                final(target),
                Rectangle {
                    position: old(self).padding.spec_adjust_position(position),
                    dimensions: old(self).padding.spec_adjust_dimensions(dimensions),
                },
            ),
    {
        let inner_dimensions: Dimensions = self.padding.adjust_dimensions(dimensions);
        let inner_position: Point = self.padding.adjust_position(position);
        proof {
            self.padding.lemma_adjusted_region_is_enclosed(position, dimensions);
        }
        self.content.control.render(target, inner_dimensions, inner_position, fonts);
        self.bounding_box = Some(Rectangle::new(position, dimensions));
    }

    fn on_event(&mut self, event: Event) -> (signals: Vec<ControlSignal>)
        ensures
            final(self).action == old(self).action,
            final(self).padding == old(self).padding,
            final(self).command_channel.is_some() == old(self).command_channel.is_some(),
            event is Touch ==> final(self).content == old(self).content,
    {
        match event {
            Event::Touch(point) => {
                let mut signals: Vec<ControlSignal> = Vec::new();
                let inside: bool = match &self.bounding_box {
                    Some(region) => region.contains(point),
                    None => false,
                };
                if inside && self.command_channel.is_some() {
                    signals.push(ControlSignal::Pressed(self.action.clone()));
                }
                proof {
                    assert(signals@ =~= old(self).emitted(event));
                }
                signals
            },
            Event::Heartbeat => self.content.control.on_event(event),
        }
    }
}


impl<T: DrawTarget + 'static> Button<T> {
    /// The button as a control of any kind.
    pub fn boxed(self) -> (widget: Widget<T>)
        ensures
            widget.control.wf() == self.wf(),
            widget.control.bound() == self.bound(),
            widget.control.bounding_box() == self.bounding_box(),
            widget.control.structure() == self.structure(),
            forall|event: Event| #[trigger] widget.control.emitted(event) == self.emitted(event),
    {
        Widget { control: Box::new(self) }
    }
}

} // verus!
