use crate::epaper::target::{painted, BinaryColor, DrawTarget, Pixel};
use crate::gui::drawing::{block, block_image, draw_inside};
use crate::gui::fonts::Fonts;
use crate::gui::geometry::{Dimensions, Padding, Point, Rectangle};
use crate::gui::reactivity::property::{written, ReactiveProperty};
use crate::playback::PlaybackStatus;
use crate::gui::{
    lemma_drawn_within_chain, taken_over, CommandSender, Control, ControlSignal,
    Event, Structure, Widget,
};
use vstd::prelude::*;

verus! {

/// How many of `width` columns a bar fills that stands at `progress` of
/// `progress_max`: the same share of the width, rounded down. A bar whose
/// progress is beyond its maximum is full; one without a maximum is empty.
pub open spec fn filled_columns(width: u32, progress: u64, progress_max: u64) -> u32 {
    if progress_max == 0 {
        0
    } else if progress >= progress_max {
        width
    } else {
        ((width * progress) / (progress_max as int)) as u32
    }
}

/// How many of `width` columns a bar fills that stands at `progress` of
/// `progress_max`.
#[verifier::when_used_as_spec(filled_columns)]
pub fn fill_width(width: u32, progress: u64, progress_max: u64) -> (filled: u32)
    ensures
        filled == filled_columns(width, progress, progress_max),
        filled <= width,
{
    if progress_max == 0 {
        0
    } else if progress >= progress_max {
        width
    } else {
        proof {
            assert(width * progress <= width * progress_max) by (nonlinear_arith)
                requires
                    progress < progress_max,
            ;
            assert((width * progress) / (progress_max as int) <= width) by (nonlinear_arith)
                requires
                    width * progress <= width * progress_max,
                    progress_max > 0,
            ;
            assert(width * progress <= u32::MAX * u64::MAX) by (nonlinear_arith)
                requires
                    width <= u32::MAX,
                    progress <= u64::MAX,
            ;
        }
        let scaled: u128 = width as u128 * progress as u128;
        (scaled / progress_max as u128) as u32
    }
}

/// A bar that shows how far a track has played. Progress and maximum can be
/// replaced from outside through their reactive properties; the replacements
/// are taken over at the next heartbeat.
pub struct ProgressBar<T> {
    progress: u64,
    progress_max: u64,
    height: u32,
    padding: Padding,
    progress_property: ReactiveProperty<u64>,
    progress_max_property: ReactiveProperty<u64>,
    follows_playback: bool,
    command_channel: Option<CommandSender<T>>,
    bounding_box: Option<Rectangle>,
}

impl<T> ProgressBar<T> {
    /// The progress that the bar shows.
    pub closed spec fn progress_shown(&self) -> u64 {
        self.progress
    }

    /// The progress at which the bar is full.
    pub closed spec fn progress_max_shown(&self) -> u64 {
        self.progress_max
    }

    /// The progress that was written and not yet taken over.
    pub closed spec fn pending_progress(&self) -> Option<u64> {
        self.progress_property@
    }

    /// The maximum that was written and not yet taken over.
    pub closed spec fn pending_progress_max(&self) -> Option<u64> {
        self.progress_max_property@
    }

    /// The height of the bar itself.
    pub closed spec fn height(&self) -> u32 {
        self.height
    }

    /// The space kept free around the bar.
    pub closed spec fn padding(&self) -> Padding {
        self.padding
    }

    /// Whether the bar holds the command channel.
    pub closed spec fn has_channel(&self) -> bool {
        self.command_channel.is_some()
    }

    /// Whether the bar follows the playback status.
    pub closed spec fn follows_playback(&self) -> bool {
        self.follows_playback
    }

    /// The region that the bar was given when it was last rendered.
    pub closed spec fn last_box(&self) -> Option<Rectangle> {
        self.bounding_box
    }

    /// The pixels of the bar when it is rendered into the region of
    /// `dimensions` at `position`.
    pub open spec fn bar_image(&self, dimensions: Dimensions, position: Point) -> Seq<Pixel> {
        let inner = self.padding().spec_adjust_dimensions(dimensions);
        block_image(
            self.padding().spec_adjust_position(position),
            filled_columns(inner.width, self.progress_shown(), self.progress_max_shown()),
            if self.height() <= inner.height {
                self.height()
            } else {
                inner.height
            },
            BinaryColor::On,
        )
    }

    /// Whether a heartbeat changes what the bar shows.
    pub open spec fn changes(&self) -> bool {
        ||| taken_over(self.progress_shown(), self.pending_progress()) != self.progress_shown()
        ||| taken_over(self.progress_max_shown(), self.pending_progress_max())
            != self.progress_max_shown()
    }

    /// Whether `self` is `before` but for what it shows and what is pending.
    pub open spec fn same_setup(&self, before: &ProgressBar<T>) -> bool {
        &&& self.height() == before.height()
        &&& self.padding() == before.padding()
        &&& self.follows_playback() == before.follows_playback()
        &&& self.has_channel() == before.has_channel()
        &&& self.last_box() == before.last_box()
    }

    /// Whether `self` shows what `before` shows and has the same waiting.
    pub open spec fn same_values(&self, before: &ProgressBar<T>) -> bool {
        &&& self.progress_shown() == before.progress_shown()
        &&& self.progress_max_shown() == before.progress_max_shown()
        &&& self.pending_progress() == before.pending_progress()
        &&& self.pending_progress_max() == before.pending_progress_max()
    }

    /// A bar of `height` units that stands at `progress` of `progress_max`,
    /// inside `padding`.
    pub fn new(progress: u64, progress_max: u64, height: u32, padding: Padding) -> (bar: Self)
        ensures
            bar.progress_shown() == progress,
            bar.progress_max_shown() == progress_max,
            bar.pending_progress() is None,
            bar.pending_progress_max() is None,
            bar.height() == height,
            bar.padding() == padding,
            !bar.follows_playback(),
            !bar.has_channel(),
            bar.last_box() is None,
    {
        Self {
            progress,
            progress_max,
            height,
            padding,
            progress_property: ReactiveProperty::new(),
            progress_max_property: ReactiveProperty::new(),
            follows_playback: false,
            command_channel: None,
            bounding_box: None,
        }
    }

    /// Makes the bar follow the playback status: its progress the seconds
    /// played, its maximum the seconds that the track lasts.
    pub fn follow_playback(&mut self)
        ensures
            final(self).follows_playback(),
            final(self).same_values(old(self)),
            final(self).height() == old(self).height(),
            final(self).padding() == old(self).padding(),
            final(self).has_channel() == old(self).has_channel(),
            final(self).last_box() == old(self).last_box(),
    {
        self.follows_playback = true;
    }

    /// The property through which the progress is replaced from outside.
    pub fn progress(&mut self) -> (property: &mut ReactiveProperty<u64>)
        ensures
            property@ == old(self).pending_progress(),
            final(self).pending_progress() == final(property)@,
            final(self).pending_progress_max() == old(self).pending_progress_max(),
            final(self).progress_shown() == old(self).progress_shown(),
            final(self).progress_max_shown() == old(self).progress_max_shown(),
            final(self).same_setup(old(self)),
    {
        &mut self.progress_property
    }

    /// The property through which the maximum is replaced from outside.
    pub fn progress_max(&mut self) -> (property: &mut ReactiveProperty<u64>)
        ensures
            property@ == old(self).pending_progress_max(),
            final(self).pending_progress_max() == final(property)@,
            final(self).pending_progress() == old(self).pending_progress(),
            final(self).progress_shown() == old(self).progress_shown(),
            final(self).progress_max_shown() == old(self).progress_max_shown(),
            final(self).same_setup(old(self)),
    {
        &mut self.progress_max_property
    }

    /// The progress and the maximum that the bar shows.
    pub fn values(&self) -> (values: (u64, u64))
        ensures
            values == (self.progress_shown(), self.progress_max_shown()),
    {
        (self.progress, self.progress_max)
    }
}

impl<T: DrawTarget + 'static> ProgressBar<T> {
    /// The bar as a control of any kind.
    pub fn boxed(self) -> (widget: Widget<T>)
        ensures
            widget.control.wf(),
            widget.control.bound() == self.has_channel(),
            widget.control.bounding_box() == self.last_box(),
            widget.control.structure() == self.structure(),
            forall|event: Event| #[trigger] widget.control.emitted(event) == self.emitted(event),
    {
        Widget { control: Box::new(self) }
    }
}

impl<T: DrawTarget> Control<T> for ProgressBar<T> {
    open spec fn wf(&self) -> bool {
        true
    }

    open spec fn bound(&self) -> bool {
        self.has_channel()
    }

    open spec fn bounding_box(&self) -> Option<Rectangle> {
        self.last_box()
    }

    open spec fn structure(&self) -> Structure {
        Structure::ProgressBar {
            progress: self.progress_shown(),
            progress_max: self.progress_max_shown(),
            pending_progress: self.pending_progress(),
            pending_progress_max: self.pending_progress_max(),
            height: self.height(),
            padding: self.padding(),
            follows_playback: self.follows_playback(),
        }
    }

    /// A touch changes nothing of what the control is made of.
    open spec fn touched(&self, point: Point) -> Structure {
        self.structure()
    }

    /// A bar speaks up at a heartbeat, when what is pending changes what it
    /// shows and it holds the channel: then it asks to be redrawn.
    open spec fn emitted(&self, event: Event) -> Seq<ControlSignal> {
        if event is Heartbeat && self.has_channel() && self.changes() {
            seq![ControlSignal::Redraw]
        } else {
            Seq::empty()
        }
    }

    fn register_command_channel(&mut self, tx: CommandSender<T>)
        ensures
            final(self).same_values(old(self)),
    {
        self.command_channel = Some(tx);
    }

    /// A bar that follows the playback gets the seconds played and the
    /// seconds that the track lasts written to its properties.
    fn on_status(&mut self, status: &PlaybackStatus)
        ensures
            final(self).same_setup(old(self)),
            final(self).progress_shown() == old(self).progress_shown(),
            final(self).progress_max_shown() == old(self).progress_max_shown(),
            final(self).pending_progress() == if old(self).follows_playback() {
                written(old(self).pending_progress(), status.elapsed)
            } else {
                old(self).pending_progress()
            },
            final(self).pending_progress_max() == if old(self).follows_playback() {
                written(old(self).pending_progress_max(), status.total_length)
            } else {
                old(self).pending_progress_max()
            },
    {
        if self.follows_playback {
            self.progress_property.send(status.elapsed());
            self.progress_max_property.send(status.total_length());
        }
    }

    /// No width beyond its padding, since a bar takes the width it is given;
    /// its height with the padding above and below.
    fn compute_natural_dimensions(&mut self, fonts: &Fonts) -> (natural: Dimensions)
        ensures
            natural == (Dimensions {
                width: old(self).padding().spec_total_horizontal(),
                height: crate::gui::geometry::clamped_sum(
                    old(self).height(),
                    old(self).padding().spec_total_vertical(),
                ),
            }),
            final(self).same_values(old(self)),
            final(self).same_setup(old(self)),
    {
        Dimensions::new(
            self.padding.total_horizontal(),
            self.height.saturating_add(self.padding.total_vertical()),
        )
    }

    /// Draws the bar at the top left of the region that the padding leaves:
    /// as high as the bar is, as far as the region reaches, and as wide as
    /// the share of the region that the progress has of its maximum.
    fn render(&mut self, target: &mut T, dimensions: Dimensions, position: Point, fonts: &Fonts)
        ensures
            final(self).same_values(old(self)),
            final(self).last_box() == Some(Rectangle { position, dimensions }),
            forall|x: i32, y: i32| #[trigger]
                final(target).color_at(x, y) == if old(target).holds(x, y) {
                    painted(
                        old(self).bar_image(dimensions, position),
                        x,
                        y,
                        old(target).color_at(x, y),
                    )
                } else {
                    old(target).color_at(x, y)
                },
    {
        let inner_dimensions: Dimensions = self.padding.adjust_dimensions(dimensions);
        let inner_position: Point = self.padding.adjust_position(position);
        proof {
            self.padding.lemma_adjusted_region_is_enclosed(position, dimensions);
        }
        let columns: u32 = fill_width(inner_dimensions.width, self.progress, self.progress_max);
        let rows: u32 = if self.height <= inner_dimensions.height {
            self.height
        } else {
            inner_dimensions.height
        };
        let image: Vec<Pixel> = block(inner_position, columns, rows, BinaryColor::On);
        let ghost before = *target;
        let ghost bar = Rectangle {
            position: inner_position,
            dimensions: Dimensions { width: columns, height: rows },
        };
        draw_inside(target, image.as_slice(), Ghost(bar));
        proof {
            lemma_drawn_within_chain(
                &before,
                &before,
                target,
                bar,
                bar,
                Rectangle { position, dimensions },
            );
        }
        self.bounding_box = Some(Rectangle::new(position, dimensions));
    }

    /// At a heartbeat the bar takes over what is pending in its properties.
    fn on_event(&mut self, event: Event) -> (signals: Vec<ControlSignal>)
        ensures
            final(self).same_setup(old(self)),
            event is Touch ==> final(self).same_values(old(self)),
            event is Heartbeat ==> {
                &&& final(self).pending_progress() is None
                &&& final(self).pending_progress_max() is None
                &&& final(self).progress_shown() == taken_over(
                    old(self).progress_shown(),
                    old(self).pending_progress(),
                )
                &&& final(self).progress_max_shown() == taken_over(
                    old(self).progress_max_shown(),
                    old(self).pending_progress_max(),
                )
            },
    {
        let mut signals: Vec<ControlSignal> = Vec::new();
        match event {
            Event::Touch(_) => {},
            Event::Heartbeat => {
                let mut redraw: bool = false;
                if let Some(progress) = self.progress_property.latest_value() {
                    if progress != self.progress {
                        self.progress = progress;
                        redraw = true;
                    }
                }
                if let Some(progress_max) = self.progress_max_property.latest_value() {
                    if progress_max != self.progress_max {
                        self.progress_max = progress_max;
                        redraw = true;
                    }
                }
                if redraw && self.command_channel.is_some() {
                    signals.push(ControlSignal::Redraw);
                }
            },
        }
        proof {
            assert(signals@ =~= old(self).emitted(event));
        }
        signals
    }
}

} // verus!
