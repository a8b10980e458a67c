use crate::epaper::target::DrawTarget;
use crate::gui::fonts::Fonts;
use crate::gui::geometry::{Dimensions, Orientation, Point, Rectangle, StackUnitDimension};
use crate::gui::layouts::stack::{
    all_bound, all_wf, beaten_structures, broadcast, broadcast_signals, laid_out,
    lemma_same_bindings, lemma_same_structures, publish, published_structures, render_stack,
    route_touch, routed_signals, routed_structures, same_boxes, same_controls, same_structures,
    settled_structures,
    structures, window_structures,
};
use crate::gui::{
    beaten, published, recorded_in, settled, CommandSender, Control, ControlSignal, Event,
    Structure, Widget,
};
use crate::playback::PlaybackStatus;
use vstd::prelude::*;

verus! {

/// A control that lays its children out in a row or in a column.
#[verifier::reject_recursive_types(T)]
pub struct StackPanel<T: DrawTarget> {
    pub children: Vec<Widget<T>>,
    pub orientation: Orientation,
    /// How much of the axis each child is given, child by child. A child
    /// beyond the end of the policies takes its natural size.
    pub policies: Vec<StackUnitDimension>,
    pub command_channel: Option<CommandSender<T>>,
    pub bounding_box: Option<Rectangle>,
    /// The region of each child at the last rendering.
    pub child_boxes: Option<Vec<Rectangle>>,
}

impl<T: DrawTarget> StackPanel<T> {
    /// A panel that stacks `children` along `orientation`, child `k` by
    /// `policies[k]`.
    pub fn new(
        children: Vec<Widget<T>>,
        orientation: Orientation,
        policies: Vec<StackUnitDimension>,
    ) -> (panel: Self)
        requires
            all_wf(children@),
        ensures
            panel.wf(),
            panel.children == children,
            panel.orientation == orientation,
            panel.policies == policies,
            panel.command_channel is None,
            panel.bounding_box is None,
            panel.child_boxes is None,
    {
        Self {
            children,
            orientation,
            policies,
            command_channel: None,
            bounding_box: None,
            child_boxes: None,
        }
    }

    /// Whether `self` has as many children as `before`, laid out the same way.
    pub open spec fn same_setup(&self, before: &StackPanel<T>) -> bool {
        &&& self.children@.len() == before.children@.len()
        &&& self.orientation == before.orientation
        &&& self.policies == before.policies
    }

    /// Whether the children of `self` are those of `before` with the bindings
    /// and the bounding boxes they had.
    pub open spec fn same_children(&self, before: &StackPanel<T>) -> bool {
        &&& same_controls(before.children@, self.children@)
        &&& same_boxes(before.children@, self.children@)
    }
}

impl<T: DrawTarget + 'static> StackPanel<T> {
    /// The panel as a control of any kind.
    pub fn boxed(self) -> (widget: Widget<T>)
        ensures
            widget.control.wf() == self.wf(),
            widget.control.bound() == self.bound(),
            widget.control.bounding_box() == self.bounding_box(),
            widget.control.structure() == self.structure(),
            forall|event: Event| #[trigger] widget.control.emitted(event) == self.emitted(event),
    {
        Widget { control: Box::new(self) }
    }
}

impl<T: DrawTarget> Control<T> for StackPanel<T> {
    open spec fn wf(&self) -> bool {
        &&& all_wf(self.children@)
        &&& self.child_boxes matches Some(boxes) ==> boxes@.len() == self.children@.len()
    }

    open spec fn bound(&self) -> bool {
        self.command_channel.is_some() && all_bound(self.children@)
    }

    open spec fn bounding_box(&self) -> Option<Rectangle> {
        self.bounding_box
    }

    open spec fn structure(&self) -> Structure {
        Structure::StackPanel {
            children: structures(self.children@),
            orientation: self.orientation,
            policies: self.policies@,
        }
    }

    /// A touch reaches each child whose region at the last rendering holds
    /// it, and no child before the panel was rendered.
    open spec fn touched(&self, point: Point) -> Structure {
        Structure::StackPanel {
            children: match self.child_boxes {
                Some(boxes) => routed_structures(self.children@, boxes@, 0, point),
                None => structures(self.children@),
            },
            orientation: self.orientation,
            policies: self.policies@,
        }
    }

    /// A touch goes to each child whose region at the last rendering holds
    /// it; a heartbeat goes to every child.
    open spec fn emitted(&self, event: Event) -> Seq<ControlSignal> {
        match event {
            Event::Touch(point) => match self.child_boxes {
                Some(boxes) => routed_signals(
                    self.children@,
                    boxes@,
                    0,
                    point,
                    boxes@.len() as int,
                ),
                None => Seq::empty(),
            },
            Event::Heartbeat => broadcast_signals(
                self.children@,
                event,
                self.children@.len() as int,
            ),
        }
    }

    fn register_command_channel(&mut self, tx: CommandSender<T>)
        ensures
            final(self).same_setup(old(self)),
            final(self).child_boxes == old(self).child_boxes,
            same_boxes(old(self).children@, final(self).children@),
    {
        self.command_channel = Some(tx);
        let mut i: usize = 0;
        while i < self.children.len()
            invariant
                i <= self.children.len(),
                self.children@.len() == old(self).children@.len(),
                all_wf(self.children@),
                self.orientation == old(self).orientation,
                self.policies == old(self).policies,
                self.command_channel is Some,
                self.bounding_box == old(self).bounding_box,
                self.child_boxes == old(self).child_boxes,
                same_structures(old(self).children@, self.children@),
                same_boxes(old(self).children@, self.children@),
                forall|j: int| 0 <= j < i ==> (#[trigger] self.children@[j]).control.bound(),
            decreases self.children.len() - i,
        {
            self.children[i].control.register_command_channel(tx);
            i += 1;
        }
        proof {
            lemma_same_structures(old(self).children@, self.children@);
        }
    }

    fn on_status(&mut self, status: &PlaybackStatus)
        ensures
            final(self).same_setup(old(self)),
            final(self).same_children(old(self)),
            final(self).child_boxes == old(self).child_boxes,
            final(self).command_channel == old(self).command_channel,
    {
        publish(&mut self.children, status);
        proof {
            assert(published(old(self).structure(), status)->StackPanel_children
                =~= published_structures(old(self).children@, status));
            lemma_same_bindings(old(self).children@, self.children@);
        }
    }

    /// Along the axis, what the children ask for, all together: the units of
    /// a fixed policy, nothing for a stretching one, the natural size without
    /// a policy. Across the axis, the largest natural size of a child.
    fn compute_natural_dimensions(&mut self, fonts: &Fonts) -> (natural: Dimensions)
        ensures
            final(self).same_setup(old(self)),
            final(self).same_children(old(self)),
            final(self).child_boxes == old(self).child_boxes,
            natural == crate::gui::layouts::natural::stacked_natural(
                old(self).orientation,
                old(self).policies@,
                crate::gui::layouts::natural::natural_sizes(structures(old(self).children@), fonts),
            ),
    {
        let mut along: u32 = 0;
        let mut across: u32 = 0;
        let ghost naturals = crate::gui::layouts::natural::natural_sizes(
            structures(old(self).children@),
            fonts,
        );
        let mut i: usize = 0;
        while i < self.children.len()
            invariant
                i <= self.children.len(),
                self.children@.len() == old(self).children@.len(),
                all_wf(self.children@),
                self.orientation == old(self).orientation,
                self.policies == old(self).policies,
                self.command_channel == old(self).command_channel,
                self.bounding_box == old(self).bounding_box,
                self.child_boxes == old(self).child_boxes,
                same_structures(old(self).children@, self.children@),
                same_boxes(old(self).children@, self.children@),
                forall|j: int|
                    0 <= j < self.children@.len() ==> (#[trigger] self.children@[j]).control.bound()
                        == old(self).children@[j].control.bound(),
                forall|j: int|
                    i <= j < self.children@.len() ==> #[trigger] self.children@[j] == old(
                        self,
                    ).children@[j],
                naturals == crate::gui::layouts::natural::natural_sizes(
                    structures(old(self).children@),
                    fonts,
                ),
                along == crate::gui::layouts::natural::stacked_along(
                    self.orientation,
                    self.policies@,
                    naturals,
                    i as int,
                ),
                across == crate::gui::layouts::natural::stacked_across(
                    self.orientation,
                    naturals,
                    i as int,
                ),
            decreases self.children.len() - i,
        {
            let natural: Dimensions = self.children[i].control.compute_natural_dimensions(fonts);
            proof {
                assert(natural == naturals[i as int]);
            }
            let (child_along, child_across): (u32, u32) = match self.orientation {
                Orientation::Horizontal => (natural.width, natural.height),
                Orientation::Vertical => (natural.height, natural.width),
            };
            let asked: u32 = if i < self.policies.len() {
                match self.policies[i] {
                    StackUnitDimension::Pixel(units) => units,
                    StackUnitDimension::Stretch => 0,
                }
            } else {
                child_along
            };
            along = along.saturating_add(asked);
            if child_across > across {
                across = child_across;
            }
            i += 1;
        }
        proof {
            lemma_same_bindings(old(self).children@, self.children@);
            lemma_same_structures(old(self).children@, self.children@);
        }
        match self.orientation {
            Orientation::Horizontal => Dimensions::new(along, across),
            Orientation::Vertical => Dimensions::new(across, along),
        }
    }

    /// Renders every child into its share of the region, stacked along the
    /// orientation of the panel.
    fn render(&mut self, target: &mut T, dimensions: Dimensions, position: Point, fonts: &Fonts)
        ensures
            final(self).same_setup(old(self)),
            final(self).bounding_box == Some(Rectangle { position, dimensions }),
            final(self).child_boxes matches Some(boxes) && {
                &&& forall|k: int|
                    0 <= k < boxes@.len() ==> {
                        &&& recorded_in(
                            final(self).children@[k].control.bounding_box(),
                            old(self).children@[k].control.structure(),
                            #[trigger] boxes@[k],
                        )
                        &&& (Rectangle { position, dimensions }).encloses(boxes@[k])
                    }
                &&& laid_out(
                    boxes@,
                    old(self).policies@,
                    structures(old(self).children@),
                    dimensions,
                    position,
                    old(self).orientation,
                    fonts,
                )
            },
    {
        let count: usize = self.children.len();
        let boxes: Vec<Rectangle> = render_stack(
            target,
            &mut self.children,
            0,
            count,
            dimensions,
            position,
            self.orientation,
            &self.policies,
            fonts,
        );
        proof {
            assert(window_structures(old(self).children@, 0, boxes@.len() as int) =~= structures(
                old(self).children@,
            ));
            lemma_same_bindings(old(self).children@, self.children@);
        }
        self.child_boxes = Some(boxes);
        self.bounding_box = Some(Rectangle::new(position, dimensions));
    }

    fn on_event(&mut self, event: Event) -> (signals: Vec<ControlSignal>)
        ensures
            final(self).same_setup(old(self)),
            final(self).same_children(old(self)),
            final(self).child_boxes == old(self).child_boxes,
    {
        let signals: Vec<ControlSignal> = match event {
            Event::Touch(point) => match &self.child_boxes {
                Some(boxes) => route_touch(&mut self.children, boxes, 0, point),
                None => Vec::new(),
            },
            Event::Heartbeat => broadcast(&mut self.children, event),
        };
        proof {
            assert(beaten(old(self).structure())->StackPanel_children =~= beaten_structures(
                old(self).children@,
            ));
            assert(settled(old(self).structure())->StackPanel_children =~= settled_structures(
                old(self).children@,
            ));
            assert(settled(self.structure())->StackPanel_children =~= settled_structures(
                self.children@,
            ));
            lemma_same_bindings(old(self).children@, self.children@);
        }
        signals
    }
}

} // verus!
