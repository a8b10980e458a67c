use crate::epaper::target::DrawTarget;
use crate::gui::controls::button::Button;
use crate::gui::controls::stack_panel::StackPanel;
use crate::gui::controls::text::Text;
use crate::gui::fonts::{FontKind, Fonts};
use crate::gui::geometry::{Dimensions, Orientation, Padding, Point, Rectangle, StackUnitDimension};
use crate::gui::layouts::stack::{
    all_bound, all_wf, beaten_structures, broadcast, broadcast_signals, laid_out,
    lemma_all_redraw_joined, lemma_laid_out_by_policies, lemma_same_bindings,
    lemma_same_structures, publish, published_structures, render_stack, route_touch,
    routed_signals, same_structures, settled_structures, stack_box, structures, window_length,
    window_structures,
};
use crate::gui::{
    all_redraw, beaten, lemma_drawn_within_chain, lemma_settled_plain, plain, published,
    settled, Action, CommandSender, Control, ControlSignal, Event, ScrollRequest, Structure,
    Widget,
};
use crate::gui::layouts::stack::{asked_for, routed_structures};
use crate::gui::picture::{
    column_picture, lemma_column_picture, lemma_shows_joined, stacked_picture, window_of,
};
use crate::playback::PlaybackStatus;
use vstd::prelude::*;

verus! {

/// Width of the column that holds the two scroll buttons.
pub const SCROLL_COLUMN_WIDTH: u32 = 30;

/// The index that a scroller at `index` of `total` children moves to when it
/// is asked for one step: down while the index is below `total`, up while it
/// is above zero.
pub open spec fn scrolled_by(index: int, total: int, request: ScrollRequest) -> int {
    match request {
        ScrollRequest::Up => if index > 0 {
            index - 1
        } else {
            index
        },
        ScrollRequest::Down => if index < total {
            index + 1
        } else {
            index
        },
    }
}

/// The index after `requests` are followed in their order.
pub open spec fn scrolled(index: int, total: int, requests: Seq<ScrollRequest>) -> int
    decreases requests.len(),
{
    if requests.len() == 0 {
        index
    } else {
        scrolled_by(scrolled(index, total, requests.drop_last()), total, requests.last())
    }
}

/// Whether one of `requests`, followed in their order, moves the index.
pub open spec fn scroll_moves(index: int, total: int, requests: Seq<ScrollRequest>) -> bool
    decreases requests.len(),
{
    if requests.len() == 0 {
        false
    } else {
        scroll_moves(index, total, requests.drop_last()) || scrolled_by(
            scrolled(index, total, requests.drop_last()),
            total,
            requests.last(),
        ) != scrolled(index, total, requests.drop_last())
    }
}

/// However a scroller is asked to scroll, its index stays between zero and
/// the number of its children, both included.
pub proof fn lemma_scroll_index_in_range(index: int, total: int, requests: Seq<ScrollRequest>)
    requires
        0 <= index <= total,
    ensures
        0 <= scrolled(index, total, requests) <= total,
    decreases requests.len(),
{
    if requests.len() > 0 {
        lemma_scroll_index_in_range(index, total, requests.drop_last());
    }
}

/// The scroll requests among `signals`, in their order.
pub open spec fn scroll_requests_in(signals: Seq<ControlSignal>) -> Seq<ScrollRequest>
    decreases signals.len(),
{
    if signals.len() == 0 {
        Seq::empty()
    } else {
        match signals.last() {
            ControlSignal::Pressed(Action::Scroll(request)) => scroll_requests_in(
                signals.drop_last(),
            ).push(request),
            _ => scroll_requests_in(signals.drop_last()),
        }
    }
}

/// What is left of `signals` without the scroll requests, in their order.
pub open spec fn passed_on(signals: Seq<ControlSignal>) -> Seq<ControlSignal>
    decreases signals.len(),
{
    if signals.len() == 0 {
        Seq::empty()
    } else {
        match signals.last() {
            ControlSignal::Pressed(Action::Scroll(_)) => passed_on(signals.drop_last()),
            _ => passed_on(signals.drop_last()).push(signals.last()),
        }
    }
}

/// Signals that all ask to be redrawn hold no scroll request, and all of
/// them are passed on.
proof fn lemma_redraws_pass(signals: Seq<ControlSignal>)
    requires
        all_redraw(signals),
    ensures
        scroll_requests_in(signals) == Seq::<ScrollRequest>::empty(),
        passed_on(signals) == signals,
    decreases signals.len(),
{
    if signals.len() > 0 {
        assert(signals.last() is Redraw);
        assert forall|i: int| 0 <= i < signals.drop_last().len() implies #[trigger]
            signals.drop_last()[i] is Redraw by {
            assert(signals.drop_last()[i] == signals[i]);
        }
        lemma_redraws_pass(signals.drop_last());
        assert(passed_on(signals) =~= signals);
    } else {
        assert(passed_on(signals) =~= signals);
    }
}

/// Parts the scroll requests among `signals` from the rest.
pub fn split_signals(signals: &Vec<ControlSignal>) -> (parts: (
    Vec<ScrollRequest>,
    Vec<ControlSignal>,
))
    ensures
        parts.0@ == scroll_requests_in(signals@),
        parts.1@ == passed_on(signals@),
{
    let mut requests: Vec<ScrollRequest> = Vec::new();
    let mut rest: Vec<ControlSignal> = Vec::new();
    let mut i: usize = 0;
    while i < signals.len()
        invariant
            i <= signals.len(),
            requests@ == scroll_requests_in(signals@.take(i as int)),
            rest@ == passed_on(signals@.take(i as int)),
        decreases signals.len() - i,
    {
        proof {
            assert(signals@.take(i as int + 1).drop_last() =~= signals@.take(i as int));
            assert(signals@.take(i as int + 1).last() == signals@[i as int]);
        }
        match &signals[i] {
            ControlSignal::Pressed(Action::Scroll(request)) => {
                requests.push(*request);
            },
            other => {
                rest.push(other.clone());
            },
        }
        i += 1;
    }
    proof {
        assert(signals@.take(i as int) =~= signals@);
    }
    (requests, rest)
}

/// Follows `requests` from `index` among `total` children.
pub fn follow_scroll_requests(
    index: usize,
    total: usize,
    requests: &Vec<ScrollRequest>,
) -> (outcome: (usize, bool))
    requires
        index <= total,
    ensures
        outcome.0 == scrolled(index as int, total as int, requests@),
        outcome.1 == scroll_moves(index as int, total as int, requests@),
        outcome.0 <= total,
{
    let mut current: usize = index;
    let mut moved: bool = false;
    let mut i: usize = 0;
    while i < requests.len()
        invariant
            i <= requests.len(),
            current <= total,
            current == scrolled(index as int, total as int, requests@.take(i as int)),
            moved == scroll_moves(index as int, total as int, requests@.take(i as int)),
        decreases requests.len() - i,
    {
        proof {
            assert(requests@.take(i as int + 1).drop_last() =~= requests@.take(i as int));
            assert(requests@.take(i as int + 1).last() == requests@[i as int]);
        }
        match requests[i] {
            ScrollRequest::Up => {
                if current > 0 {
                    current -= 1;
                    moved = true;
                }
            },
            ScrollRequest::Down => {
                if current < total {
                    current += 1;
                    moved = true;
                }
            },
        }
        i += 1;
    }
    proof {
        assert(requests@.take(i as int) =~= requests@);
    }
    (current, moved)
}

/// What the button shows that scrolls up.
pub const UP_LABEL: &'static str = "\u{2B06}";

/// What the button shows that scrolls down.
pub const DOWN_LABEL: &'static str = "\u{2B07}";

/// The policies of the column of buttons: each button has half of it.
pub open spec fn column_policies() -> Seq<StackUnitDimension> {
    seq![StackUnitDimension::Stretch, StackUnitDimension::Stretch]
}

/// What a scroll button is made of: a text in the emoji font inside a
/// padding of five units above and below, asking for a step of the scroller.
pub open spec fn scroll_button(label: Seq<char>, request: ScrollRequest) -> Structure {
    Structure::Button {
        content: Box::new(
            Structure::Text {
                label,
                pending: None,
                font_size: 20,
                font_kind: FontKind::Emoji,
                padding: Padding { top: 0, bottom: 0, left: 0, right: 0 },
                source: None,
            },
        ),
        padding: Padding { top: 5, bottom: 5, left: 0, right: 0 },
        action: Action::Scroll(request),
    }
}

/// What the column of buttons of every scroller is made of: the button that
/// scrolls up above the button that scrolls down.
pub open spec fn scroll_column() -> Structure {
    Structure::StackPanel {
        children: seq![
            scroll_button(UP_LABEL@, ScrollRequest::Up),
            scroll_button(DOWN_LABEL@, ScrollRequest::Down),
        ],
        orientation: Orientation::Vertical,
        policies: column_policies(),
    }
}

/// Nothing that reaches the column of buttons changes what it is made of:
/// it holds no scroller, follows nothing of what the player reports, and has
/// nothing waiting at a heartbeat.
pub proof fn lemma_scroll_column_stays()
    ensures
        plain(scroll_column()),
        settled(scroll_column()) == scroll_column(),
        forall|status: &PlaybackStatus| #[trigger]
            published(scroll_column(), status) == scroll_column(),
        beaten(scroll_column()) == scroll_column(),
{
    assert forall|status: &PlaybackStatus| #[trigger]
        published(scroll_column(), status) == scroll_column() by {
        reveal_with_fuel(published, 4);
        assert(published(scroll_column(), status)->StackPanel_children
            =~= scroll_column()->StackPanel_children);
    }
    reveal_with_fuel(plain, 4);
    reveal_with_fuel(settled, 4);
    reveal_with_fuel(beaten, 4);
    let column = scroll_column();
    let buttons = column->StackPanel_children;
    assert(buttons.len() == 2);
    assert(settled(column)->StackPanel_children =~= buttons);
    assert(beaten(column)->StackPanel_children =~= buttons);
}

/// The width of the column of buttons in a region that is `width` wide: its
/// own width, as far as the region allows.
pub open spec fn column_width(width: u32) -> u32 {
    if width < SCROLL_COLUMN_WIDTH {
        width
    } else {
        SCROLL_COLUMN_WIDTH
    }
}

/// The region of the column of buttons in the region of `dimensions` at
/// `position`: at the trailing edge, from top to bottom.
pub open spec fn column_region(dimensions: Dimensions, position: Point) -> Rectangle {
    Rectangle {
        position: Point(
            (position.0 + (dimensions.width - column_width(dimensions.width))) as u32,
            position.1,
        ),
        dimensions: Dimensions {
            width: column_width(dimensions.width),
            height: dimensions.height,
        },
    }
}

/// The extent that is left for the window of children beside the column of
/// buttons.
pub open spec fn list_extent(dimensions: Dimensions) -> Dimensions {
    Dimensions {
        width: (dimensions.width - column_width(dimensions.width)) as u32,
        height: dimensions.height,
    }
}

/// A list that shows a window of its children, with a column of two buttons
/// at its trailing edge that move the window up and down.
#[verifier::reject_recursive_types(T)]
pub struct ItemScroller<T: DrawTarget> {
    pub children: Vec<Widget<T>>,
    /// How many children the window shows at most.
    pub show_items: usize,
    pub buttons_stack_panel: StackPanel<T>,
    pub buttons_stack_panel_bounding_box: Option<Rectangle>,
    /// The index of the first child of the window.
    pub scroll_index: usize,
    /// The presses of the scroll buttons that were not followed yet.
    pub scroll_requests: Vec<ScrollRequest>,
    pub command_channel: Option<CommandSender<T>>,
    pub bounding_box: Option<Rectangle>,
    /// The regions of the children of the window at the last rendering.
    pub children_bounding_boxes: Option<Vec<Rectangle>>,
    /// The index of the first child of the window at the last rendering.
    pub rendered_from: usize,
}

impl<T: DrawTarget> ItemScroller<T> {
    /// What the column of buttons sends when `event` reaches the scroller: a
    /// touch reaches the column only inside the region it was rendered into.
    pub open spec fn column_signals(&self, event: Event) -> Seq<ControlSignal> {
        match event {
            Event::Touch(point) => if self.buttons_stack_panel_bounding_box matches Some(region)
                && region.covers(point.0 as int, point.1 as int) {
                self.buttons_stack_panel.emitted(event)
            } else {
                Seq::empty()
            },
            Event::Heartbeat => self.buttons_stack_panel.emitted(event),
        }
    }

    /// The scroll requests that wait once `event` has reached the column of
    /// buttons.
    pub open spec fn queued_after(&self, event: Event) -> Seq<ScrollRequest> {
        self.scroll_requests@ + scroll_requests_in(self.column_signals(event))
    }

    /// What the children send when `event` reaches the scroller. A touch goes
    /// to the children that the last rendering showed, by the regions it gave
    /// them; a heartbeat goes to every child.
    pub open spec fn children_signals(&self, event: Event) -> Seq<ControlSignal> {
        match event {
            Event::Touch(point) => match self.children_bounding_boxes {
                Some(boxes) => routed_signals(
                    self.children@,
                    boxes@,
                    self.rendered_from as int,
                    point,
                    boxes@.len() as int,
                ),
                None => Seq::empty(),
            },
            Event::Heartbeat => broadcast_signals(
                self.children@,
                event,
                self.children@.len() as int,
            ),
        }
    }

    /// Whether the scroller asks to be redrawn when `event` reaches it: at a
    /// heartbeat, when it holds the channel and a waiting scroll request moves
    /// its window.
    pub open spec fn asks_redraw(&self, event: Event) -> bool {
        &&& event is Heartbeat
        &&& self.command_channel is Some
        &&& scroll_moves(
            self.scroll_index as int,
            self.children@.len() as int,
            self.queued_after(event),
        )
    }

    /// Whether the child at index `i` is in the window: the window starts at
    /// the scroll index and shows as many children as it is set to show, or
    /// those that are left.
    pub open spec fn in_window(&self, i: int) -> bool {
        self.scroll_index <= i < self.scroll_index + window_length(
            self.scroll_index as int,
            self.show_items as int,
            self.children@.len() as int,
        )
    }

    /// Whether `self` has the children and the window size of `before`.
    pub open spec fn same_setup(&self, before: &ItemScroller<T>) -> bool {
        &&& self.children@.len() == before.children@.len()
        &&& self.show_items == before.show_items
        &&& self.buttons_stack_panel.same_setup(&before.buttons_stack_panel)
    }
}

impl<T: DrawTarget + 'static> ItemScroller<T> {
    /// A scroller over `children` whose window shows `show_items` of them,
    /// starting with the first. The two scroll buttons hold the scroller's own
    /// channel from the start.
    pub fn new(children: Vec<Widget<T>>, show_items: usize) -> (scroller: Self)
        requires
            all_wf(children@),
        ensures
            scroller.wf(),
            scroller.children == children,
            scroller.show_items == show_items,
            scroller.scroll_index == 0,
            scroller.scroll_requests@ == Seq::<ScrollRequest>::empty(),
            scroller.command_channel is None,
            scroller.bounding_box is None,
            scroller.children_bounding_boxes is None,
            scroller.buttons_stack_panel_bounding_box is None,
            scroller.buttons_stack_panel.structure() == scroll_column(),
            scroller.buttons_stack_panel.bound(),
            scroller.buttons_stack_panel.child_boxes is None,
    {
        let up: Button<T> = Button::new(
            Text::new(UP_LABEL.to_string(), 20, FontKind::Emoji, Padding::zero()).boxed(),
            Padding { top: 5, bottom: 5, left: 0, right: 0 },
            Action::Scroll(ScrollRequest::Up),
        );
        let down: Button<T> = Button::new(
            Text::new(DOWN_LABEL.to_string(), 20, FontKind::Emoji, Padding::zero()).boxed(),
            Padding { top: 5, bottom: 5, left: 0, right: 0 },
            Action::Scroll(ScrollRequest::Down),
        );
        let mut buttons: Vec<Widget<T>> = Vec::new();
        buttons.push(up.boxed());
        buttons.push(down.boxed());
        let mut policies: Vec<StackUnitDimension> = Vec::new();
        policies.push(StackUnitDimension::Stretch);
        policies.push(StackUnitDimension::Stretch);
        proof {
            assert(policies@ =~= column_policies());
            assert(structures(buttons@) =~= scroll_column()->StackPanel_children);
        }
        let mut buttons_stack_panel: StackPanel<T> = StackPanel::new(
            buttons,
            Orientation::Vertical,
            policies,
        );
        buttons_stack_panel.register_command_channel(CommandSender::new());
        Self {
            children,
            show_items,
            buttons_stack_panel,
            buttons_stack_panel_bounding_box: None,
            scroll_index: 0,
            scroll_requests: Vec::new(),
            command_channel: None,
            bounding_box: None,
            children_bounding_boxes: None,
            rendered_from: 0,
        }
    }

    /// The scroller as a control of any kind.
    pub fn boxed(self) -> (widget: Widget<T>)
        ensures
            widget.control.wf() == self.wf(),
            widget.control.bound() == self.bound(),
            widget.control.bounding_box() == self.bounding_box(),
            widget.control.structure() == self.structure(),
            forall|event: Event| #[trigger] widget.control.emitted(event) == self.emitted(event),
    {
        Widget { control: Box::new(self) }
    }
}

impl<T: DrawTarget> Control<T> for ItemScroller<T> {
    open spec fn wf(&self) -> bool {
        &&& all_wf(self.children@)
        &&& self.buttons_stack_panel.wf()
        &&& self.buttons_stack_panel.structure() == scroll_column()
        &&& self.scroll_index <= self.children@.len()
        &&& self.children_bounding_boxes matches Some(boxes) ==> self.rendered_from + boxes@.len()
            <= self.children@.len()
    }

    open spec fn bound(&self) -> bool {
        &&& self.command_channel.is_some()
        &&& self.buttons_stack_panel.bound()
        &&& all_bound(self.children@)
    }

    open spec fn bounding_box(&self) -> Option<Rectangle> {
        self.bounding_box
    }

    open spec fn structure(&self) -> Structure {
        Structure::ItemScroller {
            children: structures(self.children@),
            show_items: self.show_items,
            scroll_index: self.scroll_index as int,
            waiting: self.scroll_requests@,
        }
    }

    /// A touch reaches each child that the last rendering showed and whose
    /// region holds it, and the scroll requests that it makes of the column
    /// of buttons wait behind those that waited.
    open spec fn touched(&self, point: Point) -> Structure {
        Structure::ItemScroller {
            children: match self.children_bounding_boxes {
                Some(boxes) => routed_structures(
                    self.children@,
                    boxes@,
                    self.rendered_from as int,
                    point,
                ),
                None => structures(self.children@),
            },
            show_items: self.show_items,
            scroll_index: self.scroll_index as int,
            waiting: self.queued_after(Event::Touch(point)),
        }
    }

    /// What the column of buttons sends apart from scroll requests, then what
    /// the children send, then the request to be redrawn.
    open spec fn emitted(&self, event: Event) -> Seq<ControlSignal> {
        passed_on(self.column_signals(event)) + self.children_signals(event) + if self.asks_redraw(
            event,
        ) {
            seq![ControlSignal::Redraw]
        } else {
            Seq::empty()
        }
    }

    fn register_command_channel(&mut self, tx: CommandSender<T>)
        ensures
            final(self).same_setup(old(self)),
            final(self).scroll_index == old(self).scroll_index,
            final(self).scroll_requests == old(self).scroll_requests,
    {
        self.command_channel = Some(tx);
        self.buttons_stack_panel.register_command_channel(tx);
        let mut i: usize = 0;
        while i < self.children.len()
            invariant
                i <= self.children.len(),
                self.children@.len() == old(self).children@.len(),
                all_wf(self.children@),
                self.show_items == old(self).show_items,
                self.buttons_stack_panel.wf(),
                self.buttons_stack_panel.structure() == scroll_column(),
                self.buttons_stack_panel.bound(),
                self.buttons_stack_panel.same_setup(&old(self).buttons_stack_panel),
                self.buttons_stack_panel_bounding_box == old(self).buttons_stack_panel_bounding_box,
                self.scroll_index == old(self).scroll_index,
                self.scroll_requests == old(self).scroll_requests,
                self.command_channel is Some,
                self.bounding_box == old(self).bounding_box,
                self.children_bounding_boxes == old(self).children_bounding_boxes,
                self.rendered_from == old(self).rendered_from,
                same_structures(old(self).children@, self.children@),
                forall|j: int| 0 <= j < i ==> (#[trigger] self.children@[j]).control.bound(),
            decreases self.children.len() - i,
        {
            self.children[i].control.register_command_channel(tx);
            i += 1;
        }
        proof {
            lemma_same_structures(old(self).children@, self.children@);
        }
    }

    fn on_status(&mut self, status: &PlaybackStatus)
        ensures
            final(self).same_setup(old(self)),
            final(self).scroll_index == old(self).scroll_index,
            final(self).scroll_requests == old(self).scroll_requests,
            final(self).children_bounding_boxes == old(self).children_bounding_boxes,
            final(self).rendered_from == old(self).rendered_from,
    {
        self.buttons_stack_panel.on_status(status);
        publish(&mut self.children, status);
        proof {
            lemma_scroll_column_stays();
            assert(published(old(self).structure(), status)->ItemScroller_children
                =~= published_structures(old(self).children@, status));
            lemma_same_bindings(old(self).children@, self.children@);
        }
    }

    /// A scroller asks for no more than the width of its column of buttons,
    /// each way.
    fn compute_natural_dimensions(&mut self, fonts: &Fonts) -> (natural: Dimensions)
        ensures
            natural == (Dimensions { width: SCROLL_COLUMN_WIDTH, height: SCROLL_COLUMN_WIDTH }),
            *final(self) == *old(self),
    {
        Dimensions::new(SCROLL_COLUMN_WIDTH, SCROLL_COLUMN_WIDTH)
    }

    /// Renders the column of buttons at the trailing edge, as wide as the
    /// region allows up to its own width, and the window of children in what
    /// is left, stacked from the top, each as high as it naturally is.
    /// Children outside the window are not rendered.
    fn render(&mut self, target: &mut T, dimensions: Dimensions, position: Point, fonts: &Fonts)
        ensures
            final(self).same_setup(old(self)),
            final(self).scroll_index == old(self).scroll_index,
            final(self).scroll_requests == old(self).scroll_requests,
            final(self).rendered_from == old(self).scroll_index,
            final(self).bounding_box == Some(Rectangle { position, dimensions }),
            final(self).buttons_stack_panel_bounding_box == Some(
                column_region(dimensions, position),
            ),
            final(self).buttons_stack_panel.bounding_box == Some(
                column_region(dimensions, position),
            ),
            final(self).buttons_stack_panel.child_boxes matches Some(halves) && {
                &&& halves@.len() == 2
                &&& forall|k: int|
                    0 <= k < 2 ==> #[trigger] halves@[k] == stack_box(
                        column_policies(),
                        column_region(dimensions, position).dimensions,
                        column_region(dimensions, position).position,
                        Orientation::Vertical,
                        k,
                    )
            },
            final(self).children_bounding_boxes matches Some(boxes) && {
                &&& boxes@.len() == window_length(
                    old(self).scroll_index as int,
                    old(self).show_items as int,
                    old(self).children@.len() as int,
                )
                &&& forall|k: int|
                    0 <= k < boxes@.len() ==> crate::gui::recorded_in(
                        final(self).children@[old(self).scroll_index + k].control.bounding_box(),
                        old(self).children@[old(self).scroll_index + k].control.structure(),
                        #[trigger] boxes@[k],
                    )
                &&& laid_out(
                    boxes@,
                    Seq::empty(),
                    window_structures(
                        old(self).children@,
                        old(self).scroll_index as int,
                        boxes@.len() as int,
                    ),
                    list_extent(dimensions),
                    position,
                    Orientation::Vertical,
                    fonts,
                )
            },
            forall|i: int|
                0 <= i < old(self).children@.len() && !old(self).in_window(i)
                    ==> #[trigger] final(self).children@[i] == old(self).children@[i],
    {
        let column: u32 = if dimensions.width < SCROLL_COLUMN_WIDTH {
            dimensions.width
        } else {
            SCROLL_COLUMN_WIDTH
        };
        let buttons_dimensions: Dimensions = Dimensions::new(column, dimensions.height);
        let buttons_position: Point = Point(position.0 + (dimensions.width - column), position.1);
        let ghost outer = Rectangle { position, dimensions };
        let ghost column_region = Rectangle {
            position: buttons_position,
            dimensions: buttons_dimensions,
        };
        let ghost list_region = Rectangle {
            position,
            dimensions: Dimensions {
                width: (dimensions.width - column) as u32,
                height: dimensions.height,
            },
        };
        self.buttons_stack_panel.render(target, buttons_dimensions, buttons_position, fonts);
        proof {
            let halves = self.buttons_stack_panel.child_boxes->Some_0;
            let buttons = structures(old(self).buttons_stack_panel.children@);
            assert(buttons == scroll_column()->StackPanel_children);
            lemma_laid_out_by_policies(
                halves@,
                column_policies(),
                buttons,
                buttons_dimensions,
                buttons_position,
                Orientation::Vertical,
                fonts,
            );
        }
        self.buttons_stack_panel_bounding_box = Some(
            Rectangle::new(buttons_position, buttons_dimensions),
        );
        let ghost between = *target;
        let policies: Vec<StackUnitDimension> = Vec::new();
        let boxes: Vec<Rectangle> = render_stack(
            target,
            &mut self.children,
            self.scroll_index,
            self.show_items,
            Dimensions::new(dimensions.width - column, dimensions.height),
            position,
            Orientation::Vertical,
            &policies,
            fonts,
        );
        proof {
            lemma_drawn_within_chain(
                old(target),
                &between,
                target,
                column_region,
                list_region,
                outer,
            );
            lemma_same_bindings(old(self).children@, self.children@);
            let trees = structures(old(self).children@);
            let first = old(self).scroll_index as int;
            let length = boxes@.len() as int;
            assert(window_structures(old(self).children@, first, length) =~= window_of(
                trees,
                first,
                length,
            ));
            lemma_column_picture(fonts, column_region);
            lemma_shows_joined(
                old(target),
                &between,
                target,
                column_picture(fonts, column_region),
                stacked_picture(
                    trees,
                    first,
                    asked_for(
                        Seq::empty(),
                        window_of(trees, first, length),
                        Orientation::Vertical,
                        fonts,
                    ),
                    fonts,
                    list_region,
                    Orientation::Vertical,
                    length,
                ),
            );
        }
        self.children_bounding_boxes = Some(boxes);
        self.rendered_from = self.scroll_index;
        self.bounding_box = Some(Rectangle::new(position, dimensions));
    }

    /// A touch is handed on, and a scroll button that it presses is noted. A
    /// heartbeat is handed on, and then the scroll requests noted so far are
    /// followed.
    fn on_event(&mut self, event: Event) -> (signals: Vec<ControlSignal>)
        ensures
            final(self).same_setup(old(self)),
            event is Touch ==> final(self).scroll_index == old(self).scroll_index,
            event is Touch ==> final(self).scroll_requests@ == old(self).queued_after(event),
            event is Heartbeat ==> final(self).scroll_requests@.len() == 0,
            event is Heartbeat ==> final(self).scroll_index == scrolled(
                old(self).scroll_index as int,
                old(self).children@.len() as int,
                old(self).queued_after(event),
            ),
            final(self).children_bounding_boxes == old(self).children_bounding_boxes,
            final(self).rendered_from == old(self).rendered_from,
    {
        let mut signals: Vec<ControlSignal> = Vec::new();
        let reaches_column: bool = match event {
            Event::Touch(point) => match &self.buttons_stack_panel_bounding_box {
                Some(region) => region.contains(point),
                None => false,
            },
            Event::Heartbeat => true,
        };
        if reaches_column {
            let sent: Vec<ControlSignal> = self.buttons_stack_panel.on_event(event);
            proof {
                lemma_scroll_column_stays();
                if event is Heartbeat {
                    lemma_redraws_pass(sent@);
                } else {
                    lemma_settled_plain(self.buttons_stack_panel.structure());
                }
            }
            let (mut requests, mut rest): (Vec<ScrollRequest>, Vec<ControlSignal>) = split_signals(
                &sent,
            );
            self.scroll_requests.append(&mut requests);
            signals.append(&mut rest);
        }
        proof {
            assert(self.scroll_requests@ =~= old(self).queued_after(event));
            assert(signals@ =~= passed_on(old(self).column_signals(event)));
            if event is Heartbeat {
                assert(self.scroll_requests@ =~= old(self).scroll_requests@);
            }
        }
        let ghost from_column = signals@;
        let mut from_children: Vec<ControlSignal> = match event {
            Event::Touch(point) => match &self.children_bounding_boxes {
                Some(boxes) => route_touch(&mut self.children, boxes, self.rendered_from, point),
                None => Vec::new(),
            },
            Event::Heartbeat => broadcast(&mut self.children, event),
        };
        proof {
            if event is Heartbeat {
                lemma_all_redraw_joined(from_column, from_children@);
            }
        }
        signals.append(&mut from_children);
        proof {
            assert(settled(old(self).structure())->ItemScroller_children =~= settled_structures(
                old(self).children@,
            ));
            assert(settled(self.structure())->ItemScroller_children =~= settled_structures(
                self.children@,
            ));
            assert(beaten(old(self).structure())->ItemScroller_children =~= beaten_structures(
                old(self).children@,
            ));
            lemma_same_bindings(old(self).children@, self.children@);
        }
        match event {
            Event::Touch(_) => {},
            Event::Heartbeat => {
                let (index, moved): (usize, bool) = follow_scroll_requests(
                    self.scroll_index,
                    self.children.len(),
                    &self.scroll_requests,
                );
                self.scroll_index = index;
                self.scroll_requests.clear();
                if moved && self.command_channel.is_some() {
                    let ghost before = signals@;
                    signals.push(ControlSignal::Redraw);
                    proof {
                        lemma_all_redraw_joined(before, seq![ControlSignal::Redraw]);
                        assert(signals@ =~= before + seq![ControlSignal::Redraw]);
                    }
                }
            },
        }
        proof {
            assert(signals@ =~= old(self).emitted(event));
        }
        signals
    }
}

} // verus!
