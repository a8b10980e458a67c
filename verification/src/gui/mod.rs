use crate::epaper::target::{painted, BinaryColor, DrawTarget, FlushableDrawTarget, Pixel};
use crate::gui::drawing::{block, lemma_block_fills, lemma_painted_in_one_color};
use crate::gui::controls::item_scroller::{lemma_scroll_index_in_range, scrolled};
use crate::gui::fonts::Fonts;
use crate::gui::fonts::FontKind;
use crate::gui::geometry::{
    Dimensions, Orientation, Padding, Point, Rectangle, StackUnitDimension,
};
use crate::playback::{PlaybackStatus, StatusField};
use std::marker::PhantomData;
use vstd::prelude::*;

pub mod controls;
pub mod drawing;
pub mod fonts;
pub mod geometry;
pub mod layouts;
pub mod picture;
pub mod reactivity;

verus! {

/// How many milliseconds the run loop waits for an event before it goes on
/// without one.
pub const INPUT_WAIT_MILLISECONDS: u64 = 50;

/// What comes into the run loop from outside.
#[derive(Clone, Copy, PartialEq, Eq, Structural, Debug)]
pub enum Event {
    /// The screen was touched at this position.
    Touch(Point),
    /// A tick has passed.
    Heartbeat,
}

/// The events of one iteration of the run loop: the events that came in, in
/// their order, and after them the heartbeat that every iteration brings.
pub fn iteration_events(arrived: Vec<Event>) -> (events: Vec<Event>)
    ensures
        events@ == arrived@.push(Event::Heartbeat),
{
    let mut events = arrived;
    events.push(Event::Heartbeat);
    events
}

/// A step that a scroller is asked to take.
#[derive(Clone, Copy, PartialEq, Eq, Structural, Debug)]
pub enum ScrollRequest {
    Up,
    Down,
}

/// What the press of a button asks for.
#[derive(Debug, PartialEq, Eq)]
pub enum Action {
    /// Move the list around the button by one entry.
    Scroll(ScrollRequest),
    /// Show the list of artists.
    Home,
    /// Show the albums of this artist.
    OpenArtist(String),
    /// Play this album of this artist, and show what is playing.
    OpenAlbum(String, String),
    /// Stop playing.
    Stop,
    /// Pause what is playing, or go on with what is paused.
    PlayPause,
}

impl Clone for Action {
    fn clone(&self) -> (copy: Self)
        ensures
            copy == *self,
    {
        match self {
            Action::Scroll(request) => Action::Scroll(*request),
            Action::Home => Action::Home,
            Action::OpenArtist(artist) => Action::OpenArtist(artist.clone()),
            Action::OpenAlbum(artist, album) => Action::OpenAlbum(artist.clone(), album.clone()),
            Action::Stop => Action::Stop,
            Action::PlayPause => Action::PlayPause,
        }
    }
}

/// What a control sends on the command channel of its tree.
#[derive(Debug, PartialEq, Eq)]
pub enum ControlSignal {
    /// What the control shows has changed.
    Redraw,
    /// A button was pressed.
    Pressed(Action),
}

impl Clone for ControlSignal {
    fn clone(&self) -> (copy: Self)
        ensures
            copy == *self,
    {
        match self {
            ControlSignal::Redraw => ControlSignal::Redraw,
            ControlSignal::Pressed(action) => ControlSignal::Pressed(action.clone()),
        }
    }
}

/// The sending end of the command channel of a tree. A control that was
/// handed none sends nothing.
pub struct CommandSender<T> {
    target: PhantomData<T>,
}

impl<T> CommandSender<T> {
    /// A sending end for the channel of a tree.
    pub fn new() -> (tx: Self) {
        CommandSender { target: PhantomData }
    }
}

impl<T> Clone for CommandSender<T> {
    fn clone(&self) -> (tx: Self) {
        CommandSender { target: PhantomData }
    }
}

impl<T> Copy for CommandSender<T> {

}

/// What a tree of controls is made of, what it shows, and what was written
/// to it and waits for the next heartbeat.
pub enum Structure {
    Text {
        label: Seq<char>,
        pending: Option<Seq<char>>,
        font_size: usize,
        font_kind: FontKind,
        padding: Padding,
        source: Option<StatusField>,
    },
    Button { content: Box<Structure>, padding: Padding, action: Action },
    StackPanel {
        children: Seq<Structure>,
        orientation: Orientation,
        policies: Seq<StackUnitDimension>,
    },
    ItemScroller {
        children: Seq<Structure>,
        show_items: usize,
        /// The index of the first child of the window.
        scroll_index: int,
        /// The presses of the scroll buttons that were not followed yet.
        waiting: Seq<ScrollRequest>,
    },
    ProgressBar {
        progress: u64,
        progress_max: u64,
        pending_progress: Option<u64>,
        pending_progress_max: Option<u64>,
        height: u32,
        padding: Padding,
        follows_playback: bool,
    },
}

/// The tree once what the player reports was written to it: every text that
/// follows a field of the status has what the status says there waiting, and
/// every bar that follows the playback the seconds played and the seconds
/// that the track lasts.
pub open spec fn published(tree: Structure, status: &PlaybackStatus) -> Structure
    decreases tree,
{
    match tree {
        Structure::Text {
            label,
            pending,
            font_size,
            font_kind,
            padding,
            source,
        } => Structure::Text {
            label,
            pending: match source {
                Some(field) => Some(field.spec_of(status)@),
                None => pending,
            },
            font_size,
            font_kind,
            padding,
            source,
        },
        Structure::Button { content, padding, action } => Structure::Button {
            content: Box::new(published(*content, status)),
            padding,
            action,
        },
        Structure::StackPanel { children, orientation, policies } => Structure::StackPanel {
            children: Seq::new(
                children.len(),
                |i: int|
                    if 0 <= i < children.len() {
                        published(children[i], status)
                    } else {
                        tree
                    },
            ),
            orientation,
            policies,
        },
        Structure::ItemScroller {
            children,
            show_items,
            scroll_index,
            waiting,
        } => Structure::ItemScroller {
            children: Seq::new(
                children.len(),
                |i: int|
                    if 0 <= i < children.len() {
                        published(children[i], status)
                    } else {
                        tree
                    },
            ),
            show_items,
            scroll_index,
            waiting,
        },
        Structure::ProgressBar {
            progress,
            progress_max,
            pending_progress,
            pending_progress_max,
            height,
            padding,
            follows_playback,
        } => Structure::ProgressBar {
            progress,
            progress_max,
            pending_progress: if follows_playback {
                Some(status.elapsed)
            } else {
                pending_progress
            },
            pending_progress_max: if follows_playback {
                Some(status.total_length)
            } else {
                pending_progress_max
            },
            height,
            padding,
            follows_playback,
        },
    }
}

/// The value that is shown after a heartbeat, when `shown` was shown and
/// `pending` waited.
pub open spec fn taken_over<V>(shown: V, pending: Option<V>) -> V {
    match pending {
        Some(value) => value,
        None => shown,
    }
}

/// The tree after a heartbeat: every text and every bar shows what waited for
/// it, every scroller has followed the scroll requests that waited for it,
/// and nothing waits any more.
pub open spec fn beaten(tree: Structure) -> Structure
    decreases tree,
{
    match tree {
        Structure::Text {
            label,
            pending,
            font_size,
            font_kind,
            padding,
            source,
        } => Structure::Text {
            label: taken_over(label, pending),
            pending: None,
            font_size,
            font_kind,
            padding,
            source,
        },
        Structure::Button { content, padding, action } => Structure::Button {
            content: Box::new(beaten(*content)),
            padding,
            action,
        },
        Structure::StackPanel { children, orientation, policies } => Structure::StackPanel {
            children: Seq::new(
                children.len(),
                |i: int|
                    if 0 <= i < children.len() {
                        beaten(children[i])
                    } else {
                        tree
                    },
            ),
            orientation,
            policies,
        },
        Structure::ItemScroller {
            children,
            show_items,
            scroll_index,
            waiting,
        } => Structure::ItemScroller {
            children: Seq::new(
                children.len(),
                |i: int|
                    if 0 <= i < children.len() {
                        beaten(children[i])
                    } else {
                        tree
                    },
            ),
            show_items,
            scroll_index: scrolled(scroll_index, children.len() as int, waiting),
            waiting: Seq::empty(),
        },
        Structure::ProgressBar {
            progress,
            progress_max,
            pending_progress,
            pending_progress_max,
            height,
            padding,
            follows_playback,
        } => Structure::ProgressBar {
            progress: taken_over(progress, pending_progress),
            progress_max: taken_over(progress_max, pending_progress_max),
            pending_progress: None,
            pending_progress_max: None,
            height,
            padding,
            follows_playback,
        },
    }
}

/// The tree without the scroll requests that wait in its scrollers: what a
/// touch leaves as it is.
pub open spec fn settled(tree: Structure) -> Structure
    decreases tree,
{
    match tree {
        Structure::Button { content, padding, action } => Structure::Button {
            content: Box::new(settled(*content)),
            padding,
            action,
        },
        Structure::StackPanel { children, orientation, policies } => Structure::StackPanel {
            children: Seq::new(
                children.len(),
                |i: int|
                    if 0 <= i < children.len() {
                        settled(children[i])
                    } else {
                        tree
                    },
            ),
            orientation,
            policies,
        },
        Structure::ItemScroller {
            children,
            show_items,
            scroll_index,
            waiting,
        } => Structure::ItemScroller {
            children: Seq::new(
                children.len(),
                |i: int|
                    if 0 <= i < children.len() {
                        settled(children[i])
                    } else {
                        tree
                    },
            ),
            show_items,
            scroll_index,
            waiting: Seq::empty(),
        },
        _ => tree,
    }
}

/// Whether every scroller of the tree stands at one of its children or just
/// behind the last of them.
pub open spec fn well_scrolled(tree: Structure) -> bool
    decreases tree,
{
    match tree {
        Structure::Button { content, .. } => well_scrolled(*content),
        Structure::StackPanel { children, .. } => forall|i: int|
            0 <= i < children.len() ==> well_scrolled(#[trigger] children[i]),
        Structure::ItemScroller { children, scroll_index, .. } => {
            &&& 0 <= scroll_index <= children.len()
            &&& forall|i: int| 0 <= i < children.len() ==> well_scrolled(#[trigger] children[i])
        },
        _ => true,
    }
}

/// Whatever reaches a tree, its scrollers stay where they may stand: neither
/// what the player reports, nor a touch, which changes only what waits in
/// scrollers, nor a heartbeat moves a scroller before its first child or
/// further than just behind its last.
pub proof fn lemma_scrollers_stay_in_range(tree: Structure, status: &PlaybackStatus)
    ensures
        well_scrolled(published(tree, status)) == well_scrolled(tree),
        well_scrolled(settled(tree)) == well_scrolled(tree),
        well_scrolled(tree) ==> well_scrolled(beaten(tree)),
    decreases tree,
{
    match tree {
        Structure::Button { content, .. } => {
            lemma_scrollers_stay_in_range(*content, status);
        },
        Structure::StackPanel { children, .. } => {
            assert forall|i: int| 0 <= i < children.len() implies {
                &&& well_scrolled(published(#[trigger] children[i], status)) == well_scrolled(
                    children[i],
                )
                &&& well_scrolled(settled(children[i])) == well_scrolled(children[i])
                &&& well_scrolled(children[i]) ==> well_scrolled(beaten(children[i]))
            } by {
                lemma_scrollers_stay_in_range(children[i], status);
            }
            lemma_same_scrolling(children, published(tree, status)->StackPanel_children);
            lemma_same_scrolling(children, settled(tree)->StackPanel_children);
        },
        Structure::ItemScroller { children, scroll_index, waiting, .. } => {
            assert forall|i: int| 0 <= i < children.len() implies {
                &&& well_scrolled(published(#[trigger] children[i], status)) == well_scrolled(
                    children[i],
                )
                &&& well_scrolled(settled(children[i])) == well_scrolled(children[i])
                &&& well_scrolled(children[i]) ==> well_scrolled(beaten(children[i]))
            } by {
                lemma_scrollers_stay_in_range(children[i], status);
            }
            lemma_same_scrolling(children, published(tree, status)->ItemScroller_children);
            lemma_same_scrolling(children, settled(tree)->ItemScroller_children);
            if 0 <= scroll_index <= children.len() {
                lemma_scroll_index_in_range(scroll_index, children.len() as int, waiting);
            }
        },
        _ => {},
    }
}

/// Trees that are each well scrolled exactly when the tree at their place in
/// another sequence is are all well scrolled exactly when those are.
proof fn lemma_same_scrolling(before: Seq<Structure>, after: Seq<Structure>)
    requires
        after.len() == before.len(),
        forall|i: int|
            0 <= i < before.len() ==> well_scrolled(#[trigger] after[i]) == well_scrolled(
                before[i],
            ),
    ensures
        (forall|i: int| 0 <= i < after.len() ==> well_scrolled(#[trigger] after[i])) == (forall|
            i: int,
        | 0 <= i < before.len() ==> well_scrolled(#[trigger] before[i])),
{
    if forall|i: int| 0 <= i < before.len() ==> well_scrolled(#[trigger] before[i]) {
        assert forall|i: int| 0 <= i < after.len() implies well_scrolled(#[trigger] after[i]) by {
            assert(well_scrolled(before[i]));
        }
    }
    if forall|i: int| 0 <= i < after.len() ==> well_scrolled(#[trigger] after[i]) {
        assert forall|i: int| 0 <= i < before.len() implies well_scrolled(
            #[trigger] before[i],
        ) by {
            assert(well_scrolled(after[i]));
        }
    }
}

/// Whether the tree holds no scroller.
pub open spec fn plain(tree: Structure) -> bool
    decreases tree,
{
    match tree {
        Structure::Button { content, .. } => plain(*content),
        Structure::StackPanel { children, .. } => forall|i: int|
            0 <= i < children.len() ==> plain(#[trigger] children[i]),
        Structure::ItemScroller { .. } => false,
        _ => true,
    }
}

/// In a tree without a scroller no scroll request waits: a touch leaves all
/// of such a tree as it is.
pub proof fn lemma_settled_plain(tree: Structure)
    requires
        plain(settled(tree)),
    ensures
        settled(tree) == tree,
    decreases tree,
{
    match tree {
        Structure::Button { content, .. } => {
            lemma_settled_plain(*content);
        },
        Structure::StackPanel { children, .. } => {
            let kept = settled(tree)->StackPanel_children;
            assert forall|i: int| 0 <= i < children.len() implies kept[i] == children[i] by {
                assert(kept[i] == settled(children[i]));
                assert(plain(kept[i]));
                lemma_settled_plain(children[i]);
            }
            assert(kept =~= children);
        },
        _ => {},
    }
}

/// Whether each of `signals` asks to be redrawn.
pub open spec fn all_redraw(signals: Seq<ControlSignal>) -> bool {
    forall|i: int| 0 <= i < signals.len() ==> #[trigger] signals[i] is Redraw
}

/// Once what the player reports was written to a text that follows a field
/// of the status, the next heartbeat makes the text show what the status
/// says in that field, whatever it showed and whatever waited in it before.
pub proof fn lemma_heartbeat_shows_status(
    text: Structure,
    field: StatusField,
    status: &PlaybackStatus,
)
    requires
        text matches Structure::Text { source, .. } && source == Some(field),
    ensures
        beaten(published(text, status)) matches Structure::Text { label, pending, .. } && label
            == field.spec_of(status)@ && pending is None,
{
}

/// Whether `recorded` is what a control made of `tree` records when it is
/// rendered into `region`.
pub open spec fn recorded_in(
    recorded: Option<Rectangle>,
    tree: Structure,
    region: Rectangle,
) -> bool {
    recorded == Some(crate::gui::picture::recorded_region(tree, region))
}

/// Whether `after` is `before` with every pixel turned off that lies in
/// `surface` and that the target holds.
pub open spec fn cleared<T: DrawTarget>(before: &T, after: &T, surface: Rectangle) -> bool {
    &&& after.extent() == before.extent()
    &&& forall|x: i32, y: i32| #[trigger] after.holds(x, y) == before.holds(x, y)
    &&& forall|x: i32, y: i32| #[trigger]
        after.color_at(x, y) == if before.holds(x, y) && surface.covers(x as int, y as int) {
            BinaryColor::Off
        } else {
            before.color_at(x, y)
        }
}

/// Whether `blank` and `drawn` are the steps of a render pass from `before`
/// to `after`: `before` cleared is `blank`, `blank` with `pixels` drawn on it,
/// inside `surface`, is `drawn`, and `drawn` flushed is `after`.
pub open spec fn pass_steps<T: FlushableDrawTarget>(
    before: &T,
    blank: &T,
    drawn: &T,
    after: &T,
    surface: Rectangle,
    pixels: Seq<Pixel>,
) -> bool {
    &&& cleared(before, blank, surface)
    &&& drawn_within(blank, drawn, surface)
    &&& crate::gui::picture::shows(blank, drawn, pixels)
    &&& after.flushed(drawn)
}

/// Whether `after` is what one render pass makes of `before`: the surface is
/// cleared, then `pixels` are drawn on it, then the draw target is flushed.
pub open spec fn render_pass<T: FlushableDrawTarget>(
    before: &T,
    after: &T,
    surface: Rectangle,
    pixels: Seq<Pixel>,
) -> bool {
    exists|blank: T, drawn: T| pass_steps(before, &blank, &drawn, after, surface, pixels)
}

/// Whether `after` shows at every coordinate outside `region` what `before`
/// showed there, and holds the same coordinates.
pub open spec fn drawn_within<T: DrawTarget>(before: &T, after: &T, region: Rectangle) -> bool {
    &&& after.extent() == before.extent()
    &&& forall|x: i32, y: i32| #[trigger] after.holds(x, y) == before.holds(x, y)
    &&& forall|x: i32, y: i32|
        !region.covers(x as int, y as int) ==> #[trigger] after.color_at(x, y) == before.color_at(
            x,
            y,
        )
}

/// Drawing within a region, and then within another, is drawing within any
/// region that encloses both.
pub(crate) proof fn lemma_drawn_within_chain<T: DrawTarget>(
    before: &T,
    between: &T,
    after: &T,
    first: Rectangle,
    second: Rectangle,
    outer: Rectangle,
)
    requires
        drawn_within(before, between, first),
        drawn_within(between, after, second),
        outer.encloses(first),
        outer.encloses(second),
    ensures
        drawn_within(before, after, outer),
{
    assert forall|x: i32, y: i32| !outer.covers(x as int, y as int) implies #[trigger]
        after.color_at(x, y) == before.color_at(x, y) by {
        assert(after.color_at(x, y) == between.color_at(x, y));
        assert(between.color_at(x, y) == before.color_at(x, y));
    }
    assert forall|x: i32, y: i32| #[trigger] after.holds(x, y) == before.holds(x, y) by {
        assert(between.holds(x, y) == before.holds(x, y));
    }
}

/// What every widget of the tree can do.
pub trait Control<T: DrawTarget> {
    /// Whether the control is in a state that its own operations leave it in.
    spec fn wf(&self) -> bool;

    /// Whether the control and everything below it holds the command channel.
    spec fn bound(&self) -> bool;

    /// The region that the control recorded when it was last rendered: the
    /// region it was given, or the part of it that it took.
    spec fn bounding_box(&self) -> Option<Rectangle>;

    /// What the control sends on the command channel when `event` reaches it.
    spec fn emitted(&self, event: Event) -> Seq<ControlSignal>;

    /// What the control is made of, what it shows and what waits in it.
    spec fn structure(&self) -> Structure;

    /// Hands the command channel to the control and to everything below it.
    fn register_command_channel(&mut self, tx: CommandSender<T>)
        requires
            old(self).wf(),
        ensures
            final(self).wf(),
            final(self).bound(),
            final(self).bounding_box() == old(self).bounding_box(),
            final(self).structure() == old(self).structure(),
    ;

    /// The size that the control would take if space were not limited: what
    /// the control is made of decides it, and the fonts for its texts.
    fn compute_natural_dimensions(&mut self, fonts: &Fonts) -> (natural: Dimensions)
        requires
            old(self).wf(),
        ensures
            final(self).wf(),
            final(self).bound() == old(self).bound(),
            final(self).bounding_box() == old(self).bounding_box(),
            final(self).structure() == old(self).structure(),
            natural == crate::gui::layouts::natural::natural_size(old(self).structure(), fonts),
    ;

    /// Draws the control into the region of `dimensions` at `position`: the
    /// pixels that `picture` gives for what the control is made of, and none
    /// outside the region. The control records where in that region it lies.
    fn render(&mut self, target: &mut T, dimensions: Dimensions, position: Point, fonts: &Fonts)
        requires
            old(self).wf(),
            (Rectangle { position, dimensions }).fits(),
        ensures
            final(self).wf(),
            final(self).bound() == old(self).bound(),
            recorded_in(
                final(self).bounding_box(),
                old(self).structure(),
                Rectangle { position, dimensions },
            ),
            final(self).structure() == old(self).structure(),
            drawn_within(old(target), final(target), Rectangle { position, dimensions }),
            crate::gui::picture::shows(
                old(target),
                final(target),
                crate::gui::picture::picture(
                    old(self).structure(),
                    fonts,
                    Rectangle { position, dimensions },
                ),
            ),
    ;

    /// Lets the control write what the player reports into the reactive
    /// properties that follow the playback, its own and those below it.
    fn on_status(&mut self, status: &PlaybackStatus)
        requires
            old(self).wf(),
        ensures
            final(self).wf(),
            final(self).bound() == old(self).bound(),
            final(self).bounding_box() == old(self).bounding_box(),
            final(self).structure() == published(old(self).structure(), status),
    ;

    /// What the control is made of once a touch at `point` has reached it:
    /// what it was made of, but for the scroll requests that the touch makes
    /// wait in the scrollers it reaches.
    spec fn touched(&self, point: Point) -> Structure;

    /// Lets the control react to `event`. What it has to say to the run loop
    /// comes back in the order in which it was sent. A touch changes nothing
    /// of what the tree is made of but the scroll requests that wait in it; a
    /// heartbeat lets every control take over what waits for it, and makes
    /// controls ask for nothing but to be redrawn.
    fn on_event(&mut self, event: Event) -> (signals: Vec<ControlSignal>)
        requires
            old(self).wf(),
        ensures
            final(self).wf(),
            final(self).bound() == old(self).bound(),
            final(self).bounding_box() == old(self).bounding_box(),
            signals@ == old(self).emitted(event),
            event is Touch ==> final(self).structure() == old(self).touched(event->Touch_0),
            event is Touch ==> settled(final(self).structure()) == settled(old(self).structure()),
            event is Heartbeat ==> final(self).structure() == beaten(old(self).structure()),
            event is Heartbeat ==> all_redraw(signals@),
    ;
}

/// An owned control of any kind.
#[verifier::reject_recursive_types(T)]
pub struct Widget<T: DrawTarget> {
    pub control: Box<dyn Control<T>>,
}

/// What the run loop is told to do.
#[verifier::reject_recursive_types(T)]
pub enum GuiCommand<T: DrawTarget> {
    /// Render the tree anew.
    Redraw,
    /// Put this tree in the place of the one that is shown, and render it.
    ReplaceRoot(Widget<T>),
}

/// Whether every tree that `commands` bring is well formed.
pub open spec fn all_roots_wf<T: DrawTarget>(commands: Seq<GuiCommand<T>>) -> bool {
    forall|i: int|
        0 <= i < commands.len() ==> (#[trigger] commands[i] matches GuiCommand::ReplaceRoot(root)
            ==> root.control.wf())
}

/// Whether one of `commands` brings a tree.
pub open spec fn replaces_root<T: DrawTarget>(commands: Seq<GuiCommand<T>>) -> bool {
    exists|i: int| 0 <= i < commands.len() && #[trigger] commands[i] is ReplaceRoot
}

/// What the tree that is shown is made of once `commands` are carried out,
/// when it was made of `before`: what the last tree is made of that one of
/// them brings.
pub open spec fn structure_after<T: DrawTarget>(
    before: Structure,
    commands: Seq<GuiCommand<T>>,
) -> Structure
    decreases commands.len(),
{
    if commands.len() == 0 {
        before
    } else {
        match commands.last() {
            GuiCommand::ReplaceRoot(root) => root.control.structure(),
            GuiCommand::Redraw => structure_after(before, commands.drop_last()),
        }
    }
}

/// The run loop's side of the user interface: the tree that is shown and the
/// draw target it is rendered to.
#[verifier::reject_recursive_types(T)]
pub struct Gui<T: FlushableDrawTarget> {
    pub fonts: Fonts,
    pub draw_target: T,
    pub root_control: Widget<T>,
}

impl<T: FlushableDrawTarget> Gui<T> {
    /// Whether the tree that is shown is well formed.
    pub open spec fn wf(&self) -> bool {
        self.root_control.control.wf()
    }

    /// Whether clearing the screen turns the pixel at `(x, y)` off: it is a
    /// pixel of the surface that the draw target holds.
    pub open spec fn clears(&self, x: i32, y: i32) -> bool {
        self.draw_target.holds(x, y) && self.surface().covers(x as int, y as int)
    }

    /// The whole of the draw target, as a region.
    pub open spec fn surface(&self) -> Rectangle {
        Rectangle { position: Point(0, 0), dimensions: self.draw_target.extent() }
    }

    /// A user interface that shows `root_control` on `draw_target`. Nothing
    /// is rendered before it is started.
    pub fn new(fonts: Fonts, draw_target: T, root_control: Widget<T>) -> (gui: Self)
        requires
            root_control.control.wf(),
        ensures
            gui.wf(),
            gui.draw_target == draw_target,
            gui.root_control == root_control,
    {
        Gui { fonts, draw_target, root_control }
    }

    /// Hands the command channel to the tree and renders it for the first
    /// time.
    pub fn start(&mut self)
        requires
            old(self).wf(),
        ensures
            final(self).wf(),
            final(self).root_control.control.bound(),
            recorded_in(
                final(self).root_control.control.bounding_box(),
                old(self).root_control.control.structure(),
                old(self).surface(),
            ),
            final(self).root_control.control.structure()
                == old(self).root_control.control.structure(),
            final(self).fonts == old(self).fonts,
            render_pass(
                &old(self).draw_target,
                &final(self).draw_target,
                old(self).surface(),
                crate::gui::picture::picture(
                    old(self).root_control.control.structure(),
                    &old(self).fonts,
                    old(self).surface(),
                ),
            ),
            (exists|drawn: T| final(self).draw_target.flushed(&drawn)),
            final(self).draw_target.extent() == old(self).draw_target.extent(),
    {
        self.root_control.control.register_command_channel(CommandSender::new());
        self.render();
    }

    /// Hands `event` to the tree. What the tree has to say comes back.
    pub fn handle_event(&mut self, event: Event) -> (signals: Vec<ControlSignal>)
        requires
            old(self).wf(),
        ensures
            final(self).wf(),
            signals@ == old(self).root_control.control.emitted(event),
            event is Touch ==> final(self).root_control.control.structure()
                == old(self).root_control.control.touched(event->Touch_0),
            event is Touch ==> settled(final(self).root_control.control.structure()) == settled(
                old(self).root_control.control.structure(),
            ),
            event is Heartbeat ==> final(self).root_control.control.structure() == beaten(
                old(self).root_control.control.structure(),
            ),
            event is Heartbeat ==> all_redraw(signals@),
            final(self).root_control.control.bound() == old(self).root_control.control.bound(),
            final(self).root_control.control.bounding_box()
                == old(self).root_control.control.bounding_box(),
            final(self).draw_target == old(self).draw_target,
            final(self).fonts == old(self).fonts,
    {
        self.root_control.control.on_event(event)
    }

    /// Hands what the player reports to the tree.
    pub fn publish_status(&mut self, status: &PlaybackStatus)
        requires
            old(self).wf(),
        ensures
            final(self).wf(),
            final(self).root_control.control.structure() == published(
                old(self).root_control.control.structure(),
                status,
            ),
            final(self).root_control.control.bound() == old(self).root_control.control.bound(),
            final(self).root_control.control.bounding_box()
                == old(self).root_control.control.bounding_box(),
            final(self).draw_target == old(self).draw_target,
            final(self).fonts == old(self).fonts,
    {
        self.root_control.control.on_status(status);
    }

    /// Turns every pixel of the draw target off.
    pub fn clear_screen(&mut self)
        ensures
            final(self).root_control == old(self).root_control,
            final(self).fonts == old(self).fonts,
            cleared(&old(self).draw_target, &final(self).draw_target, old(self).surface()),
            final(self).draw_target.extent() == old(self).draw_target.extent(),
            forall|x: i32, y: i32| #[trigger]
                final(self).draw_target.holds(x, y) == old(self).draw_target.holds(x, y),
            forall|x: i32, y: i32| #[trigger]
                final(self).draw_target.color_at(x, y) == if old(self).clears(x, y) {
                    BinaryColor::Off
                } else {
                    old(self).draw_target.color_at(x, y)
                },
    {
        let size: Dimensions = self.draw_target.size();
        let image: Vec<Pixel> = block(Point(0, 0), size.width, size.height, BinaryColor::Off);
        proof {
            let columns = crate::gui::drawing::upto(size.width as int, i32::MAX + 1);
            let rows = crate::gui::drawing::upto(size.height as int, i32::MAX + 1);
            assert forall|x: i32, y: i32| #[trigger]
                painted(image@, x, y, self.draw_target.color_at(x, y)) == if self.surface().covers(
                    x as int,
                    y as int,
                ) {
                    BinaryColor::Off
                } else {
                    self.draw_target.color_at(x, y)
                } by {
                lemma_block_fills(0, 0, columns, rows, BinaryColor::Off, x, y);
                if self.surface().covers(x as int, y as int) {
                    lemma_painted_in_one_color(
                        image@,
                        BinaryColor::Off,
                        x,
                        y,
                        self.draw_target.color_at(x, y),
                    );
                } else {
                    if crate::epaper::target::addresses(image@, x, y) {
                        let i = choose|i: int|
                            0 <= i < image@.len() && (#[trigger] image@[i]).x == x && image@[i].y
                                == y;
                        assert(self.surface().covers(image@[i].x as int, image@[i].y as int));
                    }
                    crate::epaper::target::lemma_painted_elsewhere(
                        image@,
                        x,
                        y,
                        self.draw_target.color_at(x, y),
                    );
                }
            }
        }
        self.draw_target.draw_iter(image.as_slice());
    }

    /// One render pass: the screen is cleared, the tree is rendered into the
    /// whole of the draw target, and the draw target is flushed.
    pub fn render(&mut self)
        requires
            old(self).wf(),
        ensures
            final(self).wf(),
            final(self).root_control.control.bound() == old(self).root_control.control.bound(),
            recorded_in(
                final(self).root_control.control.bounding_box(),
                old(self).root_control.control.structure(),
                old(self).surface(),
            ),
            final(self).root_control.control.structure()
                == old(self).root_control.control.structure(),
            final(self).fonts == old(self).fonts,
            render_pass(
                &old(self).draw_target,
                &final(self).draw_target,
                old(self).surface(),
                crate::gui::picture::picture(
                    old(self).root_control.control.structure(),
                    &old(self).fonts,
                    old(self).surface(),
                ),
            ),
            (exists|drawn: T| final(self).draw_target.flushed(&drawn)),
            final(self).draw_target.extent() == old(self).draw_target.extent(),
            forall|x: i32, y: i32| #[trigger]
                final(self).draw_target.holds(x, y) == old(self).draw_target.holds(x, y),
            forall|x: i32, y: i32|
                !old(self).surface().covers(x as int, y as int) ==> #[trigger]
                    final(self).draw_target.color_at(x, y) == old(self).draw_target.color_at(
                        x,
                        y,
                    ),
    {
        self.clear_screen();
        let ghost blank = self.draw_target;
        let size: Dimensions = self.draw_target.size();
        self.root_control.control.render(&mut self.draw_target, size, Point(0, 0), &self.fonts);
        let ghost drawn = self.draw_target;
        self.draw_target.flush();
        assert(self.draw_target.flushed(&drawn));
        assert(pass_steps(
            &old(self).draw_target,
            &blank,
            &drawn,
            &self.draw_target,
            old(self).surface(),
            crate::gui::picture::picture(
                old(self).root_control.control.structure(),
                &old(self).fonts,
                old(self).surface(),
            ),
        ));
    }

    /// Carries `commands` out in their order: a tree that one of them brings
    /// is handed the command channel and shown in the place of the tree before
    /// it. If there was a command at all, exactly one render pass follows, and
    /// the result is `true`.
    pub fn execute(&mut self, commands: Vec<GuiCommand<T>>) -> (rendered: bool)
        requires
            old(self).wf(),
            all_roots_wf(commands@),
        ensures
            final(self).wf(),
            rendered == (commands@.len() > 0),
            rendered ==> recorded_in(
                final(self).root_control.control.bounding_box(),
                final(self).root_control.control.structure(),
                old(self).surface(),
            ),
            final(self).fonts == old(self).fonts,
            rendered ==> render_pass(
                &old(self).draw_target,
                &final(self).draw_target,
                old(self).surface(),
                crate::gui::picture::picture(
                    final(self).root_control.control.structure(),
                    &old(self).fonts,
                    old(self).surface(),
                ),
            ),
            rendered ==> (exists|drawn: T| final(self).draw_target.flushed(&drawn)),
            !rendered ==> *final(self) == *old(self),
            final(self).root_control.control.structure() == structure_after(
                old(self).root_control.control.structure(),
                commands@,
            ),
            replaces_root(commands@) ==> final(self).root_control.control.bound(),
            !replaces_root(commands@) ==> final(self).root_control.control.bound()
                == old(self).root_control.control.bound(),
            final(self).draw_target.extent() == old(self).draw_target.extent(),
    {
        let mut commands = commands;
        let ghost all = commands@;
        let mut redraw: bool = false;
        let ghost mut done: int = 0;
        while commands.len() > 0
            invariant
                self.wf(),
                0 <= done <= all.len(),
                commands@ == all.subrange(done, all.len() as int),
                all_roots_wf(all),
                redraw == (done > 0),
                self.draw_target == old(self).draw_target,
                self.fonts == old(self).fonts,
                done == 0 ==> *self == *old(self),
                self.root_control.control.structure() == structure_after(
                    old(self).root_control.control.structure(),
                    all.take(done),
                ),
                replaces_root(all.take(done)) ==> self.root_control.control.bound(),
                !replaces_root(all.take(done)) ==> self.root_control.control.bound()
                    == old(self).root_control.control.bound(),
            decreases commands.len(),
        {
            let command: GuiCommand<T> = commands.remove(0);
            proof {
                assert(command == all[done]);
                assert(commands@ =~= all.subrange(done + 1, all.len() as int));
                assert(all.take(done + 1)[done] == all[done]);
                assert(all.take(done + 1).drop_last() =~= all.take(done));
                if replaces_root(all.take(done)) {
                    let i = choose|i: int|
                        0 <= i < all.take(done).len() && #[trigger]
                            all.take(done)[i] is ReplaceRoot;
                    assert(all.take(done + 1)[i] == all.take(done)[i]);
                }
                if replaces_root(all.take(done + 1)) && !(all[done] is ReplaceRoot) {
                    let i = choose|i: int|
                        0 <= i < all.take(done + 1).len() && #[trigger] all.take(
                            done + 1,
                        )[i] is ReplaceRoot;
                    assert(all.take(done)[i] == all.take(done + 1)[i]);
                }
            }
            match command {
                GuiCommand::Redraw => {},
                GuiCommand::ReplaceRoot(new_root) => {
                    let mut new_root = new_root;
                    new_root.control.register_command_channel(CommandSender::new());
                    self.root_control = new_root;
                },
            }
            redraw = true;
            proof {
                done = done + 1;
            }
        }
        proof {
            assert(all.take(done) =~= all);
        }
        if redraw {
            self.render();
        }
        redraw
    }
}

} // verus!
