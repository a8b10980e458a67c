use crate::epaper::target::DrawTarget;
use crate::gui::controls::button::Button;
use crate::gui::controls::item_scroller::ItemScroller;
use crate::gui::controls::progress_bar::ProgressBar;
use crate::gui::controls::stack_panel::StackPanel;
use crate::gui::controls::text::Text;
use crate::gui::fonts::FontKind;
use crate::gui::geometry::{Orientation, Padding, StackUnitDimension};
use crate::gui::layouts::stack::{all_wf, structures};
use crate::gui::{well_scrolled, Action, Control, ControlSignal, GuiCommand, Structure, Widget};
use crate::library::{album_titles, artist_names, Library, Track};
use crate::playback::{PlayerCommand, StatusField};
use std::marker::PhantomData;
use vstd::prelude::*;

verus! {

/// Whether `a` comes before `b`, or is `b`, when strings are ordered
/// character by character, a shorter string before its extensions.
pub open spec fn in_order(a: Seq<char>, b: Seq<char>) -> bool
    decreases a.len(),
{
    if a.len() == 0 {
        true
    } else if b.len() == 0 {
        false
    } else if a[0] != b[0] {
        (a[0] as u32) < (b[0] as u32)
    } else {
        in_order(a.skip(1), b.skip(1))
    }
}

/// Whether each of `names` is in order with those after it.
pub open spec fn sorted(names: Seq<String>) -> bool {
    forall|i: int, j: int|
        0 <= i < j < names.len() ==> in_order(#[trigger] names[i]@, #[trigger] names[j]@)
}

/// `sort` of std on a slice of strings: afterwards the slice holds the same
/// strings, each as often as before, in ascending order.
#[verifier::external_body]
fn sort_names(names: &mut Vec<String>)
    ensures
        final(names)@.to_multiset() == old(names)@.to_multiset(),
        sorted(final(names)@),
{
    names.sort();
}

/// What the button shows that leads home.
pub const HOME_LABEL: &'static str = "\u{1F3E0}";

/// What the button shows that leads back.
pub const BACK_LABEL: &'static str = "\u{2B05}\u{FE0F}";

/// What the button shows that stops the player.
pub const STOP_LABEL: &'static str = "\u{23F9}\u{FE0F}";

/// What the button shows that pauses the player and lets it go on.
pub const PLAY_PAUSE_LABEL: &'static str = "\u{23EF}\u{FE0F}";

/// A text without padding that follows nothing.
pub open spec fn label(text: Seq<char>, font_size: usize, font_kind: FontKind) -> Structure {
    Structure::Text {
        label: text,
        pending: None,
        font_size,
        font_kind,
        padding: Padding { top: 0, bottom: 0, left: 0, right: 0 },
        source: None,
    }
}

/// A button that shows a text.
pub open spec fn text_button_structure(
    text: Seq<char>,
    font_size: usize,
    font_kind: FontKind,
    padding: Padding,
    action: Action,
) -> Structure {
    Structure::Button { content: Box::new(label(text, font_size, font_kind)), padding, action }
}

/// The entries of the list of artists: for each artist a button that shows
/// the name and opens the albums of the artist.
pub open spec fn artist_entries(artists: Seq<String>) -> Seq<Structure> {
    Seq::new(
        artists.len(),
        |i: int|
            text_button_structure(
                artists[i]@,
                15,
                FontKind::MainText,
                Padding { top: 3, bottom: 6, left: 0, right: 0 },
                Action::OpenArtist(artists[i]),
            ),
    )
}

/// The entries of the list of the albums of `artist`: for each album a button
/// that shows the title and opens the album.
pub open spec fn album_entries(artist: String, albums: Seq<String>) -> Seq<Structure> {
    Seq::new(
        albums.len(),
        |i: int|
            text_button_structure(
                albums[i]@,
                15,
                FontKind::MainText,
                Padding { top: 5, bottom: 8, left: 0, right: 0 },
                Action::OpenAlbum(artist, albums[i]),
            ),
    )
}

/// A list of `entries` that shows three of them at a time.
pub open spec fn list_of(entries: Seq<Structure>) -> Structure {
    Structure::ItemScroller {
        children: entries,
        show_items: 3,
        scroll_index: 0,
        waiting: Seq::empty(),
    }
}

/// The buttons of the row below every screen: the one that leads home, the
/// one that leads back where there is a way back, and what the screen adds.
pub open spec fn navigation_buttons(back: Option<Action>, additional: Seq<Structure>) -> Seq<
    Structure,
> {
    seq![
        text_button_structure(
            HOME_LABEL@,
            25,
            FontKind::Emoji,
            Padding { top: 0, bottom: 0, left: 0, right: 0 },
            Action::Home,
        ),
    ] + match back {
        Some(action) => seq![
            text_button_structure(
                BACK_LABEL@,
                25,
                FontKind::Emoji,
                Padding { top: 0, bottom: 0, left: 0, right: 0 },
                action,
            ),
        ],
        None => Seq::empty(),
    } + additional
}

/// A screen: `content` over a row of buttons that is 30 units high.
pub open spec fn wrapped(
    content: Structure,
    back: Option<Action>,
    additional: Seq<Structure>,
) -> Structure {
    Structure::StackPanel {
        children: seq![
            content,
            Structure::StackPanel {
                children: navigation_buttons(back, additional),
                orientation: Orientation::Horizontal,
                policies: Seq::empty(),
            },
        ],
        orientation: Orientation::Vertical,
        policies: seq![StackUnitDimension::Stretch, StackUnitDimension::Pixel(30)],
    }
}

/// The screen that lists `artists`. There is no way back from it.
pub open spec fn artist_list(artists: Seq<String>) -> Structure {
    wrapped(list_of(artist_entries(artists)), None, Seq::empty())
}

/// The screen that lists `albums` of `artist`. The way back leads home.
pub open spec fn album_list(artist: String, albums: Seq<String>) -> Structure {
    wrapped(list_of(album_entries(artist, albums)), Some(Action::Home), Seq::empty())
}

/// A text that follows `field` of the playback status.
pub open spec fn status_text(
    text: Seq<char>,
    font_size: usize,
    padding: Padding,
    field: StatusField,
) -> Structure {
    Structure::Text {
        label: text,
        pending: None,
        font_size,
        font_kind: FontKind::MainText,
        padding,
        source: Some(field),
    }
}

/// The screen that shows what is playing of `album` of `artist`: artist,
/// album, the title of the track and a bar for its progress, all following
/// the player, over buttons to stop and to pause. The way back leads to the
/// albums of the artist.
pub open spec fn transport_screen(artist: String, album: String) -> Structure {
    wrapped(
        Structure::StackPanel {
            children: seq![
                status_text(
                    artist@,
                    15,
                    Padding { top: 3, bottom: 3, left: 0, right: 0 },
                    StatusField::AlbumArtist,
                ),
                status_text(
                    album@,
                    17,
                    Padding { top: 3, bottom: 3, left: 0, right: 0 },
                    StatusField::AlbumTitle,
                ),
                status_text(
                    Seq::empty(),
                    15,
                    Padding { top: 5, bottom: 5, left: 0, right: 0 },
                    StatusField::Title,
                ),
                Structure::ProgressBar {
                    progress: 0,
                    progress_max: 150,
                    pending_progress: None,
                    pending_progress_max: None,
                    height: 5,
                    padding: Padding { top: 5, bottom: 5, left: 0, right: 0 },
                    follows_playback: true,
                },
            ],
            orientation: Orientation::Vertical,
            policies: Seq::empty(),
        },
        Some(Action::OpenArtist(artist)),
        seq![
            text_button_structure(
                STOP_LABEL@,
                15,
                FontKind::Emoji,
                Padding { top: 0, bottom: 0, left: 4, right: 4 },
                Action::Stop,
            ),
            text_button_structure(
                PLAY_PAUSE_LABEL@,
                15,
                FontKind::Emoji,
                Padding { top: 0, bottom: 0, left: 4, right: 4 },
                Action::PlayPause,
            ),
        ],
    )
}

/// The screen that `signal` leads to, where it leads to one.
pub open spec fn screen_for(
    library: &Library,
    artists: Seq<String>,
    signal: ControlSignal,
) -> Structure {
    match signal {
        ControlSignal::Pressed(Action::OpenArtist(artist)) => album_list(
            artist,
            album_titles(library.albums_of(artist@)),
        ),
        ControlSignal::Pressed(Action::OpenAlbum(artist, album)) => transport_screen(artist, album),
        _ => artist_list(artists),
    }
}

/// On every screen, as it is built, the scroller stands at its first child.
pub proof fn lemma_screens_start_well_scrolled(
    library: &Library,
    artists: Seq<String>,
    signal: ControlSignal,
)
    ensures
        well_scrolled(screen_for(library, artists, signal)),
{
    let screen = screen_for(library, artists, signal);
    let rows = screen->StackPanel_children;
    let navigation = rows[1]->StackPanel_children;
    assert forall|i: int| 0 <= i < navigation.len() implies well_scrolled(
        #[trigger] navigation[i],
    ) by {
        reveal_with_fuel(well_scrolled, 3);
    }
    assert(well_scrolled(rows[1]));
    match rows[0] {
        Structure::ItemScroller { children, .. } => {
            assert forall|i: int| 0 <= i < children.len() implies well_scrolled(
                #[trigger] children[i],
            ) by {
                reveal_with_fuel(well_scrolled, 3);
            }
        },
        Structure::StackPanel { children, .. } => {
            assert forall|i: int| 0 <= i < children.len() implies well_scrolled(
                #[trigger] children[i],
            ) by {
                reveal_with_fuel(well_scrolled, 3);
            }
        },
        _ => {},
    }
    assert(well_scrolled(rows[0]));
    assert forall|i: int| 0 <= i < rows.len() implies well_scrolled(#[trigger] rows[i]) by {
        if i == 0 {
        } else {
            assert(rows[i] == rows[1]);
        }
    }
}

/// What the player is asked to do when an album is opened: to queue each of
/// its tracks, in their order, and then to play.
pub open spec fn enqueue_and_play(tracks: Seq<Track>) -> Seq<PlayerCommand> {
    Seq::new(tracks.len(), |i: int| PlayerCommand::AddToQueue(tracks[i])) + seq![
        PlayerCommand::Play,
    ]
}

/// What the player is asked to do when `signal` comes from the tree, while
/// it says of itself that it is paused or not.
pub open spec fn player_commands_for(
    library: &Library,
    signal: ControlSignal,
    is_paused: bool,
) -> Seq<PlayerCommand> {
    match signal {
        ControlSignal::Pressed(Action::OpenAlbum(artist, album)) => enqueue_and_play(
            library.tracks_of(artist@, album@),
        ),
        ControlSignal::Pressed(Action::Stop) => seq![PlayerCommand::Stop],
        ControlSignal::Pressed(Action::PlayPause) => if is_paused {
            seq![PlayerCommand::Play]
        } else {
            seq![PlayerCommand::Pause]
        },
        _ => Seq::empty(),
    }
}

/// Whether `signal` leads to another screen.
pub open spec fn navigates(signal: ControlSignal) -> bool {
    signal matches ControlSignal::Pressed(action) && (action is Home || action is OpenArtist
        || action is OpenAlbum)
}

/// What follows from a signal of the tree: at most one command for the run
/// loop, and what the player is asked to do, in order.
#[verifier::reject_recursive_types(T)]
pub struct Response<T: DrawTarget> {
    pub command: Option<GuiCommand<T>>,
    pub player_commands: Vec<PlayerCommand>,
}

/// The builder of the three screens: the list of artists, the list of an
/// artist's albums, and the view of what is playing.
pub struct App<T> {
    pub library: Library,
    /// The names of the artists as the first screen lists them.
    pub artists: Vec<String>,
    pub draw_target: PhantomData<T>,
}

impl<T: DrawTarget + 'static> App<T> {
    /// The first screen lists the artists of `library` in ascending order.
    pub fn new(library: Library) -> (app: Self)
        ensures
            app.library == library,
            app.artists@.to_multiset() == artist_names(library.artists@).to_multiset(),
            sorted(app.artists@),
    {
        let mut artists: Vec<String> = library.list_artists();
        sort_names(&mut artists);
        App { library, artists, draw_target: PhantomData }
    }

    /// A button that shows `text` and asks for `action` when it is pressed.
    fn text_button(
        text: String,
        font_size: usize,
        kind: FontKind,
        padding: Padding,
        action: Action,
    ) -> (button: Widget<T>)
        ensures
            button.control.wf(),
            !button.control.bound(),
            button.control.bounding_box() is None,
            button.control.structure() == text_button_structure(
                text@,
                font_size,
                kind,
                padding,
                action,
            ),
    {
        let shown: Text<T> = Text::new(text, font_size, kind, Padding::zero());
        Button::new(shown.boxed(), padding, action).boxed()
    }

    /// The view of what is playing, and what the player is asked to do on
    /// the way there: to queue every track of the album, in the order of the
    /// library, and to play.
    pub fn playback_view(&self, artist: &String, album: &String) -> (view: (
        Widget<T>,
        Vec<PlayerCommand>,
    ))
        ensures
            view.0.control.wf(),
            !view.0.control.bound(),
            view.0.control.bounding_box() is None,
            view.0.control.structure() == transport_screen(*artist, *album),
            view.1@ == enqueue_and_play(self.library.tracks_of(artist@, album@)),
    {
        let tracks: Vec<Track> = self.library.list_tracks(artist, album);
        let mut player_commands: Vec<PlayerCommand> = Vec::new();
        let mut i: usize = 0;
        while i < tracks.len()
            invariant
                i <= tracks.len(),
                player_commands@ == Seq::new(
                    i as nat,
                    |k: int| PlayerCommand::AddToQueue(tracks@[k]),
                ),
            decreases tracks.len() - i,
        {
            player_commands.push(PlayerCommand::AddToQueue(tracks[i].clone()));
            proof {
                assert(player_commands@ =~= Seq::new(
                    (i + 1) as nat,
                    |k: int| PlayerCommand::AddToQueue(tracks@[k]),
                ));
            }
            i += 1;
        }
        player_commands.push(PlayerCommand::Play);
        proof {
            assert(player_commands@ =~= enqueue_and_play(tracks@));
        }
        let mut track_title: Text<T> = Text::new(
            "".to_string(),
            15,
            FontKind::MainText,
            Padding::vertical(5, 5),
        );
        track_title.follow(StatusField::Title);
        let mut artist_control: Text<T> = Text::new(
            artist.clone(),
            15,
            FontKind::MainText,
            Padding::vertical(3, 3),
        );
        artist_control.follow(StatusField::AlbumArtist);
        let mut album_title_control: Text<T> = Text::new(
            album.clone(),
            17,
            FontKind::MainText,
            Padding::vertical(3, 3),
        );
        album_title_control.follow(StatusField::AlbumTitle);
        let mut progress_bar: ProgressBar<T> = ProgressBar::new(
            0,
            150,
            5,
            Padding::new(5, 5, 0, 0),
        );
        progress_bar.follow_playback();
        let mut stack_panel_children: Vec<Widget<T>> = Vec::new();
        stack_panel_children.push(artist_control.boxed());
        stack_panel_children.push(album_title_control.boxed());
        stack_panel_children.push(track_title.boxed());
        stack_panel_children.push(progress_bar.boxed());
        let stack_panel: StackPanel<T> = StackPanel::new(
            stack_panel_children,
            Orientation::Vertical,
            Vec::new(),
        );
        let mut transport: Vec<Widget<T>> = Vec::new();
        transport.push(
            Self::text_button(
                STOP_LABEL.to_string(),
                15,
                FontKind::Emoji,
                Padding::horizontal(4, 4),
                Action::Stop,
            ),
        );
        transport.push(
            Self::text_button(
                PLAY_PAUSE_LABEL.to_string(),
                15,
                FontKind::Emoji,
                Padding::horizontal(4, 4),
                Action::PlayPause,
            ),
        );
        proof {
            reveal_strlit("");
            assert(""@ =~= Seq::<char>::empty());
            let shown = structures(stack_panel.children@);
            let expected = transport_screen(
                *artist,
                *album,
            )->StackPanel_children[0]->StackPanel_children;
            assert(shown.len() == 4);
            assert(shown[0] == expected[0]);
            assert(shown[1] == expected[1]);
            assert(shown[2] == expected[2]);
            assert(shown[3] == expected[3]);
            assert(shown =~= expected);
            assert(structures(transport@) =~= seq![
                text_button_structure(
                    STOP_LABEL@,
                    15,
                    FontKind::Emoji,
                    Padding { top: 0, bottom: 0, left: 4, right: 4 },
                    Action::Stop,
                ),
                text_button_structure(
                    PLAY_PAUSE_LABEL@,
                    15,
                    FontKind::Emoji,
                    Padding { top: 0, bottom: 0, left: 4, right: 4 },
                    Action::PlayPause,
                ),
            ]);
        }
        let view: Widget<T> = self.wrapping_view(
            stack_panel.boxed(),
            Some(Action::OpenArtist(artist.clone())),
            transport,
        );
        (view, player_commands)
    }

    /// The list of the albums of `artist`. Each entry opens its album.
    pub fn artist_view(&self, artist: &String) -> (view: Widget<T>)
        ensures
            view.control.wf(),
            !view.control.bound(),
            view.control.bounding_box() is None,
            view.control.structure() == album_list(
                *artist,
                album_titles(self.library.albums_of(artist@)),
            ),
    {
        let albums: Vec<String> = self.library.list_albums(artist);
        let mut item_scroller_children: Vec<Widget<T>> = Vec::new();
        let mut i: usize = 0;
        while i < albums.len()
            invariant
                i <= albums.len(),
                all_wf(item_scroller_children@),
                item_scroller_children@.len() == i,
                structures(item_scroller_children@) =~= album_entries(
                    *artist,
                    albums@.take(i as int),
                ),
            decreases albums.len() - i,
        {
            let ghost before = item_scroller_children@;
            item_scroller_children.push(
                Self::text_button(
                    albums[i].clone(),
                    15,
                    FontKind::MainText,
                    Padding::new(5, 8, 0, 0),
                    Action::OpenAlbum(artist.clone(), albums[i].clone()),
                ),
            );
            proof {
                let after = item_scroller_children@;
                let expected = album_entries(*artist, albums@.take(i as int + 1));
                assert forall|k: int| 0 <= k < after.len() implies structures(after)[k]
                    == expected[k] by {
                    if k < i {
                        assert(after[k] == before[k]);
                        assert(structures(before)[k] == album_entries(
                            *artist,
                            albums@.take(i as int),
                        )[k]);
                    }
                }
            }
            i += 1;
        }
        proof {
            assert(albums@.take(i as int) =~= albums@);
        }
        let scroller: ItemScroller<T> = ItemScroller::new(item_scroller_children, 3);
        let additional: Vec<Widget<T>> = Vec::new();
        proof {
            assert(structures(additional@) =~= Seq::<Structure>::empty());
        }
        self.wrapping_view(scroller.boxed(), Some(Action::Home), additional)
    }

    /// The list of the artists. Each entry opens the albums of its artist.
    pub fn initial_view(&self) -> (view: Widget<T>)
        ensures
            view.control.wf(),
            !view.control.bound(),
            view.control.bounding_box() is None,
            view.control.structure() == artist_list(self.artists@),
    {
        let mut item_scroller_children: Vec<Widget<T>> = Vec::new();
        let mut i: usize = 0;
        while i < self.artists.len()
            invariant
                i <= self.artists.len(),
                all_wf(item_scroller_children@),
                item_scroller_children@.len() == i,
                structures(item_scroller_children@) =~= artist_entries(
                    self.artists@.take(i as int),
                ),
            decreases self.artists.len() - i,
        {
            let ghost before = item_scroller_children@;
            item_scroller_children.push(
                Self::text_button(
                    self.artists[i].clone(),
                    15,
                    FontKind::MainText,
                    Padding::new(3, 6, 0, 0),
                    Action::OpenArtist(self.artists[i].clone()),
                ),
            );
            proof {
                let after = item_scroller_children@;
                let expected = artist_entries(self.artists@.take(i as int + 1));
                assert forall|k: int| 0 <= k < after.len() implies structures(after)[k]
                    == expected[k] by {
                    if k < i {
                        assert(after[k] == before[k]);
                        assert(structures(before)[k] == artist_entries(
                            self.artists@.take(i as int),
                        )[k]);
                    }
                }
            }
            i += 1;
        }
        proof {
            assert(self.artists@.take(i as int) =~= self.artists@);
        }
        let scroller: ItemScroller<T> = ItemScroller::new(item_scroller_children, 3);
        let additional: Vec<Widget<T>> = Vec::new();
        proof {
            assert(structures(additional@) =~= Seq::<Structure>::empty());
        }
        self.wrapping_view(scroller.boxed(), None, additional)
    }

    /// `content` above a row of buttons: one that leads home, one that leads
    /// back where `back` says where to, and then `additional_buttons`. The
    /// row is 30 units high; the content has the rest.
    pub fn wrapping_view(
        &self,
        content: Widget<T>,
        back: Option<Action>,
        additional_buttons: Vec<Widget<T>>,
    ) -> (view: Widget<T>)
        requires
            content.control.wf(),
            all_wf(additional_buttons@),
        ensures
            view.control.wf(),
            !view.control.bound(),
            view.control.bounding_box() is None,
            view.control.structure() == wrapped(
                content.control.structure(),
                back,
                structures(additional_buttons@),
            ),
    {
        let ghost additional = structures(additional_buttons@);
        let mut additional_buttons = additional_buttons;
        let mut navigation_buttons: Vec<Widget<T>> = Vec::new();
        navigation_buttons.push(
            Self::text_button(
                HOME_LABEL.to_string(),
                25,
                FontKind::Emoji,
                Padding::zero(),
                Action::Home,
            ),
        );
        if let Some(back_action) = back {
            navigation_buttons.push(
                Self::text_button(
                    BACK_LABEL.to_string(),
                    25,
                    FontKind::Emoji,
                    Padding::zero(),
                    back_action,
                ),
            );
        }
        navigation_buttons.append(&mut additional_buttons);
        proof {
            assert(structures(navigation_buttons@) =~= self::navigation_buttons(back, additional));
        }
        let navigation: StackPanel<T> = StackPanel::new(
            navigation_buttons,
            Orientation::Horizontal,
            Vec::new(),
        );
        let mut rows: Vec<Widget<T>> = Vec::new();
        rows.push(content);
        rows.push(navigation.boxed());
        let mut policies: Vec<StackUnitDimension> = Vec::new();
        policies.push(StackUnitDimension::Stretch);
        policies.push(StackUnitDimension::Pixel(30));
        proof {
            assert(policies@ =~= seq![StackUnitDimension::Stretch, StackUnitDimension::Pixel(30)]);
            assert(structures(rows@) =~= seq![
                content.control.structure(),
                Structure::StackPanel {
                    children: self::navigation_buttons(back, additional),
                    orientation: Orientation::Horizontal,
                    policies: Seq::empty(),
                },
            ]);
        }
        StackPanel::new(rows, Orientation::Vertical, policies).boxed()
    }

    /// What follows from `signal`, while the player says of itself that it is
    /// paused or not.
    pub fn respond(&self, signal: &ControlSignal, is_paused: bool) -> (response: Response<T>)
        ensures
            response.player_commands@ == player_commands_for(&self.library, *signal, is_paused),
            match response.command {
                Some(GuiCommand::Redraw) => *signal is Redraw,
                Some(GuiCommand::ReplaceRoot(root)) => navigates(*signal) && root.control.wf()
                    && !root.control.bound() && root.control.bounding_box() is None
                    && root.control.structure() == screen_for(
                    &self.library,
                    self.artists@,
                    *signal,
                ),
                None => !(*signal is Redraw) && !navigates(*signal),
            },
    {
        match signal {
            ControlSignal::Redraw => Response {
                command: Some(GuiCommand::Redraw),
                player_commands: Vec::new(),
            },
            ControlSignal::Pressed(Action::Home) => Response {
                command: Some(GuiCommand::ReplaceRoot(self.initial_view())),
                player_commands: Vec::new(),
            },
            ControlSignal::Pressed(Action::OpenArtist(artist)) => Response {
                command: Some(GuiCommand::ReplaceRoot(self.artist_view(artist))),
                player_commands: Vec::new(),
            },
            ControlSignal::Pressed(Action::OpenAlbum(artist, album)) => {
                let (view, player_commands): (Widget<T>, Vec<PlayerCommand>) = self.playback_view(
                    artist,
                    album,
                );
                Response { command: Some(GuiCommand::ReplaceRoot(view)), player_commands }
            },
            ControlSignal::Pressed(Action::Stop) => {
                let mut player_commands: Vec<PlayerCommand> = Vec::new();
                player_commands.push(PlayerCommand::Stop);
                Response { command: None, player_commands }
            },
            ControlSignal::Pressed(Action::PlayPause) => {
                let mut player_commands: Vec<PlayerCommand> = Vec::new();
                if is_paused {
                    player_commands.push(PlayerCommand::Play);
                } else {
                    player_commands.push(PlayerCommand::Pause);
                }
                Response { command: None, player_commands }
            },
            ControlSignal::Pressed(Action::Scroll(_)) => Response {
                command: None,
                player_commands: Vec::new(),
            },
        }
    }
}

} // verus!
