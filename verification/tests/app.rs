use ananas_music_control::app::App;
use ananas_music_control::epaper::buffered::BufferedDrawTarget;
use ananas_music_control::epaper::driver::{EPaper, RefreshPolicy};
use ananas_music_control::epaper::rotated::RotatedDrawTarget;
use ananas_music_control::epaper::target::{BinaryColor, DrawTarget, Pixel};
use ananas_music_control::gui::fonts::Fonts;
use ananas_music_control::gui::geometry::{Dimensions, Point, Rectangle};
use ananas_music_control::epaper::wire::WireOp;
use ananas_music_control::gui::{
    iteration_events, Action, ControlSignal, Event, Gui, GuiCommand, ScrollRequest,
};
use ananas_music_control::library::{Album, Artist, Library, Track};
use ananas_music_control::playback::{PlaybackStatus, PlayerCommand};

type Target = RotatedDrawTarget<BufferedDrawTarget>;

fn target() -> Target {
    RotatedDrawTarget::new(BufferedDrawTarget::new(EPaper::new(RefreshPolicy::default())))
}

fn track(path: &str) -> Track {
    Track { path: path.to_string() }
}

fn library() -> Library {
    Library::new(vec![
        Artist {
            name: "Zed".to_string(),
            albums: vec![Album { title: "B".to_string(), tracks: vec![track("zed/b/1")] }],
        },
        Artist {
            name: "A".to_string(),
            albums: vec![
                Album {
                    title: "B".to_string(),
                    tracks: vec![track("a/b/1"), track("a/b/2"), track("a/b/3")],
                },
                Album { title: "C".to_string(), tracks: vec![track("a/c/1")] },
            ],
        },
        Artist { name: "Moby".to_string(), albums: Vec::new() },
    ])
}

fn started(app: &App<Target>) -> Gui<Target> {
    let mut gui = Gui::new(Fonts::new(Vec::new()), target(), app.initial_view());
    gui.start();
    gui
}

fn strings(names: &[&str]) -> Vec<String> {
    names.iter().map(|name| name.to_string()).collect()
}

#[test]
fn the_library_lists_artists_albums_and_tracks_in_its_own_order() {
    let library = library();
    assert_eq!(library.list_artists(), strings(&["Zed", "A", "Moby"]));
    assert_eq!(library.list_albums(&"A".to_string()), strings(&["B", "C"]));
    assert_eq!(library.list_albums(&"Moby".to_string()), Vec::<String>::new());
    assert_eq!(
        library.list_tracks(&"A".to_string(), &"B".to_string()),
        vec![track("a/b/1"), track("a/b/2"), track("a/b/3")]
    );
    assert_eq!(library.list_tracks(&"Zed".to_string(), &"B".to_string()), vec![track("zed/b/1")]);
}

#[test]
fn what_the_library_does_not_have_is_an_empty_list() {
    let library = library();
    assert_eq!(library.list_albums(&"Nobody".to_string()), Vec::<String>::new());
    assert_eq!(library.list_tracks(&"Nobody".to_string(), &"B".to_string()), Vec::new());
    assert_eq!(library.list_tracks(&"A".to_string(), &"Z".to_string()), Vec::new());
    assert_eq!(library.list_tracks(&"Moby".to_string(), &"B".to_string()), Vec::new());
    let empty = Library::new(Vec::new());
    assert_eq!(empty.list_artists(), Vec::<String>::new());
    assert_eq!(empty.list_albums(&"A".to_string()), Vec::<String>::new());
}

#[test]
fn of_two_artists_with_one_name_the_first_is_found() {
    let library = Library::new(vec![
        Artist {
            name: "A".to_string(),
            albums: vec![Album { title: "First".to_string(), tracks: vec![track("1")] }],
        },
        Artist {
            name: "A".to_string(),
            albums: vec![Album { title: "Second".to_string(), tracks: vec![track("2")] }],
        },
    ]);
    assert_eq!(library.list_albums(&"A".to_string()), strings(&["First"]));
    assert_eq!(library.list_tracks(&"A".to_string(), &"Second".to_string()), Vec::new());
}

#[test]
fn the_first_screen_lists_the_artists_in_ascending_order() {
    let app: App<Target> = App::new(library());
    assert_eq!(app.artists, strings(&["A", "Moby", "Zed"]));
}

#[test]
fn artists_are_ordered_character_by_character() {
    let names = ["b", "B", "ab", "a", "", "\u{e9}", "z"];
    let artists = names
        .iter()
        .map(|name| Artist { name: name.to_string(), albums: Vec::new() })
        .collect();
    let app: App<Target> = App::new(Library::new(artists));
    assert_eq!(app.artists, strings(&["", "B", "a", "ab", "b", "z", "\u{e9}"]));
}

#[test]
fn the_rendered_root_spans_the_rotated_panel() {
    let app: App<Target> = App::new(library());
    let gui = started(&app);
    assert_eq!(gui.draw_target.size(), Dimensions::new(250, 122));
    let counters = gui.draw_target.get_ref().driver().refresh_counters();
    assert!(counters.last_full_update.nanoseconds != 0);
}

#[test]
fn selecting_an_artist_and_an_album_queues_every_track_in_order_and_plays() {
    let app: App<Target> = App::new(library());
    let mut gui = started(&app);

    let signals = gui.handle_event(Event::Touch(Point(5, 4)));
    assert_eq!(signals, vec![ControlSignal::Pressed(Action::OpenArtist("A".to_string()))]);
    let response = app.respond(&signals[0], false);
    assert_eq!(response.player_commands, Vec::new());
    assert!(matches!(response.command, Some(GuiCommand::ReplaceRoot(_))));
    assert!(gui.execute(response.command.into_iter().collect()));

    let signals = gui.handle_event(Event::Touch(Point(5, 4)));
    assert_eq!(
        signals,
        vec![ControlSignal::Pressed(Action::OpenAlbum("A".to_string(), "B".to_string()))]
    );
    let response = app.respond(&signals[0], false);
    assert_eq!(
        response.player_commands,
        vec![
            PlayerCommand::AddToQueue(track("a/b/1")),
            PlayerCommand::AddToQueue(track("a/b/2")),
            PlayerCommand::AddToQueue(track("a/b/3")),
            PlayerCommand::Play,
        ]
    );
    assert!(matches!(response.command, Some(GuiCommand::ReplaceRoot(_))));
    assert!(gui.execute(response.command.into_iter().collect()));
    assert_eq!(gui.handle_event(Event::Touch(Point(5, 4))), Vec::new());
}

#[test]
fn the_second_album_of_the_list_is_below_the_first() {
    let app: App<Target> = App::new(library());
    let mut gui = started(&app);
    let response = app.respond(&ControlSignal::Pressed(Action::OpenArtist("A".to_string())), false);
    gui.execute(response.command.into_iter().collect());
    assert_eq!(
        gui.handle_event(Event::Touch(Point(5, 12))),
        vec![ControlSignal::Pressed(Action::OpenAlbum("A".to_string(), "B".to_string()))]
    );
    assert_eq!(
        gui.handle_event(Event::Touch(Point(5, 13))),
        vec![ControlSignal::Pressed(Action::OpenAlbum("A".to_string(), "C".to_string()))]
    );
    assert_eq!(gui.handle_event(Event::Touch(Point(5, 26))), Vec::new());
}

#[test]
fn the_entries_of_the_first_screen_follow_each_other_from_the_top() {
    let app: App<Target> = App::new(library());
    let mut gui = started(&app);
    let artist_at = |gui: &mut Gui<Target>, y: u32| gui.handle_event(Event::Touch(Point(219, y)));
    assert_eq!(
        artist_at(&mut gui, 8),
        vec![ControlSignal::Pressed(Action::OpenArtist("A".to_string()))]
    );
    assert_eq!(
        artist_at(&mut gui, 9),
        vec![ControlSignal::Pressed(Action::OpenArtist("Moby".to_string()))]
    );
    assert_eq!(
        artist_at(&mut gui, 18),
        vec![ControlSignal::Pressed(Action::OpenArtist("Zed".to_string()))]
    );
    assert_eq!(artist_at(&mut gui, 27), Vec::new());
}

#[test]
fn scrolling_the_first_screen_moves_the_list_by_one_artist() {
    let app: App<Target> = App::new(library());
    let mut gui = started(&app);
    assert_eq!(gui.handle_event(Event::Touch(Point(230, 60))), Vec::new());
    let signals = gui.handle_event(Event::Heartbeat);
    assert_eq!(signals, vec![ControlSignal::Redraw]);
    let response = app.respond(&signals[0], false);
    assert!(matches!(response.command, Some(GuiCommand::Redraw)));
    assert_eq!(response.player_commands, Vec::new());
    assert!(gui.execute(response.command.into_iter().collect()));
    assert_eq!(
        gui.handle_event(Event::Touch(Point(5, 4))),
        vec![ControlSignal::Pressed(Action::OpenArtist("Moby".to_string()))]
    );
}

#[test]
fn an_album_that_is_not_there_still_starts_the_player() {
    let app: App<Target> = App::new(library());
    let (_, commands) = app.playback_view(&"A".to_string(), &"Nothing".to_string());
    assert_eq!(commands, vec![PlayerCommand::Play]);
}

#[test]
fn stop_and_play_pause_go_to_the_player_and_leave_the_screen_alone() {
    let app: App<Target> = App::new(library());
    let stop = app.respond(&ControlSignal::Pressed(Action::Stop), false);
    assert_eq!(stop.player_commands, vec![PlayerCommand::Stop]);
    assert!(stop.command.is_none());
    let resume = app.respond(&ControlSignal::Pressed(Action::PlayPause), true);
    assert_eq!(resume.player_commands, vec![PlayerCommand::Play]);
    assert!(resume.command.is_none());
    let pause = app.respond(&ControlSignal::Pressed(Action::PlayPause), false);
    assert_eq!(pause.player_commands, vec![PlayerCommand::Pause]);
    assert!(pause.command.is_none());
}

#[test]
fn going_home_or_to_an_artist_does_not_touch_the_player() {
    let app: App<Target> = App::new(library());
    let home = app.respond(&ControlSignal::Pressed(Action::Home), false);
    assert_eq!(home.player_commands, Vec::new());
    assert!(matches!(home.command, Some(GuiCommand::ReplaceRoot(_))));
    let artist = app.respond(&ControlSignal::Pressed(Action::OpenArtist("A".to_string())), true);
    assert_eq!(artist.player_commands, Vec::new());
    assert!(matches!(artist.command, Some(GuiCommand::ReplaceRoot(_))));
}

#[test]
fn a_scroll_press_that_reaches_the_builder_does_nothing() {
    let app: App<Target> = App::new(library());
    let response =
        app.respond(&ControlSignal::Pressed(Action::Scroll(ScrollRequest::Down)), false);
    assert_eq!(response.player_commands, Vec::new());
    assert!(response.command.is_none());
}

#[test]
fn the_view_of_what_is_playing_follows_the_status_of_the_player() {
    let app: App<Target> = App::new(library());
    let mut gui = started(&app);
    let (view, _) = app.playback_view(&"A".to_string(), &"B".to_string());
    gui.execute(vec![GuiCommand::ReplaceRoot(view)]);
    assert_eq!(gui.handle_event(Event::Heartbeat), Vec::new());
    gui.publish_status(&PlaybackStatus {
        title: "Song".to_string(),
        album_title: "B".to_string(),
        album_artist: "A".to_string(),
        elapsed: 75,
        total_length: 150,
    });
    assert_eq!(
        gui.handle_event(Event::Heartbeat),
        vec![ControlSignal::Redraw, ControlSignal::Redraw]
    );
    assert_eq!(gui.handle_event(Event::Heartbeat), Vec::new());
    gui.execute(vec![GuiCommand::Redraw]);
    let mut expected = target();
    let bar: Vec<Pixel> = (0..5)
        .flat_map(|row| (0..125).map(move |x| Pixel { x, y: 22 + 5 + row, color: BinaryColor::On }))
        .collect();
    expected.draw_iter(&bar);
    assert_eq!(gui.draw_target.get_ref().image().to_vec(), expected.get_ref().image().to_vec());
}

#[test]
fn an_empty_library_gives_an_empty_list_that_can_be_shown() {
    let app: App<Target> = App::new(Library::new(Vec::new()));
    assert_eq!(app.artists, Vec::<String>::new());
    let mut gui = started(&app);
    assert_eq!(gui.handle_event(Event::Touch(Point(5, 4))), Vec::new());
    assert_eq!(gui.handle_event(Event::Heartbeat), Vec::new());
    let response = app.respond(&ControlSignal::Pressed(Action::OpenArtist("A".to_string())), false);
    assert!(gui.execute(response.command.into_iter().collect()));
    assert_eq!(gui.handle_event(Event::Touch(Point(5, 4))), Vec::new());
}

#[test]
fn every_iteration_ends_with_a_heartbeat() {
    assert_eq!(iteration_events(Vec::new()), vec![Event::Heartbeat]);
    assert_eq!(
        iteration_events(vec![Event::Touch(Point(1, 2)), Event::Heartbeat]),
        vec![Event::Touch(Point(1, 2)), Event::Heartbeat, Event::Heartbeat]
    );
}

#[test]
fn starting_renders_the_tree_once_and_flushes_it() {
    let app: App<Target> = App::new(library());
    let mut gui = Gui::new(Fonts::new(Vec::new()), target(), app.initial_view());
    assert!(gui.draw_target.get_mut().take_pending().is_empty());
    gui.start();
    assert_eq!(gui.draw_target.get_ref().changed_pixels(), 0);
    let ops = gui.draw_target.get_mut().take_pending();
    let writes = ops.windows(1).filter(|op| op[0] == WireOp::Transfer(0x24)).count();
    assert!(!ops.is_empty());
    assert!(writes >= 1);
    assert_eq!(gui.draw_target.get_ref().driver().refresh_counters().write_count, 0);
}

#[test]
fn a_render_pass_draws_on_a_cleared_surface() {
    let app: App<Target> = App::new(library());
    let mut gui = started(&app);
    gui.draw_target.draw_iter(&[Pixel { x: 100, y: 50, color: BinaryColor::On }]);
    assert!(gui.draw_target.get_ref().image().iter().any(|byte| *byte != 0xFF));
    gui.render();
    assert!(gui.draw_target.get_ref().image().iter().all(|byte| *byte == 0xFF));
    assert_eq!(gui.draw_target.get_ref().changed_pixels(), 0);
    assert_eq!(gui.draw_target.get_ref().driver().refresh_counters().write_count, 1);
}

#[test]
fn without_commands_nothing_is_rendered() {
    let app: App<Target> = App::new(library());
    let mut gui = started(&app);
    gui.draw_target.get_mut().take_pending();
    assert!(!gui.execute(Vec::new()));
    assert!(gui.draw_target.get_mut().take_pending().is_empty());
    assert_eq!(gui.draw_target.get_ref().driver().refresh_counters().write_count, 0);
}

#[test]
fn several_commands_lead_to_one_render_pass() {
    let app: App<Target> = App::new(library());
    let mut gui = started(&app);
    let commands = vec![
        GuiCommand::Redraw,
        GuiCommand::ReplaceRoot(app.artist_view(&"Zed".to_string())),
        GuiCommand::Redraw,
        GuiCommand::ReplaceRoot(app.artist_view(&"A".to_string())),
        GuiCommand::Redraw,
    ];
    assert!(gui.execute(commands));
    assert_eq!(gui.draw_target.get_ref().driver().refresh_counters().write_count, 1);
    assert_eq!(
        gui.handle_event(Event::Touch(Point(5, 14))),
        vec![ControlSignal::Pressed(Action::OpenAlbum("A".to_string(), "C".to_string()))]
    );
}

#[test]
fn a_tree_that_was_put_in_place_holds_the_command_channel() {
    let app: App<Target> = App::new(library());
    let mut gui = started(&app);
    gui.execute(vec![GuiCommand::ReplaceRoot(app.artist_view(&"Zed".to_string()))]);
    assert_eq!(
        gui.handle_event(Event::Touch(Point(5, 4))),
        vec![ControlSignal::Pressed(Action::OpenAlbum("Zed".to_string(), "B".to_string()))]
    );
}

#[test]
fn a_tree_that_was_not_started_sends_nothing() {
    let app: App<Target> = App::new(library());
    let mut gui = Gui::new(Fonts::new(Vec::new()), target(), app.initial_view());
    gui.render();
    assert_eq!(gui.handle_event(Event::Touch(Point(5, 4))), Vec::new());
}

#[test]
fn clearing_the_screen_turns_every_pixel_off() {
    let app: App<Target> = App::new(library());
    let mut gui = started(&app);
    gui.draw_target.draw_iter(&[
        Pixel { x: 0, y: 1, color: BinaryColor::On },
        Pixel { x: 249, y: 121, color: BinaryColor::On },
        Pixel { x: 100, y: 50, color: BinaryColor::On },
    ]);
    assert!(gui.draw_target.get_ref().image().iter().any(|byte| *byte != 0xFF));
    gui.clear_screen();
    assert!(gui.draw_target.get_ref().image().iter().all(|byte| *byte == 0xFF));
}

#[test]
fn the_wrapping_view_puts_the_content_above_a_row_of_thirty_units() {
    let app: App<Target> = App::new(library());
    let content = app.artist_view(&"A".to_string());
    let view = app.wrapping_view(content, None, Vec::new());
    let mut gui = Gui::new(Fonts::new(Vec::new()), target(), view);
    gui.start();
    assert_eq!(
        gui.handle_event(Event::Touch(Point(5, 4))),
        vec![ControlSignal::Pressed(Action::OpenAlbum("A".to_string(), "B".to_string()))]
    );
    let whole = Rectangle::new(Point(0, 0), Dimensions::new(250, 122));
    assert!(whole.contains(Point(249, 121)));
    assert_eq!(gui.handle_event(Event::Touch(Point(5, 100))), Vec::new());
}
