use ananas_music_control::epaper::buffered::BufferedDrawTarget;
use ananas_music_control::epaper::driver::{EPaper, RefreshPolicy};
use ananas_music_control::epaper::target::{BinaryColor, Pixel};
use ananas_music_control::gui::controls::button::Button;
use ananas_music_control::gui::controls::item_scroller::{
    follow_scroll_requests, split_signals, ItemScroller,
};
use ananas_music_control::gui::controls::progress_bar::{fill_width, ProgressBar};
use ananas_music_control::gui::controls::stack_panel::StackPanel;
use ananas_music_control::gui::controls::text::{
    draw_text, natural_dimensions, render_text, text_image, RenderedText, Text,
};
use ananas_music_control::gui::drawing::block;
use ananas_music_control::gui::fonts::{FontKind, Fonts, GlyphBitmap};
use ananas_music_control::gui::geometry::{
    Dimensions, Orientation, Padding, Point, Rectangle, StackUnitDimension,
};
use ananas_music_control::gui::{
    Action, CommandSender, Control, ControlSignal, Event, ScrollRequest, Widget,
};
use ananas_music_control::playback::{PlaybackStatus, StatusField};

type Target = BufferedDrawTarget;

fn target() -> Target {
    BufferedDrawTarget::new(EPaper::new(RefreshPolicy::default()))
}

fn no_fonts() -> Fonts {
    Fonts::new(Vec::new())
}

fn label(text: &str) -> Text<Target> {
    Text::new(text.to_string(), 15, FontKind::MainText, Padding::zero())
}

fn button(action: Action) -> Button<Target> {
    Button::new(label("").boxed(), Padding::new(3, 6, 0, 0), action)
}

fn entries(count: usize) -> Vec<Widget<Target>> {
    (0..count).map(|i| button(Action::OpenArtist(format!("a{}", i))).boxed()).collect()
}

fn pressed(action: Action) -> Vec<ControlSignal> {
    vec![ControlSignal::Pressed(action)]
}

fn status() -> PlaybackStatus {
    PlaybackStatus {
        title: "Song".to_string(),
        album_title: "Album".to_string(),
        album_artist: "Artist".to_string(),
        elapsed: 30,
        total_length: 120,
    }
}

#[test]
fn text_pixels_are_the_covered_entries_of_each_glyph() {
    let glyphs = vec![
        GlyphBitmap { x: 1, y: 2, width: 3, coverage: vec![255, 0, 1, 0, 0, 9] },
        GlyphBitmap { x: 10, y: 0, width: 1, coverage: vec![5, 5] },
    ];
    let rendered = render_text(&glyphs);
    assert_eq!(rendered.pixels, vec![(1, 2), (3, 2), (3, 3), (10, 0), (10, 1)]);
    assert_eq!(rendered.width, 10);
    assert_eq!(rendered.height, 3);
}

#[test]
fn a_glyph_without_width_or_coverage_has_no_pixels() {
    let glyphs = vec![
        GlyphBitmap { x: 1, y: 2, width: 0, coverage: vec![255, 255] },
        GlyphBitmap { x: 1, y: 2, width: 4, coverage: vec![] },
        GlyphBitmap { x: 1, y: 2, width: 4, coverage: vec![0, 0, 0, 0] },
    ];
    let rendered = render_text(&glyphs);
    assert_eq!(rendered.pixels, Vec::new());
    assert_eq!(rendered.width, 0);
    assert_eq!(rendered.height, 0);
}

#[test]
fn no_glyphs_render_to_nothing() {
    let rendered = render_text(&Vec::new());
    assert_eq!(rendered.pixels, Vec::new());
    assert_eq!((rendered.width, rendered.height), (0, 0));
}

#[test]
fn glyph_places_stop_at_the_largest_number() {
    let glyphs = vec![GlyphBitmap {
        x: usize::MAX,
        y: usize::MAX - 1,
        width: 2,
        coverage: vec![0, 1, 0, 1],
    }];
    let rendered = render_text(&glyphs);
    assert_eq!(rendered.pixels, vec![(usize::MAX, usize::MAX - 1), (usize::MAX, usize::MAX)]);
    assert_eq!(rendered.width, u32::MAX);
    assert_eq!(rendered.height, u32::MAX);
}

#[test]
fn a_text_is_centred_in_its_region() {
    let pixels = vec![(0, 0), (1, 1), (2, 2), (5, 0)];
    let rendered = RenderedText { pixels, width: 5, height: 2 };
    let image = text_image(&rendered, Dimensions::new(10, 6), Point(100, 50));
    assert_eq!(
        image,
        vec![
            Pixel { x: 102, y: 52, color: BinaryColor::On },
            Pixel { x: 103, y: 53, color: BinaryColor::On },
        ]
    );
}

#[test]
fn a_text_larger_than_its_region_is_cut() {
    let pixels = vec![(0, 0), (1, 1), (2, 0), (3, 0)];
    let rendered = RenderedText { pixels, width: 5, height: 2 };
    let image = text_image(&rendered, Dimensions::new(3, 1), Point(100, 50));
    assert_eq!(
        image,
        vec![
            Pixel { x: 100, y: 50, color: BinaryColor::On },
            Pixel { x: 102, y: 50, color: BinaryColor::On },
        ]
    );
}

#[test]
fn a_text_beyond_the_coordinates_is_not_drawn() {
    let rendered = RenderedText { pixels: vec![(0, 0), (1, 0)], width: 2, height: 1 };
    let image = text_image(&rendered, Dimensions::new(2, 1), Point(i32::MAX as u32, 0));
    assert_eq!(image, vec![Pixel { x: i32::MAX, y: 0, color: BinaryColor::On }]);
}

#[test]
fn a_drawn_text_turns_its_visible_pixels_on() {
    let mut target = target();
    let pixels = vec![(0, 0), (1, 0), (1, 1), (3, 3)];
    let rendered = RenderedText { pixels, width: 3, height: 2 };
    draw_text(&mut target, &rendered, Dimensions::new(16, 4), Point(8, 2));
    let mut expected = self::target();
    expected.draw_pixel(Pixel { x: 14, y: 3, color: BinaryColor::On });
    expected.draw_pixel(Pixel { x: 15, y: 3, color: BinaryColor::On });
    expected.draw_pixel(Pixel { x: 15, y: 4, color: BinaryColor::On });
    assert_eq!(target.image().to_vec(), expected.image().to_vec());
    assert_eq!(target.image()[3 * 16 + 1], 0xFC);
    assert_eq!(target.image()[4 * 16 + 1], 0xFE);
    assert_eq!(target.changed_pixels(), 3);
}

#[test]
fn the_natural_size_of_rendered_text_adds_the_padding() {
    let rendered = RenderedText { pixels: Vec::new(), width: 40, height: 12 };
    assert_eq!(natural_dimensions(&rendered, Padding::new(1, 2, 3, 4)), Dimensions::new(47, 15));
    let huge = RenderedText { pixels: Vec::new(), width: u32::MAX, height: u32::MAX - 1 };
    assert_eq!(
        natural_dimensions(&huge, Padding::new(1, 2, 3, 4)),
        Dimensions::new(u32::MAX, u32::MAX)
    );
}

#[test]
fn without_fonts_a_text_has_no_glyphs() {
    assert!(no_fonts().rasterize("hello", 15, FontKind::MainText).is_empty());
    assert!(no_fonts().rasterize("", 15, FontKind::Emoji).is_empty());
    assert_eq!(Fonts::index_of(FontKind::MainText), 0);
    assert_eq!(Fonts::index_of(FontKind::Emoji), 1);
    assert!(no_fonts().all().is_empty());
}

#[test]
fn the_natural_size_of_a_text_includes_its_padding() {
    let mut text: Text<Target> =
        Text::new("".to_string(), 15, FontKind::MainText, Padding::new(1, 2, 3, 4));
    assert_eq!(text.compute_natural_dimensions(&no_fonts()), Dimensions::new(7, 3));
}

#[test]
fn a_text_takes_over_what_was_written_and_asks_to_be_redrawn() {
    let mut text = label("before");
    text.register_command_channel(CommandSender::new());
    text.text().send("after".to_string());
    assert_eq!(text.content(), "before");
    assert_eq!(text.on_event(Event::Heartbeat), vec![ControlSignal::Redraw]);
    assert_eq!(text.content(), "after");
    assert_eq!(text.on_event(Event::Heartbeat), Vec::new());
}

#[test]
fn a_text_sees_only_the_last_of_several_writes() {
    let mut text = label("before");
    text.register_command_channel(CommandSender::new());
    text.text().send("first".to_string());
    text.text().send("second".to_string());
    assert_eq!(text.on_event(Event::Heartbeat), vec![ControlSignal::Redraw]);
    assert_eq!(text.content(), "second");
}

#[test]
fn a_text_that_is_written_what_it_shows_stays_silent() {
    let mut text = label("same");
    text.register_command_channel(CommandSender::new());
    text.text().send("same".to_string());
    assert_eq!(text.on_event(Event::Heartbeat), Vec::new());
    assert_eq!(text.content(), "same");
}

#[test]
fn a_text_without_the_channel_changes_silently() {
    let mut text = label("before");
    text.text().send("after".to_string());
    assert_eq!(text.on_event(Event::Heartbeat), Vec::new());
    assert_eq!(text.content(), "after");
}

#[test]
fn a_touch_does_not_make_a_text_take_over_what_was_written() {
    let mut text = label("before");
    text.register_command_channel(CommandSender::new());
    text.text().send("after".to_string());
    assert_eq!(text.on_event(Event::Touch(Point(0, 0))), Vec::new());
    assert_eq!(text.content(), "before");
    assert_eq!(text.on_event(Event::Heartbeat), vec![ControlSignal::Redraw]);
}

#[test]
fn a_text_follows_the_field_of_the_status_it_was_told_to() {
    let mut title = label("");
    title.register_command_channel(CommandSender::new());
    title.follow(StatusField::Title);
    title.on_status(&status());
    assert_eq!(title.on_event(Event::Heartbeat), vec![ControlSignal::Redraw]);
    assert_eq!(title.content(), "Song");
    let mut album = label("");
    album.follow(StatusField::AlbumTitle);
    album.on_status(&status());
    album.on_event(Event::Heartbeat);
    assert_eq!(album.content(), "Album");
    let mut artist = label("");
    artist.follow(StatusField::AlbumArtist);
    artist.on_status(&status());
    artist.on_event(Event::Heartbeat);
    assert_eq!(artist.content(), "Artist");
}

#[test]
fn a_text_that_follows_nothing_ignores_the_status() {
    let mut text = label("fixed");
    text.register_command_channel(CommandSender::new());
    text.on_status(&status());
    assert_eq!(text.on_event(Event::Heartbeat), Vec::new());
    assert_eq!(text.content(), "fixed");
}

#[test]
fn a_text_records_the_region_inside_its_padding() {
    let mut target = target();
    let mut text: Text<Target> =
        Text::new("hello".to_string(), 15, FontKind::MainText, Padding::new(1, 2, 3, 4));
    assert_eq!(text.recorded_box(), None);
    text.render(&mut target, Dimensions::new(50, 20), Point(10, 10), &no_fonts());
    assert_eq!(
        text.recorded_box(),
        Some(Rectangle::new(Point(13, 11), Dimensions::new(43, 17)))
    );
}

#[test]
fn a_text_with_more_padding_than_room_records_a_region_without_extent() {
    let mut target = target();
    let mut text: Text<Target> =
        Text::new("hello".to_string(), 15, FontKind::MainText, Padding::new(30, 0, 60, 0));
    text.render(&mut target, Dimensions::new(50, 20), Point(10, 10), &no_fonts());
    assert_eq!(text.recorded_box(), Some(Rectangle::new(Point(70, 40), Dimensions::new(0, 0))));
}

#[test]
fn rendering_a_text_without_glyphs_draws_nothing() {
    let mut target = target();
    let mut text = label("hello");
    text.render(&mut target, Dimensions::new(50, 20), Point(0, 0), &no_fonts());
    assert!(target.image().iter().all(|byte| *byte == 0xFF));
}

#[test]
fn a_button_is_pressed_inside_the_region_it_was_rendered_into() {
    let mut target = target();
    let mut button = button(Action::Home);
    button.register_command_channel(CommandSender::new());
    button.render(&mut target, Dimensions::new(50, 30), Point(10, 20), &no_fonts());
    assert_eq!(button.on_event(Event::Touch(Point(10, 20))), pressed(Action::Home));
    assert_eq!(button.on_event(Event::Touch(Point(59, 49))), pressed(Action::Home));
    assert_eq!(button.on_event(Event::Touch(Point(60, 20))), Vec::new());
    assert_eq!(button.on_event(Event::Touch(Point(10, 50))), Vec::new());
    assert_eq!(button.on_event(Event::Touch(Point(9, 20))), Vec::new());
}

#[test]
fn a_button_that_was_not_rendered_cannot_be_pressed() {
    let mut button = button(Action::Home);
    button.register_command_channel(CommandSender::new());
    assert_eq!(button.on_event(Event::Touch(Point(0, 0))), Vec::new());
}

#[test]
fn a_button_without_the_channel_sends_nothing() {
    let mut target = target();
    let mut button = button(Action::Home);
    button.render(&mut target, Dimensions::new(50, 30), Point(10, 20), &no_fonts());
    assert_eq!(button.on_event(Event::Touch(Point(10, 20))), Vec::new());
}

#[test]
fn a_button_hands_the_channel_and_the_heartbeat_to_what_it_shows() {
    let mut content = label("before");
    content.text().send("after".to_string());
    let mut button = Button::new(content.boxed(), Padding::zero(), Action::Stop);
    button.register_command_channel(CommandSender::new());
    assert_eq!(button.on_event(Event::Heartbeat), vec![ControlSignal::Redraw]);
    assert_eq!(button.on_event(Event::Heartbeat), Vec::new());
}

#[test]
fn the_natural_size_of_a_button_includes_its_padding() {
    let mut button = button(Action::Home);
    assert_eq!(button.compute_natural_dimensions(&no_fonts()), Dimensions::new(0, 9));
}

#[test]
fn a_stack_panel_routes_a_touch_to_the_child_whose_region_holds_it() {
    let mut target = target();
    let mut panel = StackPanel::new(
        vec![button(Action::Stop).boxed(), button(Action::PlayPause).boxed()],
        Orientation::Horizontal,
        vec![StackUnitDimension::Pixel(30), StackUnitDimension::Stretch],
    );
    panel.register_command_channel(CommandSender::new());
    panel.render(&mut target, Dimensions::new(100, 20), Point(0, 0), &no_fonts());
    assert_eq!(
        panel.child_boxes,
        Some(vec![
            Rectangle::new(Point(0, 0), Dimensions::new(30, 20)),
            Rectangle::new(Point(30, 0), Dimensions::new(70, 20)),
        ])
    );
    assert_eq!(panel.on_event(Event::Touch(Point(29, 5))), pressed(Action::Stop));
    assert_eq!(panel.on_event(Event::Touch(Point(30, 5))), pressed(Action::PlayPause));
    assert_eq!(panel.on_event(Event::Touch(Point(99, 19))), pressed(Action::PlayPause));
    assert_eq!(panel.on_event(Event::Touch(Point(100, 5))), Vec::new());
    assert_eq!(panel.on_event(Event::Touch(Point(5, 20))), Vec::new());
    assert_eq!(panel.on_event(Event::Heartbeat), Vec::new());
}

#[test]
fn children_without_a_policy_take_their_natural_size_along_the_axis() {
    let mut target = target();
    let mut panel = StackPanel::new(
        vec![button(Action::Stop).boxed(), button(Action::PlayPause).boxed()],
        Orientation::Vertical,
        Vec::new(),
    );
    panel.render(&mut target, Dimensions::new(100, 20), Point(5, 5), &no_fonts());
    assert_eq!(
        panel.child_boxes,
        Some(vec![
            Rectangle::new(Point(5, 5), Dimensions::new(100, 9)),
            Rectangle::new(Point(5, 14), Dimensions::new(100, 9)),
        ])
    );
}

#[test]
fn children_that_ask_for_more_than_there_is_are_cut_at_the_region() {
    let mut target = target();
    let mut panel = StackPanel::new(
        vec![
            button(Action::Stop).boxed(),
            button(Action::PlayPause).boxed(),
            button(Action::Home).boxed(),
        ],
        Orientation::Vertical,
        Vec::new(),
    );
    panel.render(&mut target, Dimensions::new(100, 12), Point(0, 0), &no_fonts());
    assert_eq!(
        panel.child_boxes,
        Some(vec![
            Rectangle::new(Point(0, 0), Dimensions::new(100, 9)),
            Rectangle::new(Point(0, 9), Dimensions::new(100, 3)),
            Rectangle::new(Point(0, 12), Dimensions::new(100, 0)),
        ])
    );
}

#[test]
fn a_stack_panel_that_was_not_rendered_routes_no_touch() {
    let mut panel = StackPanel::new(
        vec![button(Action::Stop).boxed()],
        Orientation::Horizontal,
        Vec::new(),
    );
    panel.register_command_channel(CommandSender::new());
    assert_eq!(panel.on_event(Event::Touch(Point(0, 0))), Vec::new());
}

#[test]
fn a_stack_panel_hands_the_heartbeat_to_every_child_in_order() {
    let mut first = label("a");
    first.text().send("b".to_string());
    let mut second = ProgressBar::new(0, 10, 5, Padding::zero());
    second.progress().send(3);
    let mut panel: StackPanel<Target> = StackPanel::new(
        vec![first.boxed(), button(Action::Home).boxed(), second.boxed()],
        Orientation::Vertical,
        Vec::new(),
    );
    panel.register_command_channel(CommandSender::new());
    assert_eq!(
        panel.on_event(Event::Heartbeat),
        vec![ControlSignal::Redraw, ControlSignal::Redraw]
    );
    assert_eq!(panel.on_event(Event::Heartbeat), Vec::new());
}

#[test]
fn the_natural_size_of_a_stack_panel_adds_up_along_its_axis() {
    let mut panel = StackPanel::new(
        vec![
            button(Action::Stop).boxed(),
            button(Action::PlayPause).boxed(),
            button(Action::Home).boxed(),
        ],
        Orientation::Horizontal,
        vec![StackUnitDimension::Pixel(30), StackUnitDimension::Stretch],
    );
    assert_eq!(panel.compute_natural_dimensions(&no_fonts()), Dimensions::new(30, 9));
    let mut column = StackPanel::new(
        vec![button(Action::Stop).boxed(), button(Action::PlayPause).boxed()],
        Orientation::Vertical,
        Vec::new(),
    );
    assert_eq!(column.compute_natural_dimensions(&no_fonts()), Dimensions::new(0, 18));
}

fn mixed_children() -> Vec<Widget<Target>> {
    let text: Text<Target> =
        Text::new("".to_string(), 15, FontKind::MainText, Padding::new(1, 2, 3, 4));
    let bar: ProgressBar<Target> = ProgressBar::new(0, 150, 5, Padding::new(5, 5, 1, 2));
    vec![text.boxed(), bar.boxed()]
}

#[test]
fn a_stretching_child_asks_for_nothing_along_the_axis_and_still_counts_across_it() {
    let stretch = vec![StackUnitDimension::Stretch];
    let mut row = StackPanel::new(mixed_children(), Orientation::Horizontal, stretch.clone());
    assert_eq!(row.compute_natural_dimensions(&no_fonts()), Dimensions::new(3, 15));
    let mut column = StackPanel::new(mixed_children(), Orientation::Vertical, stretch);
    assert_eq!(column.compute_natural_dimensions(&no_fonts()), Dimensions::new(7, 15));
}

#[test]
fn the_natural_size_of_a_stack_panel_stops_at_the_largest_number() {
    let mut row = StackPanel::new(
        mixed_children(),
        Orientation::Horizontal,
        vec![StackUnitDimension::Pixel(u32::MAX), StackUnitDimension::Pixel(5)],
    );
    assert_eq!(row.compute_natural_dimensions(&no_fonts()), Dimensions::new(u32::MAX, 15));
}

#[test]
fn a_stack_panel_without_children_has_no_natural_size() {
    let mut panel: StackPanel<Target> =
        StackPanel::new(Vec::new(), Orientation::Vertical, vec![StackUnitDimension::Pixel(9)]);
    assert_eq!(panel.compute_natural_dimensions(&no_fonts()), Dimensions::new(0, 0));
}

#[test]
fn the_natural_size_of_a_button_is_that_of_what_it_shows_with_its_padding() {
    let bar: ProgressBar<Target> = ProgressBar::new(0, 150, 5, Padding::new(5, 5, 1, 2));
    let mut button = Button::new(bar.boxed(), Padding::new(1, 1, 10, 10), Action::Stop);
    assert_eq!(button.compute_natural_dimensions(&no_fonts()), Dimensions::new(23, 17));
}

fn rendered_scroller(count: usize) -> (ItemScroller<Target>, Target) {
    let mut target = target();
    let mut scroller = ItemScroller::new(entries(count), 3);
    scroller.register_command_channel(CommandSender::new());
    scroller.render(&mut target, Dimensions::new(122, 100), Point(0, 0), &no_fonts());
    (scroller, target)
}

const UP: Point = Point(100, 10);
const DOWN: Point = Point(100, 60);

#[test]
fn a_scroller_shows_the_first_children_beside_its_column_of_buttons() {
    let (scroller, _) = rendered_scroller(5);
    assert_eq!(scroller.scroll_index, 0);
    assert_eq!(
        scroller.children_bounding_boxes,
        Some(vec![
            Rectangle::new(Point(0, 0), Dimensions::new(92, 9)),
            Rectangle::new(Point(0, 9), Dimensions::new(92, 9)),
            Rectangle::new(Point(0, 18), Dimensions::new(92, 9)),
        ])
    );
    assert_eq!(
        scroller.buttons_stack_panel_bounding_box,
        Some(Rectangle::new(Point(92, 0), Dimensions::new(30, 100)))
    );
    assert_eq!(
        scroller.buttons_stack_panel.child_boxes,
        Some(vec![
            Rectangle::new(Point(92, 0), Dimensions::new(30, 50)),
            Rectangle::new(Point(92, 50), Dimensions::new(30, 50)),
        ])
    );
}

#[test]
fn the_scroll_buttons_share_an_odd_height_with_the_extra_unit_to_the_upper_one() {
    let mut target = target();
    let mut scroller: ItemScroller<Target> = ItemScroller::new(Vec::new(), 3);
    scroller.render(&mut target, Dimensions::new(100, 121), Point(0, 0), &no_fonts());
    assert_eq!(
        scroller.buttons_stack_panel_bounding_box,
        Some(Rectangle::new(Point(70, 0), Dimensions::new(30, 121)))
    );
    assert_eq!(
        scroller.buttons_stack_panel.child_boxes,
        Some(vec![
            Rectangle::new(Point(70, 0), Dimensions::new(30, 61)),
            Rectangle::new(Point(70, 61), Dimensions::new(30, 60)),
        ])
    );
}

#[test]
fn the_upper_scroll_button_scrolls_up_and_the_lower_one_down() {
    let (mut scroller, _) = rendered_scroller(5);
    scroller.on_event(Event::Touch(Point(100, 49)));
    assert_eq!(scroller.scroll_requests, vec![ScrollRequest::Up]);
    scroller.on_event(Event::Touch(Point(100, 50)));
    assert_eq!(scroller.scroll_requests, vec![ScrollRequest::Up, ScrollRequest::Down]);
}

#[test]
fn the_children_of_a_scroller_are_as_high_as_they_naturally_are() {
    let mut target = target();
    let tall: Text<Target> =
        Text::new("".to_string(), 15, FontKind::MainText, Padding::vertical(10, 10));
    let bar: ProgressBar<Target> = ProgressBar::new(0, 150, 5, Padding::new(5, 5, 1, 2));
    let mut scroller = ItemScroller::new(vec![tall.boxed(), bar.boxed()], 3);
    scroller.render(&mut target, Dimensions::new(100, 121), Point(2, 3), &no_fonts());
    assert_eq!(
        scroller.children_bounding_boxes,
        Some(vec![
            Rectangle::new(Point(2, 3), Dimensions::new(70, 20)),
            Rectangle::new(Point(2, 23), Dimensions::new(70, 15)),
        ])
    );
}

#[test]
fn a_scroller_routes_a_touch_to_the_child_that_is_shown_there() {
    let (mut scroller, _) = rendered_scroller(5);
    assert_eq!(
        scroller.on_event(Event::Touch(Point(5, 4))),
        pressed(Action::OpenArtist("a0".to_string()))
    );
    assert_eq!(
        scroller.on_event(Event::Touch(Point(5, 9))),
        pressed(Action::OpenArtist("a1".to_string()))
    );
    assert_eq!(
        scroller.on_event(Event::Touch(Point(91, 26))),
        pressed(Action::OpenArtist("a2".to_string()))
    );
    assert_eq!(scroller.on_event(Event::Touch(Point(5, 27))), Vec::new());
}

#[test]
fn a_press_of_a_scroll_button_waits_for_the_heartbeat() {
    let (mut scroller, mut target) = rendered_scroller(5);
    assert_eq!(scroller.on_event(Event::Touch(DOWN)), Vec::new());
    assert_eq!(scroller.scroll_index, 0);
    assert_eq!(scroller.scroll_requests, vec![ScrollRequest::Down]);
    assert_eq!(scroller.on_event(Event::Heartbeat), vec![ControlSignal::Redraw]);
    assert_eq!(scroller.scroll_index, 1);
    assert_eq!(scroller.scroll_requests, Vec::new());
    assert_eq!(scroller.on_event(Event::Heartbeat), Vec::new());
    scroller.render(&mut target, Dimensions::new(122, 100), Point(0, 0), &no_fonts());
    assert_eq!(
        scroller.on_event(Event::Touch(Point(5, 4))),
        pressed(Action::OpenArtist("a1".to_string()))
    );
    assert_eq!(
        scroller.on_event(Event::Touch(Point(5, 20))),
        pressed(Action::OpenArtist("a3".to_string()))
    );
}

#[test]
fn until_it_is_rendered_again_a_scroller_routes_by_what_it_showed() {
    let (mut scroller, _) = rendered_scroller(5);
    scroller.on_event(Event::Touch(DOWN));
    scroller.on_event(Event::Heartbeat);
    assert_eq!(scroller.scroll_index, 1);
    assert_eq!(scroller.rendered_from, 0);
    assert_eq!(
        scroller.on_event(Event::Touch(Point(5, 4))),
        pressed(Action::OpenArtist("a0".to_string()))
    );
}

#[test]
fn a_scroller_scrolls_down_to_the_number_of_its_children_and_no_further() {
    let (mut scroller, mut target) = rendered_scroller(5);
    for _ in 0..7 {
        scroller.on_event(Event::Touch(DOWN));
    }
    assert_eq!(scroller.on_event(Event::Heartbeat), vec![ControlSignal::Redraw]);
    assert_eq!(scroller.scroll_index, 5);
    scroller.on_event(Event::Touch(DOWN));
    assert_eq!(scroller.on_event(Event::Heartbeat), Vec::new());
    assert_eq!(scroller.scroll_index, 5);
    scroller.render(&mut target, Dimensions::new(122, 100), Point(0, 0), &no_fonts());
    assert_eq!(scroller.children_bounding_boxes, Some(Vec::new()));
    assert_eq!(scroller.on_event(Event::Touch(Point(5, 4))), Vec::new());
}

#[test]
fn the_window_of_a_scroller_shrinks_at_the_end_of_the_list() {
    let (mut scroller, mut target) = rendered_scroller(5);
    for _ in 0..4 {
        scroller.on_event(Event::Touch(DOWN));
    }
    scroller.on_event(Event::Heartbeat);
    scroller.render(&mut target, Dimensions::new(122, 100), Point(0, 0), &no_fonts());
    assert_eq!(
        scroller.children_bounding_boxes,
        Some(vec![Rectangle::new(Point(0, 0), Dimensions::new(92, 9))])
    );
    assert_eq!(
        scroller.on_event(Event::Touch(Point(5, 4))),
        pressed(Action::OpenArtist("a4".to_string()))
    );
}

#[test]
fn a_scroller_at_the_top_does_not_scroll_up() {
    let (mut scroller, _) = rendered_scroller(5);
    scroller.on_event(Event::Touch(UP));
    assert_eq!(scroller.scroll_requests, vec![ScrollRequest::Up]);
    assert_eq!(scroller.on_event(Event::Heartbeat), Vec::new());
    assert_eq!(scroller.scroll_index, 0);
}

#[test]
fn a_scroller_that_moved_and_came_back_still_asks_to_be_redrawn() {
    let (mut scroller, _) = rendered_scroller(5);
    scroller.on_event(Event::Touch(DOWN));
    scroller.on_event(Event::Touch(UP));
    assert_eq!(scroller.on_event(Event::Heartbeat), vec![ControlSignal::Redraw]);
    assert_eq!(scroller.scroll_index, 0);
}

#[test]
fn a_scroller_without_children_stays_at_zero() {
    let (mut scroller, _) = rendered_scroller(0);
    assert_eq!(scroller.children_bounding_boxes, Some(Vec::new()));
    scroller.on_event(Event::Touch(DOWN));
    assert_eq!(scroller.on_event(Event::Heartbeat), Vec::new());
    assert_eq!(scroller.scroll_index, 0);
}

#[test]
fn a_scroller_without_the_channel_scrolls_silently() {
    let mut target = target();
    let mut scroller = ItemScroller::new(entries(5), 3);
    scroller.render(&mut target, Dimensions::new(122, 100), Point(0, 0), &no_fonts());
    scroller.on_event(Event::Touch(DOWN));
    assert_eq!(scroller.on_event(Event::Heartbeat), Vec::new());
    assert_eq!(scroller.scroll_index, 1);
}

#[test]
fn a_scroller_in_a_narrow_region_gives_all_of_it_to_the_buttons() {
    let mut target = target();
    let mut scroller = ItemScroller::new(entries(2), 3);
    scroller.render(&mut target, Dimensions::new(20, 100), Point(4, 0), &no_fonts());
    assert_eq!(
        scroller.buttons_stack_panel_bounding_box,
        Some(Rectangle::new(Point(4, 0), Dimensions::new(20, 100)))
    );
    assert_eq!(
        scroller.children_bounding_boxes,
        Some(vec![
            Rectangle::new(Point(4, 0), Dimensions::new(0, 9)),
            Rectangle::new(Point(4, 9), Dimensions::new(0, 9)),
        ])
    );
}

#[test]
fn a_scroller_asks_for_thirty_units_each_way() {
    let mut scroller = ItemScroller::new(entries(5), 3);
    assert_eq!(scroller.compute_natural_dimensions(&no_fonts()), Dimensions::new(30, 30));
}

#[test]
fn scroll_requests_are_followed_in_order_between_zero_and_the_number_of_children() {
    let down = ScrollRequest::Down;
    let up = ScrollRequest::Up;
    assert_eq!(follow_scroll_requests(0, 3, &vec![]), (0, false));
    assert_eq!(follow_scroll_requests(0, 3, &vec![up]), (0, false));
    assert_eq!(follow_scroll_requests(0, 3, &vec![down, down]), (2, true));
    assert_eq!(follow_scroll_requests(2, 3, &vec![down, down, down]), (3, true));
    assert_eq!(follow_scroll_requests(3, 3, &vec![down]), (3, false));
    assert_eq!(follow_scroll_requests(3, 3, &vec![down, up, up, down]), (2, true));
    assert_eq!(follow_scroll_requests(0, 0, &vec![down, up]), (0, false));
}

#[test]
fn scroll_presses_are_parted_from_the_other_signals() {
    let signals = vec![
        ControlSignal::Redraw,
        ControlSignal::Pressed(Action::Scroll(ScrollRequest::Down)),
        ControlSignal::Pressed(Action::Home),
        ControlSignal::Pressed(Action::Scroll(ScrollRequest::Up)),
    ];
    let (requests, rest) = split_signals(&signals);
    assert_eq!(requests, vec![ScrollRequest::Down, ScrollRequest::Up]);
    assert_eq!(rest, vec![ControlSignal::Redraw, ControlSignal::Pressed(Action::Home)]);
}

#[test]
fn a_progress_bar_fills_the_share_that_the_progress_has_of_the_maximum() {
    assert_eq!(fill_width(100, 30, 150), 20);
    assert_eq!(fill_width(100, 0, 150), 0);
    assert_eq!(fill_width(100, 149, 150), 99);
    assert_eq!(fill_width(100, 150, 150), 100);
    assert_eq!(fill_width(100, 200, 150), 100);
    assert_eq!(fill_width(100, 5, 0), 0);
    assert_eq!(fill_width(u32::MAX, u64::MAX - 1, u64::MAX), u32::MAX - 1);
}

#[test]
fn a_progress_bar_is_drawn_at_the_top_left_of_its_padded_region() {
    let mut target = target();
    let mut bar: ProgressBar<Target> = ProgressBar::new(75, 150, 5, Padding::new(5, 5, 0, 0));
    bar.render(&mut target, Dimensions::new(122, 20), Point(0, 0), &no_fonts());
    let image = target.image();
    for row in 0..20 {
        for column in 0..16 {
            let expected = if (5..10).contains(&row) {
                match column {
                    0..=6 => 0x00,
                    7 => 0x07,
                    _ => 0xFF,
                }
            } else {
                0xFF
            };
            assert_eq!(image[row * 16 + column], expected);
        }
    }
    assert_eq!(target.changed_pixels(), 61 * 5);
}

#[test]
fn a_progress_bar_is_no_higher_than_its_region() {
    let mut target = target();
    let mut bar: ProgressBar<Target> = ProgressBar::new(1, 1, 50, Padding::zero());
    bar.render(&mut target, Dimensions::new(8, 2), Point(8, 1), &no_fonts());
    assert_eq!(target.changed_pixels(), 16);
    assert_eq!(target.image()[17], 0x00);
    assert_eq!(target.image()[33], 0x00);
    assert_eq!(target.image()[49], 0xFF);
}

#[test]
fn a_progress_bar_takes_over_what_was_written_at_the_heartbeat() {
    let mut bar: ProgressBar<Target> = ProgressBar::new(0, 150, 5, Padding::zero());
    bar.register_command_channel(CommandSender::new());
    bar.progress().send(10);
    bar.progress().send(20);
    bar.progress_max().send(300);
    assert_eq!(bar.values(), (0, 150));
    assert_eq!(bar.on_event(Event::Heartbeat), vec![ControlSignal::Redraw]);
    assert_eq!(bar.values(), (20, 300));
    assert_eq!(bar.on_event(Event::Heartbeat), Vec::new());
    bar.progress().send(20);
    assert_eq!(bar.on_event(Event::Heartbeat), Vec::new());
}

#[test]
fn a_progress_bar_follows_the_playback_only_when_told_to() {
    let mut bar: ProgressBar<Target> = ProgressBar::new(0, 150, 5, Padding::zero());
    bar.on_status(&status());
    bar.on_event(Event::Heartbeat);
    assert_eq!(bar.values(), (0, 150));
    bar.follow_playback();
    bar.on_status(&status());
    bar.on_event(Event::Heartbeat);
    assert_eq!(bar.values(), (30, 120));
}

#[test]
fn the_natural_size_of_a_progress_bar_is_its_height_and_its_padding() {
    let mut bar: ProgressBar<Target> = ProgressBar::new(0, 150, 5, Padding::new(5, 5, 1, 2));
    assert_eq!(bar.compute_natural_dimensions(&no_fonts()), Dimensions::new(3, 15));
}

#[test]
fn a_block_is_drawn_row_after_row() {
    assert_eq!(
        block(Point(3, 7), 2, 2, BinaryColor::Off),
        vec![
            Pixel { x: 3, y: 7, color: BinaryColor::Off },
            Pixel { x: 4, y: 7, color: BinaryColor::Off },
            Pixel { x: 3, y: 8, color: BinaryColor::Off },
            Pixel { x: 4, y: 8, color: BinaryColor::Off },
        ]
    );
    assert_eq!(block(Point(3, 7), 0, 2, BinaryColor::On), Vec::new());
    assert_eq!(block(Point(3, 7), 2, 0, BinaryColor::On), Vec::new());
}

#[test]
fn a_block_ends_where_coordinates_end() {
    assert_eq!(
        block(Point(i32::MAX as u32, 0), 5, 1, BinaryColor::On),
        vec![Pixel { x: i32::MAX, y: 0, color: BinaryColor::On }]
    );
    assert_eq!(block(Point(i32::MAX as u32 + 1, 0), 5, 1, BinaryColor::On), Vec::new());
}
