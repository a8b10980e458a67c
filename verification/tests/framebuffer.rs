use ananas_music_control::epaper::buffered::{BufferedDrawTarget, Framebuffer};
use ananas_music_control::epaper::driver::{EPaper, RefreshPolicy, Timestamp};
use ananas_music_control::epaper::target::{BinaryColor, DrawTarget, Pixel};
use ananas_music_control::gui::geometry::Dimensions;

fn target() -> BufferedDrawTarget {
    BufferedDrawTarget::new(EPaper::new(RefreshPolicy::default()))
}

fn on(x: i32, y: i32) -> Pixel {
    Pixel { x, y, color: BinaryColor::On }
}

fn off(x: i32, y: i32) -> Pixel {
    Pixel { x, y, color: BinaryColor::Off }
}

#[test]
fn a_new_framebuffer_has_sixteen_bytes_for_each_of_250_rows_and_every_pixel_off() {
    let target = target();
    assert_eq!(target.image().len(), 4000);
    assert!(target.image().iter().all(|byte| *byte == 0xFF));
    assert_eq!(target.changed_pixels(), 0);
}

#[test]
fn buffered_target_reports_the_size_of_the_panel() {
    assert_eq!(target().size(), Dimensions::new(122, 250));
}

#[test]
fn drawing_on_clears_the_highest_bit_for_the_leftmost_pixel() {
    let mut target = target();
    target.draw_pixel(on(0, 0));
    assert_eq!(target.image()[0], 0x7F);
    assert_eq!(target.changed_pixels(), 1);
}

#[test]
fn a_pixel_lands_in_the_byte_of_its_row_and_column() {
    let mut target = target();
    target.draw_pixel(on(9, 2));
    assert_eq!(target.image()[33], 0xBF);
    assert_eq!(target.image().iter().filter(|byte| **byte != 0xFF).count(), 1);
}

#[test]
fn the_last_pixel_of_the_panel_lands_in_the_last_byte() {
    let mut target = target();
    target.draw_pixel(on(121, 249));
    assert_eq!(target.image()[3999], 0xBF);
}

#[test]
fn off_then_on_restores_the_bit_and_counts_two_changes() {
    let mut target = target();
    target.draw_pixel(on(5, 7));
    let before = target.image().to_vec();
    let counted = target.changed_pixels();
    target.draw_pixel(off(5, 7));
    assert_ne!(target.image().to_vec(), before);
    target.draw_pixel(on(5, 7));
    assert_eq!(target.image().to_vec(), before);
    assert_eq!(target.changed_pixels(), counted + 2);
}

#[test]
fn the_same_colour_twice_counts_one_change() {
    let mut target = target();
    target.draw_pixel(on(5, 7));
    target.draw_pixel(on(5, 7));
    assert_eq!(target.changed_pixels(), 1);
}

#[test]
fn a_colour_that_is_shown_already_counts_no_change() {
    let mut target = target();
    target.draw_pixel(off(5, 7));
    assert_eq!(target.changed_pixels(), 0);
    assert!(target.image().iter().all(|byte| *byte == 0xFF));
}

#[test]
fn pixels_off_the_panel_are_dropped() {
    let mut target = target();
    let outside = [
        on(122, 0),
        on(128, 0),
        on(-1, 0),
        on(-8, 1),
        on(0, 250),
        on(0, -1),
        on(i32::MAX, i32::MAX),
        on(i32::MIN, i32::MIN),
    ];
    target.draw_iter(&outside);
    assert!(target.image().iter().all(|byte| *byte == 0xFF));
    assert_eq!(target.changed_pixels(), 0);
}

#[test]
fn draw_iter_draws_in_order_and_the_last_colour_stays() {
    let mut target = target();
    target.draw_iter(&[on(3, 0), on(4, 0), off(3, 0), on(4, 0)]);
    assert_eq!(target.image()[0], 0xF7);
    assert_eq!(target.changed_pixels(), 3);
}

#[test]
fn a_whole_byte_of_pixels_on_is_zero() {
    let mut target = target();
    let row: Vec<Pixel> = (8..16).map(|x| on(x, 1)).collect();
    target.draw_iter(&row);
    assert_eq!(target.image()[17], 0x00);
    assert_eq!(target.changed_pixels(), 8);
}

#[test]
fn a_bare_framebuffer_says_whether_a_bit_changed() {
    let mut framebuffer = Framebuffer::new();
    assert!(framebuffer.draw_pixel(on(0, 0)));
    assert!(!framebuffer.draw_pixel(on(0, 0)));
    assert!(!framebuffer.draw_pixel(on(200, 0)));
    assert_eq!(framebuffer.as_slice()[0], 0x7F);
}

#[test]
fn flushing_hands_the_count_to_the_driver_and_starts_anew() {
    let mut target = target();
    target.draw_iter(&[on(1, 1), on(2, 2), on(3, 3)]);
    target.flush_at(Timestamp::from_seconds(10_000));
    assert_eq!(target.changed_pixels(), 0);
    target.draw_iter(&[on(4, 4), on(5, 5)]);
    target.flush_at(Timestamp::from_seconds(10_001));
    assert_eq!(target.driver().refresh_counters().write_count, 1);
    assert_eq!(target.driver().refresh_counters().changed_pixel_count, 2);
    assert_eq!(target.changed_pixels(), 0);
}

#[test]
fn a_flush_without_changes_is_still_a_write() {
    let mut target = target();
    target.flush_at(Timestamp::from_seconds(10_000));
    target.take_pending();
    target.flush_at(Timestamp::from_seconds(10_001));
    assert_eq!(target.driver().refresh_counters().write_count, 1);
    assert_eq!(target.driver().refresh_counters().changed_pixel_count, 0);
    assert!(!target.take_pending().is_empty());
}

#[test]
fn flushing_keeps_what_was_drawn() {
    let mut target = target();
    target.draw_pixel(on(0, 0));
    let before = target.image().to_vec();
    target.flush_at(Timestamp::from_seconds(10_000));
    assert_eq!(target.image().to_vec(), before);
}
