use ananas_music_control::epaper::driver::{
    EPaper, RefreshCounters, RefreshPolicy, Timestamp, EPAPER_HEIGHT, EPAPER_WIDTH,
};
use ananas_music_control::epaper::lut::{LUT_FULL, LUT_PARTIAL};
use ananas_music_control::epaper::wire::{wait_step, WireOp};

fn command(byte: u8) -> Vec<WireOp> {
    vec![
        WireOp::DataCommand(false),
        WireOp::ChipSelect(false),
        WireOp::Transfer(byte),
        WireOp::ChipSelect(true),
    ]
}

fn data(bytes: &[u8]) -> Vec<WireOp> {
    let mut ops = vec![WireOp::DataCommand(true), WireOp::ChipSelect(false)];
    for byte in bytes {
        ops.push(WireOp::Transfer(*byte));
    }
    ops.push(WireOp::ChipSelect(true));
    ops
}

fn lut(table: &[u8; 159]) -> Vec<WireOp> {
    let mut ops = Vec::new();
    ops.extend(command(0x32));
    ops.extend(data(&table[0..153]));
    ops.extend(command(0x3f));
    ops.extend(data(&[table[153]]));
    ops.extend(command(0x03));
    ops.extend(data(&[table[154]]));
    ops.extend(command(0x04));
    ops.extend(data(&[table[155]]));
    ops.extend(data(&[table[156]]));
    ops.extend(data(&[table[157]]));
    ops.extend(command(0x2c));
    ops.extend(data(&[table[158]]));
    ops
}

fn partial_refresh(image: &[u8]) -> Vec<WireOp> {
    let mut ops = Vec::new();
    ops.extend(command(0x24));
    ops.extend(data(image));
    ops.extend(command(0x22));
    ops.extend(data(&[0x0c]));
    ops.extend(command(0x20));
    ops.push(WireOp::AwaitIdle(10));
    ops
}

fn full_refresh(image: &[u8]) -> Vec<WireOp> {
    let mut ops = vec![
        WireOp::Reset(true),
        WireOp::Pause(20),
        WireOp::Reset(false),
        WireOp::Pause(2),
        WireOp::Reset(true),
        WireOp::Pause(20),
        WireOp::AwaitIdle(10),
    ];
    ops.extend(command(0x12));
    ops.push(WireOp::AwaitIdle(10));
    ops.extend(command(0x01));
    ops.extend(data(&[0xf9]));
    ops.extend(data(&[0x00]));
    ops.extend(data(&[0x00]));
    ops.extend(command(0x11));
    ops.extend(data(&[0x03]));
    ops.extend(command(0x44));
    ops.extend(data(&[0x00]));
    ops.extend(data(&[0x0f]));
    ops.extend(command(0x45));
    ops.extend(data(&[0x00]));
    ops.extend(data(&[0x00]));
    ops.extend(data(&[0xf9]));
    ops.extend(data(&[0x00]));
    ops.extend(command(0x4e));
    ops.extend(data(&[0x00]));
    ops.extend(command(0x4f));
    ops.extend(data(&[0x00]));
    ops.extend(data(&[0x00]));
    ops.extend(command(0x3c));
    ops.extend(data(&[0x05]));
    ops.extend(command(0x21));
    ops.extend(data(&[0x00]));
    ops.extend(data(&[0x80]));
    ops.extend(command(0x18));
    ops.extend(data(&[0x80]));
    ops.extend(lut(&LUT_FULL));
    ops.extend(command(0x24));
    ops.extend(data(image));
    ops.extend(command(0x26));
    ops.extend(data(image));
    ops.extend(command(0x22));
    ops.extend(data(&[0xc7]));
    ops.extend(command(0x20));
    ops.push(WireOp::AwaitIdle(10));
    ops.push(WireOp::Reset(false));
    ops.push(WireOp::Pause(1));
    ops.push(WireOp::Reset(true));
    ops.extend(lut(&LUT_PARTIAL));
    ops.extend(command(0x37));
    for byte in [0x00, 0x00, 0x00, 0x00, 0x00, 0x40, 0x00, 0x00, 0x00, 0x00] {
        ops.extend(data(&[byte]));
    }
    ops.extend(command(0x3c));
    ops.extend(data(&[0x80]));
    ops.extend(command(0x22));
    ops.extend(data(&[0xc0]));
    ops.extend(command(0x20));
    ops.push(WireOp::AwaitIdle(10));
    ops
}

const START: u64 = 1_000_000;

fn armed() -> EPaper {
    let mut epaper = EPaper::new(RefreshPolicy::default());
    epaper.write_image_at(&[0xFF], 0, Timestamp::from_seconds(START));
    epaper.take_pending();
    epaper
}

fn after_writes(count: usize) -> EPaper {
    let mut epaper = armed();
    for _ in 0..count {
        epaper.write_image_at(&[0xFF], 0, Timestamp::from_seconds(START));
    }
    epaper.take_pending();
    epaper
}

#[test]
fn the_panel_is_122_by_250_pixels() {
    assert_eq!(EPAPER_WIDTH, 122);
    assert_eq!(EPAPER_HEIGHT, 250);
}

#[test]
fn both_waveform_tables_have_159_bytes_and_the_same_control_bytes() {
    assert_eq!(LUT_FULL.len(), 159);
    assert_eq!(LUT_PARTIAL.len(), 159);
    assert_eq!(LUT_FULL[153..159], [0x22, 0x17, 0x41, 0x00, 0x32, 0x36]);
    assert_eq!(LUT_PARTIAL[153..159], [0x22, 0x17, 0x41, 0x00, 0x32, 0x36]);
    assert_eq!(LUT_FULL[0..3], [0x80, 0x4A, 0x40]);
    assert_eq!(LUT_PARTIAL[0..2], [0x00, 0x40]);
    assert_eq!(LUT_FULL.iter().map(|byte| *byte as u32).sum::<u32>(), 1557);
    assert_eq!(LUT_PARTIAL.iter().map(|byte| *byte as u32).sum::<u32>(), 1024);
}

#[test]
fn the_default_policy_has_the_documented_limits() {
    let policy = RefreshPolicy::default();
    assert_eq!(policy.write_limit, 100);
    assert_eq!(policy.changed_pixel_limit, 250000);
    assert_eq!(policy.full_refresh_interval, 3600);
}

#[test]
fn a_write_just_below_every_limit_may_refresh_partially() {
    let policy = RefreshPolicy::default();
    assert!(policy.allows_partial(99, 249999, 3599));
    assert!(!policy.allows_partial(100, 249999, 3599));
    assert!(!policy.allows_partial(99, 250000, 3599));
    assert!(!policy.allows_partial(99, 249999, 3600));
}

#[test]
fn a_new_driver_has_counted_nothing_and_dates_its_last_full_refresh_at_the_epoch() {
    let epaper = EPaper::new(RefreshPolicy::default());
    assert_eq!(
        epaper.refresh_counters(),
        RefreshCounters {
            write_count: 0,
            changed_pixel_count: 0,
            last_full_update: Timestamp { nanoseconds: 0 },
        }
    );
    assert_eq!(epaper.refresh_policy(), RefreshPolicy::default());
}

#[test]
fn the_first_write_refreshes_fully() {
    let mut epaper = EPaper::new(RefreshPolicy::default());
    let image = [0x12, 0x34, 0x56];
    epaper.write_image_at(&image, 7, Timestamp::from_seconds(START));
    assert_eq!(epaper.take_pending(), full_refresh(&image));
    assert_eq!(
        epaper.refresh_counters(),
        RefreshCounters {
            write_count: 0,
            changed_pixel_count: 0,
            last_full_update: Timestamp::from_seconds(START),
        }
    );
}

#[test]
fn the_write_after_a_full_refresh_refreshes_partially() {
    let mut epaper = armed();
    let image = [0xAA, 0x55];
    epaper.write_image_at(&image, 7, Timestamp::from_seconds(START + 1));
    assert_eq!(epaper.take_pending(), partial_refresh(&image));
    assert_eq!(
        epaper.refresh_counters(),
        RefreshCounters {
            write_count: 1,
            changed_pixel_count: 7,
            last_full_update: Timestamp::from_seconds(START),
        }
    );
}

#[test]
fn the_99th_write_with_249999_changes_after_3599_seconds_is_partial() {
    let mut epaper = after_writes(98);
    epaper.write_image_at(&[0x00], 249999, Timestamp::from_seconds(START + 3599));
    assert_eq!(epaper.take_pending(), partial_refresh(&[0x00]));
    assert_eq!(
        epaper.refresh_counters(),
        RefreshCounters {
            write_count: 99,
            changed_pixel_count: 249999,
            last_full_update: Timestamp::from_seconds(START),
        }
    );
}

#[test]
fn the_100th_write_is_full_and_starts_the_counters_afresh() {
    let mut epaper = after_writes(99);
    epaper.write_image_at(&[0x00], 249999, Timestamp::from_seconds(START + 3599));
    assert_eq!(epaper.take_pending(), full_refresh(&[0x00]));
    assert_eq!(
        epaper.refresh_counters(),
        RefreshCounters {
            write_count: 0,
            changed_pixel_count: 0,
            last_full_update: Timestamp::from_seconds(START + 3599),
        }
    );
}

#[test]
fn the_250000th_changed_pixel_forces_a_full_refresh() {
    let mut epaper = after_writes(98);
    epaper.write_image_at(&[0x00], 250000, Timestamp::from_seconds(START + 3599));
    assert_eq!(epaper.take_pending(), full_refresh(&[0x00]));
    assert_eq!(
        epaper.refresh_counters(),
        RefreshCounters {
            write_count: 0,
            changed_pixel_count: 0,
            last_full_update: Timestamp::from_seconds(START + 3599),
        }
    );
}

#[test]
fn the_3600th_second_forces_a_full_refresh() {
    let mut epaper = after_writes(98);
    epaper.write_image_at(&[0x00], 249999, Timestamp::from_seconds(START + 3600));
    assert_eq!(epaper.take_pending(), full_refresh(&[0x00]));
    assert_eq!(
        epaper.refresh_counters(),
        RefreshCounters {
            write_count: 0,
            changed_pixel_count: 0,
            last_full_update: Timestamp::from_seconds(START + 3600),
        }
    );
}

#[test]
fn changed_pixels_add_up_over_partial_writes() {
    let mut epaper = armed();
    epaper.write_image_at(&[0x00], 200000, Timestamp::from_seconds(START));
    assert_eq!(epaper.refresh_counters().changed_pixel_count, 200000);
    epaper.write_image_at(&[0x00], 50000, Timestamp::from_seconds(START));
    assert_eq!(epaper.refresh_counters().changed_pixel_count, 0);
    assert_eq!(epaper.refresh_counters().write_count, 0);
}

#[test]
fn a_clock_that_went_backwards_forces_a_full_refresh() {
    let mut epaper = armed();
    epaper.write_image_at(&[0x00], 0, Timestamp::from_seconds(START - 1));
    assert_eq!(epaper.take_pending(), full_refresh(&[0x00]));
    assert_eq!(epaper.refresh_counters().last_full_update, Timestamp::from_seconds(START - 1));
}

#[test]
fn counts_stop_at_the_largest_number() {
    let mut epaper = EPaper::new(RefreshPolicy {
        write_limit: usize::MAX,
        changed_pixel_limit: usize::MAX,
        full_refresh_interval: u64::MAX,
    });
    epaper.write_image_at(&[], usize::MAX - 1, Timestamp::from_seconds(START));
    assert_eq!(epaper.refresh_counters().changed_pixel_count, usize::MAX - 1);
    assert_eq!(epaper.refresh_counters().write_count, 1);
    epaper.write_image_at(&[], 5, Timestamp::from_seconds(START));
    assert_eq!(epaper.refresh_counters().changed_pixel_count, 0);
    assert_eq!(epaper.refresh_counters().write_count, 0);
}

#[test]
fn a_policy_of_its_own_is_followed() {
    let mut epaper = EPaper::new(RefreshPolicy {
        write_limit: 2,
        changed_pixel_limit: 10,
        full_refresh_interval: 60,
    });
    epaper.write_image_at(&[0x01], 0, Timestamp::from_seconds(START));
    epaper.take_pending();
    epaper.write_image_at(&[0x01], 9, Timestamp::from_seconds(START + 59));
    assert_eq!(epaper.take_pending(), partial_refresh(&[0x01]));
    epaper.write_image_at(&[0x01], 0, Timestamp::from_seconds(START + 59));
    assert_eq!(epaper.take_pending(), full_refresh(&[0x01]));
}

#[test]
fn an_image_without_bytes_is_still_written() {
    let mut epaper = armed();
    epaper.write_image_at(&[], 0, Timestamp::from_seconds(START));
    assert_eq!(epaper.take_pending(), partial_refresh(&[]));
}

#[test]
fn pending_operations_pile_up_until_they_are_taken() {
    let mut epaper = armed();
    epaper.write_image_at(&[0x01], 0, Timestamp::from_seconds(START));
    epaper.write_image_at(&[0x02], 0, Timestamp::from_seconds(START));
    let mut expected = partial_refresh(&[0x01]);
    expected.extend(partial_refresh(&[0x02]));
    assert_eq!(epaper.take_pending(), expected);
    assert_eq!(epaper.take_pending(), Vec::new());
}

#[test]
fn turning_off_sends_deep_sleep_after_what_was_pending_and_drives_the_lines_low() {
    let mut epaper = armed();
    epaper.write_image_at(&[0x01], 0, Timestamp::from_seconds(START));
    let mut expected = partial_refresh(&[0x01]);
    expected.extend(command(0x10));
    expected.extend(data(&[0x01]));
    expected.extend([
        WireOp::Pause(2000),
        WireOp::Reset(false),
        WireOp::DataCommand(false),
        WireOp::ChipSelect(false),
    ]);
    assert_eq!(epaper.turn_off(), expected);
}

#[test]
fn a_full_refresh_of_a_whole_frame_has_as_many_operations_as_the_protocol_says() {
    let mut epaper = EPaper::new(RefreshPolicy::default());
    let image = vec![0xFF; 4000];
    epaper.write_image_at(&image, 0, Timestamp::from_seconds(START));
    let ops = epaper.take_pending();
    assert_eq!(ops, full_refresh(&image));
    assert_eq!(ops.iter().filter(|op| matches!(op, WireOp::AwaitIdle(10))).count(), 4);
    assert_eq!(ops.iter().filter(|op| matches!(op, WireOp::Transfer(_))).count(), 8376);
}

#[test]
fn the_clock_of_the_machine_dates_a_full_refresh_after_the_epoch() {
    let mut epaper = EPaper::new(RefreshPolicy::default());
    epaper.write_image(&[0x01], 0);
    assert_eq!(epaper.take_pending(), full_refresh(&[0x01]));
    assert!(epaper.refresh_counters().last_full_update.nanoseconds > 1_000_000_000_000_000_000);
    epaper.write_image(&[0x02], 3);
    assert_eq!(epaper.take_pending(), partial_refresh(&[0x02]));
    assert_eq!(epaper.refresh_counters().write_count, 1);
    assert_eq!(epaper.refresh_counters().changed_pixel_count, 3);
}

#[test]
fn a_clock_before_the_epoch_forces_a_full_refresh_and_dates_it() {
    let mut epaper = EPaper::new(RefreshPolicy::default());
    let early = Timestamp::before_epoch(5_000_000_000);
    epaper.write_image_at(&[0x03], 5, early);
    assert_eq!(epaper.take_pending(), full_refresh(&[0x03]));
    assert_eq!(
        epaper.refresh_counters(),
        RefreshCounters { write_count: 0, changed_pixel_count: 0, last_full_update: early }
    );
    epaper.write_image_at(&[0x04], 2, Timestamp::before_epoch(4_000_000_000));
    assert_eq!(epaper.take_pending(), partial_refresh(&[0x04]));
    assert_eq!(
        epaper.refresh_counters(),
        RefreshCounters { write_count: 1, changed_pixel_count: 2, last_full_update: early }
    );
    epaper.write_image_at(&[0x05], 0, Timestamp::before_epoch(6_000_000_000));
    assert_eq!(epaper.take_pending(), full_refresh(&[0x05]));
}

#[test]
fn an_hour_is_counted_across_the_epoch() {
    let mut epaper = EPaper::new(RefreshPolicy::default());
    let early = Timestamp::before_epoch(1_000_000_000);
    epaper.write_image_at(&[0x00], 0, early);
    epaper.take_pending();
    epaper.write_image_at(&[0x01], 0, Timestamp::from_seconds(3598));
    assert_eq!(epaper.take_pending(), partial_refresh(&[0x01]));
    epaper.write_image_at(&[0x02], 0, Timestamp::from_seconds(3599));
    assert_eq!(epaper.take_pending(), full_refresh(&[0x02]));
}

#[test]
fn times_lie_after_or_before_the_epoch() {
    assert_eq!(Timestamp::after_epoch(7), Timestamp { nanoseconds: 7 });
    assert_eq!(Timestamp::before_epoch(7), Timestamp { nanoseconds: -7 });
    assert_eq!(Timestamp::after_epoch(0), Timestamp::before_epoch(0));
    assert_eq!(Timestamp::after_epoch(u128::MAX), Timestamp { nanoseconds: i128::MAX });
    assert_eq!(Timestamp::before_epoch(u128::MAX), Timestamp { nanoseconds: -i128::MAX });
    let early = Timestamp::before_epoch(2_500_000_000);
    assert_eq!(Timestamp::from_seconds(1).seconds_since(early), 3);
    assert_eq!(Timestamp::epoch().seconds_since(early), 2);
    assert_eq!(early.seconds_since(Timestamp::epoch()), u64::MAX);
    assert_eq!(early.seconds_since(Timestamp::before_epoch(4_500_000_000)), 2);
    assert_eq!(
        Timestamp { nanoseconds: i128::MAX }.seconds_since(Timestamp { nanoseconds: i128::MIN }),
        u64::MAX
    );
}

#[test]
fn while_the_panel_is_busy_the_wait_pauses_and_looks_again() {
    assert_eq!(wait_step(10, true), Some(WireOp::Pause(10)));
    assert_eq!(wait_step(10, false), None);
}

#[test]
fn whole_seconds_between_two_times_are_rounded_down() {
    let earlier = Timestamp { nanoseconds: 1_500_000_000 };
    let later = Timestamp { nanoseconds: 3_499_999_999 };
    assert_eq!(later.seconds_since(earlier), 1);
    assert_eq!(Timestamp { nanoseconds: 3_500_000_000 }.seconds_since(earlier), 2);
    assert_eq!(earlier.seconds_since(earlier), 0);
    assert_eq!(earlier.seconds_since(later), u64::MAX);
}

#[test]
fn times_are_counted_in_nanoseconds_from_the_epoch() {
    assert_eq!(Timestamp::epoch(), Timestamp { nanoseconds: 0 });
    assert_eq!(Timestamp::from_seconds(3), Timestamp { nanoseconds: 3_000_000_000 });
    assert_eq!(Timestamp::from_seconds(u64::MAX).seconds_since(Timestamp::epoch()), u64::MAX);
    assert_eq!(Timestamp { nanoseconds: i128::MAX }.seconds_since(Timestamp::epoch()), u64::MAX);
}
