use crate::epaper::lut::{LUT_FULL, LUT_LENGTH, LUT_PARTIAL, LUT_WAVEFORM_LENGTH};
use crate::epaper::wire::{
    column_byte, command_ops, cursor_ops, data_ops, display_window_ops, hardware_reset_ops,
    high_byte, low_byte, lut_ops, transfers, turn_off_ops, turn_on_full_ops, turn_on_partial_ops,
    wait_ops, WireOp, BUSY_POLL_INTERVAL_MS,
};
use std::time::{Duration, SystemTime, SystemTimeError};
use vstd::prelude::*;
use vstd::slice::slice_subrange;

verus! {

/// Width of the panel in pixels.
pub const EPAPER_WIDTH: u32 = 122;

/// Height of the panel in pixels.
pub const EPAPER_HEIGHT: u32 = 250;

/// Nanoseconds in a second.
pub const NANOSECONDS_PER_SECOND: i128 = 1_000_000_000;

/// A point in time: the nanoseconds from the Unix epoch to it, negative for
/// a time before the epoch.
#[derive(Clone, Copy, PartialEq, Eq, Structural, Debug)]
pub struct Timestamp {
    pub nanoseconds: i128,
}

/// `nanoseconds`, held at the largest number that a timestamp counts.
pub open spec fn clamped_nanoseconds(nanoseconds: u128) -> i128 {
    if nanoseconds > i128::MAX {
        i128::MAX
    } else {
        nanoseconds as i128
    }
}

impl Timestamp {
    /// The whole seconds from `earlier` to `self`, as far as a `u64` counts.
    /// Where `self` lies before `earlier` the clock cannot be trusted, and the
    /// answer is the largest number of seconds.
    pub open spec fn spec_seconds_since(&self, earlier: Timestamp) -> u64 {
        if self.nanoseconds < earlier.nanoseconds {
            u64::MAX
        } else if (self.nanoseconds - earlier.nanoseconds) / (NANOSECONDS_PER_SECOND as int)
            > u64::MAX {
            u64::MAX
        } else {
            ((self.nanoseconds - earlier.nanoseconds) / (NANOSECONDS_PER_SECOND as int)) as u64
        }
    }

    /// The epoch itself.
    pub fn epoch() -> (timestamp: Self)
        ensures
            timestamp.nanoseconds == 0,
    {
        Timestamp { nanoseconds: 0 }
    }

    /// The point in time `seconds` after the epoch.
    pub fn from_seconds(seconds: u64) -> (timestamp: Self)
        ensures
            timestamp.nanoseconds == seconds * NANOSECONDS_PER_SECOND,
    {
        assert(seconds * NANOSECONDS_PER_SECOND <= u64::MAX * NANOSECONDS_PER_SECOND)
            by (nonlinear_arith);
        Timestamp { nanoseconds: seconds as i128 * NANOSECONDS_PER_SECOND }
    }

    /// The point in time `nanoseconds` after the epoch, as far as a timestamp
    /// counts.
    pub fn after_epoch(nanoseconds: u128) -> (timestamp: Self)
        ensures
            timestamp.nanoseconds == clamped_nanoseconds(nanoseconds),
    {
        Timestamp { nanoseconds: held(nanoseconds) }
    }

    /// The point in time `nanoseconds` before the epoch, as far as a
    /// timestamp counts.
    pub fn before_epoch(nanoseconds: u128) -> (timestamp: Self)
        ensures
            timestamp.nanoseconds == -clamped_nanoseconds(nanoseconds),
    {
        Timestamp { nanoseconds: -held(nanoseconds) }
    }

    /// The whole seconds from `earlier` to `self`.
    #[verifier::when_used_as_spec(spec_seconds_since)]
    pub fn seconds_since(&self, earlier: Timestamp) -> (seconds: u64)
        ensures
            seconds == self.spec_seconds_since(earlier),
    {
        if self.nanoseconds < earlier.nanoseconds {
            u64::MAX
        } else {
            let gap: u128 = if earlier.nanoseconds >= 0 || self.nanoseconds < 0 {
                (self.nanoseconds - earlier.nanoseconds) as u128
            } else {
                self.nanoseconds as u128 + (-(earlier.nanoseconds + 1)) as u128 + 1
            };
            let whole: u128 = gap / (NANOSECONDS_PER_SECOND as u128);
            if whole > u64::MAX as u128 {
                u64::MAX
            } else {
                whole as u64
            }
        }
    }
}

/// `nanoseconds` as a signed number, held at the largest one.
fn held(nanoseconds: u128) -> (signed: i128)
    ensures
        signed == clamped_nanoseconds(nanoseconds),
{
    if nanoseconds > i128::MAX as u128 {
        i128::MAX
    } else {
        nanoseconds as i128
    }
}

/// The limits that decide when a write may still refresh the panel partially.
#[derive(Clone, Copy, PartialEq, Eq, Structural, Debug)]
pub struct RefreshPolicy {
    /// A full refresh is due once this many images were written since the last one.
    pub write_limit: usize,
    /// A full refresh is due once this many pixels changed since the last one.
    pub changed_pixel_limit: usize,
    /// A full refresh is due once this many seconds passed since the last one.
    pub full_refresh_interval: u64,
}

impl Default for RefreshPolicy {
    fn default() -> (policy: Self)
        ensures
            policy == (RefreshPolicy {
                write_limit: 100,
                changed_pixel_limit: 250000,
                full_refresh_interval: 3600,
            }),
    {
        RefreshPolicy { write_limit: 100, changed_pixel_limit: 250000, full_refresh_interval: 3600 }
    }
}

impl RefreshPolicy {
    /// Whether a write may refresh partially: every count, taken with this
    /// write included, is still below its limit.
    pub open spec fn spec_allows_partial(
        &self,
        write_count: usize,
        changed_pixel_count: usize,
        elapsed_seconds: u64,
    ) -> bool {
        &&& write_count < self.write_limit
        &&& changed_pixel_count < self.changed_pixel_limit
        &&& elapsed_seconds < self.full_refresh_interval
    }

    /// Whether a write may refresh partially.
    #[verifier::when_used_as_spec(spec_allows_partial)]
    pub fn allows_partial(
        &self,
        write_count: usize,
        changed_pixel_count: usize,
        elapsed_seconds: u64,
    ) -> (partial: bool)
        ensures
            partial == self.spec_allows_partial(write_count, changed_pixel_count, elapsed_seconds),
    {
        write_count < self.write_limit && changed_pixel_count < self.changed_pixel_limit
            && elapsed_seconds < self.full_refresh_interval
    }
}

/// What the driver counts between two full refreshes.
#[derive(Clone, Copy, PartialEq, Eq, Structural, Debug)]
pub struct RefreshCounters {
    pub write_count: usize,
    pub changed_pixel_count: usize,
    pub last_full_update: Timestamp,
}

/// `a + b`, held at the largest `usize` where the sum would pass it.
pub open spec fn clamped_count(a: usize, b: usize) -> usize {
    if a + b > usize::MAX {
        usize::MAX
    } else {
        (a + b) as usize
    }
}

/// The counters as a write of `changed_pixel_count` changed pixels finds them:
/// with itself counted in.
pub open spec fn counted(counters: RefreshCounters, changed_pixel_count: usize) -> RefreshCounters {
    RefreshCounters {
        write_count: clamped_count(counters.write_count, 1),
        changed_pixel_count: clamped_count(counters.changed_pixel_count, changed_pixel_count),
        last_full_update: counters.last_full_update,
    }
}

/// Whether a write at `now` of `changed_pixel_count` changed pixels refreshes
/// partially.
pub open spec fn refreshes_partially(
    policy: RefreshPolicy,
    counters: RefreshCounters,
    changed_pixel_count: usize,
    now: Timestamp,
) -> bool {
    policy.spec_allows_partial(
        counted(counters, changed_pixel_count).write_count,
        counted(counters, changed_pixel_count).changed_pixel_count,
        now.spec_seconds_since(counters.last_full_update),
    )
}

/// The counters after a write at `now`: counted up after a partial refresh,
/// started afresh at `now` after a full one.
pub open spec fn counters_after_write(
    policy: RefreshPolicy,
    counters: RefreshCounters,
    changed_pixel_count: usize,
    now: Timestamp,
) -> RefreshCounters {
    if refreshes_partially(policy, counters, changed_pixel_count, now) {
        counted(counters, changed_pixel_count)
    } else {
        RefreshCounters { write_count: 0, changed_pixel_count: 0, last_full_update: now }
    }
}

/// What prepares the panel for a full refresh: reset pulse, software reset,
/// driver output, data entry mode, RAM window and cursor over the whole
/// panel, border waveform, display update control, and the full waveform
/// table.
pub open spec fn full_init_ops() -> Seq<WireOp> {
    hardware_reset_ops() + wait_ops() + command_ops(seq![0x12u8]) + wait_ops() + command_ops(
        seq![0x01u8],
    ) + data_ops(seq![0xf9u8]) + data_ops(seq![0x00u8]) + data_ops(seq![0x00u8]) + command_ops(
        seq![0x11u8],
    ) + data_ops(seq![0x03u8]) + display_window_ops(
        0,
        0,
        (EPAPER_WIDTH - 1) as u32,
        (EPAPER_HEIGHT - 1) as u32,
    ) + cursor_ops(0, 0) + command_ops(seq![0x3cu8]) + data_ops(seq![0x05u8]) + command_ops(
        seq![0x21u8],
    ) + data_ops(seq![0x00u8]) + data_ops(seq![0x80u8]) + command_ops(seq![0x18u8]) + data_ops(
        seq![0x80u8],
    ) + lut_ops(LUT_FULL@)
}

/// What arms the panel for partial refreshes: a short reset pulse, the
/// partial waveform table, the option register, border waveform, and one
/// activation that the panel has to finish.
pub open spec fn partial_init_ops() -> Seq<WireOp> {
    seq![WireOp::Reset(false), WireOp::Pause(1), WireOp::Reset(true)] + lut_ops(LUT_PARTIAL@)
        + command_ops(seq![0x37u8]) + data_ops(seq![0x00u8]) + data_ops(seq![0x00u8]) + data_ops(
        seq![0x00u8],
    ) + data_ops(seq![0x00u8]) + data_ops(seq![0x00u8]) + data_ops(seq![0x40u8]) + data_ops(
        seq![0x00u8],
    ) + data_ops(seq![0x00u8]) + data_ops(seq![0x00u8]) + data_ops(seq![0x00u8]) + command_ops(
        seq![0x3cu8],
    ) + data_ops(seq![0x80u8]) + command_ops(seq![0x22u8]) + data_ops(seq![0xc0u8]) + command_ops(
        seq![0x20u8],
    ) + wait_ops()
}

/// A full refresh with `image`: the panel is prepared, both memory planes are
/// written, the panel is turned on and waited for, and then armed for the
/// partial refreshes that follow.
pub open spec fn full_refresh_ops(image: Seq<u8>) -> Seq<WireOp> {
    full_init_ops() + command_ops(seq![0x24u8]) + data_ops(image) + command_ops(seq![0x26u8])
        + data_ops(image) + turn_on_full_ops() + wait_ops() + partial_init_ops()
}

/// A partial refresh with `image`: only the current memory plane is written.
pub open spec fn partial_refresh_ops(image: Seq<u8>) -> Seq<WireOp> {
    command_ops(seq![0x24u8]) + data_ops(image) + turn_on_partial_ops() + wait_ops()
}

/// The wire operations of a write of `image`.
pub open spec fn write_ops(partial: bool, image: Seq<u8>) -> Seq<WireOp> {
    if partial {
        partial_refresh_ops(image)
    } else {
        full_refresh_ops(image)
    }
}

/// The driver of the panel. It decides between a partial and a full refresh
/// and writes down, in order, the wire operations that carry a write out; who
/// owns the lines takes them with `take_pending` and performs them.
pub struct EPaper {
    policy: RefreshPolicy,
    counters: RefreshCounters,
    pending: Vec<WireOp>,
}

impl EPaper {
    /// The limits that the driver goes by.
    pub closed spec fn policy(&self) -> RefreshPolicy {
        self.policy
    }

    /// What the driver has counted since the last full refresh.
    pub closed spec fn counters(&self) -> RefreshCounters {
        self.counters
    }

    /// The wire operations that were written down and not yet taken.
    pub closed spec fn pending(&self) -> Seq<WireOp> {
        self.pending@
    }

    /// Whether `self` differs from `before` by nothing but `ops` appended to
    /// the pending wire operations.
    pub open spec fn appended(&self, before: &EPaper, ops: Seq<WireOp>) -> bool {
        &&& self.policy() == before.policy()
        &&& self.counters() == before.counters()
        &&& self.pending() == before.pending() + ops
    }

    /// Whether `self` is what a write of `image` at `now`, after
    /// `changed_pixel_count` pixels changed, makes of `before`: the counters
    /// follow the policy, and the wire operations of the refresh that the
    /// policy chose are appended to the pending ones.
    pub open spec fn wrote_at(
        &self,
        before: &EPaper,
        image: Seq<u8>,
        changed_pixel_count: usize,
        now: Timestamp,
    ) -> bool {
        &&& self.policy() == before.policy()
        &&& self.counters() == counters_after_write(
            before.policy(),
            before.counters(),
            changed_pixel_count,
            now,
        )
        &&& self.pending() == before.pending() + write_ops(
            refreshes_partially(before.policy(), before.counters(), changed_pixel_count, now),
            image,
        )
    }

    /// A driver that has never refreshed the panel: its last full refresh is
    /// dated at the epoch, so that the first write refreshes fully.
    pub fn new(policy: RefreshPolicy) -> (epaper: Self)
        ensures
            epaper.policy() == policy,
            epaper.counters() == (RefreshCounters {
                write_count: 0,
                changed_pixel_count: 0,
                last_full_update: Timestamp { nanoseconds: 0 },
            }),
            epaper.pending() == Seq::<WireOp>::empty(),
    {
        EPaper {
            policy,
            counters: RefreshCounters {
                write_count: 0,
                changed_pixel_count: 0,
                last_full_update: Timestamp::epoch(),
            },
            pending: Vec::new(),
        }
    }

    /// The limits that the driver goes by.
    pub fn refresh_policy(&self) -> (policy: RefreshPolicy)
        ensures
            policy == self.policy(),
    {
        self.policy
    }

    /// What the driver has counted since the last full refresh.
    pub fn refresh_counters(&self) -> (counters: RefreshCounters)
        ensures
            counters == self.counters(),
    {
        self.counters
    }

    /// Hands out the wire operations written down so far, in their order, and
    /// starts with none again.
    pub fn take_pending(&mut self) -> (ops: Vec<WireOp>)
        ensures
            ops@ == old(self).pending(),
            final(self).pending() == Seq::<WireOp>::empty(),
            final(self).policy() == old(self).policy(),
            final(self).counters() == old(self).counters(),
    {
        let mut ops: Vec<WireOp> = Vec::new();
        ops.append(&mut self.pending);
        ops
    }

    /// Writes down one transfer for each byte of `data`.
    fn push_transfers(&mut self, data: &[u8])
        ensures
            final(self).appended(old(self), transfers(data@)),
    {
        let mut i: usize = 0;
        while i < data.len()
            invariant
                i <= data.len(),
                self.appended(old(self), transfers(data@.take(i as int))),
            decreases data.len() - i,
        {
            self.pending.push(WireOp::Transfer(data[i]));
            proof {
                assert(transfers(data@.take(i as int)).push(WireOp::Transfer(data@[i as int]))
                    =~= transfers(data@.take(i as int + 1)));
            }
            i += 1;
        }
        proof {
            assert(data@.take(i as int) =~= data@);
        }
    }

    /// Writes down the reset pulse that comes before a full refresh.
    fn hardware_reset(&mut self)
        ensures
            final(self).appended(old(self), hardware_reset_ops()),
    {
        self.pending.push(WireOp::Reset(true));
        self.pending.push(WireOp::Pause(20));
        self.pending.push(WireOp::Reset(false));
        self.pending.push(WireOp::Pause(2));
        self.pending.push(WireOp::Reset(true));
        self.pending.push(WireOp::Pause(20));
        assert(self.pending@ =~= old(self).pending@ + hardware_reset_ops());
    }

    /// Writes down `data` framed as a command.
    fn send_command(&mut self, data: &[u8])
        ensures
            final(self).appended(old(self), command_ops(data@)),
    {
        self.pending.push(WireOp::DataCommand(false));
        self.pending.push(WireOp::ChipSelect(false));
        self.push_transfers(data);
        self.pending.push(WireOp::ChipSelect(true));
        assert(self.pending@ =~= old(self).pending@ + command_ops(data@));
    }

    /// Writes down `data` framed as data.
    fn send_data(&mut self, data: &[u8])
        ensures
            final(self).appended(old(self), data_ops(data@)),
    {
        self.pending.push(WireOp::DataCommand(true));
        self.pending.push(WireOp::ChipSelect(false));
        self.push_transfers(data);
        self.pending.push(WireOp::ChipSelect(true));
        assert(self.pending@ =~= old(self).pending@ + data_ops(data@));
    }

    /// Writes down the command `byte`.
    fn send_command_byte(&mut self, byte: u8)
        ensures
            final(self).appended(old(self), command_ops(seq![byte])),
    {
        let data: [u8; 1] = [byte];
        assert(data@ =~= seq![byte]);
        self.send_command(data.as_slice());
    }

    /// Writes down the data byte `byte`.
    fn send_data_byte(&mut self, byte: u8)
        ensures
            final(self).appended(old(self), data_ops(seq![byte])),
    {
        let data: [u8; 1] = [byte];
        assert(data@ =~= seq![byte]);
        self.send_data(data.as_slice());
    }

    /// Writes down the wait for the panel to finish.
    fn wait_while_busy(&mut self)
        ensures
            final(self).appended(old(self), wait_ops()),
    {
        self.pending.push(WireOp::AwaitIdle(BUSY_POLL_INTERVAL_MS));
        assert(self.pending@ =~= old(self).pending@ + wait_ops());
    }

    /// Writes down what shows the image after a full refresh.
    fn turn_on_for_full_update(&mut self)
        ensures
            final(self).appended(old(self), turn_on_full_ops()),
    {
        let ghost start = self.pending@;
        self.send_command_byte(0x22);
        let ghost mut done = command_ops(seq![0x22u8]);
        self.send_data_byte(0xc7);
        proof {
            done = extended(start, done, data_ops(seq![0xc7u8]));
        }
        self.send_command_byte(0x20);
        proof {
            done = extended(start, done, command_ops(seq![0x20u8]));
        }
    }

    /// Writes down what shows the image after a partial refresh.
    fn turn_on_for_partial_update(&mut self)
        ensures
            final(self).appended(old(self), turn_on_partial_ops()),
    {
        let ghost start = self.pending@;
        self.send_command_byte(0x22);
        let ghost mut done = command_ops(seq![0x22u8]);
        self.send_data_byte(0x0c);
        proof {
            done = extended(start, done, data_ops(seq![0x0cu8]));
        }
        self.send_command_byte(0x20);
        proof {
            done = extended(start, done, command_ops(seq![0x20u8]));
        }
    }

    /// Writes down the RAM window from `(x_start, y_start)` to `(x_end, y_end)`.
    fn set_display_window(&mut self, x_start: u32, y_start: u32, x_end: u32, y_end: u32)
        ensures
            final(self).appended(old(self), display_window_ops(x_start, y_start, x_end, y_end)),
    {
        let ghost start = self.pending@;
        self.send_command_byte(0x44);
        let ghost mut done = command_ops(seq![0x44u8]);
        self.send_data_byte(column_of(x_start));
        proof {
            done = extended(start, done, data_ops(seq![column_byte(x_start)]));
        }
        self.send_data_byte(column_of(x_end));
        proof {
            done = extended(start, done, data_ops(seq![column_byte(x_end)]));
        }
        self.send_command_byte(0x45);
        proof {
            done = extended(start, done, command_ops(seq![0x45u8]));
        }
        self.send_data_byte(low_of(y_start));
        proof {
            done = extended(start, done, data_ops(seq![low_byte(y_start)]));
        }
        self.send_data_byte(high_of(y_start));
        proof {
            done = extended(start, done, data_ops(seq![high_byte(y_start)]));
        }
        self.send_data_byte(low_of(y_end));
        proof {
            done = extended(start, done, data_ops(seq![low_byte(y_end)]));
        }
        self.send_data_byte(high_of(y_end));
        proof {
            done = extended(start, done, data_ops(seq![high_byte(y_end)]));
        }
    }

    /// Writes down the RAM cursor at `(x, y)`.
    fn set_cursor(&mut self, x: u32, y: u32)
        ensures
            final(self).appended(old(self), cursor_ops(x, y)),
    {
        let ghost start = self.pending@;
        self.send_command_byte(0x4E);
        let ghost mut done = command_ops(seq![0x4Eu8]);
        self.send_data_byte(low_of(x));
        proof {
            done = extended(start, done, data_ops(seq![low_byte(x)]));
        }
        self.send_command_byte(0x4F);
        proof {
            done = extended(start, done, command_ops(seq![0x4Fu8]));
        }
        self.send_data_byte(low_of(y));
        proof {
            done = extended(start, done, data_ops(seq![low_byte(y)]));
        }
        self.send_data_byte(high_of(y));
        proof {
            done = extended(start, done, data_ops(seq![high_byte(y)]));
        }
    }

    /// Writes down the upload of the waveform table `lut`.
    fn set_lut(&mut self, lut: &[u8; LUT_LENGTH])
        ensures
            final(self).appended(old(self), lut_ops(lut@)),
    {
        let ghost start = self.pending@;
        self.send_command_byte(0x32);
        let ghost mut done = command_ops(seq![0x32u8]);
        let waveform: &[u8] = slice_subrange(lut.as_slice(), 0, LUT_WAVEFORM_LENGTH);
        assert(waveform@ == lut@.subrange(0, LUT_WAVEFORM_LENGTH as int));
        self.send_data(waveform);
        proof {
            done = extended(start, done, data_ops(lut@.subrange(0, LUT_WAVEFORM_LENGTH as int)));
        }
        self.send_command_byte(0x3f);
        proof {
            done = extended(start, done, command_ops(seq![0x3fu8]));
        }
        self.send_data(&[lut[153]]);
        proof {
            done = extended(start, done, data_ops(seq![lut@[153]]));
        }
        self.send_command_byte(0x03);
        proof {
            done = extended(start, done, command_ops(seq![0x03u8]));
        }
        self.send_data(&[lut[154]]);
        proof {
            done = extended(start, done, data_ops(seq![lut@[154]]));
        }
        self.send_command_byte(0x04);
        proof {
            done = extended(start, done, command_ops(seq![0x04u8]));
        }
        self.send_data(&[lut[155]]);
        proof {
            done = extended(start, done, data_ops(seq![lut@[155]]));
        }
        self.send_data(&[lut[156]]);
        proof {
            done = extended(start, done, data_ops(seq![lut@[156]]));
        }
        self.send_data(&[lut[157]]);
        proof {
            done = extended(start, done, data_ops(seq![lut@[157]]));
        }
        self.send_command_byte(0x2c);
        proof {
            done = extended(start, done, command_ops(seq![0x2cu8]));
        }
        self.send_data(&[lut[158]]);
        proof {
            done = extended(start, done, data_ops(seq![lut@[158]]));
            assert(self.pending@ == start + done);
            assert(done == lut_ops(lut@));
        }
    }

    /// Writes down what prepares the panel for a full refresh.
    fn initialize_for_full_update(&mut self)
        ensures
            final(self).appended(old(self), full_init_ops()),
    {
        let ghost start = self.pending@;
        self.hardware_reset();
        let ghost mut done = hardware_reset_ops();
        self.wait_while_busy();
        proof {
            done = extended(start, done, wait_ops());
        }
        self.send_command_byte(0x12);
        proof {
            done = extended(start, done, command_ops(seq![0x12u8]));
        }
        self.wait_while_busy();
        proof {
            done = extended(start, done, wait_ops());
        }
        self.send_command_byte(0x01);
        proof {
            done = extended(start, done, command_ops(seq![0x01u8]));
        }
        self.send_data_byte(0xf9);
        proof {
            done = extended(start, done, data_ops(seq![0xf9u8]));
        }
        self.send_data_byte(0x00);
        proof {
            done = extended(start, done, data_ops(seq![0x00u8]));
        }
        self.send_data_byte(0x00);
        proof {
            done = extended(start, done, data_ops(seq![0x00u8]));
        }
        self.send_command_byte(0x11);
        proof {
            done = extended(start, done, command_ops(seq![0x11u8]));
        }
        self.send_data_byte(0x03);
        proof {
            done = extended(start, done, data_ops(seq![0x03u8]));
        }
        self.set_display_window(0, 0, EPAPER_WIDTH - 1, EPAPER_HEIGHT - 1);
        proof {
            done = extended(
                start,
                done,
                display_window_ops(0, 0, (EPAPER_WIDTH - 1) as u32, (EPAPER_HEIGHT - 1) as u32),
            );
        }
        self.set_cursor(0, 0);
        proof {
            done = extended(start, done, cursor_ops(0, 0));
        }
        self.send_command_byte(0x3c);
        proof {
            done = extended(start, done, command_ops(seq![0x3cu8]));
        }
        self.send_data_byte(0x05);
        proof {
            done = extended(start, done, data_ops(seq![0x05u8]));
        }
        self.send_command_byte(0x21);
        proof {
            done = extended(start, done, command_ops(seq![0x21u8]));
        }
        self.send_data_byte(0x00);
        proof {
            done = extended(start, done, data_ops(seq![0x00u8]));
        }
        self.send_data_byte(0x80);
        proof {
            done = extended(start, done, data_ops(seq![0x80u8]));
        }
        self.send_command_byte(0x18);
        proof {
            done = extended(start, done, command_ops(seq![0x18u8]));
        }
        self.send_data_byte(0x80);
        proof {
            done = extended(start, done, data_ops(seq![0x80u8]));
        }
        self.set_lut(&LUT_FULL);
        proof {
            done = extended(start, done, lut_ops(LUT_FULL@));
        }
    }

    /// Writes down what arms the panel for partial refreshes.
    fn initialize_for_partial_update(&mut self)
        ensures
            final(self).appended(old(self), partial_init_ops()),
    {
        let ghost start = self.pending@;
        self.pending.push(WireOp::Reset(false));
        self.pending.push(WireOp::Pause(1));
        self.pending.push(WireOp::Reset(true));
        let ghost pulse = seq![WireOp::Reset(false), WireOp::Pause(1), WireOp::Reset(true)];
        assert(self.pending@ =~= start + pulse);
        let ghost mut done = pulse;
        self.set_lut(&LUT_PARTIAL);
        proof {
            done = extended(start, done, lut_ops(LUT_PARTIAL@));
        }
        self.send_command_byte(0x37);
        proof {
            done = extended(start, done, command_ops(seq![0x37u8]));
        }
        self.send_data_byte(0x00);
        proof {
            done = extended(start, done, data_ops(seq![0x00u8]));
        }
        self.send_data_byte(0x00);
        proof {
            done = extended(start, done, data_ops(seq![0x00u8]));
        }
        self.send_data_byte(0x00);
        proof {
            done = extended(start, done, data_ops(seq![0x00u8]));
        }
        self.send_data_byte(0x00);
        proof {
            done = extended(start, done, data_ops(seq![0x00u8]));
        }
        self.send_data_byte(0x00);
        proof {
            done = extended(start, done, data_ops(seq![0x00u8]));
        }
        self.send_data_byte(0x40);
        proof {
            done = extended(start, done, data_ops(seq![0x40u8]));
        }
        self.send_data_byte(0x00);
        proof {
            done = extended(start, done, data_ops(seq![0x00u8]));
        }
        self.send_data_byte(0x00);
        proof {
            done = extended(start, done, data_ops(seq![0x00u8]));
        }
        self.send_data_byte(0x00);
        proof {
            done = extended(start, done, data_ops(seq![0x00u8]));
        }
        self.send_data_byte(0x00);
        proof {
            done = extended(start, done, data_ops(seq![0x00u8]));
        }
        self.send_command_byte(0x3c);
        proof {
            done = extended(start, done, command_ops(seq![0x3cu8]));
        }
        self.send_data_byte(0x80);
        proof {
            done = extended(start, done, data_ops(seq![0x80u8]));
        }
        self.send_command_byte(0x22);
        proof {
            done = extended(start, done, command_ops(seq![0x22u8]));
        }
        self.send_data_byte(0xc0);
        proof {
            done = extended(start, done, data_ops(seq![0xc0u8]));
        }
        self.send_command_byte(0x20);
        proof {
            done = extended(start, done, command_ops(seq![0x20u8]));
        }
        self.wait_while_busy();
        proof {
            done = extended(start, done, wait_ops());
        }
    }

    /// Writes down a full refresh with `image`.
    fn refresh_fully(&mut self, image: &[u8])
        ensures
            final(self).appended(old(self), full_refresh_ops(image@)),
    {
        let ghost start = self.pending@;
        self.initialize_for_full_update();
        let ghost mut done = full_init_ops();
        self.send_command_byte(0x24);
        proof {
            done = extended(start, done, command_ops(seq![0x24u8]));
        }
        self.send_data(image);
        proof {
            done = extended(start, done, data_ops(image@));
        }
        self.send_command_byte(0x26);
        proof {
            done = extended(start, done, command_ops(seq![0x26u8]));
        }
        self.send_data(image);
        proof {
            done = extended(start, done, data_ops(image@));
        }
        self.turn_on_for_full_update();
        proof {
            done = extended(start, done, turn_on_full_ops());
        }
        self.wait_while_busy();
        proof {
            done = extended(start, done, wait_ops());
        }
        self.initialize_for_partial_update();
        proof {
            done = extended(start, done, partial_init_ops());
        }
    }

    /// Writes down a partial refresh with `image`.
    fn refresh_partially(&mut self, image: &[u8])
        ensures
            final(self).appended(old(self), partial_refresh_ops(image@)),
    {
        let ghost start = self.pending@;
        self.send_command_byte(0x24);
        let ghost mut done = command_ops(seq![0x24u8]);
        self.send_data(image);
        proof {
            done = extended(start, done, data_ops(image@));
        }
        self.turn_on_for_partial_update();
        proof {
            done = extended(start, done, turn_on_partial_ops());
        }
        self.wait_while_busy();
        proof {
            done = extended(start, done, wait_ops());
        }
    }

    /// Puts the panel into deep sleep and drives its lines low. The driver is
    /// used up by this, so it happens once; the result holds every wire
    /// operation that was still pending, and the shutdown after them.
    pub fn turn_off(self) -> (ops: Vec<WireOp>)
        ensures
            ops@ == self.pending() + turn_off_ops(),
    {
        let mut epaper = self;
        let ghost start = epaper.pending@;
        epaper.send_command_byte(0x10);
        let ghost sent = command_ops(seq![0x10u8]);
        epaper.send_data_byte(0x01);
        proof {
            lemma_extend(start, sent, data_ops(seq![0x01u8]));
        }
        epaper.pending.push(WireOp::Pause(2000));
        epaper.pending.push(WireOp::Reset(false));
        epaper.pending.push(WireOp::DataCommand(false));
        epaper.pending.push(WireOp::ChipSelect(false));
        proof {
            let lines = seq![
                WireOp::Pause(2000),
                WireOp::Reset(false),
                WireOp::DataCommand(false),
                WireOp::ChipSelect(false),
            ];
            assert(epaper.pending@ =~= (start + (sent + data_ops(seq![0x01u8]))) + lines);
            lemma_extend(start, sent + data_ops(seq![0x01u8]), lines);
        }
        epaper.pending
    }

    /// Writes `image` to the panel at the time `now`, after `changed_pixel_count`
    /// pixels changed since the write before. The refresh is partial as long as
    /// the policy allows it; otherwise it is full, and the counters start
    /// afresh at `now`.
    pub fn write_image_at(&mut self, image: &[u8], changed_pixel_count: usize, now: Timestamp)
        ensures
            final(self).wrote_at(old(self), image@, changed_pixel_count, now),
    {
        self.counters.write_count = self.counters.write_count.saturating_add(1);
        self.counters.changed_pixel_count = self.counters.changed_pixel_count.saturating_add(
            changed_pixel_count,
        );
        let elapsed: u64 = now.seconds_since(self.counters.last_full_update);
        let partial: bool = self.policy.allows_partial(
            self.counters.write_count,
            self.counters.changed_pixel_count,
            elapsed,
        );
        if partial {
            self.refresh_partially(image);
        } else {
            self.counters.last_full_update = now;
            self.counters.write_count = 0;
            self.counters.changed_pixel_count = 0;
            self.refresh_fully(image);
        }
    }

    /// Writes `image` to the panel at the time the clock shows. Whatever that
    /// time is, the write is carried out as `write_image_at` describes for it.
    pub fn write_image(&mut self, image: &[u8], changed_pixel_count: usize)
        ensures
            (exists|now: Timestamp|
                final(self).wrote_at(old(self), image@, changed_pixel_count, now)),
    {
        let now: Timestamp = current_time();
        self.write_image_at(image, changed_pixel_count, now);
    }
}

/// Appending in two steps is appending the two parts at once.
proof fn lemma_extend(start: Seq<WireOp>, done: Seq<WireOp>, ops: Seq<WireOp>)
    ensures
        (start + done) + ops == start + (done + ops),
{
    assert((start + done) + ops =~= start + (done + ops));
}

/// What was appended once `ops` follow on `done`.
proof fn extended(start: Seq<WireOp>, done: Seq<WireOp>, ops: Seq<WireOp>) -> (all: Seq<WireOp>)
    ensures
        all == done + ops,
        (start + done) + ops == start + all,
{
    lemma_extend(start, done, ops);
    done + ops
}

/// The lowest byte of `value`.
fn low_of(value: u32) -> (byte: u8)
    ensures
        byte == low_byte(value),
{
    assert(value & 0xFF <= 0xFF) by (bit_vector);
    (value & 0xFF) as u8
}

/// The second lowest byte of `value`.
fn high_of(value: u32) -> (byte: u8)
    ensures
        byte == high_byte(value),
{
    assert((value >> 8) & 0xFF <= 0xFF) by (bit_vector);
    ((value >> 8) & 0xFF) as u8
}

/// The byte that names the column `value` in units of eight pixels.
fn column_of(value: u32) -> (byte: u8)
    ensures
        byte == column_byte(value),
{
    assert((value >> 3) & 0xFF <= 0xFF) by (bit_vector);
    ((value >> 3) & 0xFF) as u8
}

/// A time as the system clock of std shows it.
#[verifier::external_type_specification]
#[verifier::external_body]
pub struct ExSystemTime(SystemTime);

/// What std says of a time that lies before the time it was asked to count
/// from.
#[verifier::external_type_specification]
#[verifier::external_body]
pub struct ExSystemTimeError(SystemTimeError);

/// The time that the clock shows: as far after the epoch, or before it, as
/// std counts it.
fn current_time() -> (now: Timestamp) {
    let reading: SystemTime = clock_reading();
    match since_epoch(&reading) {
        Ok(after) => Timestamp::after_epoch(nanoseconds_of(&after)),
        Err(error) => Timestamp::before_epoch(nanoseconds_of(&gap_of(&error))),
    }
}

/// `SystemTime::now` of std: the time that the system clock shows. Nothing
/// is claimed of the time that comes back.
#[verifier::external_body]
fn clock_reading() -> (reading: SystemTime) {
    SystemTime::now()
}

/// `SystemTime::duration_since` of std, asked how far `reading` lies after
/// the Unix epoch; for a time before the epoch it gives an error. Nothing is
/// claimed of what comes back.
#[verifier::external_body]
fn since_epoch(reading: &SystemTime) -> (elapsed: Result<Duration, SystemTimeError>) {
    reading.duration_since(SystemTime::UNIX_EPOCH)
}

/// `SystemTimeError::duration` of std: how far the time that gave `error`
/// lies before the time it was counted from. Nothing is claimed of the
/// duration that comes back.
#[verifier::external_body]
fn gap_of(error: &SystemTimeError) -> (gap: Duration) {
    error.duration()
}

/// `Duration::as_nanos` of std: the whole of `duration` in nanoseconds.
/// Nothing is claimed of the number that comes back.
#[verifier::external_body]
fn nanoseconds_of(duration: &Duration) -> (nanoseconds: u128) {
    duration.as_nanos()
}

} // verus!
