use crate::epaper::lut::LUT_WAVEFORM_LENGTH;
use vstd::prelude::*;

verus! {

/// One operation on the lines that connect the panel.
#[derive(Clone, Copy, PartialEq, Eq, Structural, Debug)]
pub enum WireOp {
    /// Drive the reset line high (`true`) or low.
    Reset(bool),
    /// Drive the data/command line high for data (`true`) or low for a command.
    DataCommand(bool),
    /// Drive the chip-select line high (`true`) or low.
    ChipSelect(bool),
    /// Transfer one byte over the serial link.
    Transfer(u8),
    /// Let this many milliseconds pass.
    Pause(u32),
    /// Wait until the busy line is low, looking at it every given number of
    /// milliseconds.
    AwaitIdle(u32),
}

/// Milliseconds between two looks at the busy line.
pub const BUSY_POLL_INTERVAL_MS: u32 = 10;

/// What to do while waiting for the panel, after a look at the busy line: to
/// let the interval pass and look again while the line is high, and to go on
/// once it is low.
pub fn wait_step(interval: u32, busy: bool) -> (step: Option<WireOp>)
    ensures
        step == if busy {
            Some(WireOp::Pause(interval))
        } else {
            None
        },
{
    if busy {
        Some(WireOp::Pause(interval))
    } else {
        None
    }
}

/// One transfer for each byte of `data`, in their order.
pub open spec fn transfers(data: Seq<u8>) -> Seq<WireOp> {
    Seq::new(data.len(), |i: int| WireOp::Transfer(data[i]))
}

/// The bytes `data` framed as a command: data/command line low, chip selected
/// for the length of the transfer.
pub open spec fn command_ops(data: Seq<u8>) -> Seq<WireOp> {
    seq![WireOp::DataCommand(false), WireOp::ChipSelect(false)] + transfers(data)
        + seq![WireOp::ChipSelect(true)]
}

/// The bytes `data` framed as data: data/command line high, chip selected for
/// the length of the transfer.
pub open spec fn data_ops(data: Seq<u8>) -> Seq<WireOp> {
    seq![WireOp::DataCommand(true), WireOp::ChipSelect(false)] + transfers(data)
        + seq![WireOp::ChipSelect(true)]
}

/// The reset pulse before a full refresh: 20 ms high, 2 ms low, 20 ms high.
pub open spec fn hardware_reset_ops() -> Seq<WireOp> {
    seq![
        WireOp::Reset(true),
        WireOp::Pause(20),
        WireOp::Reset(false),
        WireOp::Pause(2),
        WireOp::Reset(true),
        WireOp::Pause(20),
    ]
}

/// The wait for the panel to finish what it is doing.
pub open spec fn wait_ops() -> Seq<WireOp> {
    seq![WireOp::AwaitIdle(BUSY_POLL_INTERVAL_MS)]
}

/// Display update control 2 with the full sequence, then master activation.
pub open spec fn turn_on_full_ops() -> Seq<WireOp> {
    command_ops(seq![0x22u8]) + data_ops(seq![0xc7u8]) + command_ops(seq![0x20u8])
}

/// Display update control 2 with the partial sequence, then master activation.
pub open spec fn turn_on_partial_ops() -> Seq<WireOp> {
    command_ops(seq![0x22u8]) + data_ops(seq![0x0cu8]) + command_ops(seq![0x20u8])
}

/// The lowest byte of `value`.
pub open spec fn low_byte(value: u32) -> u8 {
    (value & 0xFF) as u8
}

/// The second lowest byte of `value`.
pub open spec fn high_byte(value: u32) -> u8 {
    ((value >> 8) & 0xFF) as u8
}

/// The byte that names the column `value` in units of eight pixels.
pub open spec fn column_byte(value: u32) -> u8 {
    ((value >> 3) & 0xFF) as u8
}

/// The RAM window from `(x_start, y_start)` to `(x_end, y_end)`: the columns
/// in units of eight pixels, the rows low byte first.
pub open spec fn display_window_ops(x_start: u32, y_start: u32, x_end: u32, y_end: u32) -> Seq<
    WireOp,
> {
    command_ops(seq![0x44u8]) + data_ops(seq![column_byte(x_start)]) + data_ops(
        seq![column_byte(x_end)],
    ) + command_ops(seq![0x45u8]) + data_ops(seq![low_byte(y_start)]) + data_ops(
        seq![high_byte(y_start)],
    ) + data_ops(seq![low_byte(y_end)]) + data_ops(seq![high_byte(y_end)])
}

/// The RAM cursor at `(x, y)`.
pub open spec fn cursor_ops(x: u32, y: u32) -> Seq<WireOp> {
    command_ops(seq![0x4Eu8]) + data_ops(seq![low_byte(x)]) + command_ops(seq![0x4Fu8]) + data_ops(
        seq![low_byte(y)],
    ) + data_ops(seq![high_byte(y)])
}

/// The upload of a waveform table: its 153 waveform bytes, then each of its
/// six control bytes under the command it belongs to.
pub open spec fn lut_ops(lut: Seq<u8>) -> Seq<WireOp> {
    command_ops(seq![0x32u8]) + data_ops(lut.subrange(0, LUT_WAVEFORM_LENGTH as int))
        + command_ops(seq![0x3fu8])
        + data_ops(seq![lut[153]]) + command_ops(seq![0x03u8]) + data_ops(seq![lut[154]])
        + command_ops(seq![0x04u8]) + data_ops(seq![lut[155]]) + data_ops(seq![lut[156]])
        + data_ops(seq![lut[157]]) + command_ops(seq![0x2cu8]) + data_ops(seq![lut[158]])
}

/// Deep sleep, two seconds for the panel to settle, then all lines low.
pub open spec fn turn_off_ops() -> Seq<WireOp> {
    command_ops(seq![0x10u8]) + data_ops(seq![0x01u8]) + seq![
        WireOp::Pause(2000),
        WireOp::Reset(false),
        WireOp::DataCommand(false),
        WireOp::ChipSelect(false),
    ]
}

} // verus!
