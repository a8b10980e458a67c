use crate::epaper::driver::{EPaper, Timestamp, EPAPER_HEIGHT, EPAPER_WIDTH};
use crate::epaper::wire::WireOp;
use crate::epaper::target::{painted, BinaryColor, DrawTarget, FlushableDrawTarget, Pixel};
use crate::gui::geometry::Dimensions;
use vstd::prelude::*;

verus! {

/// Bytes in one row of the framebuffer: the panel's width in bits, rounded up
/// to whole bytes.
pub const ROW_WIDTH_BYTES: usize = 16;

/// Bytes in the framebuffer: a row of bytes for each row of the panel.
pub const BUFFER_LENGTH: usize = 4000;

/// The width of the panel, as a coordinate.
pub const PANEL_COLUMNS: i32 = 122;

/// The height of the panel, as a coordinate.
pub const PANEL_ROWS: i32 = 250;

/// Whether the coordinate `(x, y)` is a pixel of the panel.
pub open spec fn on_panel(x: i32, y: i32) -> bool {
    0 <= x < EPAPER_WIDTH && 0 <= y < EPAPER_HEIGHT
}

/// The place in the framebuffer of the byte that holds the pixel at `(x, y)`.
pub open spec fn byte_index(x: i32, y: i32) -> int {
    y * ROW_WIDTH_BYTES + x / 8
}

/// The bit of its byte that stands for a pixel in column `x`: the leftmost
/// pixel of a byte is its highest bit.
pub open spec fn bit_mask(x: i32) -> u8 {
    1u8 << ((7 - x % 8) as u8)
}

/// A byte of the framebuffer after `color` is drawn in column `x`: the bit is
/// set for a pixel that is off and cleared for one that is on.
pub open spec fn drawn_byte(byte: u8, x: i32, color: BinaryColor) -> u8 {
    match color {
        BinaryColor::Off => byte | bit_mask(x),
        BinaryColor::On => byte & !bit_mask(x),
    }
}

/// The colour that `buffer` shows at `(x, y)`. Off the panel nothing is shown,
/// which counts as off.
pub open spec fn shown(buffer: Seq<u8>, x: i32, y: i32) -> BinaryColor {
    if on_panel(x, y) && buffer[byte_index(x, y)] & bit_mask(x) == 0 {
        BinaryColor::On
    } else {
        BinaryColor::Off
    }
}

/// Whether drawing `pixel` changes a bit of `buffer`.
pub open spec fn flips(buffer: Seq<u8>, pixel: Pixel) -> bool {
    on_panel(pixel.x, pixel.y) && drawn_byte(
        buffer[byte_index(pixel.x, pixel.y)],
        pixel.x,
        pixel.color,
    ) != buffer[byte_index(pixel.x, pixel.y)]
}

/// The framebuffer after `pixel` is drawn. A pixel off the panel is dropped.
pub open spec fn draw_one(buffer: Seq<u8>, pixel: Pixel) -> Seq<u8> {
    if on_panel(pixel.x, pixel.y) {
        buffer.update(
            byte_index(pixel.x, pixel.y),
            drawn_byte(buffer[byte_index(pixel.x, pixel.y)], pixel.x, pixel.color),
        )
    } else {
        buffer
    }
}

/// The framebuffer after `pixels` are drawn in their order.
pub open spec fn draw_all(buffer: Seq<u8>, pixels: Seq<Pixel>) -> Seq<u8>
    decreases pixels.len(),
{
    if pixels.len() == 0 {
        buffer
    } else {
        draw_one(draw_all(buffer, pixels.drop_last()), pixels.last())
    }
}

/// How many of `pixels`, drawn in their order, change a bit of the framebuffer.
pub open spec fn flip_count(buffer: Seq<u8>, pixels: Seq<Pixel>) -> nat
    decreases pixels.len(),
{
    if pixels.len() == 0 {
        0
    } else {
        flip_count(buffer, pixels.drop_last()) + if flips(
            draw_all(buffer, pixels.drop_last()),
            pixels.last(),
        ) {
            1nat
        } else {
            0nat
        }
    }
}

/// `count + more`, held at the largest `usize`.
pub open spec fn clamped_total(count: usize, more: nat) -> usize {
    if count + more > usize::MAX {
        usize::MAX
    } else {
        (count + more) as usize
    }
}

/// What setting and clearing bit `k` does to that bit and to the byte.
proof fn lemma_bit_set(byte: u8, k: u8)
    requires
        k < 8,
    ensures
        (byte | (1u8 << k)) & (1u8 << k) != 0,
        (byte & !(1u8 << k)) & (1u8 << k) == 0,
        byte & (1u8 << k) == 0 ==> (byte | (1u8 << k)) != byte && (byte | (1u8 << k)) & !(1u8
            << k) == byte,
        byte & (1u8 << k) != 0 ==> (byte & !(1u8 << k)) != byte && (byte | (1u8 << k)) == byte,
        byte & (1u8 << k) == 0 ==> (byte & !(1u8 << k)) == byte,
{
    assert((byte | (1u8 << k)) & (1u8 << k) != 0) by (bit_vector)
        requires
            k < 8,
    ;
    assert((byte & !(1u8 << k)) & (1u8 << k) == 0) by (bit_vector)
        requires
            k < 8,
    ;
    assert(byte & (1u8 << k) == 0 ==> (byte | (1u8 << k)) != byte && (byte | (1u8 << k)) & !(1u8
        << k) == byte) by (bit_vector)
        requires
            k < 8,
    ;
    assert(byte & (1u8 << k) != 0 ==> (byte & !(1u8 << k)) != byte && (byte | (1u8 << k)) == byte)
        by (bit_vector)
        requires
            k < 8,
    ;
    assert(byte & (1u8 << k) == 0 ==> (byte & !(1u8 << k)) == byte) by (bit_vector)
        requires
            k < 8,
    ;
}

/// Setting or clearing bit `k` leaves every other bit `j` as it was.
proof fn lemma_bit_kept(byte: u8, k: u8, j: u8)
    requires
        k < 8,
        j < 8,
        k != j,
    ensures
        (byte | (1u8 << k)) & (1u8 << j) == byte & (1u8 << j),
        (byte & !(1u8 << k)) & (1u8 << j) == byte & (1u8 << j),
{
    assert((byte | (1u8 << k)) & (1u8 << j) == byte & (1u8 << j)) by (bit_vector)
        requires
            k < 8,
            j < 8,
            k != j,
    ;
    assert((byte & !(1u8 << k)) & (1u8 << j) == byte & (1u8 << j)) by (bit_vector)
        requires
            k < 8,
            j < 8,
            k != j,
    ;
}

/// Drawing one pixel gives its coordinate the pixel's colour, if it is on the
/// panel, and leaves every other coordinate as it was.
pub proof fn lemma_draw_one_shows(buffer: Seq<u8>, pixel: Pixel, x: i32, y: i32)
    requires
        buffer.len() == BUFFER_LENGTH,
    ensures
        draw_one(buffer, pixel).len() == BUFFER_LENGTH,
        shown(draw_one(buffer, pixel), x, y) == if on_panel(x, y) && pixel.x == x && pixel.y == y {
            pixel.color
        } else {
            shown(buffer, x, y)
        },
{
    if on_panel(pixel.x, pixel.y) && on_panel(x, y) {
        let k = (7 - pixel.x % 8) as u8;
        let j = (7 - x % 8) as u8;
        let at = byte_index(pixel.x, pixel.y);
        if byte_index(x, y) == at {
            assert(y == pixel.y);
            if x == pixel.x {
                lemma_bit_set(buffer[at], k);
            } else {
                lemma_bit_kept(buffer[at], k, j);
            }
        }
    }
}

/// Drawing a pixel off over one that is on, and then on again, leaves the
/// framebuffer as it was, and each of the two draws changes a bit.
pub proof fn lemma_off_then_on_restores(buffer: Seq<u8>, x: i32, y: i32)
    requires
        buffer.len() == BUFFER_LENGTH,
        on_panel(x, y),
        shown(buffer, x, y) == BinaryColor::On,
    ensures
        draw_all(
            buffer,
            seq![Pixel { x, y, color: BinaryColor::Off }, Pixel { x, y, color: BinaryColor::On }],
        ) == buffer,
        flip_count(
            buffer,
            seq![Pixel { x, y, color: BinaryColor::Off }, Pixel { x, y, color: BinaryColor::On }],
        ) == 2,
{
    let off = Pixel { x, y, color: BinaryColor::Off };
    let on = Pixel { x, y, color: BinaryColor::On };
    let both = seq![off, on];
    reveal_with_fuel(draw_all, 3);
    reveal_with_fuel(flip_count, 3);
    let k = (7 - x % 8) as u8;
    let at = byte_index(x, y);
    lemma_bit_set(buffer[at], k);
    assert(both.drop_last() =~= seq![off]);
    assert(seq![off].drop_last() =~= Seq::<Pixel>::empty());
    assert(draw_all(buffer, seq![off]) == draw_one(buffer, off));
    assert(draw_all(buffer, both) == draw_one(draw_one(buffer, off), on));
    assert(draw_one(draw_one(buffer, off), on) =~= buffer);
    assert(flip_count(buffer, seq![off]) == 1);
}

/// Drawing the same colour twice in a row at one coordinate changes no more
/// bits than drawing it once: one bit where the coordinate showed the other
/// colour, and none where it showed this one.
pub proof fn lemma_same_color_twice_counts_once(buffer: Seq<u8>, pixel: Pixel)
    requires
        buffer.len() == BUFFER_LENGTH,
        on_panel(pixel.x, pixel.y),
    ensures
        flip_count(buffer, seq![pixel, pixel]) == flip_count(buffer, seq![pixel]),
        flip_count(buffer, seq![pixel]) == if shown(buffer, pixel.x, pixel.y) == pixel.color {
            0nat
        } else {
            1nat
        },
{
    let both = seq![pixel, pixel];
    reveal_with_fuel(draw_all, 3);
    reveal_with_fuel(flip_count, 3);
    let k = (7 - pixel.x % 8) as u8;
    let at = byte_index(pixel.x, pixel.y);
    lemma_bit_set(buffer[at], k);
    lemma_bit_set(draw_one(buffer, pixel)[at], k);
    assert(both.drop_last() =~= seq![pixel]);
    assert(seq![pixel].drop_last() =~= Seq::<Pixel>::empty());
    assert(draw_all(buffer, seq![pixel]) == draw_one(buffer, pixel));
}

/// The packed bits of the panel: one bit per pixel, row after row, each row
/// padded to whole bytes.
pub struct Framebuffer {
    bytes: Vec<u8>,
}

impl Framebuffer {
    #[verifier::type_invariant]
    spec fn well_formed(self) -> bool {
        self.bytes@.len() == BUFFER_LENGTH
    }

    /// The bytes of the framebuffer, row after row.
    pub closed spec fn bytes(&self) -> Seq<u8> {
        self.bytes@
    }

    /// A framebuffer in which every pixel is off.
    pub fn new() -> (framebuffer: Self)
        ensures
            framebuffer.bytes() == Seq::new(BUFFER_LENGTH as nat, |i: int| 0xFFu8),
    {
        let mut bytes: Vec<u8> = Vec::new();
        let mut i: usize = 0;
        while i < BUFFER_LENGTH
            invariant
                i <= BUFFER_LENGTH,
                bytes@ =~= Seq::new(i as nat, |i: int| 0xFFu8),
            decreases BUFFER_LENGTH - i,
        {
            bytes.push(0xFF);
            i += 1;
        }
        Framebuffer { bytes }
    }

    /// The bytes of the framebuffer, as the panel takes them.
    pub fn as_slice(&self) -> (image: &[u8])
        ensures
            image@ == self.bytes(),
            image@.len() == BUFFER_LENGTH,
    {
        proof {
            use_type_invariant(self);
        }
        self.bytes.as_slice()
    }

    /// Draws one pixel: sets its bit for off and clears it for on. A pixel off
    /// the panel is dropped. The result says whether a bit changed.
    pub fn draw_pixel(&mut self, pixel: Pixel) -> (changed: bool)
        ensures
            final(self).bytes() == draw_one(old(self).bytes(), pixel),
            final(self).bytes().len() == BUFFER_LENGTH,
            old(self).bytes().len() == BUFFER_LENGTH,
            changed == flips(old(self).bytes(), pixel),
    {
        proof {
            use_type_invariant(&*self);
        }
        if 0 <= pixel.x && pixel.x < PANEL_COLUMNS && 0 <= pixel.y && pixel.y < PANEL_ROWS {
            let column: usize = pixel.x as usize;
            let row: usize = pixel.y as usize;
            let index: usize = row * ROW_WIDTH_BYTES + column / 8;
            let bit: u8 = (7 - column % 8) as u8;
            let mask: u8 = 1u8 << bit;
            let previous: u8 = self.bytes[index];
            let next: u8 = match pixel.color {
                BinaryColor::Off => previous | mask,
                BinaryColor::On => previous & !mask,
            };
            self.bytes[index] = next;
            previous != next
        } else {
            false
        }
    }
}

/// A draw target that packs what is drawn into a framebuffer, counts the bits
/// that change, and hands both to the driver when it is flushed.
pub struct BufferedDrawTarget {
    epaper: EPaper,
    framebuffer: Framebuffer,
    changed_pixel_count: usize,
}

impl BufferedDrawTarget {
    /// The driver that the framebuffer is flushed to.
    pub closed spec fn epaper(&self) -> EPaper {
        self.epaper
    }

    /// The bytes of the framebuffer, row after row.
    pub closed spec fn buffer(&self) -> Seq<u8> {
        self.framebuffer.bytes()
    }

    /// The bits that changed since the framebuffer was last flushed.
    pub closed spec fn changed_pixel_count(&self) -> usize {
        self.changed_pixel_count
    }

    /// A framebuffer in which every pixel is off, in front of `epaper`.
    pub fn new(epaper: EPaper) -> (target: Self)
        ensures
            target.epaper() == epaper,
            target.buffer() == Seq::new(BUFFER_LENGTH as nat, |i: int| 0xFFu8),
            target.changed_pixel_count() == 0,
    {
        BufferedDrawTarget { epaper, framebuffer: Framebuffer::new(), changed_pixel_count: 0 }
    }

    /// The bytes of the framebuffer.
    pub fn image(&self) -> (image: &[u8])
        ensures
            image@ == self.buffer(),
            image@.len() == BUFFER_LENGTH,
    {
        self.framebuffer.as_slice()
    }

    /// The bits that changed since the framebuffer was last flushed.
    pub fn changed_pixels(&self) -> (count: usize)
        ensures
            count == self.changed_pixel_count(),
    {
        self.changed_pixel_count
    }

    /// The driver, to look at its counters.
    pub fn driver(&self) -> (epaper: &EPaper)
        ensures
            *epaper == self.epaper(),
    {
        &self.epaper
    }

    /// Hands out the wire operations that the driver has written down so far.
    pub fn take_pending(&mut self) -> (ops: Vec<WireOp>)
        ensures
            ops@ == old(self).epaper().pending(),
            final(self).epaper().pending() == Seq::<WireOp>::empty(),
            final(self).epaper().policy() == old(self).epaper().policy(),
            final(self).epaper().counters() == old(self).epaper().counters(),
            final(self).buffer() == old(self).buffer(),
            final(self).changed_pixel_count() == old(self).changed_pixel_count(),
    {
        self.epaper.take_pending()
    }

    /// Gives the driver back, for it to be turned off.
    pub fn into_driver(self) -> (epaper: EPaper)
        ensures
            epaper == self.epaper(),
    {
        self.epaper
    }

    /// Draws one pixel: sets its bit for off and clears it for on, and counts
    /// the draw if the bit changed. A pixel off the panel is dropped.
    pub fn draw_pixel(&mut self, pixel: Pixel)
        ensures
            final(self).epaper() == old(self).epaper(),
            final(self).buffer() == draw_one(old(self).buffer(), pixel),
            final(self).changed_pixel_count() == clamped_total(
                old(self).changed_pixel_count(),
                if flips(old(self).buffer(), pixel) {
                    1nat
                } else {
                    0nat
                },
            ),
    {
        let changed: bool = self.framebuffer.draw_pixel(pixel);
        if changed {
            self.changed_pixel_count = self.changed_pixel_count.saturating_add(1);
        }
    }

    /// Hands the framebuffer and the count of changed bits to the driver for a
    /// write at `now`, and starts counting anew.
    pub fn flush_at(&mut self, now: Timestamp)
        ensures
            final(self).buffer() == old(self).buffer(),
            final(self).changed_pixel_count() == 0,
            final(self).epaper().wrote_at(
                &old(self).epaper(),
                old(self).buffer(),
                old(self).changed_pixel_count(),
                now,
            ),
    {
        self.epaper.write_image_at(self.framebuffer.as_slice(), self.changed_pixel_count, now);
        self.changed_pixel_count = 0;
    }
}

impl DrawTarget for BufferedDrawTarget {
    open spec fn extent(&self) -> Dimensions {
        Dimensions { width: EPAPER_WIDTH, height: EPAPER_HEIGHT }
    }

    open spec fn holds(&self, x: i32, y: i32) -> bool {
        on_panel(x, y)
    }

    open spec fn color_at(&self, x: i32, y: i32) -> BinaryColor {
        shown(self.buffer(), x, y)
    }

    /// The driver is as before, the framebuffer has each of the pixels drawn
    /// into it, and each draw that changed a bit is counted.
    open spec fn drew(&self, before: &Self, pixels: Seq<Pixel>) -> bool {
        &&& self.epaper() == before.epaper()
        &&& self.buffer() == draw_all(before.buffer(), pixels)
        &&& self.changed_pixel_count() == clamped_total(
            before.changed_pixel_count(),
            flip_count(before.buffer(), pixels),
        )
    }

    fn size(&self) -> (size: Dimensions) {
        Dimensions::new(EPAPER_WIDTH, EPAPER_HEIGHT)
    }

    fn draw_iter(&mut self, pixels: &[Pixel])
        ensures
            final(self).epaper() == old(self).epaper(),
            final(self).buffer() == draw_all(old(self).buffer(), pixels@),
            final(self).changed_pixel_count() == clamped_total(
                old(self).changed_pixel_count(),
                flip_count(old(self).buffer(), pixels@),
            ),
    {
        let ghost before = self.buffer();
        proof {
            use_type_invariant(&self.framebuffer);
        }
        let mut i: usize = 0;
        while i < pixels.len()
            invariant
                i <= pixels.len(),
                before == old(self).buffer(),
                before.len() == BUFFER_LENGTH,
                self.epaper() == old(self).epaper(),
                self.buffer() == draw_all(before, pixels@.take(i as int)),
                self.buffer().len() == BUFFER_LENGTH,
                self.changed_pixel_count() == clamped_total(
                    old(self).changed_pixel_count(),
                    flip_count(before, pixels@.take(i as int)),
                ),
                forall|x: i32, y: i32| #[trigger]
                    shown(self.buffer(), x, y) == if on_panel(x, y) {
                        painted(pixels@.take(i as int), x, y, shown(before, x, y))
                    } else {
                        shown(before, x, y)
                    },
            decreases pixels.len() - i,
        {
            let ghost current = self.buffer();
            proof {
                assert(pixels@.take(i as int + 1).drop_last() =~= pixels@.take(i as int));
                assert(pixels@.take(i as int + 1).last() == pixels@[i as int]);
                assert forall|x: i32, y: i32| #[trigger]
                    shown(draw_one(current, pixels@[i as int]), x, y) == if on_panel(x, y) {
                        painted(pixels@.take(i as int + 1), x, y, shown(before, x, y))
                    } else {
                        shown(before, x, y)
                    } by {
                    lemma_draw_one_shows(current, pixels@[i as int], x, y);
                }
            }
            self.draw_pixel(pixels[i]);
            i += 1;
        }
        proof {
            assert(pixels@.take(i as int) =~= pixels@);
        }
    }
}

impl FlushableDrawTarget for BufferedDrawTarget {
    /// The framebuffer is as before, no changed bits are counted any more,
    /// and the driver has written the framebuffer at some time, after as many
    /// changes as were counted.
    open spec fn flushed(&self, before: &Self) -> bool {
        &&& self.buffer() == before.buffer()
        &&& self.changed_pixel_count() == 0
        &&& exists|now: Timestamp|
            self.epaper().wrote_at(
                &before.epaper(),
                before.buffer(),
                before.changed_pixel_count(),
                now,
            )
    }

    /// Hands the framebuffer and the count of changed bits to the driver for a
    /// write at the time the clock shows, and starts counting anew.
    fn flush(&mut self) {
        let ghost before = self.epaper;
        let changed: usize = self.changed_pixel_count;
        let image: &[u8] = self.framebuffer.as_slice();
        self.epaper.write_image(image, changed);
        let ghost now = choose|now: Timestamp| self.epaper.wrote_at(&before, image@, changed, now);
        self.changed_pixel_count = 0;
        assert(self.epaper().wrote_at(
            &old(self).epaper(),
            old(self).buffer(),
            old(self).changed_pixel_count(),
            now,
        ));
    }
}

} // verus!
