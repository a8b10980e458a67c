use crate::epaper::target::{painted, BinaryColor, DrawTarget, FlushableDrawTarget, Pixel};
use crate::gui::geometry::Dimensions;
use vstd::prelude::*;

verus! {

/// Whether `value` is a coordinate.
pub open spec fn fits_coordinate(value: int) -> bool {
    i32::MIN <= value <= i32::MAX
}

/// Where a pixel drawn at `(x, y)` on the rotated canvas lands on a target
/// that is `inner_width` wide: at `(inner_width - y, x)`. A pixel whose place
/// no coordinate can name lands nowhere.
pub open spec fn rotated_pixel(pixel: Pixel, inner_width: u32) -> Option<Pixel> {
    if fits_coordinate(inner_width - pixel.y) {
        Some(Pixel { x: (inner_width - pixel.y) as i32, y: pixel.x, color: pixel.color })
    } else {
        None
    }
}

/// The pixels that `pixels`, drawn on the rotated canvas, are on the target
/// inside, in the same order.
pub open spec fn rotated(pixels: Seq<Pixel>, inner_width: u32) -> Seq<Pixel>
    decreases pixels.len(),
{
    if pixels.len() == 0 {
        Seq::empty()
    } else {
        match rotated_pixel(pixels.last(), inner_width) {
            Some(pixel) => rotated(pixels.drop_last(), inner_width).push(pixel),
            None => rotated(pixels.drop_last(), inner_width),
        }
    }
}

/// What the rotated canvas shows at `(x, y)` after `pixels` is what the
/// target inside shows at `(inner_width - y, x)` after the rotated pixels.
pub proof fn lemma_painted_rotated(
    pixels: Seq<Pixel>,
    inner_width: u32,
    x: i32,
    y: i32,
    base: BinaryColor,
)
    requires
        fits_coordinate(inner_width - y),
    ensures
        painted(rotated(pixels, inner_width), (inner_width - y) as i32, x, base) == painted(
            pixels,
            x,
            y,
            base,
        ),
    decreases pixels.len(),
{
    if pixels.len() > 0 {
        lemma_painted_rotated(pixels.drop_last(), inner_width, x, y, base);
        match rotated_pixel(pixels.last(), inner_width) {
            Some(pixel) => {
                let turned = rotated(pixels.drop_last(), inner_width).push(pixel);
                assert(turned.drop_last() =~= rotated(pixels.drop_last(), inner_width));
                assert(turned.last() == pixel);
            },
            None => {},
        }
    }
}

/// One pixel drawn at `(x, y)` on the rotated canvas is one pixel at
/// `(inner_width - y, x)` on the target inside.
pub proof fn lemma_rotated_single(pixel: Pixel, inner_width: u32)
    requires
        fits_coordinate(inner_width - pixel.y),
    ensures
        rotated(seq![pixel], inner_width) == seq![
            Pixel { x: (inner_width - pixel.y) as i32, y: pixel.x, color: pixel.color },
        ],
{
    reveal_with_fuel(rotated, 2);
    assert(seq![pixel].drop_last() =~= Seq::<Pixel>::empty());
    assert(rotated(seq![pixel], inner_width) =~= seq![
        Pixel { x: (inner_width - pixel.y) as i32, y: pixel.x, color: pixel.color },
    ]);
}

/// A canvas turned by a quarter over another draw target: what is drawn at
/// `(x, y)` lands inside at `(inner width - y, x)`, and width and height
/// change places.
pub struct RotatedDrawTarget<T: FlushableDrawTarget> {
    inner: T,
}

impl<T: FlushableDrawTarget> RotatedDrawTarget<T> {
    /// The draw target inside.
    pub closed spec fn inner(&self) -> T {
        self.inner
    }

    /// A canvas turned by a quarter over `inner`.
    pub fn new(inner: T) -> (target: Self)
        ensures
            target.inner() == inner,
    {
        Self { inner }
    }

    /// The draw target inside.
    pub fn get_ref(&self) -> (inner: &T)
        ensures
            *inner == self.inner(),
    {
        &self.inner
    }

    /// The draw target inside, to change it.
    pub fn get_mut(&mut self) -> (inner: &mut T)
        ensures
            *inner == old(self).inner(),
            final(self).inner() == *final(inner),
    {
        &mut self.inner
    }

    /// Gives the draw target inside back.
    pub fn into_inner(self) -> (inner: T)
        ensures
            inner == self.inner(),
    {
        self.inner
    }
}

impl<T: FlushableDrawTarget> DrawTarget for RotatedDrawTarget<T> {
    open spec fn extent(&self) -> Dimensions {
        Dimensions { width: self.inner().extent().height, height: self.inner().extent().width }
    }

    open spec fn holds(&self, x: i32, y: i32) -> bool {
        fits_coordinate(self.inner().extent().width - y) && self.inner().holds(
            (self.inner().extent().width - y) as i32,
            x,
        )
    }

    open spec fn color_at(&self, x: i32, y: i32) -> BinaryColor {
        if fits_coordinate(self.inner().extent().width - y) {
            self.inner().color_at((self.inner().extent().width - y) as i32, x)
        } else {
            BinaryColor::Off
        }
    }

    /// The target inside is what drawing the rotated pixels makes of it.
    open spec fn drew(&self, before: &Self, pixels: Seq<Pixel>) -> bool {
        self.inner().drew(&before.inner(), rotated(pixels, before.inner().extent().width))
    }

    fn size(&self) -> (size: Dimensions) {
        let inner_size: Dimensions = self.inner.size();
        Dimensions { width: inner_size.height, height: inner_size.width }
    }

    /// Draws each pixel at its place on the target inside: the one drawn at
    /// `(x, y)` at `(inner width - y, x)`.
    fn draw_iter(&mut self, pixels: &[Pixel])
        ensures
            final(self).inner().drew(
                &old(self).inner(),
                rotated(pixels@, old(self).inner().extent().width),
            ),
            final(self).inner().extent() == old(self).inner().extent(),
            forall|x: i32, y: i32| #[trigger]
                final(self).inner().holds(x, y) == old(self).inner().holds(x, y),
            forall|x: i32, y: i32| #[trigger]
                final(self).inner().color_at(x, y) == if old(self).inner().holds(x, y) {
                    painted(
                        rotated(pixels@, old(self).inner().extent().width),
                        x,
                        y,
                        old(self).inner().color_at(x, y),
                    )
                } else {
                    old(self).inner().color_at(x, y)
                },
    {
        let inner_width: u32 = self.inner.size().width;
        let mut turned: Vec<Pixel> = Vec::new();
        let mut i: usize = 0;
        while i < pixels.len()
            invariant
                i <= pixels.len(),
                turned@ == rotated(pixels@.take(i as int), inner_width),
            decreases pixels.len() - i,
        {
            let pixel: Pixel = pixels[i];
            proof {
                assert(pixels@.take(i as int + 1).drop_last() =~= pixels@.take(i as int));
                assert(pixels@.take(i as int + 1).last() == pixel);
            }
            let column: i64 = inner_width as i64 - pixel.y as i64;
            if -2147483648 <= column && column <= 2147483647 {
                turned.push(Pixel { x: column as i32, y: pixel.x, color: pixel.color });
            }
            i += 1;
        }
        proof {
            assert(pixels@.take(i as int) =~= pixels@);
            assert forall|x: i32, y: i32| fits_coordinate(inner_width - y) implies painted(
                rotated(pixels@, inner_width),
                (inner_width - y) as i32,
                x,
                #[trigger] self.inner().color_at((inner_width - y) as i32, x),
            ) == painted(pixels@, x, y, self.inner().color_at((inner_width - y) as i32, x)) by {
                lemma_painted_rotated(
                    pixels@,
                    inner_width,
                    x,
                    y,
                    self.inner().color_at((inner_width - y) as i32, x),
                );
            }
        }
        self.inner.draw_iter(turned.as_slice());
    }
}

impl<T: FlushableDrawTarget> FlushableDrawTarget for RotatedDrawTarget<T> {
    /// Flushing the canvas is flushing the target inside.
    open spec fn flushed(&self, before: &Self) -> bool {
        self.inner().flushed(&before.inner())
    }

    fn flush(&mut self) {
        self.inner.flush()
    }
}

} // verus!
