use crate::gui::geometry::Dimensions;
use vstd::prelude::*;

verus! {

/// The two colours of the panel.
#[derive(Clone, Copy, PartialEq, Eq, Structural, Debug)]
pub enum BinaryColor {
    Off,
    On,
}

/// A colour to put at one coordinate of a draw target.
#[derive(Clone, Copy, PartialEq, Eq, Structural, Debug)]
pub struct Pixel {
    pub x: i32,
    pub y: i32,
    pub color: BinaryColor,
}

/// The colour that the coordinate `(x, y)` shows once `pixels` have been drawn
/// in their order over the colour `base`: that of the last pixel addressed to
/// it, or `base` where none is.
pub open spec fn painted(pixels: Seq<Pixel>, x: i32, y: i32, base: BinaryColor) -> BinaryColor
    decreases pixels.len(),
{
    if pixels.len() == 0 {
        base
    } else if pixels.last().x == x && pixels.last().y == y {
        pixels.last().color
    } else {
        painted(pixels.drop_last(), x, y, base)
    }
}

/// Whether one of `pixels` is addressed to the coordinate `(x, y)`.
pub open spec fn addresses(pixels: Seq<Pixel>, x: i32, y: i32) -> bool {
    exists|i: int| 0 <= i < pixels.len() && (#[trigger] pixels[i]).x == x && pixels[i].y == y
}

/// A coordinate that none of `pixels` is addressed to keeps its colour.
pub proof fn lemma_painted_elsewhere(pixels: Seq<Pixel>, x: i32, y: i32, base: BinaryColor)
    requires
        !addresses(pixels, x, y),
    ensures
        painted(pixels, x, y, base) == base,
    decreases pixels.len(),
{
    if pixels.len() > 0 {
        let last = pixels.len() - 1;
        assert(pixels[last].x != x || pixels[last].y != y);
        assert forall|i: int| 0 <= i < pixels.drop_last().len() implies !((
        #[trigger] pixels.drop_last()[i]).x == x && pixels.drop_last()[i].y == y) by {
            assert(pixels[i] == pixels.drop_last()[i]);
        }
        lemma_painted_elsewhere(pixels.drop_last(), x, y, base);
    }
}

/// A surface of pixels. Pixels addressed to a coordinate that the surface
/// does not hold are dropped without an error.
pub trait DrawTarget {
    /// The extent that the target reports.
    spec fn extent(&self) -> Dimensions;

    /// Whether the target keeps what is drawn at the coordinate `(x, y)`.
    spec fn holds(&self, x: i32, y: i32) -> bool;

    /// The colour that the target shows at the coordinate `(x, y)`.
    spec fn color_at(&self, x: i32, y: i32) -> BinaryColor;

    /// Whether `self` is what drawing `pixels`, in their order, makes of
    /// `before`: in all that the target holds, not only in what it shows.
    spec fn drew(&self, before: &Self, pixels: Seq<Pixel>) -> bool;

    fn size(&self) -> (size: Dimensions)
        ensures
            size == self.extent(),
    ;

    /// Draws `pixels` in their order.
    fn draw_iter(&mut self, pixels: &[Pixel])
        ensures
            final(self).drew(old(self), pixels@),
            final(self).extent() == old(self).extent(),
            forall|x: i32, y: i32| #[trigger] final(self).holds(x, y) == old(self).holds(x, y),
            forall|x: i32, y: i32| #[trigger]
                final(self).color_at(x, y) == if old(self).holds(x, y) {
                    painted(pixels@, x, y, old(self).color_at(x, y))
                } else {
                    old(self).color_at(x, y)
                },
    ;
}

/// A draw target that collects what is drawn and shows it when flushed.
pub trait FlushableDrawTarget: DrawTarget {
    /// Whether `self` is what a flush can make of `before`.
    spec fn flushed(&self, before: &Self) -> bool;

    /// Hands what was drawn on to the display. The surface itself stays as it is.
    fn flush(&mut self)
        ensures
            final(self).flushed(old(self)),
            final(self).extent() == old(self).extent(),
            forall|x: i32, y: i32| #[trigger] final(self).holds(x, y) == old(self).holds(x, y),
            forall|x: i32, y: i32| #[trigger]
                final(self).color_at(x, y) == old(self).color_at(x, y),
    ;
}

} // verus!
