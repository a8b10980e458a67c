use crate::epaper::target::{
    addresses, lemma_painted_elsewhere, painted, BinaryColor, DrawTarget, Pixel,
};
use crate::gui::drawn_within;
use crate::gui::geometry::{Dimensions, Point, Rectangle};
use vstd::prelude::*;

verus! {

/// One row of a block: `columns` pixels of `color`, from `(left, y)` to the
/// right.
pub open spec fn block_row(left: int, columns: int, y: int, color: BinaryColor) -> Seq<Pixel> {
    Seq::new(
        if columns > 0 {
            columns as nat
        } else {
            0nat
        },
        |i: int| Pixel { x: (left + i) as i32, y: y as i32, color },
    )
}

/// A block of `rows` rows of `columns` pixels of `color` whose top left
/// corner is at `(left, top)`, row after row.
pub open spec fn block_pixels(
    left: int,
    top: int,
    columns: int,
    rows: int,
    color: BinaryColor,
) -> Seq<Pixel> decreases rows, {
    if rows <= 0 {
        Seq::empty()
    } else {
        block_pixels(left, top, columns, rows - 1, color) + block_row(
            left,
            columns,
            top + rows - 1,
            color,
        )
    }
}

/// `value`, but no more than `limit`.
pub open spec fn upto(value: int, limit: int) -> int {
    if value <= limit {
        value
    } else {
        limit
    }
}

/// The pixels of a block of `columns` by `rows` pixels of `color` whose top
/// left corner is at `position`, as far as coordinates reach.
pub open spec fn block_image(position: Point, columns: u32, rows: u32, color: BinaryColor) -> Seq<
    Pixel,
> {
    if position.0 > i32::MAX || position.1 > i32::MAX {
        Seq::empty()
    } else {
        block_pixels(
            position.0 as int,
            position.1 as int,
            upto(position.0 + columns, i32::MAX + 1) - position.0,
            upto(position.1 + rows, i32::MAX + 1) - position.1,
            color,
        )
    }
}

/// Whether each of `pixels` has the colour `color`.
pub open spec fn all_of_color(pixels: Seq<Pixel>, color: BinaryColor) -> bool {
    forall|i: int| 0 <= i < pixels.len() ==> (#[trigger] pixels[i]).color == color
}

/// Pixels of one colour give that colour to every coordinate that one of
/// them is addressed to.
pub(crate) proof fn lemma_painted_in_one_color(
    pixels: Seq<Pixel>,
    color: BinaryColor,
    x: i32,
    y: i32,
    base: BinaryColor,
)
    requires
        all_of_color(pixels, color),
        addresses(pixels, x, y),
    ensures
        painted(pixels, x, y, base) == color,
    decreases pixels.len(),
{
    let last = pixels.len() - 1;
    if pixels[last].x == x && pixels[last].y == y {
    } else {
        let i = choose|i: int|
            0 <= i < pixels.len() && (#[trigger] pixels[i]).x == x && pixels[i].y == y;
        assert(pixels.drop_last()[i] == pixels[i]);
        assert forall|k: int| 0 <= k < pixels.drop_last().len() implies (
        #[trigger] pixels.drop_last()[k]).color == color by {
            assert(pixels.drop_last()[k] == pixels[k]);
        }
        lemma_painted_in_one_color(pixels.drop_last(), color, x, y, base);
    }
}

/// A block has one colour, and one of its pixels is addressed to each
/// coordinate that it spans.
pub(crate) proof fn lemma_block_fills(
    left: int,
    top: int,
    columns: int,
    rows: int,
    color: BinaryColor,
    x: i32,
    y: i32,
)
    requires
        0 <= left,
        0 <= top,
        left + columns <= i32::MAX + 1,
        top + rows <= i32::MAX + 1,
    ensures
        all_of_color(block_pixels(left, top, columns, rows, color), color),
        left <= x < left + columns && top <= y < top + rows ==> addresses(
            block_pixels(left, top, columns, rows, color),
            x,
            y,
        ),
    decreases rows,
{
    if rows > 0 {
        lemma_block_fills(left, top, columns, rows - 1, color, x, y);
        let above = block_pixels(left, top, columns, rows - 1, color);
        let row = block_row(left, columns, top + rows - 1, color);
        let all = above + row;
        assert forall|i: int| 0 <= i < all.len() implies (#[trigger] all[i]).color == color by {
            if i < above.len() {
                assert(all[i] == above[i]);
            } else {
                assert(all[i] == row[i - above.len()]);
            }
        }
        if left <= x < left + columns && top <= y < top + rows {
            if y == top + rows - 1 {
                let at = above.len() + (x - left);
                assert(all[at] == row[x - left]);
                assert(all[at].x == x && all[at].y == y);
            } else {
                let i = choose|i: int|
                    0 <= i < above.len() && (#[trigger] above[i]).x == x && above[i].y == y;
                assert(all[i] == above[i]);
                assert(all[i].x == x && all[i].y == y);
            }
        }
    }
}

/// The pixels of a block of `columns` by `rows` pixels of `color` at
/// `position`.
pub fn block(position: Point, columns: u32, rows: u32, color: BinaryColor) -> (image: Vec<Pixel>)
    requires
        position.0 + columns <= u32::MAX,
        position.1 + rows <= u32::MAX,
    ensures
        image@ == block_image(position, columns, rows, color),
        forall|i: int|
            0 <= i < image@.len() ==> (Rectangle {
                position,
                dimensions: Dimensions { width: columns, height: rows },
            }).covers((#[trigger] image@[i]).x as int, image@[i].y as int),
{
    let limit: u64 = 2147483648;
    let left: u64 = position.0 as u64;
    let top: u64 = position.1 as u64;
    if left >= limit || top >= limit {
        return Vec::new();
    }
    let right: u64 = if left + columns as u64 <= limit {
        left + columns as u64
    } else {
        limit
    };
    let bottom: u64 = if top + rows as u64 <= limit {
        top + rows as u64
    } else {
        limit
    };
    let ghost region = Rectangle {
        position,
        dimensions: Dimensions { width: columns, height: rows },
    };
    let mut image: Vec<Pixel> = Vec::new();
    let mut y: u64 = top;
    while y < bottom
        invariant
            top <= y <= bottom,
            left <= right,
            bottom <= limit,
            right <= limit,
            limit == 2147483648,
            left == position.0,
            top == position.1,
            right == upto(position.0 + columns, i32::MAX + 1),
            bottom == upto(position.1 + rows, i32::MAX + 1),
            region == (Rectangle {
                position,
                dimensions: Dimensions { width: columns, height: rows },
            }),
            image@ == block_pixels(left as int, top as int, right - left, y - top, color),
            forall|i: int|
                0 <= i < image@.len() ==> region.covers(
                    (#[trigger] image@[i]).x as int,
                    image@[i].y as int,
                ),
        decreases bottom - y,
    {
        let ghost rows_before = image@;
        let mut x: u64 = left;
        proof {
            assert(image@ =~= rows_before + block_row(left as int, 0, y as int, color));
        }
        while x < right
            invariant
                left <= x <= right,
                top <= y < bottom,
                bottom <= limit,
                right <= limit,
                limit == 2147483648,
                left == position.0,
                top == position.1,
                right == upto(position.0 + columns, i32::MAX + 1),
                bottom == upto(position.1 + rows, i32::MAX + 1),
                region == (Rectangle {
                    position,
                    dimensions: Dimensions { width: columns, height: rows },
                }),
                image@ == rows_before + block_row(left as int, x - left, y as int, color),
                forall|i: int|
                    0 <= i < image@.len() ==> region.covers(
                        (#[trigger] image@[i]).x as int,
                        image@[i].y as int,
                    ),
            decreases right - x,
        {
            image.push(Pixel { x: x as i32, y: y as i32, color });
            proof {
                assert(image@ =~= rows_before + block_row(
                    left as int,
                    x + 1 - left,
                    y as int,
                    color,
                ));
            }
            x += 1;
        }
        y += 1;
    }
    image
}

/// Draws `image`, all of whose pixels lie in `region`.
pub(crate) fn draw_inside<T: DrawTarget>(
    target: &mut T,
    image: &[Pixel],
    Ghost(region): Ghost<Rectangle>,
)
    requires
        forall|i: int|
            0 <= i < image@.len() ==> region.covers(
                (#[trigger] image@[i]).x as int,
                image@[i].y as int,
            ),
    ensures
        final(target).extent() == old(target).extent(),
        forall|x: i32, y: i32| #[trigger] final(target).holds(x, y) == old(target).holds(x, y),
        forall|x: i32, y: i32| #[trigger]
            final(target).color_at(x, y) == if old(target).holds(x, y) {
                painted(image@, x, y, old(target).color_at(x, y))
            } else {
                old(target).color_at(x, y)
            },
        drawn_within(old(target), final(target), region),
{
    proof {
        assert forall|x: i32, y: i32| !region.covers(x as int, y as int) implies #[trigger] painted(
            image@,
            x,
            y,
            target.color_at(x, y),
        ) == target.color_at(x, y) by {
            if addresses(image@, x, y) {
                let i = choose|i: int|
                    0 <= i < image@.len() && (#[trigger] image@[i]).x == x && image@[i].y == y;
                assert(region.covers(image@[i].x as int, image@[i].y as int));
            }
            lemma_painted_elsewhere(image@, x, y, target.color_at(x, y));
        }
    }
    target.draw_iter(image);
}

} // verus!
