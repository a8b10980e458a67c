use crate::gui::controls::item_scroller::SCROLL_COLUMN_WIDTH;
use crate::gui::controls::text::{padded_extent, text_rendering};
use crate::gui::fonts::Fonts;
use crate::gui::geometry::{clamped_sum, Dimensions, Orientation, Padding, StackUnitDimension};
use crate::gui::layouts::stack::axis_extent;
use crate::gui::Structure;
use vstd::prelude::*;

verus! {

/// The size of `inner` with `padding` around it.
pub open spec fn padded_by(inner: Dimensions, padding: Padding) -> Dimensions {
    Dimensions {
        width: clamped_sum(inner.width, padding.spec_total_horizontal()),
        height: clamped_sum(inner.height, padding.spec_total_vertical()),
    }
}

/// The extent of a region across the axis of `orientation`.
pub open spec fn cross_extent(dimensions: Dimensions, orientation: Orientation) -> u32 {
    match orientation {
        Orientation::Horizontal => dimensions.height,
        Orientation::Vertical => dimensions.width,
    }
}

/// What the child at index `i` of a stack asks for along the axis: the units
/// of a fixed policy, nothing under a stretching one, and its natural size
/// where no policy is given for it.
pub open spec fn asked_along(
    orientation: Orientation,
    policies: Seq<StackUnitDimension>,
    naturals: Seq<Dimensions>,
    i: int,
) -> u32 {
    if i < policies.len() {
        match policies[i] {
            StackUnitDimension::Pixel(units) => units,
            StackUnitDimension::Stretch => 0,
        }
    } else {
        axis_extent(naturals[i], orientation)
    }
}

/// What the first `k` children of a stack ask for along the axis, all
/// together, held at the largest `u32`.
pub open spec fn stacked_along(
    orientation: Orientation,
    policies: Seq<StackUnitDimension>,
    naturals: Seq<Dimensions>,
    k: int,
) -> u32
    decreases k,
{
    if k <= 0 {
        0
    } else {
        clamped_sum(
            stacked_along(orientation, policies, naturals, k - 1),
            asked_along(orientation, policies, naturals, k - 1),
        )
    }
}

/// The largest natural size across the axis among the first `k` children of
/// a stack.
pub open spec fn stacked_across(orientation: Orientation, naturals: Seq<Dimensions>, k: int) -> u32
    decreases k,
{
    if k <= 0 {
        0
    } else if cross_extent(naturals[k - 1], orientation) > stacked_across(
        orientation,
        naturals,
        k - 1,
    ) {
        cross_extent(naturals[k - 1], orientation)
    } else {
        stacked_across(orientation, naturals, k - 1)
    }
}

/// The natural size of a stack whose children have the natural sizes
/// `naturals`: along the axis what the children ask for, all together, and
/// across it the largest natural size of a child.
pub open spec fn stacked_natural(
    orientation: Orientation,
    policies: Seq<StackUnitDimension>,
    naturals: Seq<Dimensions>,
) -> Dimensions {
    let along = stacked_along(orientation, policies, naturals, naturals.len() as int);
    let across = stacked_across(orientation, naturals, naturals.len() as int);
    match orientation {
        Orientation::Horizontal => Dimensions { width: along, height: across },
        Orientation::Vertical => Dimensions { width: across, height: along },
    }
}

/// The natural size of the tree when `fonts` rasterize its texts: a text is
/// as large as its pixels, with its padding; a button as large as what it
/// shows, with its padding; a stack as `stacked_natural` says for the
/// natural sizes of its children; a scroller as wide and as high as its
/// column of buttons is wide; a bar has the width of its padding and its
/// height with the padding.
pub open spec fn natural_size(tree: Structure, fonts: &Fonts) -> Dimensions
    decreases tree,
{
    match tree {
        Structure::Text { label, font_size, font_kind, padding, .. } => padded_extent(
            text_rendering(fonts, label, font_size, font_kind),
            padding,
        ),
        Structure::Button { content, padding, .. } => padded_by(
            natural_size(*content, fonts),
            padding,
        ),
        Structure::StackPanel { children, orientation, policies } => stacked_natural(
            orientation,
            policies,
            natural_sizes(children, fonts),
        ),
        Structure::ItemScroller { .. } => Dimensions {
            width: SCROLL_COLUMN_WIDTH,
            height: SCROLL_COLUMN_WIDTH,
        },
        Structure::ProgressBar { height, padding, .. } => Dimensions {
            width: padding.spec_total_horizontal(),
            height: clamped_sum(height, padding.spec_total_vertical()),
        },
    }
}

/// The natural sizes of the trees of `shown`, each at the place of its tree.
pub open spec fn natural_sizes(shown: Seq<Structure>, fonts: &Fonts) -> Seq<Dimensions>
    decreases shown,
{
    Seq::new(
        shown.len(),
        |i: int|
            if 0 <= i < shown.len() {
                natural_size(shown[i], fonts)
            } else {
                Dimensions { width: 0, height: 0 }
            },
    )
}

} // verus!
