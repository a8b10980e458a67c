use crate::epaper::target::{painted, BinaryColor, DrawTarget, Pixel};
use crate::gui::controls::item_scroller::{
    column_policies, column_region, list_extent, scroll_button, scroll_column, DOWN_LABEL,
    UP_LABEL,
};
use crate::gui::controls::progress_bar::filled_columns;
use crate::gui::controls::text::{text_image_pixels, text_rendering};
use crate::gui::drawing::block_image;
use crate::gui::fonts::{FontKind, Fonts};
use crate::gui::geometry::{Orientation, Padding, Rectangle, StackUnitDimension};
use crate::gui::layouts::stack::{asked_for, stack_box, window_length};
use crate::gui::{ScrollRequest, Structure};
use vstd::prelude::*;

verus! {

/// Whether `after` is `before` with `pixels` drawn on it in their order:
/// every coordinate that the target holds shows the colour of the last pixel
/// addressed to it, and every other coordinate what it showed.
pub open spec fn shows<T: DrawTarget>(before: &T, after: &T, pixels: Seq<Pixel>) -> bool {
    forall|x: i32, y: i32| #[trigger]
        after.color_at(x, y) == if before.holds(x, y) {
            painted(pixels, x, y, before.color_at(x, y))
        } else {
            before.color_at(x, y)
        }
}

/// Drawing `first` and then `second` is drawing `second` over what `first`
/// has painted.
pub proof fn lemma_painted_joined(
    first: Seq<Pixel>,
    second: Seq<Pixel>,
    x: i32,
    y: i32,
    base: BinaryColor,
)
    ensures
        painted(first + second, x, y, base) == painted(second, x, y, painted(first, x, y, base)),
    decreases second.len(),
{
    if second.len() == 0 {
        assert(first + second =~= first);
    } else {
        assert((first + second).drop_last() =~= first + second.drop_last());
        assert((first + second).last() == second.last());
        lemma_painted_joined(first, second.drop_last(), x, y, base);
    }
}

/// A target that shows `first` drawn on `before`, and then `second` drawn on
/// that, shows both drawn on `before`, one after the other.
pub proof fn lemma_shows_joined<T: DrawTarget>(
    before: &T,
    between: &T,
    after: &T,
    first: Seq<Pixel>,
    second: Seq<Pixel>,
)
    requires
        shows(before, between, first),
        shows(between, after, second),
        forall|x: i32, y: i32| #[trigger] between.holds(x, y) == before.holds(x, y),
    ensures
        shows(before, after, first + second),
{
    assert forall|x: i32, y: i32| #[trigger]
        after.color_at(x, y) == if before.holds(x, y) {
            painted(first + second, x, y, before.color_at(x, y))
        } else {
            before.color_at(x, y)
        } by {
        lemma_painted_joined(first, second, x, y, before.color_at(x, y));
        assert(between.holds(x, y) == before.holds(x, y));
    }
}

/// The region that `padding` leaves of `region`.
pub open spec fn padded_region(padding: Padding, region: Rectangle) -> Rectangle {
    Rectangle {
        position: padding.spec_adjust_position(region.position),
        dimensions: padding.spec_adjust_dimensions(region.dimensions),
    }
}

/// The region that a control made of `tree` records when it is rendered into
/// `region`: a text the region that its padding leaves, every other control
/// the region itself.
pub open spec fn recorded_region(tree: Structure, region: Rectangle) -> Rectangle {
    match tree {
        Structure::Text { padding, .. } => padded_region(padding, region),
        _ => region,
    }
}

/// The `length` trees of `children` from index `first` on.
pub open spec fn window_of(children: Seq<Structure>, first: int, length: int) -> Seq<Structure> {
    Seq::new(
        if length > 0 {
            length as nat
        } else {
            0nat
        },
        |k: int| children[first + k],
    )
}

/// The pixels of one scroll button with the label `label` in `region`: its
/// text, inside the padding of the button.
pub open spec fn scroll_button_picture(
    label: Seq<char>,
    fonts: &Fonts,
    region: Rectangle,
) -> Seq<Pixel> {
    let inner = padded_region(Padding { top: 5, bottom: 5, left: 0, right: 0 }, region);
    text_image_pixels(
        text_rendering(fonts, label, 20, FontKind::Emoji),
        Padding { top: 0, bottom: 0, left: 0, right: 0 }.spec_adjust_dimensions(inner.dimensions),
        Padding { top: 0, bottom: 0, left: 0, right: 0 }.spec_adjust_position(inner.position),
    )
}

/// The pixels of the column of scroll buttons in `region`: the button that
/// scrolls up in the upper half, the button that scrolls down in the lower.
pub open spec fn column_picture(fonts: &Fonts, region: Rectangle) -> Seq<Pixel> {
    scroll_button_picture(
        UP_LABEL@,
        fonts,
        stack_box(
            column_policies(),
            region.dimensions,
            region.position,
            Orientation::Vertical,
            0,
        ),
    ) + scroll_button_picture(
        DOWN_LABEL@,
        fonts,
        stack_box(
            column_policies(),
            region.dimensions,
            region.position,
            Orientation::Vertical,
            1,
        ),
    )
}

/// The pixels that a control made of `tree` draws, in their order, when it
/// is rendered into `region` with `fonts`. A text draws its pixels centred
/// in what its padding leaves of the region; a button what it shows, inside
/// its padding; a stack its children one after the other, each in its share
/// of the region; a scroller its column of buttons and then the children of
/// its window, stacked beside the column; a bar its filled part.
pub open spec fn picture(tree: Structure, fonts: &Fonts, region: Rectangle) -> Seq<Pixel>
    decreases tree,
{
    match tree {
        Structure::Text { label, font_size, font_kind, padding, .. } => text_image_pixels(
            text_rendering(fonts, label, font_size, font_kind),
            padding.spec_adjust_dimensions(region.dimensions),
            padding.spec_adjust_position(region.position),
        ),
        Structure::Button { content, padding, .. } => picture(
            *content,
            fonts,
            padded_region(padding, region),
        ),
        Structure::StackPanel { children, orientation, policies } => stacked_picture(
            children,
            0,
            asked_for(policies, children, orientation, fonts),
            fonts,
            region,
            orientation,
            children.len() as int,
        ),
        Structure::ItemScroller { children, show_items, scroll_index, .. } => column_picture(
            fonts,
            column_region(region.dimensions, region.position),
        ) + stacked_picture(
            children,
            scroll_index,
            asked_for(
                Seq::empty(),
                window_of(
                    children,
                    scroll_index,
                    window_length(scroll_index, show_items as int, children.len() as int),
                ),
                Orientation::Vertical,
                fonts,
            ),
            fonts,
            Rectangle { position: region.position, dimensions: list_extent(region.dimensions) },
            Orientation::Vertical,
            window_length(scroll_index, show_items as int, children.len() as int),
        ),
        Structure::ProgressBar { progress, progress_max, height, padding, .. } => {
            let inner = padded_region(padding, region);
            block_image(
                inner.position,
                filled_columns(inner.dimensions.width, progress, progress_max),
                if height <= inner.dimensions.height {
                    height
                } else {
                    inner.dimensions.height
                },
                BinaryColor::On,
            )
        },
    }
}

/// The pixels that `count` controls draw, one after the other, that are made
/// of the trees of `shown` from index `first` on and stacked in `region`
/// along `orientation`, each in the share that `requests` give it.
pub open spec fn stacked_picture(
    shown: Seq<Structure>,
    first: int,
    requests: Seq<StackUnitDimension>,
    fonts: &Fonts,
    region: Rectangle,
    orientation: Orientation,
    count: int,
) -> Seq<Pixel>
    decreases shown, count,
{
    if count <= 0 {
        Seq::empty()
    } else {
        stacked_picture(shown, first, requests, fonts, region, orientation, count - 1) + (if 0
            <= first + count - 1 < shown.len() {
            picture(
                shown[first + count - 1],
                fonts,
                stack_box(requests, region.dimensions, region.position, orientation, count - 1),
            )
        } else {
            Seq::empty()
        })
    }
}

/// The column of scroll buttons draws the texts of its two buttons.
pub proof fn lemma_column_picture(fonts: &Fonts, region: Rectangle)
    ensures
        picture(scroll_column(), fonts, region) == column_picture(fonts, region),
{
    let buttons = seq![
        scroll_button(UP_LABEL@, ScrollRequest::Up),
        scroll_button(DOWN_LABEL@, ScrollRequest::Down),
    ];
    let requests = asked_for(column_policies(), buttons, Orientation::Vertical, fonts);
    assert(requests =~= column_policies());
    reveal_with_fuel(picture, 3);
    reveal_with_fuel(stacked_picture, 3);
    let upper_box = stack_box(
        column_policies(),
        region.dimensions,
        region.position,
        Orientation::Vertical,
        0,
    );
    let lower_box = stack_box(
        column_policies(),
        region.dimensions,
        region.position,
        Orientation::Vertical,
        1,
    );
    let none = stacked_picture(buttons, 0, requests, fonts, region, Orientation::Vertical, 0);
    let upper = stacked_picture(buttons, 0, requests, fonts, region, Orientation::Vertical, 1);
    let both = stacked_picture(buttons, 0, requests, fonts, region, Orientation::Vertical, 2);
    assert(scroll_column()->StackPanel_children =~= buttons);
    assert(picture(scroll_column(), fonts, region) == both);
    assert(picture(buttons[0], fonts, upper_box) == scroll_button_picture(
        UP_LABEL@,
        fonts,
        upper_box,
    ));
    assert(picture(buttons[1], fonts, lower_box) == scroll_button_picture(
        DOWN_LABEL@,
        fonts,
        lower_box,
    ));
    assert(none =~= Seq::empty());
    assert(upper == none + picture(buttons[0], fonts, upper_box));
    assert(both == upper + picture(buttons[1], fonts, lower_box));
    assert(both =~= column_picture(fonts, region));
}

} // verus!
