use crate::epaper::target::{painted, BinaryColor, DrawTarget, Pixel};
use crate::gui::drawing::draw_inside;
use crate::gui::fonts::{glyph_views, FontKind, Fonts, Glyph, GlyphBitmap};
use crate::gui::geometry::{Dimensions, Padding, Point, Rectangle};
use crate::gui::reactivity::property::{written, ReactiveProperty};
use crate::playback::{PlaybackStatus, StatusField};
use crate::gui::{
    drawn_within, lemma_drawn_within_chain, CommandSender, Control, ControlSignal, Event,
    Structure, Widget,
};
use vstd::prelude::*;

verus! {

/// A text as pixels: the places of the pixels that are set, counted from the
/// top left corner of the text, and the largest column and row among them.
pub struct RenderedText {
    pub pixels: Vec<(usize, usize)>,
    pub width: u32,
    pub height: u32,
}

/// What a text as pixels holds.
pub struct Rendering {
    pub pixels: Seq<(usize, usize)>,
    pub width: u32,
    pub height: u32,
}

impl View for RenderedText {
    type V = Rendering;

    open spec fn view(&self) -> Rendering {
        Rendering { pixels: self.pixels@, width: self.width, height: self.height }
    }
}

/// `a + b`, held at the largest `usize`.
pub open spec fn clamped_place(a: int, b: usize) -> usize {
    if a + b > usize::MAX {
        usize::MAX
    } else {
        (a + b) as usize
    }
}

/// `value`, held at the largest `u32`.
pub open spec fn clamped_extent(value: usize) -> u32 {
    if value > u32::MAX {
        u32::MAX
    } else {
        value as u32
    }
}

/// The place in the text of the pixel that entry `i` of the coverage of
/// `glyph` stands for.
pub open spec fn glyph_pixel(glyph: Glyph, i: int) -> (usize, usize) {
    (
        clamped_place(i % (glyph.width as int), glyph.x),
        clamped_place(i / (glyph.width as int), glyph.y),
    )
}

/// The places of the pixels that the first `n` entries of the coverage of
/// `glyph` set: those of the entries above zero. A bitmap without width has
/// no pixels.
pub open spec fn glyph_pixels(glyph: Glyph, n: int) -> Seq<(usize, usize)>
    decreases n,
{
    if n <= 0 || glyph.width == 0 {
        Seq::empty()
    } else if glyph.coverage[n - 1] > 0 {
        glyph_pixels(glyph, n - 1).push(glyph_pixel(glyph, n - 1))
    } else {
        glyph_pixels(glyph, n - 1)
    }
}

/// The places of the pixels that `glyphs` set, glyph after glyph.
pub open spec fn text_pixels(glyphs: Seq<Glyph>) -> Seq<(usize, usize)>
    decreases glyphs.len(),
{
    if glyphs.len() == 0 {
        Seq::empty()
    } else {
        text_pixels(glyphs.drop_last()) + glyph_pixels(
            glyphs.last(),
            glyphs.last().coverage.len() as int,
        )
    }
}

/// The largest column among `pixels`, zero where there are none.
pub open spec fn largest_column(pixels: Seq<(usize, usize)>) -> usize
    decreases pixels.len(),
{
    if pixels.len() == 0 {
        0
    } else if pixels.last().0 > largest_column(pixels.drop_last()) {
        pixels.last().0
    } else {
        largest_column(pixels.drop_last())
    }
}

/// The largest row among `pixels`, zero where there are none.
pub open spec fn largest_row(pixels: Seq<(usize, usize)>) -> usize
    decreases pixels.len(),
{
    if pixels.len() == 0 {
        0
    } else if pixels.last().1 > largest_row(pixels.drop_last()) {
        pixels.last().1
    } else {
        largest_row(pixels.drop_last())
    }
}

/// The text that `glyphs` make up, as pixels: the pixels that the glyphs
/// set, as wide as the largest column among them and as high as the largest
/// row, and without extent where no pixel is set.
pub open spec fn rendering(glyphs: Seq<Glyph>) -> Rendering {
    Rendering {
        pixels: text_pixels(glyphs),
        width: clamped_extent(largest_column(text_pixels(glyphs))),
        height: clamped_extent(largest_row(text_pixels(glyphs))),
    }
}

/// The font size as the rasterizer takes it: no larger than 65535.
pub open spec fn pixel_size_of(font_size: usize) -> u16 {
    if font_size > u16::MAX {
        u16::MAX
    } else {
        font_size as u16
    }
}

/// The text `label` as pixels, in the font of `font_kind` of `fonts` at
/// `font_size` pixels.
pub open spec fn text_rendering(
    fonts: &Fonts,
    label: Seq<char>,
    font_size: usize,
    font_kind: FontKind,
) -> Rendering {
    rendering(fonts.glyphs_of(label, pixel_size_of(font_size), font_kind))
}

/// Collects the pixels that rasterized glyphs set, and measures them.
pub fn render_text(glyphs: &Vec<GlyphBitmap>) -> (rendered: RenderedText)
    ensures
        rendered@ == rendering(glyph_views(glyphs@)),
{
    let ghost shapes = glyph_views(glyphs@);
    let mut pixels: Vec<(usize, usize)> = Vec::new();
    let mut width: usize = 0;
    let mut height: usize = 0;
    let mut g: usize = 0;
    while g < glyphs.len()
        invariant
            g <= glyphs.len(),
            shapes == glyph_views(glyphs@),
            pixels@ == text_pixels(shapes.take(g as int)),
            width == largest_column(pixels@),
            height == largest_row(pixels@),
        decreases glyphs.len() - g,
    {
        let glyph: &GlyphBitmap = &glyphs[g];
        let ghost before = pixels@;
        let mut i: usize = 0;
        if glyph.width > 0 {
            while i < glyph.coverage.len()
                invariant
                    i <= glyph.coverage.len(),
                    glyph.width > 0,
                    pixels@ == before + glyph_pixels(glyph@, i as int),
                    width == largest_column(pixels@),
                    height == largest_row(pixels@),
                decreases glyph.coverage.len() - i,
            {
                if glyph.coverage[i] > 0 {
                    let x: usize = (i % glyph.width).saturating_add(glyph.x);
                    let y: usize = (i / glyph.width).saturating_add(glyph.y);
                    let ghost earlier = pixels@;
                    pixels.push((x, y));
                    proof {
                        assert(pixels@.drop_last() =~= earlier);
                        assert(pixels@ =~= before + glyph_pixels(glyph@, i as int + 1));
                    }
                    if x > width {
                        width = x;
                    }
                    if y > height {
                        height = y;
                    }
                }
                i += 1;
            }
        } else {
            proof {
                assert(pixels@ =~= before + glyph_pixels(glyph@, glyph.coverage@.len() as int));
            }
        }
        proof {
            assert(shapes.take(g as int + 1).drop_last() =~= shapes.take(g as int));
            assert(shapes.take(g as int + 1).last() == glyphs@[g as int]@);
        }
        g += 1;
    }
    proof {
        assert(shapes.take(g as int) =~= shapes);
    }
    RenderedText {
        pixels,
        width: if width > u32::MAX as usize {
            u32::MAX
        } else {
            width as u32
        },
        height: if height > u32::MAX as usize {
            u32::MAX
        } else {
            height as u32
        },
    }
}

/// The smaller of two extents.
pub open spec fn smaller_extent(a: u32, b: u32) -> u32 {
    if a <= b {
        a
    } else {
        b
    }
}

/// The part of a text of `width` by `height` pixels that shows in a region of
/// `dimensions`.
pub open spec fn visible_extent(width: u32, height: u32, dimensions: Dimensions) -> Dimensions {
    Dimensions {
        width: smaller_extent(width, dimensions.width),
        height: smaller_extent(height, dimensions.height),
    }
}

/// The top left corner of the visible part of a text when it is centred in
/// the region of `dimensions` at `position`.
pub open spec fn centered_origin(visible: Dimensions, dimensions: Dimensions, position: Point) -> (
    int,
    int,
) {
    (
        position.0 + (dimensions.width - visible.width) / 2,
        position.1 + (dimensions.height - visible.height) / 2,
    )
}

/// Whether the pixel of a text at `place` is drawn: it lies in the visible
/// part, and where it lands is a coordinate.
pub open spec fn is_drawn(place: (usize, usize), visible: Dimensions, origin: (int, int)) -> bool {
    &&& place.0 < visible.width
    &&& place.1 < visible.height
    &&& origin.0 + place.0 <= i32::MAX
    &&& origin.1 + place.1 <= i32::MAX
}

/// The pixels to draw for the pixels of a text at `places`: one that is on, in
/// the order of the places, for each place that is drawn.
pub open spec fn image_pixels(
    places: Seq<(usize, usize)>,
    visible: Dimensions,
    origin: (int, int),
) -> Seq<Pixel> decreases places.len(), {
    if places.len() == 0 {
        Seq::empty()
    } else if is_drawn(places.last(), visible, origin) {
        image_pixels(places.drop_last(), visible, origin).push(
            Pixel {
                x: (origin.0 + places.last().0) as i32,
                y: (origin.1 + places.last().1) as i32,
                color: BinaryColor::On,
            },
        )
    } else {
        image_pixels(places.drop_last(), visible, origin)
    }
}

/// The pixels that show `rendered` centred in the region of `dimensions` at
/// `position`. The text is cut where it is larger than the region.
pub fn text_image(rendered: &RenderedText, dimensions: Dimensions, position: Point) -> (image: Vec<
    Pixel,
>)
    requires
        (Rectangle { position, dimensions }).fits(),
    ensures
        image@ == text_image_pixels(rendered@, dimensions, position),
        forall|i: int|
            0 <= i < image@.len() ==> (Rectangle { position, dimensions }).covers(
                (#[trigger] image@[i]).x as int,
                image@[i].y as int,
            ),
{
    let visible_width: u32 = if rendered.width <= dimensions.width {
        rendered.width
    } else {
        dimensions.width
    };
    let visible_height: u32 = if rendered.height <= dimensions.height {
        rendered.height
    } else {
        dimensions.height
    };
    let left: u32 = position.0 + (dimensions.width - visible_width) / 2;
    let top: u32 = position.1 + (dimensions.height - visible_height) / 2;
    let ghost visible = visible_extent(rendered.width, rendered.height, dimensions);
    let ghost origin = centered_origin(visible, dimensions, position);
    let mut image: Vec<Pixel> = Vec::new();
    let mut i: usize = 0;
    while i < rendered.pixels.len()
        invariant
            i <= rendered.pixels.len(),
            (Rectangle { position, dimensions }).fits(),
            visible == (Dimensions { width: visible_width, height: visible_height }),
            visible_width <= dimensions.width,
            visible_height <= dimensions.height,
            origin == (left as int, top as int),
            left == position.0 + (dimensions.width - visible_width) / 2,
            top == position.1 + (dimensions.height - visible_height) / 2,
            image@ == image_pixels(rendered.pixels@.take(i as int), visible, origin),
            forall|k: int|
                0 <= k < image@.len() ==> (Rectangle { position, dimensions }).covers(
                    (#[trigger] image@[k]).x as int,
                    image@[k].y as int,
                ),
        decreases rendered.pixels.len() - i,
    {
        let place: (usize, usize) = rendered.pixels[i];
        proof {
            assert(rendered.pixels@.take(i as int + 1).drop_last() =~= rendered.pixels@.take(
                i as int,
            ));
            assert(rendered.pixels@.take(i as int + 1).last() == place);
        }
        if place.0 < visible_width as usize && place.1 < visible_height as usize {
            let x: u64 = left as u64 + place.0 as u64;
            let y: u64 = top as u64 + place.1 as u64;
            if x <= 2147483647 && y <= 2147483647 {
                image.push(Pixel { x: x as i32, y: y as i32, color: BinaryColor::On });
            }
        }
        i += 1;
    }
    proof {
        assert(rendered.pixels@.take(i as int) =~= rendered.pixels@);
    }
    image
}

/// The pixels that show a text of `rendered` pixels centred in the region of
/// `dimensions` at `position`.
pub open spec fn text_image_pixels(
    rendered: Rendering,
    dimensions: Dimensions,
    position: Point,
) -> Seq<Pixel> {
    image_pixels(
        rendered.pixels,
        visible_extent(rendered.width, rendered.height, dimensions),
        centered_origin(
            visible_extent(rendered.width, rendered.height, dimensions),
            dimensions,
            position,
        ),
    )
}

/// Whether `after` is `before` with `rendered` drawn centred in the region of
/// `dimensions` at `position`.
pub open spec fn shows_text<T: DrawTarget>(
    before: &T,
    after: &T,
    rendered: Rendering,
    dimensions: Dimensions,
    position: Point,
) -> bool {
    forall|x: i32, y: i32| #[trigger]
        after.color_at(x, y) == if before.holds(x, y) {
            painted(text_image_pixels(rendered, dimensions, position), x, y, before.color_at(x, y))
        } else {
            before.color_at(x, y)
        }
}

/// Draws `rendered` centred in the region of `dimensions` at `position`: its
/// pixels are turned on, and nothing else is drawn.
pub fn draw_text<T: DrawTarget>(
    target: &mut T,
    rendered: &RenderedText,
    dimensions: Dimensions,
    position: Point,
)
    requires
        (Rectangle { position, dimensions }).fits(),
    ensures
        final(target).extent() == old(target).extent(),
        forall|x: i32, y: i32| #[trigger] final(target).holds(x, y) == old(target).holds(x, y),
        shows_text(old(target), final(target), rendered@, dimensions, position),
        drawn_within(old(target), final(target), Rectangle { position, dimensions }),
{
    let image: Vec<Pixel> = text_image(rendered, dimensions, position);
    draw_inside(target, image.as_slice(), Ghost(Rectangle { position, dimensions }));
}

/// The size that a text of `rendered` pixels takes with `padding` around it.
pub open spec fn padded_extent(rendered: Rendering, padding: Padding) -> Dimensions {
    Dimensions {
        width: crate::gui::geometry::clamped_sum(rendered.width, padding.spec_total_horizontal()),
        height: crate::gui::geometry::clamped_sum(rendered.height, padding.spec_total_vertical()),
    }
}

/// The size that a text of `rendered` pixels takes with `padding` around it.
pub fn natural_dimensions(rendered: &RenderedText, padding: Padding) -> (natural: Dimensions)
    ensures
        natural == padded_extent(rendered@, padding),
{
    Dimensions::new(
        rendered.width.saturating_add(padding.total_horizontal()),
        rendered.height.saturating_add(padding.total_vertical()),
    )
}

/// A line of text. What it shows can be replaced from outside through its
/// reactive property; the replacement is taken over at the next heartbeat.
pub struct Text<T> {
    text: String,
    font_size: usize,
    command_channel: Option<CommandSender<T>>,
    padding: Padding,
    font_kind: FontKind,
    text_property: ReactiveProperty<String>,
    source: Option<StatusField>,
    bounding_box: Option<Rectangle>,
}

/// Whether a text showing `shown` has something new to show once `pending`
/// was written to its property.
pub open spec fn text_changes(shown: Seq<char>, pending: Option<String>) -> bool {
    pending matches Some(text) && text@ != shown
}

impl<T> Text<T> {
    /// The characters that the text shows.
    pub closed spec fn shown(&self) -> Seq<char> {
        self.text@
    }

    /// What was written to the property of the text and not yet taken over.
    pub closed spec fn pending(&self) -> Option<String> {
        self.text_property@
    }

    /// The font size in pixels.
    pub closed spec fn font_size(&self) -> usize {
        self.font_size
    }

    /// The font that the text is drawn in.
    pub closed spec fn font_kind(&self) -> FontKind {
        self.font_kind
    }

    /// The space kept free around the text.
    pub closed spec fn padding(&self) -> Padding {
        self.padding
    }

    /// Whether the text holds the command channel.
    pub closed spec fn has_channel(&self) -> bool {
        self.command_channel.is_some()
    }

    /// The part of the playback status that the text follows, if any.
    pub closed spec fn source(&self) -> Option<StatusField> {
        self.source
    }

    /// The region that the text had inside its padding when it was last
    /// rendered.
    pub closed spec fn last_box(&self) -> Option<Rectangle> {
        self.bounding_box
    }

    /// Whether `self` is `before` but for what it shows and what is pending.
    pub open spec fn same_setup(&self, before: &Text<T>) -> bool {
        &&& self.font_size() == before.font_size()
        &&& self.font_kind() == before.font_kind()
        &&& self.padding() == before.padding()
        &&& self.source() == before.source()
        &&& self.has_channel() == before.has_channel()
        &&& self.last_box() == before.last_box()
    }

    /// A text that shows `text` in the font of `font_kind` at `font_size`
    /// pixels, inside `padding`.
    pub fn new(
        text: String,
        font_size: usize,
        font_kind: FontKind,
        padding: Padding,
    ) -> (control: Self)
        ensures
            control.shown() == text@,
            control.pending() is None,
            control.font_size() == font_size,
            control.font_kind() == font_kind,
            control.padding() == padding,
            control.source() is None,
            !control.has_channel(),
            control.last_box() is None,
    {
        Self {
            text,
            font_size,
            command_channel: None,
            padding,
            font_kind,
            text_property: ReactiveProperty::new(),
            source: None,
            bounding_box: None,
        }
    }

    /// Makes the text follow `field` of the playback status.
    pub fn follow(&mut self, field: StatusField)
        ensures
            final(self).source() == Some(field),
            final(self).shown() == old(self).shown(),
            final(self).pending() == old(self).pending(),
            final(self).font_size() == old(self).font_size(),
            final(self).font_kind() == old(self).font_kind(),
            final(self).padding() == old(self).padding(),
            final(self).has_channel() == old(self).has_channel(),
            final(self).last_box() == old(self).last_box(),
    {
        self.source = Some(field);
    }

    /// The property through which the text is replaced from outside.
    pub fn text(&mut self) -> (property: &mut ReactiveProperty<String>)
        ensures
            property@ == old(self).pending(),
            final(self).pending() == final(property)@,
            final(self).shown() == old(self).shown(),
            final(self).same_setup(old(self)),
    {
        &mut self.text_property
    }

    /// The region that the text had inside its padding when it was last
    /// rendered.
    pub fn recorded_box(&self) -> (recorded: Option<Rectangle>)
        ensures
            recorded == self.last_box(),
    {
        self.bounding_box
    }

    /// The characters that the text shows.
    pub fn content(&self) -> (text: &String)
        ensures
            text@ == self.shown(),
    {
        &self.text
    }

    /// The text as pixels, as `fonts` rasterize what it shows.
    pub open spec fn rendering_with(&self, fonts: &Fonts) -> Rendering {
        text_rendering(fonts, self.shown(), self.font_size(), self.font_kind())
    }

    /// The font size as the rasterizer takes it.
    fn pixel_size(&self) -> (size: u16)
        ensures
            size == pixel_size_of(self.font_size()),
    {
        if self.font_size > u16::MAX as usize {
            u16::MAX
        } else {
            self.font_size as u16
        }
    }

    /// The text as pixels, as the fonts rasterize it.
    fn rendered(&self, fonts: &Fonts) -> (rendered: RenderedText)
        ensures
            rendered@ == self.rendering_with(fonts),
    {
        let glyphs: Vec<GlyphBitmap> = fonts.rasterize(
            self.text.as_str(),
            self.pixel_size(),
            self.font_kind,
        );
        render_text(&glyphs)
    }
}

/// Without a glyph a text has no pixels and no extent.
pub proof fn lemma_no_glyphs_no_pixels()
    ensures
        rendering(Seq::empty()) == (Rendering { pixels: Seq::empty(), width: 0, height: 0 }),
{
}

/// A text without pixels draws nothing.
pub proof fn lemma_nothing_to_draw(rendered: Rendering, dimensions: Dimensions, position: Point)
    requires
        rendered.pixels.len() == 0,
    ensures
        text_image_pixels(rendered, dimensions, position) == Seq::<Pixel>::empty(),
{
}

impl<T: DrawTarget> Control<T> for Text<T> {
    open spec fn wf(&self) -> bool {
        true
    }

    open spec fn bound(&self) -> bool {
        self.has_channel()
    }

    open spec fn bounding_box(&self) -> Option<Rectangle> {
        self.last_box()
    }

    open spec fn structure(&self) -> Structure {
        Structure::Text {
            label: self.shown(),
            pending: match self.pending() {
                Some(text) => Some(text@),
                None => None,
            },
            font_size: self.font_size(),
            font_kind: self.font_kind(),
            padding: self.padding(),
            source: self.source(),
        }
    }

    /// A touch changes nothing of what the control is made of.
    open spec fn touched(&self, point: Point) -> Structure {
        self.structure()
    }

    /// A text speaks up at a heartbeat, when something other than what it
    /// shows is pending and it holds the channel: then it asks to be redrawn.
    open spec fn emitted(&self, event: Event) -> Seq<ControlSignal> {
        if event is Heartbeat && self.has_channel() && text_changes(self.shown(), self.pending()) {
            seq![ControlSignal::Redraw]
        } else {
            Seq::empty()
        }
    }

    fn register_command_channel(&mut self, tx: CommandSender<T>)
        ensures
            final(self).pending() == old(self).pending(),
    {
        self.command_channel = Some(tx);
    }

    /// A text that follows a field of the playback status gets what the
    /// status says there written to its property.
    fn on_status(&mut self, status: &PlaybackStatus)
        ensures
            final(self).same_setup(old(self)),
            final(self).shown() == old(self).shown(),
            final(self).pending() == match old(self).source() {
                Some(field) => written(old(self).pending(), field.spec_of(status)),
                None => old(self).pending(),
            },
    {
        match self.source {
            Some(field) => {
                self.text_property.send(field.of(status));
            },
            None => {},
        }
    }

    /// The size of the text as the fonts rasterize it, with the padding
    /// around it. An empty text, and any text whose font is missing, is as
    /// large as its padding.
    fn compute_natural_dimensions(&mut self, fonts: &Fonts) -> (natural: Dimensions)
        ensures
            final(self).shown() == old(self).shown(),
            final(self).pending() == old(self).pending(),
            final(self).same_setup(old(self)),
            natural == padded_extent(old(self).rendering_with(fonts), old(self).padding()),
            old(self).shown().len() == 0 || Fonts::spec_index_of(old(self).font_kind())
                >= fonts.count() ==> natural == (Dimensions {
                width: old(self).padding().spec_total_horizontal(),
                height: old(self).padding().spec_total_vertical(),
            }),
    {
        let rendered: RenderedText = self.rendered(fonts);
        proof {
            lemma_no_glyphs_no_pixels();
        }
        natural_dimensions(&rendered, self.padding)
    }

    /// Draws the text, as the fonts rasterize it, centred in the region that
    /// the padding leaves, and records that region. Of an empty text, and of
    /// any text whose font is missing, nothing is drawn.
    fn render(&mut self, target: &mut T, dimensions: Dimensions, position: Point, fonts: &Fonts)
        ensures
            final(self).pending() == old(self).pending(),
            final(self).shown() == old(self).shown(),
            final(self).last_box() == Some(
                Rectangle {
                    position: old(self).padding().spec_adjust_position(position),
                    dimensions: old(self).padding().spec_adjust_dimensions(dimensions),
                },
            ),
            shows_text(
                old(target),
                final(target),
                old(self).rendering_with(fonts),
                old(self).padding().spec_adjust_dimensions(dimensions),
                old(self).padding().spec_adjust_position(position),
            ),
            old(self).shown().len() == 0 || Fonts::spec_index_of(old(self).font_kind())
                >= fonts.count() ==> forall|x: i32, y: i32| #[trigger]
                final(target).color_at(x, y) == old(target).color_at(x, y),
    {
        let inner_dimensions: Dimensions = self.padding.adjust_dimensions(dimensions);
        let inner_position: Point = self.padding.adjust_position(position);
        proof {
            self.padding.lemma_adjusted_region_is_enclosed(position, dimensions);
        }
        let rendered: RenderedText = self.rendered(fonts);
        let ghost before = *target;
        draw_text(target, &rendered, inner_dimensions, inner_position);
        proof {
            lemma_no_glyphs_no_pixels();
            if rendered@.pixels.len() == 0 {
                lemma_nothing_to_draw(rendered@, inner_dimensions, inner_position);
            }
            let inner = Rectangle { position: inner_position, dimensions: inner_dimensions };
            lemma_drawn_within_chain(
                &before,
                &before,
                target,
                inner,
                inner,
                Rectangle { position, dimensions },
            );
        }
        self.bounding_box = Some(Rectangle::new(inner_position, inner_dimensions));
    }

    /// At a heartbeat the text takes over what is pending in its property.
    fn on_event(&mut self, event: Event) -> (signals: Vec<ControlSignal>)
        ensures
            final(self).same_setup(old(self)),
            event is Touch ==> final(self).shown() == old(self).shown() && final(self).pending()
                == old(self).pending(),
            event is Heartbeat ==> final(self).pending() is None && final(self).shown() == (
            if text_changes(old(self).shown(), old(self).pending()) {
                old(self).pending()->Some_0@
            } else {
                old(self).shown()
            }),
    {
        let mut signals: Vec<ControlSignal> = Vec::new();
        match event {
            Event::Touch(_) => {},
            Event::Heartbeat => {
                let mut redraw: bool = false;
                if let Some(text) = self.text_property.latest_value() {
                    if !(text == self.text) {
                        self.text = text;
                        redraw = true;
                    }
                }
                if redraw && self.command_channel.is_some() {
                    signals.push(ControlSignal::Redraw);
                }
            },
        }
        proof {
            assert(signals@ =~= old(self).emitted(event));
        }
        signals
    }
}

impl<T: DrawTarget + 'static> Text<T> {
    /// The text as a control of any kind.
    pub fn boxed(self) -> (widget: Widget<T>)
        ensures
            widget.control.wf(),
            widget.control.bound() == self.has_channel(),
            widget.control.bounding_box() == self.last_box(),
            widget.control.structure() == self.structure(),
            forall|event: Event| #[trigger] widget.control.emitted(event) == self.emitted(event),
    {
        Widget { control: Box::new(self) }
    }
}

} // verus!
