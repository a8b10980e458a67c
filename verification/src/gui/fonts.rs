use fontdue::layout::{CoordinateSystem, Layout, TextStyle};
use fontdue::Font;
use vstd::prelude::*;

verus! {

/// `Font` of fontdue: a font as loaded, carried through as it is.
#[verifier::external_type_specification]
#[verifier::external_body]
pub struct ExFont(Font);

/// The use that a font is put to.
#[derive(Clone, Copy, PartialEq, Eq, Structural, Debug)]
pub enum FontKind {
    MainText,
    Emoji,
}

/// The fonts that text is drawn with: the one for main text first, the one
/// for emoji second.
pub struct Fonts {
    fonts: Vec<Font>,
}

/// Where the layout puts one character of a text: the top left corner of its
/// bitmap, counted from the top left corner of the text.
pub struct GlyphPlacement {
    pub character: char,
    pub x: usize,
    pub y: usize,
}

/// One character of a text, placed and rasterized: the top left corner of its
/// bitmap, the width of a row of the bitmap, and the coverage of each of its
/// pixels, row after row.
pub struct GlyphBitmap {
    pub x: usize,
    pub y: usize,
    pub width: usize,
    pub coverage: Vec<u8>,
}

/// What a placed and rasterized character holds.
pub struct Glyph {
    pub x: usize,
    pub y: usize,
    pub width: usize,
    pub coverage: Seq<u8>,
}

impl View for GlyphBitmap {
    type V = Glyph;

    open spec fn view(&self) -> Glyph {
        Glyph { x: self.x, y: self.y, width: self.width, coverage: self.coverage@ }
    }
}

/// What each of `glyphs` holds, in their order.
pub open spec fn glyph_views(glyphs: Seq<GlyphBitmap>) -> Seq<Glyph> {
    Seq::new(glyphs.len(), |i: int| glyphs[i]@)
}

/// Where the layout of fontdue puts the characters of `text`, laid out in
/// one style in the font at `font_index` at `font_size` pixels: the result of
/// `Layout::append` on a fresh layout whose vertical axis points down.
pub uninterp spec fn placed(
    fonts: Seq<Font>,
    font_index: usize,
    text: Seq<char>,
    font_size: u16,
) -> Seq<GlyphPlacement>;

/// The width and the coverage of the bitmap that `Font::rasterize` of
/// fontdue gives for `character` at `font_size` pixels. The crate is built
/// without the vector instructions of fontdue, so that every machine computes
/// the bitmap with the same arithmetic.
pub uninterp spec fn rasterized(font: Font, character: char, font_size: u16) -> (usize, Seq<u8>);

impl Fonts {
    /// The fonts, in the order of their kinds.
    pub closed spec fn fonts(&self) -> Seq<Font> {
        self.fonts@
    }

    /// How many fonts there are.
    pub open spec fn count(&self) -> nat {
        self.fonts().len()
    }

    /// The glyphs of `text` in the font of `kind` at `font_size` pixels: one
    /// for each character that the layout places, at the corner where the
    /// layout puts it, with the bitmap that the font rasterizes for it. An
    /// empty text has no glyphs, and no text has any where the font is
    /// missing.
    pub open spec fn glyphs_of(
        &self,
        text: Seq<char>,
        font_size: u16,
        kind: FontKind,
    ) -> Seq<Glyph> {
        let index = Self::spec_index_of(kind);
        if text.len() == 0 || index >= self.count() {
            Seq::empty()
        } else {
            let places = placed(self.fonts(), index, text, font_size);
            Seq::new(
                places.len(),
                |i: int|
                    Glyph {
                        x: places[i].x,
                        y: places[i].y,
                        width: rasterized(
                            self.fonts()[index as int],
                            places[i].character,
                            font_size,
                        ).0,
                        coverage: rasterized(
                            self.fonts()[index as int],
                            places[i].character,
                            font_size,
                        ).1,
                    },
            )
        }
    }

    /// The place of the font of a kind among the fonts.
    pub open spec fn spec_index_of(kind: FontKind) -> usize {
        match kind {
            FontKind::MainText => 0,
            FontKind::Emoji => 1,
        }
    }

    /// The fonts in the order of their kinds.
    pub fn new(fonts: Vec<Font>) -> (all: Self)
        ensures
            all.fonts() == fonts@,
    {
        Fonts { fonts }
    }

    /// The fonts, in the order of their kinds.
    pub fn all(&self) -> (fonts: &Vec<Font>)
        ensures
            fonts@ == self.fonts(),
    {
        &self.fonts
    }

    /// The place of the font of a kind among the fonts.
    #[verifier::when_used_as_spec(spec_index_of)]
    pub fn index_of(kind: FontKind) -> (index: usize)
        ensures
            index == Self::spec_index_of(kind),
    {
        match kind {
            FontKind::MainText => 0,
            FontKind::Emoji => 1,
        }
    }

    /// Lays `text` out in the font of `kind` at `font_size` pixels and
    /// rasterizes each of its glyphs. Where that font is missing, or the text
    /// is empty, there are no glyphs.
    pub fn rasterize(
        &self,
        text: &str,
        font_size: u16,
        kind: FontKind,
    ) -> (glyphs: Vec<GlyphBitmap>)
        ensures
            glyph_views(glyphs@) == self.glyphs_of(text@, font_size, kind),
    {
        let index: usize = Self::index_of(kind);
        let mut glyphs: Vec<GlyphBitmap> = Vec::new();
        if text.is_empty() || index >= self.fonts.len() {
            proof {
                assert(glyph_views(glyphs@) =~= self.glyphs_of(text@, font_size, kind));
            }
            return glyphs;
        }
        let placements: Vec<GlyphPlacement> = layout_text(&self.fonts, index, text, font_size);
        let mut i: usize = 0;
        while i < placements.len()
            invariant
                i <= placements.len(),
                index < self.fonts@.len(),
                index == Self::spec_index_of(kind),
                text@.len() > 0,
                placements@ == placed(self.fonts(), index, text@, font_size),
                glyphs@.len() == i,
                forall|j: int|
                    0 <= j < i ==> (#[trigger] glyphs@[j])@ == self.glyphs_of(
                        text@,
                        font_size,
                        kind,
                    )[j],
            decreases placements.len() - i,
        {
            let (width, coverage) = rasterize_character(
                &self.fonts[index],
                placements[i].character,
                font_size,
            );
            glyphs.push(GlyphBitmap { x: placements[i].x, y: placements[i].y, width, coverage });
            i += 1;
        }
        proof {
            assert(glyph_views(glyphs@) =~= self.glyphs_of(text@, font_size, kind));
        }
        glyphs
    }
}

/// `Layout::append` of fontdue, on a fresh layout whose vertical axis points
/// down, with the text in one style; then `Layout::glyphs`. For each glyph
/// the character it stands for and the corner of its bitmap are handed out,
/// the corner in whole pixels, a negative one as zero. The result is what
/// `placed` names: it depends on the fonts, the text and the size alone. The
/// font at `font_index` has to be there unless the text is empty.
#[verifier::external_body]
fn layout_text(fonts: &Vec<Font>, font_index: usize, text: &str, font_size: u16) -> (placements:
    Vec<GlyphPlacement>)
    requires
        text@.len() == 0 || font_index < fonts@.len(),
    ensures
        placements@ == placed(fonts@, font_index, text@, font_size),
{
    let mut layout: Layout = Layout::new(CoordinateSystem::PositiveYDown);
    layout.append(fonts.as_slice(), &TextStyle::new(text, font_size.into(), font_index));
    layout.glyphs().iter().map(
        |glyph| GlyphPlacement {
            character: glyph.parent,
            x: glyph.x as usize,
            y: glyph.y as usize,
        },
    ).collect()
}

/// `Font::rasterize` of fontdue: the width of the bitmap of `character` at
/// `font_size` pixels and the coverage of each of its pixels. The result is
/// what `rasterized` names: it depends on the font, the character and the
/// size alone.
#[verifier::external_body]
fn rasterize_character(font: &Font, character: char, font_size: u16) -> (bitmap: (usize, Vec<u8>))
    ensures
        bitmap.0 == rasterized(*font, character, font_size).0,
        bitmap.1@ == rasterized(*font, character, font_size).1,
{
    let (metrics, coverage) = font.rasterize(character, font_size.into());
    (metrics.width, coverage)
}

} // verus!
