use vstd::prelude::*;

use crate::map2d::Map2dView;
use crate::misc::{ICoord, Misc, half_toward_zero};
use crate::palette::{PaletteColor, TileColor, palette_rgba};
use crate::rich_text::{RichTextError, item_at, parse_from};
use crate::widgets::rich_text_writer::lemma_stripped_len_bound;
use crate::tile::{TileLayout, TileSize, TileStyle};
use crate::widgets::rich_text_writer::{
    GlyphWrite, RichTextWriter, TextFormat, glyph_write, plain_writes, stripped_len_of,
};

verus! {

/// Positions for text along a frame.
#[derive(Clone, Copy, Debug, PartialEq, Eq, Structural)]
pub enum FrameTextPosition {
    /// Top of the frame, left-aligned.
    TopLeft,
    /// Top of the frame, right-aligned.
    TopRight,
    /// Bottom of the frame, left-aligned.
    BottomLeft,
    /// Bottom of the frame, right-aligned.
    BottomRight,
}

/// The styles of a frame's border.
#[derive(Clone, Copy, Debug, PartialEq, Eq, Structural)]
pub enum FrameStyle {
    /// A fancy border with the appearance of a chain with square corners. Works best with odd
    /// length edges.
    Fancy,
    /// A broken, single line border.
    Line,
    /// A broken, single line border with blocks for corners.
    LineBlockCorner,
    /// A broken, double line border.
    DoubleLine,
    /// A broken, double line border with blocks for corners.
    DoubleLineBlockCorner,
    /// A border of number signs (#).
    Simple,
    /// A thick, solid border.
    System,
}

/// The transparent white that tiles default to.
pub open spec fn transparent() -> TileColor {
    TileColor { r: 255, g: 255, b: 255, a: 0 }
}

/// The format of a border tile: bold, normal size, not outlined, white on transparent (or, for a
/// solid tile, transparent on white), with a transparent outline.
pub open spec fn border_format(layout: TileLayout, solid: bool) -> TextFormat {
    TextFormat {
        layout: Some(layout),
        style: Some(TileStyle::Bold),
        size: Some(TileSize::Normal),
        outlined: Some(false),
        foreground_color: Some(if solid { transparent() } else { palette_rgba(PaletteColor::White) }),
        background_color: Some(if solid { palette_rgba(PaletteColor::White) } else { transparent() }),
        outline_color: Some(transparent()),
    }
}

/// The format of text along a frame: text layout, nothing else changed.
pub open spec fn frame_text_format() -> TextFormat {
    TextFormat {
        layout: Some(TileLayout::Text),
        style: None,
        size: None,
        outlined: None,
        foreground_color: None,
        background_color: None,
        outline_color: None,
    }
}

/// The corner tiles of a frame at `o` around an inner area of `d`: top-left, top-right,
/// bottom-right, bottom-left.
pub open spec fn corner_writes(o: ICoord, d: ICoord, tl: char, tr: char, br: char, bl: char, layout: TileLayout, solid: bool) -> Seq<GlyphWrite> {
    let f = border_format(layout, solid);
    let r = o.0 + d.0 + 1;
    let b = o.1 + d.1 + 1;
    seq![
        glyph_write(o.0 as int, o.1 as int, tl, f),
        glyph_write(r, o.1 as int, tr, f),
        glyph_write(r, b, br, f),
        glyph_write(o.0 as int, b, bl, f),
    ]
}

/// The first `n` columns of the top and bottom edges, each column's top tile then its bottom
/// tile; even columns (counting from 0) get `even`, odd ones `odd`.
pub open spec fn horizontal_writes(o: ICoord, d: ICoord, n: int, even: char, odd: char, layout: TileLayout, solid: bool) -> Seq<GlyphWrite>
    decreases n,
{
    if n <= 0 {
        Seq::empty()
    } else {
        let k = n - 1;
        let x = o.0 + 1 + k;
        let g = if k % 2 == 0 {
            even
        } else {
            odd
        };
        let f = border_format(layout, solid);
        horizontal_writes(o, d, n - 1, even, odd, layout, solid).push(
            glyph_write(x, o.1 as int, g, f),
        ).push(glyph_write(x, o.1 + d.1 + 1, g, f))
    }
}

/// The first `n` rows of the left and right edges, each row's left tile then its right tile;
/// even rows (counting from 0) get `even`, odd ones `odd`.
pub open spec fn vertical_writes(o: ICoord, d: ICoord, n: int, even: char, odd: char, layout: TileLayout, solid: bool) -> Seq<GlyphWrite>
    decreases n,
{
    if n <= 0 {
        Seq::empty()
    } else {
        let k = n - 1;
        let y = o.1 + 1 + k;
        let g = if k % 2 == 0 {
            even
        } else {
            odd
        };
        let f = border_format(layout, solid);
        vertical_writes(o, d, n - 1, even, odd, layout, solid).push(
            glyph_write(o.0 as int, y, g, f),
        ).push(glyph_write(o.0 + d.0 + 1, y, g, f))
    }
}

/// A whole border: corners, then the top and bottom edges, then the left and right edges.
pub open spec fn box_writes(o: ICoord, d: ICoord, c: (char, char, char, char), h: (char, char), v: (char, char), corner_layout: TileLayout, edge_layout: TileLayout, solid: bool) -> Seq<GlyphWrite> {
    corner_writes(o, d, c.0, c.1, c.2, c.3, corner_layout, solid) + horizontal_writes(
        o,
        d,
        d.0 as int,
        h.0,
        h.1,
        edge_layout,
        solid,
    ) + vertical_writes(o, d, d.1 as int, v.0, v.1, edge_layout, solid)
}

/// The block corners drawn over the fancy border and the block-corner styles.
pub open spec fn block_corners(o: ICoord, d: ICoord) -> Seq<GlyphWrite> {
    corner_writes(o, d, '\u{25A0}', '\u{25A0}', '\u{25A0}', '\u{25A0}', TileLayout::Text, false)
}

/// The tiles a frame's border writes, in order, for each style.
pub open spec fn border_writes(style: FrameStyle, o: ICoord, d: ICoord) -> Seq<GlyphWrite> {
    let line = box_writes(
        o,
        d,
        ('\u{250C}', '\u{2510}', '\u{2518}', '\u{2514}'),
        ('\u{2500}', '\u{2500}'),
        ('\u{2502}', '\u{2502}'),
        TileLayout::Text,
        TileLayout::Text,
        false,
    );
    let double = box_writes(
        o,
        d,
        ('\u{2554}', '\u{2557}', '\u{255D}', '\u{255A}'),
        ('\u{2550}', '\u{2550}'),
        ('\u{2551}', '\u{2551}'),
        TileLayout::Text,
        TileLayout::Text,
        false,
    );
    match style {
        FrameStyle::Fancy => box_writes(
            o,
            d,
            ('\u{25A0}', '\u{25A0}', '\u{25A0}', '\u{25A0}'),
            ('\u{2550}', '\u{2500}'),
            ('\u{2551}', '\u{2502}'),
            TileLayout::Text,
            TileLayout::Center,
            false,
        ),
        FrameStyle::Line => line,
        FrameStyle::LineBlockCorner => line + block_corners(o, d),
        FrameStyle::DoubleLine => double,
        FrameStyle::DoubleLineBlockCorner => double + block_corners(o, d),
        FrameStyle::Simple => box_writes(o, d, ('#', '#', '#', '#'), ('#', '#'), ('#', '#'), TileLayout::Center, TileLayout::Center, false),
        FrameStyle::System => box_writes(o, d, (' ', ' ', ' ', ' '), (' ', ' '), (' ', ' '), TileLayout::Center, TileLayout::Center, true),
    }
}

/// The writes of optional plain text starting at `(x, y)`, in the frame text format.
pub open spec fn left_text_writes(t: Option<String>, x: int, y: int, width: int) -> Seq<GlyphWrite> {
    match t {
        Some(s) => plain_writes(s@, s@.len() as int, x, y, width, frame_text_format()),
        None => Seq::empty(),
    }
}

/// The writes of optional text that ends at column `right`: it starts its stripped length
/// before `right`. `None` when the text cannot be parsed to find that length.
pub open spec fn right_text_writes(t: Option<String>, right: int, y: int, width: int) -> Option<Seq<GlyphWrite>> {
    match t {
        Some(s) => if item_at(s@, 0) is None {
            None
        } else {
            Some(
                plain_writes(
                    s@,
                    s@.len() as int,
                    right - stripped_len_of(parse_from(s@, 0)),
                    y,
                    width,
                    frame_text_format(),
                ),
            )
        },
        None => Some(Seq::empty()),
    }
}

/// What drawing a frame on a map of a width writes, in order: the border, the top-left text,
/// the top-right text, the bottom-left text and the bottom-right text; and whether it got
/// through. Drawing stops at right-aligned text that cannot be parsed.
pub open spec fn frame_draw(f: Frame, width: int) -> (Seq<GlyphWrite>, bool) {
    let o = f.origin;
    let d = f.inner_dimensions;
    let top = o.1 as int;
    let bottom = o.1 + d.1 + 1;
    let w1 = border_writes(f.style, o, d) + left_text_writes(f.top_left_text, o.0 + 2, top, width);
    match right_text_writes(f.top_right_text, o.0 + d.0, top, width) {
        None => (w1, false),
        Some(a) => {
            let w2 = w1 + a + left_text_writes(f.bottom_left_text, o.0 + 2, bottom, width);
            match right_text_writes(f.bottom_right_text, o.0 + d.0, bottom, width) {
                None => (w2, false),
                Some(b) => (w2 + b, true),
            }
        },
    }
}

/// Whether left-aligned text fits the machine range when written from `x` on row `y`.
pub open spec fn left_text_fits(t: Option<String>, x: int, y: int) -> bool {
    match t {
        Some(s) => x < i32::MAX && y + s@.len() <= i32::MAX,
        None => true,
    }
}

/// Whether right-aligned text fits the machine range when it ends at column `right` on row `y`.
pub open spec fn right_text_fits(t: Option<String>, right: int, y: int) -> bool {
    match t {
        Some(s) => {
            &&& s@.len() < usize::MAX - 8
            &&& s@.len() <= i32::MAX
            &&& i32::MIN <= right - s@.len()
            &&& right < i32::MAX
            &&& y + s@.len() <= i32::MAX
        },
        None => true,
    }
}

/// Whether a frame's border and text fit the machine range.
pub open spec fn frame_fits(f: Frame) -> bool {
    let o = f.origin;
    let d = f.inner_dimensions;
    &&& i32::MIN <= o.0 + d.0 + 1 <= i32::MAX
    &&& i32::MIN <= o.1 + d.1 + 1 <= i32::MAX
    &&& left_text_fits(f.top_left_text, o.0 + 2, o.1 as int)
    &&& right_text_fits(f.top_right_text, o.0 + d.0, o.1 as int)
    &&& left_text_fits(f.bottom_left_text, o.0 + 2, o.1 + d.1 + 1)
    &&& right_text_fits(f.bottom_right_text, o.0 + d.0, o.1 + d.1 + 1)
}

/// The glyph clears of the first `n` rows of column `x` inside a frame at `o`.
pub open spec fn clear_column(o: ICoord, x: int, n: int) -> Seq<GlyphWrite>
    decreases n,
{
    if n <= 0 {
        Seq::empty()
    } else {
        clear_column(o, x, n - 1).push(
            glyph_write(x, o.1 + 1 + (n - 1), ' ', crate::widgets::rich_text_writer::no_format()),
        )
    }
}

/// The glyph clears of the first `m` columns inside a frame at `o` around `d`, column by
/// column.
pub open spec fn clear_writes(o: ICoord, d: ICoord, m: int) -> Seq<GlyphWrite>
    decreases m,
{
    if m <= 0 {
        Seq::empty()
    } else {
        clear_writes(o, d, m - 1) + clear_column(o, o.0 + 1 + (m - 1), d.1 as int)
    }
}

/// Builds the format of a border tile.
fn make_border_format(layout: TileLayout, solid: bool) -> (r: TextFormat)
    ensures
        r == border_format(layout, solid),
{
    let white = PaletteColor::White.const_into();
    let clear = TileColor::transparent();
    TextFormat {
        layout: Some(layout),
        style: Some(TileStyle::Bold),
        size: Some(TileSize::Normal),
        outlined: Some(false),
        foreground_color: Some(if solid { clear } else { white }),
        background_color: Some(if solid { white } else { clear }),
        outline_color: Some(clear),
    }
}

/// Appends the corner tiles.
fn push_corners(out: &mut Vec<GlyphWrite>, o: ICoord, d: ICoord, c: (char, char, char, char), layout: TileLayout, solid: bool)
    requires
        i32::MIN <= o.0 + d.0 + 1 <= i32::MAX,
        i32::MIN <= o.1 + d.1 + 1 <= i32::MAX,
    ensures
        final(out)@ == old(out)@ + corner_writes(o, d, c.0, c.1, c.2, c.3, layout, solid),
{
    let f = make_border_format(layout, solid);
    let r = (o.0 as i64 + d.0 as i64 + 1) as i32;
    let b = (o.1 as i64 + d.1 as i64 + 1) as i32;
    out.push(GlyphWrite { x: o.0, y: o.1, glyph: c.0, format: f });
    out.push(GlyphWrite { x: r, y: o.1, glyph: c.1, format: f });
    out.push(GlyphWrite { x: r, y: b, glyph: c.2, format: f });
    out.push(GlyphWrite { x: o.0, y: b, glyph: c.3, format: f });
    assert(final(out)@ =~= old(out)@ + corner_writes(o, d, c.0, c.1, c.2, c.3, layout, solid));
}

/// Appends the top and bottom edges.
fn push_horizontals(out: &mut Vec<GlyphWrite>, o: ICoord, d: ICoord, even: char, odd: char, layout: TileLayout, solid: bool)
    requires
        i32::MIN <= o.0 + d.0 + 1 <= i32::MAX,
        i32::MIN <= o.1 + d.1 + 1 <= i32::MAX,
    ensures
        final(out)@ == old(out)@ + horizontal_writes(o, d, d.0 as int, even, odd, layout, solid),
{
    let f = make_border_format(layout, solid);
    let ghost base = out@;
    let mut k: i32 = 0;
    while k < d.0
        invariant
            i32::MIN <= o.0 + d.0 + 1 <= i32::MAX,
            i32::MIN <= o.1 + d.1 + 1 <= i32::MAX,
            0 <= k,
            k <= d.0 || k == 0,
            f == border_format(layout, solid),
            out@ == base + horizontal_writes(o, d, k as int, even, odd, layout, solid),
        decreases d.0 - k,
    {
        let x = o.0 + 1 + k;
        let g = if k % 2 == 0 {
            even
        } else {
            odd
        };
        let ghost before = out@;
        out.push(GlyphWrite { x, y: o.1, glyph: g, format: f });
        let b = (o.1 as i64 + d.1 as i64 + 1) as i32;
        out.push(GlyphWrite { x, y: b, glyph: g, format: f });
        proof {
            let gw1 = glyph_write(x as int, o.1 as int, g, f);
            let gw2 = glyph_write(x as int, o.1 + d.1 + 1, g, f);
            assert(horizontal_writes(o, d, k + 1, even, odd, layout, solid) == horizontal_writes(o, d, k as int, even, odd, layout, solid).push(gw1).push(gw2));
            assert(out@ =~= base + horizontal_writes(o, d, k + 1, even, odd, layout, solid));
        }
        k = k + 1;
    }
    proof {
        if d.0 <= 0 {
            assert(horizontal_writes(o, d, d.0 as int, even, odd, layout, solid) =~= Seq::<GlyphWrite>::empty());
            assert(out@ =~= base + horizontal_writes(o, d, d.0 as int, even, odd, layout, solid));
        }
    }
}

/// Appends the left and right edges.
fn push_verticals(out: &mut Vec<GlyphWrite>, o: ICoord, d: ICoord, even: char, odd: char, layout: TileLayout, solid: bool)
    requires
        i32::MIN <= o.0 + d.0 + 1 <= i32::MAX,
        i32::MIN <= o.1 + d.1 + 1 <= i32::MAX,
    ensures
        final(out)@ == old(out)@ + vertical_writes(o, d, d.1 as int, even, odd, layout, solid),
{
    let f = make_border_format(layout, solid);
    let ghost base = out@;
    let mut k: i32 = 0;
    while k < d.1
        invariant
            i32::MIN <= o.0 + d.0 + 1 <= i32::MAX,
            i32::MIN <= o.1 + d.1 + 1 <= i32::MAX,
            0 <= k,
            k <= d.1 || k == 0,
            f == border_format(layout, solid),
            out@ == base + vertical_writes(o, d, k as int, even, odd, layout, solid),
        decreases d.1 - k,
    {
        let y = o.1 + 1 + k;
        let g = if k % 2 == 0 {
            even
        } else {
            odd
        };
        out.push(GlyphWrite { x: o.0, y, glyph: g, format: f });
        let r = (o.0 as i64 + d.0 as i64 + 1) as i32;
        out.push(GlyphWrite { x: r, y, glyph: g, format: f });
        proof {
            let gw1 = glyph_write(o.0 as int, y as int, g, f);
            let gw2 = glyph_write(o.0 + d.0 + 1, y as int, g, f);
            assert(vertical_writes(o, d, k + 1, even, odd, layout, solid) == vertical_writes(o, d, k as int, even, odd, layout, solid).push(gw1).push(gw2));
            assert(out@ =~= base + vertical_writes(o, d, k + 1, even, odd, layout, solid));
        }
        k = k + 1;
    }
    proof {
        if d.1 <= 0 {
            assert(vertical_writes(o, d, d.1 as int, even, odd, layout, solid) =~= Seq::<GlyphWrite>::empty());
            assert(out@ =~= base + vertical_writes(o, d, d.1 as int, even, odd, layout, solid));
        }
    }
}

/// Appends a whole border.
fn push_box(out: &mut Vec<GlyphWrite>, o: ICoord, d: ICoord, c: (char, char, char, char), h: (char, char), v: (char, char), corner_layout: TileLayout, edge_layout: TileLayout, solid: bool)
    requires
        i32::MIN <= o.0 + d.0 + 1 <= i32::MAX,
        i32::MIN <= o.1 + d.1 + 1 <= i32::MAX,
    ensures
        final(out)@ == old(out)@ + box_writes(o, d, c, h, v, corner_layout, edge_layout, solid),
{
    push_corners(out, o, d, c, corner_layout, solid);
    push_horizontals(out, o, d, h.0, h.1, edge_layout, solid);
    push_verticals(out, o, d, v.0, v.1, edge_layout, solid);
    assert(out@ =~= old(out)@ + box_writes(o, d, c, h, v, corner_layout, edge_layout, solid));
}

/// A decorated rect, used by other widgets: a border around an inner area, with optional text
/// along the top and bottom edges.
pub struct Frame {
    /// Origin of the frame when drawing.
    pub origin: ICoord,
    /// Dimensions of the area inside the frame.
    pub inner_dimensions: ICoord,
    /// Style of the frame.
    pub style: FrameStyle,
    /// Optional top-left text.
    pub top_left_text: Option<String>,
    /// Optional top-right text.
    pub top_right_text: Option<String>,
    /// Optional bottom-left text.
    pub bottom_left_text: Option<String>,
    /// Optional bottom-right text.
    pub bottom_right_text: Option<String>,
}

impl Frame {
    /// Creates a new frame without text.
    pub fn new(origin: ICoord, inner_dimensions: ICoord, style: FrameStyle) -> (r: Self)
        ensures
            r.origin == origin,
            r.inner_dimensions == inner_dimensions,
            r.style == style,
            r.top_left_text is None,
            r.top_right_text is None,
            r.bottom_left_text is None,
            r.bottom_right_text is None,
    {
        Frame {
            origin,
            inner_dimensions,
            style,
            top_left_text: None,
            top_right_text: None,
            bottom_left_text: None,
            bottom_right_text: None,
        }
    }

    /// Returns the origin of the frame.
    pub fn origin(&self) -> (r: ICoord)
        ensures
            r == self.origin,
    {
        self.origin
    }

    /// Returns the width of the frame: the inner width and a border column on each side.
    pub fn width(&self) -> (r: i32)
        requires
            self.inner_dimensions.0 <= i32::MAX - 2,
        ensures
            r == self.inner_dimensions.0 + 2,
    {
        self.inner_dimensions.0 + 2
    }

    /// Returns the height of the frame: the inner height and a border row on each side.
    pub fn height(&self) -> (r: i32)
        requires
            self.inner_dimensions.1 <= i32::MAX - 2,
        ensures
            r == self.inner_dimensions.1 + 2,
    {
        self.inner_dimensions.1 + 2
    }

    /// Returns the dimensions of the area inside the frame.
    pub fn inner_dimensions(&self) -> (r: ICoord)
        ensures
            r == self.inner_dimensions,
    {
        self.inner_dimensions
    }

    /// Removes all of the frame's text.
    pub fn clear_text(&mut self)
        ensures
            final(self).origin == old(self).origin,
            final(self).inner_dimensions == old(self).inner_dimensions,
            final(self).style == old(self).style,
            final(self).top_left_text is None,
            final(self).top_right_text is None,
            final(self).bottom_left_text is None,
            final(self).bottom_right_text is None,
    {
        self.top_left_text = None;
        self.top_right_text = None;
        self.bottom_left_text = None;
        self.bottom_right_text = None;
    }

    /// Centers the frame, border included, within a 2d map.
    pub fn center<M: Map2dView>(&mut self, map: &M)
        requires
            map.map_valid(),
            old(self).inner_dimensions.0 <= i32::MAX - 2,
            old(self).inner_dimensions.1 <= i32::MAX - 2,
            i32::MIN <= map.spec_width() - (old(self).inner_dimensions.0 + 2) <= i32::MAX,
            i32::MIN <= map.spec_height() - (old(self).inner_dimensions.1 + 2) <= i32::MAX,
        ensures
            final(self).origin == (
                half_toward_zero(map.spec_width() - (old(self).inner_dimensions.0 + 2)) as i32,
                half_toward_zero(map.spec_height() - (old(self).inner_dimensions.1 + 2)) as i32,
            ),
            final(self).inner_dimensions == old(self).inner_dimensions,
            final(self).style == old(self).style,
            final(self).top_left_text == old(self).top_left_text,
            final(self).top_right_text == old(self).top_right_text,
            final(self).bottom_left_text == old(self).bottom_left_text,
            final(self).bottom_right_text == old(self).bottom_right_text,
    {
        let x = Misc::centered_origin(self.inner_dimensions.0 + 2, map.width());
        let y = Misc::centered_origin(self.inner_dimensions.1 + 2, map.height());
        self.origin = (x, y);
    }

    /// Appends the border of the frame's style.
    fn push_border(&self, out: &mut Vec<GlyphWrite>)
        requires
            frame_fits(*self),
        ensures
            final(out)@ == old(out)@ + border_writes(self.style, self.origin, self.inner_dimensions),
    {
        let o = self.origin;
        let d = self.inner_dimensions;
        let block = '\u{25A0}';
        match self.style {
            FrameStyle::Fancy => push_box(
                out,
                o,
                d,
                (block, block, block, block),
                ('\u{2550}', '\u{2500}'),
                ('\u{2551}', '\u{2502}'),
                TileLayout::Text,
                TileLayout::Center,
                false,
            ),
            FrameStyle::Line | FrameStyle::LineBlockCorner => {
                push_box(
                    out,
                    o,
                    d,
                    ('\u{250C}', '\u{2510}', '\u{2518}', '\u{2514}'),
                    ('\u{2500}', '\u{2500}'),
                    ('\u{2502}', '\u{2502}'),
                    TileLayout::Text,
                    TileLayout::Text,
                    false,
                );
                if self.style == FrameStyle::LineBlockCorner {
                    push_corners(out, o, d, (block, block, block, block), TileLayout::Text, false);
                    assert(out@ =~= old(out)@ + border_writes(self.style, o, d));
                }
            },
            FrameStyle::DoubleLine | FrameStyle::DoubleLineBlockCorner => {
                push_box(
                    out,
                    o,
                    d,
                    ('\u{2554}', '\u{2557}', '\u{255D}', '\u{255A}'),
                    ('\u{2550}', '\u{2550}'),
                    ('\u{2551}', '\u{2551}'),
                    TileLayout::Text,
                    TileLayout::Text,
                    false,
                );
                if self.style == FrameStyle::DoubleLineBlockCorner {
                    push_corners(out, o, d, (block, block, block, block), TileLayout::Text, false);
                    assert(out@ =~= old(out)@ + border_writes(self.style, o, d));
                }
            },
            FrameStyle::Simple => push_box(
                out,
                o,
                d,
                ('#', '#', '#', '#'),
                ('#', '#'),
                ('#', '#'),
                TileLayout::Center,
                TileLayout::Center,
                false,
            ),
            FrameStyle::System => push_box(
                out,
                o,
                d,
                (' ', ' ', ' ', ' '),
                (' ', ' '),
                (' ', ' '),
                TileLayout::Center,
                TileLayout::Center,
                true,
            ),
        }
    }

    /// Appends left-aligned text.
    fn push_left_text(out: &mut Vec<GlyphWrite>, t: &Option<String>, x: i32, y: i32, width: i32)
        requires
            left_text_fits(*t, x as int, y as int),
        ensures
            final(out)@ == old(out)@ + left_text_writes(*t, x as int, y as int, width as int),
    {
        match t {
            Some(s) => {
                let mut w = RichTextWriter::plain_glyph_writes(width, (x, y), s.as_str(), TextFormat {
                    layout: Some(TileLayout::Text),
                    style: None,
                    size: None,
                    outlined: None,
                    foreground_color: None,
                    background_color: None,
                    outline_color: None,
                });
                out.append(&mut w);
            },
            None => {
                assert(out@ =~= old(out)@ + left_text_writes(*t, x as int, y as int, width as int));
            },
        }
    }

    /// Appends text ending at column `right`, or fails when it cannot be parsed.
    fn push_right_text(out: &mut Vec<GlyphWrite>, t: &Option<String>, right: i32, y: i32, width: i32) -> (r: Result<(), RichTextError>)
        requires
            right_text_fits(*t, right as int, y as int),
        ensures
            match right_text_writes(*t, right as int, y as int, width as int) {
                Some(a) => r is Ok && final(out)@ == old(out)@ + a,
                None => r == Err::<(), RichTextError>(RichTextError::NothingParsed) && final(out)@ == old(out)@,
            },
    {
        match t {
            Some(s) => {
                let n = match RichTextWriter::stripped_len(s.as_str()) {
                    Ok(n) => n,
                    Err(e) => {
                        return Err(e);
                    },
                };
                proof {
                    lemma_stripped_len_bound(s@, 0);
                }
                let x = right - n as i32;
                let mut w = RichTextWriter::plain_glyph_writes(width, (x, y), s.as_str(), TextFormat {
                    layout: Some(TileLayout::Text),
                    style: None,
                    size: None,
                    outlined: None,
                    foreground_color: None,
                    background_color: None,
                    outline_color: None,
                });
                out.append(&mut w);
                Ok(())
            },
            None => {
                assert(out@ =~= old(out)@ + Seq::<GlyphWrite>::empty());
                Ok(())
            },
        }
    }

    /// What drawing the frame on a map of a width writes: its border, then its text, each left
    /// text two columns in from the left edge and each right text ending at the inner width.
    /// Drawing stops, with the error, at right-aligned text that cannot be parsed.
    pub fn draw_writes(&self, width: i32) -> (r: (Vec<GlyphWrite>, Result<(), RichTextError>))
        requires
            frame_fits(*self),
        ensures
            r.0@ == frame_draw(*self, width as int).0,
            r.1 is Ok == frame_draw(*self, width as int).1,
            r.1 is Err ==> r.1 == Err::<(), RichTextError>(RichTextError::NothingParsed),
    {
        let o = self.origin;
        let d = self.inner_dimensions;
        let mut out: Vec<GlyphWrite> = Vec::new();
        self.push_border(&mut out);
        let left = if o.0 < i32::MAX - 2 {
            o.0 + 2
        } else {
            i32::MAX
        };
        let r64 = o.0 as i64 + d.0 as i64;
        let right = if r64 < i32::MIN as i64 {
            i32::MIN
        } else {
            r64 as i32
        };
        let bottom = (o.1 as i64 + d.1 as i64 + 1) as i32;
        Self::push_left_text(&mut out, &self.top_left_text, left, o.1, width);
        let top_right = Self::push_right_text(&mut out, &self.top_right_text, right, o.1, width);
        if top_right.is_err() {
            assert(out@ =~= frame_draw(*self, width as int).0);
            return (out, top_right);
        }
        Self::push_left_text(&mut out, &self.bottom_left_text, left, bottom, width);
        let bottom_right = Self::push_right_text(&mut out, &self.bottom_right_text, right, bottom, width);
        assert(out@ =~= frame_draw(*self, width as int).0);
        (out, bottom_right)
    }

    /// The glyph clears of the area inside the frame, column by column: each tile's glyph
    /// becomes a space.
    pub fn inner_clear_writes(&self) -> (r: Vec<GlyphWrite>)
        requires
            i32::MIN <= self.origin.0 + self.inner_dimensions.0 + 1 <= i32::MAX,
            i32::MIN <= self.origin.1 + self.inner_dimensions.1 + 1 <= i32::MAX,
        ensures
            r@ == clear_writes(self.origin, self.inner_dimensions, self.inner_dimensions.0 as int),
    {
        let o = self.origin;
        let d = self.inner_dimensions;
        let none = TextFormat::none();
        let mut out: Vec<GlyphWrite> = Vec::new();
        let mut i: i32 = 0;
        while i < d.0
            invariant
                o == self.origin,
                d == self.inner_dimensions,
                i32::MIN <= o.0 + d.0 + 1 <= i32::MAX,
                i32::MIN <= o.1 + d.1 + 1 <= i32::MAX,
                0 <= i,
                i <= d.0 || i == 0,
                none == crate::widgets::rich_text_writer::no_format(),
                out@ == clear_writes(o, d, i as int),
            decreases d.0 - i,
        {
            let x = o.0 + 1 + i;
            let ghost before = out@;
            let mut j: i32 = 0;
            while j < d.1
                invariant
                    i32::MIN <= o.1 + d.1 + 1 <= i32::MAX,
                    0 <= j,
                    j <= d.1 || j == 0,
                    none == crate::widgets::rich_text_writer::no_format(),
                    out@ == before + clear_column(o, x as int, j as int),
                decreases d.1 - j,
            {
                let g = GlyphWrite { x, y: o.1 + 1 + j, glyph: ' ', format: none };
                assert(clear_column(o, x as int, j + 1) == clear_column(o, x as int, j as int).push(g));
                out.push(g);
                assert(out@ =~= before + clear_column(o, x as int, j + 1));
                j = j + 1;
            }
            proof {
                if d.1 <= 0 {
                    assert(clear_column(o, x as int, d.1 as int) =~= Seq::<GlyphWrite>::empty());
                }
                assert(clear_column(o, x as int, j as int) == clear_column(o, x as int, d.1 as int));
                assert(out@ =~= clear_writes(o, d, i + 1));
            }
            i = i + 1;
        }
        proof {
            if d.0 <= 0 {
                assert(clear_writes(o, d, d.0 as int) =~= Seq::<GlyphWrite>::empty());
            }
        }
        out
    }
}

} // verus!
