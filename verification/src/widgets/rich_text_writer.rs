use vstd::prelude::*;

use crate::misc::ICoord;
use crate::palette::{PaletteColor, TileColor, UnknownFormatHint, palette_from_hint, palette_rgba};
use crate::rich_text::{
    RichTextError, RichTextHintType, RichTextToken, RichTextValue, chars_of, item_at,
    lemma_item_progress, lemma_text_end, parse_from, parse_rich_text, text_end,
};
use crate::tile::{
    TileLayout, TileSize, TileStyle, tile_layout_from_hint, tile_size_from_hint,
    tile_style_from_hint,
};

verus! {

/// The formatting that a piece of text applies to the tiles it is written on: each property
/// that is set replaces that property of the tile, the others are left alone.
#[derive(Clone, Copy, Debug, PartialEq, Eq, Structural)]
pub struct TextFormat {
    /// Layout of the glyph.
    pub layout: Option<TileLayout>,
    /// Style of the glyph.
    pub style: Option<TileStyle>,
    /// Size of the glyph.
    pub size: Option<TileSize>,
    /// Whether the glyph is outlined.
    pub outlined: Option<bool>,
    /// Foreground color.
    pub foreground_color: Option<TileColor>,
    /// Background color.
    pub background_color: Option<TileColor>,
    /// Outline color.
    pub outline_color: Option<TileColor>,
}

/// The format that changes nothing but the glyph.
pub open spec fn no_format() -> TextFormat {
    TextFormat {
        layout: None,
        style: None,
        size: None,
        outlined: None,
        foreground_color: None,
        background_color: None,
        outline_color: None,
    }
}

impl TextFormat {
    /// The format that changes nothing but the glyph.
    pub fn none() -> (r: TextFormat)
        ensures
            r == no_format(),
    {
        TextFormat {
            layout: None,
            style: None,
            size: None,
            outlined: None,
            foreground_color: None,
            background_color: None,
            outline_color: None,
        }
    }
}

/// A glyph to write on the tile at a coord, with the format to apply to that tile.
#[derive(Clone, Copy, Debug, PartialEq, Eq, Structural)]
pub struct GlyphWrite {
    /// Column of the tile.
    pub x: i32,
    /// Row of the tile.
    pub y: i32,
    /// The glyph.
    pub glyph: char,
    /// The format to apply.
    pub format: TextFormat,
}

/// The error of writing rich text.
#[derive(Clone, Debug, PartialEq, Eq)]
pub enum RichTextWriteError {
    /// The rich text could not be parsed.
    Parse(RichTextError),
    /// A format hint's value names no layout, style, size, outline flag or color.
    UnknownHint(UnknownFormatHint),
}

/// The write of glyph `c` at `(x, y)` with format `f`.
pub open spec fn glyph_write(x: int, y: int, c: char, f: TextFormat) -> GlyphWrite {
    GlyphWrite { x: x as i32, y: y as i32, glyph: c, format: f }
}

/// The cursor position for the next glyph: the start of the next row once `x` reaches the width.
pub open spec fn wrapped(x: int, y: int, x0: int, width: int) -> (int, int) {
    if x >= width {
        (x0, y + 1)
    } else {
        (x, y)
    }
}

/// The cursor after writing the first `n` glyphs of a run from `(x, y)`, wrapping to column
/// `x0` of the next row at the width.
pub open spec fn run_cursor(t: Seq<char>, n: int, x: int, y: int, x0: int, width: int) -> (int, int)
    decreases n,
{
    if n <= 0 {
        (x, y)
    } else {
        let c = run_cursor(t, n - 1, x, y, x0, width);
        let w = wrapped(c.0, c.1, x0, width);
        (w.0 + 1, w.1)
    }
}

/// The writes of the first `n` glyphs of a run from `(x, y)`, all with format `f`.
pub open spec fn run_writes(t: Seq<char>, n: int, x: int, y: int, x0: int, width: int, f: TextFormat) -> Seq<GlyphWrite>
    decreases n,
{
    if n <= 0 {
        Seq::empty()
    } else {
        let c = run_cursor(t, n - 1, x, y, x0, width);
        let w = wrapped(c.0, c.1, x0, width);
        run_writes(t, n - 1, x, y, x0, width, f).push(glyph_write(w.0, w.1, t[n - 1], f))
    }
}

/// The cursor after writing the first `n` characters of plain text from `(x0, y0)`: a newline
/// moves to column `x0` of the next row, any other character is a glyph.
pub open spec fn plain_cursor(t: Seq<char>, n: int, x0: int, y0: int, width: int) -> (int, int)
    decreases n,
{
    if n <= 0 {
        (x0, y0)
    } else {
        let c = plain_cursor(t, n - 1, x0, y0, width);
        if t[n - 1] == '\n' {
            (x0, c.1 + 1)
        } else {
            let w = wrapped(c.0, c.1, x0, width);
            (w.0 + 1, w.1)
        }
    }
}

/// The writes of the first `n` characters of plain text from `(x0, y0)`, with format `f`.
pub open spec fn plain_writes(t: Seq<char>, n: int, x0: int, y0: int, width: int, f: TextFormat) -> Seq<GlyphWrite>
    decreases n,
{
    if n <= 0 {
        Seq::empty()
    } else {
        let prev = plain_writes(t, n - 1, x0, y0, width, f);
        let c = plain_cursor(t, n - 1, x0, y0, width);
        if t[n - 1] == '\n' {
            prev
        } else {
            let w = wrapped(c.0, c.1, x0, width);
            prev.push(glyph_write(w.0, w.1, t[n - 1], f))
        }
    }
}

/// The format after a hint, or `None` when the hint's value names nothing.
pub open spec fn apply_hint(f: TextFormat, key: RichTextHintType, v: Seq<char>) -> Option<TextFormat> {
    match key {
        RichTextHintType::Layout => match tile_layout_from_hint(v) {
            Some(l) => Some(TextFormat { layout: Some(l), ..f }),
            None => None,
        },
        RichTextHintType::Style => match tile_style_from_hint(v) {
            Some(s) => Some(TextFormat { style: Some(s), ..f }),
            None => None,
        },
        RichTextHintType::Size => match tile_size_from_hint(v) {
            Some(s) => Some(TextFormat { size: Some(s), ..f }),
            None => None,
        },
        RichTextHintType::Outlined => if v == seq!['t'] {
            Some(TextFormat { outlined: Some(true), ..f })
        } else if v == seq!['f'] {
            Some(TextFormat { outlined: Some(false), ..f })
        } else {
            None
        },
        RichTextHintType::ForegroundColor => match palette_from_hint(v) {
            Some(c) => Some(TextFormat { foreground_color: Some(palette_rgba(c)), ..f }),
            None => None,
        },
        RichTextHintType::BackgroundColor => match palette_from_hint(v) {
            Some(c) => Some(TextFormat { background_color: Some(palette_rgba(c)), ..f }),
            None => None,
        },
        RichTextHintType::OutlineColor => match palette_from_hint(v) {
            Some(c) => Some(TextFormat { outline_color: Some(palette_rgba(c)), ..f }),
            None => None,
        },
    }
}

/// The cursor and format after writing the first `n` values of parsed rich text from
/// `(x0, y0)`, or `None` once a hint named nothing.
pub open spec fn rich_state(ts: Seq<RichTextToken>, n: int, x0: int, y0: int, width: int) -> Option<(int, int, TextFormat)>
    decreases n,
{
    if n <= 0 {
        Some((x0, y0, no_format()))
    } else {
        match rich_state(ts, n - 1, x0, y0, width) {
            None => None,
            Some((x, y, f)) => match ts[n - 1] {
                RichTextToken::Hint(k, v) => match apply_hint(f, k, v) {
                    Some(g) => Some((x, y, g)),
                    None => None,
                },
                RichTextToken::Newline => Some((x0, y + 1, f)),
                RichTextToken::Text(t) => {
                    let c = run_cursor(t, t.len() as int, x, y, x0, width);
                    Some((c.0, c.1, f))
                },
            },
        }
    }
}

/// The writes of the first `n` values of parsed rich text from `(x0, y0)`.
pub open spec fn rich_writes(ts: Seq<RichTextToken>, n: int, x0: int, y0: int, width: int) -> Seq<GlyphWrite>
    decreases n,
{
    if n <= 0 {
        Seq::empty()
    } else {
        let prev = rich_writes(ts, n - 1, x0, y0, width);
        match rich_state(ts, n - 1, x0, y0, width) {
            None => prev,
            Some((x, y, f)) => match ts[n - 1] {
                RichTextToken::Text(t) => prev + run_writes(t, t.len() as int, x, y, x0, width, f),
                _ => prev,
            },
        }
    }
}

/// The value of the hint at which writing the first `n` values stopped, if it stopped.
pub open spec fn failed_hint(ts: Seq<RichTextToken>, n: int, x0: int, y0: int, width: int) -> Option<Seq<char>>
    decreases n,
{
    if n <= 0 {
        None
    } else if rich_state(ts, n - 1, x0, y0, width) is None {
        failed_hint(ts, n - 1, x0, y0, width)
    } else if rich_state(ts, n, x0, y0, width) is None {
        match ts[n - 1] {
            RichTextToken::Hint(_, v) => Some(v),
            _ => None,
        }
    } else {
        None
    }
}

/// The number of columns a parsed value takes when written: a text its length, a newline one,
/// a hint none.
pub open spec fn token_width(t: RichTextToken) -> nat {
    match t {
        RichTextToken::Text(s) => s.len(),
        RichTextToken::Newline => 1,
        RichTextToken::Hint(_, _) => 0,
    }
}

/// The length of parsed rich text without its format hints.
pub open spec fn stripped_len_of(ts: Seq<RichTextToken>) -> nat
    decreases ts.len(),
{
    if ts.len() == 0 {
        0
    } else {
        stripped_len_of(ts.drop_last()) + token_width(ts.last())
    }
}

/// The stripped length of two pieces is the sum of theirs.
proof fn lemma_stripped_len_concat(a: Seq<RichTextToken>, b: Seq<RichTextToken>)
    ensures
        stripped_len_of(a + b) == stripped_len_of(a) + stripped_len_of(b),
    decreases b.len(),
{
    if b.len() > 0 {
        assert((a + b).drop_last() =~= a + b.drop_last());
        lemma_stripped_len_concat(a, b.drop_last());
    } else {
        assert(a + b =~= a);
    }
}

/// The values parsed from `i` take no more columns than there are characters left.
pub proof fn lemma_stripped_len_bound(s: Seq<char>, i: int)
    requires
        0 <= i <= s.len(),
    ensures
        stripped_len_of(parse_from(s, i)) <= s.len() - i,
    decreases s.len() - i,
{
    lemma_item_progress(s, i);
    match item_at(s, i) {
        None => {},
        Some((t, e)) => {
            lemma_stripped_len_bound(s, e);
            assert(parse_from(s, i) == seq![t] + parse_from(s, e));
            lemma_stripped_len_concat(seq![t], parse_from(s, e));
            assert(seq![t].drop_last() =~= Seq::<RichTextToken>::empty());
            reveal_with_fuel(stripped_len_of, 2);
            assert(stripped_len_of(seq![t]) == token_width(t));
            lemma_text_end(s, i);
            assert(token_width(t) <= e - i);
        },
    }
}

/// Once a hint names nothing, writing stops: later values change neither the writes nor the
/// failed hint.
proof fn lemma_after_failure(ts: Seq<RichTextToken>, k: int, n: int, x0: int, y0: int, width: int)
    requires
        0 <= k <= n,
        rich_state(ts, k, x0, y0, width) is None,
    ensures
        rich_state(ts, n, x0, y0, width) is None,
        rich_writes(ts, n, x0, y0, width) == rich_writes(ts, k, x0, y0, width),
        failed_hint(ts, n, x0, y0, width) == failed_hint(ts, k, x0, y0, width),
    decreases n - k,
{
    if n > k {
        lemma_after_failure(ts, k, n - 1, x0, y0, width);
    }
}

/// Bounds of the cursor while writing a run.
proof fn lemma_run_cursor_bounds(t: Seq<char>, n: int, x: int, y: int, x0: int, width: int)
    requires
        0 <= n,
        x0 <= x,
        x <= x0 + 1 || x <= width,
    ensures
        x0 <= run_cursor(t, n, x, y, x0, width).0,
        run_cursor(t, n, x, y, x0, width).0 <= x0 + 1 || run_cursor(t, n, x, y, x0, width).0 <= width,
        y <= run_cursor(t, n, x, y, x0, width).1 <= y + n,
    decreases n,
{
    if n > 0 {
        lemma_run_cursor_bounds(t, n - 1, x, y, x0, width);
    }
}

/// Bounds of the cursor while writing plain text.
proof fn lemma_plain_cursor_bounds(t: Seq<char>, n: int, x0: int, y0: int, width: int)
    requires
        0 <= n,
    ensures
        x0 <= plain_cursor(t, n, x0, y0, width).0,
        plain_cursor(t, n, x0, y0, width).0 <= x0 + 1 || plain_cursor(t, n, x0, y0, width).0 <= width,
        y0 <= plain_cursor(t, n, x0, y0, width).1 <= y0 + n,
    decreases n,
{
    if n > 0 {
        lemma_plain_cursor_bounds(t, n - 1, x0, y0, width);
    }
}

/// The static API for laying out text on a grid of tiles.
pub struct RichTextWriter;

impl RichTextWriter {
    /// Returns the length of rich text without its format hints: the characters of its text
    /// plus one per newline.
    pub fn stripped_len(text: &str) -> (r: Result<usize, RichTextError>)
        requires
            text@.len() < usize::MAX - 8,
        ensures
            match r {
                Ok(n) => item_at(text@, 0) is Some && n == stripped_len_of(parse_from(text@, 0)),
                Err(e) => item_at(text@, 0) is None && e == RichTextError::NothingParsed,
            },
    {
        let parsed = match parse_rich_text(text) {
            Ok(p) => p,
            Err(_) => {
                return Err(RichTextError::NothingParsed);
            },
        };
        let ghost ts = parse_from(text@, 0);
        proof {
            lemma_stripped_len_bound(text@, 0);
        }
        let mut len: usize = 0;
        let mut i: usize = 0;
        while i < parsed.len()
            invariant
                parsed@.map_values(|v: RichTextValue| v@) == ts,
                ts == parse_from(text@, 0),
                stripped_len_of(ts) <= text@.len(),
                text@.len() < usize::MAX - 8,
                i <= parsed@.len(),
                len == stripped_len_of(ts.take(i as int)),
            decreases parsed@.len() - i,
        {
            proof {
                assert(ts.take(i as int + 1).drop_last() =~= ts.take(i as int));
                assert(ts.take(i as int + 1).last() == ts[i as int]);
                lemma_stripped_len_concat(ts.take(i as int + 1), ts.skip(i as int + 1));
                assert(ts.take(i as int + 1) + ts.skip(i as int + 1) =~= ts);
                assert(ts[i as int] == parsed@[i as int]@);
            }
            match &parsed[i] {
                RichTextValue::FormatHint { .. } => {},
                RichTextValue::Newline => {
                    assert(token_width(ts[i as int]) == 1);
                    len = len + 1;
                },
                RichTextValue::Text(t) => {
                    assert(token_width(ts[i as int]) == t@.len());
                    len = len + t.as_str().unicode_len();
                },
            }
            i = i + 1;
        }
        proof {
            assert(ts.take(i as int) =~= ts);
        }
        Ok(len)
    }

    /// Lays out plain text (no hints) from `xy`, wrapping to column `xy.0` of the next row at
    /// `width`; a newline moves to column `xy.0` of the next row. Every glyph gets `format`.
    pub fn plain_glyph_writes(width: i32, xy: ICoord, text: &str, format: TextFormat) -> (r: Vec<GlyphWrite>)
        requires
            xy.0 < i32::MAX,
            xy.1 + text@.len() <= i32::MAX,
        ensures
            r@ == plain_writes(text@, text@.len() as int, xy.0 as int, xy.1 as int, width as int, format),
    {
        let chars = chars_of(text);
        let mut out: Vec<GlyphWrite> = Vec::new();
        let mut x: i32 = xy.0;
        let mut y: i32 = xy.1;
        let mut i: usize = 0;
        while i < chars.len()
            invariant
                chars@ == text@,
                xy.0 < i32::MAX,
                xy.1 + text@.len() <= i32::MAX,
                i <= chars@.len(),
                (x as int, y as int) == plain_cursor(text@, i as int, xy.0 as int, xy.1 as int, width as int),
                out@ == plain_writes(text@, i as int, xy.0 as int, xy.1 as int, width as int, format),
            decreases chars@.len() - i,
        {
            proof {
                lemma_plain_cursor_bounds(text@, i as int, xy.0 as int, xy.1 as int, width as int);
            }
            let glyph = chars[i];
            if glyph == '\n' {
                x = xy.0;
                y = y + 1;
            } else {
                if x >= width {
                    x = xy.0;
                    y = y + 1;
                }
                out.push(GlyphWrite { x, y, glyph, format });
                x = x + 1;
            }
            i = i + 1;
        }
        out
    }

    /// Lays out rich text from `xy`, wrapping to column `xy.0` of the next row at `width`: hints
    /// change the format of the glyphs that follow them, newlines move to column `xy.0` of the
    /// next row. Stops at the first hint whose value names nothing and returns, beside the
    /// writes laid out before it, that error.
    pub fn rich_glyph_writes(width: i32, xy: ICoord, text: &str) -> (r: (Vec<GlyphWrite>, Result<(), RichTextWriteError>))
        requires
            text@.len() < usize::MAX - 8,
            xy.0 < i32::MAX,
            xy.1 + text@.len() <= i32::MAX,
        ensures
            item_at(text@, 0) is None ==> r.0@.len() == 0 && r.1 == Err::<(), RichTextWriteError>(
                RichTextWriteError::Parse(RichTextError::NothingParsed),
            ),
            item_at(text@, 0) is Some ==> {
                let ts = parse_from(text@, 0);
                let n = ts.len() as int;
                &&& r.0@ == rich_writes(ts, n, xy.0 as int, xy.1 as int, width as int)
                &&& (r.1 is Ok <==> rich_state(ts, n, xy.0 as int, xy.1 as int, width as int) is Some)
                &&& (r.1 matches Err(e) ==> e matches RichTextWriteError::UnknownHint(h) && failed_hint(
                    ts,
                    n,
                    xy.0 as int,
                    xy.1 as int,
                    width as int,
                ) == Some(h.hint@))
            },
    {
        let parsed = match parse_rich_text(text) {
            Ok(p) => p,
            Err(e) => {
                return (Vec::new(), Err(RichTextWriteError::Parse(e)));
            },
        };
        let ghost ts = parse_from(text@, 0);
        let ghost x0 = xy.0 as int;
        let ghost y0 = xy.1 as int;
        let ghost w = width as int;
        proof {
            lemma_stripped_len_bound(text@, 0);
        }
        let mut out: Vec<GlyphWrite> = Vec::new();
        let mut x: i32 = xy.0;
        let mut y: i32 = xy.1;
        let mut format = TextFormat::none();
        let mut i: usize = 0;
        while i < parsed.len()
            invariant
                parsed@.map_values(|v: RichTextValue| v@) == ts,
                ts == parse_from(text@, 0),
                stripped_len_of(ts) <= text@.len(),
                xy.0 < i32::MAX,
                xy.1 + text@.len() <= i32::MAX,
                x0 == xy.0,
                y0 == xy.1,
                w == width,
                i <= parsed@.len(),
                rich_state(ts, i as int, x0, y0, w) == Some((x as int, y as int, format)),
                out@ == rich_writes(ts, i as int, x0, y0, w),
                x0 <= x,
                x <= x0 + 1 || x <= w,
                y0 <= y <= y0 + stripped_len_of(ts.take(i as int)),
                failed_hint(ts, i as int, x0, y0, w) is None,
            decreases parsed@.len() - i,
        {
            proof {
                assert(ts.take(i as int + 1).drop_last() =~= ts.take(i as int));
                lemma_stripped_len_concat(ts.take(i as int + 1), ts.skip(i as int + 1));
                assert(ts.take(i as int + 1) + ts.skip(i as int + 1) =~= ts);
                assert(ts[i as int] == parsed@[i as int]@);
            }
            match &parsed[i] {
                RichTextValue::FormatHint { key, value } => {
                    match Self::apply_hint(format, *key, value.as_str()) {
                        Ok(f) => {
                            format = f;
                        },
                        Err(e) => {
                            proof {
                                lemma_after_failure(ts, i as int + 1, ts.len() as int, x0, y0, w);
                            }
                            return (out, Err(RichTextWriteError::UnknownHint(e)));
                        },
                    }
                },
                RichTextValue::Newline => {
                    x = xy.0;
                    y = y + 1;
                },
                RichTextValue::Text(t) => {
                    let glyphs = chars_of(t.as_str());
                    let ghost tv = glyphs@;
                    let ghost xs = x as int;
                    let ghost ys = y as int;
                    let ghost before = out@;
                    let mut j: usize = 0;
                    while j < glyphs.len()
                        invariant
                            glyphs@ == tv,
                            xy.0 < i32::MAX,
                            x0 == xy.0,
                            w == width,
                            j <= glyphs@.len(),
                            x0 <= xs,
                            xs <= x0 + 1 || xs <= w,
                            ys + tv.len() <= i32::MAX,
                            (x as int, y as int) == run_cursor(tv, j as int, xs, ys, x0, w),
                            out@ == before + run_writes(tv, j as int, xs, ys, x0, w, format),
                        decreases glyphs@.len() - j,
                    {
                        proof {
                            lemma_run_cursor_bounds(tv, j as int, xs, ys, x0, w);
                        }
                        let ghost c = (x as int, y as int);
                        let ghost jj = j as int;
                        if x >= width {
                            x = xy.0;
                            y = y + 1;
                        }
                        assert((x as int, y as int) == wrapped(c.0, c.1, x0, w));
                        let g = GlyphWrite { x, y, glyph: glyphs[j], format };
                        assert(g == glyph_write(x as int, y as int, tv[jj], format));
                        assert(run_writes(tv, jj + 1, xs, ys, x0, w, format) == run_writes(
                            tv,
                            jj,
                            xs,
                            ys,
                            x0,
                            w,
                            format,
                        ).push(g));
                        out.push(g);
                        x = x + 1;
                        j = j + 1;
                        assert(out@ =~= before + run_writes(tv, j as int, xs, ys, x0, w, format));
                    }
                    proof {
                        lemma_run_cursor_bounds(tv, tv.len() as int, xs, ys, x0, w);
                    }
                },
            }
            i = i + 1;
        }
        (out, Ok(()))
    }

    /// Applies a hint to a format, or returns the error for a value that names nothing.
    fn apply_hint(f: TextFormat, key: RichTextHintType, value: &str) -> (r: Result<TextFormat, UnknownFormatHint>)
        ensures
            match r {
                Ok(g) => apply_hint(f, key, value@) == Some(g),
                Err(e) => apply_hint(f, key, value@) is None && e.hint@ == value@,
            },
    {
        match key {
            RichTextHintType::Layout => match TileLayout::from_format_hint(value) {
                Ok(l) => Ok(TextFormat { layout: Some(l), ..f }),
                Err(e) => Err(e),
            },
            RichTextHintType::Style => match TileStyle::from_format_hint(value) {
                Ok(s) => Ok(TextFormat { style: Some(s), ..f }),
                Err(e) => Err(e),
            },
            RichTextHintType::Size => match TileSize::from_format_hint(value) {
                Ok(s) => Ok(TextFormat { size: Some(s), ..f }),
                Err(e) => Err(e),
            },
            RichTextHintType::Outlined => {
                if value.unicode_len() == 1 && value.get_char(0) == 't' {
                    proof {
                        assert(value@ =~= seq!['t']);
                    }
                    Ok(TextFormat { outlined: Some(true), ..f })
                } else if value.unicode_len() == 1 && value.get_char(0) == 'f' {
                    proof {
                        assert(value@ =~= seq!['f']);
                    }
                    Ok(TextFormat { outlined: Some(false), ..f })
                } else {
                    Err(UnknownFormatHint { hint: value.to_owned() })
                }
            },
            RichTextHintType::ForegroundColor => match PaletteColor::from_format_hint(value) {
                Ok(c) => Ok(TextFormat { foreground_color: Some(c.const_into()), ..f }),
                Err(e) => Err(e),
            },
            RichTextHintType::BackgroundColor => match PaletteColor::from_format_hint(value) {
                Ok(c) => Ok(TextFormat { background_color: Some(c.const_into()), ..f }),
                Err(e) => Err(e),
            },
            RichTextHintType::OutlineColor => match PaletteColor::from_format_hint(value) {
                Ok(c) => Ok(TextFormat { outline_color: Some(c.const_into()), ..f }),
                Err(e) => Err(e),
            },
        }
    }
}

} // verus!

verus! {

/// The number of newlines among parsed values.
pub open spec fn newline_count(ts: Seq<RichTextToken>) -> nat
    decreases ts.len(),
{
    if ts.len() == 0 {
        0
    } else {
        newline_count(ts.drop_last()) + if ts.last() is Newline {
            1nat
        } else {
            0nat
        }
    }
}

/// A run writes one glyph per character.
proof fn lemma_run_writes_len(t: Seq<char>, n: int, x: int, y: int, x0: int, width: int, f: TextFormat)
    requires
        0 <= n,
    ensures
        run_writes(t, n, x, y, x0, width, f).len() == n,
    decreases n,
{
    if n > 0 {
        lemma_run_writes_len(t, n - 1, x, y, x0, width, f);
    }
}

/// The stripped length of rich text counts what writing it lays out: one glyph per character
/// of its text, plus one per newline.
pub proof fn law_stripped_len_counts_writes(ts: Seq<RichTextToken>, n: int, x0: int, y0: int, width: int)
    requires
        0 <= n <= ts.len(),
        rich_state(ts, n, x0, y0, width) is Some,
    ensures
        rich_writes(ts, n, x0, y0, width).len() + newline_count(ts.take(n)) == stripped_len_of(ts.take(n)),
    decreases n,
{
    if n > 0 {
        assert(ts.take(n).drop_last() =~= ts.take(n - 1));
        assert(ts.take(n).last() == ts[n - 1]);
        if rich_state(ts, n - 1, x0, y0, width) is None {
            assert(rich_state(ts, n, x0, y0, width) is None);
        }
        law_stripped_len_counts_writes(ts, n - 1, x0, y0, width);
        match ts[n - 1] {
            RichTextToken::Text(t) => {
                let (x, y, f) = rich_state(ts, n - 1, x0, y0, width).unwrap();
                lemma_run_writes_len(t, t.len() as int, x, y, x0, width, f);
            },
            _ => {},
        }
    } else {
        assert(ts.take(0) =~= Seq::<RichTextToken>::empty());
    }
}

/// Plain text is written within the width: each glyph goes to a column left of the width, or
/// to the starting column when that is not left of the width; and never above the first row.
pub proof fn law_plain_within_width(t: Seq<char>, n: int, x0: int, y0: int, width: int, f: TextFormat)
    requires
        0 <= n <= t.len(),
        i32::MIN <= x0 < i32::MAX,
        i32::MIN <= y0,
        y0 + t.len() <= i32::MAX,
        width <= i32::MAX,
    ensures
        forall|i: int|
            0 <= i < plain_writes(t, n, x0, y0, width, f).len() ==> {
                let w = #[trigger] plain_writes(t, n, x0, y0, width, f)[i];
                &&& (w.x < width || w.x == x0)
                &&& x0 <= w.x
                &&& y0 <= w.y
            },
    decreases n,
{
    if n > 0 {
        law_plain_within_width(t, n - 1, x0, y0, width, f);
        lemma_plain_cursor_bounds(t, n - 1, x0, y0, width);
        let prev = plain_writes(t, n - 1, x0, y0, width, f);
        let c = plain_cursor(t, n - 1, x0, y0, width);
        if t[n - 1] != '\n' {
            let w = wrapped(c.0, c.1, x0, width);
            let g = glyph_write(w.0, w.1, t[n - 1], f);
            assert(plain_writes(t, n, x0, y0, width, f) == prev.push(g));
            assert(g.x == w.0 && g.y == w.1);
        }
    }
}

} // verus!
