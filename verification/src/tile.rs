use vstd::prelude::*;

use crate::palette::UnknownFormatHint;

verus! {

/// The number of tile styles.
pub const TILE_STYLE_COUNT: usize = 4;

/// The number of tile sizes.
pub const TILE_SIZE_COUNT: usize = 4;

/// Builds the error for an unknown hint.
fn unknown_hint(hint: &str) -> (r: UnknownFormatHint)
    ensures
        r.hint@ == hint@,
{
    UnknownFormatHint { hint: hint.to_owned() }
}

/// Whether a string holds exactly the given characters.
fn str_equals(s: &str, a: char, b: Option<char>) -> (r: bool)
    ensures
        r == match b {
            Some(c) => s@.len() == 2 && s@[0] == a && s@[1] == c,
            None => s@.len() == 1 && s@[0] == a,
        },
{
    let n = s.unicode_len();
    match b {
        Some(c) => {
            if n != 2 {
                return false;
            }
            s.get_char(0) == a && s.get_char(1) == c
        },
        None => {
            if n != 1 {
                return false;
            }
            s.get_char(0) == a
        },
    }
}

/// The style of a tile's glyph.
#[derive(Clone, Copy, Debug, PartialEq, Eq, Structural)]
pub enum TileStyle {
    /// The glyph has the default appearance.
    Regular,
    /// The glyph is bold.
    Bold,
    /// The glyph is italic.
    Italic,
    /// The glyph is both bold and italic.
    BoldItalic,
}

/// The format hint string of a tile style.
pub open spec fn tile_style_hint(v: TileStyle) -> Seq<char> {
    match v {
        TileStyle::Regular => seq!['r'],
        TileStyle::Bold => seq!['b'],
        TileStyle::Italic => seq!['i'],
        TileStyle::BoldItalic => seq!['b', 'i'],
    }
}

/// The tile style named by a format hint, if any.
pub open spec fn tile_style_from_hint(h: Seq<char>) -> Option<TileStyle> {
    if h.len() == 1 && h[0] == 'r' {
        Some(TileStyle::Regular)
    } else if h.len() == 1 && h[0] == 'b' {
        Some(TileStyle::Bold)
    } else if h.len() == 1 && h[0] == 'i' {
        Some(TileStyle::Italic)
    } else if h.len() == 2 && h[0] == 'b' && h[1] == 'i' {
        Some(TileStyle::BoldItalic)
    } else {
        None
    }
}

impl TileStyle {
    /// The style picked by a roll of a four-sided die (0 to 3): regular, bold, italic, and bold
    /// italic for 3 or more.
    pub fn from_roll(roll: u32) -> (r: TileStyle)
        ensures
            r == (if roll == 0 {
                TileStyle::Regular
            } else if roll == 1 {
                TileStyle::Bold
            } else if roll == 2 {
                TileStyle::Italic
            } else {
                TileStyle::BoldItalic
            }),
    {
        match roll {
            0 => TileStyle::Regular,
            1 => TileStyle::Bold,
            2 => TileStyle::Italic,
            _ => TileStyle::BoldItalic,
        }
    }

    /// Returns the format hint string.
    pub fn to_format_hint(&self) -> (r: &'static str)
        ensures
            r@ == tile_style_hint(*self),
    {
        match self {
            TileStyle::Regular => {
                proof {
                    reveal_strlit("r");
                }
                assert("r"@ =~= tile_style_hint(*self));
                "r"
            },
            TileStyle::Bold => {
                proof {
                    reveal_strlit("b");
                }
                assert("b"@ =~= tile_style_hint(*self));
                "b"
            },
            TileStyle::Italic => {
                proof {
                    reveal_strlit("i");
                }
                assert("i"@ =~= tile_style_hint(*self));
                "i"
            },
            TileStyle::BoldItalic => {
                proof {
                    reveal_strlit("bi");
                }
                assert("bi"@ =~= tile_style_hint(*self));
                "bi"
            },
        }
    }

    /// Returns the value named by a format hint string.
    pub fn from_format_hint(hint: &str) -> (r: Result<TileStyle, UnknownFormatHint>)
        ensures
            match r {
                Ok(v) => tile_style_from_hint(hint@) == Some(v),
                Err(e) => tile_style_from_hint(hint@) is None && e.hint@ == hint@,
            },
    {
        if str_equals(hint, 'r', None) {
            Ok(TileStyle::Regular)
        } else if str_equals(hint, 'b', None) {
            Ok(TileStyle::Bold)
        } else if str_equals(hint, 'i', None) {
            Ok(TileStyle::Italic)
        } else if str_equals(hint, 'b', Some('i')) {
            Ok(TileStyle::BoldItalic)
        } else {
            Err(unknown_hint(hint))
        }
    }
}

impl Default for TileStyle {
    fn default() -> (r: TileStyle)
        ensures
            r == TileStyle::Regular,
    {
        TileStyle::Regular
    }
}

/// Every tile style is named by its own format hint, and by no other one.
pub proof fn law_tile_style_hint_round_trip(v: TileStyle, h: Seq<char>)
    ensures
        tile_style_from_hint(tile_style_hint(v)) == Some(v),
        tile_style_from_hint(h) == Some(v) ==> h == tile_style_hint(v),
{
    if tile_style_from_hint(h) == Some(v) {
        assert(h =~= tile_style_hint(v));
    }
}

/// The size of a tile's glyph.
#[derive(Clone, Copy, Debug, PartialEq, Eq, Structural)]
pub enum TileSize {
    /// The glyph is proportional to half the size of a tile.
    Small,
    /// The glyph is proportional to the size of a tile.
    Normal,
    /// The glyph is proportional to the size of 2x2 tiles.
    Big,
    /// The glyph is proportional to the size of 4x4 tiles.
    Giant,
}

/// The format hint string of a tile size.
pub open spec fn tile_size_hint(v: TileSize) -> Seq<char> {
    match v {
        TileSize::Small => seq!['s'],
        TileSize::Normal => seq!['n'],
        TileSize::Big => seq!['b'],
        TileSize::Giant => seq!['g'],
    }
}

/// The tile size named by a format hint, if any.
pub open spec fn tile_size_from_hint(h: Seq<char>) -> Option<TileSize> {
    if h.len() == 1 && h[0] == 's' {
        Some(TileSize::Small)
    } else if h.len() == 1 && h[0] == 'n' {
        Some(TileSize::Normal)
    } else if h.len() == 1 && h[0] == 'b' {
        Some(TileSize::Big)
    } else if h.len() == 1 && h[0] == 'g' {
        Some(TileSize::Giant)
    } else {
        None
    }
}

impl TileSize {
    /// The size picked by a roll of a four-sided die (0 to 3): small, normal, big, and giant for
    /// 3 or more.
    pub fn from_roll(roll: u32) -> (r: TileSize)
        ensures
            r == (if roll == 0 {
                TileSize::Small
            } else if roll == 1 {
                TileSize::Normal
            } else if roll == 2 {
                TileSize::Big
            } else {
                TileSize::Giant
            }),
    {
        match roll {
            0 => TileSize::Small,
            1 => TileSize::Normal,
            2 => TileSize::Big,
            _ => TileSize::Giant,
        }
    }

    /// Returns the format hint string.
    pub fn to_format_hint(&self) -> (r: &'static str)
        ensures
            r@ == tile_size_hint(*self),
    {
        match self {
            TileSize::Small => {
                proof {
                    reveal_strlit("s");
                }
                assert("s"@ =~= tile_size_hint(*self));
                "s"
            },
            TileSize::Normal => {
                proof {
                    reveal_strlit("n");
                }
                assert("n"@ =~= tile_size_hint(*self));
                "n"
            },
            TileSize::Big => {
                proof {
                    reveal_strlit("b");
                }
                assert("b"@ =~= tile_size_hint(*self));
                "b"
            },
            TileSize::Giant => {
                proof {
                    reveal_strlit("g");
                }
                assert("g"@ =~= tile_size_hint(*self));
                "g"
            },
        }
    }

    /// Returns the value named by a format hint string.
    pub fn from_format_hint(hint: &str) -> (r: Result<TileSize, UnknownFormatHint>)
        ensures
            match r {
                Ok(v) => tile_size_from_hint(hint@) == Some(v),
                Err(e) => tile_size_from_hint(hint@) is None && e.hint@ == hint@,
            },
    {
        if str_equals(hint, 's', None) {
            Ok(TileSize::Small)
        } else if str_equals(hint, 'n', None) {
            Ok(TileSize::Normal)
        } else if str_equals(hint, 'b', None) {
            Ok(TileSize::Big)
        } else if str_equals(hint, 'g', None) {
            Ok(TileSize::Giant)
        } else {
            Err(unknown_hint(hint))
        }
    }
}

impl Default for TileSize {
    fn default() -> (r: TileSize)
        ensures
            r == TileSize::Normal,
    {
        TileSize::Normal
    }
}

/// Every tile size is named by its own format hint, and by no other one.
pub proof fn law_tile_size_hint_round_trip(v: TileSize, h: Seq<char>)
    ensures
        tile_size_from_hint(tile_size_hint(v)) == Some(v),
        tile_size_from_hint(h) == Some(v) ==> h == tile_size_hint(v),
{
    if tile_size_from_hint(h) == Some(v) {
        assert(h =~= tile_size_hint(v));
    }
}

/// The placement of a tile's glyph.
#[derive(Clone, Copy, Debug, PartialEq, Eq, Structural)]
pub enum TileLayout {
    /// The glyph is centered within the tile.
    Center,
    /// The glyph is centered horizontally but aligned with the bottom of the tile vertically.
    Floor,
    /// The glyph is positioned based on font metrics, as though it was text.
    Text,
    /// The glyph is positioned based on offset values from the center position.
    Exact(i32, i32),
}

/// The format hint string of a tile layout.
pub open spec fn tile_layout_hint(v: TileLayout) -> Seq<char> {
    match v {
        TileLayout::Center => seq!['c'],
        TileLayout::Floor => seq!['f'],
        TileLayout::Text => seq!['t'],
        TileLayout::Exact(_, _) => seq!['e'],
    }
}

/// The tile layout named by a format hint, if any (an exact layout has offsets (0, 0)).
pub open spec fn tile_layout_from_hint(h: Seq<char>) -> Option<TileLayout> {
    if h.len() == 1 && h[0] == 'c' {
        Some(TileLayout::Center)
    } else if h.len() == 1 && h[0] == 'f' {
        Some(TileLayout::Floor)
    } else if h.len() == 1 && h[0] == 't' {
        Some(TileLayout::Text)
    } else if h.len() == 1 && h[0] == 'e' {
        Some(TileLayout::Exact(0, 0))
    } else {
        None
    }
}

impl TileLayout {
    /// Returns the format hint string.
    pub fn to_format_hint(&self) -> (r: &'static str)
        ensures
            r@ == tile_layout_hint(*self),
    {
        match self {
            TileLayout::Center => {
                proof {
                    reveal_strlit("c");
                }
                assert("c"@ =~= tile_layout_hint(*self));
                "c"
            },
            TileLayout::Floor => {
                proof {
                    reveal_strlit("f");
                }
                assert("f"@ =~= tile_layout_hint(*self));
                "f"
            },
            TileLayout::Text => {
                proof {
                    reveal_strlit("t");
                }
                assert("t"@ =~= tile_layout_hint(*self));
                "t"
            },
            TileLayout::Exact(_, _) => {
                proof {
                    reveal_strlit("e");
                }
                assert("e"@ =~= tile_layout_hint(*self));
                "e"
            },
        }
    }

    /// Returns the tile layout named by a format hint string.
    pub fn from_format_hint(hint: &str) -> (r: Result<TileLayout, UnknownFormatHint>)
        ensures
            match r {
                Ok(v) => tile_layout_from_hint(hint@) == Some(v),
                Err(e) => tile_layout_from_hint(hint@) is None && e.hint@ == hint@,
            },
    {
        if str_equals(hint, 'c', None) {
            Ok(TileLayout::Center)
        } else if str_equals(hint, 'f', None) {
            Ok(TileLayout::Floor)
        } else if str_equals(hint, 't', None) {
            Ok(TileLayout::Text)
        } else if str_equals(hint, 'e', None) {
            Ok(TileLayout::Exact(0, 0))
        } else {
            Err(unknown_hint(hint))
        }
    }
}

impl Default for TileLayout {
    fn default() -> (r: TileLayout)
        ensures
            r == TileLayout::Center,
    {
        TileLayout::Center
    }
}

/// A layout is named by its own format hint (an exact layout comes back with offsets (0, 0)).
pub proof fn law_tile_layout_hint_round_trip(v: TileLayout)
    ensures
        tile_layout_from_hint(tile_layout_hint(v)) == (match v {
            TileLayout::Exact(_, _) => Some(TileLayout::Exact(0, 0)),
            _ => Some(v),
        }),
{
}

/// The location of a glyph within a font atlas, and its positioning offsets.
#[derive(Clone, Copy, Debug, PartialEq, Eq, Structural)]
pub struct GlyphMetric {
    /// The codepoint of the glyph.
    pub codepoint: u32,
    /// X of the glyph in the atlas.
    pub x: u32,
    /// Y of the glyph in the atlas.
    pub y: u32,
    /// Width of the glyph in the atlas.
    pub width: u32,
    /// Height of the glyph in the atlas.
    pub height: u32,
    /// Horizontal drawing offset.
    pub x_offset: i32,
    /// Vertical drawing offset.
    pub y_offset: i32,
}

/// The glyph metrics of a font.
#[derive(Clone, Debug)]
pub struct FontMetricsV2 {
    /// The metric of each glyph.
    pub metrics: Vec<GlyphMetric>,
}

} // verus!
