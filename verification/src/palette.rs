use vstd::prelude::*;

verus! {

/// Error returned when a format hint string names no value.
#[derive(Clone, Debug, PartialEq, Eq)]
pub struct UnknownFormatHint {
    /// The hint that was not recognized.
    pub hint: String,
}

/// Builds the error for an unknown hint.
fn unknown_hint(hint: &str) -> (r: UnknownFormatHint)
    ensures
        r.hint@ == hint@,
{
    UnknownFormatHint { hint: hint.to_owned() }
}

/// An 8 bit RGBA color.
#[derive(Clone, Copy, Debug, PartialEq, Eq, Structural)]
pub struct TileColor {
    /// Red channel.
    pub r: u8,
    /// Green channel.
    pub g: u8,
    /// Blue channel.
    pub b: u8,
    /// Alpha channel.
    pub a: u8,
}

impl TileColor {
    /// Creates an opaque color from RGB values.
    pub fn rgb(r: u8, g: u8, b: u8) -> (c: TileColor)
        ensures
            c == (TileColor { r, g, b, a: 255 }),
    {
        TileColor { r, g, b, a: 255 }
    }

    /// Creates a color from RGBA values.
    pub fn rgba(r: u8, g: u8, b: u8, a: u8) -> (c: TileColor)
        ensures
            c == (TileColor { r, g, b, a }),
    {
        TileColor { r, g, b, a }
    }

    /// The fully transparent white used as the default tile color.
    pub fn transparent() -> (c: TileColor)
        ensures
            c == (TileColor { r: 255, g: 255, b: 255, a: 0 }),
    {
        TileColor { r: 255, g: 255, b: 255, a: 0 }
    }
}

/// The color palettes.
#[derive(Clone, Copy, Debug, PartialEq, Eq, Structural)]
pub enum ColorPalette {
    /// The hardcoded default color palette.
    Static,
    /// The current dynamically loaded color palette.
    Dynamic,
}

/// The colors of the static color palette.
#[derive(Clone, Copy, Debug, PartialEq, Eq, Structural)]
pub enum PaletteColor {
    /// Format hint `r`.
    DarkRed,
    /// Format hint `R`.
    BrightRed,
    /// Format hint `o`.
    DarkOrange,
    /// Format hint `O`.
    BrightOrange,
    /// Format hint `w`.
    Brown,
    /// Format hint `W`.
    Yellow,
    /// Format hint `g`.
    DarkGreen,
    /// Format hint `G`.
    BrightGreen,
    /// Format hint `b`.
    DarkBlue,
    /// Format hint `B`.
    BrightBlue,
    /// Format hint `p`.
    DarkPurple,
    /// Format hint `P`.
    BrightPurple,
    /// Format hint `c`.
    DarkCyan,
    /// Format hint `C`.
    BrightCyan,
    /// Format hint `m`.
    DarkMagenta,
    /// Format hint `M`.
    BrightMagenta,
    /// Format hint `$`.
    Gold,
    /// Format hint `k`.
    Black,
    /// Format hint `K`.
    DarkGrey,
    /// Format hint `y`.
    BrightGrey,
    /// Format hint `Y`.
    White,
    /// Format hint `T`.
    Transparent,
}

/// The format hint character of a palette color.
pub open spec fn palette_hint_char(c: PaletteColor) -> char {
    match c {
        PaletteColor::DarkRed => 'r',
        PaletteColor::BrightRed => 'R',
        PaletteColor::DarkOrange => 'o',
        PaletteColor::BrightOrange => 'O',
        PaletteColor::Brown => 'w',
        PaletteColor::Yellow => 'W',
        PaletteColor::DarkGreen => 'g',
        PaletteColor::BrightGreen => 'G',
        PaletteColor::DarkBlue => 'b',
        PaletteColor::BrightBlue => 'B',
        PaletteColor::DarkPurple => 'p',
        PaletteColor::BrightPurple => 'P',
        PaletteColor::DarkCyan => 'c',
        PaletteColor::BrightCyan => 'C',
        PaletteColor::DarkMagenta => 'm',
        PaletteColor::BrightMagenta => 'M',
        PaletteColor::Gold => '$',
        PaletteColor::Black => 'k',
        PaletteColor::DarkGrey => 'K',
        PaletteColor::BrightGrey => 'y',
        PaletteColor::White => 'Y',
        PaletteColor::Transparent => 'T',
    }
}

/// The format hint string of a palette color.
pub open spec fn palette_hint(c: PaletteColor) -> Seq<char> {
    seq![palette_hint_char(c)]
}

/// The palette color named by a format hint, if any.
pub open spec fn palette_from_hint(h: Seq<char>) -> Option<PaletteColor> {
    if h.len() != 1 {
        None
    } else if h[0] == 'r' {
        Some(PaletteColor::DarkRed)
    } else if h[0] == 'R' {
        Some(PaletteColor::BrightRed)
    } else if h[0] == 'o' {
        Some(PaletteColor::DarkOrange)
    } else if h[0] == 'O' {
        Some(PaletteColor::BrightOrange)
    } else if h[0] == 'w' {
        Some(PaletteColor::Brown)
    } else if h[0] == 'W' {
        Some(PaletteColor::Yellow)
    } else if h[0] == 'g' {
        Some(PaletteColor::DarkGreen)
    } else if h[0] == 'G' {
        Some(PaletteColor::BrightGreen)
    } else if h[0] == 'b' {
        Some(PaletteColor::DarkBlue)
    } else if h[0] == 'B' {
        Some(PaletteColor::BrightBlue)
    } else if h[0] == 'p' {
        Some(PaletteColor::DarkPurple)
    } else if h[0] == 'P' {
        Some(PaletteColor::BrightPurple)
    } else if h[0] == 'c' {
        Some(PaletteColor::DarkCyan)
    } else if h[0] == 'C' {
        Some(PaletteColor::BrightCyan)
    } else if h[0] == 'm' {
        Some(PaletteColor::DarkMagenta)
    } else if h[0] == 'M' {
        Some(PaletteColor::BrightMagenta)
    } else if h[0] == '$' {
        Some(PaletteColor::Gold)
    } else if h[0] == 'k' {
        Some(PaletteColor::Black)
    } else if h[0] == 'K' {
        Some(PaletteColor::DarkGrey)
    } else if h[0] == 'y' {
        Some(PaletteColor::BrightGrey)
    } else if h[0] == 'Y' {
        Some(PaletteColor::White)
    } else if h[0] == 'T' {
        Some(PaletteColor::Transparent)
    } else {
        None
    }
}

/// The static palette's RGBA value of a palette color.
pub open spec fn palette_rgba(c: PaletteColor) -> TileColor {
    match c {
        PaletteColor::DarkRed => TileColor { r: 115, g: 24, b: 45, a: 255 },
        PaletteColor::BrightRed => TileColor { r: 223, g: 62, b: 35, a: 255 },
        PaletteColor::DarkOrange => TileColor { r: 250, g: 106, b: 10, a: 255 },
        PaletteColor::BrightOrange => TileColor { r: 249, g: 163, b: 27, a: 255 },
        PaletteColor::Brown => TileColor { r: 113, g: 65, b: 59, a: 255 },
        PaletteColor::Yellow => TileColor { r: 255, g: 252, b: 64, a: 255 },
        PaletteColor::DarkGreen => TileColor { r: 26, g: 122, b: 62, a: 255 },
        PaletteColor::BrightGreen => TileColor { r: 89, g: 193, b: 53, a: 255 },
        PaletteColor::DarkBlue => TileColor { r: 40, g: 92, b: 196, a: 255 },
        PaletteColor::BrightBlue => TileColor { r: 36, g: 159, b: 222, a: 255 },
        PaletteColor::DarkPurple => TileColor { r: 67, g: 28, b: 83, a: 255 },
        PaletteColor::BrightPurple => TileColor { r: 147, g: 112, b: 219, a: 255 },
        PaletteColor::DarkCyan => TileColor { r: 32, g: 214, b: 199, a: 255 },
        PaletteColor::BrightCyan => TileColor { r: 166, g: 252, b: 219, a: 255 },
        PaletteColor::DarkMagenta => TileColor { r: 121, g: 58, b: 128, a: 255 },
        PaletteColor::BrightMagenta => TileColor { r: 188, g: 74, b: 155, a: 255 },
        PaletteColor::Gold => TileColor { r: 218, g: 165, b: 32, a: 255 },
        PaletteColor::Black => TileColor { r: 23, g: 19, b: 18, a: 255 },
        PaletteColor::DarkGrey => TileColor { r: 109, g: 117, b: 141, a: 255 },
        PaletteColor::BrightGrey => TileColor { r: 179, g: 185, b: 209, a: 255 },
        PaletteColor::White => TileColor { r: 255, g: 255, b: 255, a: 255 },
        PaletteColor::Transparent => TileColor { r: 0, g: 0, b: 0, a: 0 },
    }
}

impl PaletteColor {
    /// Returns the format hint string of the palette color.
    pub fn format_hint(&self) -> (r: &'static str)
        ensures
            r@ == palette_hint(*self),
    {
        self.to_format_hint()
    }

    /// Returns the format hint string of the palette color.
    pub fn to_format_hint(&self) -> (r: &'static str)
        ensures
            r@ == palette_hint(*self),
    {
        match self {
            PaletteColor::DarkRed => {
                proof {
                    reveal_strlit("r");
                }
                assert("r"@ =~= palette_hint(*self));
                "r"
            },
            PaletteColor::BrightRed => {
                proof {
                    reveal_strlit("R");
                }
                assert("R"@ =~= palette_hint(*self));
                "R"
            },
            PaletteColor::DarkOrange => {
                proof {
                    reveal_strlit("o");
                }
                assert("o"@ =~= palette_hint(*self));
                "o"
            },
            PaletteColor::BrightOrange => {
                proof {
                    reveal_strlit("O");
                }
                assert("O"@ =~= palette_hint(*self));
                "O"
            },
            PaletteColor::Brown => {
                proof {
                    reveal_strlit("w");
                }
                assert("w"@ =~= palette_hint(*self));
                "w"
            },
            PaletteColor::Yellow => {
                proof {
                    reveal_strlit("W");
                }
                assert("W"@ =~= palette_hint(*self));
                "W"
            },
            PaletteColor::DarkGreen => {
                proof {
                    reveal_strlit("g");
                }
                assert("g"@ =~= palette_hint(*self));
                "g"
            },
            PaletteColor::BrightGreen => {
                proof {
                    reveal_strlit("G");
                }
                assert("G"@ =~= palette_hint(*self));
                "G"
            },
            PaletteColor::DarkBlue => {
                proof {
                    reveal_strlit("b");
                }
                assert("b"@ =~= palette_hint(*self));
                "b"
            },
            PaletteColor::BrightBlue => {
                proof {
                    reveal_strlit("B");
                }
                assert("B"@ =~= palette_hint(*self));
                "B"
            },
            PaletteColor::DarkPurple => {
                proof {
                    reveal_strlit("p");
                }
                assert("p"@ =~= palette_hint(*self));
                "p"
            },
            PaletteColor::BrightPurple => {
                proof {
                    reveal_strlit("P");
                }
                assert("P"@ =~= palette_hint(*self));
                "P"
            },
            PaletteColor::DarkCyan => {
                proof {
                    reveal_strlit("c");
                }
                assert("c"@ =~= palette_hint(*self));
                "c"
            },
            PaletteColor::BrightCyan => {
                proof {
                    reveal_strlit("C");
                }
                assert("C"@ =~= palette_hint(*self));
                "C"
            },
            PaletteColor::DarkMagenta => {
                proof {
                    reveal_strlit("m");
                }
                assert("m"@ =~= palette_hint(*self));
                "m"
            },
            PaletteColor::BrightMagenta => {
                proof {
                    reveal_strlit("M");
                }
                assert("M"@ =~= palette_hint(*self));
                "M"
            },
            PaletteColor::Gold => {
                proof {
                    reveal_strlit("$");
                }
                assert("$"@ =~= palette_hint(*self));
                "$"
            },
            PaletteColor::Black => {
                proof {
                    reveal_strlit("k");
                }
                assert("k"@ =~= palette_hint(*self));
                "k"
            },
            PaletteColor::DarkGrey => {
                proof {
                    reveal_strlit("K");
                }
                assert("K"@ =~= palette_hint(*self));
                "K"
            },
            PaletteColor::BrightGrey => {
                proof {
                    reveal_strlit("y");
                }
                assert("y"@ =~= palette_hint(*self));
                "y"
            },
            PaletteColor::White => {
                proof {
                    reveal_strlit("Y");
                }
                assert("Y"@ =~= palette_hint(*self));
                "Y"
            },
            PaletteColor::Transparent => {
                proof {
                    reveal_strlit("T");
                }
                assert("T"@ =~= palette_hint(*self));
                "T"
            },
        }
    }

    /// Returns the palette color for a format hint string.
    pub fn from_format_hint(hint: &str) -> (r: Result<PaletteColor, UnknownFormatHint>)
        ensures
            match r {
                Ok(c) => palette_from_hint(hint@) == Some(c),
                Err(e) => palette_from_hint(hint@) is None && e.hint@ == hint@,
            },
    {
        if hint.unicode_len() != 1 {
            return Err(unknown_hint(hint));
        }
        let ch = hint.get_char(0);
        if ch == 'r' {
            Ok(PaletteColor::DarkRed)
        } else if ch == 'R' {
            Ok(PaletteColor::BrightRed)
        } else if ch == 'o' {
            Ok(PaletteColor::DarkOrange)
        } else if ch == 'O' {
            Ok(PaletteColor::BrightOrange)
        } else if ch == 'w' {
            Ok(PaletteColor::Brown)
        } else if ch == 'W' {
            Ok(PaletteColor::Yellow)
        } else if ch == 'g' {
            Ok(PaletteColor::DarkGreen)
        } else if ch == 'G' {
            Ok(PaletteColor::BrightGreen)
        } else if ch == 'b' {
            Ok(PaletteColor::DarkBlue)
        } else if ch == 'B' {
            Ok(PaletteColor::BrightBlue)
        } else if ch == 'p' {
            Ok(PaletteColor::DarkPurple)
        } else if ch == 'P' {
            Ok(PaletteColor::BrightPurple)
        } else if ch == 'c' {
            Ok(PaletteColor::DarkCyan)
        } else if ch == 'C' {
            Ok(PaletteColor::BrightCyan)
        } else if ch == 'm' {
            Ok(PaletteColor::DarkMagenta)
        } else if ch == 'M' {
            Ok(PaletteColor::BrightMagenta)
        } else if ch == '$' {
            Ok(PaletteColor::Gold)
        } else if ch == 'k' {
            Ok(PaletteColor::Black)
        } else if ch == 'K' {
            Ok(PaletteColor::DarkGrey)
        } else if ch == 'y' {
            Ok(PaletteColor::BrightGrey)
        } else if ch == 'Y' {
            Ok(PaletteColor::White)
        } else if ch == 'T' {
            Ok(PaletteColor::Transparent)
        } else {
            Err(unknown_hint(hint))
        }
    }

    /// Returns the tile color of the palette color in the static palette.
    pub fn const_into(&self) -> (r: TileColor)
        ensures
            r == palette_rgba(*self),
    {
        match self {
            PaletteColor::DarkRed => TileColor { r: 115, g: 24, b: 45, a: 255 },
            PaletteColor::BrightRed => TileColor { r: 223, g: 62, b: 35, a: 255 },
            PaletteColor::DarkOrange => TileColor { r: 250, g: 106, b: 10, a: 255 },
            PaletteColor::BrightOrange => TileColor { r: 249, g: 163, b: 27, a: 255 },
            PaletteColor::Brown => TileColor { r: 113, g: 65, b: 59, a: 255 },
            PaletteColor::Yellow => TileColor { r: 255, g: 252, b: 64, a: 255 },
            PaletteColor::DarkGreen => TileColor { r: 26, g: 122, b: 62, a: 255 },
            PaletteColor::BrightGreen => TileColor { r: 89, g: 193, b: 53, a: 255 },
            PaletteColor::DarkBlue => TileColor { r: 40, g: 92, b: 196, a: 255 },
            PaletteColor::BrightBlue => TileColor { r: 36, g: 159, b: 222, a: 255 },
            PaletteColor::DarkPurple => TileColor { r: 67, g: 28, b: 83, a: 255 },
            PaletteColor::BrightPurple => TileColor { r: 147, g: 112, b: 219, a: 255 },
            PaletteColor::DarkCyan => TileColor { r: 32, g: 214, b: 199, a: 255 },
            PaletteColor::BrightCyan => TileColor { r: 166, g: 252, b: 219, a: 255 },
            PaletteColor::DarkMagenta => TileColor { r: 121, g: 58, b: 128, a: 255 },
            PaletteColor::BrightMagenta => TileColor { r: 188, g: 74, b: 155, a: 255 },
            PaletteColor::Gold => TileColor { r: 218, g: 165, b: 32, a: 255 },
            PaletteColor::Black => TileColor { r: 23, g: 19, b: 18, a: 255 },
            PaletteColor::DarkGrey => TileColor { r: 109, g: 117, b: 141, a: 255 },
            PaletteColor::BrightGrey => TileColor { r: 179, g: 185, b: 209, a: 255 },
            PaletteColor::White => TileColor { r: 255, g: 255, b: 255, a: 255 },
            PaletteColor::Transparent => TileColor { r: 0, g: 0, b: 0, a: 0 },
        }
    }
}

/// Every palette color is named by its own format hint, and by no other one.
pub proof fn law_palette_hint_round_trip(c: PaletteColor, h: Seq<char>)
    ensures
        palette_from_hint(palette_hint(c)) == Some(c),
        palette_from_hint(h) == Some(c) ==> h == palette_hint(c),
{
    if palette_from_hint(h) == Some(c) {
        assert(h =~= palette_hint(c));
    }
}

/// The red, green, blue and alpha channels of a color packed into one number, as `0xRRGGBBAA`.
pub open spec fn rgba_word(c: TileColor) -> int {
    c.r * 0x100_0000 + c.g * 0x1_0000 + c.b * 0x100 + c.a
}

/// The static palette: each palette color's channels, as `0xRRGGBBAA`.
pub proof fn law_palette_words(c: PaletteColor)
    ensures
        rgba_word(palette_rgba(c)) == match c {
            PaletteColor::DarkRed => 0x73_18_2d_ffint,
            PaletteColor::BrightRed => 0xdf_3e_23_ffint,
            PaletteColor::DarkOrange => 0xfa_6a_0a_ffint,
            PaletteColor::BrightOrange => 0xf9_a3_1b_ffint,
            PaletteColor::Brown => 0x71_41_3b_ffint,
            PaletteColor::Yellow => 0xff_fc_40_ffint,
            PaletteColor::DarkGreen => 0x1a_7a_3e_ffint,
            PaletteColor::BrightGreen => 0x59_c1_35_ffint,
            PaletteColor::DarkBlue => 0x28_5c_c4_ffint,
            PaletteColor::BrightBlue => 0x24_9f_de_ffint,
            PaletteColor::DarkPurple => 0x43_1c_53_ffint,
            PaletteColor::BrightPurple => 0x93_70_db_ffint,
            PaletteColor::DarkCyan => 0x20_d6_c7_ffint,
            PaletteColor::BrightCyan => 0xa6_fc_db_ffint,
            PaletteColor::DarkMagenta => 0x79_3a_80_ffint,
            PaletteColor::BrightMagenta => 0xbc_4a_9b_ffint,
            PaletteColor::Gold => 0xda_a5_20_ffint,
            PaletteColor::Black => 0x17_13_12_ffint,
            PaletteColor::DarkGrey => 0x6d_75_8d_ffint,
            PaletteColor::BrightGrey => 0xb3_b9_d1_ffint,
            PaletteColor::White => 0xff_ff_ff_ffint,
            PaletteColor::Transparent => 0x00_00_00_00int,
        },
{
}

/// The brighter counterpart of a dark palette color: each dark hue with its bright one, brown
/// with yellow, dark grey with bright grey and black with white.
pub open spec fn brighter_counterpart(c: PaletteColor) -> Option<PaletteColor> {
    match c {
        PaletteColor::DarkRed => Some(PaletteColor::BrightRed),
        PaletteColor::DarkOrange => Some(PaletteColor::BrightOrange),
        PaletteColor::Brown => Some(PaletteColor::Yellow),
        PaletteColor::DarkGreen => Some(PaletteColor::BrightGreen),
        PaletteColor::DarkBlue => Some(PaletteColor::BrightBlue),
        PaletteColor::DarkPurple => Some(PaletteColor::BrightPurple),
        PaletteColor::DarkCyan => Some(PaletteColor::BrightCyan),
        PaletteColor::DarkMagenta => Some(PaletteColor::BrightMagenta),
        PaletteColor::DarkGrey => Some(PaletteColor::BrightGrey),
        PaletteColor::Black => Some(PaletteColor::White),
        _ => None,
    }
}

/// The brightness of a color: the sum of its red, green and blue channels.
pub open spec fn brightness(c: TileColor) -> int {
    c.r + c.g + c.b
}

/// Each dark palette color is darker than its bright counterpart, black is the darkest opaque
/// color and white the brightest, and transparent is the one color with no opacity.
pub proof fn law_dark_colors_are_darker(c: PaletteColor)
    ensures
        brighter_counterpart(c) matches Some(b) ==> brightness(palette_rgba(c)) < brightness(
            palette_rgba(b),
        ),
        c != PaletteColor::Transparent ==> brightness(palette_rgba(PaletteColor::Black))
            <= brightness(palette_rgba(c)) <= brightness(palette_rgba(PaletteColor::White)),
        palette_rgba(c).a == 0 <==> c == PaletteColor::Transparent,
        c != PaletteColor::Transparent ==> palette_rgba(c).a == 255,
{
}

} // verus!
