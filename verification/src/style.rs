//! Colors, style-modifier flags and the style patch applied when text is
//! written into a buffer.

use vstd::prelude::*;

verus! {

/// A foreground or background color.  `Reset` stands for the device default.
#[derive(Clone, Copy, PartialEq, Eq, Structural, Debug)]
pub enum Color {
    Reset,
    Black,
    Red,
    Green,
    Yellow,
    Blue,
    Magenta,
    Cyan,
    Gray,
    DarkGray,
    LightRed,
    LightGreen,
    LightYellow,
    LightBlue,
    LightMagenta,
    LightCyan,
    White,
    Indexed(u8),
    Rgb(u8, u8, u8),
}

/// Style-modifier bit flags, combined into a `u16` mask on each cell.
pub const MOD_BOLD: u16 = 1;
pub const MOD_DIM: u16 = 2;
pub const MOD_ITALIC: u16 = 4;
pub const MOD_UNDERLINED: u16 = 8;
pub const MOD_REVERSED: u16 = 16;
pub const MOD_HIDDEN: u16 = 32;
pub const MOD_CROSSED_OUT: u16 = 64;

/// A style patch: each `Some` field overwrites the corresponding cell
/// attribute, each `None` field leaves it as it was.
#[derive(Clone, Copy, PartialEq, Eq, Structural, Debug)]
pub struct Style {
    pub fg: Option<Color>,
    pub bg: Option<Color>,
    pub modifier: Option<u16>,
}

impl Style {
    /// The empty patch: keeps every attribute.
    pub fn default() -> (r: Style)
        ensures
            r.fg is None,
            r.bg is None,
            r.modifier is None,
    {
        Style { fg: None, bg: None, modifier: None }
    }

    pub fn fg(self, c: Color) -> (r: Style)
        ensures
            r == (Style { fg: Some(c), ..self }),
    {
        Style { fg: Some(c), ..self }
    }

    pub fn bg(self, c: Color) -> (r: Style)
        ensures
            r == (Style { bg: Some(c), ..self }),
    {
        Style { bg: Some(c), ..self }
    }

    pub fn modifier(self, m: u16) -> (r: Style)
        ensures
            r == (Style { modifier: Some(m), ..self }),
    {
        Style { modifier: Some(m), ..self }
    }
}

} // verus!
