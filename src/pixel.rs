//! Colors and pixels.
use vstd::prelude::*;

verus! {

/// One of the sixteen colors of a classic terminal.
#[derive(Clone, Copy, Debug, PartialEq, Eq, Structural)]
pub enum LegacyColor {
    Black,
    DarkGrey,
    Red,
    DarkRed,
    Green,
    DarkGreen,
    Yellow,
    DarkYellow,
    Blue,
    DarkBlue,
    Magenta,
    DarkMagenta,
    Cyan,
    DarkCyan,
    White,
    Grey,
}

/// An RGB sample, with the legacy color class that it stands for.
#[derive(Clone, Copy, Debug, PartialEq, Eq, Structural)]
pub struct Pixel {
    pub r: u8,
    pub g: u8,
    pub b: u8,
    pub legacy_col: LegacyColor,
}

impl Default for Pixel {
    /// A black pixel tagged red.
    fn default() -> (p: Pixel)
        ensures
            p == (Pixel { r: 0, g: 0, b: 0, legacy_col: LegacyColor::Red }),
    {
        Pixel { r: 0, g: 0, b: 0, legacy_col: LegacyColor::Red }
    }
}

} // verus!
