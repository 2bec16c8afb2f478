use vstd::prelude::*;

verus! {

/// A 24-bit color.
#[derive(Clone, Copy, Debug, PartialEq, Eq, Structural)]
pub struct RgbColor {
    pub red: u8,
    pub green: u8,
    pub blue: u8,
}

/// The color of a cell's foreground or background.
#[derive(Clone, Copy, Debug, PartialEq, Eq, Structural)]
pub enum ColorAttribute {
    /// The terminal's default color.
    Default,
    /// An entry of the 256-color palette.
    PaletteIndex(u8),
    /// A true color; terminals without true color use their default.
    TrueColorWithDefaultFallback(RgbColor),
    /// A true color; terminals without true color use the palette entry.
    TrueColorWithPaletteFallback(RgbColor, u8),
}

/// The sixteen basic ANSI colors, in palette order.
#[derive(Clone, Copy, Debug, PartialEq, Eq, Structural)]
pub enum AnsiColor {
    Black,
    Maroon,
    Green,
    Olive,
    Navy,
    Purple,
    Teal,
    Silver,
    Grey,
    Red,
    Lime,
    Yellow,
    Blue,
    Fuschia,
    Aqua,
    White,
}

/// The palette index of an ANSI color.
pub open spec fn ansi_index(c: AnsiColor) -> u8 {
    match c {
        AnsiColor::Black => 0,
        AnsiColor::Maroon => 1,
        AnsiColor::Green => 2,
        AnsiColor::Olive => 3,
        AnsiColor::Navy => 4,
        AnsiColor::Purple => 5,
        AnsiColor::Teal => 6,
        AnsiColor::Silver => 7,
        AnsiColor::Grey => 8,
        AnsiColor::Red => 9,
        AnsiColor::Lime => 10,
        AnsiColor::Yellow => 11,
        AnsiColor::Blue => 12,
        AnsiColor::Fuschia => 13,
        AnsiColor::Aqua => 14,
        AnsiColor::White => 15,
    }
}

impl AnsiColor {
    /// The ANSI color with palette index `idx`, if `idx` is one of the first sixteen.
    pub fn from_u8(idx: u8) -> (r: Option<AnsiColor>)
        ensures
            idx < 16 <==> r.is_some(),
            r.is_some() ==> ansi_index(r.unwrap()) == idx,
    {
        match idx {
            0 => Some(AnsiColor::Black),
            1 => Some(AnsiColor::Maroon),
            2 => Some(AnsiColor::Green),
            3 => Some(AnsiColor::Olive),
            4 => Some(AnsiColor::Navy),
            5 => Some(AnsiColor::Purple),
            6 => Some(AnsiColor::Teal),
            7 => Some(AnsiColor::Silver),
            8 => Some(AnsiColor::Grey),
            9 => Some(AnsiColor::Red),
            10 => Some(AnsiColor::Lime),
            11 => Some(AnsiColor::Yellow),
            12 => Some(AnsiColor::Blue),
            13 => Some(AnsiColor::Fuschia),
            14 => Some(AnsiColor::Aqua),
            15 => Some(AnsiColor::White),
            _ => None,
        }
    }
}

} // verus!
