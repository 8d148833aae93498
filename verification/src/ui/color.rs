//! Colours for several rendering backends.
use vstd::prelude::*;

verus! {

/// A colour, in whichever palette the backend supports.
#[derive(Debug, Clone, Copy, PartialEq, Eq, Hash, Structural)]
pub enum Color {
    /// The renderer's default colour.
    Default,
    /// RGB true colour (24-bit).
    Rgb(u8, u8, u8),
    /// An index into the 256-colour palette.
    Index256(u8),
    /// One of the 16 ANSI colours.
    Ansi(AnsiColor),
}

impl From<(u8, u8, u8)> for Color {
    fn from(value: (u8, u8, u8)) -> (c: Self)
        ensures
            c == Color::Rgb(value.0, value.1, value.2),
    {
        Color::Rgb(value.0, value.1, value.2)
    }
}

impl vstd::std_specs::convert::FromSpecImpl<(u8, u8, u8)> for Color {
    open spec fn obeys_from_spec() -> bool {
        true
    }

    open spec fn from_spec(value: (u8, u8, u8)) -> Color {
        Color::Rgb(value.0, value.1, value.2)
    }
}

impl From<u8> for Color {
    fn from(value: u8) -> (c: Self)
        ensures
            c == Color::Index256(value),
    {
        Color::Index256(value)
    }
}

impl vstd::std_specs::convert::FromSpecImpl<u8> for Color {
    open spec fn obeys_from_spec() -> bool {
        true
    }

    open spec fn from_spec(value: u8) -> Color {
        Color::Index256(value)
    }
}

impl From<AnsiColor> for Color {
    fn from(value: AnsiColor) -> (c: Self)
        ensures
            c == Color::Ansi(value),
    {
        Color::Ansi(value)
    }
}

impl vstd::std_specs::convert::FromSpecImpl<AnsiColor> for Color {
    open spec fn obeys_from_spec() -> bool {
        true
    }

    open spec fn from_spec(value: AnsiColor) -> Color {
        Color::Ansi(value)
    }
}

/// The 16 ANSI colours.
#[derive(Debug, Clone, Copy, PartialEq, Eq, Hash, Structural)]
pub enum AnsiColor {
    Black,
    Red,
    Green,
    Yellow,
    Blue,
    Magenta,
    Cyan,
    White,
    Gray,
    BrightRed,
    BrightGreen,
    BrightYellow,
    BrightBlue,
    BrightMagenta,
    BrightCyan,
    BrightWhite,
}

impl AnsiColor {
    /// The colour's ANSI index, in the order the variants are declared.
    pub open spec fn spec_index(self) -> u8 {
        match self {
            AnsiColor::Black => 0,
            AnsiColor::Red => 1,
            AnsiColor::Green => 2,
            AnsiColor::Yellow => 3,
            AnsiColor::Blue => 4,
            AnsiColor::Magenta => 5,
            AnsiColor::Cyan => 6,
            AnsiColor::White => 7,
            AnsiColor::Gray => 8,
            AnsiColor::BrightRed => 9,
            AnsiColor::BrightGreen => 10,
            AnsiColor::BrightYellow => 11,
            AnsiColor::BrightBlue => 12,
            AnsiColor::BrightMagenta => 13,
            AnsiColor::BrightCyan => 14,
            AnsiColor::BrightWhite => 15,
        }
    }

    /// The ANSI index (0-15).
    pub fn index(self) -> (i: u8)
        ensures
            i == self.spec_index(),
    {
        match self {
            AnsiColor::Black => 0,
            AnsiColor::Red => 1,
            AnsiColor::Green => 2,
            AnsiColor::Yellow => 3,
            AnsiColor::Blue => 4,
            AnsiColor::Magenta => 5,
            AnsiColor::Cyan => 6,
            AnsiColor::White => 7,
            AnsiColor::Gray => 8,
            AnsiColor::BrightRed => 9,
            AnsiColor::BrightGreen => 10,
            AnsiColor::BrightYellow => 11,
            AnsiColor::BrightBlue => 12,
            AnsiColor::BrightMagenta => 13,
            AnsiColor::BrightCyan => 14,
            AnsiColor::BrightWhite => 15,
        }
    }
}

impl Default for AnsiColor {
    fn default() -> (c: Self)
        ensures
            c == AnsiColor::White,
    {
        AnsiColor::White
    }
}

/// Distinct ANSI colours have distinct indices, all below 16.
pub proof fn lemma_index_injective(a: AnsiColor, b: AnsiColor)
    ensures
        a.spec_index() < 16,
        a.spec_index() == b.spec_index() <==> a == b,
{
}

} // verus!
