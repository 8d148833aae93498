//! Text styles: colours and modifiers.
use super::color::Color;
use vstd::prelude::*;
use vstd::std_specs::convert::IntoSpec;

verus! {

/// Text modifiers.
#[derive(Debug, Clone, Copy, PartialEq, Eq, Hash, Structural)]
pub struct Modifier {
    pub bold: bool,
    pub underline: bool,
    pub inverse: bool,
}

impl Modifier {
    /// No modifier set.
    pub fn new() -> (m: Self)
        ensures
            m == (Modifier { bold: false, underline: false, inverse: false }),
    {
        Modifier { bold: false, underline: false, inverse: false }
    }

    /// Set bold.
    pub fn bold(self, bold: bool) -> (m: Self)
        ensures
            m == (Modifier { bold, ..self }),
    {
        Modifier { bold, ..self }
    }

    /// Set underline.
    pub fn underline(self, underline: bool) -> (m: Self)
        ensures
            m == (Modifier { underline, ..self }),
    {
        Modifier { underline, ..self }
    }

    /// Set inverse (swap foreground and background).
    pub fn inverse(self, inverse: bool) -> (m: Self)
        ensures
            m == (Modifier { inverse, ..self }),
    {
        Modifier { inverse, ..self }
    }
}

impl Default for Modifier {
    fn default() -> (m: Self)
        ensures
            m == (Modifier { bold: false, underline: false, inverse: false }),
    {
        Modifier::new()
    }
}

/// Complete text styling: colours and modifiers.
#[derive(Debug, Clone, Copy, PartialEq, Eq, Hash, Structural)]
pub struct Style {
    pub fg: Color,
    pub bg: Color,
    pub modifiers: Modifier,
}

impl Style {
    /// Default colours and no modifiers.
    pub fn new() -> (s: Self)
        ensures
            s == (Style { fg: Color::Default, bg: Color::Default, modifiers: Modifier { bold: false, underline: false, inverse: false } }),
    {
        Style { fg: Color::Default, bg: Color::Default, modifiers: Modifier::new() }
    }

    /// Set the foreground colour.
    pub fn fg<T: Into<Color>>(self, color: T) -> (s: Self)
        ensures
            T::obeys_into_spec() ==> s.fg == color.into_spec(),
            s.bg == self.bg,
            s.modifiers == self.modifiers,
    {
        Style { fg: color.into(), ..self }
    }

    /// Set the background colour.
    pub fn bg<T: Into<Color>>(self, color: T) -> (s: Self)
        ensures
            T::obeys_into_spec() ==> s.bg == color.into_spec(),
            s.fg == self.fg,
            s.modifiers == self.modifiers,
    {
        Style { bg: color.into(), ..self }
    }

    /// Set the modifiers.
    pub fn modifiers(self, modifiers: Modifier) -> (s: Self)
        ensures
            s == (Style { modifiers, ..self }),
    {
        Style { modifiers, ..self }
    }

    /// Set bold.
    pub fn bold(self, bold: bool) -> (s: Self)
        ensures
            s == (Style { modifiers: Modifier { bold, ..self.modifiers }, ..self }),
    {
        Style { modifiers: self.modifiers.bold(bold), ..self }
    }

    /// Set underline.
    pub fn underline(self, underline: bool) -> (s: Self)
        ensures
            s == (Style { modifiers: Modifier { underline, ..self.modifiers }, ..self }),
    {
        Style { modifiers: self.modifiers.underline(underline), ..self }
    }

    /// Set inverse (swap foreground and background).
    pub fn inverse(self, inverse: bool) -> (s: Self)
        ensures
            s == (Style { modifiers: Modifier { inverse, ..self.modifiers }, ..self }),
    {
        Style { modifiers: self.modifiers.inverse(inverse), ..self }
    }
}

impl Default for Style {
    fn default() -> (s: Self)
        ensures
            s == (Style { fg: Color::Default, bg: Color::Default, modifiers: Modifier { bold: false, underline: false, inverse: false } }),
    {
        Style::new()
    }
}

} // verus!
