//! A component that shows a line of text.
use super::component_state::{ComponentState, SizeConstraints, bounded_by};
use super::coord::CoordType;
use super::style::Style;
use vstd::prelude::*;
use vstd::std_specs::convert::IntoSpec;

verus! {

/// Text alignment options.
#[derive(Debug, Clone, Copy, PartialEq, Eq, Structural)]
pub enum TextAlignment {
    Left,
    Center,
    Right,
}

/// A component that displays static text.
#[derive(Debug, Clone, PartialEq)]
pub struct Label {
    pub text: String,
    pub style: Option<Style>,
    pub wrapping: bool,
    pub alignment: TextAlignment,
}

impl Label {
    /// A left-aligned, unstyled, unwrapped label.
    pub fn new<T: Into<String>>(text: T) -> (l: Self)
        ensures
            T::obeys_into_spec() ==> l.text == text.into_spec(),
            l.style == None::<Style>,
            !l.wrapping,
            l.alignment == TextAlignment::Left,
    {
        Label { text: text.into(), style: None, wrapping: false, alignment: TextAlignment::Left }
    }

    /// Set the style.
    pub fn with_style(self, style: Option<Style>) -> (l: Self)
        ensures
            l == (Label { style, ..self }),
    {
        Label { style, ..self }
    }

    /// Set the alignment.
    pub fn with_alignment(self, alignment: TextAlignment) -> (l: Self)
        ensures
            l == (Label { alignment, ..self }),
    {
        Label { alignment, ..self }
    }

    /// Set wrapping.
    pub fn with_wrapping(self, wrapping: bool) -> (l: Self)
        ensures
            l == (Label { wrapping, ..self }),
    {
        Label { wrapping, ..self }
    }

    /// Replace the text.
    pub fn set_text<T: Into<String>>(&mut self, text: T)
        ensures
            T::obeys_into_spec() ==> final(self).text == text.into_spec(),
            final(self).style == old(self).style,
            final(self).wrapping == old(self).wrapping,
            final(self).alignment == old(self).alignment,
    {
        self.text = text.into();
    }

    /// The text.
    pub fn text(&self) -> (t: &str)
        ensures
            t@ == self.text@,
    {
        self.text.as_str()
    }

    /// The size the label takes: its byte length by one row, cut down to
    /// `constraints` (a length that does not fit the coordinate type counts as 0).
    pub fn size_with_state<C: CoordType>(&self, state: &ComponentState<C>, constraints: SizeConstraints<C>) -> (r: (C, C))
        ensures
            ({
                let len = vstd::utf8::encode_utf8(self.text@).len() as usize;
                &&& r.0.val() == (if len <= C::hi() { bounded_width(len as int, constraints.width) } else { bounded_width(0, constraints.width) })
                &&& r.1.val() == bounded_height(constraints.height)
            }),
    {
        let t = self.text.as_str();
        let n = t.len();
        let w = match C::from_len(n) {
            Some(w) => w,
            None => C::zero(),
        };
        let r = constraints.clip(w, C::one());
        r
    }
}

/// A width of `w` bounded by `limit`.
pub open spec fn bounded_width<C: CoordType>(w: int, limit: Option<C>) -> int {
    match limit {
        Some(l) => if w <= l.val() { w } else { l.val() },
        None => w,
    }
}

/// One row bounded by `limit`.
pub open spec fn bounded_height<C: CoordType>(limit: Option<C>) -> int {
    match limit {
        Some(l) => if 1 <= l.val() { 1 } else { l.val() },
        None => 1,
    }
}

} // verus!
