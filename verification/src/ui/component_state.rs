//! The state every component keeps: its bounds and whether it must be redrawn.
use super::coord::CoordType;
use super::rect::{imin, Rect};
use vstd::prelude::*;

verus! {

/// Upper bounds on a component's size; `None` leaves a dimension free.
#[derive(Debug, Clone, Copy, PartialEq, Eq)]
pub struct SizeConstraints<C: CoordType> {
    pub width: Option<C>,
    pub height: Option<C>,
}

/// `v` bounded by `limit`, when there is one.
pub open spec fn bounded_by<C: CoordType>(v: C, limit: Option<C>) -> int {
    match limit {
        Some(l) => imin(v.val(), l.val()),
        None => v.val(),
    }
}

impl<C: CoordType> SizeConstraints<C> {
    /// Both dimensions bounded.
    pub fn new(width: C, height: C) -> (s: Self)
        ensures
            s == (SizeConstraints { width: Some(width), height: Some(height) }),
    {
        SizeConstraints { width: Some(width), height: Some(height) }
    }

    /// No bound at all.
    pub fn unbounded() -> (s: Self)
        ensures
            s == (SizeConstraints::<C> { width: None, height: None }),
    {
        SizeConstraints { width: None, height: None }
    }

    /// Only the width bounded.
    pub fn width(width: C) -> (s: Self)
        ensures
            s == (SizeConstraints { width: Some(width), height: None }),
    {
        SizeConstraints { width: Some(width), height: None }
    }

    /// A size cut down to the bounds.
    pub fn clip(&self, width: C, height: C) -> (r: (C, C))
        ensures
            r.0.val() == bounded_by(width, self.width),
            r.1.val() == bounded_by(height, self.height),
    {
        let w = match self.width {
            Some(l) => if l.below(width) { l } else { width },
            None => width,
        };
        let h = match self.height {
            Some(l) => if l.below(height) { l } else { height },
            None => height,
        };
        (w, h)
    }
}

/// Operations on a component's state.
pub trait ComponentStateTrait<C: CoordType> {
    /// Whether the component must be redrawn.
    spec fn dirty(&self) -> bool;

    /// The component's bounds, if laid out.
    spec fn bounds(&self) -> Option<Rect<C>>;

    /// Mark the rendering as needing a redraw.
    fn mark_render_dirty(&mut self)
        ensures
            final(self).dirty(),
            final(self).bounds() == old(self).bounds(),
    ;

    /// Mark the rendering as up to date.
    fn mark_render_clean(&mut self)
        ensures
            !final(self).dirty(),
            final(self).bounds() == old(self).bounds(),
    ;

    /// Whether the component must be redrawn.
    fn is_render_dirty(&self) -> (b: bool)
        ensures
            b == self.dirty(),
    ;

    /// The component's bounds.
    fn rect(&self) -> (r: &Option<Rect<C>>)
        ensures
            *r == self.bounds(),
    ;

    /// Set the component's bounds (for layout or resize).
    fn set_rect(&mut self, rect: Option<Rect<C>>)
        ensures
            final(self).bounds() == rect,
            final(self).dirty() == old(self).dirty(),
    ;

    /// Whether the point `pos` lies inside the component.
    fn contains(&self, pos: (C, C)) -> (b: bool)
        ensures
            b == (self.bounds() matches Some(r) && r.holds(pos.0.val(), pos.1.val())),
    ;
}

/// A component's bounds and its redraw flag.
#[derive(Debug, Clone, Copy, PartialEq, Eq)]
pub struct ComponentState<C: CoordType> {
    rect: Option<Rect<C>>,
    render_dirty: bool,
}

impl<C: CoordType> ComponentState<C> {
    /// A new state with the given bounds, marked for redraw.
    pub fn new(rect: Option<Rect<C>>) -> (s: Self)
        ensures
            s.bounds() == rect,
            s.dirty(),
    {
        ComponentState { rect, render_dirty: true }
    }
}

impl<C: CoordType> Default for ComponentState<C> {
    fn default() -> (s: Self)
        ensures
            s.bounds() == None::<Rect<C>>,
            s.dirty(),
    {
        ComponentState::new(None)
    }
}

impl<C: CoordType> ComponentStateTrait<C> for ComponentState<C> {
    closed spec fn dirty(&self) -> bool {
        self.render_dirty
    }

    closed spec fn bounds(&self) -> Option<Rect<C>> {
        self.rect
    }

    fn mark_render_dirty(&mut self) {
        self.render_dirty = true;
    }

    fn mark_render_clean(&mut self) {
        self.render_dirty = false;
    }

    fn is_render_dirty(&self) -> (b: bool) {
        self.render_dirty
    }

    fn rect(&self) -> (r: &Option<Rect<C>>) {
        &self.rect
    }

    fn set_rect(&mut self, rect: Option<Rect<C>>) {
        self.rect = rect;
    }

    fn contains(&self, pos: (C, C)) -> (b: bool) {
        match self.rect {
            Some(r) => r.contains(pos),
            None => false,
        }
    }
}

} // verus!
