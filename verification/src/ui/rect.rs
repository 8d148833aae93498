//! Axis-aligned rectangles in integer coordinates.
use super::coord::{clamp, CoordType};
use vstd::prelude::*;

verus! {

/// The larger of two integers.
pub open spec fn imax(a: int, b: int) -> int {
    if a >= b { a } else { b }
}

/// The smaller of two integers.
pub open spec fn imin(a: int, b: int) -> int {
    if a <= b { a } else { b }
}

/// Position and size of a component or window.
#[derive(Debug, Clone, Copy, PartialEq, Eq)]
pub struct Rect<C: CoordType> {
    /// X coordinate (column).
    pub x: C,
    /// Y coordinate (row).
    pub y: C,
    /// Width in columns.
    pub width: C,
    /// Height in rows.
    pub height: C,
}

/// The last column of a span that starts at `start` and is `len` long
/// (`start` itself for an empty span), clamped into the coordinate range.
pub open spec fn last_of<C: CoordType>(start: C, len: C) -> int {
    clamp(start.val() + imax(clamp(len.val() - 1, C::lo(), C::hi()), 0), C::lo(), C::hi())
}

impl<C: CoordType> Rect<C> {
    /// The right edge, as `right()` computes it.
    pub open spec fn spec_right(self) -> int {
        last_of(self.x, self.width)
    }

    /// The bottom edge, as `bottom()` computes it.
    pub open spec fn spec_bottom(self) -> int {
        last_of(self.y, self.height)
    }

    /// Whether the rectangle has no area.
    pub open spec fn is_empty_area(self) -> bool {
        self.width.val() == 0 || self.height.val() == 0
    }

    /// Whether the point `(px, py)` lies in the rectangle.
    pub open spec fn holds(self, px: int, py: int) -> bool {
        &&& !self.is_empty_area()
        &&& self.x.val() <= px <= self.spec_right()
        &&& self.y.val() <= py <= self.spec_bottom()
    }

    /// Whether the rectangles overlap in at least one cell.
    pub open spec fn overlaps(self, other: Rect<C>) -> bool {
        &&& !self.is_empty_area()
        &&& !other.is_empty_area()
        &&& self.x.val() <= other.spec_right()
        &&& self.spec_right() >= other.x.val()
        &&& self.y.val() <= other.spec_bottom()
        &&& self.spec_bottom() >= other.y.val()
    }

    /// Whether the union of the two rectangles fits the coordinate type.
    pub open spec fn union_fits(self, other: Rect<C>) -> bool {
        &&& imax(self.spec_right(), other.spec_right()) - imin(self.x.val(), other.x.val()) + 1 <= C::hi()
        &&& imax(self.spec_bottom(), other.spec_bottom()) - imin(self.y.val(), other.y.val()) + 1 <= C::hi()
    }

    /// Whether the intersection of the two rectangles fits the coordinate type.
    pub open spec fn intersection_fits(self, other: Rect<C>) -> bool {
        &&& imin(self.spec_right(), other.spec_right()) - imax(self.x.val(), other.x.val()) + 1 <= C::hi()
        &&& imin(self.spec_bottom(), other.spec_bottom()) - imax(self.y.val(), other.y.val()) + 1 <= C::hi()
    }

    /// Create a new rectangle.
    pub fn new(x: C, y: C, width: C, height: C) -> (r: Self)
        ensures
            r == (Rect { x, y, width, height }),
    {
        Rect { x, y, width, height }
    }

    /// The right edge, `x + width - 1` (`x` for an empty width), saturating.
    pub fn right(&self) -> (r: C)
        ensures
            r.val() == self.spec_right(),
    {
        last_cell(self.x, self.width)
    }

    /// The bottom edge, `y + height - 1` (`y` for an empty height), saturating.
    pub fn bottom(&self) -> (r: C)
        ensures
            r.val() == self.spec_bottom(),
    {
        last_cell(self.y, self.height)
    }

    /// Whether the point `pos` is inside this rectangle.
    pub fn contains(&self, pos: (C, C)) -> (b: bool)
        ensures
            b == self.holds(pos.0.val(), pos.1.val()),
    {
        let zero = C::zero();
        if self.width.same(zero) || self.height.same(zero) {
            return false;
        }
        let (px, py) = pos;
        self.x.at_most(px) && px.at_most(self.right()) && self.y.at_most(py) && py.at_most(self.bottom())
    }

    /// This rectangle with the parent's offset removed.
    pub fn relative(&self, parent: Rect<C>) -> (r: Rect<C>)
        requires
            C::lo() <= self.x.val() - parent.x.val() <= C::hi(),
            C::lo() <= self.y.val() - parent.y.val() <= C::hi(),
        ensures
            cells(r) == relative_of(*self, parent),
            r.width == self.width,
            r.height == self.height,
    {
        Rect::new(self.x.minus(parent.x), self.y.minus(parent.y), self.width, self.height)
    }

    /// This rectangle with the parent's offset applied.
    pub fn absolute(&self, parent: Rect<C>) -> (r: Rect<C>)
        requires
            C::lo() <= parent.x.val() + self.x.val() <= C::hi(),
            C::lo() <= parent.y.val() + self.y.val() <= C::hi(),
        ensures
            cells(r) == absolute_of(*self, parent),
            r.width == self.width,
            r.height == self.height,
    {
        Rect::new(parent.x.plus(self.x), parent.y.plus(self.y), self.width, self.height)
    }

    /// Whether this rectangle overlaps `other` (both in one coordinate space).
    pub fn intersects(&self, other: Rect<C>) -> (b: bool)
        ensures
            b == self.overlaps(other),
    {
        let zero = C::zero();
        if self.width.same(zero) || self.height.same(zero) || other.width.same(zero) || other.height.same(zero) {
            return false;
        }
        self.x.at_most(other.right()) && other.x.at_most(self.right()) && self.y.at_most(other.bottom())
            && other.y.at_most(self.bottom())
    }

    /// The overlap of two rectangles in one coordinate space; the empty
    /// rectangle at the origin when the overlap is thinner than two cells.
    pub fn intersection(&self, other: Rect<C>) -> (r: Rect<C>)
        ensures
            cells(r) == intersection_of(*self, other),
    {
        proof {
            lemma_intersection_fits(*self, other);
        }
        let x = larger(self.x, other.x);
        let y = larger(self.y, other.y);
        let right = smaller(self.right(), other.right());
        let bottom = smaller(self.bottom(), other.bottom());
        if x.below(right) && y.below(bottom) {
            proof {
                right.lemma_range();
                x.lemma_range();
                bottom.lemma_range();
                y.lemma_range();
            }
            Rect::new(x, y, right.minus(x).plus(C::one()), bottom.minus(y).plus(C::one()))
        } else {
            let zero = C::zero();
            Rect::new(zero, zero, zero, zero)
        }
    }

    /// The smallest rectangle holding both rectangles (one coordinate space).
    pub fn union(&self, other: Rect<C>) -> (r: Rect<C>)
        requires
            self.union_fits(other),
        ensures
            cells(r) == union_of(*self, other),
    {
        let x = smaller(self.x, other.x);
        let y = smaller(self.y, other.y);
        let right = larger(self.right(), other.right());
        let bottom = larger(self.bottom(), other.bottom());
        proof {
            self.x.lemma_range();
            self.y.lemma_range();
            lemma_last_at_least(self.x, self.width);
            lemma_last_at_least(other.x, other.width);
            lemma_last_at_least(self.y, self.height);
            lemma_last_at_least(other.y, other.height);
            x.lemma_range();
            y.lemma_range();
            right.lemma_range();
            bottom.lemma_range();
        }
        Rect::new(x, y, right.minus(x).plus(C::one()), bottom.minus(y).plus(C::one()))
    }
}

/// The overlap of two rectangles always spans few enough cells for the
/// coordinate type to count them.
pub proof fn lemma_intersection_fits<C: CoordType>(a: Rect<C>, b: Rect<C>)
    ensures
        a.intersection_fits(b),
{
    a.x.lemma_range();
    a.y.lemma_range();
    a.width.lemma_range();
    a.height.lemma_range();
    b.x.lemma_range();
    b.y.lemma_range();
}

/// The last cell of a span never lies before its start.
proof fn lemma_last_at_least<C: CoordType>(start: C, len: C)
    ensures
        last_of(start, len) >= start.val(),
{
    start.lemma_range();
}

/// The last cell of the span of `len` cells starting at `start`, saturating.
fn last_cell<C: CoordType>(start: C, len: C) -> (r: C)
    ensures
        r.val() == last_of(start, len),
{
    let zero = C::zero();
    let shrunk = len.sat_sub(C::one());
    let extra = if shrunk.below(zero) { zero } else { shrunk };
    start.sat_add(extra)
}

/// The larger of two coordinates.
fn larger<C: CoordType>(a: C, b: C) -> (r: C)
    ensures
        r.val() == imax(a.val(), b.val()),
{
    if b.at_most(a) { a } else { b }
}

/// The smaller of two coordinates.
fn smaller<C: CoordType>(a: C, b: C) -> (r: C)
    ensures
        r.val() == imin(a.val(), b.val()),
{
    if a.at_most(b) { a } else { b }
}

impl<C: CoordType> Default for Rect<C> {
    fn default() -> (r: Self)
        ensures
            r.x.val() == 0 && r.y.val() == 0 && r.width.val() == 0 && r.height.val() == 0,
    {
        let zero = C::zero();
        Rect::new(zero, zero, zero, zero)
    }
}

/// The cells of a rectangle as `(x, y, width, height)` values.
pub open spec fn cells<C: CoordType>(r: Rect<C>) -> (int, int, int, int) {
    (r.x.val(), r.y.val(), r.width.val(), r.height.val())
}

/// The union that `union` computes, as `(x, y, width, height)`.
pub open spec fn union_of<C: CoordType>(a: Rect<C>, b: Rect<C>) -> (int, int, int, int) {
    (
        imin(a.x.val(), b.x.val()),
        imin(a.y.val(), b.y.val()),
        imax(a.spec_right(), b.spec_right()) - imin(a.x.val(), b.x.val()) + 1,
        imax(a.spec_bottom(), b.spec_bottom()) - imin(a.y.val(), b.y.val()) + 1,
    )
}

/// The intersection that `intersection` computes, as `(x, y, width, height)`.
pub open spec fn intersection_of<C: CoordType>(a: Rect<C>, b: Rect<C>) -> (int, int, int, int) {
    let x = imax(a.x.val(), b.x.val());
    let y = imax(a.y.val(), b.y.val());
    let right = imin(a.spec_right(), b.spec_right());
    let bottom = imin(a.spec_bottom(), b.spec_bottom());
    if right > x && bottom > y {
        (x, y, right - x + 1, bottom - y + 1)
    } else {
        (0, 0, 0, 0)
    }
}

/// Union, intersection and overlap do not depend on the order of the two rectangles.
pub proof fn lemma_symmetric<C: CoordType>(a: Rect<C>, b: Rect<C>)
    ensures
        union_of(a, b) == union_of(b, a),
        intersection_of(a, b) == intersection_of(b, a),
        a.overlaps(b) == b.overlaps(a),
        a.union_fits(b) == b.union_fits(a),
        a.intersection_fits(b) == b.intersection_fits(a),
{
}

/// Two rectangles with the same cells are the same rectangle.
pub proof fn lemma_cells_determine<C: CoordType>(a: Rect<C>, b: Rect<C>)
    ensures
        cells(a) == cells(b) <==> a == b,
{
    a.x.lemma_eq(b.x);
    a.y.lemma_eq(b.y);
    a.width.lemma_eq(b.width);
    a.height.lemma_eq(b.height);
}

/// The cells of `r` with the offset of `parent` removed.
pub open spec fn relative_of<C: CoordType>(r: Rect<C>, parent: Rect<C>) -> (int, int, int, int) {
    (r.x.val() - parent.x.val(), r.y.val() - parent.y.val(), r.width.val(), r.height.val())
}

/// The cells of `r` with the offset of `parent` applied.
pub open spec fn absolute_of<C: CoordType>(r: Rect<C>, parent: Rect<C>) -> (int, int, int, int) {
    (parent.x.val() + r.x.val(), parent.y.val() + r.y.val(), r.width.val(), r.height.val())
}

/// Applying a parent's offset to a rectangle made relative to that parent
/// gives the rectangle back, and the other way round.
pub proof fn lemma_relative_absolute_inverse<C: CoordType>(r: Rect<C>, parent: Rect<C>, q: Rect<C>)
    ensures
        cells(q) == relative_of(r, parent) ==> absolute_of(q, parent) == cells(r),
        cells(q) == absolute_of(r, parent) ==> relative_of(q, parent) == cells(r),
{
}

/// Every cell of the intersection of two rectangles lies in both of them.
pub proof fn lemma_intersection_inside<C: CoordType>(a: Rect<C>, b: Rect<C>, r: Rect<C>, px: int, py: int)
    requires
        cells(r) == intersection_of(a, b),
        r.holds(px, py),
    ensures
        a.holds(px, py),
        b.holds(px, py),
{
    r.x.lemma_range();
    r.width.lemma_range();
    r.y.lemma_range();
    r.height.lemma_range();
    a.x.lemma_range();
    b.x.lemma_range();
    a.y.lemma_range();
    b.y.lemma_range();
    lemma_last_at_least(a.x, a.width);
    lemma_last_at_least(b.x, b.width);
    lemma_last_at_least(a.y, a.height);
    lemma_last_at_least(b.y, b.height);
}

/// Every cell of either rectangle lies in their union.
pub proof fn lemma_union_covers<C: CoordType>(a: Rect<C>, b: Rect<C>, r: Rect<C>, px: int, py: int)
    requires
        cells(r) == union_of(a, b),
        a.holds(px, py) || b.holds(px, py),
    ensures
        r.holds(px, py),
{
    r.x.lemma_range();
    r.width.lemma_range();
    r.y.lemma_range();
    r.height.lemma_range();
    a.x.lemma_range();
    b.x.lemma_range();
    a.y.lemma_range();
    b.y.lemma_range();
    lemma_last_at_least(a.x, a.width);
    lemma_last_at_least(b.x, b.width);
    lemma_last_at_least(a.y, a.height);
    lemma_last_at_least(b.y, b.height);
}

/// A non-empty intersection comes only from rectangles that overlap.
pub proof fn lemma_intersection_needs_overlap<C: CoordType>(a: Rect<C>, b: Rect<C>, r: Rect<C>)
    requires
        cells(r) == intersection_of(a, b),
        !r.is_empty_area(),
    ensures
        a.overlaps(b),
{
    a.x.lemma_range();
    b.x.lemma_range();
    a.y.lemma_range();
    b.y.lemma_range();
    lemma_last_at_least(a.x, a.width);
    lemma_last_at_least(b.x, b.width);
    lemma_last_at_least(a.y, a.height);
    lemma_last_at_least(b.y, b.height);
}

} // verus!
