//! Layouts of children: inline (side by side, wrapping to a new line when
//! the next child would pass the right edge of a line that is not empty)
//! and block (stacked, each child asked for its size in turn).
use super::component_state::SizeConstraints;
use super::coord::CoordType;
use super::rect::{cells, imax, imin, lemma_cells_determine, Rect};
use vstd::prelude::*;

verus! {

/// Where a child `w` wide goes from pen `p` = (x, y, line height): to the
/// start of the next line when it would pass `limit` and the line already
/// holds something (x past `start`), else where the pen is.
pub open spec fn flow_spot(start: int, limit: int, p: (int, int, int), w: int) -> (int, int, int) {
    if p.0 + w > limit && p.0 > start {
        (start, p.1 + p.2, 0)
    } else {
        p
    }
}

/// The pen (x, y, line height) after placing children of `sizes` in order,
/// from column `start` and row `top`, with lines ending at `limit`.
pub open spec fn flow_pen<C: CoordType>(start: int, top: int, limit: int, sizes: Seq<(C, C)>) -> (int, int, int)
    decreases sizes.len(),
{
    if sizes.len() == 0 {
        (start, top, 0)
    } else {
        let p = flow_pen(start, top, limit, sizes.drop_last());
        let s = sizes.last();
        let at = flow_spot(start, limit, p, s.0.val());
        (at.0 + s.0.val(), at.1, imax(at.2, s.1.val()))
    }
}

/// The farthest the pen reached, starting from 0, while placing `sizes`.
pub open spec fn flow_widest<C: CoordType>(start: int, top: int, limit: int, sizes: Seq<(C, C)>) -> int
    decreases sizes.len(),
{
    if sizes.len() == 0 {
        0
    } else {
        imax(flow_widest(start, top, limit, sizes.drop_last()), flow_pen(start, top, limit, sizes).0)
    }
}

/// Whether placing a child `w` wide from pen `p` stays in the coordinate type.
pub open spec fn flow_step_fits<C: CoordType>(start: int, limit: int, p: (int, int, int), w: int) -> bool {
    &&& C::lo() <= p.0 + w <= C::hi()
    &&& (p.0 + w > limit && p.0 > start) ==> C::lo() <= p.1 + p.2 <= C::hi()
    &&& C::lo() <= flow_spot(start, limit, p, w).0 + w <= C::hi()
}

/// Whether placing all of `sizes` stays in the coordinate type.
pub open spec fn flow_fits<C: CoordType>(start: int, top: int, limit: int, sizes: Seq<(C, C)>) -> bool {
    forall|i: int|
        0 <= i < sizes.len() ==> flow_step_fits::<C>(
            start,
            limit,
            flow_pen(start, top, limit, #[trigger] sizes.take(i)),
            sizes[i].0.val(),
        )
}

/// Where child `i` of `sizes` goes.
pub open spec fn flow_place<C: CoordType>(start: int, top: int, limit: int, sizes: Seq<(C, C)>, i: int) -> (int, int, int) {
    flow_spot(start, limit, flow_pen(start, top, limit, sizes.take(i)), sizes[i].0.val())
}

/// Where inline layout puts a child, said of the placements themselves: a
/// child that does not start a line ends within it; the first child starts
/// at the corner; every later child either follows the one before on its
/// line (and then ends within the line, or that line held nothing before
/// it), or starts the next line because it would have passed the limit
/// after a child that ended past the line's start.
pub proof fn lemma_inline_placement<C: CoordType>(start: int, top: int, limit: int, sizes: Seq<(C, C)>, i: int)
    requires
        0 <= i < sizes.len(),
    ensures
        ({
            let at = flow_place(start, top, limit, sizes, i);
            let w = sizes[i].0.val();
            &&& at.0 > start ==> at.0 + w <= limit
            &&& i == 0 ==> at.0 == start && at.1 == top
            &&& i > 0 ==> {
                let prev = flow_place(start, top, limit, sizes, i - 1);
                let px = prev.0 + sizes[i - 1].0.val();
                ||| (at.0 == px && at.1 == prev.1 && (px + w <= limit || px <= start))
                ||| (at.0 == start && px + w > limit && px > start
                    && at.1 == prev.1 + imax(prev.2, sizes[i - 1].1.val()))
            }
        }),
{
    if i == 0 {
        assert(sizes.take(0) =~= Seq::<(C, C)>::empty());
    } else {
        lemma_take_next(sizes, i - 1);
    }
}

/// The farthest point an inline run reaches, said of the placements: no
/// child ends past it, and it is where some child ends (or 0 when none ends
/// past 0).
pub proof fn lemma_inline_widest<C: CoordType>(start: int, top: int, limit: int, sizes: Seq<(C, C)>)
    ensures
        forall|i: int| 0 <= i < sizes.len() ==>
            #[trigger] flow_place(start, top, limit, sizes, i).0 + sizes[i].0.val() <= flow_widest(start, top, limit, sizes),
        flow_widest(start, top, limit, sizes) >= 0,
        flow_widest(start, top, limit, sizes) == 0 || exists|i: int| 0 <= i < sizes.len()
            && flow_widest(start, top, limit, sizes) == #[trigger] flow_place(start, top, limit, sizes, i).0 + sizes[i].0.val(),
    decreases sizes.len(),
{
    if sizes.len() > 0 {
        let d = sizes.drop_last();
        let k = sizes.len() - 1;
        lemma_inline_widest(start, top, limit, d);
        assert(sizes.take(k) =~= d);
        assert forall|i: int| 0 <= i < d.len() implies flow_place(start, top, limit, sizes, i) == #[trigger] flow_place(start, top, limit, d, i) by {
            assert(sizes.take(i) =~= d.take(i));
        }
        assert(sizes.take(k + 1) =~= sizes);
        lemma_take_next(sizes, k);
        assert forall|i: int| 0 <= i < sizes.len() implies
            #[trigger] flow_place(start, top, limit, sizes, i).0 + sizes[i].0.val() <= flow_widest(start, top, limit, sizes) by {
            if i < k {
                assert(flow_place(start, top, limit, sizes, i) == flow_place(start, top, limit, d, i));
                assert(sizes[i] == d[i]);
            }
        }
        if flow_widest(start, top, limit, sizes) != 0 {
            if flow_widest(start, top, limit, sizes) == flow_pen(start, top, limit, sizes).0 {
                assert(flow_widest(start, top, limit, sizes) == flow_place(start, top, limit, sizes, k).0 + sizes[k].0.val());
            } else {
                let i = choose|i: int| 0 <= i < d.len()
                    && flow_widest(start, top, limit, d) == #[trigger] flow_place(start, top, limit, d, i).0 + d[i].0.val();
                assert(flow_place(start, top, limit, sizes, i) == flow_place(start, top, limit, d, i));
                assert(sizes[i] == d[i]);
            }
        }
    }
}

/// `v` bounded by `limit`, when there is one.
pub open spec fn capped<C: CoordType>(v: int, limit: Option<C>) -> int {
    match limit {
        Some(l) => imin(v, l.val()),
        None => v,
    }
}

/// The larger of two coordinates.
fn coord_max<C: CoordType>(a: C, b: C) -> (r: C)
    ensures
        r.val() == imax(a.val(), b.val()),
{
    if b.at_most(a) { a } else { b }
}

/// One placement: the spot for a child `w` wide from pen (x, y, line),
/// and the pen after it.
fn flow_step<C: CoordType>(start: C, limit: C, x: C, y: C, line: C, w: C, h: C) -> (r: (C, C, C, C, C))
    requires
        flow_step_fits::<C>(start.val(), limit.val(), (x.val(), y.val(), line.val()), w.val()),
    ensures
        ({
            let at = flow_spot(start.val(), limit.val(), (x.val(), y.val(), line.val()), w.val());
            &&& r.0.val() == at.0
            &&& r.1.val() == at.1
            &&& r.2.val() == at.0 + w.val()
            &&& r.3.val() == at.1
            &&& r.4.val() == imax(at.2, h.val())
        }),
{
    let mut x = x;
    let mut y = y;
    let mut line = line;
    if limit.below(x.plus(w)) && start.below(x) {
        y = y.plus(line);
        x = start;
        line = C::zero();
    }
    (x, y, x.plus(w), y, coord_max(line, h))
}

/// The prefix of one more child extends the prefix before it.
proof fn lemma_take_next<C: CoordType>(sizes: Seq<(C, C)>, i: int)
    requires
        0 <= i < sizes.len(),
    ensures
        sizes.take(i + 1).drop_last() == sizes.take(i),
        sizes.take(i + 1).last() == sizes[i],
        sizes.take(i + 1).len() > 0,
{
    assert(sizes.take(i + 1).drop_last() =~= sizes.take(i));
}

/// Lays children of the given sizes out inline in `available`: each goes
/// to the right of the one before, and a child that would pass the right
/// edge starts a new line below the tallest child of the line, unless its
/// line is still empty. Returns each child's rectangle.
pub fn inline_layout<C: CoordType>(available: Rect<C>, sizes: &Vec<(C, C)>) -> (r: Vec<Rect<C>>)
    requires
        sizes@.len() > 0 ==> C::lo() <= available.x.val() + available.width.val() <= C::hi(),
        flow_fits::<C>(available.x.val(), available.y.val(), available.x.val() + available.width.val(), sizes@),
    ensures
        r@.len() == sizes@.len(),
        forall|i: int|
            0 <= i < sizes@.len() ==> {
                let at = flow_place(available.x.val(), available.y.val(), available.x.val() + available.width.val(), sizes@, i);
                cells(#[trigger] r@[i]) == (at.0, at.1, sizes@[i].0.val(), sizes@[i].1.val())
            },
        forall|i: int| 0 <= i < sizes@.len() ==> (#[trigger] r@[i]).width == sizes@[i].0 && r@[i].height == sizes@[i].1,
        forall|i: int| 0 <= i < sizes@.len() && (#[trigger] r@[i]).x.val() > available.x.val() ==>
            r@[i].x.val() + r@[i].width.val() <= available.x.val() + available.width.val(),
        sizes@.len() > 0 ==> r@[0].x == available.x && r@[0].y == available.y,
        forall|i: int| 0 < i < sizes@.len() ==> {
            let px = r@[i - 1].x.val() + r@[i - 1].width.val();
            ||| ((#[trigger] r@[i]).x.val() == px && r@[i].y == r@[i - 1].y)
            ||| (r@[i].x == available.x && px + r@[i].width.val() > available.x.val() + available.width.val()
                && px > available.x.val() && r@[i].y.val() >= r@[i - 1].y.val() + imax(0, r@[i - 1].height.val()))
        },
{
    let ghost start = available.x.val();
    let ghost top = available.y.val();
    let ghost limit = available.x.val() + available.width.val();
    let mut rects: Vec<Rect<C>> = Vec::new();
    if sizes.len() == 0 {
        return rects;
    }
    let edge = available.x.plus(available.width);
    let mut x = available.x;
    let mut y = available.y;
    let mut line = C::zero();
    let mut i: usize = 0;
    proof {
        assert(sizes@.take(0) =~= Seq::<(C, C)>::empty());
    }
    while i < sizes.len()
        invariant
            i <= sizes@.len(),
            start == available.x.val(),
            top == available.y.val(),
            limit == available.x.val() + available.width.val(),
            edge.val() == limit,
            flow_fits::<C>(start, top, limit, sizes@),
            (x.val(), y.val(), line.val()) == flow_pen(start, top, limit, sizes@.take(i as int)),
            rects@.len() == i,
            forall|k: int|
                0 <= k < i ==> {
                    let at = flow_place(start, top, limit, sizes@, k);
                    cells(#[trigger] rects@[k]) == (at.0, at.1, sizes@[k].0.val(), sizes@[k].1.val())
                },
        decreases sizes@.len() - i,
    {
        let (w, h) = sizes[i];
        proof {
            lemma_take_next(sizes@, i as int);
        }
        let (cx, cy, nx, ny, nl) = flow_step(available.x, edge, x, y, line, w, h);
        rects.push(Rect::new(cx, cy, w, h));
        x = nx;
        y = ny;
        line = nl;
        i += 1;
    }
    proof {
        assert forall|k: int| 0 <= k < sizes@.len() && (#[trigger] rects@[k]).x.val() > available.x.val() implies
            rects@[k].x.val() + rects@[k].width.val() <= available.x.val() + available.width.val() by {
            lemma_inline_placement(start, top, limit, sizes@, k);
        }
        assert forall|k: int| 0 <= k < sizes@.len() implies (#[trigger] rects@[k]).width == sizes@[k].0 && rects@[k].height == sizes@[k].1 by {
            lemma_cells_determine(rects@[k], Rect { width: sizes@[k].0, height: sizes@[k].1, ..rects@[k] });
        }
        if sizes@.len() > 0 {
            lemma_cells_determine(rects@[0], Rect { x: available.x, y: available.y, ..rects@[0] });
        }
        assert forall|k: int| 0 < k < sizes@.len() implies {
            let px = rects@[k - 1].x.val() + rects@[k - 1].width.val();
            ||| ((#[trigger] rects@[k]).x.val() == px && rects@[k].y == rects@[k - 1].y)
            ||| (rects@[k].x == available.x && px + rects@[k].width.val() > available.x.val() + available.width.val()
                && px > available.x.val() && rects@[k].y.val() >= rects@[k - 1].y.val() + imax(0, rects@[k - 1].height.val()))
        } by {
            rects@[k].y.lemma_eq(rects@[k - 1].y);
            rects@[k].x.lemma_eq(available.x);
            lemma_inline_placement(start, top, limit, sizes@, k);
            lemma_line_height_at_least(start, top, limit, sizes@, k - 1);
        }
    }
    rects
}

/// The line height a placement carries is never negative.
proof fn lemma_line_height_at_least<C: CoordType>(start: int, top: int, limit: int, sizes: Seq<(C, C)>, i: int)
    requires
        0 <= i < sizes.len(),
    ensures
        flow_place(start, top, limit, sizes, i).2 >= 0,
        flow_pen(start, top, limit, sizes.take(i)).2 >= 0,
    decreases i,
{
    if i > 0 {
        lemma_line_height_at_least(start, top, limit, sizes, i - 1);
        lemma_take_next(sizes, i - 1);
    } else {
        assert(sizes.take(0) =~= Seq::<(C, C)>::empty());
    }
}

/// The size of children of the given sizes laid out inline with lines as
/// wide as the width bound (the largest coordinate without one): the
/// farthest any line reaches and the height of all lines, cut down to the
/// bounds; nothing for no children.
pub fn inline_size<C: CoordType>(sizes: &Vec<(C, C)>, constraints: SizeConstraints<C>) -> (r: (C, C))
    requires
        ({
            let limit = match constraints.width {
                Some(w) => w.val(),
                None => C::hi(),
            };
            let end = flow_pen(0, 0, limit, sizes@);
            &&& flow_fits::<C>(0, 0, limit, sizes@)
            &&& sizes@.len() > 0 ==> C::lo() <= end.1 + end.2 <= C::hi()
        }),
    ensures
        ({
            let limit = match constraints.width {
                Some(w) => w.val(),
                None => C::hi(),
            };
            let end = flow_pen(0, 0, limit, sizes@);
            &&& sizes@.len() == 0 ==> r.0.val() == 0 && r.1.val() == 0
            &&& sizes@.len() > 0 ==> r.0.val() == capped(flow_widest(0, 0, limit, sizes@), constraints.width)
                && r.1.val() == capped(end.1 + end.2, constraints.height)
            &&& forall|i: int| 0 <= i < sizes@.len() ==>
                capped(#[trigger] flow_place(0, 0, limit, sizes@, i).0 + sizes@[i].0.val(), constraints.width) <= r.0.val()
            &&& forall|i: int| 0 <= i < sizes@.len() && (#[trigger] flow_place(0, 0, limit, sizes@, i)).0 > 0 ==>
                flow_place(0, 0, limit, sizes@, i).0 + sizes@[i].0.val() <= limit
        }),
{
    let zero = C::zero();
    if sizes.len() == 0 {
        return (zero, zero);
    }
    let limit_c = match constraints.width {
        Some(w) => w,
        None => C::max_value(),
    };
    let ghost limit = limit_c.val();
    let mut x = zero;
    let mut y = zero;
    let mut line = zero;
    let mut widest = zero;
    let mut i: usize = 0;
    proof {
        assert(sizes@.take(0) =~= Seq::<(C, C)>::empty());
    }
    while i < sizes.len()
        invariant
            i <= sizes@.len(),
            zero.val() == 0,
            limit == limit_c.val(),
            flow_fits::<C>(0, 0, limit, sizes@),
            (x.val(), y.val(), line.val()) == flow_pen(0, 0, limit, sizes@.take(i as int)),
            widest.val() == flow_widest(0, 0, limit, sizes@.take(i as int)),
        decreases sizes@.len() - i,
    {
        let (w, h) = sizes[i];
        proof {
            lemma_take_next(sizes@, i as int);
        }
        let (_cx, _cy, nx, ny, nl) = flow_step(zero, limit_c, x, y, line, w, h);
        x = nx;
        y = ny;
        line = nl;
        widest = coord_max(widest, x);
        i += 1;
    }
    proof {
        assert(sizes@.take(sizes@.len() as int) =~= sizes@);
        lemma_inline_widest(0, 0, limit, sizes@);
        assert forall|i: int| 0 <= i < sizes@.len() && (#[trigger] flow_place(0, 0, limit, sizes@, i)).0 > 0 implies
            flow_place(0, 0, limit, sizes@, i).0 + sizes@[i].0.val() <= limit by {
            lemma_inline_placement(0, 0, limit, sizes@, i);
        }
    }
    let height = y.plus(line);
    constraints.clip(widest, height)
}

/// The bound `limit`, or the largest coordinate without one.
pub open spec fn bound_or_max<C: CoordType>(limit: Option<C>) -> int {
    match limit {
        Some(l) => l.val(),
        None => C::hi(),
    }
}

/// Measuring children stacked in a block, one child at a time: each child
/// is asked for its size under [`BlockMeasure::next_constraints`] until that
/// gives `None` or the children run out, and its answer goes to
/// [`BlockMeasure::add`]. The block's size is then `width` and `height` cut
/// down to the constraints it was measured under (nothing for no children).
#[derive(Debug, Clone, Copy, PartialEq, Eq)]
pub struct BlockMeasure<C: CoordType> {
    /// The widest child so far.
    pub width: C,
    /// The height of the children so far.
    pub height: C,
    /// The width bound the children are asked with.
    pub max_width: C,
    /// The height the children may fill.
    pub max_height: C,
}

impl<C: CoordType> BlockMeasure<C> {
    /// Starts measuring under `constraints`; a missing bound is the largest
    /// coordinate.
    pub fn start(constraints: SizeConstraints<C>) -> (m: Self)
        ensures
            m.width.val() == 0,
            m.height.val() == 0,
            m.max_width.val() == bound_or_max(constraints.width),
            m.max_height.val() == bound_or_max(constraints.height),
    {
        let zero = C::zero();
        let max_height = match constraints.height {
            Some(h) => h,
            None => C::max_value(),
        };
        let max_width = match constraints.width {
            Some(w) => w,
            None => C::max_value(),
        };
        BlockMeasure { width: zero, height: zero, max_width, max_height }
    }

    /// The constraints to ask the next child with: the width bound and the
    /// height left; `None` once the height is used up.
    pub fn next_constraints(&self) -> (r: Option<SizeConstraints<C>>)
        requires
            self.height.val() < self.max_height.val() ==> self.max_height.val() - self.height.val() <= C::hi(),
        ensures
            r is None <==> self.height.val() >= self.max_height.val(),
            r matches Some(c) ==> c.width == Some(self.max_width)
                && (c.height matches Some(h) && h.val() == self.max_height.val() - self.height.val()),
    {
        if self.max_height.at_most(self.height) {
            return None;
        }
        proof {
            self.height.lemma_range();
            self.max_height.lemma_range();
        }
        Some(SizeConstraints::new(self.max_width, self.max_height.minus(self.height)))
    }

    /// Adds a child's answer: its height to the total, its width to the widest.
    pub fn add(&mut self, size: (C, C))
        requires
            C::lo() <= old(self).height.val() + size.1.val() <= C::hi(),
        ensures
            final(self).height.val() == old(self).height.val() + size.1.val(),
            final(self).width.val() == imax(old(self).width.val(), size.0.val()),
            final(self).max_width == old(self).max_width,
            final(self).max_height == old(self).max_height,
    {
        self.height = self.height.plus(size.1);
        self.width = coord_max(self.width, size.0);
    }
}

/// Placing children stacked in a block in `available`, top down, one child
/// at a time: each child is asked for its size under
/// [`BlockPlacer::next_constraints`]; with `None` it gets no rectangle,
/// else its answer goes to [`BlockPlacer::place`], which puts it at the row
/// reached so far and moves that row below it.
#[derive(Debug, Clone, Copy, PartialEq, Eq)]
pub struct BlockPlacer<C: CoordType> {
    /// The area the children share.
    pub available: Rect<C>,
    /// The row where the next child goes.
    pub y: C,
    /// The height used so far.
    pub used: C,
}

impl<C: CoordType> BlockPlacer<C> {
    /// Starts placing at the top of `available`.
    pub fn start(available: Rect<C>) -> (p: Self)
        ensures
            p.available == available,
            p.y == available.y,
            p.used.val() == 0,
    {
        BlockPlacer { available, y: available.y, used: C::zero() }
    }

    /// The constraints to ask the next child with: the available width, and
    /// the height still free; `None` once the available height is used up.
    pub fn next_constraints(&self) -> (r: Option<SizeConstraints<C>>)
        requires
            self.used.val() < self.available.height.val() ==> self.available.height.val() - self.used.val() <= C::hi(),
        ensures
            r is None <==> self.used.val() >= self.available.height.val(),
            r matches Some(c) ==> c.width == Some(self.available.width)
                && (c.height matches Some(h) && h.val() == self.available.height.val() - self.used.val()),
    {
        if self.available.height.at_most(self.used) {
            return None;
        }
        proof {
            self.used.lemma_range();
            self.available.height.lemma_range();
        }
        Some(SizeConstraints::new(self.available.width, self.available.height.minus(self.used)))
    }

    /// Places a child of the given size at the row reached so far, at the
    /// left edge, and moves the row below it.
    pub fn place(&mut self, size: (C, C)) -> (r: Rect<C>)
        requires
            C::lo() <= old(self).used.val() + size.1.val() <= C::hi(),
            C::lo() <= old(self).y.val() + size.1.val() <= C::hi(),
        ensures
            r == (Rect { x: old(self).available.x, y: old(self).y, width: size.0, height: size.1 }),
            final(self).used.val() == old(self).used.val() + size.1.val(),
            final(self).y.val() == old(self).y.val() + size.1.val(),
            final(self).available == old(self).available,
    {
        let r = Rect::new(self.available.x, self.y, size.0, size.1);
        self.used = self.used.plus(size.1);
        self.y = self.y.plus(size.1);
        r
    }
}

} // verus!
