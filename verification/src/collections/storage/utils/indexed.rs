//! Indexed (array-like) storages, whose values are found by position, and
//! the handles that share them.
use super::{HandleError, StorageError};
use std::ops::{Bound, ControlFlow, RangeBounds};
use vstd::prelude::*;

verus! {

// ----- Models -----
/// `o` is what a lookup of position `i` in `s` finds.
pub open spec fn found_at<V>(s: Seq<V>, i: int, o: Option<&V>) -> bool {
    match o {
        Some(v) => 0 <= i < s.len() && s[i] == *v,
        None => !(0 <= i < s.len()),
    }
}

/// The positions `from..to` as a list of keys.
pub open spec fn positions(from: int, to: int) -> Seq<usize>
    decreases to - from,
{
    if to <= from {
        Seq::empty()
    } else {
        positions(from, to - 1).push((to - 1) as usize)
    }
}

/// `es` pairs each value of `s` with its position.
pub open spec fn numbered<V>(s: Seq<V>, es: Seq<(usize, V)>) -> bool {
    &&& es.len() == s.len()
    &&& forall|i: int| 0 <= i < es.len() ==> #[trigger] es[i] == (i as usize, s[i])
}

/// `es` pairs a clone of each value of `s` with its position.
pub open spec fn numbered_clones<V: Clone>(s: Seq<V>, es: Seq<(usize, V)>) -> bool {
    &&& es.len() == s.len()
    &&& forall|i: int| 0 <= i < es.len() ==> #[trigger] es[i].0 == i && cloned(s[i], es[i].1)
}

/// `vs` holds a clone of each value of `s`, in order.
pub open spec fn clones_of<V: Clone>(s: Seq<V>, vs: Seq<V>) -> bool {
    &&& vs.len() == s.len()
    &&& forall|i: int| 0 <= i < vs.len() ==> #[trigger] cloned(s[i], vs[i])
}

/// `after` is `before` without one span of positions, and `es` holds that
/// span's values numbered from 0.
pub open spec fn drained_span<V>(before: Seq<V>, after: Seq<V>, es: Seq<(usize, V)>) -> bool {
    exists|a: int, b: int| #![trigger before.subrange(a, b)]
        0 <= a <= b <= before.len() && after == before.subrange(0, a) + before.subrange(b, before.len() as int)
            && numbered(before.subrange(a, b), es)
}

/// The values of `s` at the positions where `keep` holds, in order.
pub open spec fn select<V>(s: Seq<V>, keep: Seq<bool>) -> Seq<V>
    decreases s.len(),
{
    if s.len() == 0 {
        Seq::empty()
    } else {
        let rest = select(s.drop_last(), keep.drop_last());
        if keep.last() {
            rest.push(s.last())
        } else {
            rest
        }
    }
}

/// `keep` holds, for each value of `s`, what `f` answered for its position and value.
pub open spec fn answers<V, F: Fn((usize, &V)) -> bool>(f: F, s: Seq<V>, keep: Seq<bool>) -> bool {
    &&& keep.len() == s.len()
    &&& forall|j: int| 0 <= j < s.len() ==> f.ensures(((j as usize, &s[j]),), #[trigger] keep[j])
}

/// `after` holds the values of `before` for which `f` answered `true`, in order.
pub open spec fn retained<V, F: Fn((usize, &V)) -> bool>(f: F, before: Seq<V>, after: Seq<V>) -> bool {
    exists|keep: Seq<bool>| #[trigger] answers(f, before, keep) && after == select(before, keep)
}

proof fn lemma_select_step<V>(s: Seq<V>, keep: Seq<bool>, k: int)
    requires
        0 <= k < s.len(),
        keep.len() == s.len(),
    ensures
        select(s.take(k + 1), keep.take(k + 1)) == if keep[k] {
            select(s.take(k), keep.take(k)).push(s[k])
        } else {
            select(s.take(k), keep.take(k))
        },
{
    assert(s.take(k + 1).drop_last() =~= s.take(k));
    assert(keep.take(k + 1).drop_last() =~= keep.take(k));
}

// ----- Laws -----
/// The position that `push` returns finds the pushed value, and every
/// earlier position finds what it found before.
pub proof fn lemma_get_after_push<V>(s: Seq<V>, v: V, i: int, o: Option<&V>)
    ensures
        found_at(s.push(v), s.len() as int, Some(&v)),
        0 <= i < s.len() ==> (found_at(s, i, o) <==> found_at(s.push(v), i, o)),
{
}

/// Retaining with a predicate that answers `true` everywhere keeps every value.
pub proof fn lemma_retain_all_keeps<V>(s: Seq<V>, keep: Seq<bool>)
    requires
        keep.len() == s.len(),
        forall|j: int| 0 <= j < keep.len() ==> #[trigger] keep[j],
    ensures
        select(s, keep) == s,
    decreases s.len(),
{
    if s.len() > 0 {
        assert(keep.last() == keep[keep.len() - 1]);
        lemma_retain_all_keeps(s.drop_last(), keep.drop_last());
        assert(s.drop_last().push(s.last()) =~= s);
    }
}

/// Retaining never adds values: what is kept is no longer than what was there.
pub proof fn lemma_retain_shrinks<V>(s: Seq<V>, keep: Seq<bool>)
    ensures
        select(s, keep).len() <= s.len(),
    decreases s.len(),
{
    if s.len() > 0 {
        lemma_retain_shrinks(s.drop_last(), keep.drop_last());
    }
}

/// One end of a range of positions.
#[derive(Debug, Clone, Copy, PartialEq, Eq, Structural)]
pub enum Edge {
    Included(usize),
    Excluded(usize),
    Unbounded,
}

/// `RangeBounds::start_bound` and `end_bound`, with each bound copied out.
#[verifier::external_body]
fn range_edges<R: RangeBounds<usize>>(range: &R) -> (Edge, Edge) {
    let start = match range.start_bound() {
        Bound::Included(i) => Edge::Included(*i),
        Bound::Excluded(i) => Edge::Excluded(*i),
        Bound::Unbounded => Edge::Unbounded,
    };
    let end = match range.end_bound() {
        Bound::Included(i) => Edge::Included(*i),
        Bound::Excluded(i) => Edge::Excluded(*i),
        Bound::Unbounded => Edge::Unbounded,
    };
    (start, end)
}

/// The first position that the edge `e` lets into a span.
pub open spec fn span_start(e: Edge) -> int {
    match e {
        Edge::Included(i) => i as int,
        Edge::Excluded(i) => i + 1,
        Edge::Unbounded => 0,
    }
}

/// The position just past a span that ends at the edge `e`, in a list of `len` values.
pub open spec fn span_end(e: Edge, len: int) -> int {
    match e {
        Edge::Included(i) => i + 1,
        Edge::Excluded(i) => i as int,
        Edge::Unbounded => len,
    }
}

/// Why the span between `start` and `end` cannot be drained from a list of
/// `len` values, as the pair that `OutOfBounds` reports; `None` when it can.
pub open spec fn span_refusal(start: Edge, end: Edge, len: int) -> Option<(int, int)> {
    let a = span_start(start);
    let b = span_end(end, len);
    if start == Edge::Excluded(usize::MAX) {
        Some((usize::MAX as int, len))
    } else if end == Edge::Included(usize::MAX) {
        Some((usize::MAX as int, len))
    } else if b > len {
        Some((b, len))
    } else if a > b {
        Some((a, b))
    } else {
        None
    }
}

/// Removes from `v` the values between the edges `start` and `end` and
/// returns them, numbered from 0 in order. A span that runs backwards or
/// past the end is refused with the positions that break it, and removes
/// nothing.
pub fn drain_span<V>(v: &mut Vec<V>, start: Edge, end: Edge) -> (r: Result<Vec<(usize, V)>, StorageError>)
    ensures
        ({
            let len = old(v)@.len() as int;
            let a = span_start(start);
            let b = span_end(end, len);
            match r {
                Ok(es) => {
                    &&& span_refusal(start, end, len) is None
                    &&& 0 <= a <= b <= len
                    &&& final(v)@ == old(v)@.subrange(0, a) + old(v)@.subrange(b, len)
                    &&& numbered(old(v)@.subrange(a, b), es@)
                },
                Err(e) => {
                    &&& span_refusal(start, end, len) matches Some(p)
                    &&& e matches StorageError::OutOfBounds(x, y) && x == p.0 && y == p.1
                    &&& final(v)@ == old(v)@
                },
            }
        }),
{
    let len = v.len();
    let s = match start {
        Edge::Included(i) => i,
        Edge::Excluded(i) => {
            if i == usize::MAX {
                return Err(StorageError::OutOfBounds(i, len));
            }
            i + 1
        },
        Edge::Unbounded => 0,
    };
    let e = match end {
        Edge::Included(i) => {
            if i == usize::MAX {
                return Err(StorageError::OutOfBounds(i, len));
            }
            i + 1
        },
        Edge::Excluded(i) => i,
        Edge::Unbounded => len,
    };
    if e > len {
        return Err(StorageError::OutOfBounds(e, len));
    }
    if s > e {
        return Err(StorageError::OutOfBounds(s, e));
    }
    let ghost before = v@;
    let mut out: Vec<(usize, V)> = Vec::new();
    let mut k: usize = 0;
    while k < e - s
        invariant
            s <= e <= len,
            len == before.len(),
            k <= e - s,
            v@ == before.subrange(0, s as int) + before.subrange(s + k, len as int),
            out@.len() == k,
            forall|j: int| 0 <= j < k ==> #[trigger] out@[j] == (j as usize, before[s + j]),
        decreases e - s - k,
    {
        let x = v.remove(s);
        out.push((k, x));
        proof {
            assert(v@ =~= before.subrange(0, s as int) + before.subrange(s + k + 1, len as int));
        }
        k = k + 1;
    }
    proof {
        assert(numbered(before.subrange(s as int, e as int), out@));
        assert(v@ =~= before.subrange(0, s as int) + before.subrange(e as int, len as int));
    }
    Ok(out)
}

// ----- Inner storage traits -----
/// Read-only behaviour of an indexed container.
pub trait IndexedStorageRead<V> {
    /// The values held, in position order.
    spec fn items(&self) -> Seq<V>;

    /// Whether no operation of this container type fails by itself.
    spec fn infallible() -> bool;

    /// The number of values held fits a `usize`.
    proof fn lemma_len_fits(&self)
        ensures
            self.items().len() <= usize::MAX,
    ;

    /// Returns a reference to the value at `key`, if present.
    fn get(&self, key: &usize) -> (r: Result<Option<&V>, StorageError>)
        ensures
            Self::infallible() ==> (r matches Ok(o) && found_at(self.items(), *key as int, o)),
    ;

    /// Returns whether a value is held at `key`.
    fn contains_key(&self, key: &usize) -> (r: Result<bool, StorageError>)
        ensures
            Self::infallible() ==> r == Ok::<bool, StorageError>(*key < self.items().len()),
    ;

    /// Returns the number of values held.
    fn len(&self) -> (r: Result<usize, StorageError>)
        ensures
            Self::infallible() ==> r == Ok::<usize, StorageError>(self.items().len() as usize),
    ;

    /// Returns whether the container is empty.
    fn is_empty(&self) -> (r: Result<bool, StorageError>)
        ensures
            Self::infallible() ==> r == Ok::<bool, StorageError>(self.items().len() as usize == 0),
    {
        match self.len() {
            Ok(n) => Ok(n == 0),
            Err(e) => Err(e),
        }
    }

    /// Returns every position paired with a clone of its value.
    fn entries(&self) -> (r: Result<Vec<(usize, V)>, StorageError>)
        where
            V: Clone,
        ensures
            Self::infallible() ==> (r matches Ok(es) && numbered_clones(self.items(), es@)),
    ;

    /// Returns every position, in order.
    fn keys(&self) -> (r: Result<Vec<usize>, StorageError>)
        ensures
            Self::infallible() ==> (r matches Ok(ks) && ks@ == positions(0, self.items().len() as int)),
    ;

    /// Returns clones of every value, in order.
    fn values(&self) -> (r: Result<Vec<V>, StorageError>)
        where
            V: Clone,
        ensures
            Self::infallible() ==> (r matches Ok(vs) && clones_of(self.items(), vs@)),
    ;

    /// Runs `f` on every position and its borrowed value, in order.
    fn for_each<F: Fn((usize, &V))>(&self, f: F)
        requires
            forall|i: usize, v: &V| f.requires(((i, v),)),
    ;

    /// Runs `f` on positions and borrowed values, in order, until it breaks:
    /// it stops at the first position where `f` breaks, and continuing means
    /// `f` continued at every position.
    fn try_for_each<B, F: Fn((usize, &V)) -> ControlFlow<B>>(&self, f: F) -> (r: ControlFlow<B>)
        requires
            forall|i: usize, v: &V| f.requires(((i, v),)),
        ensures
            r matches ControlFlow::Break(b) ==> output_at(f, ControlFlow::Break(b)),
            Self::infallible() ==> (r is Continue ==> forall|i: usize| i < self.items().len() ==>
                #[trigger] f.ensures(((i, &self.items()[i as int]),), ControlFlow::Continue(()))),
            Self::infallible() ==> (r matches ControlFlow::Break(b) ==> exists|k: usize| k < self.items().len()
                && (forall|j: usize| j < k ==> #[trigger] f.ensures(((j, &self.items()[j as int]),), ControlFlow::Continue(())))
                && #[trigger] f.ensures(((k, &self.items()[k as int]),), ControlFlow::Break(b))),
    ;

    /// Accumulates `f` over every position and borrowed value, in order, from `init`.
    fn fold<A, F: Fn(A, (usize, &V)) -> A>(&self, init: A, f: F) -> (r: A)
        requires
            forall|a: A, i: usize, v: &V| f.requires((a, (i, v))),
        ensures
            Self::infallible() && self.items().len() == 0 ==> r == init,
            Self::infallible() ==> folded_at(f, init, self.items(), r),
    ;

    /// Collects `f` of every position and borrowed value, in order.
    fn map<R, F: Fn((usize, &V)) -> R>(&self, f: F) -> (r: Vec<R>)
        requires
            forall|i: usize, v: &V| f.requires(((i, v),)),
        ensures
            Self::infallible() ==> r@.len() == self.items().len(),
            forall|k: int| 0 <= k < r@.len() ==> #[trigger] output_at(f, r@[k]),
    ;
}

/// `f` accepts position `i` with some value.
pub open spec fn accepted_at<V, F: Fn((&usize, &V)) -> bool>(f: F, i: usize) -> bool {
    exists|v: &V| #[trigger] f.ensures(((&i, v),), true)
}

/// `f` accepts position `x.0` with a value that `x.1` is a clone of.
pub open spec fn accepted_clone<V: Clone, F: Fn((&usize, &V)) -> bool>(f: F, x: (usize, V)) -> bool {
    exists|v: &V| #[trigger] f.ensures(((&x.0, v),), true) && cloned(*v, x.1)
}

/// `x` is what `f` gives on some position and borrowed value.
pub open spec fn output_at<V, R, F: Fn((usize, &V)) -> R>(f: F, x: R) -> bool {
    exists|i: usize, v: &V| #[trigger] f.ensures(((i, v),), x)
}

/// Step `j` of folding `f` over `s` takes `accs[j]` to `accs[j + 1]`.
pub open spec fn fold_step_at<V, A, F: Fn(A, (usize, &V)) -> A>(f: F, s: Seq<V>, accs: Seq<A>, j: int) -> bool {
    f.ensures((accs[j], (j as usize, &s[j])), accs[j + 1])
}

/// `r` is what folding `f` over `s`, in order, from `init` gives.
pub open spec fn folded_at<V, A, F: Fn(A, (usize, &V)) -> A>(f: F, init: A, s: Seq<V>, r: A) -> bool {
    exists|accs: Seq<A>| #[trigger] accs.len() == s.len() + 1 && accs[0] == init && accs[s.len() as int] == r
        && forall|j: int| 0 <= j < s.len() ==> #[trigger] fold_step_at(f, s, accs, j)
}

/// Step `j` of folding `f`, with mutable access, over `s` takes `accs[j]`
/// to `accs[j + 1]`, `f` being handed the value `s[j]`.
pub open spec fn fold_step_at_mut<V, A, F: Fn(A, (usize, &mut V)) -> A>(f: F, s: Seq<V>, accs: Seq<A>, j: int) -> bool {
    exists|m: &mut V| *m == s[j] && #[trigger] f.ensures((accs[j], (j as usize, m)), accs[j + 1])
}

/// `r` is what folding `f`, with mutable access, over `s`, in order, from `init` gives.
pub open spec fn folded_at_mut<V, A, F: Fn(A, (usize, &mut V)) -> A>(f: F, init: A, s: Seq<V>, r: A) -> bool {
    exists|accs: Seq<A>| #[trigger] accs.len() == s.len() + 1 && accs[0] == init && accs[s.len() as int] == r
        && forall|j: int| 0 <= j < s.len() ==> #[trigger] fold_step_at_mut(f, s, accs, j)
}

/// `f` was run on position `i` with (mutable access to) value `v`.
pub open spec fn ran_at_mut<V, F: Fn((usize, &mut V))>(f: F, i: int, v: V) -> bool {
    exists|m: &mut V| *m == v && #[trigger] f.ensures(((i as usize, m),), ())
}

/// `x` is what `f` gives on some position and mutably borrowed value.
pub open spec fn output_at_mut<V, R, F: Fn((usize, &mut V)) -> R>(f: F, x: R) -> bool {
    exists|i: usize, v: &mut V| #[trigger] f.ensures(((i, v),), x)
}

/// Mutable behaviour of an indexed container.
pub trait IndexedStorageWrite<V>: IndexedStorageRead<V> + Sized {
    /// Appends a value and returns its position.
    fn push(&mut self, value: V) -> (r: Result<usize, StorageError>)
        ensures
            Self::infallible() ==> r is Ok,
            Self::infallible() && old(self).items().len() < usize::MAX ==> r == Ok::<usize, StorageError>(old(self).items().len() as usize)
                && final(self).items() == old(self).items().push(value),
    ;

    /// Puts `value` at `index`: replaces the value there (returning it), or
    /// appends when `index` is the length; a position past the end is an error.
    fn insert(&mut self, index: usize, value: V) -> (r: Result<Option<V>, StorageError>)
        ensures
            Self::infallible() ==> {
                let s = old(self).items();
                if index < s.len() {
                    r == Ok::<Option<V>, StorageError>(Some(s[index as int])) && final(self).items() == s.update(index as int, value)
                } else if index == s.len() {
                    r == Ok::<Option<V>, StorageError>(None) && final(self).items() == s.push(value)
                } else {
                    r == Err::<Option<V>, StorageError>(StorageError::OutOfBounds(index, s.len() as usize)) && final(self).items() == s
                }
            },
    ;

    /// Returns the value at `index`, appending `value` first when `index` is
    /// the length; a position past the end is an error.
    fn try_insert(&mut self, index: usize, value: V) -> (r: Result<&V, StorageError>)
        ensures
            Self::infallible() ==> {
                let s = old(self).items();
                if index < s.len() {
                    r matches Ok(v) && *v == s[index as int] && final(self).items() == s
                } else if index == s.len() {
                    r matches Ok(v) && *v == value && final(self).items() == s.push(value)
                } else {
                    r == Err::<&V, StorageError>(StorageError::OutOfBounds(index, s.len() as usize)) && final(self).items() == s
                }
            },
    ;

    /// Returns the value at `index`, appending the result of `value()` first
    /// when `index` is the length (an error from `value()` is returned as it
    /// is); a position past the end is an error.
    fn try_insert_with<F>(&mut self, index: usize, value: F) -> (r: Result<&V, StorageError>)
        where
            F: FnOnce() -> Result<V, StorageError>,
        requires
            value.requires(()),
        ensures
            Self::infallible() ==> {
                let s = old(self).items();
                if index < s.len() {
                    r matches Ok(v) && *v == s[index as int] && final(self).items() == s
                } else if index == s.len() {
                    match r {
                        Ok(v) => value.ensures((), Ok::<V, StorageError>(*v)) && final(self).items() == s.push(*v),
                        Err(e) => value.ensures((), Err::<V, StorageError>(e)) && final(self).items() == s,
                    }
                } else {
                    r == Err::<&V, StorageError>(StorageError::OutOfBounds(index, s.len() as usize)) && final(self).items() == s
                }
            },
    ;

    /// Returns a mutable reference to the value at `key`, if present.
    fn get_mut(&mut self, key: &usize) -> (r: Result<Option<&mut V>, StorageError>)
        ensures
            Self::infallible() ==> (r matches Ok(o) && match o {
                Some(v) => *key < old(self).items().len() && *v == old(self).items()[*key as int]
                    && final(self).items() == old(self).items().update(*key as int, *final(v)),
                None => *key >= old(self).items().len() && final(self).items() == old(self).items(),
            }),
    ;

    /// Removes and returns the value at `key`, shifting later values down.
    fn remove(&mut self, key: &usize) -> (r: Result<Option<V>, StorageError>)
        ensures
            Self::infallible() ==> if *key < old(self).items().len() {
                r == Ok::<Option<V>, StorageError>(Some(old(self).items()[*key as int]))
                    && final(self).items() == old(self).items().remove(*key as int)
            } else {
                r == Ok::<Option<V>, StorageError>(None) && final(self).items() == old(self).items()
            },
    ;

    /// Removes every value.
    fn clear(&mut self) -> (r: Result<(), StorageError>)
        ensures
            Self::infallible() ==> (r is Ok && final(self).items() == Seq::<V>::empty()),
    ;

    /// Keeps only the values for which `f` (given position and value) returns `true`.
    fn retain<F: Fn((usize, &V)) -> bool>(&mut self, f: F) -> (r: Result<(), StorageError>)
        requires
            forall|i: usize, v: &V| f.requires(((i, v),)),
        ensures
            Self::infallible() ==> (r is Ok && retained(f, old(self).items(), final(self).items())),
    ;

    /// Removes the values in `range` and returns them, numbered from 0 in
    /// order; a range that runs backwards or past the end is an error and
    /// removes nothing.
    fn drain<R: RangeBounds<usize>>(&mut self, range: R) -> (r: Result<Vec<(usize, V)>, StorageError>)
        ensures
            Self::infallible() ==> match r {
                Ok(es) => drained_span(old(self).items(), final(self).items(), es@),
                Err(e) => e is OutOfBounds && final(self).items() == old(self).items(),
            },
    ;

    /// Appends every value of `values`, in order, and returns their
    /// positions; values whose positions would not fit a `usize` are refused
    /// as a whole.
    fn extend(&mut self, values: Vec<V>) -> (r: Result<Vec<usize>, StorageError>)
        ensures
            Self::infallible() && old(self).items().len() + values@.len() <= usize::MAX ==> (r matches Ok(ks)
                && final(self).items() == old(self).items() + values@
                && ks@ == positions(old(self).items().len() as int, final(self).items().len() as int)),
            Self::infallible() && old(self).items().len() + values@.len() > usize::MAX ==> (r is Err
                && final(self).items() == old(self).items()),
    ;

    /// Appends clones of every value of `other`, and returns their positions.
    fn merge<R>(&mut self, other: &R) -> (r: Result<Vec<usize>, StorageError>)
        where
            R: IndexedStorageRead<V>,
            V: Clone,
        ensures
            Self::infallible() && R::infallible() && old(self).items().len() + other.items().len() <= usize::MAX ==> (r matches Ok(ks)
                && final(self).items().len() == old(self).items().len() + other.items().len()
                && final(self).items().subrange(0, old(self).items().len() as int) == old(self).items()
                && clones_of(other.items(), final(self).items().subrange(old(self).items().len() as int, final(self).items().len() as int))
                && ks@ == positions(old(self).items().len() as int, final(self).items().len() as int)),
            Self::infallible() && R::infallible() && old(self).items().len() + other.items().len() > usize::MAX ==> (r is Err
                && final(self).items() == old(self).items()),
    {
        match other.values() {
            Ok(vs) => {
                let ghost pre = self.items();
                let r = self.extend(vs);
                proof {
                    if Self::infallible() && R::infallible() && pre.len() + other.items().len() <= usize::MAX {
                        assert(self.items().subrange(0, pre.len() as int) =~= pre);
                        assert(self.items().subrange(pre.len() as int, self.items().len() as int) =~= vs@);
                    }
                }
                r
            },
            Err(e) => Err(e),
        }
    }

    /// Runs `f` on every position and its value, with mutable access; the
    /// number of values does not change.
    fn for_each_mut<F: Fn((usize, &mut V))>(&mut self, f: F)
        requires
            forall|i: usize, v: &mut V| f.requires(((i, v),)),
        ensures
            final(self).items().len() == old(self).items().len(),
            Self::infallible() ==> forall|i: int| 0 <= i < old(self).items().len() ==> #[trigger] ran_at_mut(f, i, old(self).items()[i]),
    ;

    /// Runs `f` on positions and values, in order and with mutable access,
    /// until it breaks; the number of values does not change.
    fn try_for_each_mut<B, F: Fn((usize, &mut V)) -> ControlFlow<B>>(&mut self, f: F) -> (r: ControlFlow<B>)
        requires
            forall|i: usize, v: &mut V| f.requires(((i, v),)),
        ensures
            final(self).items().len() == old(self).items().len(),
            r matches ControlFlow::Break(b) ==> output_at_mut(f, ControlFlow::Break(b)),
    ;

    /// Accumulates `f` over every position and value, in order and with
    /// mutable access, from `init`; the number of values does not change.
    fn fold_mut<A, F: Fn(A, (usize, &mut V)) -> A>(&mut self, init: A, f: F) -> (r: A)
        requires
            forall|a: A, i: usize, v: &mut V| f.requires((a, (i, v))),
        ensures
            final(self).items().len() == old(self).items().len(),
            Self::infallible() && old(self).items().len() == 0 ==> r == init,
            Self::infallible() ==> folded_at_mut(f, init, old(self).items(), r),
    ;

    /// Collects `f` of every position and value, in order and with mutable
    /// access; the number of values does not change.
    fn map_mut<R, F: Fn((usize, &mut V)) -> R>(&mut self, f: F) -> (r: Vec<R>)
        requires
            forall|i: usize, v: &mut V| f.requires(((i, v),)),
        ensures
            final(self).items().len() == old(self).items().len(),
            Self::infallible() ==> r@.len() == old(self).items().len(),
            forall|k: int| 0 <= k < r@.len() ==> #[trigger] output_at_mut(f, r@[k]),
    ;
}

/// A complete indexed container: constructors and lazy initialisation.
pub trait IndexedStorage<V>: IndexedStorageWrite<V> {
    /// An empty container.
    fn new() -> (s: Self)
        ensures
            s.items() == Seq::<V>::empty(),
    ;

    /// An empty container with room for `capacity` values.
    fn with_capacity(capacity: usize) -> (s: Self)
        ensures
            s.items() == Seq::<V>::empty(),
    ;

    /// A container holding `values`, in order.
    fn from_iter(values: Vec<V>) -> (s: Self)
        ensures
            s.items() == values@,
    ;

    /// Returns the value at `key`, appending `f()` first when `key` is the
    /// length; a position past the end is an error.
    fn get_or_insert_with<F: FnOnce() -> V>(&mut self, key: usize, f: F) -> (r: Result<&V, StorageError>)
        requires
            f.requires(()),
        ensures
            Self::infallible() ==> {
                let s = old(self).items();
                if key < s.len() {
                    r matches Ok(v) && *v == s[key as int] && final(self).items() == s
                } else if key == s.len() {
                    r matches Ok(v) && f.ensures((), *v) && final(self).items() == s.push(*v)
                } else {
                    r == Err::<&V, StorageError>(StorageError::OutOfBounds(key, s.len() as usize)) && final(self).items() == s
                }
            },
    ;

    /// Fallible version of `get_or_insert_with`: an error from `f()` is
    /// returned as it is and leaves the container unchanged.
    fn get_or_try_insert_with<F: FnOnce() -> Result<V, StorageError>>(&mut self, key: usize, f: F) -> (r: Result<&V, StorageError>)
        requires
            f.requires(()),
        ensures
            Self::infallible() ==> {
                let s = old(self).items();
                if key < s.len() {
                    r matches Ok(v) && *v == s[key as int] && final(self).items() == s
                } else if key == s.len() {
                    match r {
                        Ok(v) => f.ensures((), Ok::<V, StorageError>(*v)) && final(self).items() == s.push(*v),
                        Err(e) => f.ensures((), Err::<V, StorageError>(e)) && final(self).items() == s,
                    }
                } else {
                    r == Err::<&V, StorageError>(StorageError::OutOfBounds(key, s.len() as usize)) && final(self).items() == s
                }
            },
    ;
}

// ----- Vec storage -----
impl<V> IndexedStorageRead<V> for Vec<V> {
    open spec fn items(&self) -> Seq<V> {
        self@
    }

    open spec fn infallible() -> bool {
        true
    }

    proof fn lemma_len_fits(&self) {
        assert(self.len() == self@.len());
    }

    fn get(&self, key: &usize) -> (r: Result<Option<&V>, StorageError>) {
        if *key < Vec::len(self) {
            Ok(Some(&self[*key]))
        } else {
            Ok(None)
        }
    }

    fn contains_key(&self, key: &usize) -> (r: Result<bool, StorageError>) {
        Ok(*key < Vec::len(self))
    }

    fn len(&self) -> (r: Result<usize, StorageError>) {
        Ok(Vec::len(self))
    }

    fn entries(&self) -> (r: Result<Vec<(usize, V)>, StorageError>)
        where
            V: Clone,
    {
        let mut out: Vec<(usize, V)> = Vec::new();
        let mut i: usize = 0;
        while i < Vec::len(self)
            invariant
                i <= self@.len(),
                out@.len() == i,
                forall|j: int| 0 <= j < i ==> #[trigger] out@[j].0 == j && cloned(self@[j], out@[j].1),
            decreases self@.len() - i,
        {
            out.push((i, self[i].clone()));
            i = i + 1;
        }
        Ok(out)
    }

    fn keys(&self) -> (r: Result<Vec<usize>, StorageError>) {
        let mut out: Vec<usize> = Vec::new();
        let mut i: usize = 0;
        while i < Vec::len(self)
            invariant
                i <= self@.len(),
                out@ == positions(0, i as int),
            decreases self@.len() - i,
        {
            out.push(i);
            i = i + 1;
        }
        Ok(out)
    }

    fn values(&self) -> (r: Result<Vec<V>, StorageError>)
        where
            V: Clone,
    {
        let mut out: Vec<V> = Vec::new();
        let mut i: usize = 0;
        while i < Vec::len(self)
            invariant
                i <= self@.len(),
                out@.len() == i,
                forall|j: int| 0 <= j < i ==> #[trigger] cloned(self@[j], out@[j]),
            decreases self@.len() - i,
        {
            out.push(self[i].clone());
            i = i + 1;
        }
        Ok(out)
    }

    fn for_each<F: Fn((usize, &V))>(&self, f: F) {
        let mut i: usize = 0;
        while i < Vec::len(self)
            invariant
                i <= self@.len(),
                forall|i: usize, v: &V| f.requires(((i, v),)),
            decreases self@.len() - i,
        {
            f((i, &self[i]));
            i = i + 1;
        }
    }

    fn try_for_each<B, F: Fn((usize, &V)) -> ControlFlow<B>>(&self, f: F) -> (r: ControlFlow<B>) {
        let mut i: usize = 0;
        while i < Vec::len(self)
            invariant
                i <= self@.len(),
                forall|i: usize, v: &V| f.requires(((i, v),)),
                forall|j: usize| j < i ==> #[trigger] f.ensures(((j, &self@[j as int]),), ControlFlow::Continue(())),
            decreases self@.len() - i,
        {
            let v = &self[i];
            let c = f((i, v));
            assert(*v == self@[i as int]);
            assert(f.ensures(((i, &self@[i as int]),), c));
            match c {
                ControlFlow::Break(b) => {
                    assert(output_at(f, ControlFlow::Break(b)));
                    assert(f.ensures(((i, &self@[i as int]),), ControlFlow::Break(b)));
                    assert(forall|j: usize| j < i ==> #[trigger] f.ensures(((j, &self@[j as int]),), ControlFlow::Continue(())));
                    assert(self.items() == self@);
                    assert(forall|j: usize| j < i ==> #[trigger] f.ensures(((j, &self.items()[j as int]),), ControlFlow::Continue(())));
                    assert(f.ensures(((i, &self.items()[i as int]),), ControlFlow::Break(b)));
                    assert(exists|k: usize| k < self.items().len()
                        && (forall|j: usize| j < k ==> #[trigger] f.ensures(((j, &self.items()[j as int]),), ControlFlow::Continue(())))
                        && #[trigger] f.ensures(((k, &self.items()[k as int]),), ControlFlow::Break(b)));
                    return ControlFlow::Break(b);
                },
                ControlFlow::Continue(u) => {
                    assert(u == ());
                    assert(c == ControlFlow::<B, ()>::Continue(()));
                    assert(f.ensures(((i, &self@[i as int]),), ControlFlow::Continue(())));
                },
            }
            let ghost i0 = i;
            i = i + 1;
            assert forall|j: usize| j < i implies #[trigger] f.ensures(((j, &self@[j as int]),), ControlFlow::Continue(())) by {
                if j < i0 {
                } else {
                    assert(j == i0);
                }
            }
        }
        ControlFlow::Continue(())
    }

    fn fold<A, F: Fn(A, (usize, &V)) -> A>(&self, init: A, f: F) -> (r: A) {
        let mut acc = init;
        let ghost mut accs = seq![init];
        let mut i: usize = 0;
        while i < Vec::len(self)
            invariant
                i <= self@.len(),
                forall|a: A, i: usize, v: &V| f.requires((a, (i, v))),
                i == 0 ==> acc == init,
                accs.len() == i + 1,
                accs[0] == init,
                accs[i as int] == acc,
                forall|j: int| 0 <= j < i ==> #[trigger] fold_step_at(f, self@, accs, j),
            decreases self@.len() - i,
        {
            let ghost prev = accs;
            acc = f(acc, (i, &self[i]));
            proof {
                accs = accs.push(acc);
                assert((i as int) as usize == i);
                assert(fold_step_at(f, self@, accs, i as int));
                assert forall|j: int| 0 <= j < i + 1 implies #[trigger] fold_step_at(f, self@, accs, j) by {
                    if j < i {
                        assert(fold_step_at(f, self@, prev, j));
                    }
                }
            }
            i = i + 1;
        }
        proof {
            assert(accs.len() == self@.len() + 1 && accs[0] == init && accs[self@.len() as int] == acc
                && forall|j: int| 0 <= j < self@.len() ==> #[trigger] fold_step_at(f, self@, accs, j));
        }
        acc
    }

    fn map<R, F: Fn((usize, &V)) -> R>(&self, f: F) -> (r: Vec<R>) {
        let mut out: Vec<R> = Vec::new();
        let mut i: usize = 0;
        while i < Vec::len(self)
            invariant
                i <= self@.len(),
                out@.len() == i,
                forall|i: usize, v: &V| f.requires(((i, v),)),
                forall|k: int| 0 <= k < i ==> #[trigger] output_at(f, out@[k]),
            decreases self@.len() - i,
        {
            let x = f((i, &self[i]));
            assert(output_at(f, x));
            out.push(x);
            i = i + 1;
        }
        out
    }
}

impl<V> IndexedStorageWrite<V> for Vec<V> {
    fn push(&mut self, value: V) -> (r: Result<usize, StorageError>) {
        let n = Vec::len(self);
        Vec::push(self, value);
        Ok(n)
    }

    fn insert(&mut self, index: usize, value: V) -> (r: Result<Option<V>, StorageError>) {
        let len = Vec::len(self);
        if index < len {
            let mut v = value;
            self.set_and_swap(index, &mut v);
            Ok(Some(v))
        } else if index == len {
            Vec::push(self, value);
            Ok(None)
        } else {
            Err(StorageError::OutOfBounds(index, len))
        }
    }

    fn try_insert(&mut self, index: usize, value: V) -> (r: Result<&V, StorageError>) {
        let len = Vec::len(self);
        if index < len {
            Ok(&self[index])
        } else if index == len {
            Vec::push(self, value);
            Ok(&self[index])
        } else {
            Err(StorageError::OutOfBounds(index, len))
        }
    }

    fn try_insert_with<F>(&mut self, index: usize, value: F) -> (r: Result<&V, StorageError>)
        where
            F: FnOnce() -> Result<V, StorageError>,
    {
        let len = Vec::len(self);
        if index < len {
            Ok(&self[index])
        } else if index == len {
            match value() {
                Ok(v) => {
                    Vec::push(self, v);
                    Ok(&self[index])
                },
                Err(e) => Err(e),
            }
        } else {
            Err(StorageError::OutOfBounds(index, len))
        }
    }

    fn get_mut(&mut self, key: &usize) -> (r: Result<Option<&mut V>, StorageError>) {
        if *key < Vec::len(self) {
            Ok(Some(&mut self[*key]))
        } else {
            Ok(None)
        }
    }

    fn remove(&mut self, key: &usize) -> (r: Result<Option<V>, StorageError>) {
        if *key < Vec::len(self) {
            Ok(Some(Vec::remove(self, *key)))
        } else {
            Ok(None)
        }
    }

    fn clear(&mut self) -> (r: Result<(), StorageError>) {
        Vec::clear(self);
        Ok(())
    }

    fn retain<F: Fn((usize, &V)) -> bool>(&mut self, f: F) -> (r: Result<(), StorageError>) {
        let ghost before = self@;
        let n = Vec::len(self);
        let mut i: usize = 0;
        let mut original: usize = 0;
        let ghost mut keep: Seq<bool> = Seq::empty();
        while i < Vec::len(self)
            invariant
                n == before.len(),
                original <= n,
                keep.len() == original,
                forall|j: int| 0 <= j < original ==> f.ensures(((j as usize, &before[j]),), #[trigger] keep[j]),
                select(before.take(original as int), keep) == self@.take(i as int),
                i <= self@.len(),
                self@.len() - i == n - original,
                self@.skip(i as int) == before.skip(original as int),
                forall|i: usize, v: &V| f.requires(((i, v),)),
            decreases self@.len() - i,
        {
            assert(self@[i as int] == before[original as int]) by {
                assert(self@.skip(i as int)[0] == before.skip(original as int)[0]);
            }
            let k = f((original, &self[i]));
            proof {
                let next = keep.push(k);
                assert(next.take(original as int) =~= keep);
                assert(before.take(original as int + 1).len() == original + 1);
                lemma_select_step(before.take(original as int + 1), next, original as int);
                assert(before.take(original as int + 1).take(original as int) =~= before.take(original as int));
                assert(next.take(original as int + 1) =~= next);
                assert(before.take(original as int + 1).take(original as int + 1) =~= before.take(original as int + 1));
                keep = next;
            }
            if k {
                assert(self@.take(i as int + 1) =~= self@.take(i as int).push(self@[i as int]));
                assert(self@.skip(i as int + 1) =~= before.skip(original as int + 1)) by {
                    assert(self@.skip(i as int + 1) =~= self@.skip(i as int).skip(1));
                    assert(before.skip(original as int + 1) =~= before.skip(original as int).skip(1));
                }
                i = i + 1;
            } else {
                let ghost pre = self@;
                Vec::remove(self, i);
                assert(self@.take(i as int) =~= pre.take(i as int));
                assert(self@.skip(i as int) =~= before.skip(original as int + 1)) by {
                    assert(self@.skip(i as int) =~= pre.skip(i as int).skip(1));
                    assert(before.skip(original as int + 1) =~= before.skip(original as int).skip(1));
                }
            }
            original = original + 1;
        }
        proof {
            assert(self@.skip(i as int).len() == 0);
            assert(original == n);
            assert(before.take(n as int) =~= before);
            assert(self@.take(i as int) =~= self@);
            assert(answers(f, before, keep));
        }
        Ok(())
    }

    fn drain<R: RangeBounds<usize>>(&mut self, range: R) -> (r: Result<Vec<(usize, V)>, StorageError>) {
        let (start, end) = range_edges(&range);
        let r = drain_span(self, start, end);
        proof {
            if r is Ok {
                let len = old(self)@.len() as int;
                let a = span_start(start);
                let b = span_end(end, len);
                assert(old(self)@.subrange(a, b) == old(self)@.subrange(a, b));
            }
        }
        r
    }

    fn extend(&mut self, values: Vec<V>) -> (r: Result<Vec<usize>, StorageError>) {
        let ghost before = self@;
        let ghost vs = values@;
        let first = Vec::len(self);
        if values.len() > usize::MAX - first {
            return Err(StorageError::OutOfBounds(usize::MAX, first));
        }
        let mut rest = values;
        let n = rest.len();
        let mut keys: Vec<usize> = Vec::new();
        let mut k: usize = 0;
        while k < n
            invariant
                n == vs.len(),
                first == before.len(),
                first + n <= usize::MAX,
                k <= n,
                rest@ == vs.subrange(k as int, n as int),
                self@ == before + vs.subrange(0, k as int),
                keys@ == positions(first as int, first + k),
            decreases n - k,
        {
            let v = rest.remove(0);
            Vec::push(self, v);
            keys.push(first + k);
            proof {
                assert(self@ =~= before + vs.subrange(0, k + 1));
            }
            k = k + 1;
        }
        proof {
            assert(vs.subrange(0, n as int) =~= vs);
        }
        Ok(keys)
    }

    fn for_each_mut<F: Fn((usize, &mut V))>(&mut self, f: F) {
        let mut i: usize = 0;
        while i < Vec::len(self)
            invariant
                i <= self@.len(),
                self@.len() == old(self)@.len(),
                forall|i: usize, v: &mut V| f.requires(((i, v),)),
                forall|j: int| i <= j < self@.len() ==> self@[j] == old(self)@[j],
                forall|j: int| 0 <= j < i ==> #[trigger] ran_at_mut(f, j, old(self)@[j]),
            decreases self@.len() - i,
        {
            let ghost pre = self@;
            f((i, &mut self[i]));
            assert(exists|m: &mut V| *m == pre[i as int] && #[trigger] f.ensures(((i, m),), ()));
            proof {
                let w = choose|m: &mut V| *m == pre[i as int] && #[trigger] f.ensures(((i, m),), ());
                assert((i as int) as usize == i);
                assert(*w == old(self)@[i as int] && f.ensures((((i as int) as usize, w),), ()));
            }
            i = i + 1;
        }
    }

    fn try_for_each_mut<B, F: Fn((usize, &mut V)) -> ControlFlow<B>>(&mut self, f: F) -> (r: ControlFlow<B>) {
        let mut i: usize = 0;
        while i < Vec::len(self)
            invariant
                i <= self@.len(),
                self@.len() == old(self)@.len(),
                forall|i: usize, v: &mut V| f.requires(((i, v),)),
            decreases self@.len() - i,
        {
            let c = f((i, &mut self[i]));
            match c {
                ControlFlow::Break(b) => {
                    assert(output_at_mut(f, ControlFlow::Break(b)));
                    return ControlFlow::Break(b);
                },
                ControlFlow::Continue(()) => {},
            }
            i = i + 1;
        }
        ControlFlow::Continue(())
    }

    fn fold_mut<A, F: Fn(A, (usize, &mut V)) -> A>(&mut self, init: A, f: F) -> (r: A) {
        let mut acc = init;
        let ghost mut accs = seq![init];
        let mut i: usize = 0;
        while i < Vec::len(self)
            invariant
                i <= self@.len(),
                self@.len() == old(self)@.len(),
                forall|a: A, i: usize, v: &mut V| f.requires((a, (i, v))),
                i == 0 ==> acc == init,
                forall|j: int| i <= j < self@.len() ==> self@[j] == old(self)@[j],
                accs.len() == i + 1,
                accs[0] == init,
                accs[i as int] == acc,
                forall|j: int| 0 <= j < i ==> #[trigger] fold_step_at_mut(f, old(self)@, accs, j),
            decreases self@.len() - i,
        {
            let ghost prev = accs;
            let ghost pre = self@;
            let ghost a0 = acc;
            acc = f(acc, (i, &mut self[i]));
            assert(exists|m: &mut V| *m == pre[i as int] && #[trigger] f.ensures((a0, (i, m)), acc));
            proof {
                accs = accs.push(acc);
                let w = choose|m: &mut V| *m == pre[i as int] && #[trigger] f.ensures((a0, (i, m)), acc);
                assert((i as int) as usize == i);
                assert(accs[i as int] == a0 && accs[i + 1] == acc);
                assert(*w == old(self)@[i as int] && f.ensures((accs[i as int], ((i as int) as usize, w)), accs[i + 1]));
                assert(fold_step_at_mut(f, old(self)@, accs, i as int));
                assert forall|j: int| 0 <= j < i + 1 implies #[trigger] fold_step_at_mut(f, old(self)@, accs, j) by {
                    if j < i {
                        assert(fold_step_at_mut(f, old(self)@, prev, j));
                        let w2 = choose|m: &mut V| *m == old(self)@[j] && #[trigger] f.ensures((prev[j], (j as usize, m)), prev[j + 1]);
                        assert(accs[j] == prev[j] && accs[j + 1] == prev[j + 1]);
                        assert(*w2 == old(self)@[j] && f.ensures((accs[j], (j as usize, w2)), accs[j + 1]));
                    }
                }
            }
            i = i + 1;
        }
        proof {
            assert(accs.len() == old(self)@.len() + 1 && accs[0] == init && accs[old(self)@.len() as int] == acc
                && forall|j: int| 0 <= j < old(self)@.len() ==> #[trigger] fold_step_at_mut(f, old(self)@, accs, j));
        }
        acc
    }

    fn map_mut<R, F: Fn((usize, &mut V)) -> R>(&mut self, f: F) -> (r: Vec<R>) {
        let mut out: Vec<R> = Vec::new();
        let mut i: usize = 0;
        while i < Vec::len(self)
            invariant
                i <= self@.len(),
                self@.len() == old(self)@.len(),
                out@.len() == i,
                forall|i: usize, v: &mut V| f.requires(((i, v),)),
                forall|k: int| 0 <= k < i ==> #[trigger] output_at_mut(f, out@[k]),
            decreases self@.len() - i,
        {
            let x = f((i, &mut self[i]));
            assert(output_at_mut(f, x));
            out.push(x);
            i = i + 1;
        }
        out
    }
}

impl<V> IndexedStorage<V> for Vec<V> {
    fn new() -> (s: Self) {
        Vec::new()
    }

    fn with_capacity(capacity: usize) -> (s: Self) {
        Vec::with_capacity(capacity)
    }

    fn from_iter(values: Vec<V>) -> (s: Self) {
        values
    }

    fn get_or_insert_with<F: FnOnce() -> V>(&mut self, key: usize, f: F) -> (r: Result<&V, StorageError>) {
        let len = Vec::len(self);
        if key < len {
            Ok(&self[key])
        } else if key == len {
            let v = f();
            Vec::push(self, v);
            Ok(&self[key])
        } else {
            Err(StorageError::OutOfBounds(key, len))
        }
    }

    fn get_or_try_insert_with<F: FnOnce() -> Result<V, StorageError>>(&mut self, key: usize, f: F) -> (r: Result<&V, StorageError>) {
        let len = Vec::len(self);
        if key < len {
            Ok(&self[key])
        } else if key == len {
            match f() {
                Ok(v) => {
                    Vec::push(self, v);
                    Ok(&self[key])
                },
                Err(e) => Err(e),
            }
        } else {
            Err(StorageError::OutOfBounds(key, len))
        }
    }
}


// ----- Handle traits -----
/// Read operations of an indexed handle.
///
/// A handle shares its storage with every clone of it, so what a read returns
/// is what the storage holds at that moment, whoever wrote it.
pub trait IndexedHandleRead<V> {
    /// Whether no operation of this handle type fails.
    spec fn handle_ok() -> bool;

    /// Returns an owned copy of the value at `key`, if present.
    fn get(&self, key: &usize) -> (r: Result<Option<V>, HandleError>)
        where
            V: Clone,
        ensures
            Self::handle_ok() ==> r is Ok,
    ;

    /// Returns `Some(f(value))` for the value at `key`, if present.
    fn with_ref<F, R>(&self, key: &usize, f: F) -> (r: Result<Option<R>, HandleError>)
        where
            F: FnOnce(&V) -> R,
        requires
            forall|v: &V| f.requires((v,)),
        ensures
            Self::handle_ok() ==> r is Ok,
            r matches Ok(Some(x)) ==> super::output_on_ref(f, x),
    ;

    /// Runs `f` on every position and borrowed value, in order.
    fn for_each<F: Fn((usize, &V))>(&self, f: F) -> (r: Result<(), HandleError>)
        requires
            forall|i: usize, v: &V| f.requires(((i, v),)),
        ensures
            Self::handle_ok() ==> r is Ok,
    ;

    /// Runs `f` on positions and borrowed values until it breaks.
    fn try_for_each<B, F: Fn((usize, &V)) -> ControlFlow<B>>(&self, f: F) -> (r: Result<ControlFlow<B>, HandleError>)
        requires
            forall|i: usize, v: &V| f.requires(((i, v),)),
        ensures
            Self::handle_ok() ==> r is Ok,
            r matches Ok(ControlFlow::Break(b)) ==> output_at(f, ControlFlow::Break(b)),
    ;

    /// Accumulates `f` over every position and borrowed value, in order, from `init`.
    fn fold<A, F: Fn(A, (usize, &V)) -> A>(&self, init: A, f: F) -> (r: Result<A, HandleError>)
        requires
            forall|a: A, i: usize, v: &V| f.requires((a, (i, v))),
        ensures
            Self::handle_ok() ==> r is Ok,
    ;

    /// Collects `f` of every position and borrowed value, in order.
    fn map<R, F: Fn((usize, &V)) -> R>(&self, f: F) -> (r: Result<Vec<R>, HandleError>)
        requires
            forall|i: usize, v: &V| f.requires(((i, v),)),
        ensures
            Self::handle_ok() ==> r is Ok,
            r matches Ok(xs) ==> forall|k: int| 0 <= k < xs@.len() ==> #[trigger] output_at(f, xs@[k]),
    ;

    /// Returns the first position whose value satisfies `f`, if any.
    fn find_key<F>(&self, f: F) -> (r: Result<Option<usize>, HandleError>)
        where
            F: Fn((&usize, &V)) -> bool,
        requires
            forall|i: &usize, v: &V| f.requires(((i, v),)),
        ensures
            Self::handle_ok() ==> r is Ok,
            r matches Ok(Some(i)) ==> accepted_at(f, i),
    {
        let fr = &f;
        let g = |e: (usize, &V)| -> (c: ControlFlow<usize>)
            requires
                fr.requires(((&e.0, e.1),)),
            ensures
                c matches ControlFlow::Break(i) ==> i == e.0 && fr.ensures(((&e.0, e.1),), true),
                c is Continue ==> fr.ensures(((&e.0, e.1),), false),
        {
            if fr((&e.0, e.1)) {
                ControlFlow::Break(e.0)
            } else {
                ControlFlow::Continue(())
            }
        };
        match self.try_for_each(g) {
            Ok(ControlFlow::Break(i)) => {
                proof {
                    let (j, v) = choose|j: usize, v: &V| #[trigger] g.ensures(((j, v),), ControlFlow::Break(i));
                    assert(f.ensures(((&i, v),), true));
                    assert(accepted_at(f, i));
                }
                Ok(Some(i))
            },
            Ok(ControlFlow::Continue(())) => Ok(None),
            Err(e) => Err(e),
        }
    }

    /// Returns the first position whose value satisfies `f`, with a clone of the value.
    fn find<F>(&self, f: F) -> (r: Result<Option<(usize, V)>, HandleError>)
        where
            V: Clone,
            F: Fn((&usize, &V)) -> bool,
        requires
            forall|i: &usize, v: &V| f.requires(((i, v),)),
        ensures
            Self::handle_ok() ==> r is Ok,
            r matches Ok(Some(x)) ==> accepted_clone(f, x),
    {
        let fr = &f;
        let g = |e: (usize, &V)| -> (c: ControlFlow<(usize, V)>)
            requires
                fr.requires(((&e.0, e.1),)),
            ensures
                c matches ControlFlow::Break(x) ==> x.0 == e.0 && fr.ensures(((&e.0, e.1),), true) && cloned(*e.1, x.1),
                c is Continue ==> fr.ensures(((&e.0, e.1),), false),
        {
            if fr((&e.0, e.1)) {
                ControlFlow::Break((e.0, e.1.clone()))
            } else {
                ControlFlow::Continue(())
            }
        };
        match self.try_for_each(g) {
            Ok(ControlFlow::Break(x)) => {
                proof {
                    let (j, v) = choose|j: usize, v: &V| #[trigger] g.ensures(((j, v),), ControlFlow::Break(x));
                    assert(f.ensures(((&x.0, v),), true) && cloned(*v, x.1));
                    assert(accepted_clone(f, x));
                }
                Ok(Some(x))
            },
            Ok(ControlFlow::Continue(())) => Ok(None),
            Err(e) => Err(e),
        }
    }

    /// Returns whether a value is held at `key`.
    fn contains_key(&self, key: &usize) -> (r: Result<bool, HandleError>)
        ensures
            Self::handle_ok() ==> r is Ok,
    ;

    /// Returns the number of values held.
    fn len(&self) -> (r: Result<usize, HandleError>)
        ensures
            Self::handle_ok() ==> r is Ok,
    ;

    /// Returns whether the storage is empty.
    fn is_empty(&self) -> (r: Result<bool, HandleError>)
        ensures
            Self::handle_ok() ==> r is Ok,
    {
        match self.len() {
            Ok(n) => Ok(n == 0),
            Err(e) => Err(e),
        }
    }

    /// Returns every position paired with a clone of its value.
    fn entries(&self) -> (r: Result<Vec<(usize, V)>, HandleError>)
        where
            V: Clone,
        ensures
            Self::handle_ok() ==> r is Ok,
    ;

    /// Returns every position, in order.
    fn keys(&self) -> (r: Result<Vec<usize>, HandleError>)
        ensures
            Self::handle_ok() ==> r is Ok,
    ;

    /// Returns clones of every value, in order.
    fn values(&self) -> (r: Result<Vec<V>, HandleError>)
        where
            V: Clone,
        ensures
            Self::handle_ok() ==> r is Ok,
    ;
}

/// Convenience methods on `IndexedHandleRead` for handles whose operations
/// cannot fail.
pub trait IndexedHandleReadExt<V>: IndexedHandleRead<V> {
    /// `get` on a handle that cannot fail.
    fn get_unwrap(&self, key: &usize) -> (r: Option<V>)
        where
            V: Clone,
        requires
            Self::handle_ok(),
    {
        match self.get(key) {
            Ok(o) => o,
            Err(_) => unreached(),
        }
    }

    /// `with_ref` on a handle that cannot fail.
    fn with_ref_unwrap<F, R>(&self, key: &usize, f: F) -> (r: Option<R>)
        where
            F: FnOnce(&V) -> R,
        requires
            Self::handle_ok(),
            forall|v: &V| f.requires((v,)),
        ensures
            r matches Some(x) ==> super::output_on_ref(f, x),
    {
        match self.with_ref(key, f) {
            Ok(o) => o,
            Err(_) => unreached(),
        }
    }

    /// `for_each` on a handle that cannot fail.
    fn for_each_unwrap<F: Fn((usize, &V))>(&self, f: F)
        requires
            Self::handle_ok(),
            forall|i: usize, v: &V| f.requires(((i, v),)),
    {
        match self.for_each(f) {
            Ok(()) => {},
            Err(_) => unreached(),
        }
    }

    /// `try_for_each` on a handle that cannot fail.
    fn try_for_each_unwrap<B, F: Fn((usize, &V)) -> ControlFlow<B>>(&self, f: F) -> (r: ControlFlow<B>)
        requires
            Self::handle_ok(),
            forall|i: usize, v: &V| f.requires(((i, v),)),
        ensures
            r matches ControlFlow::Break(b) ==> output_at(f, ControlFlow::Break(b)),
    {
        match self.try_for_each(f) {
            Ok(c) => c,
            Err(_) => unreached(),
        }
    }

    /// `fold` on a handle that cannot fail.
    fn fold_unwrap<A, F: Fn(A, (usize, &V)) -> A>(&self, init: A, f: F) -> (r: A)
        requires
            Self::handle_ok(),
            forall|a: A, i: usize, v: &V| f.requires((a, (i, v))),
    {
        match self.fold(init, f) {
            Ok(a) => a,
            Err(_) => unreached(),
        }
    }

    /// `map` on a handle that cannot fail.
    fn map_unwrap<R, F: Fn((usize, &V)) -> R>(&self, f: F) -> (r: Vec<R>)
        requires
            Self::handle_ok(),
            forall|i: usize, v: &V| f.requires(((i, v),)),
        ensures
            forall|i: int| 0 <= i < r@.len() ==> #[trigger] output_at(f, r@[i]),
    {
        match self.map(f) {
            Ok(xs) => xs,
            Err(_) => unreached(),
        }
    }

    /// `find_key` on a handle that cannot fail.
    fn find_key_unwrap<F>(&self, f: F) -> (r: Option<usize>)
        where
            F: Fn((&usize, &V)) -> bool,
        requires
            Self::handle_ok(),
            forall|i: &usize, v: &V| f.requires(((i, v),)),
        ensures
            r matches Some(i) ==> accepted_at(f, i),
    {
        match self.find_key(f) {
            Ok(o) => o,
            Err(_) => unreached(),
        }
    }

    /// `find` on a handle that cannot fail.
    fn find_unwrap<F>(&self, f: F) -> (r: Option<(usize, V)>)
        where
            V: Clone,
            F: Fn((&usize, &V)) -> bool,
        requires
            Self::handle_ok(),
            forall|i: &usize, v: &V| f.requires(((i, v),)),
        ensures
            r matches Some(x) ==> accepted_clone(f, x),
    {
        match self.find(f) {
            Ok(o) => o,
            Err(_) => unreached(),
        }
    }

    /// `contains_key` on a handle that cannot fail.
    fn contains_key_unwrap(&self, key: &usize) -> (r: bool)
        requires
            Self::handle_ok(),
    {
        match self.contains_key(key) {
            Ok(b) => b,
            Err(_) => unreached(),
        }
    }

    /// `len` on a handle that cannot fail.
    fn len_unwrap(&self) -> (r: usize)
        requires
            Self::handle_ok(),
    {
        match self.len() {
            Ok(n) => n,
            Err(_) => unreached(),
        }
    }

    /// `is_empty` on a handle that cannot fail.
    fn is_empty_unwrap(&self) -> (r: bool)
        requires
            Self::handle_ok(),
    {
        match self.is_empty() {
            Ok(b) => b,
            Err(_) => unreached(),
        }
    }

    /// `entries` on a handle that cannot fail.
    fn entries_unwrap(&self) -> (r: Vec<(usize, V)>)
        where
            V: Clone,
        requires
            Self::handle_ok(),
    {
        match self.entries() {
            Ok(es) => es,
            Err(_) => unreached(),
        }
    }

    /// `keys` on a handle that cannot fail.
    fn keys_unwrap(&self) -> (r: Vec<usize>)
        requires
            Self::handle_ok(),
    {
        match self.keys() {
            Ok(ks) => ks,
            Err(_) => unreached(),
        }
    }

    /// `values` on a handle that cannot fail.
    fn values_unwrap(&self) -> (r: Vec<V>)
        where
            V: Clone,
        requires
            Self::handle_ok(),
    {
        match self.values() {
            Ok(vs) => vs,
            Err(_) => unreached(),
        }
    }
}

impl<T, V> IndexedHandleReadExt<V> for T where T: IndexedHandleRead<V> {}

/// Write operations of an indexed handle.
pub trait IndexedHandleWrite<V>: IndexedHandleRead<V> {
    /// Appends a value and returns its position.
    fn push(&self, value: V) -> (r: Result<usize, HandleError>)
        ensures
            Self::handle_ok() ==> r is Ok,
    ;

    /// Appends a value and returns its position with a clone of the value.
    fn push_clone(&self, value: V) -> (r: Result<(usize, V), HandleError>)
        where
            V: Clone,
        ensures
            Self::handle_ok() ==> r is Ok,
            r matches Ok(x) ==> cloned(value, x.1),
    {
        let copy = value.clone();
        match self.push(value) {
            Ok(k) => Ok((k, copy)),
            Err(e) => Err(e),
        }
    }

    /// Puts `value` at `index` (replacing, or appending at the length); a
    /// position past the end is refused.
    fn insert(&self, index: usize, value: V) -> (r: Result<Option<V>, HandleError>)
        ensures
            Self::handle_ok() ==> (r is Ok
                || (r matches Err(HandleError::Storage(StorageError::OutOfBounds(i, n))) && i == index)),
    ;

    /// Returns a copy of the value at `index`, appending `value` first when
    /// `index` is the length; a position past the end is refused.
    fn try_insert(&self, index: usize, value: V) -> (r: Result<V, HandleError>)
        where
            V: Clone,
        ensures
            Self::handle_ok() ==> (r is Ok
                || (r matches Err(HandleError::Storage(StorageError::OutOfBounds(i, n))) && i == index)),
    ;

    /// Returns a copy of the value at `index`, appending the result of
    /// `value()` first when `index` is the length.
    fn try_insert_with<F>(&self, index: usize, value: F) -> (r: Result<V, HandleError>)
        where
            V: Clone,
            F: FnOnce() -> Result<V, StorageError>,
        requires
            value.requires(()),
        ensures
            Self::handle_ok() ==> (r is Ok
                || (r matches Err(HandleError::Storage(StorageError::OutOfBounds(i, n))) && i == index)
                || (r matches Err(HandleError::Storage(e)) && value.ensures((), Err::<V, StorageError>(e)))),
    ;

    /// Returns `Some(f(value))` after running `f` on the value at `key`, if present.
    fn with_mut<F, R>(&self, key: &usize, f: F) -> (r: Result<Option<R>, HandleError>)
        where
            F: FnOnce(&mut V) -> R,
        requires
            forall|v: &mut V| f.requires((v,)),
        ensures
            Self::handle_ok() ==> r is Ok,
            r matches Ok(Some(x)) ==> super::output_on_mut(f, x),
    ;

    /// Runs `f` on every position and its value, with mutable access.
    fn for_each_mut<F: Fn((usize, &mut V))>(&self, f: F) -> (r: Result<(), HandleError>)
        requires
            forall|i: usize, v: &mut V| f.requires(((i, v),)),
        ensures
            Self::handle_ok() ==> r is Ok,
    ;

    /// Runs `f` on positions and values, with mutable access, until it breaks.
    fn try_for_each_mut<B, F: Fn((usize, &mut V)) -> ControlFlow<B>>(&self, f: F) -> (r: Result<ControlFlow<B>, HandleError>)
        requires
            forall|i: usize, v: &mut V| f.requires(((i, v),)),
        ensures
            Self::handle_ok() ==> r is Ok,
            r matches Ok(ControlFlow::Break(b)) ==> output_at_mut(f, ControlFlow::Break(b)),
    ;

    /// Accumulates `f` over every position and value, with mutable access,
    /// in order, from `init`.
    fn fold_mut<A, F: Fn(A, (usize, &mut V)) -> A>(&self, init: A, f: F) -> (r: Result<A, HandleError>)
        requires
            forall|a: A, i: usize, v: &mut V| f.requires((a, (i, v))),
        ensures
            Self::handle_ok() ==> r is Ok,
    ;

    /// Collects `f` of every position and value, with mutable access, in order.
    fn map_mut<R, F: Fn((usize, &mut V)) -> R>(&self, f: F) -> (r: Result<Vec<R>, HandleError>)
        requires
            forall|i: usize, v: &mut V| f.requires(((i, v),)),
        ensures
            Self::handle_ok() ==> r is Ok,
            r matches Ok(xs) ==> forall|k: int| 0 <= k < xs@.len() ==> #[trigger] output_at_mut(f, xs@[k]),
    ;

    /// Removes and returns the value at `key`, shifting later values down.
    fn remove(&self, key: &usize) -> (r: Result<Option<V>, HandleError>)
        ensures
            Self::handle_ok() ==> r is Ok,
    ;

    /// Removes every value.
    fn clear(&self) -> (r: Result<(), HandleError>)
        ensures
            Self::handle_ok() ==> r is Ok,
    ;

    /// Keeps only the values for which `f` (given position and value) returns `true`.
    fn retain<F: Fn((usize, &V)) -> bool>(&self, f: F) -> (r: Result<(), HandleError>)
        requires
            forall|i: usize, v: &V| f.requires(((i, v),)),
        ensures
            Self::handle_ok() ==> r is Ok,
    ;

    /// Removes and returns every value, numbered from 0.
    fn drain(&self) -> (r: Result<Vec<(usize, V)>, HandleError>)
        ensures
            Self::handle_ok() ==> r is Ok,
    ;

    /// Appends every value of `values`, in order, and returns their positions.
    fn extend(&self, values: Vec<V>) -> (r: Result<Vec<usize>, HandleError>);

    /// Appends clones of every value of `other`, and returns their positions.
    fn merge<R>(&self, other: &R) -> (r: Result<Vec<usize>, HandleError>)
        where
            R: IndexedHandleRead<V>,
            V: Clone,
    {
        match other.values() {
            Ok(vs) => self.extend(vs),
            Err(e) => Err(e),
        }
    }
}

/// Convenience methods on `IndexedHandleWrite` for handles whose operations
/// cannot fail.
pub trait IndexedHandleWriteExt<V>: IndexedHandleWrite<V> {
    /// `push` on a handle that cannot fail.
    fn push_unwrap(&self, value: V) -> (r: usize)
        requires
            Self::handle_ok(),
    {
        match self.push(value) {
            Ok(k) => k,
            Err(_) => unreached(),
        }
    }

    /// `push_clone` on a handle that cannot fail.
    fn push_clone_unwrap(&self, value: V) -> (r: (usize, V))
        where
            V: Clone,
        requires
            Self::handle_ok(),
        ensures
            cloned(value, r.1),
    {
        match self.push_clone(value) {
            Ok(x) => x,
            Err(_) => unreached(),
        }
    }

    /// `with_mut` on a handle that cannot fail.
    fn with_mut_unwrap<F, R>(&self, key: &usize, f: F) -> (r: Option<R>)
        where
            F: FnOnce(&mut V) -> R,
        requires
            Self::handle_ok(),
            forall|v: &mut V| f.requires((v,)),
        ensures
            r matches Some(x) ==> super::output_on_mut(f, x),
    {
        match self.with_mut(key, f) {
            Ok(o) => o,
            Err(_) => unreached(),
        }
    }

    /// `for_each_mut` on a handle that cannot fail.
    fn for_each_mut_unwrap<F: Fn((usize, &mut V))>(&self, f: F)
        requires
            Self::handle_ok(),
            forall|i: usize, v: &mut V| f.requires(((i, v),)),
    {
        match self.for_each_mut(f) {
            Ok(()) => {},
            Err(_) => unreached(),
        }
    }

    /// `try_for_each_mut` on a handle that cannot fail.
    fn try_for_each_mut_unwrap<B, F: Fn((usize, &mut V)) -> ControlFlow<B>>(&self, f: F) -> (r: ControlFlow<B>)
        requires
            Self::handle_ok(),
            forall|i: usize, v: &mut V| f.requires(((i, v),)),
        ensures
            r matches ControlFlow::Break(b) ==> output_at_mut(f, ControlFlow::Break(b)),
    {
        match self.try_for_each_mut(f) {
            Ok(c) => c,
            Err(_) => unreached(),
        }
    }

    /// `fold_mut` on a handle that cannot fail.
    fn fold_mut_unwrap<A, F: Fn(A, (usize, &mut V)) -> A>(&self, init: A, f: F) -> (r: A)
        requires
            Self::handle_ok(),
            forall|a: A, i: usize, v: &mut V| f.requires((a, (i, v))),
    {
        match self.fold_mut(init, f) {
            Ok(a) => a,
            Err(_) => unreached(),
        }
    }

    /// `map_mut` on a handle that cannot fail.
    fn map_mut_unwrap<R, F: Fn((usize, &mut V)) -> R>(&self, f: F) -> (r: Vec<R>)
        requires
            Self::handle_ok(),
            forall|i: usize, v: &mut V| f.requires(((i, v),)),
        ensures
            forall|k: int| 0 <= k < r@.len() ==> #[trigger] output_at_mut(f, r@[k]),
    {
        match self.map_mut(f) {
            Ok(xs) => xs,
            Err(_) => unreached(),
        }
    }

    /// `remove` on a handle that cannot fail.
    fn remove_unwrap(&self, key: &usize) -> (r: Option<V>)
        requires
            Self::handle_ok(),
    {
        match self.remove(key) {
            Ok(o) => o,
            Err(_) => unreached(),
        }
    }

    /// `clear` on a handle that cannot fail.
    fn clear_unwrap(&self)
        requires
            Self::handle_ok(),
    {
        match self.clear() {
            Ok(()) => {},
            Err(_) => unreached(),
        }
    }

    /// `retain` on a handle that cannot fail.
    fn retain_unwrap<F: Fn((usize, &V)) -> bool>(&self, f: F)
        requires
            Self::handle_ok(),
            forall|i: usize, v: &V| f.requires(((i, v),)),
    {
        match self.retain(f) {
            Ok(()) => {},
            Err(_) => unreached(),
        }
    }

    /// `drain` on a handle that cannot fail.
    fn drain_unwrap(&self) -> (r: Vec<(usize, V)>)
        requires
            Self::handle_ok(),
    {
        match self.drain() {
            Ok(es) => es,
            Err(_) => unreached(),
        }
    }
}

impl<T, V> IndexedHandleWriteExt<V> for T where T: IndexedHandleWrite<V> {}

/// A complete indexed handle: constructors and lazy initialisation.
pub trait IndexedHandle<V>: IndexedHandleWrite<V> + Sized {
    /// The storage that the handle shares.
    type Storage;

    /// A handle sharing a new storage that starts as `storage`.
    fn new(storage: Self::Storage) -> Self;

    /// A handle on an empty storage with room for `capacity` values.
    fn with_capacity(capacity: usize) -> Self;

    /// A handle on a storage holding `values`.
    fn from_iter(values: Vec<V>) -> Self;

    /// Returns a copy of the value at `key`, appending `f()` first when `key` is the length.
    fn get_or_insert_with<F>(&self, key: usize, f: F) -> (r: Result<V, HandleError>)
        where
            V: Clone,
            F: FnOnce() -> V,
        requires
            f.requires(()),
        ensures
            Self::handle_ok() ==> (r is Ok
                || (r matches Err(HandleError::Storage(StorageError::OutOfBounds(i, n))) && i == key)),
    ;

    /// Fallible version of `get_or_insert_with`.
    fn get_or_try_insert_with<F>(&self, key: usize, f: F) -> (r: Result<V, HandleError>)
        where
            V: Clone,
            F: FnOnce() -> Result<V, StorageError>,
        requires
            f.requires(()),
        ensures
            Self::handle_ok() ==> (r is Ok
                || (r matches Err(HandleError::Storage(StorageError::OutOfBounds(i, n))) && i == key)
                || (r matches Err(HandleError::Storage(e)) && f.ensures((), Err::<V, StorageError>(e)))),
    ;
}

/// An indexed handle that can stand behind a trait object: the operations of
/// `IndexedHandle` that take no closure, and lazy initialisation from a value.
pub trait IndexedDynHandle<V>: Send + Sync {
    /// The key type (a position).
    type Key;

    /// Whether no operation of this handle type fails by itself.
    spec fn dyn_ok(&self) -> bool;

    /// Returns an owned copy of the value at `key`, if present.
    fn get(&self, key: &Self::Key) -> (r: Result<Option<V>, HandleError>)
        where
            V: Clone,
        ensures
            self.dyn_ok() ==> r is Ok,
    ;

    /// Returns whether a value is held at `key`.
    fn contains_key(&self, key: &Self::Key) -> (r: Result<bool, HandleError>)
        ensures
            self.dyn_ok() ==> r is Ok,
    ;

    /// Returns the number of values held.
    fn len(&self) -> (r: Result<usize, HandleError>)
        ensures
            self.dyn_ok() ==> r is Ok,
    ;

    /// Returns whether the storage is empty.
    fn is_empty(&self) -> (r: Result<bool, HandleError>)
        ensures
            self.dyn_ok() ==> r is Ok,
    {
        match self.len() {
            Ok(n) => Ok(n == 0),
            Err(e) => Err(e),
        }
    }

    /// Returns every position paired with a clone of its value.
    fn entries(&self) -> (r: Result<Vec<(Self::Key, V)>, HandleError>)
        where
            V: Clone,
        ensures
            self.dyn_ok() ==> r is Ok,
    ;

    /// Returns every position, in order.
    fn keys(&self) -> (r: Result<Vec<Self::Key>, HandleError>)
        ensures
            self.dyn_ok() ==> r is Ok,
    ;

    /// Returns clones of every value, in order.
    fn values(&self) -> (r: Result<Vec<V>, HandleError>)
        where
            V: Clone,
        ensures
            self.dyn_ok() ==> r is Ok,
    ;

    /// Appends a value and returns its position.
    fn push(&self, value: V) -> (r: Result<Self::Key, HandleError>)
        ensures
            self.dyn_ok() ==> r is Ok,
    ;

    /// Puts `value` at `index` (replacing, or appending at the length).
    fn insert(&self, index: Self::Key, value: V) -> (r: Result<Option<V>, HandleError>)
        ensures
            self.dyn_ok() ==> (r is Ok || r matches Err(HandleError::Storage(StorageError::OutOfBounds(_, _)))),
    ;

    /// Removes and returns the value at `key`, shifting later values down.
    fn remove(&self, key: &Self::Key) -> (r: Result<Option<V>, HandleError>)
        ensures
            self.dyn_ok() ==> r is Ok,
    ;

    /// Removes every value.
    fn clear(&self) -> (r: Result<(), HandleError>)
        ensures
            self.dyn_ok() ==> r is Ok,
    ;

    /// Removes and returns every value, numbered from 0.
    fn drain(&self) -> (r: Result<Vec<(Self::Key, V)>, HandleError>)
        ensures
            self.dyn_ok() ==> r is Ok,
    ;

    /// Appends every value of `values`, in order, and returns their positions.
    fn extend(&self, values: Vec<V>) -> Result<Vec<Self::Key>, HandleError>;

    /// Returns a copy of the value at `key`, appending `value` first when `key` is the length.
    fn get_or_insert_with(&self, key: Self::Key, value: V) -> (r: Result<V, HandleError>)
        where
            V: Clone,
        ensures
            self.dyn_ok() ==> (r is Ok || r matches Err(HandleError::Storage(StorageError::OutOfBounds(_, _)))),
    ;

    /// Returns a copy of the value at `key`, appending `value` first when
    /// `key` is the length; an `Err` value is returned as a storage error.
    fn get_or_try_insert_with(&self, key: Self::Key, value: Result<V, StorageError>) -> (r: Result<V, HandleError>)
        where
            V: Clone,
        ensures
            self.dyn_ok() ==> (r is Ok || r matches Err(HandleError::Storage(StorageError::OutOfBounds(_, _)))
                || (r matches Err(HandleError::Storage(e)) && value == Err::<V, StorageError>(e))),
    ;
}

/// Merges the handle `other` into `target`: clones of its values are
/// appended, and their positions returned; an error of `other` is returned
/// as it is and leaves `target` unchanged.
pub fn merge_dyn<V: Clone, A: IndexedDynHandle<V> + ?Sized, B: IndexedDynHandle<V> + ?Sized>(
    target: &A,
    other: &B,
) -> Result<Vec<A::Key>, HandleError> {
    match other.values() {
        Ok(values) => target.extend(values),
        Err(e) => Err(e),
    }
}

impl<V, T: IndexedHandle<V> + Send + Sync> IndexedDynHandle<V> for T {
    type Key = usize;

    open spec fn dyn_ok(&self) -> bool {
        T::handle_ok()
    }

    fn get(&self, key: &usize) -> (r: Result<Option<V>, HandleError>)
        where
            V: Clone,
    {
        IndexedHandleRead::get(self, key)
    }

    fn contains_key(&self, key: &usize) -> (r: Result<bool, HandleError>) {
        IndexedHandleRead::contains_key(self, key)
    }

    fn len(&self) -> (r: Result<usize, HandleError>) {
        IndexedHandleRead::len(self)
    }

    fn entries(&self) -> (r: Result<Vec<(usize, V)>, HandleError>)
        where
            V: Clone,
    {
        IndexedHandleRead::entries(self)
    }

    fn keys(&self) -> (r: Result<Vec<usize>, HandleError>) {
        IndexedHandleRead::keys(self)
    }

    fn values(&self) -> (r: Result<Vec<V>, HandleError>)
        where
            V: Clone,
    {
        IndexedHandleRead::values(self)
    }

    fn push(&self, value: V) -> (r: Result<usize, HandleError>) {
        IndexedHandleWrite::push(self, value)
    }

    fn insert(&self, index: usize, value: V) -> (r: Result<Option<V>, HandleError>) {
        IndexedHandleWrite::insert(self, index, value)
    }

    fn remove(&self, key: &usize) -> (r: Result<Option<V>, HandleError>) {
        IndexedHandleWrite::remove(self, key)
    }

    fn clear(&self) -> (r: Result<(), HandleError>) {
        IndexedHandleWrite::clear(self)
    }

    fn drain(&self) -> (r: Result<Vec<(usize, V)>, HandleError>) {
        IndexedHandleWrite::drain(self)
    }

    fn extend(&self, values: Vec<V>) -> (r: Result<Vec<usize>, HandleError>) {
        IndexedHandleWrite::extend(self, values)
    }

    fn get_or_insert_with(&self, key: usize, value: V) -> (r: Result<V, HandleError>)
        where
            V: Clone,
    {
        IndexedHandle::get_or_insert_with(self, key, move || -> (v: V) ensures v == value { value })
    }

    fn get_or_try_insert_with(&self, key: usize, value: Result<V, StorageError>) -> (r: Result<V, HandleError>)
        where
            V: Clone,
    {
        IndexedHandle::get_or_try_insert_with(self, key, move || -> (v: Result<V, StorageError>) ensures v == value { value })
    }
}

} // verus!
