//! Keyed (map-like) storages and the handles that share them.
use super::{output_on_ref, HandleError, StorageError};
use std::collections::hash_map::Entry;
use std::collections::HashMap;
use std::hash::Hash;
use std::ops::ControlFlow;
use vstd::prelude::*;
use vstd::std_specs::hash::obeys_key_model;

verus! {

broadcast use vstd::std_specs::hash::group_hash_axioms;

// ----- Models -----
/// The map obtained by inserting `entries` into `m` in order (later entries win).
pub open spec fn insert_all<K, V>(m: Map<K, V>, entries: Seq<(K, V)>) -> Map<K, V>
    decreases entries.len(),
{
    if entries.len() == 0 {
        m
    } else {
        insert_all(m, entries.drop_last()).insert(entries.last().0, entries.last().1)
    }
}

/// `o` is what a lookup of `k` in `m` finds.
pub open spec fn found<K, V>(m: Map<K, V>, k: K, o: Option<&V>) -> bool {
    match o {
        Some(v) => m.contains_key(k) && m[k] == *v,
        None => !m.contains_key(k),
    }
}

/// `o` is the value that `m` held under `k`, moved out.
pub open spec fn held<K, V>(m: Map<K, V>, k: K, o: Option<V>) -> bool {
    match o {
        Some(v) => m.contains_key(k) && m[k] == v,
        None => !m.contains_key(k),
    }
}

/// Some entry of `es` has the key `k`.
pub open spec fn key_listed<K, V>(es: Seq<(K, V)>, k: K) -> bool {
    exists|i: int| 0 <= i < es.len() && #[trigger] es[i].0 == k
}

/// `es` lists every entry of `m` exactly once.
pub open spec fn lists_entries<K, V>(m: Map<K, V>, es: Seq<(K, V)>) -> bool {
    &&& es.len() == m.len()
    &&& forall|i: int| 0 <= i < es.len() ==> #[trigger] m.contains_key(es[i].0) && m[es[i].0] == es[i].1
    &&& forall|i: int, j: int| 0 <= i < j < es.len() ==> es[i].0 != es[j].0
    &&& forall|k: K| #[trigger] m.contains_key(k) ==> key_listed(es, k)
}

/// `e` is a clone of an entry of `m`.
pub open spec fn clone_of_entry<K: Clone, V: Clone>(m: Map<K, V>, e: (K, V)) -> bool {
    exists|k: K| #[trigger] m.contains_key(k) && cloned(k, e.0) && cloned(m[k], e.1)
}

/// `x` is a clone of a key of `m`.
pub open spec fn clone_of_key<K: Clone, V>(m: Map<K, V>, x: K) -> bool {
    exists|k: K| #[trigger] m.contains_key(k) && cloned(k, x)
}

/// `x` is a clone of a value of `m`.
pub open spec fn clone_of_value<K, V: Clone>(m: Map<K, V>, x: V) -> bool {
    exists|k: K| #[trigger] m.contains_key(k) && cloned(m[k], x)
}

/// `f` returns `Break(b)` on some entry of `m`.
pub open spec fn broke_on<K, V, B, F: Fn((&K, &V)) -> ControlFlow<B>>(m: Map<K, V>, f: F, b: B) -> bool {
    exists|k: K| #[trigger] m.contains_key(k) && f.ensures(((&k, &m[k]),), ControlFlow::Break(b))
}

/// `x` is what `f` gives on some entry of `m`.
pub open spec fn mapped_from<K, V, R, F: Fn((&K, &V)) -> R>(m: Map<K, V>, f: F, x: R) -> bool {
    exists|k: K| #[trigger] m.contains_key(k) && f.ensures(((&k, &m[k]),), x)
}

/// `x` is what `f` gives on some pair of borrowed key and value.
pub open spec fn output_of<K, V, R, F: Fn((&K, &V)) -> R>(f: F, x: R) -> bool {
    exists|k: &K, v: &V| #[trigger] f.ensures(((k, v),), x)
}

/// `x` is what `f` gives on some pair of borrowed key and mutably borrowed value.
pub open spec fn output_of_mut<K, V, R, F: Fn((&K, &mut V)) -> R>(f: F, x: R) -> bool {
    exists|k: &K, v: &mut V| #[trigger] f.ensures(((k, v),), x)
}

/// `es` lists every entry of `m` once: as many entries as `m` holds, each
/// an entry of `m`, with distinct keys.
pub open spec fn enumerates<K, V>(m: Map<K, V>, es: Seq<(K, V)>) -> bool {
    &&& es.len() == m.len()
    &&& forall|i: int| 0 <= i < es.len() ==> #[trigger] m.contains_key(es[i].0) && m[es[i].0] == es[i].1
    &&& forall|i: int, j: int| 0 <= i < j < es.len() ==> es[i].0 != es[j].0
}

/// Step `j` of folding `f` over `es` takes `accs[j]` to `accs[j + 1]`.
pub open spec fn fold_step<K, V, A, F: Fn(A, (&K, &V)) -> A>(f: F, es: Seq<(K, V)>, accs: Seq<A>, j: int) -> bool {
    f.ensures((accs[j], (&es[j].0, &es[j].1)), accs[j + 1])
}

/// `accs` are the accumulators of folding `f` over `es` from `init`, ending in `r`.
pub open spec fn fold_chain<K, V, A, F: Fn(A, (&K, &V)) -> A>(f: F, init: A, es: Seq<(K, V)>, accs: Seq<A>, r: A) -> bool {
    &&& accs.len() == es.len() + 1
    &&& accs[0] == init
    &&& accs[es.len() as int] == r
    &&& forall|j: int| 0 <= j < es.len() ==> #[trigger] fold_step(f, es, accs, j)
}

/// `r` is what folding `f` over the entries of `m`, in some order, from `init` gives.
pub open spec fn folded<K, V, A, F: Fn(A, (&K, &V)) -> A>(f: F, init: A, m: Map<K, V>, r: A) -> bool {
    exists|es: Seq<(K, V)>, accs: Seq<A>| enumerates(m, es) && #[trigger] fold_chain(f, init, es, accs, r)
}

/// Step `j` of folding `f` with mutable access over `es` takes `accs[j]` to
/// `accs[j + 1]`, `f` being handed the value `es[j].1`.
pub open spec fn fold_step_mut<K, V, A, F: Fn(A, (&K, &mut V)) -> A>(f: F, es: Seq<(K, V)>, accs: Seq<A>, j: int) -> bool {
    exists|m: &mut V| *m == es[j].1 && #[trigger] f.ensures((accs[j], (&es[j].0, m)), accs[j + 1])
}

/// `accs` are the accumulators of folding `f`, with mutable access, over `es` from `init`, ending in `r`.
pub open spec fn fold_chain_mut<K, V, A, F: Fn(A, (&K, &mut V)) -> A>(f: F, init: A, es: Seq<(K, V)>, accs: Seq<A>, r: A) -> bool {
    &&& accs.len() == es.len() + 1
    &&& accs[0] == init
    &&& accs[es.len() as int] == r
    &&& forall|j: int| 0 <= j < es.len() ==> #[trigger] fold_step_mut(f, es, accs, j)
}

/// `r` is what folding `f`, with mutable access, over the entries of `m`, in
/// some order, from `init` gives.
pub open spec fn folded_mut<K, V, A, F: Fn(A, (&K, &mut V)) -> A>(f: F, init: A, m: Map<K, V>, r: A) -> bool {
    exists|es: Seq<(K, V)>, accs: Seq<A>| enumerates(m, es) && #[trigger] fold_chain_mut(f, init, es, accs, r)
}

/// `f`, handed some entry of `m` (the value with mutable access), returned `Break(b)`.
pub open spec fn broke_on_mut<K, V, B, F: Fn((&K, &mut V)) -> ControlFlow<B>>(m: Map<K, V>, f: F, b: B) -> bool {
    exists|k: K, v: &mut V| m.contains_key(k) && *v == m[k] && #[trigger] f.ensures(((&k, v),), ControlFlow::Break(b))
}

/// `f` was run on key `k` with (mutable access to) value `v`.
pub open spec fn ran_on_mut<K, V, F: Fn((&K, &mut V))>(f: F, k: K, v: V) -> bool {
    exists|m: &mut V| *m == v && #[trigger] f.ensures(((&k, m),), ())
}

/// `f`, handed key `k` and (with mutable access) value `v`, returned `Continue`.
pub open spec fn went_on_mut<K, V, B, F: Fn((&K, &mut V)) -> ControlFlow<B>>(f: F, k: K, v: V) -> bool {
    exists|m: &mut V| *m == v && #[trigger] f.ensures(((&k, m),), ControlFlow::<B>::Continue(()))
}

/// `f` answers `b` when called on key `k` with value `v` (as it was before
/// any change that `f` makes to it).
pub open spec fn answers_on<K, V, F: Fn(&K, &mut V) -> bool>(f: F, k: K, v: V, b: bool) -> bool {
    exists|m: &mut V| *m == v && #[trigger] f.ensures((&k, m), b)
}

/// `after` holds exactly the keys of `before` on which `f` answers `true`.
pub open spec fn retained_keys<K, V, F: Fn(&K, &mut V) -> bool>(f: F, before: Map<K, V>, after: Map<K, V>) -> bool {
    &&& after.dom().subset_of(before.dom())
    &&& forall|k: K| #[trigger] before.contains_key(k) ==> (after.contains_key(k) ==> answers_on(f, k, before[k], true))
        && (!after.contains_key(k) ==> answers_on(f, k, before[k], false))
}

/// `es` holds, one for each entry of `m`, a clone of some entry of `m`.
pub open spec fn clones_entries<K: Clone, V: Clone>(m: Map<K, V>, es: Seq<(K, V)>) -> bool {
    &&& es.len() == m.len()
    &&& forall|i: int| 0 <= i < es.len() ==> #[trigger] clone_of_entry(m, es[i])
}

/// `ks` holds, one for each entry of `m`, a clone of some key of `m`.
pub open spec fn clones_keys<K: Clone, V>(m: Map<K, V>, ks: Seq<K>) -> bool {
    &&& ks.len() == m.len()
    &&& forall|i: int| 0 <= i < ks.len() ==> #[trigger] clone_of_key(m, ks[i])
}

/// `vs` holds, one for each entry of `m`, a clone of some value of `m`.
pub open spec fn clones_values<K, V: Clone>(m: Map<K, V>, vs: Seq<V>) -> bool {
    &&& vs.len() == m.len()
    &&& forall|i: int| 0 <= i < vs.len() ==> #[trigger] clone_of_value(m, vs[i])
}

proof fn lemma_insert_all_step<K, V>(m: Map<K, V>, entries: Seq<(K, V)>, i: int)
    requires
        0 <= i < entries.len(),
    ensures
        insert_all(m, entries.take(i + 1)) == insert_all(m, entries.take(i)).insert(entries[i].0, entries[i].1),
{
    assert(entries.take(i + 1).drop_last() =~= entries.take(i));
}

// ----- Laws -----
/// A lookup after an insert finds the inserted value, and every other key
/// finds what it found before.
pub proof fn lemma_get_after_insert<K, V>(m: Map<K, V>, k: K, v: V, other: K, o: Option<&V>)
    ensures
        found(m.insert(k, v), k, Some(&v)),
        other != k ==> (found(m, other, o) <==> found(m.insert(k, v), other, o)),
{
}

/// A lookup after a removal finds nothing under the removed key, and every
/// other key finds what it found before.
pub proof fn lemma_get_after_remove<K, V>(m: Map<K, V>, k: K, other: K, o: Option<&V>)
    ensures
        found(m.remove(k), k, None),
        other != k ==> (found(m, other, o) <==> found(m.remove(k), other, o)),
{
}

/// Under a key that several entries share, `extend` keeps the value of the
/// last one.
pub proof fn lemma_extend_last_wins<K, V>(m: Map<K, V>, es: Seq<(K, V)>, i: int)
    requires
        0 <= i < es.len(),
        forall|j: int| i < j < es.len() ==> #[trigger] es[j].0 != es[i].0,
    ensures
        insert_all(m, es).contains_key(es[i].0),
        insert_all(m, es)[es[i].0] == es[i].1,
    decreases es.len(),
{
    if i < es.len() - 1 {
        assert(es.drop_last()[i] == es[i]);
        assert forall|j: int| i < j < es.drop_last().len() implies #[trigger] es.drop_last()[j].0 != es.drop_last()[i].0 by {
            assert(es.drop_last()[j] == es[j]);
        }
        lemma_extend_last_wins(m, es.drop_last(), i);
        assert(es[es.len() - 1].0 != es[i].0);
    }
}

/// Extending an empty storage with the entries that `drain` returned gives
/// back the drained map.
pub proof fn lemma_drain_then_extend_restores<K, V>(m: Map<K, V>, es: Seq<(K, V)>)
    requires
        lists_entries(m, es),
    ensures
        insert_all(Map::empty(), es) == m,
{
    assert forall|k: K| #[trigger] m.contains_key(k) implies insert_all(Map::empty(), es).contains_key(k)
        && insert_all(Map::empty(), es)[k] == m[k] by {
        assert(key_listed(es, k));
        let i = choose|i: int| 0 <= i < es.len() && #[trigger] es[i].0 == k;
        assert forall|j: int| i < j < es.len() implies #[trigger] es[j].0 != es[i].0 by {
            assert(es[i].0 != es[j].0);
        }
        lemma_extend_last_wins(Map::empty(), es, i);
    }
    lemma_insert_all_keys(es);
    assert forall|k: K| #[trigger] insert_all(Map::<K, V>::empty(), es).contains_key(k) implies m.contains_key(k) by {
        let i = choose|i: int| 0 <= i < es.len() && #[trigger] es[i].0 == k;
        assert(m.contains_key(es[i].0));
    }
    assert(insert_all(Map::empty(), es) =~= m);
}

/// The keys of `insert_all(Map::empty(), es)` are the keys listed in `es`.
proof fn lemma_insert_all_keys<K, V>(es: Seq<(K, V)>)
    ensures
        forall|k: K| #[trigger] insert_all(Map::<K, V>::empty(), es).contains_key(k) ==> key_listed(es, k),
    decreases es.len(),
{
    if es.len() > 0 {
        lemma_insert_all_keys(es.drop_last());
        assert forall|k: K| #[trigger] insert_all(Map::<K, V>::empty(), es).contains_key(k) implies key_listed(es, k) by {
            if k == es.last().0 {
                assert(es[es.len() - 1].0 == k);
            } else {
                assert(insert_all(Map::<K, V>::empty(), es.drop_last()).contains_key(k));
                let i = choose|i: int| 0 <= i < es.drop_last().len() && #[trigger] es.drop_last()[i].0 == k;
                assert(es[i].0 == k);
            }
        }
    }
}

// ----- Inner storage traits -----
/// Read-only behaviour of a keyed container.
pub trait KeyedStorageRead<K, V> {
    /// The entries held, as a map from key to value.
    spec fn kv(&self) -> Map<K, V>;

    /// Whether this container type behaves as the map `kv()` says; for a hash
    /// map this holds when `K` hashes and compares consistently.
    spec fn kv_model() -> bool;

    /// Whether no operation of this container type fails by itself.
    spec fn infallible() -> bool;

    /// Returns a reference to the value associated with `key`, if present.
    fn get(&self, key: &K) -> (r: Result<Option<&V>, StorageError>)
        ensures
            Self::infallible() ==> r is Ok,
            Self::kv_model() ==> (r matches Ok(o) ==> found(self.kv(), *key, o)),
    ;

    /// Returns whether the container holds an entry for `key`.
    fn contains_key(&self, key: &K) -> (r: Result<bool, StorageError>)
        ensures
            Self::infallible() ==> r is Ok,
            Self::kv_model() ==> (r matches Ok(b) ==> b == self.kv().contains_key(*key)),
    ;

    /// Returns the number of entries held.
    fn len(&self) -> (r: Result<usize, StorageError>)
        ensures
            Self::infallible() ==> r is Ok,
            Self::kv_model() ==> (r matches Ok(n) ==> n == self.kv().len()),
    ;

    /// Returns whether the container holds no entries.
    fn is_empty(&self) -> (r: Result<bool, StorageError>)
        ensures
            Self::infallible() ==> r is Ok,
            Self::kv_model() ==> (r matches Ok(b) ==> b == (self.kv().len() == 0)),
    {
        match self.len() {
            Ok(n) => Ok(n == 0),
            Err(e) => Err(e),
        }
    }

    /// Returns owned copies of all entries.
    fn entries(&self) -> (r: Result<Vec<(K, V)>, StorageError>)
        where
            K: Clone,
            V: Clone,
        ensures
            Self::infallible() ==> r is Ok,
            Self::kv_model() ==> (r matches Ok(es) ==> clones_entries(self.kv(), es@)),
    ;

    /// Returns owned copies of all keys.
    fn keys(&self) -> (r: Result<Vec<K>, StorageError>)
        where
            K: Clone,
        ensures
            Self::infallible() ==> r is Ok,
            Self::kv_model() ==> (r matches Ok(ks) ==> clones_keys(self.kv(), ks@)),
    ;

    /// Returns owned copies of all values.
    fn values(&self) -> (r: Result<Vec<V>, StorageError>)
        where
            V: Clone,
        ensures
            Self::infallible() ==> r is Ok,
            Self::kv_model() ==> (r matches Ok(vs) ==> clones_values(self.kv(), vs@)),
    ;

    /// Runs `f` on every borrowed entry.
    fn for_each<F: Fn((&K, &V))>(&self, f: F)
        requires
            forall|k: &K, v: &V| f.requires(((k, v),)),
    ;

    /// Runs `f` on borrowed entries until it breaks; returns the break value, if any.
    fn try_for_each<B, F: Fn((&K, &V)) -> ControlFlow<B>>(&self, f: F) -> (r: ControlFlow<B>)
        requires
            forall|k: &K, v: &V| f.requires(((k, v),)),
        ensures
            Self::kv_model() ==> (r matches ControlFlow::Break(b) ==> broke_on(self.kv(), f, b)),
            r matches ControlFlow::Break(b) ==> output_of(f, ControlFlow::Break(b)),
    ;

    /// Accumulates `f` over every borrowed entry, starting from `init`.
    fn fold<A, F: Fn(A, (&K, &V)) -> A>(&self, init: A, f: F) -> (r: A)
        requires
            forall|a: A, k: &K, v: &V| f.requires((a, (k, v))),
        ensures
            Self::kv_model() && self.kv().len() == 0 ==> r == init,
            Self::kv_model() ==> folded(f, init, self.kv(), r),
    ;

    /// Collects `f` of every borrowed entry.
    fn map<R, F: Fn((&K, &V)) -> R>(&self, f: F) -> (r: Vec<R>)
        requires
            forall|k: &K, v: &V| f.requires(((k, v),)),
        ensures
            Self::kv_model() ==> r@.len() == self.kv().len(),
            Self::kv_model() ==> forall|i: int| 0 <= i < r@.len() ==> #[trigger] mapped_from(self.kv(), f, r@[i]),
            forall|i: int| 0 <= i < r@.len() ==> #[trigger] output_of(f, r@[i]),
    ;
}

/// Mutable behaviour of a keyed container.
pub trait KeyedStorageWrite<K, V>: KeyedStorageRead<K, V> + Sized {
    /// Inserts a key/value pair, returning the previous value if present.
    fn insert(&mut self, key: K, value: V) -> (r: Result<Option<V>, StorageError>)
        ensures
            Self::infallible() ==> r is Ok,
            Self::kv_model() ==> (r matches Ok(o) ==> held(old(self).kv(), key, o)
                && final(self).kv() == old(self).kv().insert(key, value)),
    ;

    /// Returns the value under `key`, inserting `value` first when the key is vacant.
    fn try_insert(&mut self, key: K, value: V) -> (r: Result<&V, StorageError>)
        ensures
            Self::infallible() ==> r is Ok,
            Self::kv_model() ==> (r matches Ok(v) ==> if old(self).kv().contains_key(key) {
                *v == old(self).kv()[key] && final(self).kv() == old(self).kv()
            } else {
                *v == value && final(self).kv() == old(self).kv().insert(key, value)
            }),
    ;

    /// Returns the value under `key`, inserting the result of `value()` first
    /// when the key is vacant; an error from `value()` is returned as it is
    /// and leaves the container unchanged.
    fn try_insert_with<F>(&mut self, key: K, value: F) -> (r: Result<&V, StorageError>)
        where
            F: FnOnce() -> Result<V, StorageError>,
        requires
            value.requires(()),
        ensures
            Self::infallible() ==> (r matches Err(e) ==> value.ensures((), Err::<V, StorageError>(e))),
            Self::kv_model() && Self::infallible() && old(self).kv().contains_key(key) ==> (r matches Ok(v)
                && *v == old(self).kv()[key] && final(self).kv() == old(self).kv()),
            Self::kv_model() && Self::infallible() && !old(self).kv().contains_key(key) ==> match r {
                Ok(v) => value.ensures((), Ok::<V, StorageError>(*v))
                    && final(self).kv() == old(self).kv().insert(key, *v),
                Err(e) => value.ensures((), Err::<V, StorageError>(e)) && final(self).kv() == old(self).kv(),
            },
    ;

    /// Returns a mutable reference to the value for `key`, if present.
    fn get_mut(&mut self, key: &K) -> (r: Result<Option<&mut V>, StorageError>)
        ensures
            Self::infallible() ==> r is Ok,
            Self::kv_model() ==> (r matches Ok(o) ==> match o {
                Some(v) => old(self).kv().contains_key(*key) && *v == old(self).kv()[*key]
                    && final(self).kv() == old(self).kv().insert(*key, *final(v)),
                None => !old(self).kv().contains_key(*key) && final(self).kv() == old(self).kv(),
            }),
    ;

    /// Removes the entry for `key`, returning its value if it existed.
    fn remove(&mut self, key: &K) -> (r: Result<Option<V>, StorageError>)
        ensures
            Self::infallible() ==> r is Ok,
            Self::kv_model() ==> (r matches Ok(o) ==> held(old(self).kv(), *key, o)
                && final(self).kv() == old(self).kv().remove(*key)),
    ;

    /// Removes every entry.
    fn clear(&mut self) -> (r: Result<(), StorageError>)
        ensures
            Self::infallible() ==> r is Ok,
            Self::kv_model() ==> (r is Ok ==> final(self).kv() == Map::<K, V>::empty()),
    ;

    /// Keeps only the entries for which `f` returns `true`; `f` may change the
    /// values it is shown.
    fn retain<F>(&mut self, f: F) -> (r: Result<(), StorageError>)
        where
            F: Fn(&K, &mut V) -> bool,
        requires
            forall|k: &K, v: &mut V| f.requires((k, v)),
        ensures
            Self::infallible() ==> r is Ok,
            Self::kv_model() ==> (r is Ok ==> retained_keys(f, old(self).kv(), final(self).kv())),
    ;

    /// Removes and returns every entry.
    fn drain(&mut self) -> (r: Result<Vec<(K, V)>, StorageError>)
        ensures
            Self::infallible() ==> r is Ok,
            Self::kv_model() ==> (r matches Ok(es) ==> lists_entries(old(self).kv(), es@)
                && final(self).kv() == Map::<K, V>::empty()),
    ;

    /// Inserts every entry of `entries`, in order (a later entry wins over an earlier one).
    fn extend(&mut self, entries: Vec<(K, V)>) -> (r: Result<(), StorageError>)
        ensures
            Self::infallible() ==> r is Ok,
            Self::kv_model() ==> (r is Ok ==> final(self).kv() == insert_all(old(self).kv(), entries@)),
    ;

    /// Merges another storage into this one: each of its entries is cloned in,
    /// replacing ours under the same key.
    fn merge<R>(&mut self, other: &R) -> (r: Result<(), StorageError>)
        where
            R: KeyedStorageRead<K, V>,
            K: Clone,
            V: Clone,
        ensures
            Self::infallible() && R::infallible() ==> r is Ok,
            Self::kv_model() && R::kv_model() ==> (r is Ok ==> exists|es: Seq<(K, V)>|
                clones_entries(other.kv(), es) && final(self).kv() == insert_all(old(self).kv(), es)),
    {
        match other.entries() {
            Ok(entries) => self.extend(entries),
            Err(e) => Err(e),
        }
    }

    /// Runs `f` on every entry, with mutable access to the values; the set of keys does not change.
    fn for_each_mut<F: Fn((&K, &mut V))>(&mut self, f: F)
        requires
            forall|k: &K, v: &mut V| f.requires(((k, v),)),
        ensures
            Self::kv_model() ==> final(self).kv().dom() == old(self).kv().dom(),
            Self::kv_model() ==> forall|k: K| #[trigger] old(self).kv().contains_key(k) ==> ran_on_mut(f, k, old(self).kv()[k]),
    ;

    /// Runs `f` on entries, with mutable access to the values, until it
    /// breaks; the set of keys does not change.
    fn try_for_each_mut<B, F: Fn((&K, &mut V)) -> ControlFlow<B>>(&mut self, f: F) -> (r: ControlFlow<B>)
        requires
            forall|k: &K, v: &mut V| f.requires(((k, v),)),
        ensures
            Self::kv_model() ==> final(self).kv().dom() == old(self).kv().dom(),
            Self::kv_model() ==> (r matches ControlFlow::Break(b) ==> broke_on_mut(old(self).kv(), f, b)),
            r matches ControlFlow::Break(b) ==> output_of_mut(f, ControlFlow::Break(b)),
            Self::kv_model() ==> (r is Continue ==> forall|k: K| #[trigger] old(self).kv().contains_key(k)
                ==> went_on_mut::<K, V, B, F>(f, k, old(self).kv()[k])),
    ;

    /// Accumulates `f` over every entry, with mutable access to the values,
    /// starting from `init`; the set of keys does not change.
    fn fold_mut<A, F: Fn(A, (&K, &mut V)) -> A>(&mut self, init: A, f: F) -> (r: A)
        requires
            forall|a: A, k: &K, v: &mut V| f.requires((a, (k, v))),
        ensures
            Self::kv_model() ==> final(self).kv().dom() == old(self).kv().dom(),
            Self::kv_model() && old(self).kv().len() == 0 ==> r == init,
            Self::kv_model() ==> folded_mut(f, init, old(self).kv(), r),
    ;

    /// Collects `f` of every entry, with mutable access to the values; the
    /// set of keys does not change.
    fn map_mut<R, F: Fn((&K, &mut V)) -> R>(&mut self, f: F) -> (r: Vec<R>)
        requires
            forall|k: &K, v: &mut V| f.requires(((k, v),)),
        ensures
            Self::kv_model() ==> final(self).kv().dom() == old(self).kv().dom(),
            Self::kv_model() ==> r@.len() == old(self).kv().len(),
            forall|i: int| 0 <= i < r@.len() ==> #[trigger] output_of_mut(f, r@[i]),
    ;
}

/// A complete keyed container: constructors and lazy initialisation.
pub trait KeyedStorage<K, V>: KeyedStorageWrite<K, V> {
    /// An empty container.
    fn new() -> (s: Self)
        ensures
            Self::kv_model() ==> s.kv() == Map::<K, V>::empty(),
    ;

    /// An empty container with room for `capacity` entries.
    fn with_capacity(capacity: usize) -> (s: Self)
        ensures
            Self::kv_model() ==> s.kv() == Map::<K, V>::empty(),
    ;

    /// A container holding `entries` (a later entry wins over an earlier one).
    fn from_iter(entries: Vec<(K, V)>) -> (s: Self)
        ensures
            Self::kv_model() ==> s.kv() == insert_all(Map::<K, V>::empty(), entries@),
    ;

    /// Returns the value for `key`, inserting `f()` first when the key is vacant.
    fn get_or_insert_with<F: FnOnce() -> V>(&mut self, key: K, f: F) -> (r: Result<&V, StorageError>)
        requires
            f.requires(()),
        ensures
            Self::infallible() ==> r is Ok,
            Self::kv_model() ==> (r matches Ok(v) ==> if old(self).kv().contains_key(key) {
                *v == old(self).kv()[key] && final(self).kv() == old(self).kv()
            } else {
                f.ensures((), *v) && final(self).kv() == old(self).kv().insert(key, *v)
            }),
    ;

    /// Fallible version of `get_or_insert_with`: an error from `f()` is
    /// returned as it is and leaves the container unchanged.
    fn get_or_try_insert_with<F: FnOnce() -> Result<V, StorageError>>(&mut self, key: K, f: F) -> (r: Result<&V, StorageError>)
        requires
            f.requires(()),
        ensures
            Self::infallible() ==> (r matches Err(e) ==> f.ensures((), Err::<V, StorageError>(e))),
            Self::kv_model() && Self::infallible() && old(self).kv().contains_key(key) ==> (r matches Ok(v)
                && *v == old(self).kv()[key] && final(self).kv() == old(self).kv()),
            Self::kv_model() && Self::infallible() && !old(self).kv().contains_key(key) ==> match r {
                Ok(v) => f.ensures((), Ok::<V, StorageError>(*v))
                    && final(self).kv() == old(self).kv().insert(key, *v),
                Err(e) => f.ensures((), Err::<V, StorageError>(e)) && final(self).kv() == old(self).kv(),
            },
    ;
}

// ----- HashMap storage -----
/// `HashMap::get_mut`: a mutable reference to the value under `key`, if any;
/// what is written through it is what the map holds under `key` afterwards.
#[verifier::external_body]
fn hash_map_get_mut<'a, K: Eq + Hash, V>(m: &'a mut HashMap<K, V>, key: &K) -> (r: Option<&'a mut V>)
    ensures
        obeys_key_model::<K>() ==> match r {
            Some(v) => old(m)@.contains_key(*key) && *v == old(m)@[*key]
                && final(m)@ == old(m)@.insert(*key, *final(v)),
            None => !old(m)@.contains_key(*key) && final(m)@ == old(m)@,
        },
{
    m.get_mut(key)
}

/// `HashMap::drain`, collected: every entry of the map, each once, leaving the map empty.
#[verifier::external_body]
fn hash_map_drain<K: Eq + Hash, V>(m: &mut HashMap<K, V>) -> (r: Vec<(K, V)>)
    ensures
        obeys_key_model::<K>() ==> lists_entries(old(m)@, r@),
        obeys_key_model::<K>() ==> final(m)@.is_empty(),
{
    m.drain().collect()
}

/// `ps` borrows every entry of `m`, each once.
pub open spec fn pairs_of<K, V>(m: Map<K, V>, ps: Seq<(&K, &V)>) -> bool {
    &&& ps.len() == m.len()
    &&& forall|i: int| 0 <= i < ps.len() ==> #[trigger] m.contains_key(*ps[i].0) && m[*ps[i].0] == *ps[i].1
    &&& forall|i: int, j: int| 0 <= i < j < ps.len() ==> *ps[i].0 != *ps[j].0
}

/// `HashMap::iter`, collected: a borrow of every entry of the map, each once.
#[verifier::external_body]
fn hash_map_pairs<'a, K: Eq + Hash, V>(m: &'a HashMap<K, V>) -> (r: Vec<(&'a K, &'a V)>)
    ensures
        obeys_key_model::<K>() ==> pairs_of(m@, r@),
{
    m.iter().collect()
}

impl<K: Eq + Hash, V> KeyedStorageRead<K, V> for HashMap<K, V> {
    open spec fn kv(&self) -> Map<K, V> {
        self@
    }

    open spec fn kv_model() -> bool {
        obeys_key_model::<K>()
    }

    open spec fn infallible() -> bool {
        true
    }

    fn get(&self, key: &K) -> (r: Result<Option<&V>, StorageError>) {
        Ok(HashMap::get(self, key))
    }

    fn contains_key(&self, key: &K) -> (r: Result<bool, StorageError>) {
        Ok(HashMap::contains_key(self, key))
    }

    fn len(&self) -> (r: Result<usize, StorageError>) {
        let n = HashMap::len(self);
        proof {
            assert(vstd::std_specs::hash::builds_valid_hashers::<std::collections::hash_map::RandomState>());
            vstd::std_specs::hash::axiom_spec_hash_map_len(self);
            assert(obeys_key_model::<K>() ==> n == self@.len());
            assert(Self::kv_model() ==> n == self.kv().len());
        }
        Ok(n)
    }

    fn entries(&self) -> (r: Result<Vec<(K, V)>, StorageError>)
        where
            K: Clone,
            V: Clone,
    {
        let ps = hash_map_pairs(self);
        let mut out: Vec<(K, V)> = Vec::new();
        let mut i: usize = 0;
        while i < ps.len()
            invariant
                i <= ps@.len(),
                out@.len() == i,
                obeys_key_model::<K>() ==> pairs_of(self@, ps@),
                obeys_key_model::<K>() ==> forall|j: int| 0 <= j < i ==> #[trigger] clone_of_entry(self@, out@[j]),
            decreases ps@.len() - i,
        {
            let (k, v) = ps[i];
            proof {
                if obeys_key_model::<K>() {
                    assert(self@.contains_key(*ps@[i as int].0));
                }
            }
            out.push((k.clone(), v.clone()));
            i = i + 1;
        }
        Ok(out)
    }

    fn keys(&self) -> (r: Result<Vec<K>, StorageError>)
        where
            K: Clone,
    {
        let ps = hash_map_pairs(self);
        let mut out: Vec<K> = Vec::new();
        let mut i: usize = 0;
        while i < ps.len()
            invariant
                i <= ps@.len(),
                out@.len() == i,
                obeys_key_model::<K>() ==> pairs_of(self@, ps@),
                obeys_key_model::<K>() ==> forall|j: int| 0 <= j < i ==> #[trigger] clone_of_key(self@, out@[j]),
            decreases ps@.len() - i,
        {
            let (k, _v) = ps[i];
            proof {
                if obeys_key_model::<K>() {
                    assert(self@.contains_key(*ps@[i as int].0));
                }
            }
            out.push(k.clone());
            i = i + 1;
        }
        Ok(out)
    }

    fn values(&self) -> (r: Result<Vec<V>, StorageError>)
        where
            V: Clone,
    {
        let ps = hash_map_pairs(self);
        let mut out: Vec<V> = Vec::new();
        let mut i: usize = 0;
        while i < ps.len()
            invariant
                i <= ps@.len(),
                out@.len() == i,
                obeys_key_model::<K>() ==> pairs_of(self@, ps@),
                obeys_key_model::<K>() ==> forall|j: int| 0 <= j < i ==> #[trigger] clone_of_value(self@, out@[j]),
            decreases ps@.len() - i,
        {
            let (_k, v) = ps[i];
            proof {
                if obeys_key_model::<K>() {
                    assert(self@.contains_key(*ps@[i as int].0));
                }
            }
            out.push(v.clone());
            i = i + 1;
        }
        Ok(out)
    }

    fn for_each<F: Fn((&K, &V))>(&self, f: F) {
        let ps = hash_map_pairs(self);
        let mut i: usize = 0;
        while i < ps.len()
            invariant
                i <= ps@.len(),
                forall|k: &K, v: &V| f.requires(((k, v),)),
            decreases ps@.len() - i,
        {
            let (k, v) = ps[i];
            f((k, v));
            i = i + 1;
        }
    }

    fn try_for_each<B, F: Fn((&K, &V)) -> ControlFlow<B>>(&self, f: F) -> (r: ControlFlow<B>) {
        let ps = hash_map_pairs(self);
        let mut i: usize = 0;
        while i < ps.len()
            invariant
                i <= ps@.len(),
                forall|k: &K, v: &V| f.requires(((k, v),)),
                obeys_key_model::<K>() ==> pairs_of(self@, ps@),
            decreases ps@.len() - i,
        {
            let (k, v) = ps[i];
            let c = f((k, v));
            match c {
                ControlFlow::Break(b) => {
                    proof {
                        if obeys_key_model::<K>() {
                            assert(self@.contains_key(*ps@[i as int].0));
                            assert(self@.contains_key(*k) && f.ensures(((&*k, &self@[*k]),), ControlFlow::Break(b)));
                            assert(broke_on(self@, f, b));
                        }
                        assert(output_of(f, ControlFlow::Break(b)));
                    }
                    return ControlFlow::Break(b);
                },
                ControlFlow::Continue(()) => {},
            }
            i = i + 1;
        }
        ControlFlow::Continue(())
    }

    fn fold<A, F: Fn(A, (&K, &V)) -> A>(&self, init: A, f: F) -> (r: A) {
        let ps = hash_map_pairs(self);
        let ghost es = Seq::new(ps@.len(), |j: int| (*ps@[j].0, *ps@[j].1));
        let ghost mut accs = seq![init];
        let mut acc = init;
        let mut i: usize = 0;
        while i < ps.len()
            invariant
                i <= ps@.len(),
                forall|a: A, k: &K, v: &V| f.requires((a, (k, v))),
                obeys_key_model::<K>() ==> pairs_of(self@, ps@),
                es == Seq::new(ps@.len(), |j: int| (*ps@[j].0, *ps@[j].1)),
                i == 0 ==> acc == init,
                accs.len() == i + 1,
                accs[0] == init,
                accs[i as int] == acc,
                forall|j: int| 0 <= j < i ==> #[trigger] fold_step(f, es, accs, j),
            decreases ps@.len() - i,
        {
            let (k, v) = ps[i];
            let ghost prev = accs;
            acc = f(acc, (k, v));
            proof {
                accs = accs.push(acc);
                assert forall|j: int| 0 <= j < i + 1 implies #[trigger] fold_step(f, es, accs, j) by {
                    if j < i {
                        assert(fold_step(f, es, prev, j));
                    }
                }
            }
            i = i + 1;
        }
        proof {
            if obeys_key_model::<K>() {
                assert(enumerates(self@, es));
                assert(fold_chain(f, init, es, accs, acc));
            }
        }
        acc
    }

    fn map<R, F: Fn((&K, &V)) -> R>(&self, f: F) -> (r: Vec<R>) {
        let ps = hash_map_pairs(self);
        let mut out: Vec<R> = Vec::new();
        let mut i: usize = 0;
        while i < ps.len()
            invariant
                i <= ps@.len(),
                out@.len() == i,
                forall|k: &K, v: &V| f.requires(((k, v),)),
                obeys_key_model::<K>() ==> pairs_of(self@, ps@),
                obeys_key_model::<K>() ==> forall|j: int| 0 <= j < i ==> #[trigger] mapped_from(self@, f, out@[j]),
                forall|j: int| 0 <= j < i ==> #[trigger] output_of(f, out@[j]),
            decreases ps@.len() - i,
        {
            let (k, v) = ps[i];
            let x = f((k, v));
            assert(output_of(f, x));
            proof {
                if obeys_key_model::<K>() {
                    assert(self@.contains_key(*ps@[i as int].0));
                    assert(self@.contains_key(*k) && f.ensures(((&*k, &self@[*k]),), x));
                }
            }
            out.push(x);
            i = i + 1;
        }
        out
    }
}

impl<K: Eq + Hash, V> KeyedStorageWrite<K, V> for HashMap<K, V> {
    fn insert(&mut self, key: K, value: V) -> (r: Result<Option<V>, StorageError>) {
        Ok(HashMap::insert(self, key, value))
    }

    fn try_insert(&mut self, key: K, value: V) -> (r: Result<&V, StorageError>) {
        let vref = match self.entry(key) {
            Entry::Occupied(e) => e.into_mut(),
            Entry::Vacant(e) => e.insert(value),
        };
        Ok(&*vref)
    }

    fn try_insert_with<F>(&mut self, key: K, value: F) -> (r: Result<&V, StorageError>)
        where
            F: FnOnce() -> Result<V, StorageError>,
    {
        let vref = match self.entry(key) {
            Entry::Occupied(e) => e.into_mut(),
            Entry::Vacant(e) => match value() {
                Ok(v) => e.insert(v),
                Err(err) => {
                    return Err(err);
                },
            },
        };
        Ok(&*vref)
    }

    fn get_mut(&mut self, key: &K) -> (r: Result<Option<&mut V>, StorageError>) {
        Ok(hash_map_get_mut(self, key))
    }

    fn remove(&mut self, key: &K) -> (r: Result<Option<V>, StorageError>) {
        Ok(HashMap::remove(self, key))
    }

    fn clear(&mut self) -> (r: Result<(), StorageError>) {
        HashMap::clear(self);
        Ok(())
    }

    fn retain<F>(&mut self, f: F) -> (r: Result<(), StorageError>)
        where
            F: Fn(&K, &mut V) -> bool,
    {
        let ghost before = self@;
        let mut rest = hash_map_drain(self);
        let ghost es = rest@;
        let n = rest.len();
        let mut i: usize = 0;
        while i < n
            invariant
                n == es.len(),
                i <= n,
                rest@ == es.subrange(i as int, n as int),
                forall|k: &K, v: &mut V| f.requires((k, v)),
                obeys_key_model::<K>() ==> lists_entries(before, es),
                obeys_key_model::<K>() ==> self@.dom().subset_of(before.dom()),
                obeys_key_model::<K>() ==> forall|k: K| #[trigger] self@.contains_key(k)
                    ==> exists|j: int| 0 <= j < i && es[j].0 == k,
                obeys_key_model::<K>() ==> forall|j: int| 0 <= j < i ==>
                    (self@.contains_key(#[trigger] es[j].0) ==> answers_on(f, es[j].0, es[j].1, true))
                    && (!self@.contains_key(es[j].0) ==> answers_on(f, es[j].0, es[j].1, false)),
            decreases n - i,
        {
            let ghost pre = self@;
            let (k, mut v) = rest.remove(0);
            let ghost v0 = v;
            proof {
                if obeys_key_model::<K>() {
                    assert(before.contains_key(es[i as int].0));
                }
            }
            let keep = f(&k, &mut v);
            assert(answers_on(f, k, v0, keep));
            if keep {
                HashMap::insert(self, k, v);
            }
            proof {
                if obeys_key_model::<K>() {
                    assert(!pre.contains_key(k)) by {
                        if pre.contains_key(k) {
                            let j = choose|j: int| 0 <= j < i && es[j].0 == k;
                            assert(es[j].0 != es[i as int].0);
                        }
                    }
                    assert forall|kk: K| #[trigger] self@.contains_key(kk)
                        implies exists|j: int| 0 <= j < i + 1 && es[j].0 == kk by {
                        if kk != k {
                            assert(pre.contains_key(kk));
                        } else {
                            assert(es[i as int].0 == kk);
                        }
                    }
                    assert forall|j: int| 0 <= j < i + 1 implies
                        (self@.contains_key(#[trigger] es[j].0) ==> answers_on(f, es[j].0, es[j].1, true))
                        && (!self@.contains_key(es[j].0) ==> answers_on(f, es[j].0, es[j].1, false)) by {
                        if j < i {
                            assert(es[j].0 != es[i as int].0);
                            assert(self@.contains_key(es[j].0) == pre.contains_key(es[j].0));
                        }
                    }
                }
            }
            i = i + 1;
        }
        proof {
            if obeys_key_model::<K>() {
                assert forall|kk: K| #[trigger] before.contains_key(kk) implies
                    (self@.contains_key(kk) ==> answers_on(f, kk, before[kk], true))
                    && (!self@.contains_key(kk) ==> answers_on(f, kk, before[kk], false)) by {
                    assert(key_listed(es, kk));
                    let j = choose|j: int| 0 <= j < es.len() && #[trigger] es[j].0 == kk;
                    assert(before[es[j].0] == es[j].1);
                }
            }
        }
        Ok(())
    }

    fn drain(&mut self) -> (r: Result<Vec<(K, V)>, StorageError>) {
        Ok(hash_map_drain(self))
    }

    fn extend(&mut self, entries: Vec<(K, V)>) -> (r: Result<(), StorageError>) {
        let ghost before = self@;
        let ghost es = entries@;
        let mut rest = entries;
        let n = rest.len();
        let mut i: usize = 0;
        while i < n
            invariant
                n == es.len(),
                i <= n,
                rest@ == es.subrange(i as int, n as int),
                obeys_key_model::<K>() ==> self@ == insert_all(before, es.take(i as int)),
            decreases n - i,
        {
            let (k, v) = rest.remove(0);
            proof {
                lemma_insert_all_step(before, es, i as int);
            }
            HashMap::insert(self, k, v);
            i = i + 1;
        }
        proof {
            assert(es.take(n as int) =~= es);
        }
        Ok(())
    }

    fn for_each_mut<F: Fn((&K, &mut V))>(&mut self, f: F) {
        let ghost before = self@;
        let mut rest = hash_map_drain(self);
        let ghost es = rest@;
        let n = rest.len();
        let mut i: usize = 0;
        while i < n
            invariant
                n == es.len(),
                i <= n,
                rest@ == es.subrange(i as int, n as int),
                forall|k: &K, v: &mut V| f.requires(((k, v),)),
                obeys_key_model::<K>() ==> lists_entries(before, es),
                obeys_key_model::<K>() ==> self@.dom().subset_of(before.dom()),
                obeys_key_model::<K>() ==> forall|j: int| 0 <= j < i ==> self@.contains_key(#[trigger] es[j].0),
                forall|j: int| 0 <= j < i ==> #[trigger] ran_on_mut(f, es[j].0, es[j].1),
            decreases n - i,
        {
            let (k, mut v) = rest.remove(0);
            proof {
                if obeys_key_model::<K>() {
                    assert(before.contains_key(es[i as int].0));
                }
            }
            let ghost v0 = v;
            f((&k, &mut v));
            assert(exists|m: &mut V| *m == v0 && #[trigger] f.ensures(((&k, m),), ()));
            proof {
                assert(k == es[i as int].0 && v0 == es[i as int].1);
                let w = choose|m: &mut V| *m == v0 && #[trigger] f.ensures(((&k, m),), ());
                assert(*w == es[i as int].1 && f.ensures(((&es[i as int].0, w),), ()));
                assert(ran_on_mut(f, es[i as int].0, es[i as int].1));
            }
            HashMap::insert(self, k, v);
            i = i + 1;
        }
        proof {
            if obeys_key_model::<K>() {
                assert forall|k: K| before.contains_key(k) implies self@.contains_key(k) by {
                    assert(key_listed(es, k));
                }
                assert(self@.dom() =~= before.dom());
                assert forall|k: K| #[trigger] before.contains_key(k) implies ran_on_mut(f, k, before[k]) by {
                    assert(key_listed(es, k));
                    let j = choose|j: int| 0 <= j < es.len() && #[trigger] es[j].0 == k;
                    assert(ran_on_mut(f, es[j].0, es[j].1));
                }
            }
        }
    }

    fn try_for_each_mut<B, F: Fn((&K, &mut V)) -> ControlFlow<B>>(&mut self, f: F) -> (r: ControlFlow<B>) {
        let ghost before = self@;
        let mut rest = hash_map_drain(self);
        let ghost es = rest@;
        let n = rest.len();
        let mut i: usize = 0;
        let mut out: ControlFlow<B> = ControlFlow::Continue(());
        let mut broken = false;
        while i < n
            invariant
                n == es.len(),
                i <= n,
                rest@ == es.subrange(i as int, n as int),
                forall|k: &K, v: &mut V| f.requires(((k, v),)),
                obeys_key_model::<K>() ==> lists_entries(before, es),
                obeys_key_model::<K>() ==> self@.dom().subset_of(before.dom()),
                obeys_key_model::<K>() ==> forall|j: int| 0 <= j < i ==> self@.contains_key(#[trigger] es[j].0),
                broken == (out is Break),
                obeys_key_model::<K>() ==> (out matches ControlFlow::Break(b) ==> broke_on_mut(before, f, b)),
                !broken ==> forall|j: int| 0 <= j < i ==> #[trigger] went_on_mut::<K, V, B, F>(f, es[j].0, es[j].1),
                out matches ControlFlow::Break(b) ==> output_of_mut(f, ControlFlow::Break(b)),
            decreases n - i,
        {
            let (k, mut v) = rest.remove(0);
            let ghost v0 = v;
            proof {
                if obeys_key_model::<K>() {
                    assert(before.contains_key(es[i as int].0));
                }
            }
            if !broken {
                let c = f((&k, &mut v));
                assert(exists|m: &mut V| *m == v0 && #[trigger] f.ensures(((&k, m),), c));
                proof {
                    assert(k == es[i as int].0 && v0 == es[i as int].1);
                    if obeys_key_model::<K>() {
                        assert(before[es[i as int].0] == es[i as int].1);
                    }
                }
                match c {
                    ControlFlow::Break(b) => {
                        proof {
                            let w = choose|m: &mut V| *m == v0 && #[trigger] f.ensures(((&k, m),), ControlFlow::<B, ()>::Break(b));
                            if obeys_key_model::<K>() {
                                assert(before.contains_key(k) && *w == before[k] && f.ensures(((&k, w),), ControlFlow::Break(b)));
                            }
                            assert(f.ensures(((&k, w),), ControlFlow::Break(b)));
                            assert(output_of_mut(f, ControlFlow::Break(b)));
                        }
                        broken = true;
                        out = ControlFlow::Break(b);
                    },
                    ControlFlow::Continue(u) => {
                        proof {
                            let w = choose|m: &mut V| *m == v0 && #[trigger] f.ensures(((&k, m),), ControlFlow::<B, ()>::Continue(u));
                            assert(u == ());
                            assert(*w == es[i as int].1 && f.ensures(((&es[i as int].0, w),), ControlFlow::<B>::Continue(())));
                            assert(went_on_mut::<K, V, B, F>(f, es[i as int].0, es[i as int].1));
                        }
                    },
                }
            }
            HashMap::insert(self, k, v);
            i = i + 1;
        }
        proof {
            if obeys_key_model::<K>() {
                assert forall|k: K| before.contains_key(k) implies self@.contains_key(k) by {
                    assert(key_listed(es, k));
                }
                assert(self@.dom() =~= before.dom());
                if !broken {
                    assert forall|k: K| #[trigger] before.contains_key(k) implies went_on_mut::<K, V, B, F>(f, k, before[k]) by {
                        assert(key_listed(es, k));
                        let j = choose|j: int| 0 <= j < es.len() && #[trigger] es[j].0 == k;
                        assert(went_on_mut::<K, V, B, F>(f, es[j].0, es[j].1));
                    }
                }
            }
        }
        out
    }

    fn fold_mut<A, F: Fn(A, (&K, &mut V)) -> A>(&mut self, init: A, f: F) -> (r: A) {
        let ghost before = self@;
        let mut rest = hash_map_drain(self);
        let ghost es = rest@;
        let n = rest.len();
        let mut i: usize = 0;
        let mut acc = init;
        let ghost mut accs = seq![init];
        while i < n
            invariant
                n == es.len(),
                i <= n,
                rest@ == es.subrange(i as int, n as int),
                i == 0 ==> acc == init,
                accs.len() == i + 1,
                accs[0] == init,
                accs[i as int] == acc,
                forall|j: int| 0 <= j < i ==> #[trigger] fold_step_mut(f, es, accs, j),
                forall|a: A, k: &K, v: &mut V| f.requires((a, (k, v))),
                obeys_key_model::<K>() ==> lists_entries(before, es),
                obeys_key_model::<K>() ==> self@.dom().subset_of(before.dom()),
                obeys_key_model::<K>() ==> forall|j: int| 0 <= j < i ==> self@.contains_key(#[trigger] es[j].0),
            decreases n - i,
        {
            let (k, mut v) = rest.remove(0);
            proof {
                if obeys_key_model::<K>() {
                    assert(before.contains_key(es[i as int].0));
                }
            }
            let ghost v0 = v;
            let ghost prev = accs;
            let ghost a0 = acc;
            acc = f(acc, (&k, &mut v));
            assert(exists|m: &mut V| *m == v0 && #[trigger] f.ensures((a0, (&k, m)), acc));
            proof {
                accs = accs.push(acc);
                assert(v0 == es[i as int].1);
                assert(k == es[i as int].0);
                let w = choose|m: &mut V| *m == v0 && #[trigger] f.ensures((a0, (&k, m)), acc);
                assert(accs[i as int] == a0 && accs[i + 1] == acc);
                assert(*w == es[i as int].1 && f.ensures((accs[i as int], (&es[i as int].0, w)), accs[i + 1]));
                assert(fold_step_mut(f, es, accs, i as int));
                assert forall|j: int| 0 <= j < i + 1 implies #[trigger] fold_step_mut(f, es, accs, j) by {
                    if j < i {
                        assert(fold_step_mut(f, es, prev, j));
                        let w = choose|m: &mut V| *m == es[j].1 && #[trigger] f.ensures((prev[j], (&es[j].0, m)), prev[j + 1]);
                        assert(accs[j] == prev[j] && accs[j + 1] == prev[j + 1]);
                        assert(*w == es[j].1 && f.ensures((accs[j], (&es[j].0, w)), accs[j + 1]));
                    }
                }
            }
            HashMap::insert(self, k, v);
            i = i + 1;
        }
        proof {
            if obeys_key_model::<K>() {
                assert forall|k: K| before.contains_key(k) implies self@.contains_key(k) by {
                    assert(key_listed(es, k));
                }
                assert(self@.dom() =~= before.dom());
                assert(enumerates(before, es));
                assert(fold_chain_mut(f, init, es, accs, acc));
            }
        }
        acc
    }

    fn map_mut<R, F: Fn((&K, &mut V)) -> R>(&mut self, f: F) -> (r: Vec<R>) {
        let ghost before = self@;
        let mut rest = hash_map_drain(self);
        let ghost es = rest@;
        let n = rest.len();
        let mut i: usize = 0;
        let mut out: Vec<R> = Vec::new();
        while i < n
            invariant
                n == es.len(),
                i <= n,
                rest@ == es.subrange(i as int, n as int),
                out@.len() == i,
                forall|j: int| 0 <= j < i ==> #[trigger] output_of_mut(f, out@[j]),
                forall|k: &K, v: &mut V| f.requires(((k, v),)),
                obeys_key_model::<K>() ==> lists_entries(before, es),
                obeys_key_model::<K>() ==> self@.dom().subset_of(before.dom()),
                obeys_key_model::<K>() ==> forall|j: int| 0 <= j < i ==> self@.contains_key(#[trigger] es[j].0),
            decreases n - i,
        {
            let (k, mut v) = rest.remove(0);
            proof {
                if obeys_key_model::<K>() {
                    assert(before.contains_key(es[i as int].0));
                }
            }
            let x = f((&k, &mut v));
            assert(output_of_mut(f, x));
            out.push(x);
            HashMap::insert(self, k, v);
            i = i + 1;
        }
        proof {
            if obeys_key_model::<K>() {
                assert forall|k: K| before.contains_key(k) implies self@.contains_key(k) by {
                    assert(key_listed(es, k));
                }
                assert(self@.dom() =~= before.dom());
            }
        }
        out
    }
}
impl<K: Eq + Hash, V> KeyedStorage<K, V> for HashMap<K, V> {
    fn new() -> (s: Self) {
        HashMap::new()
    }

    fn with_capacity(capacity: usize) -> (s: Self) {
        HashMap::with_capacity(capacity)
    }

    fn from_iter(entries: Vec<(K, V)>) -> (s: Self) {
        let mut m: HashMap<K, V> = HashMap::new();
        let _ = KeyedStorageWrite::extend(&mut m, entries);
        m
    }

    fn get_or_insert_with<F: FnOnce() -> V>(&mut self, key: K, f: F) -> (r: Result<&V, StorageError>) {
        let vref = match self.entry(key) {
            Entry::Occupied(e) => e.into_mut(),
            Entry::Vacant(e) => e.insert(f()),
        };
        Ok(&*vref)
    }

    fn get_or_try_insert_with<F: FnOnce() -> Result<V, StorageError>>(&mut self, key: K, f: F) -> (r: Result<&V, StorageError>) {
        let vref = match self.entry(key) {
            Entry::Occupied(e) => e.into_mut(),
            Entry::Vacant(e) => match f() {
                Ok(v) => e.insert(v),
                Err(err) => {
                    return Err(err);
                },
            },
        };
        Ok(&*vref)
    }
}

// ----- Handle traits -----
/// Read operations of a keyed handle.
///
/// A handle shares its storage with every clone of it, so what a read returns
/// is what the storage holds at that moment, whoever wrote it.
pub trait KeyedHandleRead<K, V> {
    /// Whether no operation of this handle type fails.
    spec fn handle_ok() -> bool;

    /// Returns an owned copy of the value under `key`, if present.
    fn get(&self, key: &K) -> (r: Result<Option<V>, HandleError>)
        where
            V: Clone,
        ensures
            Self::handle_ok() ==> r is Ok,
    ;

    /// Returns `Some(f(value))` for the value under `key`, if present.
    fn with_ref<F, R>(&self, key: &K, f: F) -> (r: Result<Option<R>, HandleError>)
        where
            F: FnOnce(&V) -> R,
        requires
            forall|v: &V| f.requires((v,)),
        ensures
            Self::handle_ok() ==> r is Ok,
            r matches Ok(Some(x)) ==> output_on_ref(f, x),
    ;

    /// Runs `f` on every borrowed entry.
    fn for_each<F: Fn((&K, &V))>(&self, f: F) -> (r: Result<(), HandleError>)
        requires
            forall|k: &K, v: &V| f.requires(((k, v),)),
        ensures
            Self::handle_ok() ==> r is Ok,
    ;

    /// Runs `f` on borrowed entries until it breaks; returns the break value, if any.
    fn try_for_each<B, F: Fn((&K, &V)) -> ControlFlow<B>>(&self, f: F) -> (r: Result<ControlFlow<B>, HandleError>)
        requires
            forall|k: &K, v: &V| f.requires(((k, v),)),
        ensures
            Self::handle_ok() ==> r is Ok,
            r matches Ok(ControlFlow::Break(b)) ==> output_of(f, ControlFlow::Break(b)),
    ;

    /// Accumulates `f` over every borrowed entry, starting from `init`.
    fn fold<A, F: Fn(A, (&K, &V)) -> A>(&self, init: A, f: F) -> (r: Result<A, HandleError>)
        requires
            forall|a: A, k: &K, v: &V| f.requires((a, (k, v))),
        ensures
            Self::handle_ok() ==> r is Ok,
    ;

    /// Collects `f` of every borrowed entry.
    fn map<R, F: Fn((&K, &V)) -> R>(&self, f: F) -> (r: Result<Vec<R>, HandleError>)
        requires
            forall|k: &K, v: &V| f.requires(((k, v),)),
        ensures
            Self::handle_ok() ==> r is Ok,
            r matches Ok(xs) ==> forall|i: int| 0 <= i < xs@.len() ==> #[trigger] output_of(f, xs@[i]),
    ;

    /// Returns a clone of the key of an entry that satisfies `f`, if any.
    fn find_key<F>(&self, f: F) -> (r: Result<Option<K>, HandleError>)
        where
            K: Clone,
            F: Fn((&K, &V)) -> bool,
        requires
            forall|k: &K, v: &V| f.requires(((k, v),)),
        ensures
            Self::handle_ok() ==> r is Ok,
            r matches Ok(Some(x)) ==> exists|k: &K, v: &V| f.ensures(((k, v),), true) && cloned(*k, x),
    {
        let fr = &f;
        let g = |e: (&K, &V)| -> (c: ControlFlow<K>)
            requires
                fr.requires((e,)),
            ensures
                c matches ControlFlow::Break(x) ==> fr.ensures((e,), true) && cloned(*e.0, x),
        {
            if fr(e) {
                ControlFlow::Break(e.0.clone())
            } else {
                ControlFlow::Continue(())
            }
        };
        match self.try_for_each(g) {
            Ok(ControlFlow::Break(x)) => Ok(Some(x)),
            Ok(ControlFlow::Continue(())) => Ok(None),
            Err(e) => Err(e),
        }
    }

    /// Returns clones of an entry that satisfies `f`, if any.
    fn find<F>(&self, f: F) -> (r: Result<Option<(K, V)>, HandleError>)
        where
            K: Clone,
            V: Clone,
            F: Fn((&K, &V)) -> bool,
        requires
            forall|k: &K, v: &V| f.requires(((k, v),)),
        ensures
            Self::handle_ok() ==> r is Ok,
            r matches Ok(Some(x)) ==> exists|k: &K, v: &V| f.ensures(((k, v),), true) && cloned(*k, x.0) && cloned(*v, x.1),
    {
        let fr = &f;
        let g = |e: (&K, &V)| -> (c: ControlFlow<(K, V)>)
            requires
                fr.requires((e,)),
            ensures
                c matches ControlFlow::Break(x) ==> fr.ensures((e,), true) && cloned(*e.0, x.0) && cloned(*e.1, x.1),
        {
            if fr(e) {
                ControlFlow::Break((e.0.clone(), e.1.clone()))
            } else {
                ControlFlow::Continue(())
            }
        };
        match self.try_for_each(g) {
            Ok(ControlFlow::Break(x)) => Ok(Some(x)),
            Ok(ControlFlow::Continue(())) => Ok(None),
            Err(e) => Err(e),
        }
    }

    /// Returns whether the storage holds an entry for `key`.
    fn contains_key(&self, key: &K) -> (r: Result<bool, HandleError>)
        ensures
            Self::handle_ok() ==> r is Ok,
    ;

    /// Returns the number of entries held.
    fn len(&self) -> (r: Result<usize, HandleError>)
        ensures
            Self::handle_ok() ==> r is Ok,
    ;

    /// Returns whether the storage holds no entries.
    fn is_empty(&self) -> (r: Result<bool, HandleError>)
        ensures
            Self::handle_ok() ==> r is Ok,
    {
        match self.len() {
            Ok(n) => Ok(n == 0),
            Err(e) => Err(e),
        }
    }

    /// Returns owned copies of all entries.
    fn entries(&self) -> (r: Result<Vec<(K, V)>, HandleError>)
        where
            K: Clone,
            V: Clone,
        ensures
            Self::handle_ok() ==> r is Ok,
    ;

    /// Returns owned copies of all keys.
    fn keys(&self) -> (r: Result<Vec<K>, HandleError>)
        where
            K: Clone,
        ensures
            Self::handle_ok() ==> r is Ok,
    ;

    /// Returns owned copies of all values.
    fn values(&self) -> (r: Result<Vec<V>, HandleError>)
        where
            V: Clone,
        ensures
            Self::handle_ok() ==> r is Ok,
    ;
}


/// Convenience methods on `KeyedHandleRead` for handles whose operations
/// cannot fail.
pub trait KeyedHandleReadExt<K, V>: KeyedHandleRead<K, V> {
    /// `get` on a handle that cannot fail.
    fn get_unwrap(&self, key: &K) -> (r: Option<V>)
        where
            V: Clone,
        requires
            Self::handle_ok(),
    {
        match self.get(key) {
            Ok(o) => o,
            Err(_) => unreached(),
        }
    }

    /// `with_ref` on a handle that cannot fail.
    fn with_ref_unwrap<F, R>(&self, key: &K, f: F) -> (r: Option<R>)
        where
            F: FnOnce(&V) -> R,
        requires
            Self::handle_ok(),
            forall|v: &V| f.requires((v,)),
        ensures
            r matches Some(x) ==> output_on_ref(f, x),
    {
        match self.with_ref(key, f) {
            Ok(o) => o,
            Err(_) => unreached(),
        }
    }

    /// `for_each` on a handle that cannot fail.
    fn for_each_unwrap<F: Fn((&K, &V))>(&self, f: F)
        requires
            Self::handle_ok(),
            forall|k: &K, v: &V| f.requires(((k, v),)),
    {
        match self.for_each(f) {
            Ok(()) => {},
            Err(_) => unreached(),
        }
    }

    /// `try_for_each` on a handle that cannot fail.
    fn try_for_each_unwrap<B, F: Fn((&K, &V)) -> ControlFlow<B>>(&self, f: F) -> (r: ControlFlow<B>)
        requires
            Self::handle_ok(),
            forall|k: &K, v: &V| f.requires(((k, v),)),
        ensures
            r matches ControlFlow::Break(b) ==> output_of(f, ControlFlow::Break(b)),
    {
        match self.try_for_each(f) {
            Ok(c) => c,
            Err(_) => unreached(),
        }
    }

    /// `fold` on a handle that cannot fail.
    fn fold_unwrap<A, F: Fn(A, (&K, &V)) -> A>(&self, init: A, f: F) -> (r: A)
        requires
            Self::handle_ok(),
            forall|a: A, k: &K, v: &V| f.requires((a, (k, v))),
    {
        match self.fold(init, f) {
            Ok(a) => a,
            Err(_) => unreached(),
        }
    }

    /// `map` on a handle that cannot fail.
    fn map_unwrap<R, F: Fn((&K, &V)) -> R>(&self, f: F) -> (r: Vec<R>)
        requires
            Self::handle_ok(),
            forall|k: &K, v: &V| f.requires(((k, v),)),
        ensures
            forall|i: int| 0 <= i < r@.len() ==> #[trigger] output_of(f, r@[i]),
    {
        match self.map(f) {
            Ok(xs) => xs,
            Err(_) => unreached(),
        }
    }

    /// `find_key` on a handle that cannot fail.
    fn find_key_unwrap<F>(&self, f: F) -> (r: Option<K>)
        where
            K: Clone,
            F: Fn((&K, &V)) -> bool,
        requires
            Self::handle_ok(),
            forall|k: &K, v: &V| f.requires(((k, v),)),
        ensures
            r matches Some(x) ==> exists|k: &K, v: &V| f.ensures(((k, v),), true) && cloned(*k, x),
    {
        match self.find_key(f) {
            Ok(o) => o,
            Err(_) => unreached(),
        }
    }

    /// `find` on a handle that cannot fail.
    fn find_unwrap<F>(&self, f: F) -> (r: Option<(K, V)>)
        where
            K: Clone,
            V: Clone,
            F: Fn((&K, &V)) -> bool,
        requires
            Self::handle_ok(),
            forall|k: &K, v: &V| f.requires(((k, v),)),
        ensures
            r matches Some(x) ==> exists|k: &K, v: &V| f.ensures(((k, v),), true) && cloned(*k, x.0) && cloned(*v, x.1),
    {
        match self.find(f) {
            Ok(o) => o,
            Err(_) => unreached(),
        }
    }

    /// `contains_key` on a handle that cannot fail.
    fn contains_key_unwrap(&self, key: &K) -> (r: bool)
        requires
            Self::handle_ok(),
    {
        match self.contains_key(key) {
            Ok(b) => b,
            Err(_) => unreached(),
        }
    }

    /// `len` on a handle that cannot fail.
    fn len_unwrap(&self) -> (r: usize)
        requires
            Self::handle_ok(),
    {
        match self.len() {
            Ok(n) => n,
            Err(_) => unreached(),
        }
    }

    /// `is_empty` on a handle that cannot fail.
    fn is_empty_unwrap(&self) -> (r: bool)
        requires
            Self::handle_ok(),
    {
        match self.is_empty() {
            Ok(b) => b,
            Err(_) => unreached(),
        }
    }

    /// `entries` on a handle that cannot fail.
    fn entries_unwrap(&self) -> (r: Vec<(K, V)>)
        where
            K: Clone,
            V: Clone,
        requires
            Self::handle_ok(),
    {
        match self.entries() {
            Ok(es) => es,
            Err(_) => unreached(),
        }
    }

    /// `keys` on a handle that cannot fail.
    fn keys_unwrap(&self) -> (r: Vec<K>)
        where
            K: Clone,
        requires
            Self::handle_ok(),
    {
        match self.keys() {
            Ok(ks) => ks,
            Err(_) => unreached(),
        }
    }

    /// `values` on a handle that cannot fail.
    fn values_unwrap(&self) -> (r: Vec<V>)
        where
            V: Clone,
        requires
            Self::handle_ok(),
    {
        match self.values() {
            Ok(vs) => vs,
            Err(_) => unreached(),
        }
    }
}

impl<T, K, V> KeyedHandleReadExt<K, V> for T where T: KeyedHandleRead<K, V> {}

/// Write operations of a keyed handle.
pub trait KeyedHandleWrite<K, V>: KeyedHandleRead<K, V> {
    /// Inserts a key/value pair, returning the previous value if present.
    fn insert(&self, key: K, value: V) -> (r: Result<Option<V>, HandleError>)
        ensures
            Self::handle_ok() ==> r is Ok,
    ;

    /// Returns a copy of the value under `key`, inserting `value` first when the key is vacant.
    fn try_insert(&self, key: K, value: V) -> (r: Result<V, HandleError>)
        where
            V: Clone,
        ensures
            Self::handle_ok() ==> r is Ok,
    ;

    /// Returns a copy of the value under `key`, inserting the result of
    /// `value()` first when the key is vacant; an error from `value()` comes
    /// back as a storage error.
    fn try_insert_with<F>(&self, key: K, value: F) -> (r: Result<V, HandleError>)
        where
            V: Clone,
            F: FnOnce() -> Result<V, StorageError>,
        requires
            value.requires(()),
        ensures
            Self::handle_ok() ==> (r is Ok || (r matches Err(HandleError::Storage(e))
                && value.ensures((), Err::<V, StorageError>(e)))),
    ;

    /// Returns `Some(f(value))` after running `f` on the value under `key`, if present.
    fn with_mut<F, R>(&self, key: &K, f: F) -> (r: Result<Option<R>, HandleError>)
        where
            F: FnOnce(&mut V) -> R,
        requires
            forall|v: &mut V| f.requires((v,)),
        ensures
            Self::handle_ok() ==> r is Ok,
            r matches Ok(Some(x)) ==> super::output_on_mut(f, x),
    ;

    /// Runs `f` on every entry, with mutable access to the values.
    fn for_each_mut<F: Fn((&K, &mut V))>(&self, f: F) -> (r: Result<(), HandleError>)
        requires
            forall|k: &K, v: &mut V| f.requires(((k, v),)),
        ensures
            Self::handle_ok() ==> r is Ok,
    ;

    /// Runs `f` on entries, with mutable access to the values, until it breaks.
    fn try_for_each_mut<B, F: Fn((&K, &mut V)) -> ControlFlow<B>>(&self, f: F) -> (r: Result<ControlFlow<B>, HandleError>)
        requires
            forall|k: &K, v: &mut V| f.requires(((k, v),)),
        ensures
            Self::handle_ok() ==> r is Ok,
            r matches Ok(ControlFlow::Break(b)) ==> output_of_mut(f, ControlFlow::Break(b)),
    ;

    /// Accumulates `f` over every entry, with mutable access to the values,
    /// starting from `init`.
    fn fold_mut<A, F: Fn(A, (&K, &mut V)) -> A>(&self, init: A, f: F) -> (r: Result<A, HandleError>)
        requires
            forall|a: A, k: &K, v: &mut V| f.requires((a, (k, v))),
        ensures
            Self::handle_ok() ==> r is Ok,
    ;

    /// Collects `f` of every entry, with mutable access to the values.
    fn map_mut<R, F: Fn((&K, &mut V)) -> R>(&self, f: F) -> (r: Result<Vec<R>, HandleError>)
        requires
            forall|k: &K, v: &mut V| f.requires(((k, v),)),
        ensures
            Self::handle_ok() ==> r is Ok,
            r matches Ok(xs) ==> forall|i: int| 0 <= i < xs@.len() ==> #[trigger] output_of_mut(f, xs@[i]),
    ;

    /// Removes the entry for `key`, returning its value if it existed.
    fn remove(&self, key: &K) -> (r: Result<Option<V>, HandleError>)
        ensures
            Self::handle_ok() ==> r is Ok,
    ;

    /// Removes every entry.
    fn clear(&self) -> (r: Result<(), HandleError>)
        ensures
            Self::handle_ok() ==> r is Ok,
    ;

    /// Keeps only the entries for which `f` returns `true`.
    fn retain<F>(&self, f: F) -> (r: Result<(), HandleError>)
        where
            F: Fn(&K, &mut V) -> bool,
        requires
            forall|k: &K, v: &mut V| f.requires((k, v)),
        ensures
            Self::handle_ok() ==> r is Ok,
    ;

    /// Removes and returns every entry.
    fn drain(&self) -> (r: Result<Vec<(K, V)>, HandleError>)
        ensures
            Self::handle_ok() ==> r is Ok,
    ;

    /// Inserts every entry of `entries`, in order.
    fn extend(&self, entries: Vec<(K, V)>) -> (r: Result<(), HandleError>)
        ensures
            Self::handle_ok() ==> r is Ok,
    ;

    /// Copies every entry of `other` into this handle's storage.
    fn merge<R>(&self, other: &R) -> (r: Result<(), HandleError>)
        where
            R: KeyedHandleRead<K, V>,
            K: Clone,
            V: Clone,
        ensures
            Self::handle_ok() && R::handle_ok() ==> r is Ok,
    {
        match other.entries() {
            Ok(es) => self.extend(es),
            Err(e) => Err(e),
        }
    }
}

/// Convenience methods on `KeyedHandleWrite` for handles whose operations
/// cannot fail.
pub trait KeyedHandleWriteExt<K, V>: KeyedHandleWrite<K, V> {
    /// `insert` on a handle that cannot fail.
    fn insert_unwrap(&self, key: K, value: V) -> (r: Option<V>)
        requires
            Self::handle_ok(),
    {
        match self.insert(key, value) {
            Ok(o) => o,
            Err(_) => unreached(),
        }
    }

    /// `try_insert` on a handle that cannot fail.
    fn try_insert_unwrap(&self, key: K, value: V) -> (r: V)
        where
            V: Clone,
        requires
            Self::handle_ok(),
    {
        match self.try_insert(key, value) {
            Ok(v) => v,
            Err(_) => unreached(),
        }
    }

    /// `try_insert_with` on a handle that cannot fail, with a `value` that
    /// never returns an error.
    fn try_insert_with_unwrap<F>(&self, key: K, value: F) -> (r: V)
        where
            V: Clone,
            F: FnOnce() -> Result<V, StorageError>,
        requires
            Self::handle_ok(),
            value.requires(()),
            forall|e: StorageError| !value.ensures((), Err::<V, StorageError>(e)),
    {
        match self.try_insert_with(key, value) {
            Ok(v) => v,
            Err(_) => unreached(),
        }
    }

    /// `with_mut` on a handle that cannot fail.
    fn with_mut_unwrap<F, R>(&self, key: &K, f: F) -> (r: Option<R>)
        where
            F: FnOnce(&mut V) -> R,
        requires
            Self::handle_ok(),
            forall|v: &mut V| f.requires((v,)),
        ensures
            r matches Some(x) ==> super::output_on_mut(f, x),
    {
        match self.with_mut(key, f) {
            Ok(o) => o,
            Err(_) => unreached(),
        }
    }

    /// `for_each_mut` on a handle that cannot fail.
    fn for_each_mut_unwrap<F: Fn((&K, &mut V))>(&self, f: F)
        requires
            Self::handle_ok(),
            forall|k: &K, v: &mut V| f.requires(((k, v),)),
    {
        match self.for_each_mut(f) {
            Ok(()) => {},
            Err(_) => unreached(),
        }
    }

    /// `try_for_each_mut` on a handle that cannot fail.
    fn try_for_each_mut_unwrap<B, F: Fn((&K, &mut V)) -> ControlFlow<B>>(&self, f: F) -> (r: ControlFlow<B>)
        requires
            Self::handle_ok(),
            forall|k: &K, v: &mut V| f.requires(((k, v),)),
        ensures
            r matches ControlFlow::Break(b) ==> output_of_mut(f, ControlFlow::Break(b)),
    {
        match self.try_for_each_mut(f) {
            Ok(c) => c,
            Err(_) => unreached(),
        }
    }

    /// `fold_mut` on a handle that cannot fail.
    fn fold_mut_unwrap<A, F: Fn(A, (&K, &mut V)) -> A>(&self, init: A, f: F) -> (r: A)
        requires
            Self::handle_ok(),
            forall|a: A, k: &K, v: &mut V| f.requires((a, (k, v))),
    {
        match self.fold_mut(init, f) {
            Ok(a) => a,
            Err(_) => unreached(),
        }
    }

    /// `map_mut` on a handle that cannot fail.
    fn map_mut_unwrap<R, F: Fn((&K, &mut V)) -> R>(&self, f: F) -> (r: Vec<R>)
        requires
            Self::handle_ok(),
            forall|k: &K, v: &mut V| f.requires(((k, v),)),
        ensures
            forall|i: int| 0 <= i < r@.len() ==> #[trigger] output_of_mut(f, r@[i]),
    {
        match self.map_mut(f) {
            Ok(xs) => xs,
            Err(_) => unreached(),
        }
    }

    /// `remove` on a handle that cannot fail.
    fn remove_unwrap(&self, key: &K) -> (r: Option<V>)
        requires
            Self::handle_ok(),
    {
        match self.remove(key) {
            Ok(o) => o,
            Err(_) => unreached(),
        }
    }

    /// `clear` on a handle that cannot fail.
    fn clear_unwrap(&self)
        requires
            Self::handle_ok(),
    {
        match self.clear() {
            Ok(()) => {},
            Err(_) => unreached(),
        }
    }

    /// `retain` on a handle that cannot fail.
    fn retain_unwrap<F>(&self, f: F)
        where
            F: Fn(&K, &mut V) -> bool,
        requires
            Self::handle_ok(),
            forall|k: &K, v: &mut V| f.requires((k, v)),
    {
        match self.retain(f) {
            Ok(()) => {},
            Err(_) => unreached(),
        }
    }

    /// `drain` on a handle that cannot fail.
    fn drain_unwrap(&self) -> (r: Vec<(K, V)>)
        requires
            Self::handle_ok(),
    {
        match self.drain() {
            Ok(es) => es,
            Err(_) => unreached(),
        }
    }

    /// `extend` on a handle that cannot fail.
    fn extend_unwrap(&self, entries: Vec<(K, V)>)
        requires
            Self::handle_ok(),
    {
        match self.extend(entries) {
            Ok(()) => {},
            Err(_) => unreached(),
        }
    }

    /// `merge` on handles that cannot fail.
    fn merge_unwrap<R>(&self, other: &R)
        where
            R: KeyedHandleRead<K, V>,
            K: Clone,
            V: Clone,
        requires
            Self::handle_ok(),
            R::handle_ok(),
    {
        match self.merge(other) {
            Ok(()) => {},
            Err(_) => unreached(),
        }
    }
}

impl<T, K, V> KeyedHandleWriteExt<K, V> for T where T: KeyedHandleWrite<K, V> {}

/// A complete keyed handle: constructors and lazy initialisation.
pub trait KeyedHandle<K, V>: KeyedHandleWrite<K, V> + Sized {
    /// The storage that the handle shares.
    type Storage;

    /// A handle sharing a new storage that starts as `storage`.
    fn new(storage: Self::Storage) -> Self;

    /// A handle on an empty storage with room for `capacity` entries.
    fn with_capacity(capacity: usize) -> Self;

    /// A handle on a storage holding `entries`.
    fn from_iter(entries: Vec<(K, V)>) -> Self;

    /// Returns a copy of the value for `key`, inserting `f()` first when the key is vacant.
    fn get_or_insert_with<F>(&self, key: K, f: F) -> (r: Result<V, HandleError>)
        where
            V: Clone,
            F: FnOnce() -> V,
        requires
            f.requires(()),
        ensures
            Self::handle_ok() ==> r is Ok,
    ;

    /// Fallible version of `get_or_insert_with`: an error from `f()` comes
    /// back as a storage error.
    fn get_or_try_insert_with<F>(&self, key: K, f: F) -> (r: Result<V, HandleError>)
        where
            V: Clone,
            F: FnOnce() -> Result<V, StorageError>,
        requires
            f.requires(()),
        ensures
            Self::handle_ok() ==> (r matches Err(HandleError::Storage(e)) ==> f.ensures((), Err::<V, StorageError>(e))),
            Self::handle_ok() ==> (r is Ok || (r matches Err(HandleError::Storage(e)) && f.ensures((), Err::<V, StorageError>(e)))),
    ;
}


/// A keyed handle that can stand behind a trait object: the operations of
/// `KeyedHandle` that take no closure, and lazy initialisation from a value.
pub trait KeyedDynHandle<K, V>: Send + Sync {
    /// Whether no operation of this handle type fails.
    spec fn dyn_ok(&self) -> bool;

    /// Returns an owned copy of the value under `key`, if present.
    fn get(&self, key: &K) -> (r: Result<Option<V>, HandleError>)
        where
            V: Clone,
        ensures
            self.dyn_ok() ==> r is Ok,
    ;

    /// Returns whether the storage holds an entry for `key`.
    fn contains_key(&self, key: &K) -> (r: Result<bool, HandleError>)
        ensures
            self.dyn_ok() ==> r is Ok,
    ;

    /// Returns the number of entries held.
    fn len(&self) -> (r: Result<usize, HandleError>)
        ensures
            self.dyn_ok() ==> r is Ok,
    ;

    /// Returns whether the storage holds no entries.
    fn is_empty(&self) -> (r: Result<bool, HandleError>)
        ensures
            self.dyn_ok() ==> r is Ok,
    {
        match self.len() {
            Ok(n) => Ok(n == 0),
            Err(e) => Err(e),
        }
    }

    /// Returns owned copies of all entries.
    fn entries(&self) -> (r: Result<Vec<(K, V)>, HandleError>)
        where
            K: Clone,
            V: Clone,
        ensures
            self.dyn_ok() ==> r is Ok,
    ;

    /// Returns owned copies of all keys.
    fn keys(&self) -> (r: Result<Vec<K>, HandleError>)
        where
            K: Clone,
        ensures
            self.dyn_ok() ==> r is Ok,
    ;

    /// Returns owned copies of all values.
    fn values(&self) -> (r: Result<Vec<V>, HandleError>)
        where
            V: Clone,
        ensures
            self.dyn_ok() ==> r is Ok,
    ;

    /// Inserts a key/value pair, returning the previous value if present.
    fn insert(&self, key: K, value: V) -> (r: Result<Option<V>, HandleError>)
        ensures
            self.dyn_ok() ==> r is Ok,
    ;

    /// Returns a copy of the value under `key`, inserting `value` first when the key is vacant.
    fn try_insert(&self, key: K, value: V) -> (r: Result<V, HandleError>)
        where
            V: Clone,
        ensures
            self.dyn_ok() ==> r is Ok,
    ;

    /// Removes the entry for `key`, returning its value if it existed.
    fn remove(&self, key: &K) -> (r: Result<Option<V>, HandleError>)
        ensures
            self.dyn_ok() ==> r is Ok,
    ;

    /// Removes every entry.
    fn clear(&self) -> (r: Result<(), HandleError>)
        ensures
            self.dyn_ok() ==> r is Ok,
    ;

    /// Removes and returns every entry.
    fn drain(&self) -> (r: Result<Vec<(K, V)>, HandleError>)
        ensures
            self.dyn_ok() ==> r is Ok,
    ;

    /// Inserts every entry of `entries`, in order.
    fn extend(&self, entries: Vec<(K, V)>) -> (r: Result<(), HandleError>)
        ensures
            self.dyn_ok() ==> r is Ok,
    ;

    /// Returns a copy of the value for `key`, inserting `value` first when the key is vacant.
    fn get_or_insert_with(&self, key: K, value: V) -> (r: Result<V, HandleError>)
        where
            V: Clone,
        ensures
            self.dyn_ok() ==> r is Ok,
    ;

    /// Returns a copy of the value for `key`, inserting `value` first when
    /// the key is vacant; an `Err` value is returned as a storage error and
    /// inserts nothing.
    fn get_or_try_insert_with(&self, key: K, value: Result<V, StorageError>) -> (r: Result<V, HandleError>)
        where
            V: Clone,
        ensures
            self.dyn_ok() ==> (r matches Err(HandleError::Storage(e)) ==> value == Err::<V, StorageError>(e)),
            self.dyn_ok() ==> (r is Ok || (r matches Err(HandleError::Storage(e)) && value == Err::<V, StorageError>(e))),
    ;
}

/// Merges the handle `other` into `target`: clones of its entries are
/// inserted, replacing ours under the same key; an error of `other` is
/// returned as it is and leaves `target` unchanged.
pub fn merge_dyn<K: Clone, V: Clone>(target: &dyn KeyedDynHandle<K, V>, other: &dyn KeyedDynHandle<K, V>) -> (r: Result<(), HandleError>)
    ensures
        target.dyn_ok() && other.dyn_ok() ==> r is Ok,
{
    match other.entries() {
        Ok(entries) => target.extend(entries),
        Err(e) => Err(e),
    }
}

impl<K, V, T: KeyedHandle<K, V> + Send + Sync> KeyedDynHandle<K, V> for T {
    open spec fn dyn_ok(&self) -> bool {
        T::handle_ok()
    }

    fn get(&self, key: &K) -> (r: Result<Option<V>, HandleError>)
        where
            V: Clone,
    {
        KeyedHandleRead::get(self, key)
    }

    fn contains_key(&self, key: &K) -> (r: Result<bool, HandleError>) {
        KeyedHandleRead::contains_key(self, key)
    }

    fn len(&self) -> (r: Result<usize, HandleError>) {
        KeyedHandleRead::len(self)
    }

    fn entries(&self) -> (r: Result<Vec<(K, V)>, HandleError>)
        where
            K: Clone,
            V: Clone,
    {
        KeyedHandleRead::entries(self)
    }

    fn keys(&self) -> (r: Result<Vec<K>, HandleError>)
        where
            K: Clone,
    {
        KeyedHandleRead::keys(self)
    }

    fn values(&self) -> (r: Result<Vec<V>, HandleError>)
        where
            V: Clone,
    {
        KeyedHandleRead::values(self)
    }

    fn insert(&self, key: K, value: V) -> (r: Result<Option<V>, HandleError>) {
        KeyedHandleWrite::insert(self, key, value)
    }

    fn try_insert(&self, key: K, value: V) -> (r: Result<V, HandleError>)
        where
            V: Clone,
    {
        KeyedHandleWrite::try_insert(self, key, value)
    }

    fn remove(&self, key: &K) -> (r: Result<Option<V>, HandleError>) {
        KeyedHandleWrite::remove(self, key)
    }

    fn clear(&self) -> (r: Result<(), HandleError>) {
        KeyedHandleWrite::clear(self)
    }

    fn drain(&self) -> (r: Result<Vec<(K, V)>, HandleError>) {
        KeyedHandleWrite::drain(self)
    }

    fn extend(&self, entries: Vec<(K, V)>) -> (r: Result<(), HandleError>) {
        KeyedHandleWrite::extend(self, entries)
    }

    fn get_or_insert_with(&self, key: K, value: V) -> (r: Result<V, HandleError>)
        where
            V: Clone,
    {
        KeyedHandle::get_or_insert_with(self, key, move || -> (v: V) ensures v == value { value })
    }

    fn get_or_try_insert_with(&self, key: K, value: Result<V, StorageError>) -> (r: Result<V, HandleError>)
        where
            V: Clone,
    {
        let ghost given = value;
        KeyedHandle::get_or_try_insert_with(self, key, move || -> (v: Result<V, StorageError>) ensures v == given { value })
    }
}

} // verus!
