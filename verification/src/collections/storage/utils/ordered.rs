//! Ordered (map-like, with meaningful key order) storages and the handles
//! that share them: the same operations as keyed storages, for backends
//! whose keys are compared by their order rather than hashed.
use super::keyed::{folded, folded_mut, ran_on_mut, broke_on_mut, went_on_mut, retained_keys, insert_all, found, held, lists_entries, broke_on, mapped_from, output_of_mut, output_of, clones_entries, clones_keys, clones_values};
use super::{output_on_ref, HandleError, StorageError};
use std::ops::ControlFlow;
use vstd::prelude::*;

verus! {

// ----- Inner storage traits -----
/// Read-only behaviour of an ordered container.
pub trait OrderedStorageRead<K, V> {
    /// The entries held, as a map from key to value.
    spec fn kv(&self) -> Map<K, V>;

    /// Whether this container type behaves as the map `kv()` says; for an
    /// ordered map this holds when the order of `K` is a total order that
    /// agrees with equality.
    spec fn kv_model() -> bool;

    /// Whether no operation of this container type fails by itself.
    spec fn infallible() -> bool;

    /// Returns a reference to the value associated with `key`, if present.
    fn get(&self, key: &K) -> (r: Result<Option<&V>, StorageError>)
        ensures
            Self::infallible() ==> r is Ok,
            Self::kv_model() ==> (r matches Ok(o) ==> found(self.kv(), *key, o)),
    ;

    /// Returns whether the container holds an entry for `key`.
    fn contains_key(&self, key: &K) -> (r: Result<bool, StorageError>)
        ensures
            Self::infallible() ==> r is Ok,
            Self::kv_model() ==> (r matches Ok(b) ==> b == self.kv().contains_key(*key)),
    ;

    /// Returns the number of entries held.
    fn len(&self) -> (r: Result<usize, StorageError>)
        ensures
            Self::infallible() ==> r is Ok,
            Self::kv_model() ==> (r matches Ok(n) ==> n == self.kv().len()),
    ;

    /// Returns whether the container holds no entries.
    fn is_empty(&self) -> (r: Result<bool, StorageError>)
        ensures
            Self::infallible() ==> r is Ok,
            Self::kv_model() ==> (r matches Ok(b) ==> b == (self.kv().len() == 0)),
    {
        match self.len() {
            Ok(n) => Ok(n == 0),
            Err(e) => Err(e),
        }
    }

    /// Returns owned copies of all entries.
    fn entries(&self) -> (r: Result<Vec<(K, V)>, StorageError>)
        where
            K: Clone,
            V: Clone,
        ensures
            Self::infallible() ==> r is Ok,
            Self::kv_model() ==> (r matches Ok(es) ==> clones_entries(self.kv(), es@)),
    ;

    /// Returns owned copies of all keys.
    fn keys(&self) -> (r: Result<Vec<K>, StorageError>)
        where
            K: Clone,
        ensures
            Self::infallible() ==> r is Ok,
            Self::kv_model() ==> (r matches Ok(ks) ==> clones_keys(self.kv(), ks@)),
    ;

    /// Returns owned copies of all values.
    fn values(&self) -> (r: Result<Vec<V>, StorageError>)
        where
            V: Clone,
        ensures
            Self::infallible() ==> r is Ok,
            Self::kv_model() ==> (r matches Ok(vs) ==> clones_values(self.kv(), vs@)),
    ;

    /// Runs `f` on every borrowed entry.
    fn for_each<F: Fn((&K, &V))>(&self, f: F)
        requires
            forall|k: &K, v: &V| f.requires(((k, v),)),
    ;

    /// Runs `f` on borrowed entries until it breaks; returns the break value, if any.
    fn try_for_each<B, F: Fn((&K, &V)) -> ControlFlow<B>>(&self, f: F) -> (r: ControlFlow<B>)
        requires
            forall|k: &K, v: &V| f.requires(((k, v),)),
        ensures
            Self::kv_model() ==> (r matches ControlFlow::Break(b) ==> broke_on(self.kv(), f, b)),
            r matches ControlFlow::Break(b) ==> output_of(f, ControlFlow::Break(b)),
    ;

    /// Accumulates `f` over every borrowed entry, starting from `init`.
    fn fold<A, F: Fn(A, (&K, &V)) -> A>(&self, init: A, f: F) -> (r: A)
        requires
            forall|a: A, k: &K, v: &V| f.requires((a, (k, v))),
        ensures
            Self::kv_model() && self.kv().len() == 0 ==> r == init,
            Self::kv_model() ==> folded(f, init, self.kv(), r),
    ;

    /// Collects `f` of every borrowed entry.
    fn map<R, F: Fn((&K, &V)) -> R>(&self, f: F) -> (r: Vec<R>)
        requires
            forall|k: &K, v: &V| f.requires(((k, v),)),
        ensures
            Self::kv_model() ==> r@.len() == self.kv().len(),
            Self::kv_model() ==> forall|i: int| 0 <= i < r@.len() ==> #[trigger] mapped_from(self.kv(), f, r@[i]),
            forall|i: int| 0 <= i < r@.len() ==> #[trigger] output_of(f, r@[i]),
    ;
}

/// Mutable behaviour of an ordered container.
pub trait OrderedStorageWrite<K, V>: OrderedStorageRead<K, V> + Sized {
    /// Inserts a key/value pair, returning the previous value if present.
    fn insert(&mut self, key: K, value: V) -> (r: Result<Option<V>, StorageError>)
        ensures
            Self::infallible() ==> r is Ok,
            Self::kv_model() ==> (r matches Ok(o) ==> held(old(self).kv(), key, o)
                && final(self).kv() == old(self).kv().insert(key, value)),
    ;

    /// Returns the value under `key`, inserting `value` first when the key is vacant.
    fn try_insert(&mut self, key: K, value: V) -> (r: Result<&V, StorageError>)
        ensures
            Self::infallible() ==> r is Ok,
            Self::kv_model() ==> (r matches Ok(v) ==> if old(self).kv().contains_key(key) {
                *v == old(self).kv()[key] && final(self).kv() == old(self).kv()
            } else {
                *v == value && final(self).kv() == old(self).kv().insert(key, value)
            }),
    ;

    /// Returns the value under `key`, inserting the result of `value()` first
    /// when the key is vacant; an error from `value()` is returned as it is
    /// and leaves the container unchanged.
    fn try_insert_with<F>(&mut self, key: K, value: F) -> (r: Result<&V, StorageError>)
        where
            F: FnOnce() -> Result<V, StorageError>,
        requires
            value.requires(()),
        ensures
            Self::infallible() ==> (r matches Err(e) ==> value.ensures((), Err::<V, StorageError>(e))),
            Self::kv_model() && Self::infallible() && old(self).kv().contains_key(key) ==> (r matches Ok(v)
                && *v == old(self).kv()[key] && final(self).kv() == old(self).kv()),
            Self::kv_model() && Self::infallible() && !old(self).kv().contains_key(key) ==> match r {
                Ok(v) => value.ensures((), Ok::<V, StorageError>(*v))
                    && final(self).kv() == old(self).kv().insert(key, *v),
                Err(e) => value.ensures((), Err::<V, StorageError>(e)) && final(self).kv() == old(self).kv(),
            },
    ;

    /// Returns a mutable reference to the value for `key`, if present.
    fn get_mut(&mut self, key: &K) -> (r: Result<Option<&mut V>, StorageError>)
        ensures
            Self::infallible() ==> r is Ok,
            Self::kv_model() ==> (r matches Ok(o) ==> match o {
                Some(v) => old(self).kv().contains_key(*key) && *v == old(self).kv()[*key]
                    && final(self).kv() == old(self).kv().insert(*key, *final(v)),
                None => !old(self).kv().contains_key(*key) && final(self).kv() == old(self).kv(),
            }),
    ;

    /// Removes the entry for `key`, returning its value if it existed.
    fn remove(&mut self, key: &K) -> (r: Result<Option<V>, StorageError>)
        ensures
            Self::infallible() ==> r is Ok,
            Self::kv_model() ==> (r matches Ok(o) ==> held(old(self).kv(), *key, o)
                && final(self).kv() == old(self).kv().remove(*key)),
    ;

    /// Removes every entry.
    fn clear(&mut self) -> (r: Result<(), StorageError>)
        ensures
            Self::infallible() ==> r is Ok,
            Self::kv_model() ==> (r is Ok ==> final(self).kv() == Map::<K, V>::empty()),
    ;

    /// Keeps only the entries for which `f` returns `true`; `f` may change the
    /// values it is shown.
    fn retain<F>(&mut self, f: F) -> (r: Result<(), StorageError>)
        where
            F: Fn(&K, &mut V) -> bool,
        requires
            forall|k: &K, v: &mut V| f.requires((k, v)),
        ensures
            Self::infallible() ==> r is Ok,
            Self::kv_model() ==> (r is Ok ==> retained_keys(f, old(self).kv(), final(self).kv())),
    ;

    /// Removes and returns every entry.
    fn drain(&mut self) -> (r: Result<Vec<(K, V)>, StorageError>)
        ensures
            Self::infallible() ==> r is Ok,
            Self::kv_model() ==> (r matches Ok(es) ==> lists_entries(old(self).kv(), es@)
                && final(self).kv() == Map::<K, V>::empty()),
    ;

    /// Inserts every entry of `entries`, in order (a later entry wins over an earlier one).
    fn extend(&mut self, entries: Vec<(K, V)>) -> (r: Result<(), StorageError>)
        ensures
            Self::infallible() ==> r is Ok,
            Self::kv_model() ==> (r is Ok ==> final(self).kv() == insert_all(old(self).kv(), entries@)),
    ;

    /// Merges another storage into this one: each of its entries is cloned in,
    /// replacing ours under the same key.
    fn merge<R>(&mut self, other: &R) -> (r: Result<(), StorageError>)
        where
            R: OrderedStorageRead<K, V>,
            K: Clone,
            V: Clone,
        ensures
            Self::infallible() && R::infallible() ==> r is Ok,
            Self::kv_model() && R::kv_model() ==> (r is Ok ==> exists|es: Seq<(K, V)>|
                clones_entries(other.kv(), es) && final(self).kv() == insert_all(old(self).kv(), es)),
    {
        match other.entries() {
            Ok(entries) => self.extend(entries),
            Err(e) => Err(e),
        }
    }

    /// Runs `f` on every entry, with mutable access to the values; the set of keys does not change.
    fn for_each_mut<F: Fn((&K, &mut V))>(&mut self, f: F)
        requires
            forall|k: &K, v: &mut V| f.requires(((k, v),)),
        ensures
            Self::kv_model() ==> final(self).kv().dom() == old(self).kv().dom(),
            Self::kv_model() ==> forall|k: K| #[trigger] old(self).kv().contains_key(k) ==> ran_on_mut(f, k, old(self).kv()[k]),
    ;

    /// Runs `f` on entries, with mutable access to the values, until it
    /// breaks; the set of keys does not change.
    fn try_for_each_mut<B, F: Fn((&K, &mut V)) -> ControlFlow<B>>(&mut self, f: F) -> (r: ControlFlow<B>)
        requires
            forall|k: &K, v: &mut V| f.requires(((k, v),)),
        ensures
            Self::kv_model() ==> final(self).kv().dom() == old(self).kv().dom(),
            Self::kv_model() ==> (r matches ControlFlow::Break(b) ==> broke_on_mut(old(self).kv(), f, b)),
            r matches ControlFlow::Break(b) ==> output_of_mut(f, ControlFlow::Break(b)),
            Self::kv_model() ==> (r is Continue ==> forall|k: K| #[trigger] old(self).kv().contains_key(k)
                ==> went_on_mut::<K, V, B, F>(f, k, old(self).kv()[k])),
    ;

    /// Accumulates `f` over every entry, with mutable access to the values,
    /// starting from `init`; the set of keys does not change.
    fn fold_mut<A, F: Fn(A, (&K, &mut V)) -> A>(&mut self, init: A, f: F) -> (r: A)
        requires
            forall|a: A, k: &K, v: &mut V| f.requires((a, (k, v))),
        ensures
            Self::kv_model() ==> final(self).kv().dom() == old(self).kv().dom(),
            Self::kv_model() && old(self).kv().len() == 0 ==> r == init,
            Self::kv_model() ==> folded_mut(f, init, old(self).kv(), r),
    ;

    /// Collects `f` of every entry, with mutable access to the values; the
    /// set of keys does not change.
    fn map_mut<R, F: Fn((&K, &mut V)) -> R>(&mut self, f: F) -> (r: Vec<R>)
        requires
            forall|k: &K, v: &mut V| f.requires(((k, v),)),
        ensures
            Self::kv_model() ==> final(self).kv().dom() == old(self).kv().dom(),
            Self::kv_model() ==> r@.len() == old(self).kv().len(),
            forall|i: int| 0 <= i < r@.len() ==> #[trigger] output_of_mut(f, r@[i]),
    ;
}

/// A complete ordered container: constructors and lazy initialisation.
pub trait OrderedStorage<K, V>: OrderedStorageWrite<K, V> {
    /// An empty container.
    fn new() -> (s: Self)
        ensures
            Self::kv_model() ==> s.kv() == Map::<K, V>::empty(),
    ;

    /// An empty container with room for `capacity` entries.
    fn with_capacity(capacity: usize) -> (s: Self)
        ensures
            Self::kv_model() ==> s.kv() == Map::<K, V>::empty(),
    ;

    /// A container holding `entries` (a later entry wins over an earlier one).
    fn from_iter(entries: Vec<(K, V)>) -> (s: Self)
        ensures
            Self::kv_model() ==> s.kv() == insert_all(Map::<K, V>::empty(), entries@),
    ;

    /// Returns the value for `key`, inserting `f()` first when the key is vacant.
    fn get_or_insert_with<F: FnOnce() -> V>(&mut self, key: K, f: F) -> (r: Result<&V, StorageError>)
        requires
            f.requires(()),
        ensures
            Self::infallible() ==> r is Ok,
            Self::kv_model() ==> (r matches Ok(v) ==> if old(self).kv().contains_key(key) {
                *v == old(self).kv()[key] && final(self).kv() == old(self).kv()
            } else {
                f.ensures((), *v) && final(self).kv() == old(self).kv().insert(key, *v)
            }),
    ;

    /// Fallible version of `get_or_insert_with`: an error from `f()` is
    /// returned as it is and leaves the container unchanged.
    fn get_or_try_insert_with<F: FnOnce() -> Result<V, StorageError>>(&mut self, key: K, f: F) -> (r: Result<&V, StorageError>)
        requires
            f.requires(()),
        ensures
            Self::infallible() ==> (r matches Err(e) ==> f.ensures((), Err::<V, StorageError>(e))),
            Self::kv_model() && Self::infallible() && old(self).kv().contains_key(key) ==> (r matches Ok(v)
                && *v == old(self).kv()[key] && final(self).kv() == old(self).kv()),
            Self::kv_model() && Self::infallible() && !old(self).kv().contains_key(key) ==> match r {
                Ok(v) => f.ensures((), Ok::<V, StorageError>(*v))
                    && final(self).kv() == old(self).kv().insert(key, *v),
                Err(e) => f.ensures((), Err::<V, StorageError>(e)) && final(self).kv() == old(self).kv(),
            },
    ;
}

// ----- Handle traits -----
/// Read operations of an ordered handle.
///
/// A handle shares its storage with every clone of it, so what a read returns
/// is what the storage holds at that moment, whoever wrote it.
pub trait OrderedHandleRead<K, V> {
    /// Whether no operation of this handle type fails.
    spec fn handle_ok() -> bool;

    /// Returns an owned copy of the value under `key`, if present.
    fn get(&self, key: &K) -> (r: Result<Option<V>, HandleError>)
        where
            V: Clone,
        ensures
            Self::handle_ok() ==> r is Ok,
    ;

    /// Returns `Some(f(value))` for the value under `key`, if present.
    fn with_ref<F, R>(&self, key: &K, f: F) -> (r: Result<Option<R>, HandleError>)
        where
            F: FnOnce(&V) -> R,
        requires
            forall|v: &V| f.requires((v,)),
        ensures
            Self::handle_ok() ==> r is Ok,
            r matches Ok(Some(x)) ==> output_on_ref(f, x),
    ;

    /// Runs `f` on every borrowed entry.
    fn for_each<F: Fn((&K, &V))>(&self, f: F) -> (r: Result<(), HandleError>)
        requires
            forall|k: &K, v: &V| f.requires(((k, v),)),
        ensures
            Self::handle_ok() ==> r is Ok,
    ;

    /// Runs `f` on borrowed entries until it breaks; returns the break value, if any.
    fn try_for_each<B, F: Fn((&K, &V)) -> ControlFlow<B>>(&self, f: F) -> (r: Result<ControlFlow<B>, HandleError>)
        requires
            forall|k: &K, v: &V| f.requires(((k, v),)),
        ensures
            Self::handle_ok() ==> r is Ok,
            r matches Ok(ControlFlow::Break(b)) ==> output_of(f, ControlFlow::Break(b)),
    ;

    /// Accumulates `f` over every borrowed entry, starting from `init`.
    fn fold<A, F: Fn(A, (&K, &V)) -> A>(&self, init: A, f: F) -> (r: Result<A, HandleError>)
        requires
            forall|a: A, k: &K, v: &V| f.requires((a, (k, v))),
        ensures
            Self::handle_ok() ==> r is Ok,
    ;

    /// Collects `f` of every borrowed entry.
    fn map<R, F: Fn((&K, &V)) -> R>(&self, f: F) -> (r: Result<Vec<R>, HandleError>)
        requires
            forall|k: &K, v: &V| f.requires(((k, v),)),
        ensures
            Self::handle_ok() ==> r is Ok,
            r matches Ok(xs) ==> forall|i: int| 0 <= i < xs@.len() ==> #[trigger] output_of(f, xs@[i]),
    ;

    /// Returns a clone of the key of an entry that satisfies `f`, if any.
    fn find_key<F>(&self, f: F) -> (r: Result<Option<K>, HandleError>)
        where
            K: Clone,
            F: Fn((&K, &V)) -> bool,
        requires
            forall|k: &K, v: &V| f.requires(((k, v),)),
        ensures
            Self::handle_ok() ==> r is Ok,
            r matches Ok(Some(x)) ==> exists|k: &K, v: &V| f.ensures(((k, v),), true) && cloned(*k, x),
    {
        let fr = &f;
        let g = |e: (&K, &V)| -> (c: ControlFlow<K>)
            requires
                fr.requires((e,)),
            ensures
                c matches ControlFlow::Break(x) ==> fr.ensures((e,), true) && cloned(*e.0, x),
        {
            if fr(e) {
                ControlFlow::Break(e.0.clone())
            } else {
                ControlFlow::Continue(())
            }
        };
        match self.try_for_each(g) {
            Ok(ControlFlow::Break(x)) => Ok(Some(x)),
            Ok(ControlFlow::Continue(())) => Ok(None),
            Err(e) => Err(e),
        }
    }

    /// Returns clones of an entry that satisfies `f`, if any.
    fn find<F>(&self, f: F) -> (r: Result<Option<(K, V)>, HandleError>)
        where
            K: Clone,
            V: Clone,
            F: Fn((&K, &V)) -> bool,
        requires
            forall|k: &K, v: &V| f.requires(((k, v),)),
        ensures
            Self::handle_ok() ==> r is Ok,
            r matches Ok(Some(x)) ==> exists|k: &K, v: &V| f.ensures(((k, v),), true) && cloned(*k, x.0) && cloned(*v, x.1),
    {
        let fr = &f;
        let g = |e: (&K, &V)| -> (c: ControlFlow<(K, V)>)
            requires
                fr.requires((e,)),
            ensures
                c matches ControlFlow::Break(x) ==> fr.ensures((e,), true) && cloned(*e.0, x.0) && cloned(*e.1, x.1),
        {
            if fr(e) {
                ControlFlow::Break((e.0.clone(), e.1.clone()))
            } else {
                ControlFlow::Continue(())
            }
        };
        match self.try_for_each(g) {
            Ok(ControlFlow::Break(x)) => Ok(Some(x)),
            Ok(ControlFlow::Continue(())) => Ok(None),
            Err(e) => Err(e),
        }
    }

    /// Returns whether the storage holds an entry for `key`.
    fn contains_key(&self, key: &K) -> (r: Result<bool, HandleError>)
        ensures
            Self::handle_ok() ==> r is Ok,
    ;

    /// Returns the number of entries held.
    fn len(&self) -> (r: Result<usize, HandleError>)
        ensures
            Self::handle_ok() ==> r is Ok,
    ;

    /// Returns whether the storage holds no entries.
    fn is_empty(&self) -> (r: Result<bool, HandleError>)
        ensures
            Self::handle_ok() ==> r is Ok,
    {
        match self.len() {
            Ok(n) => Ok(n == 0),
            Err(e) => Err(e),
        }
    }

    /// Returns owned copies of all entries.
    fn entries(&self) -> (r: Result<Vec<(K, V)>, HandleError>)
        where
            K: Clone,
            V: Clone,
        ensures
            Self::handle_ok() ==> r is Ok,
    ;

    /// Returns owned copies of all keys.
    fn keys(&self) -> (r: Result<Vec<K>, HandleError>)
        where
            K: Clone,
        ensures
            Self::handle_ok() ==> r is Ok,
    ;

    /// Returns owned copies of all values.
    fn values(&self) -> (r: Result<Vec<V>, HandleError>)
        where
            V: Clone,
        ensures
            Self::handle_ok() ==> r is Ok,
    ;
}


/// Convenience methods on `OrderedHandleRead` for handles whose operations
/// cannot fail.
pub trait OrderedHandleReadExt<K, V>: OrderedHandleRead<K, V> {
    /// `get` on a handle that cannot fail.
    fn get_unwrap(&self, key: &K) -> (r: Option<V>)
        where
            V: Clone,
        requires
            Self::handle_ok(),
    {
        match self.get(key) {
            Ok(o) => o,
            Err(_) => unreached(),
        }
    }

    /// `with_ref` on a handle that cannot fail.
    fn with_ref_unwrap<F, R>(&self, key: &K, f: F) -> (r: Option<R>)
        where
            F: FnOnce(&V) -> R,
        requires
            Self::handle_ok(),
            forall|v: &V| f.requires((v,)),
        ensures
            r matches Some(x) ==> output_on_ref(f, x),
    {
        match self.with_ref(key, f) {
            Ok(o) => o,
            Err(_) => unreached(),
        }
    }

    /// `for_each` on a handle that cannot fail.
    fn for_each_unwrap<F: Fn((&K, &V))>(&self, f: F)
        requires
            Self::handle_ok(),
            forall|k: &K, v: &V| f.requires(((k, v),)),
    {
        match self.for_each(f) {
            Ok(()) => {},
            Err(_) => unreached(),
        }
    }

    /// `try_for_each` on a handle that cannot fail.
    fn try_for_each_unwrap<B, F: Fn((&K, &V)) -> ControlFlow<B>>(&self, f: F) -> (r: ControlFlow<B>)
        requires
            Self::handle_ok(),
            forall|k: &K, v: &V| f.requires(((k, v),)),
        ensures
            r matches ControlFlow::Break(b) ==> output_of(f, ControlFlow::Break(b)),
    {
        match self.try_for_each(f) {
            Ok(c) => c,
            Err(_) => unreached(),
        }
    }

    /// `fold` on a handle that cannot fail.
    fn fold_unwrap<A, F: Fn(A, (&K, &V)) -> A>(&self, init: A, f: F) -> (r: A)
        requires
            Self::handle_ok(),
            forall|a: A, k: &K, v: &V| f.requires((a, (k, v))),
    {
        match self.fold(init, f) {
            Ok(a) => a,
            Err(_) => unreached(),
        }
    }

    /// `map` on a handle that cannot fail.
    fn map_unwrap<R, F: Fn((&K, &V)) -> R>(&self, f: F) -> (r: Vec<R>)
        requires
            Self::handle_ok(),
            forall|k: &K, v: &V| f.requires(((k, v),)),
        ensures
            forall|i: int| 0 <= i < r@.len() ==> #[trigger] output_of(f, r@[i]),
    {
        match self.map(f) {
            Ok(xs) => xs,
            Err(_) => unreached(),
        }
    }

    /// `find_key` on a handle that cannot fail.
    fn find_key_unwrap<F>(&self, f: F) -> (r: Option<K>)
        where
            K: Clone,
            F: Fn((&K, &V)) -> bool,
        requires
            Self::handle_ok(),
            forall|k: &K, v: &V| f.requires(((k, v),)),
        ensures
            r matches Some(x) ==> exists|k: &K, v: &V| f.ensures(((k, v),), true) && cloned(*k, x),
    {
        match self.find_key(f) {
            Ok(o) => o,
            Err(_) => unreached(),
        }
    }

    /// `find` on a handle that cannot fail.
    fn find_unwrap<F>(&self, f: F) -> (r: Option<(K, V)>)
        where
            K: Clone,
            V: Clone,
            F: Fn((&K, &V)) -> bool,
        requires
            Self::handle_ok(),
            forall|k: &K, v: &V| f.requires(((k, v),)),
        ensures
            r matches Some(x) ==> exists|k: &K, v: &V| f.ensures(((k, v),), true) && cloned(*k, x.0) && cloned(*v, x.1),
    {
        match self.find(f) {
            Ok(o) => o,
            Err(_) => unreached(),
        }
    }

    /// `contains_key` on a handle that cannot fail.
    fn contains_key_unwrap(&self, key: &K) -> (r: bool)
        requires
            Self::handle_ok(),
    {
        match self.contains_key(key) {
            Ok(b) => b,
            Err(_) => unreached(),
        }
    }

    /// `len` on a handle that cannot fail.
    fn len_unwrap(&self) -> (r: usize)
        requires
            Self::handle_ok(),
    {
        match self.len() {
            Ok(n) => n,
            Err(_) => unreached(),
        }
    }

    /// `is_empty` on a handle that cannot fail.
    fn is_empty_unwrap(&self) -> (r: bool)
        requires
            Self::handle_ok(),
    {
        match self.is_empty() {
            Ok(b) => b,
            Err(_) => unreached(),
        }
    }

    /// `entries` on a handle that cannot fail.
    fn entries_unwrap(&self) -> (r: Vec<(K, V)>)
        where
            K: Clone,
            V: Clone,
        requires
            Self::handle_ok(),
    {
        match self.entries() {
            Ok(es) => es,
            Err(_) => unreached(),
        }
    }

    /// `keys` on a handle that cannot fail.
    fn keys_unwrap(&self) -> (r: Vec<K>)
        where
            K: Clone,
        requires
            Self::handle_ok(),
    {
        match self.keys() {
            Ok(ks) => ks,
            Err(_) => unreached(),
        }
    }

    /// `values` on a handle that cannot fail.
    fn values_unwrap(&self) -> (r: Vec<V>)
        where
            V: Clone,
        requires
            Self::handle_ok(),
    {
        match self.values() {
            Ok(vs) => vs,
            Err(_) => unreached(),
        }
    }
}

impl<T, K, V> OrderedHandleReadExt<K, V> for T where T: OrderedHandleRead<K, V> {}

/// Write operations of an ordered handle.
pub trait OrderedHandleWrite<K, V>: OrderedHandleRead<K, V> {
    /// Inserts a key/value pair, returning the previous value if present.
    fn insert(&self, key: K, value: V) -> (r: Result<Option<V>, HandleError>)
        ensures
            Self::handle_ok() ==> r is Ok,
    ;

    /// Returns a copy of the value under `key`, inserting `value` first when the key is vacant.
    fn try_insert(&self, key: K, value: V) -> (r: Result<V, HandleError>)
        where
            V: Clone,
        ensures
            Self::handle_ok() ==> r is Ok,
    ;

    /// Returns a copy of the value under `key`, inserting the result of
    /// `value()` first when the key is vacant; an error from `value()` comes
    /// back as a storage error.
    fn try_insert_with<F>(&self, key: K, value: F) -> (r: Result<V, HandleError>)
        where
            V: Clone,
            F: FnOnce() -> Result<V, StorageError>,
        requires
            value.requires(()),
        ensures
            Self::handle_ok() ==> (r is Ok || (r matches Err(HandleError::Storage(e))
                && value.ensures((), Err::<V, StorageError>(e)))),
    ;

    /// Returns `Some(f(value))` after running `f` on the value under `key`, if present.
    fn with_mut<F, R>(&self, key: &K, f: F) -> (r: Result<Option<R>, HandleError>)
        where
            F: FnOnce(&mut V) -> R,
        requires
            forall|v: &mut V| f.requires((v,)),
        ensures
            Self::handle_ok() ==> r is Ok,
            r matches Ok(Some(x)) ==> super::output_on_mut(f, x),
    ;

    /// Runs `f` on every entry, with mutable access to the values.
    fn for_each_mut<F: Fn((&K, &mut V))>(&self, f: F) -> (r: Result<(), HandleError>)
        requires
            forall|k: &K, v: &mut V| f.requires(((k, v),)),
        ensures
            Self::handle_ok() ==> r is Ok,
    ;

    /// Runs `f` on entries, with mutable access to the values, until it breaks.
    fn try_for_each_mut<B, F: Fn((&K, &mut V)) -> ControlFlow<B>>(&self, f: F) -> (r: Result<ControlFlow<B>, HandleError>)
        requires
            forall|k: &K, v: &mut V| f.requires(((k, v),)),
        ensures
            Self::handle_ok() ==> r is Ok,
            r matches Ok(ControlFlow::Break(b)) ==> output_of_mut(f, ControlFlow::Break(b)),
    ;

    /// Accumulates `f` over every entry, with mutable access to the values,
    /// starting from `init`.
    fn fold_mut<A, F: Fn(A, (&K, &mut V)) -> A>(&self, init: A, f: F) -> (r: Result<A, HandleError>)
        requires
            forall|a: A, k: &K, v: &mut V| f.requires((a, (k, v))),
        ensures
            Self::handle_ok() ==> r is Ok,
    ;

    /// Collects `f` of every entry, with mutable access to the values.
    fn map_mut<R, F: Fn((&K, &mut V)) -> R>(&self, f: F) -> (r: Result<Vec<R>, HandleError>)
        requires
            forall|k: &K, v: &mut V| f.requires(((k, v),)),
        ensures
            Self::handle_ok() ==> r is Ok,
            r matches Ok(xs) ==> forall|i: int| 0 <= i < xs@.len() ==> #[trigger] output_of_mut(f, xs@[i]),
    ;

    /// Removes the entry for `key`, returning its value if it existed.
    fn remove(&self, key: &K) -> (r: Result<Option<V>, HandleError>)
        ensures
            Self::handle_ok() ==> r is Ok,
    ;

    /// Removes every entry.
    fn clear(&self) -> (r: Result<(), HandleError>)
        ensures
            Self::handle_ok() ==> r is Ok,
    ;

    /// Keeps only the entries for which `f` returns `true`.
    fn retain<F>(&self, f: F) -> (r: Result<(), HandleError>)
        where
            F: Fn(&K, &mut V) -> bool,
        requires
            forall|k: &K, v: &mut V| f.requires((k, v)),
        ensures
            Self::handle_ok() ==> r is Ok,
    ;

    /// Removes and returns every entry.
    fn drain(&self) -> (r: Result<Vec<(K, V)>, HandleError>)
        ensures
            Self::handle_ok() ==> r is Ok,
    ;

    /// Inserts every entry of `entries`, in order.
    fn extend(&self, entries: Vec<(K, V)>) -> (r: Result<(), HandleError>)
        ensures
            Self::handle_ok() ==> r is Ok,
    ;

    /// Copies every entry of `other` into this handle's storage.
    fn merge<R>(&self, other: &R) -> (r: Result<(), HandleError>)
        where
            R: OrderedHandleRead<K, V>,
            K: Clone,
            V: Clone,
        ensures
            Self::handle_ok() && R::handle_ok() ==> r is Ok,
    {
        match other.entries() {
            Ok(es) => self.extend(es),
            Err(e) => Err(e),
        }
    }
}

/// Convenience methods on `OrderedHandleWrite` for handles whose operations
/// cannot fail.
pub trait OrderedHandleWriteExt<K, V>: OrderedHandleWrite<K, V> {
    /// `insert` on a handle that cannot fail.
    fn insert_unwrap(&self, key: K, value: V) -> (r: Option<V>)
        requires
            Self::handle_ok(),
    {
        match self.insert(key, value) {
            Ok(o) => o,
            Err(_) => unreached(),
        }
    }

    /// `try_insert` on a handle that cannot fail.
    fn try_insert_unwrap(&self, key: K, value: V) -> (r: V)
        where
            V: Clone,
        requires
            Self::handle_ok(),
    {
        match self.try_insert(key, value) {
            Ok(v) => v,
            Err(_) => unreached(),
        }
    }

    /// `try_insert_with` on a handle that cannot fail, with a `value` that
    /// never returns an error.
    fn try_insert_with_unwrap<F>(&self, key: K, value: F) -> (r: V)
        where
            V: Clone,
            F: FnOnce() -> Result<V, StorageError>,
        requires
            Self::handle_ok(),
            value.requires(()),
            forall|e: StorageError| !value.ensures((), Err::<V, StorageError>(e)),
    {
        match self.try_insert_with(key, value) {
            Ok(v) => v,
            Err(_) => unreached(),
        }
    }

    /// `with_mut` on a handle that cannot fail.
    fn with_mut_unwrap<F, R>(&self, key: &K, f: F) -> (r: Option<R>)
        where
            F: FnOnce(&mut V) -> R,
        requires
            Self::handle_ok(),
            forall|v: &mut V| f.requires((v,)),
        ensures
            r matches Some(x) ==> super::output_on_mut(f, x),
    {
        match self.with_mut(key, f) {
            Ok(o) => o,
            Err(_) => unreached(),
        }
    }

    /// `for_each_mut` on a handle that cannot fail.
    fn for_each_mut_unwrap<F: Fn((&K, &mut V))>(&self, f: F)
        requires
            Self::handle_ok(),
            forall|k: &K, v: &mut V| f.requires(((k, v),)),
    {
        match self.for_each_mut(f) {
            Ok(()) => {},
            Err(_) => unreached(),
        }
    }

    /// `try_for_each_mut` on a handle that cannot fail.
    fn try_for_each_mut_unwrap<B, F: Fn((&K, &mut V)) -> ControlFlow<B>>(&self, f: F) -> (r: ControlFlow<B>)
        requires
            Self::handle_ok(),
            forall|k: &K, v: &mut V| f.requires(((k, v),)),
        ensures
            r matches ControlFlow::Break(b) ==> output_of_mut(f, ControlFlow::Break(b)),
    {
        match self.try_for_each_mut(f) {
            Ok(c) => c,
            Err(_) => unreached(),
        }
    }

    /// `fold_mut` on a handle that cannot fail.
    fn fold_mut_unwrap<A, F: Fn(A, (&K, &mut V)) -> A>(&self, init: A, f: F) -> (r: A)
        requires
            Self::handle_ok(),
            forall|a: A, k: &K, v: &mut V| f.requires((a, (k, v))),
    {
        match self.fold_mut(init, f) {
            Ok(a) => a,
            Err(_) => unreached(),
        }
    }

    /// `map_mut` on a handle that cannot fail.
    fn map_mut_unwrap<R, F: Fn((&K, &mut V)) -> R>(&self, f: F) -> (r: Vec<R>)
        requires
            Self::handle_ok(),
            forall|k: &K, v: &mut V| f.requires(((k, v),)),
        ensures
            forall|i: int| 0 <= i < r@.len() ==> #[trigger] output_of_mut(f, r@[i]),
    {
        match self.map_mut(f) {
            Ok(xs) => xs,
            Err(_) => unreached(),
        }
    }

    /// `remove` on a handle that cannot fail.
    fn remove_unwrap(&self, key: &K) -> (r: Option<V>)
        requires
            Self::handle_ok(),
    {
        match self.remove(key) {
            Ok(o) => o,
            Err(_) => unreached(),
        }
    }

    /// `clear` on a handle that cannot fail.
    fn clear_unwrap(&self)
        requires
            Self::handle_ok(),
    {
        match self.clear() {
            Ok(()) => {},
            Err(_) => unreached(),
        }
    }

    /// `retain` on a handle that cannot fail.
    fn retain_unwrap<F>(&self, f: F)
        where
            F: Fn(&K, &mut V) -> bool,
        requires
            Self::handle_ok(),
            forall|k: &K, v: &mut V| f.requires((k, v)),
    {
        match self.retain(f) {
            Ok(()) => {},
            Err(_) => unreached(),
        }
    }

    /// `drain` on a handle that cannot fail.
    fn drain_unwrap(&self) -> (r: Vec<(K, V)>)
        requires
            Self::handle_ok(),
    {
        match self.drain() {
            Ok(es) => es,
            Err(_) => unreached(),
        }
    }

    /// `extend` on a handle that cannot fail.
    fn extend_unwrap(&self, entries: Vec<(K, V)>)
        requires
            Self::handle_ok(),
    {
        match self.extend(entries) {
            Ok(()) => {},
            Err(_) => unreached(),
        }
    }

    /// `merge` on handles that cannot fail.
    fn merge_unwrap<R>(&self, other: &R)
        where
            R: OrderedHandleRead<K, V>,
            K: Clone,
            V: Clone,
        requires
            Self::handle_ok(),
            R::handle_ok(),
    {
        match self.merge(other) {
            Ok(()) => {},
            Err(_) => unreached(),
        }
    }
}

impl<T, K, V> OrderedHandleWriteExt<K, V> for T where T: OrderedHandleWrite<K, V> {}

/// A complete ordered handle: constructors and lazy initialisation.
pub trait OrderedHandle<K, V>: OrderedHandleWrite<K, V> + Sized {
    /// The storage that the handle shares.
    type Storage;

    /// A handle sharing a new storage that starts as `storage`.
    fn new(storage: Self::Storage) -> Self;

    /// A handle on an empty storage with room for `capacity` entries.
    fn with_capacity(capacity: usize) -> Self;

    /// A handle on a storage holding `entries`.
    fn from_iter(entries: Vec<(K, V)>) -> Self;

    /// Returns a copy of the value for `key`, inserting `f()` first when the key is vacant.
    fn get_or_insert_with<F>(&self, key: K, f: F) -> (r: Result<V, HandleError>)
        where
            V: Clone,
            F: FnOnce() -> V,
        requires
            f.requires(()),
        ensures
            Self::handle_ok() ==> r is Ok,
    ;

    /// Fallible version of `get_or_insert_with`: an error from `f()` comes
    /// back as a storage error.
    fn get_or_try_insert_with<F>(&self, key: K, f: F) -> (r: Result<V, HandleError>)
        where
            V: Clone,
            F: FnOnce() -> Result<V, StorageError>,
        requires
            f.requires(()),
        ensures
            Self::handle_ok() ==> (r matches Err(HandleError::Storage(e)) ==> f.ensures((), Err::<V, StorageError>(e))),
            Self::handle_ok() ==> (r is Ok || (r matches Err(HandleError::Storage(e)) && f.ensures((), Err::<V, StorageError>(e)))),
    ;
}


/// An ordered handle that can stand behind a trait object: the operations of
/// `OrderedHandle` that take no closure, and lazy initialisation from a value.
pub trait OrderedDynHandle<K, V>: Send + Sync {
    /// Whether no operation of this handle type fails.
    spec fn dyn_ok(&self) -> bool;

    /// Returns an owned copy of the value under `key`, if present.
    fn get(&self, key: &K) -> (r: Result<Option<V>, HandleError>)
        where
            V: Clone,
        ensures
            self.dyn_ok() ==> r is Ok,
    ;

    /// Returns whether the storage holds an entry for `key`.
    fn contains_key(&self, key: &K) -> (r: Result<bool, HandleError>)
        ensures
            self.dyn_ok() ==> r is Ok,
    ;

    /// Returns the number of entries held.
    fn len(&self) -> (r: Result<usize, HandleError>)
        ensures
            self.dyn_ok() ==> r is Ok,
    ;

    /// Returns whether the storage holds no entries.
    fn is_empty(&self) -> (r: Result<bool, HandleError>)
        ensures
            self.dyn_ok() ==> r is Ok,
    {
        match self.len() {
            Ok(n) => Ok(n == 0),
            Err(e) => Err(e),
        }
    }

    /// Returns owned copies of all entries.
    fn entries(&self) -> (r: Result<Vec<(K, V)>, HandleError>)
        where
            K: Clone,
            V: Clone,
        ensures
            self.dyn_ok() ==> r is Ok,
    ;

    /// Returns owned copies of all keys.
    fn keys(&self) -> (r: Result<Vec<K>, HandleError>)
        where
            K: Clone,
        ensures
            self.dyn_ok() ==> r is Ok,
    ;

    /// Returns owned copies of all values.
    fn values(&self) -> (r: Result<Vec<V>, HandleError>)
        where
            V: Clone,
        ensures
            self.dyn_ok() ==> r is Ok,
    ;

    /// Inserts a key/value pair, returning the previous value if present.
    fn insert(&self, key: K, value: V) -> (r: Result<Option<V>, HandleError>)
        ensures
            self.dyn_ok() ==> r is Ok,
    ;

    /// Returns a copy of the value under `key`, inserting `value` first when the key is vacant.
    fn try_insert(&self, key: K, value: V) -> (r: Result<V, HandleError>)
        where
            V: Clone,
        ensures
            self.dyn_ok() ==> r is Ok,
    ;

    /// Removes the entry for `key`, returning its value if it existed.
    fn remove(&self, key: &K) -> (r: Result<Option<V>, HandleError>)
        ensures
            self.dyn_ok() ==> r is Ok,
    ;

    /// Removes every entry.
    fn clear(&self) -> (r: Result<(), HandleError>)
        ensures
            self.dyn_ok() ==> r is Ok,
    ;

    /// Removes and returns every entry.
    fn drain(&self) -> (r: Result<Vec<(K, V)>, HandleError>)
        ensures
            self.dyn_ok() ==> r is Ok,
    ;

    /// Inserts every entry of `entries`, in order.
    fn extend(&self, entries: Vec<(K, V)>) -> (r: Result<(), HandleError>)
        ensures
            self.dyn_ok() ==> r is Ok,
    ;

    /// Returns a copy of the value for `key`, inserting `value` first when the key is vacant.
    fn get_or_insert_with(&self, key: K, value: V) -> (r: Result<V, HandleError>)
        where
            V: Clone,
        ensures
            self.dyn_ok() ==> r is Ok,
    ;

    /// Returns a copy of the value for `key`, inserting `value` first when
    /// the key is vacant; an `Err` value is returned as a storage error and
    /// inserts nothing.
    fn get_or_try_insert_with(&self, key: K, value: Result<V, StorageError>) -> (r: Result<V, HandleError>)
        where
            V: Clone,
        ensures
            self.dyn_ok() ==> (r matches Err(HandleError::Storage(e)) ==> value == Err::<V, StorageError>(e)),
            self.dyn_ok() ==> (r is Ok || (r matches Err(HandleError::Storage(e)) && value == Err::<V, StorageError>(e))),
    ;
}

/// Merges the handle `other` into `target`: clones of its entries are
/// inserted, replacing ours under the same key; an error of `other` is
/// returned as it is and leaves `target` unchanged.
pub fn merge_dyn<K: Clone, V: Clone>(target: &dyn OrderedDynHandle<K, V>, other: &dyn OrderedDynHandle<K, V>) -> (r: Result<(), HandleError>)
    ensures
        target.dyn_ok() && other.dyn_ok() ==> r is Ok,
{
    match other.entries() {
        Ok(entries) => target.extend(entries),
        Err(e) => Err(e),
    }
}

impl<K, V, T: OrderedHandle<K, V> + Send + Sync> OrderedDynHandle<K, V> for T {
    open spec fn dyn_ok(&self) -> bool {
        T::handle_ok()
    }

    fn get(&self, key: &K) -> (r: Result<Option<V>, HandleError>)
        where
            V: Clone,
    {
        OrderedHandleRead::get(self, key)
    }

    fn contains_key(&self, key: &K) -> (r: Result<bool, HandleError>) {
        OrderedHandleRead::contains_key(self, key)
    }

    fn len(&self) -> (r: Result<usize, HandleError>) {
        OrderedHandleRead::len(self)
    }

    fn entries(&self) -> (r: Result<Vec<(K, V)>, HandleError>)
        where
            K: Clone,
            V: Clone,
    {
        OrderedHandleRead::entries(self)
    }

    fn keys(&self) -> (r: Result<Vec<K>, HandleError>)
        where
            K: Clone,
    {
        OrderedHandleRead::keys(self)
    }

    fn values(&self) -> (r: Result<Vec<V>, HandleError>)
        where
            V: Clone,
    {
        OrderedHandleRead::values(self)
    }

    fn insert(&self, key: K, value: V) -> (r: Result<Option<V>, HandleError>) {
        OrderedHandleWrite::insert(self, key, value)
    }

    fn try_insert(&self, key: K, value: V) -> (r: Result<V, HandleError>)
        where
            V: Clone,
    {
        OrderedHandleWrite::try_insert(self, key, value)
    }

    fn remove(&self, key: &K) -> (r: Result<Option<V>, HandleError>) {
        OrderedHandleWrite::remove(self, key)
    }

    fn clear(&self) -> (r: Result<(), HandleError>) {
        OrderedHandleWrite::clear(self)
    }

    fn drain(&self) -> (r: Result<Vec<(K, V)>, HandleError>) {
        OrderedHandleWrite::drain(self)
    }

    fn extend(&self, entries: Vec<(K, V)>) -> (r: Result<(), HandleError>) {
        OrderedHandleWrite::extend(self, entries)
    }

    fn get_or_insert_with(&self, key: K, value: V) -> (r: Result<V, HandleError>)
        where
            V: Clone,
    {
        OrderedHandle::get_or_insert_with(self, key, move || -> (v: V) ensures v == value { value })
    }

    fn get_or_try_insert_with(&self, key: K, value: Result<V, StorageError>) -> (r: Result<V, HandleError>)
        where
            V: Clone,
    {
        let ghost given = value;
        OrderedHandle::get_or_try_insert_with(self, key, move || -> (v: Result<V, StorageError>) ensures v == given { value })
    }
}


} // verus!
