//! A shareable handle that keeps one storage behind an atomically swapped
//! pointer: copy-on-write.
use super::utils::indexed::{IndexedHandle, IndexedHandleRead, IndexedHandleWrite, IndexedStorage, IndexedStorageRead, IndexedStorageWrite};
use super::utils::keyed::{KeyedHandle, KeyedHandleRead, KeyedHandleWrite, KeyedStorage, KeyedStorageRead, KeyedStorageWrite};
use super::utils::ordered::{OrderedHandle, OrderedHandleRead, OrderedHandleWrite, OrderedStorage, OrderedStorageRead, OrderedStorageWrite};
use super::utils::{HandleBulkRead, HandleBulkWrite, HandleError, StorageError};
use super::AnyState;
use crate::collections::swap_cell::{arc_swap_from, arc_swap_load_full, arc_swap_store, SwapCell};
use std::ops::ControlFlow;
use std::sync::Arc;
use vstd::prelude::*;
use vstd::rwlock::RwLock;

verus! {

/// The current storage, and the lock that serialises writers.
#[verifier::reject_recursive_types(S)]
struct Inner<S> {
    data: SwapCell<S>,
    writers: RwLock<(), AnyState>,
}

/// A thread-safe storage handle whose reads never block: the storage sits
/// behind an atomically swapped pointer, and each write, serialised by a
/// lock, clones the storage, changes the clone and swaps it in.
///
/// Clones of a handle share its storage. What a read returns depends on
/// what every clone has written before it, possibly from other threads, so
/// the contracts do not say which entries it sees.
#[verifier::reject_recursive_types(S)]
pub struct CowStorage<S> {
    inner: Arc<Inner<S>>,
}

impl<S> Clone for CowStorage<S> {
    fn clone(&self) -> (c: Self) {
        CowStorage { inner: Arc::clone(&self.inner) }
    }
}

impl<S: Default> Default for CowStorage<S> {
    fn default() -> (h: Self) {
        CowStorage::new(S::default())
    }
}

impl<S> CowStorage<S> {
    /// A handle on a new cell that holds `storage`.
    pub fn new(storage: S) -> (h: Self) {
        CowStorage {
            inner: Arc::new(Inner { data: arc_swap_from(Arc::new(storage)), writers: RwLock::new((), Ghost(AnyState)) }),
        }
    }

    /// The storage at this moment.
    fn load(&self) -> Arc<S> {
        arc_swap_load_full(&self.inner.data)
    }

    /// A clone of the storage at this moment.
    fn copy(&self) -> S
        where
            S: Clone,
    {
        let snap = self.load();
        (*snap).clone()
    }

    /// Makes `storage` the current storage.
    fn store(&self, storage: S) {
        arc_swap_store(&self.inner.data, Arc::new(storage))
    }
}

impl<S> HandleBulkRead<S> for CowStorage<S> {
    open spec fn bulk_infallible() -> bool {
        true
    }

    fn with_read<F, R>(&self, f: F) -> (r: Result<R, HandleError>)
        where
            F: FnOnce(&S) -> R,
    {
        let snap = self.load();
        let s: &S = &*snap;
        let x = f(s);
        assert(f.ensures((s,), x));
        assert(super::utils::output_on_ref(f, x));
        Ok(x)
    }
}

impl<S: Clone> HandleBulkWrite<S> for CowStorage<S> {
    open spec fn bulk_write_infallible() -> bool {
        true
    }

    fn with_write<F, R>(&self, f: F) -> (r: Result<R, HandleError>)
        where
            F: FnOnce(&mut S) -> R,
    {
        let (unit, w) = self.inner.writers.acquire_write();
        let mut s = self.copy();
        let x = f(&mut s);
        assert(crate::collections::storage::utils::output_on_mut(f, x));
        self.store(s);
        w.release_write(unit);
        Ok(x)
    }
}

// ----- Keyed storage -----
impl<S: KeyedStorageRead<K, V>, K, V> KeyedHandleRead<K, V> for CowStorage<S> {
    open spec fn handle_ok() -> bool {
        S::infallible()
    }

    fn get(&self, key: &K) -> (r: Result<Option<V>, HandleError>)
        where
            V: Clone,
    {
        let snap = self.load();
        let r = match (&*snap).get(key) {
            Ok(Some(v)) => Ok(Some(v.clone())),
            Ok(None) => Ok(None),
            Err(e) => Err(HandleError::Storage(e)),
        };
        r
    }

    fn with_ref<F, R>(&self, key: &K, f: F) -> (r: Result<Option<R>, HandleError>)
        where
            F: FnOnce(&V) -> R,
    {
        let snap = self.load();
        let r = match (&*snap).get(key) {
            Ok(Some(v)) => {
                let x = f(v);
                assert(f.ensures((v,), x));
                assert(super::utils::output_on_ref(f, x));
                Ok(Some(x))
            },
            Ok(None) => Ok(None),
            Err(e) => Err(HandleError::Storage(e)),
        };
        r
    }

    fn for_each<F: Fn((&K, &V))>(&self, f: F) -> (r: Result<(), HandleError>) {
        let snap = self.load();
        (&*snap).for_each(f);
        Ok(())
    }

    fn try_for_each<B, F: Fn((&K, &V)) -> ControlFlow<B>>(&self, f: F) -> (r: Result<ControlFlow<B>, HandleError>) {
        let snap = self.load();
        let c = (&*snap).try_for_each(f);
        Ok(c)
    }

    fn fold<A, F: Fn(A, (&K, &V)) -> A>(&self, init: A, f: F) -> (r: Result<A, HandleError>) {
        let snap = self.load();
        let a = (&*snap).fold(init, f);
        Ok(a)
    }

    fn map<R, F: Fn((&K, &V)) -> R>(&self, f: F) -> (r: Result<Vec<R>, HandleError>) {
        let snap = self.load();
        let xs = (&*snap).map(f);
        Ok(xs)
    }

    fn contains_key(&self, key: &K) -> (r: Result<bool, HandleError>) {
        let snap = self.load();
        let r = (&*snap).contains_key(key);
        super::utils::storage_err(r)
    }

    fn len(&self) -> (r: Result<usize, HandleError>) {
        let snap = self.load();
        let r = KeyedStorageRead::len(&*snap);
        super::utils::storage_err(r)
    }

    fn entries(&self) -> (r: Result<Vec<(K, V)>, HandleError>)
        where
            K: Clone,
            V: Clone,
    {
        let snap = self.load();
        let r = (&*snap).entries();
        super::utils::storage_err(r)
    }

    fn keys(&self) -> (r: Result<Vec<K>, HandleError>)
        where
            K: Clone,
    {
        let snap = self.load();
        let r = (&*snap).keys();
        super::utils::storage_err(r)
    }

    fn values(&self) -> (r: Result<Vec<V>, HandleError>)
        where
            V: Clone,
    {
        let snap = self.load();
        let r = (&*snap).values();
        super::utils::storage_err(r)
    }
}

impl<S: KeyedStorageWrite<K, V> + Clone, K, V> KeyedHandleWrite<K, V> for CowStorage<S> {
    fn insert(&self, key: K, value: V) -> (r: Result<Option<V>, HandleError>) {
        let (unit, w) = self.inner.writers.acquire_write();
        let mut s = self.copy();
        let r = KeyedStorageWrite::insert(&mut s, key, value);
        self.store(s);
        w.release_write(unit);
        super::utils::storage_err(r)
    }

    fn try_insert(&self, key: K, value: V) -> (r: Result<V, HandleError>)
        where
            V: Clone,
    {
        let (unit, w) = self.inner.writers.acquire_write();
        let mut s = self.copy();
        let r = match s.try_insert(key, value) {
            Ok(v) => Ok(v.clone()),
            Err(e) => Err(HandleError::Storage(e)),
        };
        self.store(s);
        w.release_write(unit);
        r
    }

    fn try_insert_with<F>(&self, key: K, value: F) -> (r: Result<V, HandleError>)
        where
            V: Clone,
            F: FnOnce() -> Result<V, StorageError>,
    {
        let (unit, w) = self.inner.writers.acquire_write();
        let mut s = self.copy();
        let r = match s.try_insert_with(key, value) {
            Ok(v) => Ok(v.clone()),
            Err(e) => Err(HandleError::Storage(e)),
        };
        self.store(s);
        w.release_write(unit);
        r
    }

    fn with_mut<F, R>(&self, key: &K, f: F) -> (r: Result<Option<R>, HandleError>)
        where
            F: FnOnce(&mut V) -> R,
    {
        let (unit, w) = self.inner.writers.acquire_write();
        let mut s = self.copy();
        let r = match s.get_mut(key) {
            Ok(Some(v)) => Ok(Some(f(v))),
            Ok(None) => Ok(None),
            Err(e) => Err(HandleError::Storage(e)),
        };
        self.store(s);
        w.release_write(unit);
        r
    }

    fn for_each_mut<F: Fn((&K, &mut V))>(&self, f: F) -> (r: Result<(), HandleError>) {
        let (unit, w) = self.inner.writers.acquire_write();
        let mut s = self.copy();
        s.for_each_mut(f);
        self.store(s);
        w.release_write(unit);
        Ok(())
    }

    fn try_for_each_mut<B, F: Fn((&K, &mut V)) -> ControlFlow<B>>(&self, f: F) -> (r: Result<ControlFlow<B>, HandleError>) {
        let (unit, w) = self.inner.writers.acquire_write();
        let mut s = self.copy();
        let c = s.try_for_each_mut(f);
        self.store(s);
        w.release_write(unit);
        Ok(c)
    }

    fn fold_mut<A, F: Fn(A, (&K, &mut V)) -> A>(&self, init: A, f: F) -> (r: Result<A, HandleError>) {
        let (unit, w) = self.inner.writers.acquire_write();
        let mut s = self.copy();
        let a = s.fold_mut(init, f);
        self.store(s);
        w.release_write(unit);
        Ok(a)
    }

    fn map_mut<R, F: Fn((&K, &mut V)) -> R>(&self, f: F) -> (r: Result<Vec<R>, HandleError>) {
        let (unit, w) = self.inner.writers.acquire_write();
        let mut s = self.copy();
        let xs = s.map_mut(f);
        self.store(s);
        w.release_write(unit);
        Ok(xs)
    }

    fn remove(&self, key: &K) -> (r: Result<Option<V>, HandleError>) {
        let (unit, w) = self.inner.writers.acquire_write();
        let mut s = self.copy();
        let r = KeyedStorageWrite::remove(&mut s, key);
        self.store(s);
        w.release_write(unit);
        super::utils::storage_err(r)
    }

    fn clear(&self) -> (r: Result<(), HandleError>) {
        let (unit, w) = self.inner.writers.acquire_write();
        let mut s = self.copy();
        let r = KeyedStorageWrite::clear(&mut s);
        self.store(s);
        w.release_write(unit);
        super::utils::storage_err(r)
    }

    fn retain<F>(&self, f: F) -> (r: Result<(), HandleError>)
        where
            F: Fn(&K, &mut V) -> bool,
    {
        let (unit, w) = self.inner.writers.acquire_write();
        let mut s = self.copy();
        let r = KeyedStorageWrite::retain(&mut s, f);
        self.store(s);
        w.release_write(unit);
        super::utils::storage_err(r)
    }

    fn drain(&self) -> (r: Result<Vec<(K, V)>, HandleError>) {
        let (unit, w) = self.inner.writers.acquire_write();
        let mut s = self.copy();
        let r = KeyedStorageWrite::drain(&mut s);
        self.store(s);
        w.release_write(unit);
        super::utils::storage_err(r)
    }

    fn extend(&self, entries: Vec<(K, V)>) -> (r: Result<(), HandleError>) {
        let (unit, w) = self.inner.writers.acquire_write();
        let mut s = self.copy();
        let r = KeyedStorageWrite::extend(&mut s, entries);
        self.store(s);
        w.release_write(unit);
        super::utils::storage_err(r)
    }
}

impl<S: KeyedStorage<K, V> + Clone, K, V> KeyedHandle<K, V> for CowStorage<S> {
    type Storage = S;

    fn new(storage: S) -> Self {
        CowStorage::new(storage)
    }

    fn with_capacity(capacity: usize) -> Self {
        CowStorage::new(S::with_capacity(capacity))
    }

    fn from_iter(entries: Vec<(K, V)>) -> Self {
        CowStorage::new(S::from_iter(entries))
    }

    fn get_or_insert_with<F>(&self, key: K, f: F) -> (r: Result<V, HandleError>)
        where
            V: Clone,
            F: FnOnce() -> V,
    {
        let (unit, w) = self.inner.writers.acquire_write();
        let mut s = self.copy();
        let r = match s.get_or_insert_with(key, f) {
            Ok(v) => Ok(v.clone()),
            Err(e) => Err(HandleError::Storage(e)),
        };
        self.store(s);
        w.release_write(unit);
        r
    }

    fn get_or_try_insert_with<F>(&self, key: K, f: F) -> (r: Result<V, HandleError>)
        where
            V: Clone,
            F: FnOnce() -> Result<V, StorageError>,
    {
        let (unit, w) = self.inner.writers.acquire_write();
        let mut s = self.copy();
        let r = match s.get_or_try_insert_with(key, f) {
            Ok(v) => Ok(v.clone()),
            Err(e) => Err(HandleError::Storage(e)),
        };
        self.store(s);
        w.release_write(unit);
        r
    }
}


// ----- Indexed storage -----
impl<S: IndexedStorageRead<V>, V> IndexedHandleRead<V> for CowStorage<S> {
    open spec fn handle_ok() -> bool {
        S::infallible()
    }

    fn get(&self, key: &usize) -> (r: Result<Option<V>, HandleError>)
        where
            V: Clone,
    {
        let snap = self.load();
        let r = match IndexedStorageRead::get(&*snap, key) {
            Ok(Some(v)) => Ok(Some(v.clone())),
            Ok(None) => Ok(None),
            Err(e) => Err(HandleError::Storage(e)),
        };
        r
    }

    fn with_ref<F, R>(&self, key: &usize, f: F) -> (r: Result<Option<R>, HandleError>)
        where
            F: FnOnce(&V) -> R,
    {
        let snap = self.load();
        let r = match IndexedStorageRead::get(&*snap, key) {
            Ok(Some(v)) => {
                let x = f(v);
                assert(f.ensures((v,), x));
                assert(super::utils::output_on_ref(f, x));
                Ok(Some(x))
            },
            Ok(None) => Ok(None),
            Err(e) => Err(HandleError::Storage(e)),
        };
        r
    }

    fn for_each<F: Fn((usize, &V))>(&self, f: F) -> (r: Result<(), HandleError>) {
        let snap = self.load();
        IndexedStorageRead::for_each(&*snap, f);
        Ok(())
    }

    fn try_for_each<B, F: Fn((usize, &V)) -> ControlFlow<B>>(&self, f: F) -> (r: Result<ControlFlow<B>, HandleError>) {
        let snap = self.load();
        let c = IndexedStorageRead::try_for_each(&*snap, f);
        Ok(c)
    }

    fn fold<A, F: Fn(A, (usize, &V)) -> A>(&self, init: A, f: F) -> (r: Result<A, HandleError>) {
        let snap = self.load();
        let a = IndexedStorageRead::fold(&*snap, init, f);
        Ok(a)
    }

    fn map<R, F: Fn((usize, &V)) -> R>(&self, f: F) -> (r: Result<Vec<R>, HandleError>) {
        let snap = self.load();
        let xs = IndexedStorageRead::map(&*snap, f);
        Ok(xs)
    }

    fn contains_key(&self, key: &usize) -> (r: Result<bool, HandleError>) {
        let snap = self.load();
        let r = IndexedStorageRead::contains_key(&*snap, key);
        super::utils::storage_err(r)
    }

    fn len(&self) -> (r: Result<usize, HandleError>) {
        let snap = self.load();
        let r = IndexedStorageRead::len(&*snap);
        super::utils::storage_err(r)
    }

    fn entries(&self) -> (r: Result<Vec<(usize, V)>, HandleError>)
        where
            V: Clone,
    {
        let snap = self.load();
        let r = IndexedStorageRead::entries(&*snap);
        super::utils::storage_err(r)
    }

    fn keys(&self) -> (r: Result<Vec<usize>, HandleError>) {
        let snap = self.load();
        let r = IndexedStorageRead::keys(&*snap);
        super::utils::storage_err(r)
    }

    fn values(&self) -> (r: Result<Vec<V>, HandleError>)
        where
            V: Clone,
    {
        let snap = self.load();
        let r = IndexedStorageRead::values(&*snap);
        super::utils::storage_err(r)
    }
}

impl<S: IndexedStorageWrite<V> + Clone, V> IndexedHandleWrite<V> for CowStorage<S> {
    fn push(&self, value: V) -> (r: Result<usize, HandleError>) {
        let (unit, w) = self.inner.writers.acquire_write();
        let mut s = self.copy();
        let r = IndexedStorageWrite::push(&mut s, value);
        self.store(s);
        w.release_write(unit);
        super::utils::storage_err(r)
    }

    fn insert(&self, index: usize, value: V) -> (r: Result<Option<V>, HandleError>) {
        let (unit, w) = self.inner.writers.acquire_write();
        let mut s = self.copy();
        let r = IndexedStorageWrite::insert(&mut s, index, value);
        self.store(s);
        w.release_write(unit);
        super::utils::storage_err(r)
    }

    fn try_insert(&self, index: usize, value: V) -> (r: Result<V, HandleError>)
        where
            V: Clone,
    {
        let (unit, w) = self.inner.writers.acquire_write();
        let mut s = self.copy();
        let r = match IndexedStorageWrite::try_insert(&mut s, index, value) {
            Ok(v) => Ok(v.clone()),
            Err(e) => Err(HandleError::Storage(e)),
        };
        self.store(s);
        w.release_write(unit);
        r
    }

    fn try_insert_with<F>(&self, index: usize, value: F) -> (r: Result<V, HandleError>)
        where
            V: Clone,
            F: FnOnce() -> Result<V, StorageError>,
    {
        let (unit, w) = self.inner.writers.acquire_write();
        let mut s = self.copy();
        let r = match IndexedStorageWrite::try_insert_with(&mut s, index, value) {
            Ok(v) => Ok(v.clone()),
            Err(e) => Err(HandleError::Storage(e)),
        };
        self.store(s);
        w.release_write(unit);
        r
    }

    fn with_mut<F, R>(&self, key: &usize, f: F) -> (r: Result<Option<R>, HandleError>)
        where
            F: FnOnce(&mut V) -> R,
    {
        let (unit, w) = self.inner.writers.acquire_write();
        let mut s = self.copy();
        let r = match IndexedStorageWrite::get_mut(&mut s, key) {
            Ok(Some(v)) => Ok(Some(f(v))),
            Ok(None) => Ok(None),
            Err(e) => Err(HandleError::Storage(e)),
        };
        self.store(s);
        w.release_write(unit);
        r
    }

    fn for_each_mut<F: Fn((usize, &mut V))>(&self, f: F) -> (r: Result<(), HandleError>) {
        let (unit, w) = self.inner.writers.acquire_write();
        let mut s = self.copy();
        IndexedStorageWrite::for_each_mut(&mut s, f);
        self.store(s);
        w.release_write(unit);
        Ok(())
    }

    fn try_for_each_mut<B, F: Fn((usize, &mut V)) -> ControlFlow<B>>(&self, f: F) -> (r: Result<ControlFlow<B>, HandleError>) {
        let (unit, w) = self.inner.writers.acquire_write();
        let mut s = self.copy();
        let c = IndexedStorageWrite::try_for_each_mut(&mut s, f);
        self.store(s);
        w.release_write(unit);
        Ok(c)
    }

    fn fold_mut<A, F: Fn(A, (usize, &mut V)) -> A>(&self, init: A, f: F) -> (r: Result<A, HandleError>) {
        let (unit, w) = self.inner.writers.acquire_write();
        let mut s = self.copy();
        let a = IndexedStorageWrite::fold_mut(&mut s, init, f);
        self.store(s);
        w.release_write(unit);
        Ok(a)
    }

    fn map_mut<R, F: Fn((usize, &mut V)) -> R>(&self, f: F) -> (r: Result<Vec<R>, HandleError>) {
        let (unit, w) = self.inner.writers.acquire_write();
        let mut s = self.copy();
        let xs = IndexedStorageWrite::map_mut(&mut s, f);
        self.store(s);
        w.release_write(unit);
        Ok(xs)
    }

    fn remove(&self, key: &usize) -> (r: Result<Option<V>, HandleError>) {
        let (unit, w) = self.inner.writers.acquire_write();
        let mut s = self.copy();
        let r = IndexedStorageWrite::remove(&mut s, key);
        self.store(s);
        w.release_write(unit);
        super::utils::storage_err(r)
    }

    fn clear(&self) -> (r: Result<(), HandleError>) {
        let (unit, w) = self.inner.writers.acquire_write();
        let mut s = self.copy();
        let r = IndexedStorageWrite::clear(&mut s);
        self.store(s);
        w.release_write(unit);
        super::utils::storage_err(r)
    }

    fn retain<F: Fn((usize, &V)) -> bool>(&self, f: F) -> (r: Result<(), HandleError>) {
        let (unit, w) = self.inner.writers.acquire_write();
        let mut s = self.copy();
        let r = IndexedStorageWrite::retain(&mut s, f);
        self.store(s);
        w.release_write(unit);
        super::utils::storage_err(r)
    }

    fn drain(&self) -> (r: Result<Vec<(usize, V)>, HandleError>) {
        let (unit, w) = self.inner.writers.acquire_write();
        let mut s = self.copy();
        let r = super::rwlock_handle::take_all(&mut s);
        self.store(s);
        w.release_write(unit);
        super::utils::storage_err(r)
    }

    fn extend(&self, values: Vec<V>) -> (r: Result<Vec<usize>, HandleError>) {
        let (unit, w) = self.inner.writers.acquire_write();
        let mut s = self.copy();
        let r = IndexedStorageWrite::extend(&mut s, values);
        self.store(s);
        w.release_write(unit);
        super::utils::storage_err(r)
    }
}

impl<S: IndexedStorage<V> + Clone, V> IndexedHandle<V> for CowStorage<S> {
    type Storage = S;

    fn new(storage: S) -> Self {
        CowStorage::new(storage)
    }

    fn with_capacity(capacity: usize) -> Self {
        CowStorage::new(S::with_capacity(capacity))
    }

    fn from_iter(values: Vec<V>) -> Self {
        CowStorage::new(S::from_iter(values))
    }

    fn get_or_insert_with<F>(&self, key: usize, f: F) -> (r: Result<V, HandleError>)
        where
            V: Clone,
            F: FnOnce() -> V,
    {
        let (unit, w) = self.inner.writers.acquire_write();
        let mut s = self.copy();
        let r = match IndexedStorage::get_or_insert_with(&mut s, key, f) {
            Ok(v) => Ok(v.clone()),
            Err(e) => Err(HandleError::Storage(e)),
        };
        self.store(s);
        w.release_write(unit);
        r
    }

    fn get_or_try_insert_with<F>(&self, key: usize, f: F) -> (r: Result<V, HandleError>)
        where
            V: Clone,
            F: FnOnce() -> Result<V, StorageError>,
    {
        let (unit, w) = self.inner.writers.acquire_write();
        let mut s = self.copy();
        let r = match IndexedStorage::get_or_try_insert_with(&mut s, key, f) {
            Ok(v) => Ok(v.clone()),
            Err(e) => Err(HandleError::Storage(e)),
        };
        self.store(s);
        w.release_write(unit);
        r
    }
}

// ----- Ordered storage -----
impl<S: OrderedStorageRead<K, V>, K, V> OrderedHandleRead<K, V> for CowStorage<S> {
    open spec fn handle_ok() -> bool {
        S::infallible()
    }

    fn get(&self, key: &K) -> (r: Result<Option<V>, HandleError>)
        where
            V: Clone,
    {
        let snap = self.load();
        let r = match (&*snap).get(key) {
            Ok(Some(v)) => Ok(Some(v.clone())),
            Ok(None) => Ok(None),
            Err(e) => Err(HandleError::Storage(e)),
        };
        r
    }

    fn with_ref<F, R>(&self, key: &K, f: F) -> (r: Result<Option<R>, HandleError>)
        where
            F: FnOnce(&V) -> R,
    {
        let snap = self.load();
        let r = match (&*snap).get(key) {
            Ok(Some(v)) => {
                let x = f(v);
                assert(f.ensures((v,), x));
                assert(super::utils::output_on_ref(f, x));
                Ok(Some(x))
            },
            Ok(None) => Ok(None),
            Err(e) => Err(HandleError::Storage(e)),
        };
        r
    }

    fn for_each<F: Fn((&K, &V))>(&self, f: F) -> (r: Result<(), HandleError>) {
        let snap = self.load();
        (&*snap).for_each(f);
        Ok(())
    }

    fn try_for_each<B, F: Fn((&K, &V)) -> ControlFlow<B>>(&self, f: F) -> (r: Result<ControlFlow<B>, HandleError>) {
        let snap = self.load();
        let c = (&*snap).try_for_each(f);
        Ok(c)
    }

    fn fold<A, F: Fn(A, (&K, &V)) -> A>(&self, init: A, f: F) -> (r: Result<A, HandleError>) {
        let snap = self.load();
        let a = (&*snap).fold(init, f);
        Ok(a)
    }

    fn map<R, F: Fn((&K, &V)) -> R>(&self, f: F) -> (r: Result<Vec<R>, HandleError>) {
        let snap = self.load();
        let xs = (&*snap).map(f);
        Ok(xs)
    }

    fn contains_key(&self, key: &K) -> (r: Result<bool, HandleError>) {
        let snap = self.load();
        let r = (&*snap).contains_key(key);
        super::utils::storage_err(r)
    }

    fn len(&self) -> (r: Result<usize, HandleError>) {
        let snap = self.load();
        let r = OrderedStorageRead::len(&*snap);
        super::utils::storage_err(r)
    }

    fn entries(&self) -> (r: Result<Vec<(K, V)>, HandleError>)
        where
            K: Clone,
            V: Clone,
    {
        let snap = self.load();
        let r = (&*snap).entries();
        super::utils::storage_err(r)
    }

    fn keys(&self) -> (r: Result<Vec<K>, HandleError>)
        where
            K: Clone,
    {
        let snap = self.load();
        let r = (&*snap).keys();
        super::utils::storage_err(r)
    }

    fn values(&self) -> (r: Result<Vec<V>, HandleError>)
        where
            V: Clone,
    {
        let snap = self.load();
        let r = (&*snap).values();
        super::utils::storage_err(r)
    }
}

impl<S: OrderedStorageWrite<K, V> + Clone, K, V> OrderedHandleWrite<K, V> for CowStorage<S> {
    fn insert(&self, key: K, value: V) -> (r: Result<Option<V>, HandleError>) {
        let (unit, w) = self.inner.writers.acquire_write();
        let mut s = self.copy();
        let r = OrderedStorageWrite::insert(&mut s, key, value);
        self.store(s);
        w.release_write(unit);
        super::utils::storage_err(r)
    }

    fn try_insert(&self, key: K, value: V) -> (r: Result<V, HandleError>)
        where
            V: Clone,
    {
        let (unit, w) = self.inner.writers.acquire_write();
        let mut s = self.copy();
        let r = match s.try_insert(key, value) {
            Ok(v) => Ok(v.clone()),
            Err(e) => Err(HandleError::Storage(e)),
        };
        self.store(s);
        w.release_write(unit);
        r
    }

    fn try_insert_with<F>(&self, key: K, value: F) -> (r: Result<V, HandleError>)
        where
            V: Clone,
            F: FnOnce() -> Result<V, StorageError>,
    {
        let (unit, w) = self.inner.writers.acquire_write();
        let mut s = self.copy();
        let r = match s.try_insert_with(key, value) {
            Ok(v) => Ok(v.clone()),
            Err(e) => Err(HandleError::Storage(e)),
        };
        self.store(s);
        w.release_write(unit);
        r
    }

    fn with_mut<F, R>(&self, key: &K, f: F) -> (r: Result<Option<R>, HandleError>)
        where
            F: FnOnce(&mut V) -> R,
    {
        let (unit, w) = self.inner.writers.acquire_write();
        let mut s = self.copy();
        let r = match s.get_mut(key) {
            Ok(Some(v)) => Ok(Some(f(v))),
            Ok(None) => Ok(None),
            Err(e) => Err(HandleError::Storage(e)),
        };
        self.store(s);
        w.release_write(unit);
        r
    }

    fn for_each_mut<F: Fn((&K, &mut V))>(&self, f: F) -> (r: Result<(), HandleError>) {
        let (unit, w) = self.inner.writers.acquire_write();
        let mut s = self.copy();
        s.for_each_mut(f);
        self.store(s);
        w.release_write(unit);
        Ok(())
    }

    fn try_for_each_mut<B, F: Fn((&K, &mut V)) -> ControlFlow<B>>(&self, f: F) -> (r: Result<ControlFlow<B>, HandleError>) {
        let (unit, w) = self.inner.writers.acquire_write();
        let mut s = self.copy();
        let c = s.try_for_each_mut(f);
        self.store(s);
        w.release_write(unit);
        Ok(c)
    }

    fn fold_mut<A, F: Fn(A, (&K, &mut V)) -> A>(&self, init: A, f: F) -> (r: Result<A, HandleError>) {
        let (unit, w) = self.inner.writers.acquire_write();
        let mut s = self.copy();
        let a = s.fold_mut(init, f);
        self.store(s);
        w.release_write(unit);
        Ok(a)
    }

    fn map_mut<R, F: Fn((&K, &mut V)) -> R>(&self, f: F) -> (r: Result<Vec<R>, HandleError>) {
        let (unit, w) = self.inner.writers.acquire_write();
        let mut s = self.copy();
        let xs = s.map_mut(f);
        self.store(s);
        w.release_write(unit);
        Ok(xs)
    }

    fn remove(&self, key: &K) -> (r: Result<Option<V>, HandleError>) {
        let (unit, w) = self.inner.writers.acquire_write();
        let mut s = self.copy();
        let r = OrderedStorageWrite::remove(&mut s, key);
        self.store(s);
        w.release_write(unit);
        super::utils::storage_err(r)
    }

    fn clear(&self) -> (r: Result<(), HandleError>) {
        let (unit, w) = self.inner.writers.acquire_write();
        let mut s = self.copy();
        let r = OrderedStorageWrite::clear(&mut s);
        self.store(s);
        w.release_write(unit);
        super::utils::storage_err(r)
    }

    fn retain<F>(&self, f: F) -> (r: Result<(), HandleError>)
        where
            F: Fn(&K, &mut V) -> bool,
    {
        let (unit, w) = self.inner.writers.acquire_write();
        let mut s = self.copy();
        let r = OrderedStorageWrite::retain(&mut s, f);
        self.store(s);
        w.release_write(unit);
        super::utils::storage_err(r)
    }

    fn drain(&self) -> (r: Result<Vec<(K, V)>, HandleError>) {
        let (unit, w) = self.inner.writers.acquire_write();
        let mut s = self.copy();
        let r = OrderedStorageWrite::drain(&mut s);
        self.store(s);
        w.release_write(unit);
        super::utils::storage_err(r)
    }

    fn extend(&self, entries: Vec<(K, V)>) -> (r: Result<(), HandleError>) {
        let (unit, w) = self.inner.writers.acquire_write();
        let mut s = self.copy();
        let r = OrderedStorageWrite::extend(&mut s, entries);
        self.store(s);
        w.release_write(unit);
        super::utils::storage_err(r)
    }
}

impl<S: OrderedStorage<K, V> + Clone, K, V> OrderedHandle<K, V> for CowStorage<S> {
    type Storage = S;

    fn new(storage: S) -> Self {
        CowStorage::new(storage)
    }

    fn with_capacity(capacity: usize) -> Self {
        CowStorage::new(S::with_capacity(capacity))
    }

    fn from_iter(entries: Vec<(K, V)>) -> Self {
        CowStorage::new(S::from_iter(entries))
    }

    fn get_or_insert_with<F>(&self, key: K, f: F) -> (r: Result<V, HandleError>)
        where
            V: Clone,
            F: FnOnce() -> V,
    {
        let (unit, w) = self.inner.writers.acquire_write();
        let mut s = self.copy();
        let r = match s.get_or_insert_with(key, f) {
            Ok(v) => Ok(v.clone()),
            Err(e) => Err(HandleError::Storage(e)),
        };
        self.store(s);
        w.release_write(unit);
        r
    }

    fn get_or_try_insert_with<F>(&self, key: K, f: F) -> (r: Result<V, HandleError>)
        where
            V: Clone,
            F: FnOnce() -> Result<V, StorageError>,
    {
        let (unit, w) = self.inner.writers.acquire_write();
        let mut s = self.copy();
        let r = match s.get_or_try_insert_with(key, f) {
            Ok(v) => Ok(v.clone()),
            Err(e) => Err(HandleError::Storage(e)),
        };
        self.store(s);
        w.release_write(unit);
        r
    }
}

} // verus!
