//! A shareable handle that keeps one storage behind a reader-writer lock.
use super::utils::indexed::{numbered, IndexedHandle, IndexedHandleRead, IndexedHandleWrite, IndexedStorage, IndexedStorageRead, IndexedStorageWrite};
use super::utils::keyed::{KeyedHandle, KeyedHandleRead, KeyedHandleWrite, KeyedStorage, KeyedStorageRead, KeyedStorageWrite};
use super::utils::ordered::{OrderedHandle, OrderedHandleRead, OrderedHandleWrite, OrderedStorage, OrderedStorageRead, OrderedStorageWrite};
use super::utils::{HandleBulkRead, HandleBulkWrite, HandleError, StorageError};
use std::ops::ControlFlow;
use std::sync::Arc;
use vstd::prelude::*;
use vstd::rwlock::{RwLock, RwLockPredicate};

verus! {

/// The lock admits every state of the storage.
pub struct AnyState;

impl<S> RwLockPredicate<S> for AnyState {
    open spec fn inv(self, v: S) -> bool {
        true
    }
}

/// A thread-safe storage handle backed by a reader-writer lock.
///
/// Writes mutate the one shared storage in place under the write lock, and
/// reads take the shared read lock. Clones of a handle share its storage.
pub struct RwLockStorage<S> {
    inner: Arc<RwLock<S, AnyState>>,
}

impl<S> Clone for RwLockStorage<S> {
    fn clone(&self) -> (c: Self) {
        RwLockStorage { inner: Arc::clone(&self.inner) }
    }
}

impl<S: Default> Default for RwLockStorage<S> {
    fn default() -> (h: Self) {
        RwLockStorage::new(S::default())
    }
}

impl<S> RwLockStorage<S> {
    /// A handle on a new lock that holds `storage`.
    pub fn new(storage: S) -> (h: Self) {
        RwLockStorage { inner: Arc::new(RwLock::new(storage, Ghost(AnyState))) }
    }
}

impl<S> HandleBulkRead<S> for RwLockStorage<S> {
    open spec fn bulk_infallible() -> bool {
        true
    }

    fn with_read<F, R>(&self, f: F) -> (r: Result<R, HandleError>)
        where
            F: FnOnce(&S) -> R,
    {
        let h = self.inner.acquire_read();
        let s = h.borrow();
        let x = f(s);
        assert(f.ensures((s,), x));
        assert(super::utils::output_on_ref(f, x));
        h.release_read();
        Ok(x)
    }
}

impl<S> HandleBulkWrite<S> for RwLockStorage<S> {
    open spec fn bulk_write_infallible() -> bool {
        true
    }

    fn with_write<F, R>(&self, f: F) -> (r: Result<R, HandleError>)
        where
            F: FnOnce(&mut S) -> R,
    {
        let (mut s, h) = self.inner.acquire_write();
        let x = f(&mut s);
        assert(crate::collections::storage::utils::output_on_mut(f, x));
        h.release_write(s);
        Ok(x)
    }
}

// ----- Keyed storage -----
impl<S: KeyedStorageRead<K, V>, K, V> KeyedHandleRead<K, V> for RwLockStorage<S> {
    open spec fn handle_ok() -> bool {
        S::infallible()
    }

    fn get(&self, key: &K) -> (r: Result<Option<V>, HandleError>)
        where
            V: Clone,
    {
        let h = self.inner.acquire_read();
        let r = match h.borrow().get(key) {
            Ok(Some(v)) => Ok(Some(v.clone())),
            Ok(None) => Ok(None),
            Err(e) => Err(HandleError::Storage(e)),
        };
        h.release_read();
        r
    }

    fn with_ref<F, R>(&self, key: &K, f: F) -> (r: Result<Option<R>, HandleError>)
        where
            F: FnOnce(&V) -> R,
    {
        let h = self.inner.acquire_read();
        let r = match h.borrow().get(key) {
            Ok(Some(v)) => {
                let x = f(v);
                assert(f.ensures((v,), x));
                assert(super::utils::output_on_ref(f, x));
                Ok(Some(x))
            },
            Ok(None) => Ok(None),
            Err(e) => Err(HandleError::Storage(e)),
        };
        h.release_read();
        r
    }

    fn for_each<F: Fn((&K, &V))>(&self, f: F) -> (r: Result<(), HandleError>) {
        let h = self.inner.acquire_read();
        h.borrow().for_each(f);
        h.release_read();
        Ok(())
    }

    fn try_for_each<B, F: Fn((&K, &V)) -> ControlFlow<B>>(&self, f: F) -> (r: Result<ControlFlow<B>, HandleError>) {
        let h = self.inner.acquire_read();
        let c = h.borrow().try_for_each(f);
        h.release_read();
        Ok(c)
    }

    fn fold<A, F: Fn(A, (&K, &V)) -> A>(&self, init: A, f: F) -> (r: Result<A, HandleError>) {
        let h = self.inner.acquire_read();
        let a = h.borrow().fold(init, f);
        h.release_read();
        Ok(a)
    }

    fn map<R, F: Fn((&K, &V)) -> R>(&self, f: F) -> (r: Result<Vec<R>, HandleError>) {
        let h = self.inner.acquire_read();
        let xs = h.borrow().map(f);
        h.release_read();
        Ok(xs)
    }

    fn contains_key(&self, key: &K) -> (r: Result<bool, HandleError>) {
        let h = self.inner.acquire_read();
        let r = h.borrow().contains_key(key);
        h.release_read();
        super::utils::storage_err(r)
    }

    fn len(&self) -> (r: Result<usize, HandleError>) {
        let h = self.inner.acquire_read();
        let r = KeyedStorageRead::len(h.borrow());
        h.release_read();
        super::utils::storage_err(r)
    }

    fn entries(&self) -> (r: Result<Vec<(K, V)>, HandleError>)
        where
            K: Clone,
            V: Clone,
    {
        let h = self.inner.acquire_read();
        let r = h.borrow().entries();
        h.release_read();
        super::utils::storage_err(r)
    }

    fn keys(&self) -> (r: Result<Vec<K>, HandleError>)
        where
            K: Clone,
    {
        let h = self.inner.acquire_read();
        let r = h.borrow().keys();
        h.release_read();
        super::utils::storage_err(r)
    }

    fn values(&self) -> (r: Result<Vec<V>, HandleError>)
        where
            V: Clone,
    {
        let h = self.inner.acquire_read();
        let r = h.borrow().values();
        h.release_read();
        super::utils::storage_err(r)
    }
}

impl<S: KeyedStorageWrite<K, V>, K, V> KeyedHandleWrite<K, V> for RwLockStorage<S> {
    fn insert(&self, key: K, value: V) -> (r: Result<Option<V>, HandleError>) {
        let (mut s, h) = self.inner.acquire_write();
        let r = KeyedStorageWrite::insert(&mut s, key, value);
        h.release_write(s);
        super::utils::storage_err(r)
    }

    fn try_insert(&self, key: K, value: V) -> (r: Result<V, HandleError>)
        where
            V: Clone,
    {
        let (mut s, h) = self.inner.acquire_write();
        let r = match s.try_insert(key, value) {
            Ok(v) => Ok(v.clone()),
            Err(e) => Err(HandleError::Storage(e)),
        };
        h.release_write(s);
        r
    }

    fn try_insert_with<F>(&self, key: K, value: F) -> (r: Result<V, HandleError>)
        where
            V: Clone,
            F: FnOnce() -> Result<V, StorageError>,
    {
        let (mut s, h) = self.inner.acquire_write();
        let r = match s.try_insert_with(key, value) {
            Ok(v) => Ok(v.clone()),
            Err(e) => Err(HandleError::Storage(e)),
        };
        h.release_write(s);
        r
    }

    fn with_mut<F, R>(&self, key: &K, f: F) -> (r: Result<Option<R>, HandleError>)
        where
            F: FnOnce(&mut V) -> R,
    {
        let (mut s, h) = self.inner.acquire_write();
        let r = match s.get_mut(key) {
            Ok(Some(v)) => Ok(Some(f(v))),
            Ok(None) => Ok(None),
            Err(e) => Err(HandleError::Storage(e)),
        };
        h.release_write(s);
        r
    }

    fn for_each_mut<F: Fn((&K, &mut V))>(&self, f: F) -> (r: Result<(), HandleError>) {
        let (mut s, h) = self.inner.acquire_write();
        s.for_each_mut(f);
        h.release_write(s);
        Ok(())
    }

    fn try_for_each_mut<B, F: Fn((&K, &mut V)) -> ControlFlow<B>>(&self, f: F) -> (r: Result<ControlFlow<B>, HandleError>) {
        let (mut s, h) = self.inner.acquire_write();
        let c = s.try_for_each_mut(f);
        h.release_write(s);
        Ok(c)
    }

    fn fold_mut<A, F: Fn(A, (&K, &mut V)) -> A>(&self, init: A, f: F) -> (r: Result<A, HandleError>) {
        let (mut s, h) = self.inner.acquire_write();
        let a = s.fold_mut(init, f);
        h.release_write(s);
        Ok(a)
    }

    fn map_mut<R, F: Fn((&K, &mut V)) -> R>(&self, f: F) -> (r: Result<Vec<R>, HandleError>) {
        let (mut s, h) = self.inner.acquire_write();
        let xs = s.map_mut(f);
        h.release_write(s);
        Ok(xs)
    }

    fn remove(&self, key: &K) -> (r: Result<Option<V>, HandleError>) {
        let (mut s, h) = self.inner.acquire_write();
        let r = KeyedStorageWrite::remove(&mut s, key);
        h.release_write(s);
        super::utils::storage_err(r)
    }

    fn clear(&self) -> (r: Result<(), HandleError>) {
        let (mut s, h) = self.inner.acquire_write();
        let r = KeyedStorageWrite::clear(&mut s);
        h.release_write(s);
        super::utils::storage_err(r)
    }

    fn retain<F>(&self, f: F) -> (r: Result<(), HandleError>)
        where
            F: Fn(&K, &mut V) -> bool,
    {
        let (mut s, h) = self.inner.acquire_write();
        let r = KeyedStorageWrite::retain(&mut s, f);
        h.release_write(s);
        super::utils::storage_err(r)
    }

    fn drain(&self) -> (r: Result<Vec<(K, V)>, HandleError>) {
        let (mut s, h) = self.inner.acquire_write();
        let r = KeyedStorageWrite::drain(&mut s);
        h.release_write(s);
        super::utils::storage_err(r)
    }

    fn extend(&self, entries: Vec<(K, V)>) -> (r: Result<(), HandleError>) {
        let (mut s, h) = self.inner.acquire_write();
        let r = KeyedStorageWrite::extend(&mut s, entries);
        h.release_write(s);
        super::utils::storage_err(r)
    }
}

impl<S: KeyedStorage<K, V>, K, V> KeyedHandle<K, V> for RwLockStorage<S> {
    type Storage = S;

    fn new(storage: S) -> Self {
        RwLockStorage::new(storage)
    }

    fn with_capacity(capacity: usize) -> Self {
        RwLockStorage::new(S::with_capacity(capacity))
    }

    fn from_iter(entries: Vec<(K, V)>) -> Self {
        RwLockStorage::new(S::from_iter(entries))
    }

    fn get_or_insert_with<F>(&self, key: K, f: F) -> (r: Result<V, HandleError>)
        where
            V: Clone,
            F: FnOnce() -> V,
    {
        let (mut s, h) = self.inner.acquire_write();
        let r = match s.get_or_insert_with(key, f) {
            Ok(v) => Ok(v.clone()),
            Err(e) => Err(HandleError::Storage(e)),
        };
        h.release_write(s);
        r
    }

    fn get_or_try_insert_with<F>(&self, key: K, f: F) -> (r: Result<V, HandleError>)
        where
            V: Clone,
            F: FnOnce() -> Result<V, StorageError>,
    {
        let (mut s, h) = self.inner.acquire_write();
        let r = match s.get_or_try_insert_with(key, f) {
            Ok(v) => Ok(v.clone()),
            Err(e) => Err(HandleError::Storage(e)),
        };
        h.release_write(s);
        r
    }
}


// ----- Indexed storage -----
/// Removes every value of `s`, last first, and returns them numbered from 0 in order.
pub(crate) fn take_all<S: IndexedStorageWrite<V>, V>(s: &mut S) -> (r: Result<Vec<(usize, V)>, StorageError>)
    ensures
        S::infallible() ==> (r matches Ok(es) && numbered(old(s).items(), es@) && final(s).items().len() == 0),
{
    proof { s.lemma_len_fits(); }
    let ghost orig = s.items();
    let n = match IndexedStorageRead::len(s) {
        Ok(n) => n,
        Err(e) => {
            return Err(e);
        },
    };
    let mut backwards: Vec<V> = Vec::new();
    let mut k: usize = n;
    while k > 0
        invariant
            k <= n,
            S::infallible() ==> n == orig.len(),
            S::infallible() ==> s.items() == orig.take(k as int),
            S::infallible() ==> backwards@.len() == n - k,
            S::infallible() ==> forall|j: int| 0 <= j < n - k ==> #[trigger] backwards@[j] == orig[n - 1 - j],
        decreases k,
    {
        k = k - 1;
        let ghost pre = backwards@;
        match IndexedStorageWrite::remove(s, &k) {
            Ok(Some(v)) => {
                backwards.push(v);
                proof {
                    if S::infallible() {
                        assert(orig.take(k + 1).remove(k as int) =~= orig.take(k as int));
                        assert forall|j: int| 0 <= j < n - k implies #[trigger] backwards@[j] == orig[n - 1 - j] by {
                            if j < n - k - 1 {
                                assert(backwards@[j] == pre[j]);
                            }
                        }
                    }
                }
            },
            Ok(None) => {},
            Err(e) => {
                return Err(e);
            },
        }
    }
    let mut out: Vec<(usize, V)> = Vec::new();
    let mut i: usize = 0;
    let m = backwards.len();
    while i < m
        invariant
            i <= m,
            backwards@.len() == m - i,
            out@.len() == i,
            S::infallible() ==> m == orig.len(),
            S::infallible() ==> forall|j: int| 0 <= j < m - i ==> #[trigger] backwards@[j] == orig[m - 1 - j],
            S::infallible() ==> forall|j: int| 0 <= j < i ==> #[trigger] out@[j] == (j as usize, orig[j]),
        decreases m - i,
    {
        let ghost pre = out@;
        match backwards.pop() {
            Some(v) => {
                out.push((i, v));
                proof {
                    if S::infallible() {
                        assert forall|j: int| 0 <= j < i + 1 implies #[trigger] out@[j] == (j as usize, orig[j]) by {
                            if j < i {
                                assert(out@[j] == pre[j]);
                            }
                        }
                    }
                }
                i = i + 1;
            },
            None => {},
        }
    }
    proof {
        if S::infallible() {
            assert(s.items() =~= orig.take(0));
        }
    }
    Ok(out)
}

impl<S: IndexedStorageRead<V>, V> IndexedHandleRead<V> for RwLockStorage<S> {
    open spec fn handle_ok() -> bool {
        S::infallible()
    }

    fn get(&self, key: &usize) -> (r: Result<Option<V>, HandleError>)
        where
            V: Clone,
    {
        let h = self.inner.acquire_read();
        let r = match IndexedStorageRead::get(h.borrow(), key) {
            Ok(Some(v)) => Ok(Some(v.clone())),
            Ok(None) => Ok(None),
            Err(e) => Err(HandleError::Storage(e)),
        };
        h.release_read();
        r
    }

    fn with_ref<F, R>(&self, key: &usize, f: F) -> (r: Result<Option<R>, HandleError>)
        where
            F: FnOnce(&V) -> R,
    {
        let h = self.inner.acquire_read();
        let r = match IndexedStorageRead::get(h.borrow(), key) {
            Ok(Some(v)) => {
                let x = f(v);
                assert(f.ensures((v,), x));
                assert(super::utils::output_on_ref(f, x));
                Ok(Some(x))
            },
            Ok(None) => Ok(None),
            Err(e) => Err(HandleError::Storage(e)),
        };
        h.release_read();
        r
    }

    fn for_each<F: Fn((usize, &V))>(&self, f: F) -> (r: Result<(), HandleError>) {
        let h = self.inner.acquire_read();
        IndexedStorageRead::for_each(h.borrow(), f);
        h.release_read();
        Ok(())
    }

    fn try_for_each<B, F: Fn((usize, &V)) -> ControlFlow<B>>(&self, f: F) -> (r: Result<ControlFlow<B>, HandleError>) {
        let h = self.inner.acquire_read();
        let c = IndexedStorageRead::try_for_each(h.borrow(), f);
        h.release_read();
        Ok(c)
    }

    fn fold<A, F: Fn(A, (usize, &V)) -> A>(&self, init: A, f: F) -> (r: Result<A, HandleError>) {
        let h = self.inner.acquire_read();
        let a = IndexedStorageRead::fold(h.borrow(), init, f);
        h.release_read();
        Ok(a)
    }

    fn map<R, F: Fn((usize, &V)) -> R>(&self, f: F) -> (r: Result<Vec<R>, HandleError>) {
        let h = self.inner.acquire_read();
        let xs = IndexedStorageRead::map(h.borrow(), f);
        h.release_read();
        Ok(xs)
    }

    fn contains_key(&self, key: &usize) -> (r: Result<bool, HandleError>) {
        let h = self.inner.acquire_read();
        let r = IndexedStorageRead::contains_key(h.borrow(), key);
        h.release_read();
        super::utils::storage_err(r)
    }

    fn len(&self) -> (r: Result<usize, HandleError>) {
        let h = self.inner.acquire_read();
        let r = IndexedStorageRead::len(h.borrow());
        h.release_read();
        super::utils::storage_err(r)
    }

    fn entries(&self) -> (r: Result<Vec<(usize, V)>, HandleError>)
        where
            V: Clone,
    {
        let h = self.inner.acquire_read();
        let r = IndexedStorageRead::entries(h.borrow());
        h.release_read();
        super::utils::storage_err(r)
    }

    fn keys(&self) -> (r: Result<Vec<usize>, HandleError>) {
        let h = self.inner.acquire_read();
        let r = IndexedStorageRead::keys(h.borrow());
        h.release_read();
        super::utils::storage_err(r)
    }

    fn values(&self) -> (r: Result<Vec<V>, HandleError>)
        where
            V: Clone,
    {
        let h = self.inner.acquire_read();
        let r = IndexedStorageRead::values(h.borrow());
        h.release_read();
        super::utils::storage_err(r)
    }
}

impl<S: IndexedStorageWrite<V>, V> IndexedHandleWrite<V> for RwLockStorage<S> {
    fn push(&self, value: V) -> (r: Result<usize, HandleError>) {
        let (mut s, h) = self.inner.acquire_write();
        let r = IndexedStorageWrite::push(&mut s, value);
        h.release_write(s);
        super::utils::storage_err(r)
    }

    fn insert(&self, index: usize, value: V) -> (r: Result<Option<V>, HandleError>) {
        let (mut s, h) = self.inner.acquire_write();
        let r = IndexedStorageWrite::insert(&mut s, index, value);
        h.release_write(s);
        super::utils::storage_err(r)
    }

    fn try_insert(&self, index: usize, value: V) -> (r: Result<V, HandleError>)
        where
            V: Clone,
    {
        let (mut s, h) = self.inner.acquire_write();
        let r = match IndexedStorageWrite::try_insert(&mut s, index, value) {
            Ok(v) => Ok(v.clone()),
            Err(e) => Err(HandleError::Storage(e)),
        };
        h.release_write(s);
        r
    }

    fn try_insert_with<F>(&self, index: usize, value: F) -> (r: Result<V, HandleError>)
        where
            V: Clone,
            F: FnOnce() -> Result<V, StorageError>,
    {
        let (mut s, h) = self.inner.acquire_write();
        let r = match IndexedStorageWrite::try_insert_with(&mut s, index, value) {
            Ok(v) => Ok(v.clone()),
            Err(e) => Err(HandleError::Storage(e)),
        };
        h.release_write(s);
        r
    }

    fn with_mut<F, R>(&self, key: &usize, f: F) -> (r: Result<Option<R>, HandleError>)
        where
            F: FnOnce(&mut V) -> R,
    {
        let (mut s, h) = self.inner.acquire_write();
        let r = match IndexedStorageWrite::get_mut(&mut s, key) {
            Ok(Some(v)) => Ok(Some(f(v))),
            Ok(None) => Ok(None),
            Err(e) => Err(HandleError::Storage(e)),
        };
        h.release_write(s);
        r
    }

    fn for_each_mut<F: Fn((usize, &mut V))>(&self, f: F) -> (r: Result<(), HandleError>) {
        let (mut s, h) = self.inner.acquire_write();
        IndexedStorageWrite::for_each_mut(&mut s, f);
        h.release_write(s);
        Ok(())
    }

    fn try_for_each_mut<B, F: Fn((usize, &mut V)) -> ControlFlow<B>>(&self, f: F) -> (r: Result<ControlFlow<B>, HandleError>) {
        let (mut s, h) = self.inner.acquire_write();
        let c = IndexedStorageWrite::try_for_each_mut(&mut s, f);
        h.release_write(s);
        Ok(c)
    }

    fn fold_mut<A, F: Fn(A, (usize, &mut V)) -> A>(&self, init: A, f: F) -> (r: Result<A, HandleError>) {
        let (mut s, h) = self.inner.acquire_write();
        let a = IndexedStorageWrite::fold_mut(&mut s, init, f);
        h.release_write(s);
        Ok(a)
    }

    fn map_mut<R, F: Fn((usize, &mut V)) -> R>(&self, f: F) -> (r: Result<Vec<R>, HandleError>) {
        let (mut s, h) = self.inner.acquire_write();
        let xs = IndexedStorageWrite::map_mut(&mut s, f);
        h.release_write(s);
        Ok(xs)
    }

    fn remove(&self, key: &usize) -> (r: Result<Option<V>, HandleError>) {
        let (mut s, h) = self.inner.acquire_write();
        let r = IndexedStorageWrite::remove(&mut s, key);
        h.release_write(s);
        super::utils::storage_err(r)
    }

    fn clear(&self) -> (r: Result<(), HandleError>) {
        let (mut s, h) = self.inner.acquire_write();
        let r = IndexedStorageWrite::clear(&mut s);
        h.release_write(s);
        super::utils::storage_err(r)
    }

    fn retain<F: Fn((usize, &V)) -> bool>(&self, f: F) -> (r: Result<(), HandleError>) {
        let (mut s, h) = self.inner.acquire_write();
        let r = IndexedStorageWrite::retain(&mut s, f);
        h.release_write(s);
        super::utils::storage_err(r)
    }

    fn drain(&self) -> (r: Result<Vec<(usize, V)>, HandleError>) {
        let (mut s, h) = self.inner.acquire_write();
        let r = take_all(&mut s);
        h.release_write(s);
        super::utils::storage_err(r)
    }

    fn extend(&self, values: Vec<V>) -> (r: Result<Vec<usize>, HandleError>) {
        let (mut s, h) = self.inner.acquire_write();
        let r = IndexedStorageWrite::extend(&mut s, values);
        h.release_write(s);
        super::utils::storage_err(r)
    }
}

impl<S: IndexedStorage<V>, V> IndexedHandle<V> for RwLockStorage<S> {
    type Storage = S;

    fn new(storage: S) -> Self {
        RwLockStorage::new(storage)
    }

    fn with_capacity(capacity: usize) -> Self {
        RwLockStorage::new(S::with_capacity(capacity))
    }

    fn from_iter(values: Vec<V>) -> Self {
        RwLockStorage::new(S::from_iter(values))
    }

    fn get_or_insert_with<F>(&self, key: usize, f: F) -> (r: Result<V, HandleError>)
        where
            V: Clone,
            F: FnOnce() -> V,
    {
        let (mut s, h) = self.inner.acquire_write();
        let r = match IndexedStorage::get_or_insert_with(&mut s, key, f) {
            Ok(v) => Ok(v.clone()),
            Err(e) => Err(HandleError::Storage(e)),
        };
        h.release_write(s);
        r
    }

    fn get_or_try_insert_with<F>(&self, key: usize, f: F) -> (r: Result<V, HandleError>)
        where
            V: Clone,
            F: FnOnce() -> Result<V, StorageError>,
    {
        let (mut s, h) = self.inner.acquire_write();
        let r = match IndexedStorage::get_or_try_insert_with(&mut s, key, f) {
            Ok(v) => Ok(v.clone()),
            Err(e) => Err(HandleError::Storage(e)),
        };
        h.release_write(s);
        r
    }
}

// ----- Ordered storage -----
impl<S: OrderedStorageRead<K, V>, K, V> OrderedHandleRead<K, V> for RwLockStorage<S> {
    open spec fn handle_ok() -> bool {
        S::infallible()
    }

    fn get(&self, key: &K) -> (r: Result<Option<V>, HandleError>)
        where
            V: Clone,
    {
        let h = self.inner.acquire_read();
        let r = match h.borrow().get(key) {
            Ok(Some(v)) => Ok(Some(v.clone())),
            Ok(None) => Ok(None),
            Err(e) => Err(HandleError::Storage(e)),
        };
        h.release_read();
        r
    }

    fn with_ref<F, R>(&self, key: &K, f: F) -> (r: Result<Option<R>, HandleError>)
        where
            F: FnOnce(&V) -> R,
    {
        let h = self.inner.acquire_read();
        let r = match h.borrow().get(key) {
            Ok(Some(v)) => {
                let x = f(v);
                assert(f.ensures((v,), x));
                assert(super::utils::output_on_ref(f, x));
                Ok(Some(x))
            },
            Ok(None) => Ok(None),
            Err(e) => Err(HandleError::Storage(e)),
        };
        h.release_read();
        r
    }

    fn for_each<F: Fn((&K, &V))>(&self, f: F) -> (r: Result<(), HandleError>) {
        let h = self.inner.acquire_read();
        h.borrow().for_each(f);
        h.release_read();
        Ok(())
    }

    fn try_for_each<B, F: Fn((&K, &V)) -> ControlFlow<B>>(&self, f: F) -> (r: Result<ControlFlow<B>, HandleError>) {
        let h = self.inner.acquire_read();
        let c = h.borrow().try_for_each(f);
        h.release_read();
        Ok(c)
    }

    fn fold<A, F: Fn(A, (&K, &V)) -> A>(&self, init: A, f: F) -> (r: Result<A, HandleError>) {
        let h = self.inner.acquire_read();
        let a = h.borrow().fold(init, f);
        h.release_read();
        Ok(a)
    }

    fn map<R, F: Fn((&K, &V)) -> R>(&self, f: F) -> (r: Result<Vec<R>, HandleError>) {
        let h = self.inner.acquire_read();
        let xs = h.borrow().map(f);
        h.release_read();
        Ok(xs)
    }

    fn contains_key(&self, key: &K) -> (r: Result<bool, HandleError>) {
        let h = self.inner.acquire_read();
        let r = h.borrow().contains_key(key);
        h.release_read();
        super::utils::storage_err(r)
    }

    fn len(&self) -> (r: Result<usize, HandleError>) {
        let h = self.inner.acquire_read();
        let r = OrderedStorageRead::len(h.borrow());
        h.release_read();
        super::utils::storage_err(r)
    }

    fn entries(&self) -> (r: Result<Vec<(K, V)>, HandleError>)
        where
            K: Clone,
            V: Clone,
    {
        let h = self.inner.acquire_read();
        let r = h.borrow().entries();
        h.release_read();
        super::utils::storage_err(r)
    }

    fn keys(&self) -> (r: Result<Vec<K>, HandleError>)
        where
            K: Clone,
    {
        let h = self.inner.acquire_read();
        let r = h.borrow().keys();
        h.release_read();
        super::utils::storage_err(r)
    }

    fn values(&self) -> (r: Result<Vec<V>, HandleError>)
        where
            V: Clone,
    {
        let h = self.inner.acquire_read();
        let r = h.borrow().values();
        h.release_read();
        super::utils::storage_err(r)
    }
}

impl<S: OrderedStorageWrite<K, V>, K, V> OrderedHandleWrite<K, V> for RwLockStorage<S> {
    fn insert(&self, key: K, value: V) -> (r: Result<Option<V>, HandleError>) {
        let (mut s, h) = self.inner.acquire_write();
        let r = OrderedStorageWrite::insert(&mut s, key, value);
        h.release_write(s);
        super::utils::storage_err(r)
    }

    fn try_insert(&self, key: K, value: V) -> (r: Result<V, HandleError>)
        where
            V: Clone,
    {
        let (mut s, h) = self.inner.acquire_write();
        let r = match s.try_insert(key, value) {
            Ok(v) => Ok(v.clone()),
            Err(e) => Err(HandleError::Storage(e)),
        };
        h.release_write(s);
        r
    }

    fn try_insert_with<F>(&self, key: K, value: F) -> (r: Result<V, HandleError>)
        where
            V: Clone,
            F: FnOnce() -> Result<V, StorageError>,
    {
        let (mut s, h) = self.inner.acquire_write();
        let r = match s.try_insert_with(key, value) {
            Ok(v) => Ok(v.clone()),
            Err(e) => Err(HandleError::Storage(e)),
        };
        h.release_write(s);
        r
    }

    fn with_mut<F, R>(&self, key: &K, f: F) -> (r: Result<Option<R>, HandleError>)
        where
            F: FnOnce(&mut V) -> R,
    {
        let (mut s, h) = self.inner.acquire_write();
        let r = match s.get_mut(key) {
            Ok(Some(v)) => Ok(Some(f(v))),
            Ok(None) => Ok(None),
            Err(e) => Err(HandleError::Storage(e)),
        };
        h.release_write(s);
        r
    }

    fn for_each_mut<F: Fn((&K, &mut V))>(&self, f: F) -> (r: Result<(), HandleError>) {
        let (mut s, h) = self.inner.acquire_write();
        s.for_each_mut(f);
        h.release_write(s);
        Ok(())
    }

    fn try_for_each_mut<B, F: Fn((&K, &mut V)) -> ControlFlow<B>>(&self, f: F) -> (r: Result<ControlFlow<B>, HandleError>) {
        let (mut s, h) = self.inner.acquire_write();
        let c = s.try_for_each_mut(f);
        h.release_write(s);
        Ok(c)
    }

    fn fold_mut<A, F: Fn(A, (&K, &mut V)) -> A>(&self, init: A, f: F) -> (r: Result<A, HandleError>) {
        let (mut s, h) = self.inner.acquire_write();
        let a = s.fold_mut(init, f);
        h.release_write(s);
        Ok(a)
    }

    fn map_mut<R, F: Fn((&K, &mut V)) -> R>(&self, f: F) -> (r: Result<Vec<R>, HandleError>) {
        let (mut s, h) = self.inner.acquire_write();
        let xs = s.map_mut(f);
        h.release_write(s);
        Ok(xs)
    }

    fn remove(&self, key: &K) -> (r: Result<Option<V>, HandleError>) {
        let (mut s, h) = self.inner.acquire_write();
        let r = OrderedStorageWrite::remove(&mut s, key);
        h.release_write(s);
        super::utils::storage_err(r)
    }

    fn clear(&self) -> (r: Result<(), HandleError>) {
        let (mut s, h) = self.inner.acquire_write();
        let r = OrderedStorageWrite::clear(&mut s);
        h.release_write(s);
        super::utils::storage_err(r)
    }

    fn retain<F>(&self, f: F) -> (r: Result<(), HandleError>)
        where
            F: Fn(&K, &mut V) -> bool,
    {
        let (mut s, h) = self.inner.acquire_write();
        let r = OrderedStorageWrite::retain(&mut s, f);
        h.release_write(s);
        super::utils::storage_err(r)
    }

    fn drain(&self) -> (r: Result<Vec<(K, V)>, HandleError>) {
        let (mut s, h) = self.inner.acquire_write();
        let r = OrderedStorageWrite::drain(&mut s);
        h.release_write(s);
        super::utils::storage_err(r)
    }

    fn extend(&self, entries: Vec<(K, V)>) -> (r: Result<(), HandleError>) {
        let (mut s, h) = self.inner.acquire_write();
        let r = OrderedStorageWrite::extend(&mut s, entries);
        h.release_write(s);
        super::utils::storage_err(r)
    }
}

impl<S: OrderedStorage<K, V>, K, V> OrderedHandle<K, V> for RwLockStorage<S> {
    type Storage = S;

    fn new(storage: S) -> Self {
        RwLockStorage::new(storage)
    }

    fn with_capacity(capacity: usize) -> Self {
        RwLockStorage::new(S::with_capacity(capacity))
    }

    fn from_iter(entries: Vec<(K, V)>) -> Self {
        RwLockStorage::new(S::from_iter(entries))
    }

    fn get_or_insert_with<F>(&self, key: K, f: F) -> (r: Result<V, HandleError>)
        where
            V: Clone,
            F: FnOnce() -> V,
    {
        let (mut s, h) = self.inner.acquire_write();
        let r = match s.get_or_insert_with(key, f) {
            Ok(v) => Ok(v.clone()),
            Err(e) => Err(HandleError::Storage(e)),
        };
        h.release_write(s);
        r
    }

    fn get_or_try_insert_with<F>(&self, key: K, f: F) -> (r: Result<V, HandleError>)
        where
            V: Clone,
            F: FnOnce() -> Result<V, StorageError>,
    {
        let (mut s, h) = self.inner.acquire_write();
        let r = match s.get_or_try_insert_with(key, f) {
            Ok(v) => Ok(v.clone()),
            Err(e) => Err(HandleError::Storage(e)),
        };
        h.release_write(s);
        r
    }
}

} // verus!
