use super::registry::{Registry, RegistryBulkRead, RegistryBulkWrite, RegistryError, RegistryRead, RegistryWrite};
use crate::collections::storage::utils::keyed::{KeyedStorage, KeyedStorageRead, KeyedStorageWrite};
use crate::collections::storage::utils::StorageError;
use crate::collections::storage::AnyState;
use std::collections::HashMap;
use std::hash::Hash;
use std::sync::Arc;
use vstd::prelude::*;
use vstd::rwlock::RwLock;

verus! {

/// A thread-safe registry backed by a reader-writer lock over a `HashMap`.
///
/// Writes mutate the one shared map in place under the write lock, and reads
/// take the shared read lock. Clones of a registry share its map.
///
/// The lock never fails, so no operation fails. What a read returns depends
/// on what every clone of the registry has written before it, possibly from
/// other threads, so the contracts do not say which entries it sees.
pub struct RwLockRegistry<K, V> {
    inner: Arc<RwLock<HashMap<K, V>, AnyState>>,
}

/// The value of an operation on a `HashMap`, which never fails.
fn infallible<T>(r: Result<T, StorageError>) -> (x: T)
    requires
        r is Ok,
    ensures
        r == Ok::<T, StorageError>(x),
{
    match r {
        Ok(x) => x,
        Err(_) => unreached(),
    }
}

impl<K, V> Clone for RwLockRegistry<K, V> {
    /// A registry that shares this one's map.
    fn clone(&self) -> (c: Self) {
        RwLockRegistry { inner: Arc::clone(&self.inner) }
    }
}

impl<K: Eq + Hash, V: Clone> Default for RwLockRegistry<K, V> {
    fn default() -> (r: Self) {
        <RwLockRegistry<K, V> as Registry<K, V>>::new()
    }
}

impl<K, V> RwLockRegistry<K, V> {
    /// A registry on a new lock that holds `map`.
    fn from_map(map: HashMap<K, V>) -> (r: Self) {
        RwLockRegistry { inner: Arc::new(RwLock::new(map, Ghost(AnyState))) }
    }
}

impl<K: Eq + Hash, V: Clone> RegistryRead<K, V> for RwLockRegistry<K, V> {
    open spec fn registry_ok() -> bool {
        true
    }

    fn get(&self, key: &K) -> (r: Result<Option<V>, RegistryError>) {
        let h = self.inner.acquire_read();
        let r = match infallible(KeyedStorageRead::get(h.borrow(), key)) {
            Some(v) => Some(v.clone()),
            None => None,
        };
        h.release_read();
        Ok(r)
    }

    fn contains_key(&self, key: &K) -> (r: Result<bool, RegistryError>) {
        let h = self.inner.acquire_read();
        let b = infallible(KeyedStorageRead::contains_key(h.borrow(), key));
        h.release_read();
        Ok(b)
    }

    fn len(&self) -> (r: Result<usize, RegistryError>) {
        let h = self.inner.acquire_read();
        let n = infallible(KeyedStorageRead::len(h.borrow()));
        h.release_read();
        Ok(n)
    }

    fn entries(&self) -> (r: Result<Vec<(K, V)>, RegistryError>)
        where
            K: Clone,
    {
        let h = self.inner.acquire_read();
        let es = infallible(KeyedStorageRead::entries(h.borrow()));
        h.release_read();
        Ok(es)
    }

    fn keys(&self) -> (r: Result<Vec<K>, RegistryError>)
        where
            K: Clone,
    {
        let h = self.inner.acquire_read();
        let ks = infallible(KeyedStorageRead::keys(h.borrow()));
        h.release_read();
        Ok(ks)
    }

    fn values(&self) -> (r: Result<Vec<V>, RegistryError>) {
        let h = self.inner.acquire_read();
        let vs = infallible(KeyedStorageRead::values(h.borrow()));
        h.release_read();
        Ok(vs)
    }
}

impl<K: Eq + Hash, V: Clone> RegistryWrite<K, V> for RwLockRegistry<K, V> {
    fn insert(&self, key: K, value: V) -> (r: Result<Option<V>, RegistryError>) {
        let (mut map, h) = self.inner.acquire_write();
        let old = infallible(KeyedStorageWrite::insert(&mut map, key, value));
        h.release_write(map);
        Ok(old)
    }

    fn remove(&self, key: &K) -> (r: Result<Option<V>, RegistryError>) {
        let (mut map, h) = self.inner.acquire_write();
        let old = infallible(KeyedStorageWrite::remove(&mut map, key));
        h.release_write(map);
        Ok(old)
    }

    fn clear(&self) -> (r: Result<(), RegistryError>) {
        let (mut map, h) = self.inner.acquire_write();
        infallible(KeyedStorageWrite::clear(&mut map));
        h.release_write(map);
        Ok(())
    }

    fn retain<F>(&self, f: F) -> (r: Result<(), RegistryError>)
        where
            F: Fn(&K, &mut V) -> bool,
    {
        let (mut map, h) = self.inner.acquire_write();
        infallible(KeyedStorageWrite::retain(&mut map, f));
        h.release_write(map);
        Ok(())
    }

    fn drain(&self) -> (r: Result<Vec<(K, V)>, RegistryError>) {
        let (mut map, h) = self.inner.acquire_write();
        let es = infallible(KeyedStorageWrite::drain(&mut map));
        h.release_write(map);
        Ok(es)
    }

    fn extend(&self, entries: Vec<(K, V)>) -> (r: Result<(), RegistryError>) {
        let (mut map, h) = self.inner.acquire_write();
        infallible(KeyedStorageWrite::extend(&mut map, entries));
        h.release_write(map);
        Ok(())
    }
}

impl<K: Eq + Hash, V: Clone> Registry<K, V> for RwLockRegistry<K, V> {
    /// An error of the initialiser comes back as `InitializationFailed` with the error's text.
    open spec fn reports(cause: RegistryError, e: RegistryError) -> bool {
        e matches RegistryError::InitializationFailed(m) && m@ == cause.message_text()
    }

    fn new() -> (s: Self) {
        RwLockRegistry::from_map(HashMap::new())
    }

    fn with_capacity(capacity: usize) -> (s: Self) {
        RwLockRegistry::from_map(<HashMap<K, V> as KeyedStorage<K, V>>::with_capacity(capacity))
    }

    fn from_iter(entries: Vec<(K, V)>) -> (s: Self) {
        RwLockRegistry::from_map(<HashMap<K, V> as KeyedStorage<K, V>>::from_iter(entries))
    }

    /// The value is looked up under the read lock first; only when it is
    /// missing is the write lock taken, the key looked up again, and `f`
    /// called while the write lock is held.
    fn get_or_insert_with<F>(&self, key: K, f: F) -> (r: Result<V, RegistryError>)
        where
            F: FnOnce() -> V,
    {
        let h = self.inner.acquire_read();
        let found = match infallible(KeyedStorageRead::get(h.borrow(), &key)) {
            Some(v) => Some(v.clone()),
            None => None,
        };
        h.release_read();
        if let Some(v) = found {
            return Ok(v);
        }
        let (mut map, h) = self.inner.acquire_write();
        let v = infallible(KeyedStorage::get_or_insert_with(&mut map, key, f)).clone();
        h.release_write(map);
        Ok(v)
    }

    fn get_or_try_insert_with<F>(&self, key: K, f: F) -> (r: Result<V, RegistryError>)
        where
            F: FnOnce() -> Result<V, RegistryError>,
    {
        let h = self.inner.acquire_read();
        let found = match infallible(KeyedStorageRead::get(h.borrow(), &key)) {
            Some(v) => Some(v.clone()),
            None => None,
        };
        h.release_read();
        if let Some(v) = found {
            return Ok(v);
        }
        let (mut map, h) = self.inner.acquire_write();
        let present = infallible(KeyedStorageRead::get(&map, &key));
        let r = match present {
            Some(v) => Ok(v.clone()),
            None => match f() {
                Ok(v) => {
                    let c = v.clone();
                    infallible(KeyedStorageWrite::insert(&mut map, key, v));
                    Ok(c)
                },
                Err(e) => Err(RegistryError::InitializationFailed(e.message())),
            },
        };
        h.release_write(map);
        r
    }
}

impl<K: Eq + Hash, V: Clone> RegistryBulkRead<K, V, HashMap<K, V>> for RwLockRegistry<K, V> {
    open spec fn bulk_ok() -> bool {
        true
    }

    fn with_read<F, R>(&self, f: F) -> (r: Result<R, RegistryError>)
        where
            F: FnOnce(&HashMap<K, V>) -> R,
    {
        let h = self.inner.acquire_read();
        let map = h.borrow();
        let x = f(map);
        assert(crate::collections::storage::utils::output_on_ref(f, x));
        h.release_read();
        Ok(x)
    }
}

impl<K: Eq + Hash + Clone, V: Clone> RegistryBulkWrite<K, V, HashMap<K, V>> for RwLockRegistry<K, V> {
    fn with_write<F, R>(&self, f: F) -> (r: Result<R, RegistryError>)
        where
            F: FnOnce(&mut HashMap<K, V>) -> R,
    {
        let (mut map, h) = self.inner.acquire_write();
        let x = f(&mut map);
        assert(crate::collections::storage::utils::output_on_mut(f, x));
        h.release_write(map);
        Ok(x)
    }
}

} // verus!
