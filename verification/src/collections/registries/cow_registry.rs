use super::registry::{Registry, RegistryBulkRead, RegistryBulkWrite, RegistryError, RegistryRead, RegistryWrite};
use crate::collections::storage::utils::keyed::{KeyedStorage, KeyedStorageRead, KeyedStorageWrite};
use crate::collections::storage::utils::StorageError;
use crate::collections::storage::AnyState;
use crate::collections::swap_cell::{arc_swap_from, arc_swap_load_full, arc_swap_store, SwapCell};
use std::collections::HashMap;
use std::hash::Hash;
use std::sync::Arc;
use vstd::prelude::*;
use vstd::rwlock::RwLock;

verus! {

/// The value of an operation on a `HashMap`, which never fails.
fn infallible<T>(r: Result<T, StorageError>) -> (x: T)
    requires
        r is Ok,
    ensures
        r == Ok::<T, StorageError>(x),
{
    match r {
        Ok(x) => x,
        Err(_) => unreached(),
    }
}

/// The current map, and the lock that serialises writers.
#[verifier::reject_recursive_types(K)]
#[verifier::reject_recursive_types(V)]
struct Inner<K, V> {
    data: SwapCell<HashMap<K, V>>,
    writers: RwLock<(), AnyState>,
}

/// A thread-safe registry whose reads never block: the map sits behind an
/// atomically swapped pointer, and each write, serialised by a lock, clones
/// the map, changes the clone and swaps it in (copy-on-write).
///
/// Clones of a registry share its map. No operation fails. What a read
/// returns depends on what every clone has written before it, possibly from
/// other threads, so the contracts do not say which entries it sees.
#[verifier::reject_recursive_types(K)]
#[verifier::reject_recursive_types(V)]
pub struct CowRegistry<K, V> {
    inner: Arc<Inner<K, V>>,
}

impl<K, V> Clone for CowRegistry<K, V> {
    /// A registry that shares this one's map.
    fn clone(&self) -> (c: Self) {
        CowRegistry { inner: Arc::clone(&self.inner) }
    }
}

impl<K: Eq + Hash + Clone, V: Clone> Default for CowRegistry<K, V> {
    fn default() -> (r: Self) {
        <CowRegistry<K, V> as Registry<K, V>>::new()
    }
}

impl<K, V> CowRegistry<K, V> {
    /// A registry on a new cell that holds `map`.
    fn from_map(map: HashMap<K, V>) -> (r: Self) {
        CowRegistry {
            inner: Arc::new(Inner { data: arc_swap_from(Arc::new(map)), writers: RwLock::new((), Ghost(AnyState)) }),
        }
    }

    /// The map at this moment.
    fn load(&self) -> Arc<HashMap<K, V>> {
        arc_swap_load_full(&self.inner.data)
    }

    /// A clone of the map at this moment.
    fn copy(&self) -> HashMap<K, V>
        where
            K: Clone,
            V: Clone,
    {
        let snap = self.load();
        (*snap).clone()
    }

    /// Makes `map` the current map.
    fn store(&self, map: HashMap<K, V>) {
        arc_swap_store(&self.inner.data, Arc::new(map))
    }
}

impl<K: Eq + Hash, V: Clone> RegistryRead<K, V> for CowRegistry<K, V> {
    open spec fn registry_ok() -> bool {
        true
    }

    fn get(&self, key: &K) -> (r: Result<Option<V>, RegistryError>) {
        let snap = self.load();
        let r = match infallible(KeyedStorageRead::get(&*snap, key)) {
            Some(v) => Some(v.clone()),
            None => None,
        };
        Ok(r)
    }

    fn contains_key(&self, key: &K) -> (r: Result<bool, RegistryError>) {
        let snap = self.load();
        Ok(infallible(KeyedStorageRead::contains_key(&*snap, key)))
    }

    fn len(&self) -> (r: Result<usize, RegistryError>) {
        let snap = self.load();
        Ok(infallible(KeyedStorageRead::len(&*snap)))
    }

    fn entries(&self) -> (r: Result<Vec<(K, V)>, RegistryError>)
        where
            K: Clone,
    {
        let snap = self.load();
        Ok(infallible(KeyedStorageRead::entries(&*snap)))
    }

    fn keys(&self) -> (r: Result<Vec<K>, RegistryError>)
        where
            K: Clone,
    {
        let snap = self.load();
        Ok(infallible(KeyedStorageRead::keys(&*snap)))
    }

    fn values(&self) -> (r: Result<Vec<V>, RegistryError>) {
        let snap = self.load();
        Ok(infallible(KeyedStorageRead::values(&*snap)))
    }
}

impl<K: Eq + Hash + Clone, V: Clone> RegistryWrite<K, V> for CowRegistry<K, V> {
    fn insert(&self, key: K, value: V) -> (r: Result<Option<V>, RegistryError>) {
        let (unit, w) = self.inner.writers.acquire_write();
        let mut map = self.copy();
        let old = infallible(KeyedStorageWrite::insert(&mut map, key, value));
        self.store(map);
        w.release_write(unit);
        Ok(old)
    }

    fn remove(&self, key: &K) -> (r: Result<Option<V>, RegistryError>) {
        let (unit, w) = self.inner.writers.acquire_write();
        let mut map = self.copy();
        let old = infallible(KeyedStorageWrite::remove(&mut map, key));
        self.store(map);
        w.release_write(unit);
        Ok(old)
    }

    fn clear(&self) -> (r: Result<(), RegistryError>) {
        let (unit, w) = self.inner.writers.acquire_write();
        self.store(HashMap::new());
        w.release_write(unit);
        Ok(())
    }

    fn retain<F>(&self, f: F) -> (r: Result<(), RegistryError>)
        where
            F: Fn(&K, &mut V) -> bool,
    {
        let (unit, w) = self.inner.writers.acquire_write();
        let mut map = self.copy();
        infallible(KeyedStorageWrite::retain(&mut map, f));
        self.store(map);
        w.release_write(unit);
        Ok(())
    }

    /// Returns clones of the entries and makes the map empty.
    fn drain(&self) -> (r: Result<Vec<(K, V)>, RegistryError>) {
        let (unit, w) = self.inner.writers.acquire_write();
        let snap = self.load();
        let drained = infallible(KeyedStorageRead::entries(&*snap));
        self.store(HashMap::new());
        w.release_write(unit);
        Ok(drained)
    }

    fn extend(&self, entries: Vec<(K, V)>) -> (r: Result<(), RegistryError>) {
        let (unit, w) = self.inner.writers.acquire_write();
        let mut map = self.copy();
        infallible(KeyedStorageWrite::extend(&mut map, entries));
        self.store(map);
        w.release_write(unit);
        Ok(())
    }
}

impl<K: Eq + Hash + Clone, V: Clone> Registry<K, V> for CowRegistry<K, V> {
    /// An error of the initialiser comes back as it is.
    open spec fn reports(cause: RegistryError, e: RegistryError) -> bool {
        e == cause
    }

    fn new() -> (s: Self) {
        CowRegistry::from_map(HashMap::new())
    }

    fn with_capacity(capacity: usize) -> (s: Self) {
        CowRegistry::from_map(<HashMap<K, V> as KeyedStorage<K, V>>::with_capacity(capacity))
    }

    fn from_iter(entries: Vec<(K, V)>) -> (s: Self) {
        CowRegistry::from_map(<HashMap<K, V> as KeyedStorage<K, V>>::from_iter(entries))
    }

    /// The value is looked up without locking first; only when it is
    /// missing is the writers' lock taken, the key looked up again, and `f`
    /// called while the lock is held.
    fn get_or_insert_with<F>(&self, key: K, f: F) -> (r: Result<V, RegistryError>)
        where
            F: FnOnce() -> V,
    {
        if let Ok(Some(v)) = self.get(&key) {
            return Ok(v);
        }
        let (unit, w) = self.inner.writers.acquire_write();
        if let Ok(Some(v)) = self.get(&key) {
            w.release_write(unit);
            return Ok(v);
        }
        let value = f();
        let mut map = self.copy();
        infallible(KeyedStorageWrite::insert(&mut map, key, value.clone()));
        self.store(map);
        w.release_write(unit);
        Ok(value)
    }

    fn get_or_try_insert_with<F>(&self, key: K, f: F) -> (r: Result<V, RegistryError>)
        where
            F: FnOnce() -> Result<V, RegistryError>,
    {
        if let Ok(Some(v)) = self.get(&key) {
            return Ok(v);
        }
        let (unit, w) = self.inner.writers.acquire_write();
        if let Ok(Some(v)) = self.get(&key) {
            w.release_write(unit);
            return Ok(v);
        }
        let value = match f() {
            Ok(v) => v,
            Err(e) => {
                w.release_write(unit);
                return Err(e);
            },
        };
        let mut map = self.copy();
        infallible(KeyedStorageWrite::insert(&mut map, key, value.clone()));
        self.store(map);
        w.release_write(unit);
        Ok(value)
    }
}

impl<K: Eq + Hash, V: Clone> RegistryBulkRead<K, V, HashMap<K, V>> for CowRegistry<K, V> {
    open spec fn bulk_ok() -> bool {
        true
    }

    fn with_read<F, R>(&self, f: F) -> (r: Result<R, RegistryError>)
        where
            F: FnOnce(&HashMap<K, V>) -> R,
    {
        let snap = self.load();
        let map: &HashMap<K, V> = &*snap;
        let x = f(map);
        assert(crate::collections::storage::utils::output_on_ref(f, x));
        Ok(x)
    }
}

impl<K: Eq + Hash + Clone, V: Clone> RegistryBulkWrite<K, V, HashMap<K, V>> for CowRegistry<K, V> {
    fn with_write<F, R>(&self, f: F) -> (r: Result<R, RegistryError>)
        where
            F: FnOnce(&mut HashMap<K, V>) -> R,
    {
        let (unit, w) = self.inner.writers.acquire_write();
        let mut map = self.copy();
        let x = f(&mut map);
        assert(crate::collections::storage::utils::output_on_mut(f, x));
        self.store(map);
        w.release_write(unit);
        Ok(x)
    }
}

} // verus!
