use crate::collections::storage::utils::{output_on_mut, output_on_ref};
use std::marker::PhantomData;
use vstd::prelude::*;
use vstd::string::*;

verus! {

// ----- Error type -----
/// Errors returned by registry operations.
#[derive(Debug, PartialEq, Eq)]
pub enum RegistryError {
    /// The lock that guards the registry was poisoned.
    LockPoisoned(String),
    /// A lazily computed value could not be produced.
    InitializationFailed(String),
    /// Any other error, carried by its message.
    Custom(String),
}

impl RegistryError {
    /// The human-readable text of the error.
    pub open spec fn message_text(&self) -> Seq<char> {
        match self {
            RegistryError::LockPoisoned(m) => "Registry lock poisoned: "@ + m@,
            RegistryError::InitializationFailed(m) => "Initialization failed: "@ + m@,
            RegistryError::Custom(m) => "Custom registry error: "@ + m@,
        }
    }

    /// Returns the human-readable text of the error.
    pub fn message(&self) -> (s: String)
        ensures
            s@ == self.message_text(),
    {
        match self {
            RegistryError::LockPoisoned(m) => String::from_str("Registry lock poisoned: ").concat(m.as_str()),
            RegistryError::InitializationFailed(m) => String::from_str("Initialization failed: ").concat(m.as_str()),
            RegistryError::Custom(m) => String::from_str("Custom registry error: ").concat(m.as_str()),
        }
    }
}

impl From<String> for RegistryError {
    fn from(msg: String) -> (e: Self)
        ensures
            e == RegistryError::Custom(msg),
    {
        RegistryError::Custom(msg)
    }
}

impl vstd::std_specs::convert::FromSpecImpl<String> for RegistryError {
    open spec fn obeys_from_spec() -> bool {
        true
    }

    open spec fn from_spec(msg: String) -> RegistryError {
        RegistryError::Custom(msg)
    }
}

impl From<&str> for RegistryError {
    fn from(msg: &str) -> (e: Self)
        ensures
            e matches RegistryError::Custom(m) && m@ == msg@,
    {
        RegistryError::Custom(String::from_str(msg))
    }
}

impl vstd::std_specs::convert::FromSpecImpl<&str> for RegistryError {
    open spec fn obeys_from_spec() -> bool {
        false
    }

    open spec fn from_spec(msg: &str) -> RegistryError {
        RegistryError::Custom(arbitrary())
    }
}

// ----- Read operations -----
/// Read-only registry operations.
///
/// Implementors are thread-safe; the snapshot methods return copies of the
/// registry's entries.
pub trait RegistryRead<K, V> {
    /// Whether no operation of this registry type fails.
    spec fn registry_ok() -> bool;

    /// Returns a copy of the value under `key`, if present.
    fn get(&self, key: &K) -> (r: Result<Option<V>, RegistryError>)
        ensures
            Self::registry_ok() ==> r is Ok,
    ;

    /// Returns whether the registry holds an entry for `key`.
    fn contains_key(&self, key: &K) -> (r: Result<bool, RegistryError>)
        ensures
            Self::registry_ok() ==> r is Ok,
    ;

    /// Returns the number of entries in the registry.
    fn len(&self) -> (r: Result<usize, RegistryError>)
        ensures
            Self::registry_ok() ==> r is Ok,
    ;

    /// Returns whether the registry holds no entries.
    fn is_empty(&self) -> (r: Result<bool, RegistryError>)
        ensures
            Self::registry_ok() ==> r is Ok,
    {
        match self.len() {
            Ok(n) => Ok(n == 0),
            Err(e) => Err(e),
        }
    }

    /// Returns a snapshot of all key-value pairs.
    fn entries(&self) -> (r: Result<Vec<(K, V)>, RegistryError>)
        where
            K: Clone,
        ensures
            Self::registry_ok() ==> r is Ok,
    ;

    /// Returns a snapshot of all keys.
    fn keys(&self) -> (r: Result<Vec<K>, RegistryError>)
        where
            K: Clone,
        ensures
            Self::registry_ok() ==> r is Ok,
    ;

    /// Returns a snapshot of all values.
    fn values(&self) -> (r: Result<Vec<V>, RegistryError>)
        ensures
            Self::registry_ok() ==> r is Ok,
    ;
}

/// The read operations of a registry whose operations cannot fail.
pub trait RegistryReadExt<K, V>: RegistryRead<K, V> {
    /// `get` on a registry that cannot fail.
    fn get_unwrap(&self, key: &K) -> (r: Option<V>)
        requires
            Self::registry_ok(),
    {
        match self.get(key) {
            Ok(o) => o,
            Err(_) => unreached(),
        }
    }

    /// `contains_key` on a registry that cannot fail.
    fn contains_key_unwrap(&self, key: &K) -> (r: bool)
        requires
            Self::registry_ok(),
    {
        match self.contains_key(key) {
            Ok(b) => b,
            Err(_) => unreached(),
        }
    }

    /// `len` on a registry that cannot fail.
    fn len_unwrap(&self) -> (r: usize)
        requires
            Self::registry_ok(),
    {
        match self.len() {
            Ok(n) => n,
            Err(_) => unreached(),
        }
    }

    /// `is_empty` on a registry that cannot fail.
    fn is_empty_unwrap(&self) -> (r: bool)
        requires
            Self::registry_ok(),
    {
        match self.is_empty() {
            Ok(b) => b,
            Err(_) => unreached(),
        }
    }

    /// `entries` on a registry that cannot fail.
    fn entries_unwrap(&self) -> (r: Vec<(K, V)>)
        where
            K: Clone,
        requires
            Self::registry_ok(),
    {
        match self.entries() {
            Ok(es) => es,
            Err(_) => unreached(),
        }
    }

    /// `keys` on a registry that cannot fail.
    fn keys_unwrap(&self) -> (r: Vec<K>)
        where
            K: Clone,
        requires
            Self::registry_ok(),
    {
        match self.keys() {
            Ok(ks) => ks,
            Err(_) => unreached(),
        }
    }

    /// `values` on a registry that cannot fail.
    fn values_unwrap(&self) -> (r: Vec<V>)
        requires
            Self::registry_ok(),
    {
        match self.values() {
            Ok(vs) => vs,
            Err(_) => unreached(),
        }
    }
}

impl<T, K, V> RegistryReadExt<K, V> for T where T: RegistryRead<K, V> {}

// ----- Write operations -----
/// Thread-safe mutation operations of a registry.
pub trait RegistryWrite<K, V>: RegistryRead<K, V> {
    /// Inserts a key/value pair, returning the previous value if present.
    fn insert(&self, key: K, value: V) -> (r: Result<Option<V>, RegistryError>)
        ensures
            Self::registry_ok() ==> r is Ok,
    ;

    /// Removes the entry for `key`, returning its value if it existed.
    fn remove(&self, key: &K) -> (r: Result<Option<V>, RegistryError>)
        ensures
            Self::registry_ok() ==> r is Ok,
    ;

    /// Removes all entries.
    fn clear(&self) -> (r: Result<(), RegistryError>)
        ensures
            Self::registry_ok() ==> r is Ok,
    ;

    /// Retains only the entries for which `f` returns `true`.
    fn retain<F>(&self, f: F) -> (r: Result<(), RegistryError>)
        where
            F: Fn(&K, &mut V) -> bool,
        requires
            forall|k: &K, v: &mut V| f.requires((k, v)),
        ensures
            Self::registry_ok() ==> r is Ok,
    ;

    /// Removes all entries and returns them.
    fn drain(&self) -> (r: Result<Vec<(K, V)>, RegistryError>)
        ensures
            Self::registry_ok() ==> r is Ok,
    ;

    /// Inserts all `entries`, in order.
    fn extend(&self, entries: Vec<(K, V)>) -> (r: Result<(), RegistryError>)
        ensures
            Self::registry_ok() ==> r is Ok,
    ;

    /// Merges another registry into this one (overwrites existing keys).
    fn merge<R>(&self, other: &R) -> (r: Result<(), RegistryError>)
        where
            R: RegistryRead<K, V>,
            K: Clone,
        ensures
            Self::registry_ok() && R::registry_ok() ==> r is Ok,
    {
        match other.entries() {
            Ok(entries) => self.extend(entries),
            Err(e) => Err(e),
        }
    }
}

/// The write operations of a registry whose operations cannot fail.
pub trait RegistryWriteExt<K, V>: RegistryWrite<K, V> {
    /// `insert` on a registry that cannot fail.
    fn insert_unwrap(&self, key: K, value: V) -> (r: Option<V>)
        requires
            Self::registry_ok(),
    {
        match self.insert(key, value) {
            Ok(o) => o,
            Err(_) => unreached(),
        }
    }

    /// `remove` on a registry that cannot fail.
    fn remove_unwrap(&self, key: &K) -> (r: Option<V>)
        requires
            Self::registry_ok(),
    {
        match self.remove(key) {
            Ok(o) => o,
            Err(_) => unreached(),
        }
    }

    /// `clear` on a registry that cannot fail.
    fn clear_unwrap(&self)
        requires
            Self::registry_ok(),
    {
        match self.clear() {
            Ok(()) => {},
            Err(_) => unreached(),
        }
    }

    /// `retain` on a registry that cannot fail.
    fn retain_unwrap<F>(&self, f: F)
        where
            F: Fn(&K, &mut V) -> bool,
        requires
            Self::registry_ok(),
            forall|k: &K, v: &mut V| f.requires((k, v)),
    {
        match self.retain(f) {
            Ok(()) => {},
            Err(_) => unreached(),
        }
    }

    /// `drain` on a registry that cannot fail.
    fn drain_unwrap(&self) -> (r: Vec<(K, V)>)
        requires
            Self::registry_ok(),
    {
        match self.drain() {
            Ok(es) => es,
            Err(_) => unreached(),
        }
    }

    /// `extend` on a registry that cannot fail.
    fn extend_unwrap(&self, entries: Vec<(K, V)>)
        requires
            Self::registry_ok(),
    {
        match self.extend(entries) {
            Ok(()) => {},
            Err(_) => unreached(),
        }
    }

    /// `merge` of two registries that cannot fail.
    fn merge_unwrap<R>(&self, other: &R)
        where
            R: RegistryRead<K, V>,
            K: Clone,
        requires
            Self::registry_ok(),
            R::registry_ok(),
    {
        match self.merge(other) {
            Ok(()) => {},
            Err(_) => unreached(),
        }
    }
}

impl<T, K, V> RegistryWriteExt<K, V> for T where T: RegistryWrite<K, V> {}

// ----- Read-write registry -----
/// A complete read-write registry: constructors and lazy initialisation.
pub trait Registry<K, V>: RegistryWrite<K, V> + Sized {
    /// `e` is how this registry reports the error `cause` of a lazy initialisation.
    spec fn reports(cause: RegistryError, e: RegistryError) -> bool;

    /// An empty registry.
    fn new() -> (s: Self);

    /// An empty registry with room for `capacity` entries.
    fn with_capacity(capacity: usize) -> (s: Self);

    /// A registry that holds `entries`, later ones overriding earlier ones.
    fn from_iter(entries: Vec<(K, V)>) -> (s: Self);

    /// Returns the value for `key` if it exists; otherwise calls `f`,
    /// inserts the result, and returns a clone.
    fn get_or_insert_with<F>(&self, key: K, f: F) -> (r: Result<V, RegistryError>)
        where
            F: FnOnce() -> V,
        requires
            f.requires(()),
        ensures
            Self::registry_ok() ==> r is Ok,
    ;

    /// Fallible version of `get_or_insert_with`: an error from `f()` is
    /// reported as `reports` says, and inserts nothing.
    fn get_or_try_insert_with<F>(&self, key: K, f: F) -> (r: Result<V, RegistryError>)
        where
            F: FnOnce() -> Result<V, RegistryError>,
        requires
            f.requires(()),
        ensures
            Self::registry_ok() ==> (r matches Err(e) ==> exists|c: RegistryError|
                #[trigger] f.ensures((), Err::<V, RegistryError>(c)) && Self::reports(c, e)),
    ;
}

// ----- Bulk operations -----
/// Bulk read access to the underlying container `C`.
pub trait RegistryBulkRead<K, V, C> {
    /// Whether bulk access on this registry type can never fail.
    spec fn bulk_ok() -> bool;

    /// Executes a closure with a reference to the internal container.
    fn with_read<F, R>(&self, f: F) -> (r: Result<R, RegistryError>)
        where
            F: FnOnce(&C) -> R,
        requires
            forall|c: &C| f.requires((c,)),
        ensures
            r matches Ok(x) ==> output_on_ref(f, x),
            Self::bulk_ok() ==> r is Ok,
    ;

    /// Executes a closure with a reference to the internal container, on a
    /// registry whose bulk access cannot fail.
    fn with_read_unwrap<F, R>(&self, f: F) -> (x: R)
        where
            F: FnOnce(&C) -> R,
        requires
            Self::bulk_ok(),
            forall|c: &C| f.requires((c,)),
        ensures
            output_on_ref(f, x),
    {
        match self.with_read(f) {
            Ok(x) => x,
            Err(_) => unreached(),
        }
    }
}

/// Bulk write access to the underlying container `C`.
pub trait RegistryBulkWrite<K, V, C>: RegistryBulkRead<K, V, C> {
    /// Executes a closure with a mutable reference to the internal container.
    fn with_write<F, R>(&self, f: F) -> (r: Result<R, RegistryError>)
        where
            F: FnOnce(&mut C) -> R,
        requires
            forall|c: &mut C| f.requires((c,)),
        ensures
            Self::bulk_ok() ==> r is Ok,
            r matches Ok(x) ==> output_on_mut(f, x),
    ;

    /// Executes a closure with a mutable reference to the internal
    /// container, on a registry whose bulk access cannot fail.
    fn with_write_unwrap<F, R>(&self, f: F) -> (x: R)
        where
            F: FnOnce(&mut C) -> R,
        requires
            Self::bulk_ok(),
            forall|c: &mut C| f.requires((c,)),
        ensures
            output_on_mut(f, x),
    {
        match self.with_write(f) {
            Ok(x) => x,
            Err(_) => unreached(),
        }
    }
}

// ----- Object-safe wrappers -----
/// Object-safe registry interface for use behind `dyn`: the operations of
/// `Registry` that take no closure, and lazy initialisation from a value.
pub trait DynRegistry<K, V>: Send + Sync {
    /// Whether no operation of this registry fails.
    spec fn dyn_ok(&self) -> bool;

    /// `e` is how this registry reports the error `cause` of a lazy initialisation.
    spec fn dyn_reports(&self, cause: RegistryError, e: RegistryError) -> bool;

    /// Returns a copy of the value under `key`, if present.
    fn get(&self, key: &K) -> (r: Result<Option<V>, RegistryError>)
        ensures
            self.dyn_ok() ==> r is Ok,
    ;

    /// Returns whether the registry holds an entry for `key`.
    fn contains_key(&self, key: &K) -> (r: Result<bool, RegistryError>)
        ensures
            self.dyn_ok() ==> r is Ok,
    ;

    /// Returns the number of entries.
    fn len(&self) -> (r: Result<usize, RegistryError>)
        ensures
            self.dyn_ok() ==> r is Ok,
    ;

    /// Returns whether the registry holds no entries.
    fn is_empty(&self) -> (r: Result<bool, RegistryError>)
        ensures
            self.dyn_ok() ==> r is Ok,
    {
        match self.len() {
            Ok(n) => Ok(n == 0),
            Err(e) => Err(e),
        }
    }

    /// Returns a snapshot of all key-value pairs.
    fn entries(&self) -> (r: Result<Vec<(K, V)>, RegistryError>)
        ensures
            self.dyn_ok() ==> r is Ok,
    ;

    /// Returns a snapshot of all keys.
    fn keys(&self) -> (r: Result<Vec<K>, RegistryError>)
        ensures
            self.dyn_ok() ==> r is Ok,
    ;

    /// Returns a snapshot of all values.
    fn values(&self) -> (r: Result<Vec<V>, RegistryError>)
        ensures
            self.dyn_ok() ==> r is Ok,
    ;

    /// Inserts a key/value pair, returning the previous value if present.
    fn insert(&self, key: K, value: V) -> (r: Result<Option<V>, RegistryError>)
        ensures
            self.dyn_ok() ==> r is Ok,
    ;

    /// Removes the entry for `key`, returning its value if it existed.
    fn remove(&self, key: &K) -> (r: Result<Option<V>, RegistryError>)
        ensures
            self.dyn_ok() ==> r is Ok,
    ;

    /// Removes all entries.
    fn clear(&self) -> (r: Result<(), RegistryError>)
        ensures
            self.dyn_ok() ==> r is Ok,
    ;

    /// Removes all entries and returns them.
    fn drain(&self) -> (r: Result<Vec<(K, V)>, RegistryError>)
        ensures
            self.dyn_ok() ==> r is Ok,
    ;

    /// Inserts all `entries`, in order.
    fn extend(&self, entries: Vec<(K, V)>) -> (r: Result<(), RegistryError>)
        ensures
            self.dyn_ok() ==> r is Ok,
    ;


    /// Returns the value for `key`, inserting `value` first when the key is vacant.
    fn get_or_insert_with(&self, key: K, value: V) -> (r: Result<V, RegistryError>)
        ensures
            self.dyn_ok() ==> r is Ok,
    ;

    /// Returns the value for `key`, inserting `value` first when the key is
    /// vacant; an `Err` value is reported as `dyn_reports` says, and inserts nothing.
    fn get_or_try_insert_with(&self, key: K, value: Result<V, RegistryError>) -> (r: Result<V, RegistryError>)
        ensures
            self.dyn_ok() ==> (r matches Err(e) ==> (value matches Err(c) && self.dyn_reports(c, e))),
    ;
}

/// Merges the registry `other` into `target` (overwrites existing keys); an
/// error of `other` is returned as it is and leaves `target` unchanged.
pub fn merge_dyn<K, V>(target: &dyn DynRegistry<K, V>, other: &dyn DynRegistry<K, V>) -> (r: Result<(), RegistryError>)
    ensures
        target.dyn_ok() && other.dyn_ok() ==> r is Ok,
{
    match other.entries() {
        Ok(entries) => target.extend(entries),
        Err(e) => Err(e),
    }
}

/// An object-safe view (`DynRegistry<K, V>`) of a concrete `Registry<K, V>`,
/// which it holds and to which it forwards every operation.
pub struct DynRegistryBox<K, V, R> {
    inner: R,
    _key: PhantomData<K>,
    _value: PhantomData<V>,
}

impl<K, V, R> DynRegistryBox<K, V, R>
    where
        K: Eq + std::hash::Hash + Clone + 'static,
        V: Clone + 'static,
        R: Registry<K, V> + Send + Sync + 'static,
{
    /// The registry that this box forwards to.
    pub closed spec fn inner(&self) -> R {
        self.inner
    }

    /// Wraps `registry`.
    pub fn new(registry: R) -> (b: Self)
        ensures
            b.inner() == registry,
    {
        DynRegistryBox { inner: registry, _key: PhantomData, _value: PhantomData }
    }

    /// Consumes the box and returns the underlying concrete registry.
    pub fn into_inner(self) -> (r: R)
        ensures
            r == self.inner(),
    {
        self.inner
    }
}

impl<K, V, R> DynRegistry<K, V> for DynRegistryBox<K, V, R>
    where
        K: Eq + std::hash::Hash + Clone + Send + Sync + 'static,
        V: Clone + Send + Sync + 'static,
        R: Registry<K, V> + Send + Sync + 'static,
{
    open spec fn dyn_ok(&self) -> bool {
        R::registry_ok()
    }

    open spec fn dyn_reports(&self, cause: RegistryError, e: RegistryError) -> bool {
        R::reports(cause, e)
    }

    fn get(&self, key: &K) -> (r: Result<Option<V>, RegistryError>) {
        self.inner.get(key)
    }

    fn contains_key(&self, key: &K) -> (r: Result<bool, RegistryError>) {
        self.inner.contains_key(key)
    }

    fn len(&self) -> (r: Result<usize, RegistryError>) {
        self.inner.len()
    }

    fn entries(&self) -> (r: Result<Vec<(K, V)>, RegistryError>) {
        self.inner.entries()
    }

    fn keys(&self) -> (r: Result<Vec<K>, RegistryError>) {
        self.inner.keys()
    }

    fn values(&self) -> (r: Result<Vec<V>, RegistryError>) {
        self.inner.values()
    }

    fn insert(&self, key: K, value: V) -> (r: Result<Option<V>, RegistryError>) {
        self.inner.insert(key, value)
    }

    fn remove(&self, key: &K) -> (r: Result<Option<V>, RegistryError>) {
        self.inner.remove(key)
    }

    fn clear(&self) -> (r: Result<(), RegistryError>) {
        self.inner.clear()
    }

    fn drain(&self) -> (r: Result<Vec<(K, V)>, RegistryError>) {
        self.inner.drain()
    }

    fn extend(&self, entries: Vec<(K, V)>) -> (r: Result<(), RegistryError>) {
        self.inner.extend(entries)
    }

    fn get_or_insert_with(&self, key: K, value: V) -> (r: Result<V, RegistryError>) {
        self.inner.get_or_insert_with(key, move || -> (v: V) ensures v == value { value })
    }

    fn get_or_try_insert_with(&self, key: K, value: Result<V, RegistryError>) -> (r: Result<V, RegistryError>) {
        let ghost given = value;
        let f = move || -> (v: Result<V, RegistryError>) ensures v == given { value };
        let r = self.inner.get_or_try_insert_with(key, f);
        proof {
            if R::registry_ok() {
                if let Err(ref e) = r {
                    let c = choose|c: RegistryError| #[trigger] f.ensures((), Err::<V, RegistryError>(c)) && R::reports(c, *e);
                    assert(given == Err::<V, RegistryError>(c));
                }
            }
        }
        r
    }
}

} // verus!
