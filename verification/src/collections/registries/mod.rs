//! Thread-safe, extensible registries with a shared interface.
//!
//! [`RwLockRegistry`] keeps one map behind a reader-writer lock, and
//! [`CowRegistry`] behind an atomically swapped pointer that each write
//! replaces with a changed copy; every clone of a registry shares its map. Registries are used through static
//! dispatch (`impl Registry<K, V>`) or, wrapped in a [`DynRegistryBox`],
//! through the object-safe [`DynRegistry`].

mod cow_registry;
mod registry;
mod rwlock_registry;

pub use registry::{
    merge_dyn, DynRegistry, DynRegistryBox, Registry, RegistryBulkRead, RegistryBulkWrite,
    RegistryError, RegistryRead, RegistryReadExt, RegistryWrite, RegistryWriteExt,
};
pub use cow_registry::CowRegistry;
pub use rwlock_registry::RwLockRegistry;
