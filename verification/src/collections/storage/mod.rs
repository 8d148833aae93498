//! Thread-safe, extensible storages with a shared interface.
//!
//! [`RwLockStorage`] keeps one copy of its storage behind a reader-writer
//! lock, and [`CowStorage`] behind an atomically swapped pointer that each
//! write replaces with a changed copy; every handle cloned from either
//! shares its storage.

mod cow_handle;
mod rwlock_handle;
pub mod utils;

pub use cow_handle::CowStorage;
pub use rwlock_handle::{AnyState, RwLockStorage};
