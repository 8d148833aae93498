//! Generational collections, thread-safe storages and registries, a
//! sans-IO transport driver and small UI geometry helpers.

pub mod collections;
pub mod ui;
pub mod transport;
pub mod serde_utils;
pub mod cancellation;
pub mod enums;
pub mod race;
pub mod text;
pub mod traits;
