//! Storage trait definitions.
//!
//! - `KeyedHandle` / `KeyedStorage` are for map-like, key/value backends.
//! - `OrderedHandle` / `OrderedStorage` are for map-like backends whose keys
//!   are ordered, such as a B-tree map.
//! - `IndexedHandle` / `IndexedStorage` are for array-like, index-keyed backends.
//!
//! A *storage* is a plain container used through `&mut self`; a *handle* is a
//! shareable, thread-safe owner of a storage used through `&self`. Handles
//! that share a storage observe each other's writes, so what a handle reads
//! is whatever the storage holds at that moment.
use crate::text::{decimal, decimal_string};
use vstd::prelude::*;
use vstd::string::*;

pub mod indexed;
pub mod keyed;
pub mod ordered;

verus! {

// ----- Error types -----
/// Errors returned by storage operations.
#[derive(Debug, Clone, PartialEq, Eq)]
pub enum StorageError {
    /// `OutOfBounds(index, len)`: an index past the end of an indexed storage.
    OutOfBounds(usize, usize),
    /// A value that should be present was not found.
    MissingValue(String),
    /// Any other error, carried by its message.
    Custom(String),
}

impl StorageError {
    /// The human-readable text of the error.
    pub open spec fn message_text(&self) -> Seq<char> {
        match self {
            StorageError::OutOfBounds(index, len) =>
                "Index '"@ + decimal(*index as nat) + "' is out of bounds for length '"@ + decimal(*len as nat) + "'"@,
            StorageError::MissingValue(msg) => msg@,
            StorageError::Custom(msg) => msg@,
        }
    }

    /// Returns the human-readable text of the error.
    pub fn message(&self) -> (s: String)
        ensures
            s@ == self.message_text(),
    {
        match self {
            StorageError::OutOfBounds(index, len) => String::from_str("Index '")
                .concat(decimal_string(*index).as_str())
                .concat("' is out of bounds for length '")
                .concat(decimal_string(*len).as_str())
                .concat("'"),
            StorageError::MissingValue(msg) => msg.clone(),
            StorageError::Custom(msg) => msg.clone(),
        }
    }
}

impl From<String> for StorageError {
    fn from(msg: String) -> (e: Self)
        ensures
            e == StorageError::Custom(msg),
    {
        StorageError::Custom(msg)
    }
}

impl vstd::std_specs::convert::FromSpecImpl<String> for StorageError {
    open spec fn obeys_from_spec() -> bool {
        true
    }

    open spec fn from_spec(msg: String) -> StorageError {
        StorageError::Custom(msg)
    }
}

impl From<&str> for StorageError {
    fn from(msg: &str) -> (e: Self)
        ensures
            e matches StorageError::Custom(m) && m@ == msg@,
    {
        let m = msg.to_string();
        proof { vstd::string::to_string_from_display_ensures_for_str(msg, m); }
        StorageError::Custom(m)
    }
}

impl vstd::std_specs::convert::FromSpecImpl<&str> for StorageError {
    open spec fn obeys_from_spec() -> bool {
        false
    }

    open spec fn from_spec(msg: &str) -> StorageError {
        StorageError::Custom(arbitrary())
    }
}

/// Errors returned by storage handle operations.
#[derive(Debug, Clone, PartialEq, Eq)]
pub enum HandleError {
    Storage(StorageError),
    LockPoisoned(String),
    InitializationFailed(String),
    ConversionFailed(String),
    Serialization(String),
    Deserialization(String),
    Custom(String),
}

impl HandleError {
    /// The human-readable text of the error.
    pub open spec fn message_text(&self) -> Seq<char> {
        match self {
            HandleError::Storage(e) => e.message_text(),
            HandleError::LockPoisoned(msg) => "Handle lock poisoned: "@ + msg@,
            HandleError::InitializationFailed(msg) => "Initialization failed: "@ + msg@,
            HandleError::ConversionFailed(msg) => msg@,
            HandleError::Serialization(msg) => "Serialization failed: "@ + msg@,
            HandleError::Deserialization(msg) => "Deserialization failed: "@ + msg@,
            HandleError::Custom(msg) => msg@,
        }
    }

    /// Returns the human-readable text of the error.
    pub fn message(&self) -> (s: String)
        ensures
            s@ == self.message_text(),
    {
        match self {
            HandleError::Storage(e) => e.message(),
            HandleError::LockPoisoned(msg) => String::from_str("Handle lock poisoned: ").concat(msg.as_str()),
            HandleError::InitializationFailed(msg) => String::from_str("Initialization failed: ").concat(msg.as_str()),
            HandleError::ConversionFailed(msg) => msg.clone(),
            HandleError::Serialization(msg) => String::from_str("Serialization failed: ").concat(msg.as_str()),
            HandleError::Deserialization(msg) => String::from_str("Deserialization failed: ").concat(msg.as_str()),
            HandleError::Custom(msg) => msg.clone(),
        }
    }
}

impl From<StorageError> for HandleError {
    fn from(value: StorageError) -> (e: Self)
        ensures
            e == HandleError::Storage(value),
    {
        HandleError::Storage(value)
    }
}

impl vstd::std_specs::convert::FromSpecImpl<StorageError> for HandleError {
    open spec fn obeys_from_spec() -> bool {
        true
    }

    open spec fn from_spec(value: StorageError) -> HandleError {
        HandleError::Storage(value)
    }
}

impl From<String> for HandleError {
    fn from(msg: String) -> (e: Self)
        ensures
            e == HandleError::Custom(msg),
    {
        HandleError::Custom(msg)
    }
}

impl vstd::std_specs::convert::FromSpecImpl<String> for HandleError {
    open spec fn obeys_from_spec() -> bool {
        true
    }

    open spec fn from_spec(msg: String) -> HandleError {
        HandleError::Custom(msg)
    }
}

impl From<&str> for HandleError {
    fn from(msg: &str) -> (e: Self)
        ensures
            e matches HandleError::Custom(m) && m@ == msg@,
    {
        let m = msg.to_string();
        proof { vstd::string::to_string_from_display_ensures_for_str(msg, m); }
        HandleError::Custom(m)
    }
}

impl vstd::std_specs::convert::FromSpecImpl<&str> for HandleError {
    open spec fn obeys_from_spec() -> bool {
        false
    }

    open spec fn from_spec(msg: &str) -> HandleError {
        HandleError::Custom(arbitrary())
    }
}

/// Wraps a storage error into a handle error.
pub fn storage_err<T>(r: Result<T, StorageError>) -> (h: Result<T, HandleError>)
    ensures
        match r {
            Ok(v) => h == Ok::<T, HandleError>(v),
            Err(e) => h == Err::<T, HandleError>(HandleError::Storage(e)),
        },
{
    match r {
        Ok(v) => Ok(v),
        Err(e) => Err(HandleError::Storage(e)),
    }
}

// ----- Bulk operations -----
/// `x` is what `f` gives on some borrowed state.
pub open spec fn output_on_ref<S, R, F: FnOnce(&S) -> R>(f: F, x: R) -> bool {
    exists|s: &S| #[trigger] f.ensures((s,), x)
}

/// `x` is what `f` gives on some mutably borrowed state.
pub open spec fn output_on_mut<S, R, F: FnOnce(&mut S) -> R>(f: F, x: R) -> bool {
    exists|s: &mut S| #[trigger] f.ensures((s,), x)
}

/// Bulk read access to the underlying storage `S`.
pub trait HandleBulkRead<S> {
    /// Whether bulk access on this handle type can never fail.
    spec fn bulk_infallible() -> bool;

    /// Execute a closure with a reference to the internal storage.
    fn with_read<F, R>(&self, f: F) -> (r: Result<R, HandleError>)
        where
            F: FnOnce(&S) -> R,
        requires
            forall|s: &S| f.requires((s,)),
        ensures
            r matches Ok(v) ==> output_on_ref(f, v),
            Self::bulk_infallible() ==> r is Ok,
    ;

    /// Execute a closure with a reference to the internal storage; the handle
    /// must be one whose bulk access cannot fail.
    fn with_read_unwrap<F, R>(&self, f: F) -> (v: R)
        where
            F: FnOnce(&S) -> R,
        requires
            Self::bulk_infallible(),
            forall|s: &S| f.requires((s,)),
        ensures
            output_on_ref(f, v),
    {
        match self.with_read(f) {
            Ok(v) => v,
            Err(_) => unreached(),
        }
    }
}

/// Bulk write access to the underlying storage `S`.
pub trait HandleBulkWrite<S> {
    /// Whether bulk access on this handle type can never fail.
    spec fn bulk_write_infallible() -> bool;

    /// Execute a closure with a mutable reference to the internal storage.
    fn with_write<F, R>(&self, f: F) -> (r: Result<R, HandleError>)
        where
            F: FnOnce(&mut S) -> R,
        requires
            forall|s: &mut S| f.requires((s,)),
        ensures
            Self::bulk_write_infallible() ==> r is Ok,
            r matches Ok(v) ==> output_on_mut(f, v),
    ;

    /// Execute a closure with a mutable reference to the internal storage;
    /// the handle must be one whose bulk access cannot fail.
    fn with_write_unwrap<F, R>(&self, f: F) -> (v: R)
        where
            F: FnOnce(&mut S) -> R,
        requires
            Self::bulk_write_infallible(),
            forall|s: &mut S| f.requires((s,)),
        ensures
            output_on_mut(f, v),
    {
        match self.with_write(f) {
            Ok(v) => v,
            Err(_) => unreached(),
        }
    }
}

} // verus!
