//! The errors of the serialization registries.
use crate::collections::storage::utils::HandleError;
use vstd::prelude::*;
use vstd::string::*;

verus! {

/// Errors of registering and looking up types and formats.
#[derive(Debug, Clone, PartialEq, Eq)]
pub enum RegistryError {
    /// An error of a storage handle.
    HandleError(HandleError),
    /// A lock guarding a registry was poisoned.
    LockPoisoned(String),
    /// A name is registered already (a custom name may avoid the clash).
    AlreadyRegistered(String),
    /// An I/O error: its message and the text of its kind.
    IoError(String, String),
    /// An id or value could not be converted.
    ConversionFailed(String),
    /// An id that names nothing.
    InvalidId(String),
    /// Serialization failed.
    Serialization(String),
    /// Deserialization failed.
    Deserialization(String),
    /// Any other error, carried by its message.
    Custom(String),
}

impl RegistryError {
    /// The human-readable text of the error.
    pub open spec fn message_text(&self) -> Seq<char> {
        match self {
            RegistryError::HandleError(e) => e.message_text(),
            RegistryError::LockPoisoned(m) => "Regitry lock poisoned: "@ + m@,
            RegistryError::AlreadyRegistered(m) =>
                "A registration already exists (consider using a custom name): "@ + m@,
            RegistryError::IoError(m, kind) => "Registry I/O error: "@ + m@ + " (Kind: "@ + kind@ + ")"@,
            RegistryError::ConversionFailed(m) => m@,
            RegistryError::InvalidId(m) => "Invalid Id: "@ + m@,
            RegistryError::Serialization(m) => "Serialization failed: "@ + m@,
            RegistryError::Deserialization(m) => "Deserialization failed: "@ + m@,
            RegistryError::Custom(m) => m@,
        }
    }

    /// Returns the human-readable text of the error.
    pub fn message(&self) -> (s: String)
        ensures
            s@ == self.message_text(),
    {
        match self {
            RegistryError::HandleError(e) => e.message(),
            RegistryError::LockPoisoned(m) => String::from_str("Regitry lock poisoned: ").concat(m.as_str()),
            RegistryError::AlreadyRegistered(m) =>
                String::from_str("A registration already exists (consider using a custom name): ").concat(m.as_str()),
            RegistryError::IoError(m, kind) => String::from_str("Registry I/O error: ").concat(m.as_str())
                .concat(" (Kind: ").concat(kind.as_str()).concat(")"),
            RegistryError::ConversionFailed(m) => m.clone(),
            RegistryError::InvalidId(m) => String::from_str("Invalid Id: ").concat(m.as_str()),
            RegistryError::Serialization(m) => String::from_str("Serialization failed: ").concat(m.as_str()),
            RegistryError::Deserialization(m) => String::from_str("Deserialization failed: ").concat(m.as_str()),
            RegistryError::Custom(m) => m.clone(),
        }
    }
}

impl From<HandleError> for RegistryError {
    fn from(value: HandleError) -> (e: Self)
        ensures
            e == RegistryError::HandleError(value),
    {
        RegistryError::HandleError(value)
    }
}

impl vstd::std_specs::convert::FromSpecImpl<HandleError> for RegistryError {
    open spec fn obeys_from_spec() -> bool {
        true
    }

    open spec fn from_spec(value: HandleError) -> RegistryError {
        RegistryError::HandleError(value)
    }
}

impl From<String> for RegistryError {
    fn from(msg: String) -> (e: Self)
        ensures
            e == RegistryError::Custom(msg),
    {
        RegistryError::Custom(msg)
    }
}

impl vstd::std_specs::convert::FromSpecImpl<String> for RegistryError {
    open spec fn obeys_from_spec() -> bool {
        true
    }

    open spec fn from_spec(msg: String) -> RegistryError {
        RegistryError::Custom(msg)
    }
}

} // verus!
