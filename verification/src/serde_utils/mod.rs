//! Serialization support: the byte header that frames every payload, and
//! the registries that map names to type and format ids.

pub mod header;
pub mod registry_error;
pub mod registries;
