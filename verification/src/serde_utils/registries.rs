//! Registries that give names ids: type names get `TypeId`s, and format
//! instances get `FormatId`s, so that a payload can be framed by the pair
//! `(FormatId, TypeId)` and dispatched back when it is read.
use super::header::{decode_header, FormatId, PayloadHeader, TypeId};
use crate::collections::storage::utils::indexed::{IndexedHandle, IndexedHandleRead, IndexedHandleWrite};
use crate::collections::storage::utils::keyed::{KeyedHandle, KeyedHandleRead, KeyedHandleWrite};
use crate::collections::storage::utils::HandleError;
use crate::text::{decimal, decimal_string};
use std::marker::PhantomData;
use vstd::prelude::*;
use vstd::string::*;

verus! {

/// The text of the error for an id that does not fit its integer type.
pub open spec fn conversion_error_text() -> Seq<char> {
    "out of range integral type conversion attempted"@
}

/// The error for an id that does not fit its integer type.
fn conversion_error() -> (e: HandleError)
    ensures
        e matches HandleError::ConversionFailed(m) && m@ == conversion_error_text(),
{
    proof {
        reveal_strlit("out of range integral type conversion attempted");
    }
    HandleError::ConversionFailed(String::from_str("out of range integral type conversion attempted"))
}

/// The `TypeId` of a name registered at `position` of the name list: the
/// position itself, when it fits a `TypeId`.
pub fn type_id_at(position: usize) -> (r: Result<TypeId, HandleError>)
    ensures
        position <= 0xffff_ffff ==> r == Ok::<TypeId, HandleError>(position as TypeId),
        position > 0xffff_ffff ==> (r matches Err(HandleError::ConversionFailed(m)) && m@ == conversion_error_text()),
{
    if position > 0xffff_ffff {
        Err(conversion_error())
    } else {
        Ok(position as TypeId)
    }
}

/// The `FormatId` of a format held at `position` of the format list: the
/// position itself, when it fits a `FormatId`.
pub fn format_id_at(position: usize) -> (r: Result<FormatId, HandleError>)
    ensures
        position <= 0xff ==> r == Ok::<FormatId, HandleError>(position as FormatId),
        position > 0xff ==> (r matches Err(HandleError::ConversionFailed(m)) && m@ == conversion_error_text()),
{
    if position > 0xff {
        Err(conversion_error())
    } else {
        Ok(position as FormatId)
    }
}

/// Deserializes the payload of one registered type in a given format.
pub trait TypeDispatcher<F, T> {
    /// Deserializes `data`, written in `format`, as the type with id `type_id`.
    fn deserialize_slice(&self, format: &F, type_id: TypeId, data: &[u8]) -> Result<T, HandleError>;
}

// ----- Type Id Registry -----
/// Maps type names to `TypeId`s, in the order the names are registered.
pub struct TypeIdRegistry<M: KeyedHandle<String, TypeId>, R: IndexedHandle<String>> {
    id_map: M,
    registry: R,
}

impl<M: KeyedHandle<String, TypeId>, R: IndexedHandle<String>> TypeIdRegistry<M, R> {
    /// A registry over the name-to-id map `id_map` and the id-to-name list `registry`.
    pub fn new(id_map: M, registry: R) -> (r: Self) {
        TypeIdRegistry { id_map, registry }
    }

    /// Returns the id of `name`, registering the name first when it has none:
    /// a new name is pushed to the name list and gets the id that
    /// [`type_id_at`] gives for its position. A name past the four billionth
    /// is refused: its id would not fit a `TypeId`.
    pub fn register_named(&self, name: &str) -> (r: Result<TypeId, HandleError>)
        ensures
            M::handle_ok() && R::handle_ok() ==> match r {
                Ok(_) => true,
                Err(HandleError::ConversionFailed(m)) => m@ == conversion_error_text(),
                Err(_) => false,
            },
    {
        let key = String::from_str(name);
        match self.id_map.get(&key) {
            Err(e) => Err(e),
            Ok(Some(id)) => Ok(id),
            Ok(None) => {
                let position = match self.registry.push(String::from_str(name)) {
                    Ok(p) => p,
                    Err(e) => {
                        return Err(e);
                    },
                };
                let id = match type_id_at(position) {
                    Ok(id) => id,
                    Err(e) => {
                        return Err(e);
                    },
                };
                match self.id_map.insert(key, id) {
                    Ok(_) => Ok(id),
                    Err(e) => Err(e),
                }
            },
        }
    }

    /// Returns the id registered for `name`, if any.
    pub fn get_id_by_name(&self, name: &str) -> (r: Result<Option<TypeId>, HandleError>)
        ensures
            M::handle_ok() ==> r is Ok,
    {
        self.id_map.get(&String::from_str(name))
    }

    /// Returns the name registered under `id`, if any.
    pub fn get_name_by_id(&self, id: TypeId) -> (r: Result<Option<String>, HandleError>)
        ensures
            R::handle_ok() ==> r is Ok,
    {
        self.registry.get(&(id as usize))
    }
}

// ----- Format Registry -----
/// Holds format instances and gives each one a `FormatId`, found again by
/// the name it was registered under.
pub struct FormatRegistry<F, I: IndexedHandle<F>, M: KeyedHandle<String, usize>> {
    inner: I,
    id_map: M,
    _phantom: PhantomData<F>,
}

impl<F: Clone, I: IndexedHandle<F>, M: KeyedHandle<String, usize>> FormatRegistry<F, I, M> {
    /// A registry over the format list `inner` and the name-to-position map `id_map`.
    pub fn new(inner: I, id_map: M) -> (r: Self) {
        FormatRegistry { inner, id_map, _phantom: PhantomData }
    }

    /// Returns the id of the format registered under `name`, registering
    /// `format` under it first when the name has none; the id is what
    /// [`format_id_at`] gives for the format's position. A format past the
    /// 256th is refused: its id would not fit a `FormatId`.
    pub fn register_named(&self, name: String, format: F) -> (r: Result<FormatId, HandleError>)
        ensures
            I::handle_ok() && M::handle_ok() ==> match r {
                Ok(_) => true,
                Err(HandleError::ConversionFailed(m)) => m@ == conversion_error_text(),
                Err(_) => false,
            },
    {
        let position = match self.id_map.get(&name) {
            Err(e) => {
                return Err(e);
            },
            Ok(Some(p)) => p,
            Ok(None) => {
                let p = match self.inner.push(format) {
                    Ok(p) => p,
                    Err(e) => {
                        return Err(e);
                    },
                };
                match self.id_map.insert(name, p) {
                    Ok(_) => p,
                    Err(e) => {
                        return Err(e);
                    },
                }
            },
        };
        format_id_at(position)
    }

    /// Returns the format with id `id`, if any.
    pub fn get_format(&self, id: FormatId) -> (r: Result<Option<F>, HandleError>)
        ensures
            I::handle_ok() ==> r is Ok,
    {
        self.inner.get(&(id as usize))
    }

    /// Returns the format registered under `name`, if any.
    pub fn get_format_by_name(&self, name: String) -> (r: Result<Option<F>, HandleError>)
        ensures
            I::handle_ok() && M::handle_ok() ==> r is Ok,
    {
        match self.id_map.get(&name) {
            Err(e) => Err(e),
            Ok(Some(p)) => self.inner.get(&p),
            Ok(None) => Ok(None),
        }
    }

    /// Writes the header `(format_id, type_id)` that frames a payload; the
    /// format with id `format_id` must exist.
    pub fn serialize_header(&self, format_id: FormatId, type_id: TypeId, out: &mut Vec<u8>) -> (r: Result<F, HandleError>)
        ensures
            r is Ok ==> final(out)@ == old(out)@ + format_id.header_bytes() + type_id.header_bytes(),
            r is Err ==> final(out)@ == old(out)@,
            I::handle_ok() ==> (r matches Err(e) ==> (e matches HandleError::Custom(m) && m@ == no_format_to_write_text(format_id))),
    {
        match self.inner.get(&(format_id as usize)) {
            Err(e) => Err(e),
            Ok(None) => Err(HandleError::Custom(no_format_to_write_message(format_id))),
            Ok(Some(format)) => {
                super::header::encode_header(format_id, type_id, out);
                Ok(format)
            },
        }
    }

    /// Reads the header that frames `slice`, finds its format, and hands the
    /// payload after the header to `dispatcher` with the format and type id.
    pub fn deserialize_slice<T, D: TypeDispatcher<F, T>>(&self, dispatcher: &D, slice: &[u8]) -> (r: Result<T, HandleError>)
        ensures
            slice@.len() < 5 ==> r is Err,
    {
        let (format_id, type_id, offset) = match decode_header(slice) {
            Ok(h) => h,
            Err(e) => {
                return Err(e);
            },
        };
        let format = match self.get_format(format_id) {
            Ok(Some(f)) => f,
            Ok(None) => {
                return Err(HandleError::Deserialization(no_format_message(format_id)));
            },
            Err(e) => {
                return Err(e);
            },
        };
        dispatcher.deserialize_slice(&format, type_id, &slice[offset..slice.len()])
    }
}

/// The text of the error for a format id that names no format.
pub open spec fn no_format_text(id: FormatId) -> Seq<char> {
    "No format found for id '"@ + decimal(id as nat) + "'"@
}

/// Returns the text of the error for a format id that names no format.
fn no_format_message(id: FormatId) -> (m: String)
    ensures
        m@ == no_format_text(id),
{
    String::from_str("No format found for id '").concat(decimal_string(id as usize).as_str()).concat("'")
}

/// The text of the error for a format id to write with that names no format.
pub open spec fn no_format_to_write_text(id: FormatId) -> Seq<char> {
    "No format found for the id '"@ + decimal(id as nat) + "'"@
}

/// Returns the text of the error for a format id to write with that names no format.
fn no_format_to_write_message(id: FormatId) -> (m: String)
    ensures
        m@ == no_format_to_write_text(id),
{
    String::from_str("No format found for the id '").concat(decimal_string(id as usize).as_str()).concat("'")
}

} // verus!
