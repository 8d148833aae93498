//! Small shared traits and error types: fixed-size byte encodings and
//! headers, and an error that is just its message.
use vstd::prelude::*;
use vstd::string::*;
use crate::serde_utils::header::{length_mismatch_message, short_buffer_message};

verus! {

/// An error that is just its message.
#[derive(Debug, Clone, PartialEq, Eq)]
pub struct StringError(pub String);

impl StringError {
    /// Returns the message.
    pub fn message(&self) -> (s: String)
        ensures
            s@ == self.0@,
    {
        self.0.clone()
    }
}


/// A value with a fixed-size byte encoding.
pub trait AsBytes: Sized {
    /// The number of bytes of the encoding.
    spec fn bytes_len() -> nat;

    /// The encoding of `self`.
    spec fn as_bytes(&self) -> Seq<u8>;

    /// The value that `bytes` encode.
    spec fn from_bytes_spec(bytes: Seq<u8>) -> Self;

    /// The number of bytes of the encoding.
    fn len() -> (n: usize)
        ensures
            n == Self::bytes_len(),
    ;

    /// Appends the encoding of `self` to `out`.
    fn to_bytes(&self, out: &mut Vec<u8>)
        ensures
            final(out)@ == old(out)@ + self.as_bytes(),
    ;

    /// Decodes a value from exactly `bytes_len()` bytes.
    fn from_bytes(buffer: &[u8]) -> (r: Result<Self, StringError>)
        ensures
            buffer@.len() == Self::bytes_len() ==> r == Ok::<Self, StringError>(Self::from_bytes_spec(buffer@)),
    ;
}

/// A fixed-size header that can be written to and read back from bytes.
pub trait Header: Sized {
    /// The number of bytes of the header.
    spec fn header_len() -> nat;

    /// The bytes of the header.
    spec fn header_bytes(&self) -> Seq<u8>;

    /// The header that `bytes` hold.
    spec fn from_header(bytes: Seq<u8>) -> Self;

    /// The number of bytes of the header.
    fn buf_len() -> (n: usize)
        ensures
            n == Self::header_len(),
    ;

    /// Appends the header to `out`.
    fn encode(&self, out: &mut Vec<u8>)
        ensures
            final(out)@ == old(out)@ + self.header_bytes(),
    ;

    /// Reads a header from exactly `header_len()` bytes.
    fn decode(buffer: &[u8]) -> (r: Result<Self, StringError>)
        ensures
            buffer@.len() == Self::header_len() ==> r == Ok::<Self, StringError>(Self::from_header(buffer@)),
            buffer@.len() != Self::header_len() ==> r is Err,
    ;

    /// Reads a header that starts at `*offset` in `buffer` and, when that
    /// succeeds, moves `*offset` past it; on an error `*offset` is unchanged.
    fn decode_at(offset: &mut usize, buffer: &[u8]) -> (r: Result<Self, StringError>)
        ensures
            *old(offset) + Self::header_len() <= buffer@.len() ==> r == Ok::<Self, StringError>(
                Self::from_header(buffer@.subrange(*old(offset) as int, *old(offset) + Self::header_len())))
                && *final(offset) == *old(offset) + Self::header_len(),
            *old(offset) + Self::header_len() > buffer@.len() ==> r is Err && *final(offset) == *old(offset),
    {
        let n = Self::buf_len();
        let blen = buffer.len();
        let target = match offset.checked_add(n) {
            Some(t) => t,
            None => {
                return Err(StringError(String::from_str("header offset overflow")));
            },
        };
        if target > blen {
            return Err(StringError(short_buffer_message(target)));
        }
        let res = Self::decode(&buffer[*offset..target]);
        if res.is_ok() {
            *offset = target;
        }
        res
    }
}

impl<T: AsBytes> Header for T {
    open spec fn header_len() -> nat {
        T::bytes_len()
    }

    open spec fn header_bytes(&self) -> Seq<u8> {
        self.as_bytes()
    }

    open spec fn from_header(bytes: Seq<u8>) -> T {
        T::from_bytes_spec(bytes)
    }

    fn buf_len() -> (n: usize) {
        T::len()
    }

    fn encode(&self, out: &mut Vec<u8>) {
        self.to_bytes(out);
    }

    fn decode(buffer: &[u8]) -> (r: Result<T, StringError>) {
        let n = T::len();
        if buffer.len() != n {
            return Err(StringError(length_mismatch_message(n, buffer.len())));
        }
        T::from_bytes(buffer)
    }
}

} // verus!
