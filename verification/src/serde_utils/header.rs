//! The header that precedes every serialized payload: the id of the format,
//! then the id of the type, each as big-endian bytes.
use crate::collections::storage::utils::HandleError;
use crate::text::{decimal, decimal_string};
use vstd::prelude::*;
use vstd::string::*;

verus! {

/// Identifies a concrete type within a registry: a `u32` allows more than
/// four billion types at the cost of four bytes.
pub type TypeId = u32;

/// Identifies a format instance: a `u8` allows 256 formats for one byte.
pub type FormatId = u8;

/// The text of the error for a slice that has not the length of the array it should fill.
pub open spec fn slice_len_error() -> Seq<char> {
    "could not convert slice to array"@
}

/// A value with a fixed-size big-endian byte encoding.
pub trait BeBytes: Sized {
    /// The number of bytes of the encoding.
    spec fn be_len() -> nat;

    /// The encoding of `self`.
    spec fn be_bytes(&self) -> Seq<u8>;

    /// The value that `bytes` encode.
    spec fn from_be(bytes: Seq<u8>) -> Self;

    /// The number of bytes of the encoding.
    fn len() -> (n: usize)
        ensures
            n == Self::be_len(),
    ;

    /// Appends the encoding of `self` to `out`.
    fn to_be_bytes(&self, out: &mut Vec<u8>)
        ensures
            final(out)@ == old(out)@ + self.be_bytes(),
    ;

    /// Decodes a value from exactly `be_len()` bytes; any other length is an error.
    fn from_be_bytes(buffer: &[u8]) -> (r: Result<Self, HandleError>)
        ensures
            buffer@.len() == Self::be_len() ==> r == Ok::<Self, HandleError>(Self::from_be(buffer@)),
            buffer@.len() != Self::be_len() ==> (r matches Err(HandleError::Deserialization(m)) && m@ == slice_len_error()),
    ;

    /// Decoding an encoding gives the value back.
    proof fn lemma_round_trip(v: Self)
        ensures
            v.be_bytes().len() == Self::be_len(),
            Self::from_be(v.be_bytes()) == v,
    ;
}

impl BeBytes for FormatId {
    open spec fn be_len() -> nat {
        1
    }

    open spec fn be_bytes(&self) -> Seq<u8> {
        seq![*self]
    }

    open spec fn from_be(bytes: Seq<u8>) -> u8 {
        bytes[0]
    }

    fn len() -> (n: usize) {
        1
    }

    fn to_be_bytes(&self, out: &mut Vec<u8>) {
        out.push(*self);
    }

    fn from_be_bytes(buffer: &[u8]) -> (r: Result<u8, HandleError>) {
        if buffer.len() == 1 {
            Ok(buffer[0])
        } else {
            Err(HandleError::Deserialization(String::from_str("could not convert slice to array")))
        }
    }

    proof fn lemma_round_trip(v: u8) {
    }
}

/// The value of four big-endian bytes.
pub open spec fn be_u32(b: Seq<u8>) -> int {
    b[0] * 0x100_0000 + b[1] * 0x1_0000 + b[2] * 0x100 + b[3]
}

impl BeBytes for TypeId {
    open spec fn be_len() -> nat {
        4
    }

    open spec fn be_bytes(&self) -> Seq<u8> {
        seq![(*self / 0x100_0000) as u8, ((*self / 0x1_0000) % 0x100) as u8, ((*self / 0x100) % 0x100) as u8, (*self % 0x100) as u8]
    }

    open spec fn from_be(bytes: Seq<u8>) -> u32 {
        be_u32(bytes) as u32
    }

    fn len() -> (n: usize) {
        4
    }

    fn to_be_bytes(&self, out: &mut Vec<u8>) {
        let x = *self;
        out.push((x / 0x100_0000) as u8);
        out.push(((x / 0x1_0000) % 0x100) as u8);
        out.push(((x / 0x100) % 0x100) as u8);
        out.push((x % 0x100) as u8);
        assert(out@ =~= old(out)@ + self.be_bytes());
    }

    fn from_be_bytes(buffer: &[u8]) -> (r: Result<u32, HandleError>) {
        if buffer.len() == 4 {
            let b0 = buffer[0] as u32;
            let b1 = buffer[1] as u32;
            let b2 = buffer[2] as u32;
            let b3 = buffer[3] as u32;
            let v = b0 * 0x100_0000 + b1 * 0x1_0000 + b2 * 0x100 + b3;
            Ok(v)
        } else {
            Err(HandleError::Deserialization(String::from_str("could not convert slice to array")))
        }
    }

    proof fn lemma_round_trip(v: u32) {
        let b = v.be_bytes();
        assert(be_u32(b) == v) by (nonlinear_arith)
            requires
                b[0] == v / 0x100_0000,
                b[1] == (v / 0x1_0000) % 0x100,
                b[2] == (v / 0x100) % 0x100,
                b[3] == v % 0x100,
                0 <= v < 0x1_0000_0000,
        ;
    }
}

/// The text of the error for a header of the wrong length.
pub open spec fn length_mismatch_text(expected: usize, got: usize) -> Seq<char> {
    "Expected '"@ + decimal(expected as nat) + "' bytes, got '"@ + decimal(got as nat) + "'"@
}

/// The text of the error for a buffer that ends before a header does.
pub open spec fn short_buffer_text(end: usize) -> Seq<char> {
    "Buffer length too small for header with end index '"@ + decimal(end as nat) + ".'"@
}

/// Returns the text of the error for a header of the wrong length.
pub(crate) fn length_mismatch_message(expected: usize, got: usize) -> (m: String)
    ensures
        m@ == length_mismatch_text(expected, got),
{
    String::from_str("Expected '").concat(decimal_string(expected).as_str()).concat("' bytes, got '")
        .concat(decimal_string(got).as_str()).concat("'")
}

/// Returns the text of the error for a buffer that ends before a header does.
pub(crate) fn short_buffer_message(end: usize) -> (m: String)
    ensures
        m@ == short_buffer_text(end),
{
    String::from_str("Buffer length too small for header with end index '").concat(decimal_string(end).as_str())
        .concat(".'")
}

/// A fixed-size header that can be written to and read back from bytes.
pub trait PayloadHeader: Sized {
    /// The number of bytes of the header.
    spec fn header_len() -> nat;

    /// The bytes of the header.
    spec fn header_bytes(&self) -> Seq<u8>;

    /// The header that `bytes` hold.
    spec fn from_header(bytes: Seq<u8>) -> Self;

    /// The number of bytes of the header.
    fn buf_len() -> (n: usize)
        ensures
            n == Self::header_len(),
    ;

    /// Appends the header to `out`.
    fn encode(&self, out: &mut Vec<u8>)
        ensures
            final(out)@ == old(out)@ + self.header_bytes(),
    ;

    /// Reads a header from exactly `header_len()` bytes.
    fn decode(buffer: &[u8]) -> (r: Result<Self, HandleError>)
        ensures
            buffer@.len() == Self::header_len() ==> r == Ok::<Self, HandleError>(Self::from_header(buffer@)),
            buffer@.len() != Self::header_len() ==> r is Err,
    ;

    /// Reads a header that starts at `*offset` in `buffer` and, when that
    /// succeeds, moves `*offset` past it; on an error `*offset` is unchanged.
    fn decode_at(offset: &mut usize, buffer: &[u8]) -> (r: Result<Self, HandleError>)
        ensures
            *old(offset) + Self::header_len() <= buffer@.len() ==> r == Ok::<Self, HandleError>(
                Self::from_header(buffer@.subrange(*old(offset) as int, *old(offset) + Self::header_len())))
                && *final(offset) == *old(offset) + Self::header_len(),
            *old(offset) + Self::header_len() > buffer@.len() ==> r is Err && *final(offset) == *old(offset),
            *old(offset) + Self::header_len() > usize::MAX ==> (r matches Err(HandleError::Deserialization(m))
                && m@ == "header offset overflow"@),
            buffer@.len() < *old(offset) + Self::header_len() <= usize::MAX ==> (r matches Err(HandleError::Deserialization(m))
                && m@ == short_buffer_text((*old(offset) + Self::header_len()) as usize)),
    {
        let n = Self::buf_len();
        let blen = buffer.len();
        let target = match offset.checked_add(n) {
            Some(t) => t,
            None => {
                return Err(HandleError::Deserialization(String::from_str("header offset overflow")));
            },
        };
        if target > blen {
            return Err(HandleError::Deserialization(short_buffer_message(target)));
        }
        let res = Self::decode(&buffer[*offset..target]);
        if res.is_ok() {
            *offset = target;
        }
        res
    }
}

impl<T: BeBytes> PayloadHeader for T {
    open spec fn header_len() -> nat {
        T::be_len()
    }

    open spec fn header_bytes(&self) -> Seq<u8> {
        self.be_bytes()
    }

    open spec fn from_header(bytes: Seq<u8>) -> T {
        T::from_be(bytes)
    }

    fn buf_len() -> (n: usize) {
        T::len()
    }

    fn encode(&self, out: &mut Vec<u8>) {
        self.to_be_bytes(out);
    }

    fn decode(buffer: &[u8]) -> (r: Result<T, HandleError>)
        ensures
            buffer@.len() != T::be_len() ==> (r matches Err(HandleError::Deserialization(m))
                && m@ == length_mismatch_text(T::be_len() as usize, buffer@.len() as usize)),
    {
        let n = T::len();
        if buffer.len() != n {
            return Err(HandleError::Deserialization(length_mismatch_message(n, buffer.len())));
        }
        T::from_be_bytes(buffer)
    }
}

/// Writes the header `(format_id, type_id)` that precedes a payload.
pub fn encode_header(format_id: FormatId, type_id: TypeId, out: &mut Vec<u8>)
    ensures
        final(out)@ == old(out)@ + format_id.header_bytes() + type_id.header_bytes(),
{
    format_id.encode(out);
    type_id.encode(out);
}

/// Reads the header `(format_id, type_id)` at the start of `bytes`, and
/// returns it with the position where the payload starts.
pub fn decode_header(bytes: &[u8]) -> (r: Result<(FormatId, TypeId, usize), HandleError>)
    ensures
        bytes@.len() >= 5 ==> r == Ok::<(FormatId, TypeId, usize), HandleError>((
            FormatId::from_header(bytes@.subrange(0, 1)),
            TypeId::from_header(bytes@.subrange(1, 5)),
            5usize,
        )),
        bytes@.len() < 5 ==> r is Err,
{
    let mut offset: usize = 0;
    let format_id = match FormatId::decode_at(&mut offset, bytes) {
        Ok(f) => f,
        Err(e) => {
            return Err(e);
        },
    };
    let type_id = match TypeId::decode_at(&mut offset, bytes) {
        Ok(t) => t,
        Err(e) => {
            return Err(e);
        },
    };
    Ok((format_id, type_id, offset))
}

/// Reading a header back from the bytes written for it, followed by any
/// payload, gives the same ids and the position where the payload starts.
pub proof fn lemma_header_round_trip(format_id: FormatId, type_id: TypeId, payload: Seq<u8>)
    ensures
        ({
            let bytes = format_id.header_bytes() + type_id.header_bytes() + payload;
            &&& bytes.len() == 5 + payload.len()
            &&& FormatId::from_header(bytes.subrange(0, 1)) == format_id
            &&& TypeId::from_header(bytes.subrange(1, 5)) == type_id
            &&& bytes.subrange(5, bytes.len() as int) == payload
        }),
{
    FormatId::lemma_round_trip(format_id);
    TypeId::lemma_round_trip(type_id);
    let bytes = format_id.header_bytes() + type_id.header_bytes() + payload;
    assert(bytes.subrange(0, 1) =~= format_id.be_bytes());
    assert(bytes.subrange(1, 5) =~= type_id.be_bytes());
    assert(bytes.subrange(5, bytes.len() as int) =~= payload);
}

} // verus!
