//! Errors of encoding and decoding.
use crate::marker::Marker;
use vstd::prelude::*;

pub mod text;

verus! {

/// The kind of marker whose size field cannot hold a length.
#[derive(Debug, Clone, Copy, PartialEq, Eq, Structural)]
pub enum SizedKind {
    String,
    Bytes,
    Struct,
}

/// What a decoding step expected to find where it found another marker.
#[derive(Debug, Clone, Copy, PartialEq, Eq, Structural)]
pub enum Expected {
    Boolean,
    I64,
    F64,
    String1,
    String,
    Bytes,
    Null,
    List,
    Dictionary,
    DictionaryOrStructure,
    Dictionary1,
    NotEndOfStream,
    SizedMarker,
}

/// The cause of a failed encoding or decoding.
#[derive(Debug, PartialEq)]
pub enum ErrorCode {
    /// A message from a caller outside the format's own rules.
    Message(String),
    /// A state the library's callers should never reach.
    ImplementationError(String),
    /// A marker of another type than the one the step reads.
    UnexpectedMarker { expected: Expected, actual: Marker },
    /// A length too large for the size field of its marker.
    TypeSizeExceeded { kind: SizedKind, len: usize, max_len: usize },
    /// A decoded integer outside the range of the requested integer type.
    IntegerOutOfRange(i64),
    /// An unsigned integer above the largest PackStream integer.
    U64OutOfRange(u64),
    /// A byte that starts no marker.
    NotAMarker(u8),
    /// String bytes that are not valid UTF-8.
    InvalidUtf8,
    /// The input ended inside a marker or its payload.
    UnexpectedEndOfBytes,
    /// Input left over after the decoded value.
    UnexpectedTrailingBytes,
    /// A virtual marker or value set while another one is still pending.
    VirtualIllegalAssignment,
    /// A structure whose signature is not the one the type carries.
    UnexpectedSignature { expected_signature: u8, actual_signature: u8 },
    /// A structure whose signature is none of those a type reads.
    UnknownSignature(u8),
    /// A structure whose number of fields is not the one the type carries.
    UnexpectedFieldCount { expected_len: usize, actual_len: usize },
    /// A value of another kind than the one a structure field holds.
    UnexpectedValue,
    /// A map that lacks a key that a structure field is read from.
    MissingKey,
    /// A map whose keys are not those of an encoded structure.
    UnexpectedKey,
}

/// The error of every operation of the library.
#[derive(Debug, PartialEq)]
pub struct SerdeError {
    pub code: ErrorCode,
}

pub type SerdeResult<T> = Result<T, SerdeError>;

impl SerdeError {
    /// An error with the given cause.
    pub fn create(code: ErrorCode) -> (e: Self)
        ensures
            e.code == code,
    {
        SerdeError { code }
    }

    /// An error for a state that the library's own calls never reach.
    pub fn impl_err(msg: String) -> (e: Self)
        ensures
            e.code == ErrorCode::ImplementationError(msg),
    {
        SerdeError { code: ErrorCode::ImplementationError(msg) }
    }
}

/// Whether the result is an error with the given cause.
pub open spec fn fails_with<T>(r: SerdeResult<T>, c: ErrorCode) -> bool {
    r matches Err(e) && e.code == c
}

} // verus!
