//! Marker headers: the type tag and the size or the small value that open
//! every encoded value.
use crate::constants::marker::{
    BYTES_16, BYTES_32, BYTES_8, END_OF_STREAM, FALSE, FLOAT_64, INT_16, INT_32, INT_64, INT_8, LIST_16,
    LIST_32, LIST_8, LIST_STREAM, MAP_16, MAP_32, MAP_8, MAP_STREAM, NULL, STRING_16, STRING_32,
    STRING_8, STRUCT_16, STRUCT_8, TINY_LIST, TINY_MAP, TINY_STRING, TINY_STRUCT, TRUE,
};
use crate::error::{ErrorCode, Expected, SerdeError, SerdeResult, SizedKind};
use vstd::prelude::*;

verus! {

/// The header of an encoded value.
///
/// `F64` carries the IEEE 754 bits of the float, the form in which the
/// format stores it. The sized variants carry the number of bytes, elements,
/// entries or fields that follow; `List(usize::MAX)` and `Dictionary(usize::MAX)`
/// stand for streams that an `EOS` marker ends.
#[derive(Debug, Clone, Copy, PartialEq, Eq, Structural)]
pub enum Marker {
    I64(i64),
    F64(u64),
    String(usize),
    List(usize),
    Bytes(usize),
    Dictionary(usize),
    Struct(usize),
    Null,
    True,
    False,
    EOS,
}

/// The `n` low-order base-256 digits of `v`, most significant first
/// (two's complement for negative `v`).
pub open spec fn be_bytes(v: int, n: nat) -> Seq<u8>
    decreases n,
{
    if n == 0 {
        Seq::empty()
    } else {
        be_bytes(v / 256, (n - 1) as nat).push((v % 256) as u8)
    }
}

/// The bytes of the header of the integer `v`: the smallest of the five
/// integer forms that holds it.
pub open spec fn int_bytes(v: int) -> Seq<u8> {
    if -0x10 <= v <= 0x7F {
        be_bytes(v, 1)
    } else if -0x80 <= v <= 0x7F {
        seq![INT_8] + be_bytes(v, 1)
    } else if -0x8000 <= v <= 0x7FFF {
        seq![INT_16] + be_bytes(v, 2)
    } else if -0x8000_0000 <= v <= 0x7FFF_FFFF {
        seq![INT_32] + be_bytes(v, 4)
    } else {
        seq![INT_64] + be_bytes(v, 8)
    }
}

/// The bytes of a size field: a tiny marker (when there is one) holds sizes
/// below 16, then one, two or four size bytes follow their markers.
/// `None` where no form holds the size.
pub open spec fn size_bytes(tiny: Option<u8>, m8: u8, m16: u8, m32: Option<u8>, size: int) -> Option<
    Seq<u8>,
> {
    if tiny is Some && 0 <= size <= 0xF {
        Some(seq![(tiny->0 + size) as u8])
    } else if 0 <= size <= 0xFF {
        Some(seq![m8, size as u8])
    } else if 0 <= size <= 0xFFFF {
        Some(seq![m16] + be_bytes(size, 2))
    } else if m32 is Some && 0 <= size <= 0xFFFF_FFFF {
        Some(seq![m32->0] + be_bytes(size, 4))
    } else {
        None
    }
}

/// The encoding of a marker; `None` for a string, byte array or structure
/// too large for its size field. Lists and maps too large for a 32-bit size
/// are written as stream markers.
pub open spec fn marker_bytes(m: Marker) -> Option<Seq<u8>> {
    match m {
        Marker::I64(v) => Some(int_bytes(v as int)),
        Marker::F64(bits) => Some(seq![FLOAT_64] + be_bytes(bits as int, 8)),
        Marker::String(n) => size_bytes(Some(TINY_STRING), STRING_8, STRING_16, Some(STRING_32), n as int),
        Marker::List(n) => match size_bytes(Some(TINY_LIST), LIST_8, LIST_16, Some(LIST_32), n as int) {
            Some(b) => Some(b),
            None => Some(seq![LIST_STREAM]),
        },
        Marker::Bytes(n) => size_bytes(None, BYTES_8, BYTES_16, Some(BYTES_32), n as int),
        Marker::Dictionary(n) => match size_bytes(Some(TINY_MAP), MAP_8, MAP_16, Some(MAP_32), n as int) {
            Some(b) => Some(b),
            None => Some(seq![MAP_STREAM]),
        },
        Marker::Struct(n) => size_bytes(Some(TINY_STRUCT), STRUCT_8, STRUCT_16, None, n as int),
        Marker::Null => Some(seq![NULL]),
        Marker::True => Some(seq![TRUE]),
        Marker::False => Some(seq![FALSE]),
        Marker::EOS => Some(seq![END_OF_STREAM]),
    }
}

/// The error of a size too large for the marker's size field.
pub open spec fn size_error(m: Marker) -> ErrorCode {
    match m {
        Marker::String(n) => ErrorCode::TypeSizeExceeded { kind: SizedKind::String, len: n, max_len: 0xFFFF_FFFF },
        Marker::Bytes(n) => ErrorCode::TypeSizeExceeded { kind: SizedKind::Bytes, len: n, max_len: 0xFFFF_FFFF },
        Marker::Struct(n) => ErrorCode::TypeSizeExceeded { kind: SizedKind::Struct, len: n, max_len: 0xFFFF },
        _ => ErrorCode::UnexpectedEndOfBytes,
    }
}

/// Whether the marker carries a size.
pub open spec fn is_sized(m: Marker) -> bool {
    ||| m is String
    ||| m is List
    ||| m is Bytes
    ||| m is Dictionary
    ||| m is Struct
}

/// The size a sized marker carries.
pub open spec fn marker_size(m: Marker) -> int {
    match m {
        Marker::String(n) | Marker::List(n) | Marker::Bytes(n) | Marker::Dictionary(n) | Marker::Struct(
            n,
        ) => n as int,
        _ => 0,
    }
}

/// The marker of the same type with the given size.
pub open spec fn with_size(m: Marker, n: usize) -> Marker {
    match m {
        Marker::String(_) => Marker::String(n),
        Marker::List(_) => Marker::List(n),
        Marker::Bytes(_) => Marker::Bytes(n),
        Marker::Dictionary(_) => Marker::Dictionary(n),
        Marker::Struct(_) => Marker::Struct(n),
        other => other,
    }
}

proof fn lemma_shift_byte(v: u64)
    ensures
        (v >> 8u64) as int == v as int / 256,
        (v & 0xffu64) as int == v as int % 256,
{
    assert((v >> 8u64) == v / 256) by (bit_vector);
    assert((v & 0xffu64) == v % 256) by (bit_vector);
}

/// Appends the `n` low-order bytes of `v`, most significant first.
fn push_be(vec: &mut Vec<u8>, v: u64, n: usize)
    requires
        n <= 8,
    ensures
        final(vec)@ == old(vec)@ + be_bytes(v as int, n as nat),
    decreases n,
{
    if n > 0 {
        proof {
            lemma_shift_byte(v);
        }
        push_be(vec, v >> 8, n - 1);
        let b = (v & 0xff) as u8;
        let ghost mid = vec@;
        vec.push(b);
        assert(be_bytes(v as int, n as nat) == be_bytes(v as int / 256, (n - 1) as nat).push(
            (v as int % 256) as u8,
        ));
        assert(vec@ =~= old(vec)@ + be_bytes(v as int, n as nat));
    }
}

proof fn lemma_shift_byte_i64(v: i64)
    ensures
        (v >> 8u64) as int == v as int / 256,
        (v & 0xffi64) as int == v as int % 256,
{
    assert((v >> 8u64) as int == v as int / 256) by (bit_vector);
    assert((v & 0xffi64) as int == v as int % 256) by (bit_vector);
}

/// Appends the `n` low-order bytes of `v` (two's complement), most
/// significant first.
fn push_be_i64(vec: &mut Vec<u8>, v: i64, n: usize)
    requires
        n <= 8,
    ensures
        final(vec)@ == old(vec)@ + be_bytes(v as int, n as nat),
    decreases n,
{
    if n > 0 {
        proof {
            lemma_shift_byte_i64(v);
        }
        push_be_i64(vec, v >> 8, n - 1);
        let b = (v & 0xff) as u8;
        vec.push(b);
        assert(vec@ =~= old(vec)@ + be_bytes(v as int, n as nat));
    }
}

/// Appends the size field of a sized marker; `false`, and nothing appended,
/// where no form holds the size.
fn push_size(vec: &mut Vec<u8>, tiny: Option<u8>, m8: u8, m16: u8, m32: Option<u8>, size: usize) -> (fits: bool)
    requires
        tiny matches Some(t) ==> t as int + 0xF <= 0xFF,
    ensures
        match size_bytes(tiny, m8, m16, m32, size as int) {
            Some(b) => fits && final(vec)@ == old(vec)@ + b,
            None => !fits && final(vec)@ == old(vec)@,
        },
{
    if tiny.is_some() && size <= 0xF {
        let t = tiny.unwrap();
        vec.push(t + size as u8);
        assert(vec@ =~= old(vec)@ + seq![(t + size) as u8]);
    } else if size <= 0xFF {
        vec.push(m8);
        vec.push(size as u8);
        assert(vec@ =~= old(vec)@ + seq![m8, size as u8]);
    } else if size <= 0xFFFF {
        vec.push(m16);
        push_be(vec, size as u64, 2);
        assert(vec@ =~= old(vec)@ + (seq![m16] + be_bytes(size as int, 2)));
    } else if m32.is_some() && size <= 0xFFFF_FFFF {
        let m = m32.unwrap();
        vec.push(m);
        push_be(vec, size as u64, 4);
        assert(vec@ =~= old(vec)@ + (seq![m] + be_bytes(size as int, 4)));
    } else {
        return false;
    }
    true
}

/// The error of a size that the marker's size field cannot hold.
fn type_size_exceeded(marker_type: SizedKind, len: usize, max_len: usize) -> (e: SerdeError)
    ensures
        e.code == (ErrorCode::TypeSizeExceeded { kind: marker_type, len, max_len }),
{
    SerdeError::create(ErrorCode::TypeSizeExceeded { kind: marker_type, len, max_len })
}

impl Marker {
    /// Adds `size` to the size of a sized marker; fails on any other marker.
    pub fn inc_size(&mut self, size: usize) -> (r: SerdeResult<()>)
        requires
            is_sized(*old(self)) ==> marker_size(*old(self)) + size <= usize::MAX,
        ensures
            is_sized(*old(self)) ==> r is Ok && *final(self) == with_size(
                *old(self),
                (marker_size(*old(self)) + size) as usize,
            ),
            !is_sized(*old(self)) ==> {
                &&& *final(self) == *old(self)
                &&& r matches Err(e) && e.code == (ErrorCode::UnexpectedMarker {
                    expected: Expected::SizedMarker,
                    actual: *old(self),
                })
            },
    {
        match self {
            Marker::String(len) => *len = *len + size,
            Marker::List(len) => *len = *len + size,
            Marker::Bytes(len) => *len = *len + size,
            Marker::Dictionary(len) => *len = *len + size,
            Marker::Struct(len) => *len = *len + size,
            _ => {
                return Err(
                    SerdeError::create(
                        ErrorCode::UnexpectedMarker { expected: Expected::SizedMarker, actual: *self },
                    ),
                );
            },
        };
        Ok(())
    }

    /// Appends the encoding of the marker to `vec`.
    pub fn append_to_vec(&self, vec: &mut Vec<u8>) -> (r: SerdeResult<()>)
        ensures
            match marker_bytes(*self) {
                Some(b) => r is Ok && final(vec)@ == old(vec)@ + b,
                None => {
                    &&& final(vec)@ == old(vec)@
                    &&& r matches Err(e) && e.code == size_error(*self)
                },
            },
    {
        match *self {
            Marker::I64(num) => {
                if -0x10 <= num && num <= 0x7F {
                    push_be_i64(vec, num, 1);
                } else if -0x80 <= num && num <= 0x7F {
                    vec.push(INT_8);
                    push_be_i64(vec, num, 1);
                    assert(vec@ =~= old(vec)@ + int_bytes(num as int));
                } else if -0x8000 <= num && num <= 0x7FFF {
                    vec.push(INT_16);
                    push_be_i64(vec, num, 2);
                    assert(vec@ =~= old(vec)@ + int_bytes(num as int));
                } else if -0x8000_0000 <= num && num <= 0x7FFF_FFFF {
                    vec.push(INT_32);
                    push_be_i64(vec, num, 4);
                    assert(vec@ =~= old(vec)@ + int_bytes(num as int));
                } else {
                    vec.push(INT_64);
                    push_be_i64(vec, num, 8);
                    assert(vec@ =~= old(vec)@ + int_bytes(num as int));
                }
            },
            Marker::F64(bits) => {
                vec.push(FLOAT_64);
                push_be(vec, bits, 8);
                assert(vec@ =~= old(vec)@ + (seq![FLOAT_64] + be_bytes(bits as int, 8)));
            },
            Marker::String(size) => {
                if !push_size(vec, Some(TINY_STRING), STRING_8, STRING_16, Some(STRING_32), size) {
                    return Err(type_size_exceeded(SizedKind::String, size, 0xFFFF_FFFF));
                }
            },
            Marker::List(size) => {
                if !push_size(vec, Some(TINY_LIST), LIST_8, LIST_16, Some(LIST_32), size) {
                    vec.push(LIST_STREAM);
                }
            },
            Marker::Bytes(size) => {
                if !push_size(vec, None, BYTES_8, BYTES_16, Some(BYTES_32), size) {
                    return Err(type_size_exceeded(SizedKind::Bytes, size, 0xFFFF_FFFF));
                }
            },
            Marker::Dictionary(size) => {
                if !push_size(vec, Some(TINY_MAP), MAP_8, MAP_16, Some(MAP_32), size) {
                    vec.push(MAP_STREAM);
                }
            },
            Marker::Struct(size) => {
                if !push_size(vec, Some(TINY_STRUCT), STRUCT_8, STRUCT_16, None, size) {
                    return Err(type_size_exceeded(SizedKind::Struct, size, 0xFFFF));
                }
            },
            Marker::Null => vec.push(NULL),
            Marker::True => vec.push(TRUE),
            Marker::False => vec.push(FALSE),
            Marker::EOS => vec.push(END_OF_STREAM),
        };
        Ok(())
    }

    /// The encoding of the marker.
    pub fn to_vec(&self) -> (r: SerdeResult<Vec<u8>>)
        ensures
            match marker_bytes(*self) {
                Some(b) => r matches Ok(v) && v@ == b,
                None => r matches Err(e) && e.code == size_error(*self),
            },
    {
        let mut vec = Vec::new();
        self.append_to_vec(&mut vec)?;
        assert(vec@ =~= Seq::<u8>::empty() + vec@);
        Ok(vec)
    }
}

} // verus!
