//! Decoding PackStream bytes.
use crate::constants::{STRUCTURE_FIELDS_KEY, STRUCTURE_SIG_KEY};
use crate::error::{fails_with, ErrorCode, Expected, SerdeError, SerdeResult};
use crate::marker::Marker;
use crate::read::{advanced, decode_marker, lemma_decode_marker_header, ByteReader};
use crate::value::{dict_insert, lemma_model_parts, models, Value, ValueMap, ValueModel};
use vstd::prelude::*;
use vstd::utf8::{decode_utf8, encode_utf8, valid_utf8};

verus! {

/// The characters of the signature key.
pub open spec fn sig_key() -> Seq<char> {
    STRUCTURE_SIG_KEY@
}

/// The characters of the fields key.
pub open spec fn fields_key() -> Seq<char> {
    STRUCTURE_FIELDS_KEY@
}

/// The text held in `len` bytes at `p`: the error where the input is
/// shorter or the bytes are not UTF-8.
pub open spec fn decode_text(bytes: Seq<u8>, p: int, len: int) -> Result<Seq<char>, ErrorCode> {
    if len > bytes.len() - p {
        Err(ErrorCode::UnexpectedEndOfBytes)
    } else if valid_utf8(bytes.subrange(p, p + len)) {
        Ok(decode_utf8(bytes.subrange(p, p + len)))
    } else {
        Err(ErrorCode::InvalidUtf8)
    }
}

/// A string at `p`, with the position after it; the error where a marker of
/// another type stands there.
pub open spec fn decode_key(bytes: Seq<u8>, p: int) -> Result<(Seq<char>, int), ErrorCode> {
    match decode_marker(bytes, p) {
        Err(e) => Err(e),
        Ok((Marker::String(len), h)) => match decode_text(bytes, p + h, len as int) {
            Ok(s) => Ok((s, p + h + len)),
            Err(e) => Err(e),
        },
        Ok((m, _)) => Err(ErrorCode::UnexpectedMarker { expected: Expected::String, actual: m }),
    }
}

/// The value at `pos`, with the position after it.
///
/// The checks that a position moved forward never fail (a header is at least
/// one byte long and every read ends past its start); they make it plain
/// that the recursion ends.
pub open spec fn decode_value(bytes: Seq<u8>, pos: int) -> Result<(ValueModel, int), ErrorCode>
    decreases bytes.len() - pos, 0int,
{
    match decode_marker(bytes, pos) {
        Err(e) => Err(e),
        Ok((m, h)) => {
            let p = pos + h;
            if h < 1 || p > bytes.len() {
                Err(ErrorCode::UnexpectedEndOfBytes)
            } else {
                match m {
                    Marker::Null => Ok((ValueModel::Null, p)),
                    Marker::True => Ok((ValueModel::Bool(true), p)),
                    Marker::False => Ok((ValueModel::Bool(false), p)),
                    Marker::I64(v) => Ok((ValueModel::I64(v), p)),
                    Marker::F64(bits) => Ok((ValueModel::F64(bits), p)),
                    Marker::String(len) => match decode_text(bytes, p, len as int) {
                        Ok(s) => Ok((ValueModel::String(s), p + len)),
                        Err(e) => Err(e),
                    },
                    Marker::Bytes(len) => if len <= bytes.len() - p {
                        Ok((ValueModel::Bytes(bytes.subrange(p, p + len)), p + len))
                    } else {
                        Err(ErrorCode::UnexpectedEndOfBytes)
                    },
                    Marker::List(n) => match decode_seq(bytes, p, n as int) {
                        Ok((items, q)) => Ok((ValueModel::List(items), q)),
                        Err(e) => Err(e),
                    },
                    Marker::Struct(n) => if p < bytes.len() {
                        match decode_seq(bytes, p + 1, n as int) {
                            Ok((items, q)) => Ok((ValueModel::Structure(bytes[p], items), q)),
                            Err(e) => Err(e),
                        }
                    } else {
                        Err(ErrorCode::UnexpectedEndOfBytes)
                    },
                    Marker::Dictionary(n) => decode_dict(bytes, p, n as int),
                    Marker::EOS => Err(
                        ErrorCode::UnexpectedMarker { expected: Expected::NotEndOfStream, actual: m },
                    ),
                }
            }
        },
    }
}

/// The elements of a list or structure of `n` elements at `p`: an
/// end-of-stream marker in place of an element ends the sequence early.
pub open spec fn decode_seq(bytes: Seq<u8>, p: int, n: int) -> Result<(Seq<ValueModel>, int), ErrorCode>
    decreases bytes.len() - p, 1int,
{
    if n <= 0 {
        Ok((Seq::empty(), p))
    } else if decode_marker(bytes, p) == Ok::<(Marker, nat), ErrorCode>((Marker::EOS, 1)) {
        Ok((Seq::empty(), p + 1))
    } else {
        match decode_value(bytes, p) {
            Err(e) => Err(e),
            Ok((v, q)) => if q <= p || q > bytes.len() {
                Err(ErrorCode::UnexpectedEndOfBytes)
            } else {
                match decode_seq(bytes, q, n - 1) {
                    Ok((items, r)) => Ok((seq![v] + items, r)),
                    Err(e) => Err(e),
                }
            },
        }
    }
}

/// A dictionary of `n` entries at `p`. A dictionary whose first key is the
/// signature key is read as a structure.
pub open spec fn decode_dict(bytes: Seq<u8>, p: int, n: int) -> Result<(ValueModel, int), ErrorCode>
    decreases bytes.len() - p, 1int,
{
    if n <= 0 {
        Ok((ValueModel::Dictionary(Seq::empty()), p))
    } else {
        match decode_key(bytes, p) {
            Err(e) => Err(e),
            Ok((k, p1)) => if p1 <= p || p1 > bytes.len() {
                Err(ErrorCode::UnexpectedEndOfBytes)
            } else if k == sig_key() {
                decode_struct_entries(bytes, p1, n)
            } else {
                match decode_value(bytes, p1) {
                    Err(e) => Err(e),
                    Ok((v, p2)) => if p2 <= p1 || p2 > bytes.len() {
                        Err(ErrorCode::UnexpectedEndOfBytes)
                    } else {
                        decode_entries(bytes, p2, n - 1, dict_insert(Seq::empty(), k, v))
                    },
                }
            },
        }
    }
}

/// The remaining `n` entries of a dictionary at `p`, added to `acc`.
pub open spec fn decode_entries(
    bytes: Seq<u8>,
    p: int,
    n: int,
    acc: Seq<(Seq<char>, ValueModel)>,
) -> Result<(ValueModel, int), ErrorCode>
    decreases bytes.len() - p, 1int,
{
    if n <= 0 {
        Ok((ValueModel::Dictionary(acc), p))
    } else {
        match decode_key(bytes, p) {
            Err(e) => Err(e),
            Ok((k, p1)) => if p1 <= p || p1 > bytes.len() {
                Err(ErrorCode::UnexpectedEndOfBytes)
            } else {
                match decode_value(bytes, p1) {
                    Err(e) => Err(e),
                    Ok((v, p2)) => if p2 <= p1 || p2 > bytes.len() {
                        Err(ErrorCode::UnexpectedEndOfBytes)
                    } else {
                        decode_entries(bytes, p2, n - 1, dict_insert(acc, k, v))
                    },
                }
            },
        }
    }
}

/// The rest of a structure read as a dictionary of `n` entries, after its
/// signature key: the signature, the fields key, the fields, and no more
/// keys.
pub open spec fn decode_struct_entries(bytes: Seq<u8>, p: int, n: int) -> Result<(ValueModel, int), ErrorCode>
    decreases bytes.len() - p, 1int,
{
    match decode_marker(bytes, p) {
        Err(e) => Err(e),
        Ok((Marker::I64(v), h)) => if !(0 <= v <= 255) {
            Err(ErrorCode::IntegerOutOfRange(v))
        } else if n - 1 <= 0 {
            Err(ErrorCode::MissingKey)
        } else {
            match decode_key(bytes, p + h) {
                Err(e) => Err(e),
                Ok((k, p2)) => if k != fields_key() {
                    Err(ErrorCode::UnexpectedKey)
                } else {
                    match decode_marker(bytes, p2) {
                        Err(e) => Err(e),
                        Ok((Marker::List(len), h2)) => if p2 + h2 <= p || p2 + h2 > bytes.len() {
                            Err(ErrorCode::UnexpectedEndOfBytes)
                        } else {
                            match decode_seq(bytes, p2 + h2, len as int) {
                                Err(e) => Err(e),
                                Ok((items, q)) => if n - 2 <= 0 {
                                    Ok((ValueModel::Structure(v as u8, items), q))
                                } else {
                                    match decode_key(bytes, q) {
                                        Err(e) => Err(e),
                                        Ok(_) => Err(ErrorCode::UnexpectedKey),
                                    }
                                },
                            }
                        },
                        Ok((m, _)) => Err(ErrorCode::UnexpectedMarker { expected: Expected::List, actual: m }),
                    }
                },
            }
        },
        Ok((m, _)) => Err(ErrorCode::UnexpectedMarker { expected: Expected::I64, actual: m }),
    }
}

/// The value that the whole input holds: the error where bytes are left
/// after it.
pub open spec fn decode_all(bytes: Seq<u8>) -> Result<ValueModel, ErrorCode> {
    match decode_value(bytes, 0) {
        Err(e) => Err(e),
        Ok((v, q)) => if q == bytes.len() {
            Ok(v)
        } else {
            Err(ErrorCode::UnexpectedTrailingBytes)
        },
    }
}

/// The reader after a marker read: the marker consumed where it was read,
/// unchanged where reading it failed.
pub open spec fn after_marker<'a>(rd: ByteReader<'a>) -> ByteReader<'a> {
    match rd.spec_peek() {
        Ok(_) => rd.after_consume(),
        Err(_) => rd,
    }
}

/// What reading a string from `rd` gives: its text, or the error.
pub open spec fn string_read(rd: ByteReader) -> Result<Seq<char>, ErrorCode> {
    match rd.spec_peek() {
        Ok(Marker::String(len)) => match rd.after_consume().spec_payload(len as nat) {
            Ok(b) => if valid_utf8(b) {
                Ok(decode_utf8(b))
            } else {
                Err(ErrorCode::InvalidUtf8)
            },
            Err(c) => Err(c),
        },
        Ok(m) => Err(ErrorCode::UnexpectedMarker { expected: Expected::String, actual: m }),
        Err(c) => Err(c),
    }
}

/// What reading a byte array from `rd` gives: its bytes, or the error.
pub open spec fn bytes_read(rd: ByteReader) -> Result<Seq<u8>, ErrorCode> {
    match rd.spec_peek() {
        Ok(Marker::Bytes(len)) => rd.after_consume().spec_payload(len as nat),
        Ok(m) => Err(ErrorCode::UnexpectedMarker { expected: Expected::Bytes, actual: m }),
        Err(c) => Err(c),
    }
}

/// What reading a character from `rd` gives: the one character of a string
/// that holds exactly one; the error otherwise.
pub open spec fn char_read(rd: ByteReader) -> Result<char, ErrorCode> {
    match rd.spec_peek() {
        Ok(Marker::String(len)) => match string_read(rd) {
            Ok(t) => if t.len() == 1 {
                Ok(t[0])
            } else {
                Err(ErrorCode::UnexpectedMarker { expected: Expected::String1, actual: Marker::String(len) })
            },
            Err(c) => Err(c),
        },
        Ok(m) => Err(ErrorCode::UnexpectedMarker { expected: Expected::String1, actual: m }),
        Err(c) => Err(c),
    }
}

/// The reader after reading a string (`string`) or a byte array (otherwise):
/// where the marker announces that kind, marker and payload are consumed;
/// where it announces another, only the marker is; where no marker can be
/// read, nothing is.
pub open spec fn after_payload_read<'a>(rd: ByteReader<'a>, string: bool) -> ByteReader<'a> {
    match rd.spec_peek() {
        Ok(Marker::String(len)) if string => rd.after_consume().after_payload(len as nat),
        Ok(Marker::Bytes(len)) if !string => rd.after_consume().after_payload(len as nat),
        _ => after_marker(rd),
    }
}

/// The text of valid UTF-8 bytes (`std::str::from_utf8`); `None` where the
/// bytes are not valid UTF-8. The text's UTF-8 encoding is the bytes.
#[verifier::external_body]
fn str_from_utf8<'a>(bytes: &'a [u8]) -> (r: Option<&'a str>)
    ensures
        r is Some <==> valid_utf8(bytes@),
        r matches Some(s) ==> encode_utf8(s@) == bytes@,
{
    std::str::from_utf8(bytes).ok()
}

/// The text of the bytes, where they are valid UTF-8.
fn text_of(bytes: &[u8]) -> (r: SerdeResult<&str>)
    ensures
        valid_utf8(bytes@) ==> (r matches Ok(s) && s@ == decode_utf8(bytes@)),
        !valid_utf8(bytes@) ==> fails_with(r, ErrorCode::InvalidUtf8),
{
    match str_from_utf8(bytes) {
        Some(s) => {
            proof {
                vstd::utf8::encode_utf8_decode_utf8(s@);
            }
            Ok(s)
        },
        None => Err(SerdeError::create(ErrorCode::InvalidUtf8)),
    }
}

/// The character of a text of exactly one character; `None` otherwise.
fn only_char(s: &str) -> (r: Option<char>)
    ensures
        s@.len() == 1 ==> r == Some(s@[0]),
        s@.len() != 1 ==> r is None,
{
    broadcast use vstd::string::axiom_spec_iter, vstd::string::next_postcondition;

    let mut chars = s.chars();
    let first = chars.next();
    let second = chars.next();
    match (first, second) {
        (Some(c), None) => Some(c),
        _ => None,
    }
}

/// In a reader with no virtual marker or value, reading a string reads the
/// key at the reader's position.
proof fn lemma_string_read_key(rd: ByteReader)
    requires
        rd.wf(),
        rd.virtual_marker is None,
        rd.virtual_value is None,
    ensures
        match decode_key(rd.bytes@, rd.index as int) {
            Ok((k, p1)) => {
                &&& string_read(rd) == Ok::<Seq<char>, ErrorCode>(k)
                &&& after_payload_read(rd, true).index == p1
                &&& rd.index < p1
            },
            Err(c) => string_read(rd) == Err::<Seq<char>, ErrorCode>(c),
        },
{
    let dm = decode_marker(rd.bytes@, rd.index as int);
    lemma_decode_marker_header(rd.bytes@, rd.index as int);
    match dm {
        Ok((Marker::String(len), h)) => {
            assert(rd.after_consume().index == rd.index + h);
        },
        _ => {},
    }
}

/// A decoder of PackStream bytes: reads markers and their payloads one step
/// at a time, or whole values.
#[derive(Debug)]
pub struct Deserializer<'de> {
    pub read: ByteReader<'de>,
}

impl<'de> Deserializer<'de> {
    /// The decoder's invariant: that of its reader, with no header pending
    /// beside a virtual marker.
    pub open spec fn wf(&self) -> bool {
        self.read.wf() && self.read.settled()
    }

    /// Whether no virtual marker or value is pending: the reader reads the
    /// input alone.
    pub open spec fn plain(&self) -> bool {
        &&& self.read.wf()
        &&& self.read.virtual_marker is None
        &&& self.read.virtual_value is None
    }

    /// A decoder at the start of `bytes`.
    pub fn new(bytes: &'de [u8]) -> (d: Self)
        ensures
            d.plain(),
            d.read.bytes == bytes,
            d.read.index == 0,
            d.read.peeked == 0,
    {
        Deserializer { read: ByteReader::new(bytes) }
    }

    /// Succeeds where the whole input was consumed.
    pub fn is_done(&self) -> (r: SerdeResult<()>)
        ensures
            r is Ok <==> self.read.index == self.read.bytes@.len(),
            r is Err ==> fails_with(r, ErrorCode::UnexpectedTrailingBytes),
    {
        if self.read.is_done() {
            Ok(())
        } else {
            Err(SerdeError::create(ErrorCode::UnexpectedTrailingBytes))
        }
    }

    /// Reads a boolean marker.
    pub fn parse_bool(&mut self) -> (r: SerdeResult<bool>)
        requires
            old(self).wf(),
        ensures
            final(self).wf(),
            advanced(old(self).read, final(self).read),
            r is Ok && old(self).read.virtual_marker is None ==> old(self).read.index < final(self).read.index,
            final(self).read == after_marker(old(self).read),
            match old(self).read.spec_peek() {
                Ok(Marker::True) => r == Ok::<bool, SerdeError>(true),
                Ok(Marker::False) => r == Ok::<bool, SerdeError>(false),
                Ok(m) => fails_with(r, ErrorCode::UnexpectedMarker { expected: Expected::Boolean, actual: m }),
                Err(c) => fails_with(r, c),
            },
    {
        match self.read.consume_marker()? {
            Marker::True => Ok(true),
            Marker::False => Ok(false),
            m => Err(SerdeError::create(ErrorCode::UnexpectedMarker { expected: Expected::Boolean, actual: m })),
        }
    }

    /// Reads an integer marker whose value lies in `min..=max`, the range of
    /// the integer type the caller asks for.
    pub fn parse_int(&mut self, min: i64, max: i64) -> (r: SerdeResult<i64>)
        requires
            old(self).wf(),
        ensures
            final(self).wf(),
            advanced(old(self).read, final(self).read),
            r is Ok && old(self).read.virtual_marker is None ==> old(self).read.index < final(self).read.index,
            final(self).read == after_marker(old(self).read),
            match old(self).read.spec_peek() {
                Ok(Marker::I64(v)) => if min <= v <= max {
                    r == Ok::<i64, SerdeError>(v)
                } else {
                    fails_with(r, ErrorCode::IntegerOutOfRange(v))
                },
                Ok(m) => fails_with(r, ErrorCode::UnexpectedMarker { expected: Expected::I64, actual: m }),
                Err(c) => fails_with(r, c),
            },
    {
        match self.read.consume_marker()? {
            Marker::I64(v) => if min <= v && v <= max {
                Ok(v)
            } else {
                Err(SerdeError::create(ErrorCode::IntegerOutOfRange(v)))
            },
            m => Err(SerdeError::create(ErrorCode::UnexpectedMarker { expected: Expected::I64, actual: m })),
        }
    }

    /// Reads a float marker; gives the float's IEEE 754 bits.
    pub fn parse_f64(&mut self) -> (r: SerdeResult<u64>)
        requires
            old(self).wf(),
        ensures
            final(self).wf(),
            advanced(old(self).read, final(self).read),
            r is Ok && old(self).read.virtual_marker is None ==> old(self).read.index < final(self).read.index,
            final(self).read == after_marker(old(self).read),
            match old(self).read.spec_peek() {
                Ok(Marker::F64(bits)) => r == Ok::<u64, SerdeError>(bits),
                Ok(m) => fails_with(r, ErrorCode::UnexpectedMarker { expected: Expected::F64, actual: m }),
                Err(c) => fails_with(r, c),
            },
    {
        match self.read.consume_marker()? {
            Marker::F64(bits) => Ok(bits),
            m => Err(SerdeError::create(ErrorCode::UnexpectedMarker { expected: Expected::F64, actual: m })),
        }
    }

    /// Reads a string that holds exactly one character, in UTF-8, as that
    /// character.
    pub fn parse_char(&mut self) -> (r: SerdeResult<char>)
        requires
            old(self).wf(),
        ensures
            final(self).wf(),
            advanced(old(self).read, final(self).read),
            r is Ok && old(self).read.virtual_marker is None ==> old(self).read.index < final(self).read.index,
            final(self).read == after_payload_read(old(self).read, true),
            match char_read(old(self).read) {
                Ok(c) => r == Ok::<char, SerdeError>(c),
                Err(c) => fails_with(r, c),
            },
    {
        match self.read.consume_marker()? {
            Marker::String(len) => {
                let b = self.read.consume_bytes(len)?;
                let text = text_of(b)?;
                match only_char(text) {
                    Some(c) => Ok(c),
                    None => Err(
                        SerdeError::create(
                            ErrorCode::UnexpectedMarker { expected: Expected::String1, actual: Marker::String(len) },
                        ),
                    ),
                }
            },
            m => Err(SerdeError::create(ErrorCode::UnexpectedMarker { expected: Expected::String1, actual: m })),
        }
    }

    /// Reads a string; the text borrows from the input.
    pub fn parse_str(&mut self) -> (r: SerdeResult<&'de str>)
        requires
            old(self).wf(),
        ensures
            final(self).wf(),
            advanced(old(self).read, final(self).read),
            r is Ok && old(self).read.virtual_marker is None ==> old(self).read.index < final(self).read.index,
            final(self).read == after_payload_read(old(self).read, true),
            match string_read(old(self).read) {
                Ok(t) => r matches Ok(s) && s@ == t,
                Err(c) => fails_with(r, c),
            },
    {
        match self.read.consume_marker()? {
            Marker::String(len) => {
                let b = self.read.consume_bytes(len)?;
                text_of(b)
            },
            m => Err(SerdeError::create(ErrorCode::UnexpectedMarker { expected: Expected::String, actual: m })),
        }
    }

    /// Reads a string into an owned `String`.
    pub fn parse_string(&mut self) -> (r: SerdeResult<String>)
        requires
            old(self).wf(),
        ensures
            final(self).wf(),
            advanced(old(self).read, final(self).read),
            r is Ok && old(self).read.virtual_marker is None ==> old(self).read.index < final(self).read.index,
            final(self).read == after_payload_read(old(self).read, true),
            match string_read(old(self).read) {
                Ok(t) => r matches Ok(s) && s@ == t,
                Err(c) => fails_with(r, c),
            },
    {
        let s = self.parse_str()?;
        Ok(s.to_owned())
    }

    /// Reads a byte array; the bytes borrow from the input.
    pub fn parse_bytes(&mut self) -> (r: SerdeResult<&'de [u8]>)
        requires
            old(self).wf(),
        ensures
            final(self).wf(),
            advanced(old(self).read, final(self).read),
            r is Ok && old(self).read.virtual_marker is None ==> old(self).read.index < final(self).read.index,
            final(self).read == after_payload_read(old(self).read, false),
            match bytes_read(old(self).read) {
                Ok(b) => r matches Ok(s) && s@ == b,
                Err(c) => fails_with(r, c),
            },
    {
        match self.read.consume_marker()? {
            Marker::Bytes(len) => self.read.consume_bytes(len),
            m => Err(SerdeError::create(ErrorCode::UnexpectedMarker { expected: Expected::Bytes, actual: m })),
        }
    }

    /// Reads a null marker.
    pub fn parse_null(&mut self) -> (r: SerdeResult<()>)
        requires
            old(self).wf(),
        ensures
            final(self).wf(),
            advanced(old(self).read, final(self).read),
            r is Ok && old(self).read.virtual_marker is None ==> old(self).read.index < final(self).read.index,
            final(self).read == after_marker(old(self).read),
            match old(self).read.spec_peek() {
                Ok(Marker::Null) => r is Ok,
                Ok(m) => fails_with(r, ErrorCode::UnexpectedMarker { expected: Expected::Null, actual: m }),
                Err(c) => fails_with(r, c),
            },
    {
        match self.read.consume_marker()? {
            Marker::Null => Ok(()),
            m => Err(SerdeError::create(ErrorCode::UnexpectedMarker { expected: Expected::Null, actual: m })),
        }
    }

    /// Reads a list marker; gives the number of elements.
    pub fn parse_list(&mut self) -> (r: SerdeResult<usize>)
        requires
            old(self).wf(),
        ensures
            final(self).wf(),
            advanced(old(self).read, final(self).read),
            r is Ok && old(self).read.virtual_marker is None ==> old(self).read.index < final(self).read.index,
            final(self).read == after_marker(old(self).read),
            match old(self).read.spec_peek() {
                Ok(Marker::List(n)) => r == Ok::<usize, SerdeError>(n),
                Ok(m) => fails_with(r, ErrorCode::UnexpectedMarker { expected: Expected::List, actual: m }),
                Err(c) => fails_with(r, c),
            },
    {
        match self.read.consume_marker()? {
            Marker::List(n) => Ok(n),
            m => Err(SerdeError::create(ErrorCode::UnexpectedMarker { expected: Expected::List, actual: m })),
        }
    }

    /// Reads a map marker; gives the number of entries.
    pub fn parse_map(&mut self) -> (r: SerdeResult<usize>)
        requires
            old(self).wf(),
        ensures
            final(self).wf(),
            advanced(old(self).read, final(self).read),
            r is Ok && old(self).read.virtual_marker is None ==> old(self).read.index < final(self).read.index,
            final(self).read == after_marker(old(self).read),
            match old(self).read.spec_peek() {
                Ok(Marker::Dictionary(n)) => r == Ok::<usize, SerdeError>(n),
                Ok(m) => fails_with(r, ErrorCode::UnexpectedMarker { expected: Expected::Dictionary, actual: m }),
                Err(c) => fails_with(r, c),
            },
    {
        match self.read.consume_marker()? {
            Marker::Dictionary(n) => Ok(n),
            m => Err(SerdeError::create(ErrorCode::UnexpectedMarker { expected: Expected::Dictionary, actual: m })),
        }
    }

    /// Reads a map or a structure marker; gives whether it is a map, and
    /// its number of entries or fields.
    pub fn parse_map_or_struct(&mut self) -> (r: SerdeResult<(bool, usize)>)
        requires
            old(self).wf(),
        ensures
            final(self).wf(),
            advanced(old(self).read, final(self).read),
            r is Ok && old(self).read.virtual_marker is None ==> old(self).read.index < final(self).read.index,
            final(self).read == after_marker(old(self).read),
            match old(self).read.spec_peek() {
                Ok(Marker::Dictionary(n)) => r == Ok::<(bool, usize), SerdeError>((true, n)),
                Ok(Marker::Struct(n)) => r == Ok::<(bool, usize), SerdeError>((false, n)),
                Ok(m) => fails_with(r, ErrorCode::UnexpectedMarker { expected: Expected::DictionaryOrStructure, actual: m }),
                Err(c) => fails_with(r, c),
            },
    {
        match self.read.consume_marker()? {
            Marker::Dictionary(n) => Ok((true, n)),
            Marker::Struct(n) => Ok((false, n)),
            m => Err(SerdeError::create(ErrorCode::UnexpectedMarker { expected: Expected::DictionaryOrStructure, actual: m })),
        }
    }

    /// Reads the map marker of one entry that opens an enum variant.
    pub fn parse_enum(&mut self) -> (r: SerdeResult<()>)
        requires
            old(self).wf(),
        ensures
            final(self).wf(),
            advanced(old(self).read, final(self).read),
            r is Ok && old(self).read.virtual_marker is None ==> old(self).read.index < final(self).read.index,
            final(self).read == after_marker(old(self).read),
            match old(self).read.spec_peek() {
                Ok(Marker::Dictionary(1)) => r is Ok,
                Ok(m) => fails_with(r, ErrorCode::UnexpectedMarker { expected: Expected::Dictionary1, actual: m }),
                Err(c) => fails_with(r, c),
            },
    {
        match self.read.consume_marker()? {
            Marker::Dictionary(1) => Ok(()),
            m => Err(SerdeError::create(ErrorCode::UnexpectedMarker { expected: Expected::Dictionary1, actual: m })),
        }
    }

    /// Consumes an end-of-stream marker where one is next; gives whether it
    /// did. Any other marker stays, peeked.
    pub fn try_end_stream(&mut self) -> (r: bool)
        requires
            old(self).wf(),
        ensures
            final(self).wf(),
            r == (old(self).read.spec_peek() == Ok::<Marker, ErrorCode>(Marker::EOS)),
            r ==> final(self).read == old(self).read.after_consume(),
            !r ==> final(self).read == old(self).read.after_peek(),
    {
        match self.read.peek_marker() {
            Ok(Marker::EOS) => {
                proof {
                    lemma_decode_marker_header(self.read.bytes@, self.read.index as int);
                }
                self.read.scratch_peeked();
                true
            },
            _ => false,
        }
    }

    /// Reads the value at the reader's position.
    pub fn parse_value(&mut self) -> (r: SerdeResult<Value>)
        requires
            old(self).plain(),
        ensures
            final(self).plain(),
            final(self).read.bytes == old(self).read.bytes,
            old(self).read.index <= final(self).read.index,
            r is Ok ==> old(self).read.index < final(self).read.index,
            match decode_value(old(self).read.bytes@, old(self).read.index as int) {
                Ok((m, q)) => (r matches Ok(v) && v.model() == m) && final(self).read.index == q,
                Err(c) => fails_with(r, c),
            },
        decreases old(self).read.bytes@.len() - old(self).read.index, 0int,
    {
        proof {
            lemma_decode_marker_header(self.read.bytes@, self.read.index as int);
        }
        let m = self.read.consume_marker()?;
        match m {
            Marker::Null => Ok(Value::Null),
            Marker::True => Ok(Value::Bool(true)),
            Marker::False => Ok(Value::Bool(false)),
            Marker::I64(v) => Ok(Value::I64(v)),
            Marker::F64(bits) => Ok(Value::F64(bits)),
            Marker::String(len) => {
                let b = self.read.consume_bytes(len)?;
                let s = text_of(b)?;
                Ok(Value::String(s.to_owned()))
            },
            Marker::Bytes(len) => {
                let b = self.read.consume_bytes(len)?;
                Ok(Value::Bytes(vstd::slice::slice_to_vec(b)))
            },
            Marker::List(n) => {
                let items = self.parse_items(n)?;
                let v = Value::List(items);
                proof {
                    lemma_model_parts(&v);
                }
                Ok(v)
            },
            Marker::Struct(n) => {
                let b = self.read.consume_bytes(1)?;
                let signature = b[0];
                let fields = self.parse_items(n)?;
                let v = Value::Structure { signature, fields };
                proof {
                    lemma_model_parts(&v);
                }
                Ok(v)
            },
            Marker::Dictionary(n) => self.parse_dict(n),
            Marker::EOS => Err(
                SerdeError::create(
                    ErrorCode::UnexpectedMarker { expected: Expected::NotEndOfStream, actual: Marker::EOS },
                ),
            ),
        }
    }

    /// Reads the `n` elements of a list or structure; an end-of-stream
    /// marker in place of an element ends them early.
    pub fn parse_items(&mut self, n: usize) -> (r: SerdeResult<Vec<Value>>)
        requires
            old(self).plain(),
        ensures
            final(self).plain(),
            final(self).read.bytes == old(self).read.bytes,
            old(self).read.index <= final(self).read.index,
            match decode_seq(old(self).read.bytes@, old(self).read.index as int, n as int) {
                Ok((ms, q)) => (r matches Ok(items) && models(items@) == ms) && final(self).read.index == q,
                Err(c) => fails_with(r, c),
            },
        decreases old(self).read.bytes@.len() - old(self).read.index, 1int,
    {
        let ghost bytes = self.read.bytes@;
        let ghost start = self.read.index as int;
        let mut items: Vec<Value> = Vec::new();
        let mut i: usize = 0;
        assert(models(items@) + decode_seq(bytes, start, n as int)->Ok_0.0 =~= decode_seq(
            bytes,
            start,
            n as int,
        )->Ok_0.0);
        while i < n
            invariant
                self.plain(),
                self.read.bytes == old(self).read.bytes,
                bytes == old(self).read.bytes@,
                start == old(self).read.index,
                start <= self.read.index <= bytes.len(),
                i <= n,
                decode_seq(bytes, start, n as int) == match decode_seq(
                    bytes,
                    self.read.index as int,
                    n - i,
                ) {
                    Ok((rest, q)) => Ok((models(items@) + rest, q)),
                    Err(e) => Err(e),
                },
            decreases n - i,
        {
            let ghost idx = self.read.index as int;
            proof {
                lemma_decode_marker_header(bytes, idx);
            }
            if self.try_end_stream() {
                assert(models(items@) + Seq::<ValueModel>::empty() =~= models(items@));
                return Ok(items);
            }
            let v = self.parse_value()?;
            let ghost vm = v.model();
            let ghost old_items = models(items@);
            items.push(v);
            i = i + 1;
            proof {
                assert(models(items@) =~= old_items.push(vm));
                match decode_seq(bytes, self.read.index as int, n - i) {
                    Ok((rest, q)) => {
                        assert(old_items + (seq![vm] + rest) =~= models(items@) + rest);
                    },
                    Err(_) => {},
                }
            }
        }
        assert(models(items@) + Seq::<ValueModel>::empty() =~= models(items@));
        Ok(items)
    }

    /// Reads a dictionary of `n` entries; one whose first key is the
    /// signature key is read as a structure.
    pub fn parse_dict(&mut self, n: usize) -> (r: SerdeResult<Value>)
        requires
            old(self).plain(),
        ensures
            final(self).plain(),
            final(self).read.bytes == old(self).read.bytes,
            old(self).read.index <= final(self).read.index,
            match decode_dict(old(self).read.bytes@, old(self).read.index as int, n as int) {
                Ok((m, q)) => (r matches Ok(v) && v.model() == m) && final(self).read.index == q,
                Err(c) => fails_with(r, c),
            },
        decreases old(self).read.bytes@.len() - old(self).read.index, 1int,
    {
        if n == 0 {
            let v = Value::Dictionary(ValueMap::new());
            proof {
                lemma_model_parts(&v);
            }
            return Ok(v);
        }
        proof {
            lemma_string_read_key(self.read);
        }
        let key = self.parse_string()?;
        let sig = STRUCTURE_SIG_KEY.to_owned();
        if key == sig {
            return self.parse_struct_entries(n);
        }
        let v = self.parse_value()?;
        let mut map = ValueMap::new();
        map.insert(key, v);
        self.parse_entries(n - 1, map)
    }

    /// Reads the remaining `n` entries of a dictionary into `map`.
    pub fn parse_entries(&mut self, n: usize, map: ValueMap) -> (r: SerdeResult<Value>)
        requires
            old(self).plain(),
            map.wf(),
        ensures
            final(self).plain(),
            final(self).read.bytes == old(self).read.bytes,
            old(self).read.index <= final(self).read.index,
            match decode_entries(old(self).read.bytes@, old(self).read.index as int, n as int, map.model()) {
                Ok((m, q)) => (r matches Ok(v) && v.model() == m) && final(self).read.index == q,
                Err(c) => fails_with(r, c),
            },
        decreases old(self).read.bytes@.len() - old(self).read.index, 1int,
    {
        let ghost bytes = self.read.bytes@;
        let ghost start = self.read.index as int;
        let ghost acc = map.model();
        let mut m = map;
        let mut i: usize = 0;
        while i < n
            invariant
                self.plain(),
                self.read.bytes == old(self).read.bytes,
                bytes == old(self).read.bytes@,
                start == old(self).read.index,
                acc == map.model(),
                start <= self.read.index <= bytes.len(),
                i <= n,
                m.wf(),
                decode_entries(bytes, start, n as int, acc) == decode_entries(
                    bytes,
                    self.read.index as int,
                    n - i,
                    m.model(),
                ),
            decreases n - i,
        {
            proof {
                lemma_string_read_key(self.read);
            }
            let key = self.parse_string()?;
            let v = self.parse_value()?;
            m.insert(key, v);
            i = i + 1;
        }
        let v = Value::Dictionary(m);
        proof {
            lemma_model_parts(&v);
        }
        Ok(v)
    }

    /// Reads the rest of a structure written as a dictionary of `n`
    /// entries, after its signature key: the signature, the fields key, the
    /// fields, and no further key.
    pub fn parse_struct_entries(&mut self, n: usize) -> (r: SerdeResult<Value>)
        requires
            old(self).plain(),
        ensures
            final(self).plain(),
            final(self).read.bytes == old(self).read.bytes,
            old(self).read.index <= final(self).read.index,
            match decode_struct_entries(old(self).read.bytes@, old(self).read.index as int, n as int) {
                Ok((m, q)) => (r matches Ok(v) && v.model() == m) && final(self).read.index == q,
                Err(c) => fails_with(r, c),
            },
        decreases old(self).read.bytes@.len() - old(self).read.index, 1int,
    {
        proof {
            lemma_decode_marker_header(self.read.bytes@, self.read.index as int);
        }
        let signature = self.parse_int(0, 255)?;
        if n <= 1 {
            return Err(SerdeError::create(ErrorCode::MissingKey));
        }
        proof {
            lemma_string_read_key(self.read);
        }
        let key = self.parse_string()?;
        let fields_key = STRUCTURE_FIELDS_KEY.to_owned();
        if !(key == fields_key) {
            return Err(SerdeError::create(ErrorCode::UnexpectedKey));
        }
        proof {
            lemma_decode_marker_header(self.read.bytes@, self.read.index as int);
        }
        let len = self.parse_list()?;
        let fields = self.parse_items(len)?;
        if n == 2 {
            let v = Value::Structure { signature: signature as u8, fields };
            proof {
                lemma_model_parts(&v);
            }
            return Ok(v);
        }
        proof {
            lemma_string_read_key(self.read);
        }
        let _ = self.parse_string()?;
        Err(SerdeError::create(ErrorCode::UnexpectedKey))
    }
}

/// Decodes the value that `bytes` hold, which must be all of them.
pub fn from_bytes(bytes: &[u8]) -> (r: SerdeResult<Value>)
    ensures
        match decode_all(bytes@) {
            Ok(m) => r matches Ok(v) && v.model() == m,
            Err(c) => fails_with(r, c),
        },
{
    let mut de = Deserializer::new(bytes);
    let v = de.parse_value()?;
    de.is_done()?;
    Ok(v)
}

/// The reading of a sequence of `len` elements, which an end-of-stream
/// marker may end early.
#[derive(Debug, PartialEq, Eq, Structural)]
pub struct SeqAccess {
    pub len: usize,
}

impl SeqAccess {
    /// The reading of a sequence of `len` elements.
    pub fn new(len: usize) -> (a: Self)
        ensures
            a.len == len,
    {
        SeqAccess { len }
    }

    /// Whether another element follows, counted where it does: none where
    /// all were read, or where an end-of-stream marker comes next, which is
    /// consumed.
    pub fn next_element(&mut self, de: &mut Deserializer) -> (r: bool)
        requires
            old(de).wf(),
        ensures
            final(de).wf(),
            old(self).len == 0 ==> !r && *final(de) == *old(de) && *final(self) == *old(self),
            old(self).len > 0 ==> {
                &&& r == (old(de).read.spec_peek() != Ok::<Marker, ErrorCode>(Marker::EOS))
                &&& r ==> final(de).read == old(de).read.after_peek() && final(self).len == old(self).len - 1
                &&& !r ==> final(de).read == old(de).read.after_consume() && *final(self) == *old(self)
            },
    {
        if self.len == 0 || de.try_end_stream() {
            return false;
        }
        self.len = self.len - 1;
        true
    }
}

/// The reading of the `len` entries of a map.
#[derive(Debug, PartialEq, Eq, Structural)]
pub struct MapAccess {
    pub len: usize,
}

impl MapAccess {
    /// The reading of a map of `len` entries.
    pub fn new(len: usize) -> (a: Self)
        ensures
            a.len == len,
    {
        MapAccess { len }
    }

    /// Whether another key follows, counted where it does.
    pub fn next_key(&mut self) -> (r: bool)
        ensures
            r == (old(self).len > 0),
            r ==> final(self).len == old(self).len - 1,
            !r ==> *final(self) == *old(self),
    {
        if self.len == 0 {
            return false;
        }
        self.len = self.len - 1;
        true
    }
}

/// Where the reading of a structure as a map of two entries stands: before
/// its signature, before its fields, or past both.
#[derive(Debug, Clone, Copy, PartialEq, Eq, Structural)]
pub enum StructureAccessState {
    Signature,
    Fields,
    Done,
}

/// The UTF-8 bytes of the key that the state reads next.
pub open spec fn state_key(state: StructureAccessState) -> Seq<u8> {
    match state {
        StructureAccessState::Signature => encode_utf8(STRUCTURE_SIG_KEY@),
        StructureAccessState::Fields => encode_utf8(STRUCTURE_FIELDS_KEY@),
        StructureAccessState::Done => Seq::empty(),
    }
}

/// The state after the value of the state's key was read.
pub open spec fn state_after_value(state: StructureAccessState) -> StructureAccessState {
    match state {
        StructureAccessState::Signature => StructureAccessState::Fields,
        _ => StructureAccessState::Done,
    }
}

/// The state after `n` keys and their values were read from the start.
pub open spec fn state_after(n: nat) -> StructureAccessState
    decreases n,
{
    if n == 0 {
        StructureAccessState::Signature
    } else {
        state_after_value(state_after((n - 1) as nat))
    }
}

/// The UTF-8 bytes of the key that the key step after `n` keys and values
/// gives; `None` where it gives no key.
pub open spec fn key_at(n: nat) -> Option<Seq<u8>> {
    match state_after(n) {
        StructureAccessState::Done => None,
        s => Some(state_key(s)),
    }
}

/// Law: over alternating key and value steps, a structure read as a map
/// gives the signature key, then the fields key, then no key on every later
/// step.
pub proof fn lemma_structure_key_order(n: nat)
    ensures
        key_at(0) == Some(encode_utf8(STRUCTURE_SIG_KEY@)),
        key_at(1) == Some(encode_utf8(STRUCTURE_FIELDS_KEY@)),
        n >= 2 ==> key_at(n) is None,
    decreases n,
{
    reveal_with_fuel(state_after, 3);
    if n > 2 {
        lemma_structure_key_order((n - 1) as nat);
    }
}

/// A structure of `size` fields read as a map: the signature key with the
/// signature, then the fields key with the list of fields. The keys and the
/// headers come as virtual markers and values; the signature and the fields
/// come from the input.
#[derive(Debug, PartialEq, Eq, Structural)]
pub struct StructureAccess {
    pub size: usize,
    pub state: StructureAccessState,
}

impl StructureAccess {
    /// The reading of a structure of `size` fields, before its signature.
    pub fn new(size: usize) -> (a: Self)
        ensures
            a.size == size,
            a.state == StructureAccessState::Signature,
    {
        StructureAccess { size, state: StructureAccessState::Signature }
    }

    /// Sets the next key as a virtual string; gives whether there is one.
    pub fn next_key(&self, de: &mut Deserializer) -> (r: SerdeResult<bool>)
        requires
            old(de).wf(),
        ensures
            final(de).read.wf(),
            final(de).read.peeked == 0 ==> final(de).wf(),
            self.state == StructureAccessState::Done ==> r == Ok::<bool, SerdeError>(false) && *final(de)
                == *old(de),
            self.state != StructureAccessState::Done && (old(de).read.virtual_marker is Some
                || old(de).read.virtual_value is Some) ==> fails_with(r, ErrorCode::VirtualIllegalAssignment)
                && *final(de) == *old(de),
            self.state != StructureAccessState::Done && old(de).read.virtual_marker is None
                && old(de).read.virtual_value is None ==> {
                &&& r == Ok::<bool, SerdeError>(true)
                &&& final(de).read.virtual_value matches Some(v) && v@ == state_key(self.state)
                &&& final(de).read == (ByteReader {
                    virtual_marker: Some(Marker::String(0)),
                    virtual_value: final(de).read.virtual_value,
                    ..old(de).read
                })
            },
    {
        match self.state {
            StructureAccessState::Signature => {
                de.read.set_virtual(Marker::String(0), Some(STRUCTURE_SIG_KEY.as_bytes()))?;
                Ok(true)
            },
            StructureAccessState::Fields => {
                de.read.set_virtual(Marker::String(0), Some(STRUCTURE_FIELDS_KEY.as_bytes()))?;
                Ok(true)
            },
            StructureAccessState::Done => Ok(false),
        }
    }

    /// Sets the next value as virtual markers: the signature, the next
    /// payload byte, as an integer; then a list header of the structure's
    /// size.
    pub fn next_value(&mut self, de: &mut Deserializer) -> (r: SerdeResult<()>)
        requires
            old(de).wf(),
            old(self).state == StructureAccessState::Signature ==> (old(de).read.virtual_value matches Some(
                v,
            ) ==> v@.len() >= 1),
        ensures
            final(de).read.wf(),
            final(de).read.peeked == 0 ==> final(de).wf(),
            old(self).size == final(self).size,
            r is Ok ==> final(self).state == state_after_value(old(self).state),
            old(self).state == StructureAccessState::Signature ==> match old(de).read.spec_payload(1) {
                Ok(b) => if old(de).read.virtual_marker is Some {
                    fails_with(r, ErrorCode::VirtualIllegalAssignment)
                } else {
                    &&& r is Ok
                    &&& final(self).state == StructureAccessState::Fields
                    &&& final(de).read == (ByteReader {
                        virtual_marker: Some(Marker::I64(b[0] as i64)),
                        virtual_value: None,
                        ..old(de).read.after_payload(1)
                    })
                },
                Err(c) => fails_with(r, c),
            },
            old(self).state == StructureAccessState::Fields && (old(de).read.virtual_marker is Some
                || old(de).read.virtual_value is Some) ==> fails_with(r, ErrorCode::VirtualIllegalAssignment),
            old(self).state == StructureAccessState::Fields && old(de).read.virtual_marker is None
                && old(de).read.virtual_value is None ==> {
                &&& r is Ok
                &&& final(self).state == StructureAccessState::Done
                &&& final(de).read == (ByteReader {
                    virtual_marker: Some(Marker::List(old(self).size)),
                    virtual_value: None,
                    ..old(de).read
                })
            },
            old(self).state == StructureAccessState::Done ==> {
                &&& r matches Err(e) && e.code is ImplementationError
                &&& *final(de) == *old(de)
                &&& *final(self) == *old(self)
            },
    {
        match self.state {
            StructureAccessState::Signature => {
                let bytes = de.read.consume_bytes(1)?;
                let signature = bytes[0];
                de.read.set_virtual(Marker::I64(signature as i64), None)?;
                self.state = StructureAccessState::Fields;
                Ok(())
            },
            StructureAccessState::Fields => {
                de.read.set_virtual(Marker::List(self.size), None)?;
                self.state = StructureAccessState::Done;
                Ok(())
            },
            StructureAccessState::Done => Err(
                SerdeError::impl_err("StructureAccess value_seed cannot reach State::Done.".to_owned()),
            ),
        }
    }
}

/// A string handed on as a whole value to be decoded.
#[derive(Debug, PartialEq)]
pub struct StringDe {
    pub value: String,
}

impl StringDe {
    /// The string as a value to be decoded.
    pub fn new(value: String) -> (d: Self)
        ensures
            d.value@ == value@,
    {
        StringDe { value }
    }
}

} // verus!
