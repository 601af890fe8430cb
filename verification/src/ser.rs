//! Encoding values as PackStream bytes.
use crate::constants::STRUCTURE_NAME;
use crate::error::{fails_with, ErrorCode, SerdeError, SerdeResult};
use crate::marker::{marker_bytes, size_error, Marker};
use crate::value::{lemma_model_parts, models, Value, ValueMap, ValueModel};
use vstd::prelude::*;
use vstd::utf8::encode_utf8;

verus! {

/// The encoding of a marker, or the error of a size its size field cannot
/// hold.
pub open spec fn marker_result(m: Marker) -> Result<Seq<u8>, ErrorCode> {
    match marker_bytes(m) {
        Some(b) => Ok(b),
        None => Err(size_error(m)),
    }
}

/// `head` followed by `tail`, where both are encodings; the first error
/// otherwise.
pub open spec fn then(head: Result<Seq<u8>, ErrorCode>, tail: Result<Seq<u8>, ErrorCode>) -> Result<
    Seq<u8>,
    ErrorCode,
> {
    match head {
        Ok(h) => match tail {
            Ok(t) => Ok(h + t),
            Err(e) => Err(e),
        },
        Err(e) => Err(e),
    }
}

/// The encoding of a string: its header, then its UTF-8 bytes.
pub open spec fn encode_text(s: Seq<char>) -> Result<Seq<u8>, ErrorCode> {
    then(marker_result(Marker::String(encode_utf8(s).len() as usize)), Ok(encode_utf8(s)))
}

/// The encoding of a value.
pub open spec fn encode_value(v: ValueModel) -> Result<Seq<u8>, ErrorCode>
    decreases v,
{
    match v {
        ValueModel::Null => marker_result(Marker::Null),
        ValueModel::Bool(b) => marker_result(
            if b {
                Marker::True
            } else {
                Marker::False
            },
        ),
        ValueModel::I64(i) => marker_result(Marker::I64(i)),
        ValueModel::F64(bits) => marker_result(Marker::F64(bits)),
        ValueModel::String(s) => encode_text(s),
        ValueModel::Bytes(b) => then(marker_result(Marker::Bytes(b.len() as usize)), Ok(b)),
        ValueModel::List(items) => then(
            marker_result(Marker::List(items.len() as usize)),
            encode_seq(items),
        ),
        ValueModel::Dictionary(entries) => then(
            marker_result(Marker::Dictionary(entries.len() as usize)),
            encode_entries(entries),
        ),
        ValueModel::Structure(sig, fields) => then(
            marker_result(Marker::Struct(fields.len() as usize)),
            then(Ok(seq![sig]), encode_seq(fields)),
        ),
    }
}

/// The encodings of the values, one after the other.
pub open spec fn encode_seq(items: Seq<ValueModel>) -> Result<Seq<u8>, ErrorCode>
    decreases items,
{
    if items.len() == 0 {
        Ok(Seq::empty())
    } else {
        then(encode_value(items[0]), encode_seq(items.drop_first()))
    }
}

/// The encodings of the entries, each its key then its value.
pub open spec fn encode_entries(entries: Seq<(Seq<char>, ValueModel)>) -> Result<Seq<u8>, ErrorCode>
    decreases entries,
{
    if entries.len() == 0 {
        Ok(Seq::empty())
    } else {
        then(
            then(encode_text(entries[0].0), encode_value(entries[0].1)),
            encode_entries(entries.drop_first()),
        )
    }
}

/// An empty head changes nothing.
proof fn lemma_then_empty(x: Result<Seq<u8>, ErrorCode>)
    ensures
        then(Ok(Seq::empty()), x) == x,
{
    if let Ok(t) = x {
        assert(Seq::<u8>::empty() + t =~= t);
    }
}

/// Consecutive heads join.
proof fn lemma_then_assoc(w: Seq<u8>, b: Seq<u8>, x: Result<Seq<u8>, ErrorCode>)
    ensures
        then(Ok(w), then(Ok(b), x)) == then(Ok(w + b), x),
{
    if let Ok(t) = x {
        assert(w + (b + t) =~= (w + b) + t);
    }
}

/// Whether an encoding step that gave `r` and turned the output `from` into
/// `to` wrote `enc`: its bytes appended where it is an encoding, its error
/// returned where it is one.
pub open spec fn writes<T>(r: SerdeResult<T>, from: Seq<u8>, to: Seq<u8>, enc: Result<Seq<u8>, ErrorCode>) -> bool {
    match enc {
        Ok(b) => r is Ok && to == from + b,
        Err(c) => fails_with(r, c),
    }
}

/// The header that opens an enum variant with a payload: a map of one
/// entry whose key is the variant's name.
pub open spec fn variant_header(variant: Seq<char>) -> Result<Seq<u8>, ErrorCode> {
    then(marker_result(Marker::Dictionary(1)), encode_text(variant))
}

/// The signature packed in the top byte of a structure's length, where a
/// structure travels as a tuple struct.
pub open spec fn packed_signature(len: usize) -> u8 {
    (len as int / 0x100_0000_0000_0000) as u8
}

/// The number of fields packed in the low seven bytes of a structure's
/// length.
pub open spec fn packed_size(len: usize) -> usize {
    (len as int % 0x100_0000_0000_0000) as usize
}

/// Appends the slice to the vector.
fn push_slice(vec: &mut Vec<u8>, s: &[u8])
    ensures
        final(vec)@ == old(vec)@ + s@,
{
    vec.extend_from_slice(s);
    assert(vec@ =~= old(vec)@ + s@);
}

/// `char::to_string`: the text of the single character `c`.
#[verifier::external_body]
pub(crate) fn char_text(c: char) -> (s: String)
    ensures
        s@ == seq![c],
{
    c.to_string()
}

/// The signature in the top byte of a packed structure length, and the
/// number of fields in the rest.
fn unpack_length(len: usize) -> (r: (u8, usize))
    ensures
        r.0 == packed_signature(len),
        r.1 == packed_size(len),
{
    let l = len as u64;
    let sig = l >> 56;
    let size = l & 0x00FF_FFFF_FFFF_FFFF;
    assert(sig == l / 0x100_0000_0000_0000 && sig < 256) by (bit_vector)
        requires
            sig == l >> 56,
    ;
    assert(size == l % 0x100_0000_0000_0000 && size <= l) by (bit_vector)
        requires
            size == l & 0x00FF_FFFF_FFFF_FFFF,
    ;
    (sig as u8, size as usize)
}

/// The state of an encoding of a sequence or a map: of known length, whose
/// header is already written, or of unknown length, whose elements go to a
/// fresh output while `buf` keeps what came before and `marker` counts them.
#[derive(Debug, PartialEq)]
pub enum Compound {
    DynSized { buf: Vec<u8>, marker: Marker },
    StaticSized,
}

/// Whether `to` is `from` with one more element or entry counted: the count
/// of an unknown length grows by one; a known length counts nothing.
pub open spec fn counted_once(from: Compound, to: Compound) -> bool {
    match from {
        Compound::DynSized { buf, marker } => to matches Compound::DynSized { buf: b2, marker: m2 }
            && b2 == buf && m2 == crate::marker::with_size(
            marker,
            (crate::marker::marker_size(marker) + 1) as usize,
        ),
        Compound::StaticSized => to == Compound::StaticSized,
    }
}

/// Law: a sequence or a map of unknown length that was counted once per
/// element or entry ends with the header that a known length of that count
/// writes, so both paths give the same bytes: the earlier output, that
/// header, then the elements.
pub proof fn lemma_counted_header(states: Seq<Compound>, list: bool)
    requires
        1 <= states.len() < usize::MAX,
        states[0] matches Compound::DynSized { marker, .. } && marker == (if list {
            Marker::List(0)
        } else {
            Marker::Dictionary(0)
        }),
        forall|i: int| 0 <= i < states.len() - 1 ==> counted_once(#[trigger] states[i], states[i + 1]),
    ensures
        ({
            let n = (states.len() - 1) as usize;
            let header = if list {
                Marker::List(n)
            } else {
                Marker::Dictionary(n)
            };
            &&& states.last() matches Compound::DynSized { buf, marker } && buf == states[0]->buf
                && marker == header
            &&& marker_bytes(header) is Some
            &&& marker_result(header) == Ok::<Seq<u8>, ErrorCode>(marker_bytes(header)->0)
        }),
    decreases states.len(),
{
    if states.len() > 1 {
        let front = states.drop_last();
        assert forall|i: int| 0 <= i < front.len() - 1 implies counted_once(#[trigger] front[i], front[i + 1]) by {
            assert(front[i] == states[i] && front[i + 1] == states[i + 1]);
        }
        lemma_counted_header(front, list);
        assert(counted_once(states[states.len() - 2], states[states.len() - 1]));
    }
}

impl Compound {
    /// The state's invariant: an unknown length belongs to a list or a map.
    pub open spec fn wf(&self) -> bool {
        self matches Compound::DynSized { marker, .. } ==> (marker is List || marker is Dictionary)
    }

    /// Starts an encoding of unknown length: the output so far moves to the
    /// state's buffer.
    fn new_dyn(ser: &mut Serializer, marker: Marker) -> (c: Self)
        requires
            marker is List || marker is Dictionary,
        ensures
            c.wf(),
            c matches Compound::DynSized { buf, marker: m } && buf@ == old(ser).output@ && m == marker,
            final(ser).output@ == Seq::<u8>::empty(),
    {
        let mut buf = Vec::new();
        std::mem::swap(&mut buf, &mut ser.output);
        Compound::DynSized { buf, marker }
    }

    /// Starts an encoding whose header is written.
    fn new_static() -> (c: Self)
        ensures
            c == Compound::StaticSized,
    {
        Compound::StaticSized
    }

    /// Counts one more element where the length is unknown.
    pub fn next_element(&mut self) -> (r: SerdeResult<()>)
        requires
            old(self).wf(),
            *old(self) matches Compound::DynSized { marker, .. } ==> crate::marker::marker_size(marker)
                < usize::MAX,
        ensures
            final(self).wf(),
            r is Ok,
            counted_once(*old(self), *final(self)),
    {
        match self {
            Compound::DynSized { marker, .. } => marker.inc_size(1),
            Compound::StaticSized => Ok(()),
        }
    }

    /// Counts the part of a map's entry being written where the length is
    /// unknown: a key counts one more entry; a value belongs to its key's
    /// entry and counts nothing.
    pub fn next_map_part(&mut self, is_key: bool) -> (r: SerdeResult<()>)
        requires
            old(self).wf(),
            is_key ==> (*old(self) matches Compound::DynSized { marker, .. } ==> crate::marker::marker_size(
                marker,
            ) < usize::MAX),
        ensures
            final(self).wf(),
            r is Ok,
            is_key ==> counted_once(*old(self), *final(self)),
            !is_key ==> *final(self) == *old(self),
    {
        if is_key {
            self.next_element()
        } else {
            Ok(())
        }
    }

    /// Ends the encoding: where the length was unknown, the output becomes
    /// the earlier output, the counted header, then the elements.
    pub fn end(self, ser: &mut Serializer) -> (r: SerdeResult<()>)
        requires
            self.wf(),
        ensures
            r is Ok,
            match self {
                Compound::DynSized { buf, marker } => final(ser).output@ == buf@ + marker_bytes(
                    marker,
                )->0 + old(ser).output@,
                Compound::StaticSized => final(ser).output@ == old(ser).output@,
            },
    {
        match self {
            Compound::DynSized { buf, marker } => {
                let mut buf = buf;
                let ghost b0 = buf@;
                let r = marker.append_to_vec(&mut buf);
                proof {
                    assert(marker_bytes(marker) is Some);
                }
                let mut out = Vec::new();
                std::mem::swap(&mut out, &mut ser.output);
                buf.append(&mut out);
                ser.output = buf;
                Ok(())
            },
            Compound::StaticSized => Ok(()),
        }
    }
}

/// An encoder of values as PackStream bytes into its output buffer.
#[derive(Debug)]
pub struct Serializer {
    pub output: Vec<u8>,
}

impl Serializer {
    /// An encoder with an empty output.
    pub fn new() -> (s: Self)
        ensures
            s.output@ == Seq::<u8>::empty(),
    {
        Serializer { output: Vec::new() }
    }

    /// Appends the encoding of a marker.
    fn write_marker(&mut self, m: Marker) -> (r: SerdeResult<()>)
        ensures
            match marker_result(m) {
                Ok(b) => r is Ok && final(self).output@ == old(self).output@ + b,
                Err(c) => fails_with(r, c) && final(self).output@ == old(self).output@,
            },
    {
        m.append_to_vec(&mut self.output)
    }

    /// Encodes a boolean.
    pub fn serialize_bool(&mut self, value: bool) -> (r: SerdeResult<()>)
        ensures
            r is Ok,
            final(self).output@ == old(self).output@ + marker_bytes(
                if value {
                    Marker::True
                } else {
                    Marker::False
                },
            )->0,
    {
        let marker = if value {
            Marker::True
        } else {
            Marker::False
        };
        self.write_marker(marker)
    }

    /// Encodes an integer in the smallest form that holds it.
    pub fn serialize_i64(&mut self, value: i64) -> (r: SerdeResult<()>)
        ensures
            r is Ok,
            final(self).output@ == old(self).output@ + marker_bytes(Marker::I64(value))->0,
    {
        self.write_marker(Marker::I64(value))
    }

    /// Encodes an unsigned integer; fails above the largest PackStream
    /// integer, `i64::MAX`.
    pub fn serialize_u64(&mut self, value: u64) -> (r: SerdeResult<()>)
        ensures
            value <= i64::MAX ==> r is Ok && final(self).output@ == old(self).output@ + marker_bytes(
                Marker::I64(value as i64),
            )->0,
            value > i64::MAX ==> fails_with(r, ErrorCode::U64OutOfRange(value)) && final(self).output@
                == old(self).output@,
    {
        if value > 0x7FFF_FFFF_FFFF_FFFF {
            return Err(SerdeError::create(ErrorCode::U64OutOfRange(value)));
        }
        self.write_marker(Marker::I64(value as i64))
    }

    /// Encodes a float given by its IEEE 754 bits.
    pub fn serialize_f64(&mut self, bits: u64) -> (r: SerdeResult<()>)
        ensures
            r is Ok,
            final(self).output@ == old(self).output@ + marker_bytes(Marker::F64(bits))->0,
    {
        self.write_marker(Marker::F64(bits))
    }

    /// Encodes a string: its header, then its UTF-8 bytes.
    pub fn serialize_str(&mut self, value: &str) -> (r: SerdeResult<()>)
        ensures
            match encode_text(value@) {
                Ok(b) => r is Ok && final(self).output@ == old(self).output@ + b,
                Err(c) => fails_with(r, c) && final(self).output@ == old(self).output@,
            },
    {
        let bytes = value.as_bytes();
        self.write_marker(Marker::String(bytes.len()))?;
        push_slice(&mut self.output, bytes);
        proof {
            assert(self.output@ =~= old(self).output@ + encode_text(value@)->Ok_0);
        }
        Ok(())
    }

    /// Encodes a byte array: its header, then the bytes.
    pub fn serialize_bytes(&mut self, value: &[u8]) -> (r: SerdeResult<()>)
        ensures
            match then(marker_result(Marker::Bytes(value@.len() as usize)), Ok(value@)) {
                Ok(b) => r is Ok && final(self).output@ == old(self).output@ + b,
                Err(c) => fails_with(r, c) && final(self).output@ == old(self).output@,
            },
    {
        self.write_marker(Marker::Bytes(value.len()))?;
        push_slice(&mut self.output, value);
        proof {
            assert(self.output@ =~= old(self).output@ + then(
                marker_result(Marker::Bytes(value@.len() as usize)),
                Ok(value@),
            )->Ok_0);
        }
        Ok(())
    }

    /// Encodes the absence of a value: a null marker.
    pub fn serialize_none(&mut self) -> (r: SerdeResult<()>)
        ensures
            r is Ok,
            final(self).output@ == old(self).output@ + marker_bytes(Marker::Null)->0,
    {
        self.write_marker(Marker::Null)
    }

    /// Encodes the unit value: a null marker.
    pub fn serialize_unit(&mut self) -> (r: SerdeResult<()>)
        ensures
            r is Ok,
            final(self).output@ == old(self).output@ + marker_bytes(Marker::Null)->0,
    {
        self.serialize_none()
    }

    /// Encodes a character as a string of its UTF-8 bytes.
    pub fn serialize_char(&mut self, value: char) -> (r: SerdeResult<()>)
        ensures
            writes(r, old(self).output@, final(self).output@, encode_text(seq![value])),
    {
        let s = char_text(value);
        self.serialize_str(s.as_str())
    }

    /// Encodes a unit variant: a map of one entry from the variant's name to
    /// null.
    pub fn serialize_unit_variant(&mut self, variant: &str) -> (r: SerdeResult<()>)
        ensures
            writes(
                r,
                old(self).output@,
                final(self).output@,
                then(variant_header(variant@), marker_result(Marker::Null)),
            ),
    {
        self.serialize_newtype_variant(variant)?;
        let ghost mid = self.output@;
        self.serialize_unit()?;
        proof {
            assert(self.output@ =~= old(self).output@ + (variant_header(variant@)->Ok_0 + marker_bytes(
                Marker::Null,
            )->0));
        }
        Ok(())
    }

    /// Writes the header of a variant with a payload, which the caller
    /// encodes next: a map of one entry whose key is the variant's name.
    pub fn serialize_newtype_variant(&mut self, variant: &str) -> (r: SerdeResult<()>)
        ensures
            writes(r, old(self).output@, final(self).output@, variant_header(variant@)),
    {
        self.write_marker(Marker::Dictionary(1))?;
        self.serialize_str(variant)?;
        proof {
            assert(self.output@ =~= old(self).output@ + variant_header(variant@)->Ok_0);
        }
        Ok(())
    }

    /// Starts a sequence: of known length, its header; of unknown length, a
    /// count kept until its end.
    pub fn serialize_seq(&mut self, len: Option<usize>) -> (r: SerdeResult<Compound>)
        ensures
            len matches Some(n) ==> writes(
                r,
                old(self).output@,
                final(self).output@,
                marker_result(Marker::List(n)),
            ) && (r matches Ok(c) ==> c == Compound::StaticSized),
            len is None ==> {
                &&& r matches Ok(c) && (c matches Compound::DynSized { buf, marker } && buf@ == old(
                    self,
                ).output@ && marker == Marker::List(0))
                &&& final(self).output@ == Seq::<u8>::empty()
            },
    {
        match len {
            Some(n) => {
                self.write_marker(Marker::List(n))?;
                Ok(Compound::new_static())
            },
            None => Ok(Compound::new_dyn(self, Marker::List(0))),
        }
    }

    /// Starts a tuple: a list header of its length.
    pub fn serialize_tuple(&mut self, len: usize) -> (r: SerdeResult<Compound>)
        ensures
            writes(r, old(self).output@, final(self).output@, marker_result(Marker::List(len))),
            r matches Ok(c) ==> c == Compound::StaticSized,
    {
        self.write_marker(Marker::List(len))?;
        Ok(Compound::new_static())
    }

    /// Starts a tuple struct. One named as a structure carries its
    /// signature in the top byte of its length: it opens with a structure
    /// header of the remaining length, then the signature byte. Any other
    /// opens with a list header.
    pub fn serialize_tuple_struct(&mut self, name: &str, len: usize) -> (r: SerdeResult<Compound>)
        ensures
            name@ == STRUCTURE_NAME@ ==> writes(
                r,
                old(self).output@,
                final(self).output@,
                then(marker_result(Marker::Struct(packed_size(len))), Ok(seq![packed_signature(len)])),
            ),
            name@ != STRUCTURE_NAME@ ==> writes(
                r,
                old(self).output@,
                final(self).output@,
                marker_result(Marker::List(len)),
            ),
            r matches Ok(c) ==> c == Compound::StaticSized,
    {
        if name.to_owned() == STRUCTURE_NAME.to_owned() {
            let (signature, size) = unpack_length(len);
            self.write_marker(Marker::Struct(size))?;
            self.output.push(signature);
            assert(self.output@ =~= old(self).output@ + (marker_bytes(Marker::Struct(size))->0 + seq![
                signature,
            ]));
        } else {
            self.write_marker(Marker::List(len))?;
        }
        Ok(Compound::new_static())
    }

    /// Starts a tuple variant: the variant's header, then a list header of
    /// its length.
    pub fn serialize_tuple_variant(&mut self, variant: &str, len: usize) -> (r: SerdeResult<Compound>)
        ensures
            writes(
                r,
                old(self).output@,
                final(self).output@,
                then(variant_header(variant@), marker_result(Marker::List(len))),
            ),
            r matches Ok(c) ==> c == Compound::StaticSized,
    {
        self.serialize_newtype_variant(variant)?;
        self.write_marker(Marker::List(len))?;
        proof {
            assert(self.output@ =~= old(self).output@ + (variant_header(variant@)->Ok_0 + marker_bytes(
                Marker::List(len),
            )->0));
        }
        Ok(Compound::new_static())
    }

    /// Starts a map: of known length, its header; of unknown length, a count
    /// kept until its end.
    pub fn serialize_map(&mut self, len: Option<usize>) -> (r: SerdeResult<Compound>)
        ensures
            len matches Some(n) ==> writes(
                r,
                old(self).output@,
                final(self).output@,
                marker_result(Marker::Dictionary(n)),
            ) && (r matches Ok(c) ==> c == Compound::StaticSized),
            len is None ==> {
                &&& r matches Ok(c) && (c matches Compound::DynSized { buf, marker } && buf@ == old(
                    self,
                ).output@ && marker == Marker::Dictionary(0))
                &&& final(self).output@ == Seq::<u8>::empty()
            },
    {
        match len {
            Some(n) => {
                self.write_marker(Marker::Dictionary(n))?;
                Ok(Compound::new_static())
            },
            None => Ok(Compound::new_dyn(self, Marker::Dictionary(0))),
        }
    }

    /// Starts a struct: a map header of its number of fields.
    pub fn serialize_struct(&mut self, len: usize) -> (r: SerdeResult<Compound>)
        ensures
            writes(r, old(self).output@, final(self).output@, marker_result(Marker::Dictionary(len))),
            r matches Ok(c) ==> c == Compound::StaticSized,
    {
        self.write_marker(Marker::Dictionary(len))?;
        Ok(Compound::new_static())
    }

    /// Starts a struct variant: the variant's header, then a map header of
    /// its number of fields.
    pub fn serialize_struct_variant(&mut self, variant: &str, len: usize) -> (r: SerdeResult<Compound>)
        ensures
            writes(
                r,
                old(self).output@,
                final(self).output@,
                then(variant_header(variant@), marker_result(Marker::Dictionary(len))),
            ),
            r matches Ok(c) ==> c == Compound::StaticSized,
    {
        self.serialize_newtype_variant(variant)?;
        self.write_marker(Marker::Dictionary(len))?;
        proof {
            assert(self.output@ =~= old(self).output@ + (variant_header(variant@)->Ok_0 + marker_bytes(
                Marker::Dictionary(len),
            )->0));
        }
        Ok(Compound::new_static())
    }

    /// Encodes a value.
    pub fn serialize_value(&mut self, v: &Value) -> (r: SerdeResult<()>)
        ensures
            match encode_value(v.model()) {
                Ok(b) => r is Ok && final(self).output@ == old(self).output@ + b,
                Err(c) => fails_with(r, c),
            },
        decreases v,
    {
        proof {
            lemma_model_parts(v);
        }
        match v {
            Value::Null => self.serialize_none(),
            Value::Bool(b) => self.serialize_bool(*b),
            Value::I64(i) => self.serialize_i64(*i),
            Value::F64(bits) => self.serialize_f64(*bits),
            Value::String(s) => self.serialize_str(s.as_str()),
            Value::Bytes(b) => self.serialize_bytes(b.as_slice()),
            Value::List(items) => {
                self.write_marker(Marker::List(items.len()))?;
                self.serialize_items(items)
            },
            Value::Structure { signature, fields } => {
                self.write_marker(Marker::Struct(fields.len()))?;
                self.output.push(*signature);
                self.serialize_items(fields)
            },
            Value::Dictionary(m) => {
                self.write_marker(Marker::Dictionary(m.entries.len()))?;
                self.serialize_entries(m)
            },
        }
    }

    /// Encodes the values one after the other.
    fn serialize_items(&mut self, items: &Vec<Value>) -> (r: SerdeResult<()>)
        ensures
            match encode_seq(models(items@)) {
                Ok(b) => r is Ok && final(self).output@ == old(self).output@ + b,
                Err(c) => fails_with(r, c),
            },
        decreases items,
    {
        let ghost ms = models(items@);
        let ghost start = self.output@;
        proof {
            assert(ms.subrange(0, ms.len() as int) =~= ms);
            assert(self.output@.subrange(start.len() as int, self.output@.len() as int) =~= Seq::<
                u8,
            >::empty());
            lemma_then_empty(encode_seq(ms));
        }
        let mut i: usize = 0;
        while i < items.len()
            invariant
                i <= items@.len(),
                ms == models(items@),
                start == old(self).output@,
                start.len() <= self.output@.len(),
                self.output@ == start + self.output@.subrange(start.len() as int, self.output@.len() as int),
                encode_seq(ms) == then(
                    Ok(self.output@.subrange(start.len() as int, self.output@.len() as int)),
                    encode_seq(ms.subrange(i as int, ms.len() as int)),
                ),
            decreases items@.len() - i,
        {
            let ghost w = self.output@.subrange(start.len() as int, self.output@.len() as int);
            let ghost rest = ms.subrange(i as int, ms.len() as int);
            assert(rest.drop_first() =~= ms.subrange(i + 1, ms.len() as int));
            assert(rest[0] == items@[i as int].model());
            assert(decreases_to!(items => items@[i as int]));
            self.serialize_value(&items[i])?;
            proof {
                let b = encode_value(rest[0])->Ok_0;
                lemma_then_assoc(w, b, encode_seq(rest.drop_first()));
                assert(self.output@.subrange(start.len() as int, self.output@.len() as int) =~= w + b);
                assert(self.output@ =~= start + (w + b));
            }
            i = i + 1;
        }
        proof {
            let w = self.output@.subrange(start.len() as int, self.output@.len() as int);
            assert(ms.subrange(i as int, ms.len() as int) =~= Seq::<ValueModel>::empty());
            assert(w + Seq::<u8>::empty() =~= w);
        }
        Ok(())
    }

    /// Encodes the entries one after the other, each its key then its value.
    fn serialize_entries(&mut self, m: &ValueMap) -> (r: SerdeResult<()>)
        ensures
            match encode_entries(m.model()) {
                Ok(b) => r is Ok && final(self).output@ == old(self).output@ + b,
                Err(c) => fails_with(r, c),
            },
        decreases m,
    {
        let ghost es = m.model();
        let ghost start = self.output@;
        proof {
            assert(es.subrange(0, es.len() as int) =~= es);
            assert(self.output@.subrange(start.len() as int, self.output@.len() as int) =~= Seq::<
                u8,
            >::empty());
            lemma_then_empty(encode_entries(es));
        }
        let mut i: usize = 0;
        while i < m.entries.len()
            invariant
                i <= m.entries@.len(),
                es == m.model(),
                start == old(self).output@,
                start.len() <= self.output@.len(),
                self.output@ == start + self.output@.subrange(start.len() as int, self.output@.len() as int),
                encode_entries(es) == then(
                    Ok(self.output@.subrange(start.len() as int, self.output@.len() as int)),
                    encode_entries(es.subrange(i as int, es.len() as int)),
                ),
            decreases m.entries@.len() - i,
        {
            let ghost w = self.output@.subrange(start.len() as int, self.output@.len() as int);
            let ghost rest = es.subrange(i as int, es.len() as int);
            assert(rest.drop_first() =~= es.subrange(i + 1, es.len() as int));
            assert(rest[0] == (m.entries@[i as int].0@, m.entries@[i as int].1.model()));
            let entry = &m.entries[i];
            self.serialize_str(entry.0.as_str())?;
            let ghost wk = self.output@.subrange(start.len() as int, self.output@.len() as int);
            proof {
                assert(wk =~= w + encode_text(rest[0].0)->Ok_0);
            }
            assert(decreases_to!(m => m.entries));
            assert(decreases_to!(m.entries => m.entries@[i as int]));
            assert(decreases_to!(m.entries@[i as int] => m.entries@[i as int].1));
            self.serialize_value(&entry.1)?;
            proof {
                let bk = encode_text(rest[0].0)->Ok_0;
                let bv = encode_value(rest[0].1)->Ok_0;
                let tail = encode_entries(rest.drop_first());
                assert(then(then(Ok(bk), Ok(bv)), tail) == then(Ok(bk + bv), tail));
                lemma_then_assoc(w, bk + bv, tail);
                assert(self.output@.subrange(start.len() as int, self.output@.len() as int) =~= w + (bk
                    + bv));
                assert(self.output@ =~= start + (w + (bk + bv)));
            }
            i = i + 1;
        }
        proof {
            let w = self.output@.subrange(start.len() as int, self.output@.len() as int);
            assert(es.subrange(i as int, es.len() as int) =~= Seq::<(Seq<char>, ValueModel)>::empty());
            assert(w + Seq::<u8>::empty() =~= w);
        }
        Ok(())
    }
}

/// The encoding of a value.
pub fn to_bytes(v: &Value) -> (r: SerdeResult<Vec<u8>>)
    ensures
        match encode_value(v.model()) {
            Ok(b) => r matches Ok(out) && out@ == b,
            Err(c) => fails_with(r, c),
        },
{
    let mut s = Serializer::new();
    s.serialize_value(v)?;
    assert(s.output@ =~= Seq::<u8>::empty() + s.output@);
    Ok(s.output)
}

} // verus!
