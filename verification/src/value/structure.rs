//! Typed Bolt structures: messages and graph values, each a structure of a
//! fixed signature and number of fields.
use crate::constants::signature::{
    TYPE_DATE_TIME, TYPE_DATE_TIME_ZONE_ID, TYPE_NODE, TYPE_PATH, TYPE_POINT_2D, TYPE_RELATIONSHIP,
};
use crate::de::{decode_all, from_bytes};
use crate::error::{fails_with, ErrorCode, SerdeError, SerdeResult};
use crate::roundtrip::{canonical, lemma_decode_all_encode};
use crate::constants::marker::TINY_STRUCT;
use crate::marker::{marker_bytes, Marker};
use crate::ser::{encode_seq, encode_value, to_bytes};
use crate::value::{lemma_model_parts, models, Value, ValueMap, ValueModel};
use graph::{Node, Path, Relationship, UnboundRelationship};
use temporal::{DateTime, DateTimeZoneId, Point2D};
use vstd::prelude::*;

pub mod graph;
pub mod message;
pub mod temporal;

verus! {

/// The characters of a key.
pub open spec fn key(s: &str) -> Seq<char> {
    s@
}

/// Whether the model is a structure of this signature and number of fields.
pub open spec fn structure_fields(m: ValueModel, sig: u8, len: nat) -> bool {
    m matches ValueModel::Structure(s, fs) && s == sig && fs.len() == len
}

/// The error of reading the model as a structure of this signature and
/// number of fields, where it is not one.
pub open spec fn structure_error(m: ValueModel, sig: u8, len: nat) -> ErrorCode {
    match m {
        ValueModel::Structure(s, fs) => if s != sig {
            ErrorCode::UnexpectedSignature { expected_signature: sig, actual_signature: s }
        } else {
            ErrorCode::UnexpectedFieldCount { expected_len: len as usize, actual_len: fs.len() as usize }
        },
        _ => ErrorCode::UnexpectedValue,
    }
}

/// The fields of the model, a structure.
pub open spec fn fields_of(m: ValueModel) -> Seq<ValueModel> {
    m->Structure_1
}

/// A Bolt structure: a typed value that travels as a structure of a fixed
/// signature and number of fields.
pub trait BoltStructure: Sized {
    /// The structure that the typed value travels as.
    spec fn structure_model(&self) -> ValueModel;

    /// Whether a value reads as this type.
    spec fn accepts(m: ValueModel) -> bool;

    /// Whether `t` is what the value `m` reads as.
    spec fn read_from(m: ValueModel, t: Self) -> bool;

    /// The error of reading a value that does not read as this type.
    spec fn rejection(m: ValueModel) -> ErrorCode;

    /// Whether the typed value's own structure reads back as this type: all
    /// values but those whose signature a type read before it claims.
    open spec fn readable(&self) -> bool {
        true
    }

    /// A readable typed value's own structure reads as this type.
    proof fn lemma_accepts_own(&self)
        requires
            self.readable(),
        ensures
            Self::accepts(self.structure_model()),
    ;

    /// What a typed value's own structure reads as has the same structure.
    proof fn lemma_read_own(&self, t: Self)
        requires
            Self::read_from(self.structure_model(), t),
        ensures
            t.structure_model() == self.structure_model(),
    ;

    /// The structure that the typed value travels as.
    fn to_structure(&self) -> (v: Value)
        ensures
            v.model() == self.structure_model(),
    ;

    /// Reads the value as this type.
    fn from_value(v: Value) -> (r: SerdeResult<Self>)
        ensures
            r is Ok <==> Self::accepts(v.model()),
            r matches Ok(t) ==> Self::read_from(v.model(), t),
            r is Err ==> fails_with(r, Self::rejection(v.model())),
    ;
}

/// The fields of a structure of this signature and number of fields.
pub fn take_fields(v: Value, sig: u8, len: usize) -> (r: SerdeResult<Vec<Value>>)
    ensures
        structure_fields(v.model(), sig, len as nat) ==> (r matches Ok(fs) && models(fs@) == fields_of(
            v.model(),
        )),
        !structure_fields(v.model(), sig, len as nat) ==> fails_with(
            r,
            structure_error(v.model(), sig, len as nat),
        ),
{
    proof {
        lemma_model_parts(&v);
    }
    match v {
        Value::Structure { signature, fields } => {
            if signature != sig {
                Err(
                    SerdeError::create(
                        ErrorCode::UnexpectedSignature { expected_signature: sig, actual_signature: signature },
                    ),
                )
            } else if fields.len() != len {
                Err(
                    SerdeError::create(
                        ErrorCode::UnexpectedFieldCount { expected_len: len, actual_len: fields.len() },
                    ),
                )
            } else {
                Ok(fields)
            }
        },
        _ => Err(SerdeError::create(ErrorCode::UnexpectedValue)),
    }
}

/// Takes the first of the fields.
pub fn take_first(fields: &mut Vec<Value>) -> (v: Value)
    requires
        old(fields)@.len() > 0,
    ensures
        v.model() == models(old(fields)@)[0],
        models(final(fields)@) == models(old(fields)@).drop_first(),
        final(fields)@.len() == old(fields)@.len() - 1,
{
    let v = fields.remove(0);
    assert(models(fields@) =~= models(old(fields)@).drop_first());
    v
}

/// The integer that the value holds.
pub fn into_i64(v: Value) -> (r: SerdeResult<i64>)
    ensures
        v.model() matches ValueModel::I64(i) ==> r == Ok::<i64, SerdeError>(i),
        !(v.model() is I64) ==> fails_with(r, ErrorCode::UnexpectedValue),
{
    match v {
        Value::I64(i) => Ok(i),
        _ => Err(SerdeError::create(ErrorCode::UnexpectedValue)),
    }
}

/// The IEEE 754 bits of the float that the value holds.
pub fn into_f64(v: Value) -> (r: SerdeResult<u64>)
    ensures
        v.model() matches ValueModel::F64(bits) ==> r == Ok::<u64, SerdeError>(bits),
        !(v.model() is F64) ==> fails_with(r, ErrorCode::UnexpectedValue),
{
    match v {
        Value::F64(bits) => Ok(bits),
        _ => Err(SerdeError::create(ErrorCode::UnexpectedValue)),
    }
}

/// The string that the value holds.
pub fn into_string(v: Value) -> (r: SerdeResult<String>)
    ensures
        v.model() matches ValueModel::String(s) ==> (r matches Ok(t) && t@ == s),
        !(v.model() is String) ==> fails_with(r, ErrorCode::UnexpectedValue),
{
    match v {
        Value::String(s) => Ok(s),
        _ => Err(SerdeError::create(ErrorCode::UnexpectedValue)),
    }
}

/// The dictionary that the value holds.
pub fn into_map(v: Value) -> (r: SerdeResult<ValueMap>)
    ensures
        v.model() matches ValueModel::Dictionary(es) ==> (r matches Ok(m) && m.model() == es),
        !(v.model() is Dictionary) ==> fails_with(r, ErrorCode::UnexpectedValue),
{
    proof {
        lemma_model_parts(&v);
    }
    match v {
        Value::Dictionary(m) => Ok(m),
        _ => Err(SerdeError::create(ErrorCode::UnexpectedValue)),
    }
}

/// The list that the value holds.
pub fn into_list(v: Value) -> (r: SerdeResult<Vec<Value>>)
    ensures
        v.model() matches ValueModel::List(items) ==> (r matches Ok(l) && models(l@) == items),
        !(v.model() is List) ==> fails_with(r, ErrorCode::UnexpectedValue),
{
    proof {
        lemma_model_parts(&v);
    }
    match v {
        Value::List(items) => Ok(items),
        _ => Err(SerdeError::create(ErrorCode::UnexpectedValue)),
    }
}

/// The name and the payload of an enum variant held as a map of one entry.
pub fn into_variant(v: Value) -> (r: SerdeResult<(String, Value)>)
    ensures
        match v.model() {
            ValueModel::Dictionary(es) => if es.len() == 1 {
                r matches Ok((k, p)) && k@ == es[0].0 && p.model() == es[0].1
            } else {
                fails_with(r, ErrorCode::UnexpectedFieldCount { expected_len: 1, actual_len: es.len() as usize })
            },
            _ => fails_with(r, ErrorCode::UnexpectedValue),
        },
{
    proof {
        lemma_model_parts(&v);
    }
    match v {
        Value::Dictionary(m) => {
            let mut entries = m.entries;
            if entries.len() != 1 {
                return Err(
                    SerdeError::create(
                        ErrorCode::UnexpectedFieldCount { expected_len: 1, actual_len: entries.len() },
                    ),
                );
            }
            let e = entries.remove(0);
            Ok(e)
        },
        _ => Err(SerdeError::create(ErrorCode::UnexpectedValue)),
    }
}

/// A dictionary of the entries, keys given as text.
pub fn field_map(entries: Vec<(&str, Value)>) -> (v: Value)
    ensures
        v.model() == ValueModel::Dictionary(
            Seq::new(entries@.len(), |i: int| (entries@[i].0@, entries@[i].1.model())),
        ),
{
    let mut out: Vec<(String, Value)> = Vec::new();
    let mut entries = entries;
    let ghost all = entries@;
    assert(all.len() == entries.len());
    let mut i: usize = 0;
    while entries.len() > 0
        invariant
            all.len() <= usize::MAX,
            i + entries@.len() == all.len(),
            entries@ == all.subrange(i as int, all.len() as int),
            out@.len() == i,
            forall|j: int|
                0 <= j < i ==> #[trigger] out@[j].0@ == all[j].0@ && out@[j].1.model() == all[j].1.model(),
        decreases entries@.len(),
    {
        let (k, val) = entries.remove(0);
        out.push((k.to_owned(), val));
        i = i + 1;
        assert(entries@ =~= all.subrange(i as int, all.len() as int));
    }
    let m = ValueMap { entries: out };
    let v = Value::Dictionary(m);
    proof {
        lemma_model_parts(&v);
        assert(m.model() =~= Seq::new(all.len(), |j: int| (all[j].0@, all[j].1.model())));
    }
    v
}

/// The fields of a structure without fields.
#[derive(Debug, PartialEq, Eq, Structural)]
pub struct Empty;

impl Empty {
    /// Reads fields that must be none.
    pub fn from_fields(fields: &Vec<Value>) -> (r: SerdeResult<Empty>)
        ensures
            r is Ok <==> fields@.len() == 0,
            r is Err ==> fails_with(r, ErrorCode::UnexpectedFieldCount { expected_len: 0, actual_len: fields@.len() as usize }),
    {
        if fields.len() == 0 {
            Ok(Empty)
        } else {
            Err(SerdeError::create(ErrorCode::UnexpectedFieldCount { expected_len: 0, actual_len: fields.len() }))
        }
    }
}

/// The fields of a structure of one field.
#[derive(Debug, PartialEq)]
pub struct Single<T>(pub T);

impl<T> Single<T> {
    /// The field.
    pub fn value(self) -> (v: T)
        ensures
            v == self.0,
    {
        self.0
    }
}

impl Single<Value> {
    /// Reads fields that must be exactly one.
    pub fn from_fields(fields: Vec<Value>) -> (r: SerdeResult<Single<Value>>)
        ensures
            r is Ok <==> fields@.len() == 1,
            r matches Ok(s) ==> s.0.model() == fields@[0].model(),
            r is Err ==> fails_with(r, ErrorCode::UnexpectedFieldCount { expected_len: 1, actual_len: fields@.len() as usize }),
    {
        if fields.len() != 1 {
            return Err(SerdeError::create(ErrorCode::UnexpectedFieldCount { expected_len: 1, actual_len: fields.len() }));
        }
        let mut fields = fields;
        let v = fields.remove(0);
        Ok(Single(v))
    }
}

/// A list of exactly one element.
#[derive(Debug, PartialEq)]
pub struct Simple<T>(pub T);

impl<T> Simple<T> {
    /// The element.
    pub fn value(self) -> (v: T)
        ensures
            v == self.0,
    {
        self.0
    }
}

impl Simple<Value> {
    /// Reads a list that must hold exactly one element.
    pub fn from_list(items: Vec<Value>) -> (r: SerdeResult<Simple<Value>>)
        ensures
            r is Ok <==> items@.len() == 1,
            r matches Ok(s) ==> s.0.model() == items@[0].model(),
            r is Err ==> fails_with(r, ErrorCode::UnexpectedFieldCount { expected_len: 1, actual_len: items@.len() as usize }),
    {
        match Single::from_fields(items) {
            Ok(s) => Ok(Simple(s.value())),
            Err(e) => Err(e),
        }
    }
}

/// Decodes the whole input as a typed structure.
pub fn structure_from_bytes<T: BoltStructure>(bytes: &[u8]) -> (r: SerdeResult<T>)
    ensures
        match decode_all(bytes@) {
            Ok(m) => {
                &&& r is Ok <==> T::accepts(m)
                &&& r matches Ok(t) ==> T::read_from(m, t)
                &&& r is Err ==> fails_with(r, T::rejection(m))
            },
            Err(c) => fails_with(r, c),
        },
{
    let v = from_bytes(bytes)?;
    T::from_value(v)
}

/// Encodes a typed structure.
pub fn structure_to_bytes<T: BoltStructure>(t: &T) -> (r: SerdeResult<Vec<u8>>)
    ensures
        match encode_value(t.structure_model()) {
            Ok(b) => r matches Ok(out) && out@ == b,
            Err(c) => fails_with(r, c),
        },
{
    to_bytes(&t.to_structure())
}

/// The bytes of the values' encodings, one after the other, where each one
/// encodes.
pub open spec fn encodings(items: Seq<ValueModel>) -> Seq<u8>
    decreases items.len(),
{
    if items.len() == 0 {
        Seq::empty()
    } else {
        encode_value(items[0])->Ok_0 + encodings(items.drop_first())
    }
}

/// A structure of fewer than sixteen fields that each encode is encoded as
/// one header byte counting its fields, its signature byte, then each
/// field's encoding in order.
pub proof fn lemma_encode_structure(sig: u8, fields: Seq<ValueModel>)
    requires
        fields.len() < 16,
        forall|i: int| 0 <= i < fields.len() ==> #[trigger] encode_value(fields[i]) is Ok,
    ensures
        encode_value(ValueModel::Structure(sig, fields)) == Ok::<Seq<u8>, ErrorCode>(
            seq![(TINY_STRUCT + fields.len()) as u8, sig] + encodings(fields),
        ),
{
    lemma_encode_seq(fields);
    let h = seq![(TINY_STRUCT + fields.len()) as u8];
    assert(marker_bytes(Marker::Struct(fields.len() as usize)) == Some(h));
    assert(h + (seq![sig] + encodings(fields)) =~= seq![(TINY_STRUCT + fields.len()) as u8, sig] + encodings(
        fields,
    ));
}

/// The encodings of three values, one after the other.
pub proof fn lemma_encodings_three(x: ValueModel, y: ValueModel, z: ValueModel)
    ensures
        encodings(seq![x, y, z]) == encode_value(x)->Ok_0 + encode_value(y)->Ok_0 + encode_value(z)->Ok_0,
{
    let s = seq![x, y, z];
    assert(s.drop_first() =~= seq![y, z]);
    assert(seq![y, z].drop_first() =~= seq![z]);
    assert(seq![z].drop_first() =~= Seq::<ValueModel>::empty());
    assert(encodings(Seq::<ValueModel>::empty()) == Seq::<u8>::empty());
    assert(seq![z][0] == z);
    assert(encodings(seq![z]) == encode_value(z)->Ok_0 + encodings(Seq::<ValueModel>::empty()));
    assert(encodings(seq![z]) =~= encode_value(z)->Ok_0);
    assert(seq![y, z][0] == y);
    assert(s[0] == x);
    assert(encodings(seq![y, z]) =~= encode_value(y)->Ok_0 + encode_value(z)->Ok_0);
    assert(encodings(s) =~= encode_value(x)->Ok_0 + encode_value(y)->Ok_0 + encode_value(z)->Ok_0);
}

/// Values that each encode are encoded one after the other.
proof fn lemma_encode_seq(items: Seq<ValueModel>)
    requires
        forall|i: int| 0 <= i < items.len() ==> #[trigger] encode_value(items[i]) is Ok,
    ensures
        encode_seq(items) == Ok::<Seq<u8>, ErrorCode>(encodings(items)),
    decreases items.len(),
{
    if items.len() > 0 {
        let rest = items.drop_first();
        assert forall|i: int| 0 <= i < rest.len() implies #[trigger] encode_value(rest[i]) is Ok by {
            assert(rest[i] == items[i + 1]);
        }
        assert(encode_value(items[0]) is Ok);
        lemma_encode_seq(rest);
    }
}

/// Law: a typed structure whose structure is canonical encodes and decodes
/// to its structure; a readable one reads back as this type; whatever it
/// reads back as has the same structure.
pub proof fn lemma_structure_roundtrip<T: BoltStructure>(t: T, u: T)
    requires
        canonical(t.structure_model()),
    ensures
        encode_value(t.structure_model()) is Ok,
        decode_all(encode_value(t.structure_model())->Ok_0) == Ok::<ValueModel, ErrorCode>(
            t.structure_model(),
        ),
        t.readable() ==> T::accepts(t.structure_model()),
        T::read_from(t.structure_model(), u) ==> u.structure_model() == t.structure_model(),
{
    lemma_decode_all_encode(t.structure_model());
    if t.readable() {
        t.lemma_accepts_own();
    }
    if T::read_from(t.structure_model(), u) {
        t.lemma_read_own(u);
    }
}

/// A graph, temporal or spatial value, told apart by its signature.
#[derive(Debug, PartialEq)]
pub enum Structure {
    Node(Node),
    Path(Path),
    Relationship(Relationship),
    UnboundRelationship(UnboundRelationship),
    DateTime(DateTime),
    DateTimeZoneId(DateTimeZoneId),
    Point2D(Point2D),
}

impl BoltStructure for Structure {
    /// An unbound relationship travels under the relationship signature,
    /// which reads as a relationship: it never reads back as itself.
    open spec fn readable(&self) -> bool {
        !(self is UnboundRelationship)
    }

    open spec fn structure_model(&self) -> ValueModel {
        match self {
            Structure::Node(v) => v.structure_model(),
            Structure::Path(v) => v.structure_model(),
            Structure::Relationship(v) => v.structure_model(),
            Structure::UnboundRelationship(v) => v.structure_model(),
            Structure::DateTime(v) => v.structure_model(),
            Structure::DateTimeZoneId(v) => v.structure_model(),
            Structure::Point2D(v) => v.structure_model(),
        }
    }

    open spec fn accepts(m: ValueModel) -> bool {
        match m {
            ValueModel::Structure(s, _) => if s == TYPE_NODE {
                Node::accepts(m)
            } else if s == TYPE_PATH {
                Path::accepts(m)
            } else if s == TYPE_RELATIONSHIP {
                Relationship::accepts(m)
            } else if s == TYPE_DATE_TIME {
                DateTime::accepts(m)
            } else if s == TYPE_DATE_TIME_ZONE_ID {
                DateTimeZoneId::accepts(m)
            } else if s == TYPE_POINT_2D {
                Point2D::accepts(m)
            } else {
                false
            },
            _ => false,
        }
    }

    open spec fn read_from(m: ValueModel, t: Self) -> bool {
        t.structure_model() == m
    }

    open spec fn rejection(m: ValueModel) -> ErrorCode {
        match m {
            ValueModel::Structure(s, _) => if s == TYPE_NODE {
                Node::rejection(m)
            } else if s == TYPE_PATH {
                Path::rejection(m)
            } else if s == TYPE_RELATIONSHIP {
                Relationship::rejection(m)
            } else if s == TYPE_DATE_TIME {
                DateTime::rejection(m)
            } else if s == TYPE_DATE_TIME_ZONE_ID {
                DateTimeZoneId::rejection(m)
            } else if s == TYPE_POINT_2D {
                Point2D::rejection(m)
            } else {
                ErrorCode::UnknownSignature(s)
            },
            _ => ErrorCode::UnexpectedValue,
        }
    }

    proof fn lemma_accepts_own(&self) {
        match self {
            Structure::Node(v) => v.lemma_accepts_own(),
            Structure::Path(v) => v.lemma_accepts_own(),
            Structure::Relationship(v) => v.lemma_accepts_own(),
            Structure::UnboundRelationship(_) => {},
            Structure::DateTime(v) => v.lemma_accepts_own(),
            Structure::DateTimeZoneId(v) => v.lemma_accepts_own(),
            Structure::Point2D(v) => v.lemma_accepts_own(),
        }
    }

    proof fn lemma_read_own(&self, t: Self) {
    }

    fn to_structure(&self) -> (v: Value) {
        match self {
            Structure::Node(v) => v.to_structure(),
            Structure::Path(v) => v.to_structure(),
            Structure::Relationship(v) => v.to_structure(),
            Structure::UnboundRelationship(v) => v.to_structure(),
            Structure::DateTime(v) => v.to_structure(),
            Structure::DateTimeZoneId(v) => v.to_structure(),
            Structure::Point2D(v) => v.to_structure(),
        }
    }

    fn from_value(v: Value) -> (r: SerdeResult<Self>) {
        let s = match &v {
            Value::Structure { signature, .. } => *signature,
            _ => {
                return Err(SerdeError::create(ErrorCode::UnexpectedValue));
            },
        };
        if s == TYPE_NODE {
            Ok(Structure::Node(Node::from_value(v)?))
        } else if s == TYPE_PATH {
            Ok(Structure::Path(Path::from_value(v)?))
        } else if s == TYPE_RELATIONSHIP {
            Ok(Structure::Relationship(Relationship::from_value(v)?))
        } else if s == TYPE_DATE_TIME {
            Ok(Structure::DateTime(DateTime::from_value(v)?))
        } else if s == TYPE_DATE_TIME_ZONE_ID {
            Ok(Structure::DateTimeZoneId(DateTimeZoneId::from_value(v)?))
        } else if s == TYPE_POINT_2D {
            Ok(Structure::Point2D(Point2D::from_value(v)?))
        } else {
            Err(SerdeError::create(ErrorCode::UnknownSignature(s)))
        }
    }
}

} // verus!
