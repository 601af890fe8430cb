//! Temporal and spatial values.
use crate::constants::signature::{TYPE_DATE_TIME, TYPE_DATE_TIME_ZONE_ID, TYPE_POINT_2D};
use crate::error::{ErrorCode, SerdeResult};
use crate::value::structure::{
    field_map, fields_of, into_f64, key, into_i64, into_string, structure_error, structure_fields, take_fields,
    take_first, BoltStructure,
};
use crate::constants::marker::{FLOAT_64, TINY_STRUCT};
use crate::de::decode_all;
use crate::marker::{be_bytes, int_bytes};
use crate::roundtrip::{all_canonical, canonical, lemma_decode_all_encode};
use crate::ser::{encode_text, encode_value};
use crate::value::structure::{lemma_encode_structure, lemma_encodings_three};
use crate::value::{lemma_model_parts, models, Value, ValueModel};
use vstd::utf8::encode_utf8;
use vstd::prelude::*;

verus! {

/// An instant with an offset from UTC: seconds and nanoseconds since the
/// epoch, and the offset in seconds.
#[derive(Debug, PartialEq, Eq, Structural)]
pub struct DateTime {
    pub seconds: i64,
    pub nanoseconds: i64,
    pub tz_offset_seconds: i64,
}

impl DateTime {
    /// The fields by name.
    pub open spec fn fields_model(&self) -> ValueModel {
        ValueModel::Dictionary(
            seq![
                (key("seconds"), ValueModel::I64(self.seconds)),
                (key("nanoseconds"), ValueModel::I64(self.nanoseconds)),
                (key("tz_offset_seconds"), ValueModel::I64(self.tz_offset_seconds)),
            ],
        )
    }

    /// The fields by name, as a dictionary.
    pub fn into_value(&self) -> (v: Value)
        ensures
            v.model() == self.fields_model(),
    {
        let v = field_map(
            vec![
                ("seconds", Value::I64(self.seconds)),
                ("nanoseconds", Value::I64(self.nanoseconds)),
                ("tz_offset_seconds", Value::I64(self.tz_offset_seconds)),
            ],
        );
        assert(v.model()->Dictionary_0 =~= self.fields_model()->Dictionary_0);
        v
    }
}

impl BoltStructure for DateTime {
    open spec fn structure_model(&self) -> ValueModel {
        ValueModel::Structure(
            TYPE_DATE_TIME,
            seq![
                ValueModel::I64(self.seconds),
                ValueModel::I64(self.nanoseconds),
                ValueModel::I64(self.tz_offset_seconds),
            ],
        )
    }

    open spec fn accepts(m: ValueModel) -> bool {
        &&& structure_fields(m, TYPE_DATE_TIME, 3)
        &&& fields_of(m)[0] is I64
        &&& fields_of(m)[1] is I64
        &&& fields_of(m)[2] is I64
    }

    open spec fn read_from(m: ValueModel, t: Self) -> bool {
        t.structure_model() == m
    }

    open spec fn rejection(m: ValueModel) -> ErrorCode {
        if !structure_fields(m, TYPE_DATE_TIME, 3) {
            structure_error(m, TYPE_DATE_TIME, 3)
        } else {
            ErrorCode::UnexpectedValue
        }
    }

    proof fn lemma_accepts_own(&self) {
    }

    proof fn lemma_read_own(&self, t: Self) {
    }

    fn to_structure(&self) -> (v: Value)
        ensures
            v.model() == ValueModel::Structure(
                TYPE_DATE_TIME,
                seq![
                    ValueModel::I64(self.seconds),
                    ValueModel::I64(self.nanoseconds),
                    ValueModel::I64(self.tz_offset_seconds),
                ],
            ),
    {
        let mut fields = Vec::new();
        fields.push(Value::I64(self.seconds));
        fields.push(Value::I64(self.nanoseconds));
        fields.push(Value::I64(self.tz_offset_seconds));
        let v = Value::Structure { signature: TYPE_DATE_TIME, fields };
        proof {
            lemma_model_parts(&v);
            assert(models(fields@) =~= fields_of(self.structure_model()));
        }
        v
    }

    fn from_value(v: Value) -> (r: SerdeResult<Self>)
        ensures
            structure_fields(v.model(), TYPE_DATE_TIME, 3)
                && fields_of(v.model())[0] is I64 && fields_of(v.model())[1] is I64 && fields_of(v.model())[2] is I64 ==> (r matches Ok(t) && t.seconds
                == fields_of(v.model())[0]->I64_0 && t.nanoseconds == fields_of(v.model())[1]->I64_0 && t.tz_offset_seconds == fields_of(v.model())[2]->I64_0),
    {
        let ghost m = v.model();
        let mut fields = take_fields(v, TYPE_DATE_TIME, 3)?;
        let seconds = into_i64(take_first(&mut fields))?;
        let nanoseconds = into_i64(take_first(&mut fields))?;
        let tz_offset_seconds = into_i64(take_first(&mut fields))?;
        let t = DateTime { seconds, nanoseconds, tz_offset_seconds };
        assert(fields_of(t.structure_model()) =~= fields_of(m));
        Ok(t)
    }
}

/// An instant in a named time zone: seconds and nanoseconds since the
/// epoch, and the zone's identifier.
#[derive(Debug, PartialEq)]
pub struct DateTimeZoneId {
    pub seconds: i64,
    pub nanoseconds: i64,
    pub tz_id: String,
}

impl DateTimeZoneId {
    /// The fields by name.
    pub open spec fn fields_model(&self) -> ValueModel {
        ValueModel::Dictionary(
            seq![
                (key("seconds"), ValueModel::I64(self.seconds)),
                (key("nanoseconds"), ValueModel::I64(self.nanoseconds)),
                (key("tz_id"), ValueModel::String(self.tz_id@)),
            ],
        )
    }

    /// The fields by name, as a dictionary.
    pub fn into_value(&self) -> (v: Value)
        ensures
            v.model() == self.fields_model(),
    {
        let v = field_map(
            vec![
                ("seconds", Value::I64(self.seconds)),
                ("nanoseconds", Value::I64(self.nanoseconds)),
                ("tz_id", Value::String(self.tz_id.clone())),
            ],
        );
        assert(v.model()->Dictionary_0 =~= self.fields_model()->Dictionary_0);
        v
    }
}

impl BoltStructure for DateTimeZoneId {
    open spec fn structure_model(&self) -> ValueModel {
        ValueModel::Structure(
            TYPE_DATE_TIME_ZONE_ID,
            seq![
                ValueModel::I64(self.seconds),
                ValueModel::I64(self.nanoseconds),
                ValueModel::String(self.tz_id@),
            ],
        )
    }

    open spec fn accepts(m: ValueModel) -> bool {
        &&& structure_fields(m, TYPE_DATE_TIME_ZONE_ID, 3)
        &&& fields_of(m)[0] is I64
        &&& fields_of(m)[1] is I64
        &&& fields_of(m)[2] is String
    }

    open spec fn read_from(m: ValueModel, t: Self) -> bool {
        t.structure_model() == m
    }

    open spec fn rejection(m: ValueModel) -> ErrorCode {
        if !structure_fields(m, TYPE_DATE_TIME_ZONE_ID, 3) {
            structure_error(m, TYPE_DATE_TIME_ZONE_ID, 3)
        } else {
            ErrorCode::UnexpectedValue
        }
    }

    proof fn lemma_accepts_own(&self) {
    }

    proof fn lemma_read_own(&self, t: Self) {
    }

    fn to_structure(&self) -> (v: Value)
        ensures
            v.model() == ValueModel::Structure(
                TYPE_DATE_TIME_ZONE_ID,
                seq![
                    ValueModel::I64(self.seconds),
                    ValueModel::I64(self.nanoseconds),
                    ValueModel::String(self.tz_id@),
                ],
            ),
    {
        let mut fields = Vec::new();
        fields.push(Value::I64(self.seconds));
        fields.push(Value::I64(self.nanoseconds));
        fields.push(Value::String(self.tz_id.clone()));
        let v = Value::Structure { signature: TYPE_DATE_TIME_ZONE_ID, fields };
        proof {
            lemma_model_parts(&v);
            assert(models(fields@) =~= fields_of(self.structure_model()));
        }
        v
    }

    fn from_value(v: Value) -> (r: SerdeResult<Self>)
        ensures
            structure_fields(v.model(), TYPE_DATE_TIME_ZONE_ID, 3)
                && fields_of(v.model())[0] is I64 && fields_of(v.model())[1] is I64 && fields_of(v.model())[2] is String ==> (r matches Ok(t) && t.seconds
                == fields_of(v.model())[0]->I64_0 && t.nanoseconds == fields_of(v.model())[1]->I64_0 && t.tz_id@ == fields_of(v.model())[2]->String_0),
    {
        let ghost m = v.model();
        let mut fields = take_fields(v, TYPE_DATE_TIME_ZONE_ID, 3)?;
        let seconds = into_i64(take_first(&mut fields))?;
        let nanoseconds = into_i64(take_first(&mut fields))?;
        let tz_id = into_string(take_first(&mut fields))?;
        let t = DateTimeZoneId { seconds, nanoseconds, tz_id };
        assert(fields_of(t.structure_model()) =~= fields_of(m));
        Ok(t)
    }
}

/// A point in a two-dimensional coordinate system: the system's identifier
/// and the coordinates, each held as the IEEE 754 bits of a float.
#[derive(Debug, PartialEq, Eq, Structural)]
pub struct Point2D {
    pub srid: i64,
    pub x: u64,
    pub y: u64,
}

impl Point2D {
    /// The fields by name.
    pub open spec fn fields_model(&self) -> ValueModel {
        ValueModel::Dictionary(
            seq![
                (key("srid"), ValueModel::I64(self.srid)),
                (key("x"), ValueModel::F64(self.x)),
                (key("y"), ValueModel::F64(self.y)),
            ],
        )
    }

    /// The fields by name, as a dictionary.
    pub fn into_value(&self) -> (v: Value)
        ensures
            v.model() == self.fields_model(),
    {
        let v = field_map(
            vec![
                ("srid", Value::I64(self.srid)),
                ("x", Value::F64(self.x)),
                ("y", Value::F64(self.y)),
            ],
        );
        assert(v.model()->Dictionary_0 =~= self.fields_model()->Dictionary_0);
        v
    }
}

impl BoltStructure for Point2D {
    open spec fn structure_model(&self) -> ValueModel {
        ValueModel::Structure(
            TYPE_POINT_2D,
            seq![ValueModel::I64(self.srid), ValueModel::F64(self.x), ValueModel::F64(self.y)],
        )
    }

    open spec fn accepts(m: ValueModel) -> bool {
        &&& structure_fields(m, TYPE_POINT_2D, 3)
        &&& fields_of(m)[0] is I64
        &&& fields_of(m)[1] is F64
        &&& fields_of(m)[2] is F64
    }

    open spec fn read_from(m: ValueModel, t: Self) -> bool {
        t.structure_model() == m
    }

    open spec fn rejection(m: ValueModel) -> ErrorCode {
        if !structure_fields(m, TYPE_POINT_2D, 3) {
            structure_error(m, TYPE_POINT_2D, 3)
        } else {
            ErrorCode::UnexpectedValue
        }
    }

    proof fn lemma_accepts_own(&self) {
    }

    proof fn lemma_read_own(&self, t: Self) {
    }

    fn to_structure(&self) -> (v: Value)
        ensures
            v.model() == ValueModel::Structure(
                TYPE_POINT_2D,
                seq![ValueModel::I64(self.srid), ValueModel::F64(self.x), ValueModel::F64(self.y)],
            ),
    {
        let mut fields = Vec::new();
        fields.push(Value::I64(self.srid));
        fields.push(Value::F64(self.x));
        fields.push(Value::F64(self.y));
        let v = Value::Structure { signature: TYPE_POINT_2D, fields };
        proof {
            lemma_model_parts(&v);
            assert(models(fields@) =~= fields_of(self.structure_model()));
        }
        v
    }

    fn from_value(v: Value) -> (r: SerdeResult<Self>)
        ensures
            structure_fields(v.model(), TYPE_POINT_2D, 3)
                && fields_of(v.model())[0] is I64 && fields_of(v.model())[1] is F64 && fields_of(v.model())[2] is F64 ==> (r matches Ok(t) && t.srid
                == fields_of(v.model())[0]->I64_0 && t.x == fields_of(v.model())[1]->F64_0 && t.y == fields_of(v.model())[2]->F64_0),
    {
        let ghost m = v.model();
        let mut fields = take_fields(v, TYPE_POINT_2D, 3)?;
        let srid = into_i64(take_first(&mut fields))?;
        let x = into_f64(take_first(&mut fields))?;
        let y = into_f64(take_first(&mut fields))?;
        let t = Point2D { srid, x, y };
        assert(fields_of(t.structure_model()) =~= fields_of(m));
        Ok(t)
    }
}

/// Law: a DateTime is encoded as a structure header of three fields, the
/// signature 0x46, then its seconds, its nanoseconds and its offset, each as
/// an integer, in that order.
pub proof fn lemma_date_time_encoding(d: DateTime)
    ensures
        encode_value(d.structure_model()) == Ok::<Seq<u8>, ErrorCode>(
            seq![0xB3u8, 0x46u8] + int_bytes(d.seconds as int) + int_bytes(d.nanoseconds as int) + int_bytes(
                d.tz_offset_seconds as int,
            ),
        ),
{
    let fs = seq![
        ValueModel::I64(d.seconds),
        ValueModel::I64(d.nanoseconds),
        ValueModel::I64(d.tz_offset_seconds),
    ];
    assert(d.structure_model() == ValueModel::Structure(0x46, fs));
    lemma_int_encodes(d.seconds);
    lemma_int_encodes(d.nanoseconds);
    lemma_int_encodes(d.tz_offset_seconds);
    assert(forall|i: int| 0 <= i < fs.len() ==> #[trigger] encode_value(fs[i]) is Ok) by {
        assert(fs[0] == ValueModel::I64(d.seconds));
        assert(fs[1] == ValueModel::I64(d.nanoseconds));
        assert(fs[2] == ValueModel::I64(d.tz_offset_seconds));
    }
    lemma_encode_structure(0x46, fs);
    lemma_encodings_three(fs[0], fs[1], fs[2]);
    assert(seq![(TINY_STRUCT + fs.len()) as u8, 0x46u8] =~= seq![0xB3u8, 0x46u8]);
    assert(seq![0xB3u8, 0x46u8] + (int_bytes(d.seconds as int) + int_bytes(d.nanoseconds as int) + int_bytes(
        d.tz_offset_seconds as int,
    )) =~= seq![0xB3u8, 0x46u8] + int_bytes(d.seconds as int) + int_bytes(d.nanoseconds as int) + int_bytes(
        d.tz_offset_seconds as int,
    ));
}

/// Law: a structure of signature 0x46 holding three integers `a`, `b` and
/// `c` reads as the DateTime of `a` seconds, `b` nanoseconds and offset `c`,
/// and is what those bytes decode to.
pub proof fn lemma_date_time_reading(a: i64, b: i64, c: i64, t: DateTime)
    ensures
        DateTime::accepts(
            ValueModel::Structure(0x46, seq![ValueModel::I64(a), ValueModel::I64(b), ValueModel::I64(c)]),
        ),
        DateTime::read_from(
            ValueModel::Structure(0x46, seq![ValueModel::I64(a), ValueModel::I64(b), ValueModel::I64(c)]),
            t,
        ) ==> t.seconds == a && t.nanoseconds == b && t.tz_offset_seconds == c,
        decode_all(seq![0xB3u8, 0x46u8] + int_bytes(a as int) + int_bytes(b as int) + int_bytes(c as int))
            == Ok::<ValueModel, ErrorCode>(
            ValueModel::Structure(0x46, seq![ValueModel::I64(a), ValueModel::I64(b), ValueModel::I64(c)]),
        ),
{
    let d = DateTime { seconds: a, nanoseconds: b, tz_offset_seconds: c };
    let m = ValueModel::Structure(0x46, seq![ValueModel::I64(a), ValueModel::I64(b), ValueModel::I64(c)]);
    assert(d.structure_model() == m);
    lemma_date_time_encoding(d);
    lemma_canonical_three(0x46, ValueModel::I64(a), ValueModel::I64(b), ValueModel::I64(c));
    lemma_decode_all_encode(m);
    if DateTime::read_from(m, t) {
        assert(t.structure_model()->Structure_1[0] == m->Structure_1[0]);
        assert(t.structure_model()->Structure_1[1] == m->Structure_1[1]);
        assert(t.structure_model()->Structure_1[2] == m->Structure_1[2]);
    }
}

/// Law: a DateTimeZoneId whose zone fits a string is encoded as a structure
/// header of three fields, the signature 0x66, then its seconds and its
/// nanoseconds as integers and its zone as a string, in that order.
pub proof fn lemma_date_time_zone_id_encoding(d: DateTimeZoneId)
    requires
        encode_utf8(d.tz_id@).len() <= 0xFFFF_FFFF,
    ensures
        encode_value(d.structure_model()) == Ok::<Seq<u8>, ErrorCode>(
            seq![0xB3u8, 0x66u8] + int_bytes(d.seconds as int) + int_bytes(d.nanoseconds as int)
                + encode_text(d.tz_id@)->Ok_0,
        ),
{
    let fs = seq![
        ValueModel::I64(d.seconds),
        ValueModel::I64(d.nanoseconds),
        ValueModel::String(d.tz_id@),
    ];
    assert(d.structure_model() == ValueModel::Structure(0x66, fs));
    lemma_int_encodes(d.seconds);
    lemma_int_encodes(d.nanoseconds);
    lemma_text_encodes(d.tz_id@);
    assert(forall|i: int| 0 <= i < fs.len() ==> #[trigger] encode_value(fs[i]) is Ok) by {
        assert(fs[0] == ValueModel::I64(d.seconds));
        assert(fs[1] == ValueModel::I64(d.nanoseconds));
        assert(fs[2] == ValueModel::String(d.tz_id@));
    }
    lemma_encode_structure(0x66, fs);
    lemma_encodings_three(fs[0], fs[1], fs[2]);
    assert(seq![(TINY_STRUCT + fs.len()) as u8, 0x66u8] =~= seq![0xB3u8, 0x66u8]);
    assert(seq![0xB3u8, 0x66u8] + (int_bytes(d.seconds as int) + int_bytes(d.nanoseconds as int)
        + encode_text(d.tz_id@)->Ok_0) =~= seq![0xB3u8, 0x66u8] + int_bytes(d.seconds as int) + int_bytes(
        d.nanoseconds as int,
    ) + encode_text(d.tz_id@)->Ok_0);
}

/// Law: a structure of signature 0x66 holding the integers `a` and `b` and
/// a string reads as the DateTimeZoneId of `a` seconds, `b` nanoseconds and
/// that zone, and is what those bytes decode to.
pub proof fn lemma_date_time_zone_id_reading(a: i64, b: i64, zone: Seq<char>, t: DateTimeZoneId)
    requires
        encode_utf8(zone).len() <= 0xFFFF_FFFF,
    ensures
        DateTimeZoneId::accepts(
            ValueModel::Structure(0x66, seq![ValueModel::I64(a), ValueModel::I64(b), ValueModel::String(zone)]),
        ),
        DateTimeZoneId::read_from(
            ValueModel::Structure(0x66, seq![ValueModel::I64(a), ValueModel::I64(b), ValueModel::String(zone)]),
            t,
        ) ==> t.seconds == a && t.nanoseconds == b && t.tz_id@ == zone,
        decode_all(seq![0xB3u8, 0x66u8] + int_bytes(a as int) + int_bytes(b as int) + encode_text(zone)->Ok_0)
            == Ok::<ValueModel, ErrorCode>(
            ValueModel::Structure(0x66, seq![ValueModel::I64(a), ValueModel::I64(b), ValueModel::String(zone)]),
        ),
{
    let m = ValueModel::Structure(0x66, seq![ValueModel::I64(a), ValueModel::I64(b), ValueModel::String(zone)]);
    let fs = seq![ValueModel::I64(a), ValueModel::I64(b), ValueModel::String(zone)];
    lemma_zone_encoding(a, b, zone);
    lemma_canonical_three(0x66, fs[0], fs[1], fs[2]);
    lemma_decode_all_encode(m);
    if DateTimeZoneId::read_from(m, t) {
        assert(t.structure_model()->Structure_1[0] == m->Structure_1[0]);
        assert(t.structure_model()->Structure_1[1] == m->Structure_1[1]);
        assert(t.structure_model()->Structure_1[2] == m->Structure_1[2]);
    }
}

/// Law: a Point2D is encoded as a structure header of three fields, the
/// signature 0x58, then its srid as an integer and its x and y as floats, in
/// that order.
pub proof fn lemma_point_2d_encoding(p: Point2D)
    ensures
        encode_value(p.structure_model()) == Ok::<Seq<u8>, ErrorCode>(
            seq![0xB3u8, 0x58u8] + int_bytes(p.srid as int) + (seq![FLOAT_64] + be_bytes(p.x as int, 8))
                + (seq![FLOAT_64] + be_bytes(p.y as int, 8)),
        ),
{
    let fs = seq![ValueModel::I64(p.srid), ValueModel::F64(p.x), ValueModel::F64(p.y)];
    assert(p.structure_model() == ValueModel::Structure(0x58, fs));
    lemma_int_encodes(p.srid);
    lemma_float_encodes(p.x);
    lemma_float_encodes(p.y);
    assert(forall|i: int| 0 <= i < fs.len() ==> #[trigger] encode_value(fs[i]) is Ok) by {
        assert(fs[0] == ValueModel::I64(p.srid));
        assert(fs[1] == ValueModel::F64(p.x));
        assert(fs[2] == ValueModel::F64(p.y));
    }
    lemma_encode_structure(0x58, fs);
    lemma_encodings_three(fs[0], fs[1], fs[2]);
    assert(seq![(TINY_STRUCT + fs.len()) as u8, 0x58u8] =~= seq![0xB3u8, 0x58u8]);
    assert(seq![0xB3u8, 0x58u8] + (int_bytes(p.srid as int) + (seq![FLOAT_64] + be_bytes(p.x as int, 8)) + (
    seq![FLOAT_64] + be_bytes(p.y as int, 8))) =~= seq![0xB3u8, 0x58u8] + int_bytes(p.srid as int) + (seq![
        FLOAT_64,
    ] + be_bytes(p.x as int, 8)) + (seq![FLOAT_64] + be_bytes(p.y as int, 8)));
}

/// Law: a structure of signature 0x58 holding an integer `s` and the floats
/// `a` and `b` reads as the Point2D of srid `s`, x `a` and y `b`, and is what
/// those bytes decode to.
pub proof fn lemma_point_2d_reading(s: i64, a: u64, b: u64, t: Point2D)
    ensures
        Point2D::accepts(
            ValueModel::Structure(0x58, seq![ValueModel::I64(s), ValueModel::F64(a), ValueModel::F64(b)]),
        ),
        Point2D::read_from(
            ValueModel::Structure(0x58, seq![ValueModel::I64(s), ValueModel::F64(a), ValueModel::F64(b)]),
            t,
        ) ==> t.srid == s && t.x == a && t.y == b,
        decode_all(
            seq![0xB3u8, 0x58u8] + int_bytes(s as int) + (seq![FLOAT_64] + be_bytes(a as int, 8)) + (
            seq![FLOAT_64] + be_bytes(b as int, 8)),
        ) == Ok::<ValueModel, ErrorCode>(
            ValueModel::Structure(0x58, seq![ValueModel::I64(s), ValueModel::F64(a), ValueModel::F64(b)]),
        ),
{
    let p = Point2D { srid: s, x: a, y: b };
    let m = ValueModel::Structure(0x58, seq![ValueModel::I64(s), ValueModel::F64(a), ValueModel::F64(b)]);
    assert(p.structure_model() == m);
    lemma_point_2d_encoding(p);
    lemma_canonical_three(0x58, ValueModel::I64(s), ValueModel::F64(a), ValueModel::F64(b));
    lemma_decode_all_encode(m);
    if Point2D::read_from(m, t) {
        assert(t.structure_model()->Structure_1[0] == m->Structure_1[0]);
        assert(t.structure_model()->Structure_1[1] == m->Structure_1[1]);
        assert(t.structure_model()->Structure_1[2] == m->Structure_1[2]);
    }
}

/// The encoding of a structure of signature 0x66 holding two integers and
/// a string.
proof fn lemma_zone_encoding(a: i64, b: i64, zone: Seq<char>)
    requires
        encode_utf8(zone).len() <= 0xFFFF_FFFF,
    ensures
        encode_value(
            ValueModel::Structure(0x66, seq![ValueModel::I64(a), ValueModel::I64(b), ValueModel::String(zone)]),
        ) == Ok::<Seq<u8>, ErrorCode>(
            seq![0xB3u8, 0x66u8] + int_bytes(a as int) + int_bytes(b as int) + encode_text(zone)->Ok_0,
        ),
{
    let fs = seq![ValueModel::I64(a), ValueModel::I64(b), ValueModel::String(zone)];
    lemma_int_encodes(a);
    lemma_int_encodes(b);
    lemma_text_encodes(zone);
    assert(forall|i: int| 0 <= i < fs.len() ==> #[trigger] encode_value(fs[i]) is Ok) by {
        assert(fs[0] == ValueModel::I64(a));
        assert(fs[1] == ValueModel::I64(b));
        assert(fs[2] == ValueModel::String(zone));
    }
    lemma_encode_structure(0x66, fs);
    lemma_encodings_three(fs[0], fs[1], fs[2]);
    assert(seq![(TINY_STRUCT + fs.len()) as u8, 0x66u8] =~= seq![0xB3u8, 0x66u8]);
    assert(seq![0xB3u8, 0x66u8] + (int_bytes(a as int) + int_bytes(b as int) + encode_text(zone)->Ok_0)
        =~= seq![0xB3u8, 0x66u8] + int_bytes(a as int) + int_bytes(b as int) + encode_text(zone)->Ok_0);
}

/// An integer encodes as its header.
proof fn lemma_int_encodes(v: i64)
    ensures
        encode_value(ValueModel::I64(v)) == Ok::<Seq<u8>, ErrorCode>(int_bytes(v as int)),
{
}

/// A float encodes as its marker byte and its eight bytes.
proof fn lemma_float_encodes(bits: u64)
    ensures
        encode_value(ValueModel::F64(bits)) == Ok::<Seq<u8>, ErrorCode>(
            seq![FLOAT_64] + be_bytes(bits as int, 8),
        ),
{
}

/// A string that fits its size field encodes as its text.
proof fn lemma_text_encodes(s: Seq<char>)
    requires
        encode_utf8(s).len() <= 0xFFFF_FFFF,
    ensures
        encode_text(s) is Ok,
        encode_value(ValueModel::String(s)) == encode_text(s),
{
}

/// A structure of three canonical values is canonical.
proof fn lemma_canonical_three(sig: u8, x: ValueModel, y: ValueModel, z: ValueModel)
    requires
        canonical(x),
        canonical(y),
        canonical(z),
    ensures
        canonical(ValueModel::Structure(sig, seq![x, y, z])),
{
    let s = seq![x, y, z];
    assert(s.drop_first() =~= seq![y, z]);
    assert(seq![y, z].drop_first() =~= seq![z]);
    assert(seq![z].drop_first() =~= Seq::<ValueModel>::empty());
    assert(all_canonical(Seq::<ValueModel>::empty()));
    assert(all_canonical(seq![z]));
    assert(all_canonical(seq![y, z]));
    assert(all_canonical(s));
}

} // verus!
