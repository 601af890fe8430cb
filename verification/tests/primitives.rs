use serde_bolt::constants::marker::{
    FALSE, FLOAT_64, INT_16, INT_32, INT_64, INT_8, LIST_8, NULL, TINY_LIST, TINY_MAP, TINY_STRING,
    TINY_STRUCT, TRUE,
};
use serde_bolt::de::Deserializer;
use serde_bolt::error::{ErrorCode, SerdeError, SerdeResult};
use serde_bolt::ser::Serializer;
use serde_bolt::{from_bytes, to_bytes, Value, ValueMap};
use std::fmt::Debug;

fn bytes(parts: &[&[u8]]) -> Vec<u8> {
    let mut out = Vec::new();
    for p in parts {
        out.extend_from_slice(p);
    }
    out
}

fn map_of(entries: Vec<(&str, Value)>) -> ValueMap {
    let mut m = ValueMap::new();
    for (k, v) in entries {
        m.insert(k.to_owned(), v);
    }
    m
}

/// Encodes a value of a Rust type by the encoder steps its type takes.
fn ser_with(steps: impl FnOnce(&mut Serializer) -> SerdeResult<()>, expected: &[u8]) {
    let mut s = Serializer::new();
    let r = steps(&mut s);
    assert!(r.is_ok(), "{:?}", r);
    assert_eq!(expected, s.output.as_slice());
}

/// Encodes a loosely typed value.
fn ser(value: Value, expected: &[u8]) {
    let out = to_bytes(&value);
    assert!(out.is_ok(), "{:?}", out);
    assert_eq!(expected, out.unwrap().as_slice());
}

fn ser_int(v: i64, expected: &[u8]) {
    ser_with(|s: &mut Serializer| s.serialize_i64(v), expected);
}

/// Decodes the whole input into a value of a Rust type by the decoder steps
/// its type takes.
fn de_with<T: PartialEq + Debug>(input: &[u8], steps: impl FnOnce(&mut Deserializer) -> SerdeResult<T>, expected: T) {
    let mut de = Deserializer::new(input);
    let r = steps(&mut de);
    assert!(r.is_ok(), "{:?}", r);
    assert_eq!(r.unwrap(), expected);
    assert!(de.is_done().is_ok());
}

/// Decodes the whole input as a loosely typed value.
fn de(input: &[u8], expected: Value) {
    let r = from_bytes(input);
    assert!(r.is_ok(), "{:?}", r);
    assert_eq!(r.unwrap(), expected);
}

fn de_int(input: &[u8], min: i64, max: i64, expected: i64) {
    de_with(input, |d: &mut Deserializer| d.parse_int(min, max), expected);
}

const I8: (i64, i64) = (i8::MIN as i64, i8::MAX as i64);
const I16: (i64, i64) = (i16::MIN as i64, i16::MAX as i64);
const I32: (i64, i64) = (i32::MIN as i64, i32::MAX as i64);
const I64: (i64, i64) = (i64::MIN, i64::MAX);

fn check_ser_integer() {
    ser_int(0, &[0]);
    ser(Value::I64(0), &[0]);
    ser_int(-16, &[240]);
    ser(Value::I64(-16), &[240]);
    ser_int(127, &[127]);
    ser(Value::I64(127), &[127]);

    ser_int(-128, &[INT_8, 128]);
    ser(Value::I64(-128), &[INT_8, 128]);
    ser_int(-17, &[INT_8, 239]);
    ser(Value::I64(-17), &[INT_8, 239]);

    ser_int(128, &[INT_16, 0, 128]);
    ser(Value::I64(128), &[INT_16, 0, 128]);
    ser_int(-129, &[INT_16, 255, 127]);
    ser(Value::I64(-129), &[INT_16, 255, 127]);
    ser_int(i16::MIN as i64, &[INT_16, 128, 0]);
    ser(Value::I64(i16::MIN as i64), &[INT_16, 128, 0]);
    ser_int(i16::MAX as i64, &[INT_16, 127, 255]);
    ser(Value::I64(i16::MAX as i64), &[INT_16, 127, 255]);

    let start_pos = i16::MAX as i64 + 1;
    let start_neg = i16::MIN as i64 - 1;
    ser_int(start_pos, &[INT_32, 0, 0, 128, 0]);
    ser(Value::I64(start_pos), &[INT_32, 0, 0, 128, 0]);
    ser_int(start_neg, &[INT_32, 255, 255, 127, 255]);
    ser(Value::I64(start_neg), &[INT_32, 255, 255, 127, 255]);
    ser_int(i32::MIN as i64, &[INT_32, 128, 0, 0, 0]);
    ser(Value::I64(i32::MIN as i64), &[INT_32, 128, 0, 0, 0]);
    ser_int(i32::MAX as i64, &[INT_32, 127, 255, 255, 255]);
    ser(Value::I64(i32::MAX as i64), &[INT_32, 127, 255, 255, 255]);

    let start_pos = i32::MAX as i64 + 1;
    let start_neg = i32::MIN as i64 - 1;
    ser_int(start_pos, &[INT_64, 0, 0, 0, 0, 128, 0, 0, 0]);
    ser(Value::I64(start_pos), &[INT_64, 0, 0, 0, 0, 128, 0, 0, 0]);
    ser_int(start_neg, &[INT_64, 255, 255, 255, 255, 127, 255, 255, 255]);
    ser(Value::I64(start_neg), &[INT_64, 255, 255, 255, 255, 127, 255, 255, 255]);
    ser_int(i64::MIN, &[INT_64, 128, 0, 0, 0, 0, 0, 0, 0]);
    ser(Value::I64(i64::MIN), &[INT_64, 128, 0, 0, 0, 0, 0, 0, 0]);
    ser_int(i64::MAX, &[INT_64, 127, 255, 255, 255, 255, 255, 255, 255]);
    ser(Value::I64(i64::MAX), &[INT_64, 127, 255, 255, 255, 255, 255, 255, 255]);

    let mut s = Serializer::new();
    assert!(s.serialize_u64(u64::MAX).is_err());
}

fn check_de_integer() {
    de_int(&[100], I8.0, I8.1, 100);
    de_int(&[240], I8.0, I8.1, -16);

    de_int(&[INT_8, 128], I8.0, I8.1, -128);
    de(&[INT_8, 128], Value::I64(-128));
    de_int(&[INT_8, 239], I8.0, I8.1, -17);
    de(&[INT_8, 239], Value::I64(-17));

    de_int(&[INT_16, 0, 128], I16.0, I16.1, 128);
    de(&[INT_16, 0, 128], Value::I64(128));
    de_int(&[INT_16, 255, 127], I16.0, I16.1, -129);
    de(&[INT_16, 255, 127], Value::I64(-129));
    de_int(&[INT_16, 128, 0], I16.0, I16.1, i16::MIN as i64);
    de(&[INT_16, 128, 0], Value::I64(i16::MIN as i64));
    de_int(&[INT_16, 127, 255], I16.0, I16.1, i16::MAX as i64);
    de(&[INT_16, 127, 255], Value::I64(i16::MAX as i64));

    let start_pos = i16::MAX as i64 + 1;
    let start_neg = i16::MIN as i64 - 1;
    de_int(&[INT_32, 0, 0, 128, 0], I64.0, I64.1, start_pos);
    de(&[INT_32, 0, 0, 128, 0], Value::I64(start_pos));
    de_int(&[INT_32, 255, 255, 127, 255], I64.0, I64.1, start_neg);
    de(&[INT_32, 255, 255, 127, 255], Value::I64(start_neg));
    de_int(&[INT_32, 128, 0, 0, 0], I32.0, I32.1, i32::MIN as i64);
    de(&[INT_32, 128, 0, 0, 0], Value::I64(i32::MIN as i64));
    de_int(&[INT_32, 127, 255, 255, 255], I32.0, I32.1, i32::MAX as i64);
    de(&[INT_32, 127, 255, 255, 255], Value::I64(i32::MAX as i64));

    let start_pos = i32::MAX as i64 + 1;
    let start_neg = i32::MIN as i64 - 1;
    de_int(&[INT_64, 0, 0, 0, 0, 128, 0, 0, 0], I64.0, I64.1, start_pos);
    de(&[INT_64, 0, 0, 0, 0, 128, 0, 0, 0], Value::I64(start_pos));
    de_int(&[INT_64, 255, 255, 255, 255, 127, 255, 255, 255], I64.0, I64.1, start_neg);
    de(&[INT_64, 255, 255, 255, 255, 127, 255, 255, 255], Value::I64(start_neg));
    de_int(&[INT_64, 128, 0, 0, 0, 0, 0, 0, 0], I64.0, I64.1, i64::MIN);
    de(&[INT_64, 128, 0, 0, 0, 0, 0, 0, 0], Value::I64(i64::MIN));
    de_int(&[INT_64, 127, 255, 255, 255, 255, 255, 255, 255], I64.0, I64.1, i64::MAX);
    de(&[INT_64, 127, 255, 255, 255, 255, 255, 255, 255], Value::I64(i64::MAX));
}

fn check_ser_float() {
    ser_with(|s: &mut Serializer| s.serialize_f64(0.0f64.to_bits()), &[FLOAT_64, 0, 0, 0, 0, 0, 0, 0, 0]);
    ser(Value::F64(0.0f64.to_bits()), &[FLOAT_64, 0, 0, 0, 0, 0, 0, 0, 0]);
    ser_with(
        |s: &mut Serializer| s.serialize_f64(100.100f64.to_bits()),
        &[FLOAT_64, 64, 89, 6, 102, 102, 102, 102, 102],
    );
}

fn check_de_float() {
    let float = |d: &mut Deserializer| d.parse_f64().map(f64::from_bits);
    de_with(&[FLOAT_64, 0, 0, 0, 0, 0, 0, 0, 0], float, 0.0);
    de(&[FLOAT_64, 0, 0, 0, 0, 0, 0, 0, 0], Value::F64(0.0f64.to_bits()));
    de_with(&[FLOAT_64, 64, 89, 6, 102, 102, 102, 102, 102], float, 100.100);
    de(&[FLOAT_64, 64, 89, 6, 102, 102, 102, 102, 102], Value::F64(100.100f64.to_bits()));
}

fn check_ser_bool() {
    ser_with(|s: &mut Serializer| s.serialize_bool(true), &[TRUE]);
    ser(Value::Bool(true), &[TRUE]);
    ser_with(|s: &mut Serializer| s.serialize_bool(false), &[FALSE]);
    ser(Value::Bool(false), &[FALSE]);
}

fn check_de_bool() {
    de_with(&[TRUE], |d: &mut Deserializer| d.parse_bool(), true);
    de(&[TRUE], Value::Bool(true));
    de_with(&[FALSE], |d: &mut Deserializer| d.parse_bool(), false);
    de(&[FALSE], Value::Bool(false));
}

fn check_ser_unit() {
    // `()` and a unit struct both encode as the unit value.
    ser_with(|s: &mut Serializer| s.serialize_unit(), &[NULL]);
    ser(Value::Null, &[NULL]);
    ser_with(|s: &mut Serializer| s.serialize_unit(), &[NULL]);
}

fn check_de_unit() {
    de_with(&[NULL], |d: &mut Deserializer| d.parse_null(), ());
    de(&[NULL], Value::Null);
    de_with(&[NULL], |d: &mut Deserializer| d.parse_null(), ());
}

fn check_ser_string() {
    ser_with(|s: &mut Serializer| s.serialize_str(""), &[TINY_STRING]);
    ser_with(|s: &mut Serializer| s.serialize_str("1"), &[TINY_STRING + 1, 49]);
    ser_with(|s: &mut Serializer| s.serialize_str(&String::new()), &[TINY_STRING]);
    ser_with(|s: &mut Serializer| s.serialize_str(&String::from("1")), &[TINY_STRING + 1, 49]);
    ser(Value::String(String::from("1")), &[TINY_STRING + 1, 49]);
    ser(Value::String(String::new()), &[TINY_STRING]);
}

fn check_de_string() {
    de_with(&[TINY_STRING], |d: &mut Deserializer| d.parse_string(), String::new());
    de(&[TINY_STRING], Value::String(String::new()));
    de_with(&[TINY_STRING + 1, 49], |d: &mut Deserializer| d.parse_string(), String::from("1"));
    de(&[TINY_STRING + 1, 49], Value::String(String::from("1")));
}

/// An array of integers: a tuple of its length.
fn ser_array(s: &mut Serializer, items: &[i64]) -> SerdeResult<()> {
    let c = s.serialize_tuple(items.len())?;
    for i in items {
        s.serialize_i64(*i)?;
    }
    c.end(s)
}

/// An array of `n` integers.
fn de_array(n: usize) -> impl FnOnce(&mut Deserializer) -> SerdeResult<Vec<i64>> {
    move |d: &mut Deserializer| -> SerdeResult<Vec<i64>> {
        assert_eq!(d.parse_list()?, n);
        let mut out = Vec::new();
        for _ in 0..n {
            out.push(d.parse_int(i32::MIN as i64, i32::MAX as i64)?);
        }
        Ok(out)
    }
}

fn check_ser_list() {
    ser_with(|s: &mut Serializer| ser_array(s, &[10, 20]), &[TINY_LIST + 2, 10, 20]);
    ser_with(|s: &mut Serializer| ser_array(s, &[0; 16]), &[LIST_8, 16, 0, 0, 0, 0, 0, 0, 0, 0, 0, 0, 0, 0, 0, 0, 0, 0]);
    ser(Value::List(Vec::new()), &[TINY_LIST]);
    ser(Value::List(vec![Value::Null, Value::Bool(true)]), &[TINY_LIST + 2, 192, 194]);
}

fn check_de_list() {
    de_with(&[TINY_LIST + 2, 10, 20], de_array(2), vec![10, 20]);
    de_with(&[LIST_8, 16, 0, 0, 0, 0, 0, 0, 0, 0, 0, 0, 0, 0, 0, 0, 0, 0], de_array(16), vec![0; 16]);
    de(&[TINY_LIST], Value::List(Vec::new()));
    de(&[TINY_LIST + 2, 192, 194], Value::List(vec![Value::Null, Value::Bool(true)]));
}

fn check_ser_map() {
    ser_with(
        |s: &mut Serializer| -> SerdeResult<()> {
            let c = s.serialize_map(Some(0))?;
            c.end(s)
        },
        &[TINY_MAP],
    );
    ser(Value::Dictionary(ValueMap::new()), &[TINY_MAP]);
    ser(
        Value::Dictionary(map_of(vec![("has", Value::Null)])),
        &bytes(&[&[TINY_MAP + 1, TINY_STRING + 3], b"has", &[NULL]]),
    );
}

fn check_de_map() {
    de_with(&[TINY_MAP], |d: &mut Deserializer| d.parse_map(), 0);
    de(&[TINY_MAP], Value::Dictionary(ValueMap::new()));
    de(
        &bytes(&[&[TINY_MAP + 1, TINY_STRING + 3], b"has", &[NULL]]),
        Value::Dictionary(map_of(vec![("has", Value::Null)])),
    );
}

/// A struct `{ bit: u8 }`: a map from the field's name to its value.
fn check_ser_struct() {
    ser_with(
        |s: &mut Serializer| -> SerdeResult<()> {
            let c = s.serialize_struct(1)?;
            s.serialize_str("bit")?;
            s.serialize_i64(0)?;
            c.end(s)
        },
        &[TINY_MAP + 1, TINY_STRING + 3, 98, 105, 116, 0],
    );
}

fn check_de_struct() {
    de_with(
        &[TINY_MAP + 1, TINY_STRING + 3, 98, 105, 116, 0],
        |d: &mut Deserializer| -> SerdeResult<i64> {
            assert_eq!(d.parse_map()?, 1);
            assert_eq!(d.parse_str()?, "bit");
            d.parse_int(0, u8::MAX as i64)
        },
        0,
    );
}

/// An enum `Var1 | Var3 | Var4(u8)`: a map of one entry from the variant's
/// name to its payload, null for a unit variant.
fn check_ser_enum() {
    ser_with(
        |s: &mut Serializer| s.serialize_unit_variant("Var1"),
        &bytes(&[&[TINY_MAP + 1, TINY_STRING + 4], b"Var1", &[NULL]]),
    );
    ser_with(
        |s: &mut Serializer| s.serialize_unit_variant("Var3"),
        &bytes(&[&[TINY_MAP + 1, TINY_STRING + 4], b"Var3", &[NULL]]),
    );
    ser_with(
        |s: &mut Serializer| -> SerdeResult<()> {
            s.serialize_newtype_variant("Var4")?;
            s.serialize_i64(10)
        },
        &bytes(&[&[TINY_MAP + 1, TINY_STRING + 4], b"Var4", &[10]]),
    );
}

#[derive(Debug, PartialEq)]
enum De {
    Var1,
    Var3,
    Var4(u8),
}

fn read_de(d: &mut Deserializer) -> SerdeResult<De> {
    d.parse_enum()?;
    match d.parse_str()? {
        "Var1" => d.parse_null().map(|_| De::Var1),
        "Var3" => d.parse_null().map(|_| De::Var3),
        "Var4" => d.parse_int(0, u8::MAX as i64).map(|v| De::Var4(v as u8)),
        other => Err(SerdeError::create(ErrorCode::Message(format!("unknown variant {}", other)))),
    }
}

fn check_de_enum() {
    de_with(&bytes(&[&[TINY_MAP + 1, TINY_STRING + 4], b"Var1", &[NULL]]), read_de, De::Var1);
    de_with(&bytes(&[&[TINY_MAP + 1, TINY_STRING + 4], b"Var3", &[NULL]]), read_de, De::Var3);
    de_with(&bytes(&[&[TINY_MAP + 1, TINY_STRING + 4], b"Var4", &[10]]), read_de, De::Var4(10));
}

fn check_ser_structure() {
    ser(Value::Structure { signature: 10, fields: Vec::new() }, &[TINY_STRUCT, 10]);
    ser(Value::Structure { signature: 0, fields: Vec::with_capacity(10) }, &[TINY_STRUCT, 0]);
    ser(
        Value::Structure {
            signature: 155,
            fields: vec![Value::Dictionary(map_of(vec![("key", Value::I64(100))]))],
        },
        &bytes(&[&[TINY_STRUCT + 1, 155, TINY_MAP + 1, TINY_STRING + 3], b"key", &[100]]),
    );
}

fn check_de_structure() {
    de(&[TINY_STRUCT, 10], Value::Structure { signature: 10, fields: Vec::new() });
    de(&[TINY_STRUCT, 0], Value::Structure { signature: 0, fields: Vec::with_capacity(10) });
    de(
        &bytes(&[&[TINY_STRUCT + 1, 155, TINY_MAP + 1, TINY_STRING + 3], b"key", &[100]]),
        Value::Structure {
            signature: 155,
            fields: vec![Value::Dictionary(map_of(vec![("key", Value::I64(100))]))],
        },
    );
}

/// Reads a map of `u8` fields as a struct with the given fields; keys of no
/// field are skipped, or refused where `deny_unknown` is set.
fn read_fields(input: &[u8], fields: &[&str], deny_unknown: bool) -> SerdeResult<Vec<(String, i64)>> {
    let mut d = Deserializer::new(input);
    let n = d.parse_map()?;
    let mut out = Vec::new();
    for _ in 0..n {
        let k = d.parse_string()?;
        if fields.contains(&k.as_str()) {
            let v = d.parse_int(0, u8::MAX as i64)?;
            out.push((k, v));
        } else if deny_unknown {
            return Err(SerdeError::create(ErrorCode::Message(format!("unknown field {}", k))));
        } else {
            d.parse_value()?;
        }
    }
    d.is_done()?;
    Ok(out)
}

fn check_skip_unknown(with_reads: bool) {
    let map_a = map_of(vec![("key1", Value::I64(0)), ("key2", Value::I64(1)), ("key3", Value::I64(2))]);
    let bytes_a = to_bytes(&Value::Dictionary(map_a.deep_clone())).unwrap();
    ser(Value::Dictionary(map_a), &bytes_a);
    if !with_reads {
        return;
    }

    let t = read_fields(&bytes_a, &["key1", "key2"], false).unwrap();
    assert_eq!(t, vec![("key1".to_owned(), 0), ("key2".to_owned(), 1)]);

    let one = bytes(&[&[TINY_MAP + 1, TINY_STRING + 4], b"key1", &[100]]);
    assert_eq!(read_fields(&one, &["key1"], true).unwrap(), vec![("key1".to_owned(), 100)]);
    assert!(read_fields(&bytes_a, &["key1"], true).is_err());

    let t = read_fields(&bytes_a, &["key3"], false).unwrap();
    assert_eq!(t, vec![("key3".to_owned(), 2)]);
}

#[test]
fn serialize_integer() {
    check_ser_integer();
}

#[test]
fn serialize_float() {
    check_ser_float();
}

#[test]
fn serialize_bool() {
    check_ser_bool();
}

#[test]
fn serialize_unit() {
    check_ser_unit();
}

#[test]
fn serialize_string() {
    check_ser_string();
}

#[test]
fn serialize_list() {
    check_ser_list();
}

#[test]
fn serialize_map() {
    check_ser_map();
}

#[test]
fn serialize_struct() {
    check_ser_struct();
}

#[test]
fn serialize_enum() {
    check_ser_enum();
}

#[test]
fn deserialize_integer() {
    check_de_integer();
}

#[test]
fn deserialize_float() {
    check_de_float();
}

#[test]
fn deserialize_bool() {
    check_de_bool();
}

#[test]
fn deserialize_unit() {
    check_de_unit();
}

#[test]
fn deserialize_string() {
    check_de_string();
}

#[test]
fn deserialize_struct() {
    check_de_struct();
}

#[test]
fn deserialize_skip_unknown() {
    check_skip_unknown(true);
}

#[test]
fn test_integer() {
    check_ser_integer();
    check_de_integer();
}

#[test]
fn test_float() {
    check_ser_float();
    check_de_float();
}

#[test]
fn test_bool() {
    check_ser_bool();
    check_de_bool();
}

#[test]
fn test_unit() {
    check_ser_unit();
    check_de_unit();
}

#[test]
fn test_string() {
    check_ser_string();
    check_de_string();
}

#[test]
fn test_list() {
    check_ser_list();
    check_de_list();
}

#[test]
fn test_map() {
    check_ser_map();
    check_de_map();
}

#[test]
fn test_struct() {
    check_ser_struct();
    check_de_struct();
}

#[test]
fn test_enum() {
    check_ser_enum();
    check_de_enum();
}

#[test]
fn test_structure() {
    check_ser_structure();
    check_de_structure();
}

#[test]
fn test_skip_unknown() {
    check_skip_unknown(false);
}
