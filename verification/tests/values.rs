use serde_bolt::constants::marker::{
    BYTES_16, BYTES_8, INT_16, INT_64, NULL, STRING_8, TINY_LIST, TINY_MAP, TINY_STRING, TINY_STRUCT, TRUE,
};
use serde_bolt::constants::signature::{MSG_RESET, MSG_SUCCESS};
use serde_bolt::error::{ErrorCode, Expected};
use serde_bolt::marker::Marker;
use serde_bolt::value::structure::message::{BasicAuth, Init, RequestMessage, Reset};
use serde_bolt::value::structure::{into_f64, into_list, into_map, into_string, BoltStructure};
use serde_bolt::{from_bytes, Value, ValueMap};

fn bytes(parts: &[&[u8]]) -> Vec<u8> {
    let mut out = Vec::new();
    for p in parts {
        out.extend_from_slice(p);
    }
    out
}

fn map_of(entries: Vec<(&str, Value)>) -> Value {
    let mut m = ValueMap::new();
    for (k, v) in entries {
        m.insert(k.to_owned(), v);
    }
    Value::Dictionary(m)
}

fn de(input: &[u8], expected: Value) {
    let v = from_bytes(input);
    assert!(v.is_ok(), "{:?}", v);
    assert_eq!(v.unwrap(), expected);
}

#[test]
fn f64() {
    let bits = 100.100f64.to_bits();
    assert_eq!(into_f64(Value::F64(bits)).unwrap(), bits);
    assert_eq!(f64::from_bits(into_f64(Value::F64(bits)).unwrap()), 100.100);
    assert!(into_f64(Value::I64(1)).is_err());
}

#[test]
fn value_deserializer_string() {
    assert_eq!(into_string(Value::String("bolt".to_owned())).unwrap(), "bolt");
    assert!(into_string(Value::Null).is_err());
}

#[test]
fn value_deserializer_list() {
    let items = into_list(Value::List(vec![Value::Null, Value::Bool(true)])).unwrap();
    assert_eq!(items, vec![Value::Null, Value::Bool(true)]);
    assert!(into_list(Value::Bool(true)).is_err());
}

#[test]
fn value_deserializer_map() {
    let m = into_map(map_of(vec![("key", Value::I64(100))])).unwrap();
    assert_eq!(m.get(&"key".to_owned()), Some(&Value::I64(100)));
    assert!(into_map(Value::List(Vec::new())).is_err());
}

#[test]
fn value_deserializer_bytes() {
    de(&[BYTES_8, 5, 10, 20, 30, 40, 50], Value::Bytes(vec![10, 20, 30, 40, 50]));
    let mut long = vec![BYTES_16, 1, 0];
    long.extend_from_slice(&[0; 256]);
    de(&long, Value::Bytes(vec![0; 256]));
}

#[test]
fn value_deserializer_enum() {
    let reset = Value::Structure { signature: MSG_RESET, fields: Vec::new() };
    assert_eq!(RequestMessage::from_value(reset).unwrap(), RequestMessage::Reset(Reset));
    let unknown = Value::Structure { signature: MSG_SUCCESS, fields: Vec::new() };
    assert_eq!(
        RequestMessage::from_value(unknown).unwrap_err().code,
        ErrorCode::UnknownSignature(MSG_SUCCESS)
    );
}

#[test]
fn value_deserializer_struct() {
    let auth = map_of(vec![
        ("principal", Value::String("neo4j".to_owned())),
        ("credentials", Value::String("secret".to_owned())),
        ("scheme", Value::String("basic".to_owned())),
        ("extra", Value::Null),
    ]);
    let a = BasicAuth::from_value(auth).unwrap();
    assert_eq!(a, BasicAuth::new("neo4j".to_owned(), "secret".to_owned()));
    let missing = map_of(vec![("scheme", Value::String("basic".to_owned()))]);
    assert_eq!(BasicAuth::from_value(missing).unwrap_err().code, ErrorCode::MissingKey);
    let init = Init::new("c".to_owned(), "u".to_owned(), "p".to_owned());
    assert_eq!(Init::from_value(init.to_structure()).unwrap(), init);
}

#[test]
fn serialize_u64_out_of_range() {
    let mut s = serde_bolt::ser::Serializer::new();
    assert_eq!(s.serialize_u64(u64::MAX).unwrap_err().code, ErrorCode::U64OutOfRange(u64::MAX));
    assert!(s.output.is_empty());
    assert!(s.serialize_u64(i64::MAX as u64).is_ok());
    assert_eq!(s.output, vec![INT_64, 127, 255, 255, 255, 255, 255, 255, 255]);
}

#[test]
fn structure_as_map() {
    let input = bytes(&[
        &[TINY_MAP + 2, STRING_8, 32],
        b"__BOLT_STRUCTURE_SIGNATURE_KEY__",
        &[7, STRING_8, 29],
        b"__BOLT_STRUCTURE_FIELDS_KEY__",
        &[TINY_LIST + 1, TRUE],
    ]);
    de(&input, Value::Structure { signature: 7, fields: vec![Value::Bool(true)] });
    let mut wrong = input.clone();
    wrong[35] = NULL;
    assert_eq!(
        from_bytes(&wrong).unwrap_err().code,
        ErrorCode::UnexpectedMarker { expected: Expected::I64, actual: Marker::Null }
    );
    let mut wrong_key = input.clone();
    wrong_key[42] = b'X';
    assert_eq!(from_bytes(&wrong_key).unwrap_err().code, ErrorCode::UnexpectedKey);
}

#[test]
fn decode_errors() {
    assert_eq!(from_bytes(&[NULL, NULL]).unwrap_err().code, ErrorCode::UnexpectedTrailingBytes);
    assert_eq!(from_bytes(&[INT_16, 0]).unwrap_err().code, ErrorCode::UnexpectedEndOfBytes);
    assert_eq!(from_bytes(&[0xC4]).unwrap_err().code, ErrorCode::NotAMarker(0xC4));
    assert_eq!(from_bytes(&[TINY_STRING + 1, 0xFF]).unwrap_err().code, ErrorCode::InvalidUtf8);
    assert_eq!(from_bytes(&[]).unwrap_err().code, ErrorCode::UnexpectedEndOfBytes);
    assert_eq!(from_bytes(&[TINY_STRUCT]).unwrap_err().code, ErrorCode::UnexpectedEndOfBytes);
}
