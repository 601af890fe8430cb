use serde_bolt::constants::marker::{
    BYTES_16, BYTES_32, BYTES_8, END_OF_STREAM, FALSE, FLOAT_64, INT_16, INT_32, INT_64, INT_8, LIST_16,
    LIST_32, LIST_8, LIST_STREAM, MAP_16, MAP_32, MAP_8, MAP_STREAM, NULL, STRING_16, STRING_32,
    STRING_8, STRUCT_16, STRUCT_8, TINY_LIST, TINY_MAP, TINY_STRING, TINY_STRUCT, TRUE,
};
use serde_bolt::marker::Marker;
use serde_bolt::read::ByteReader;

fn assert_appends(marker: Marker, expected: &[u8]) {
    let mut out: Vec<u8> = vec![];
    let res = marker.append_to_vec(&mut out);
    assert!(res.is_ok());
    assert_eq!(out, expected);
}

fn assert_peeks(bytes: &[u8], expected: Marker) {
    assert_eq!(ByteReader::new(bytes).peek_marker().unwrap(), expected);
}

#[test]
fn test_marker_append_to_vec() {
    assert_appends(Marker::I64(127), &[127]);
    assert_appends(Marker::I64(-16), &[240]);
    assert_appends(Marker::I64(-128), &[INT_8, 128]);
    assert_appends(Marker::I64(200), &[INT_16, 0, 200]);
    assert_appends(Marker::I64(-200), &[INT_16, 255, 56]);
    assert_appends(Marker::I64(-129), &[INT_16, 255, 127]);
    assert_appends(Marker::I64(100_000), &[INT_32, 0, 1, 134, 160]);
    assert_appends(Marker::I64(-100_000), &[INT_32, 255, 254, 121, 96]);
    assert_appends(Marker::I64(3_000_000_000), &[INT_64, 0, 0, 0, 0, 178, 208, 94, 0]);
    assert_appends(Marker::I64(-3_000_000_000), &[INT_64, 255, 255, 255, 255, 77, 47, 162, 0]);
    assert_appends(Marker::F64(100f64.to_bits()), &[FLOAT_64, 64, 89, 0, 0, 0, 0, 0, 0]);
    assert_appends(Marker::String(10), &[TINY_STRING + 10]);
    assert_appends(Marker::String(64), &[STRING_8, 64]);
    assert_appends(Marker::String(256), &[STRING_16, 1, 0]);
    assert_appends(Marker::String(256 * 256), &[STRING_32, 0, 1, 0, 0]);
    assert_appends(Marker::String(256 * 256 * 256), &[STRING_32, 1, 0, 0, 0]);
    assert_appends(Marker::List(10), &[TINY_LIST + 10]);
    assert_appends(Marker::List(255), &[LIST_8, 255]);
    assert_appends(Marker::List(256), &[LIST_16, 1, 0]);
    assert_appends(Marker::List(256 * 256), &[LIST_32, 0, 1, 0, 0]);
    assert_appends(Marker::List(256 * 256 * 256 * 256), &[LIST_STREAM]);
    assert_appends(Marker::Bytes(10), &[BYTES_8, 10]);
    assert_appends(Marker::Bytes(256), &[BYTES_16, 1, 0]);
    assert_appends(Marker::Bytes(256 * 256), &[BYTES_32, 0, 1, 0, 0]);
    assert_appends(Marker::Dictionary(10), &[TINY_MAP + 10]);
    assert_appends(Marker::Dictionary(50), &[MAP_8, 50]);
    assert_appends(Marker::Dictionary(256), &[MAP_16, 1, 0]);
    assert_appends(Marker::Dictionary(256 * 256), &[MAP_32, 0, 1, 0, 0]);
    assert_appends(Marker::Dictionary(256 * 256 * 256 * 256), &[MAP_STREAM]);
    assert_appends(Marker::Struct(10), &[TINY_STRUCT + 10]);
    assert_appends(Marker::Struct(50), &[STRUCT_8, 50]);
    assert_appends(Marker::Struct(256), &[STRUCT_16, 1, 0]);
    assert_appends(Marker::Null, &[NULL]);
    assert_appends(Marker::True, &[TRUE]);
    assert_appends(Marker::False, &[FALSE]);

    let mut test_vec = vec![];
    assert!(Marker::Struct(256 * 256 * 256).append_to_vec(&mut test_vec).is_err());
    assert!(Marker::String(256 * 256 * 256 * 256).append_to_vec(&mut test_vec).is_err());
    assert!(Marker::Bytes(256 * 256 * 256 * 256).append_to_vec(&mut test_vec).is_err());
}

#[test]
fn test_set_virtual() {
    let mut reader = ByteReader::new(&[TINY_STRING]);
    assert!(reader.set_virtual(Marker::I64(0), Some(&[10])).is_ok());
    assert!(reader.consume_marker().is_ok());
    assert!(reader.consume_bytes(0).is_ok());
    assert!(reader.set_virtual(Marker::Null, None).is_ok());
    assert!(reader.set_virtual(Marker::Null, None).is_err());
}

fn check_peek_marker() {
    assert_peeks(&[TINY_MAP], Marker::Dictionary(0));
    assert_peeks(&[TINY_MAP + 10], Marker::Dictionary(10));
    assert_peeks(&[MAP_8, 20], Marker::Dictionary(20));
    assert_peeks(&[MAP_16, 1, 0], Marker::Dictionary(256));
    assert_peeks(&[MAP_32, 0, 1, 0, 0], Marker::Dictionary(256 * 256));
    assert_peeks(&[MAP_STREAM], Marker::Dictionary(usize::MAX));
    assert_peeks(&[TINY_STRING], Marker::String(0));
    assert_peeks(&[TINY_STRING + 10], Marker::String(10));
    assert_peeks(&[STRING_8, 20], Marker::String(20));
    assert_peeks(&[STRING_16, 1, 0], Marker::String(256));
    assert_peeks(&[STRING_32, 0, 1, 0, 0], Marker::String(256 * 256));
    assert_peeks(&[TINY_STRUCT], Marker::Struct(0));
    assert_peeks(&[STRUCT_8, 20], Marker::Struct(20));
    assert_peeks(&[STRUCT_16, 1, 0], Marker::Struct(256));
    assert_peeks(&[TINY_LIST + 5], Marker::List(5));
    assert_peeks(&[LIST_8, 100], Marker::List(100));
    assert_peeks(&[LIST_16, 1, 0], Marker::List(256));
    assert_peeks(&[LIST_32, 0, 1, 0, 0], Marker::List(256 * 256));
    assert_peeks(&[LIST_STREAM], Marker::List(usize::MAX));
    assert_peeks(&[BYTES_8, 1], Marker::Bytes(1));
    assert_peeks(&[BYTES_16, 1, 0], Marker::Bytes(256));
    assert_peeks(&[BYTES_32, 0, 1, 0, 0], Marker::Bytes(256 * 256));
    assert_peeks(&[NULL], Marker::Null);
    assert_peeks(&[TRUE], Marker::True);
    assert_peeks(&[FALSE], Marker::False);
    assert_peeks(&[END_OF_STREAM], Marker::EOS);
    assert_peeks(&[INT_8, 10], Marker::I64(10));
    assert_peeks(&[INT_8, 255], Marker::I64(-1));
    assert_peeks(&[INT_16, 1, 0], Marker::I64(256));
    assert_peeks(&[INT_16, 255, 255], Marker::I64(-1));
    assert_peeks(&[INT_32, 0, 1, 0, 0], Marker::I64(256 * 256));
    assert_peeks(&[INT_32, 255, 255, 255, 255], Marker::I64(-1));
    assert_peeks(&[INT_64, 0, 0, 1, 0, 0, 0, 0, 0], Marker::I64(256 * 256 * 256 * 256 * 256));
    assert_peeks(&[INT_64, 255, 255, 255, 255, 255, 255, 255, 255], Marker::I64(-1));
    assert_peeks(&[FLOAT_64, 0, 0, 0, 0, 0, 0, 0, 0], Marker::F64(0.0f64.to_bits()));
}

#[test]
fn read_test_peek_marker() {
    check_peek_marker();
}

#[test]
fn parse_test_peek_marker() {
    check_peek_marker();
}
