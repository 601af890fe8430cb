use serde_bolt::constants::marker::{
    BYTES_16, BYTES_32, BYTES_8, END_OF_STREAM, FALSE, FLOAT_64, INT_16, INT_32, INT_64, INT_8, LIST_16,
    LIST_32, LIST_8, LIST_STREAM, NULL, STRING_16, STRING_32, STRING_8, TINY_LIST, TINY_MAP, TINY_STRING,
    TRUE,
};
use serde_bolt::de::Deserializer;
use serde_bolt::error::SerdeResult;
use serde_bolt::{from_bytes, Value, ValueMap};

/// Decodes the whole input by the decoder steps of one type.
fn read<'a, T>(input: &'a [u8], steps: impl FnOnce(&mut Deserializer<'a>) -> SerdeResult<T>) -> SerdeResult<T> {
    let mut de = Deserializer::new(input);
    let t = steps(&mut de)?;
    de.is_done()?;
    Ok(t)
}

fn int_in(min: i64, max: i64) -> impl FnOnce(&mut Deserializer) -> SerdeResult<i64> {
    move |d: &mut Deserializer| d.parse_int(min, max)
}

fn map_of(entries: Vec<(&str, Value)>) -> ValueMap {
    let mut m = ValueMap::new();
    for (k, v) in entries {
        m.insert(k.to_owned(), v);
    }
    m
}

fn bytes(parts: &[&[u8]]) -> Vec<u8> {
    let mut out = Vec::new();
    for p in parts {
        out.extend_from_slice(p);
    }
    out
}

/// A tuple struct of two `i8` fields, read as a list of two elements.
fn tuple_struct_i8(input: &[u8]) -> SerdeResult<(i64, i64)> {
    let mut de = Deserializer::new(input);
    let len = de.parse_list()?;
    assert_eq!(len, 2);
    let a = de.parse_int(i8::MIN as i64, i8::MAX as i64)?;
    let b = de.parse_int(i8::MIN as i64, i8::MAX as i64)?;
    de.is_done()?;
    Ok((a, b))
}

/// A list of `u8` elements; a stream ends at its end-of-stream marker.
fn list_u8(input: &[u8]) -> SerdeResult<Vec<i64>> {
    let mut de = Deserializer::new(input);
    let len = de.parse_list()?;
    let mut out = Vec::new();
    let mut i = 0;
    while i < len && !de.try_end_stream() {
        out.push(de.parse_int(0, u8::MAX as i64)?);
        i += 1;
    }
    de.is_done()?;
    Ok(out)
}

#[derive(Debug, PartialEq)]
enum TestEnum {
    UnitVariant,
    NewTypeVariant(u8),
    TupleVariant(u8, u8),
    StructVarint { one: u8 },
}

/// An enum variant: a map of one entry from the variant's name to its
/// payload.
fn test_enum(input: &[u8]) -> SerdeResult<TestEnum> {
    let mut de = Deserializer::new(input);
    de.parse_enum()?;
    let name = de.parse_str()?;
    let v = match name {
        "UnitVariant" => {
            de.parse_null()?;
            TestEnum::UnitVariant
        }
        "NewTypeVariant" => TestEnum::NewTypeVariant(de.parse_int(0, 255)? as u8),
        "TupleVariant" => {
            assert_eq!(de.parse_list()?, 2);
            let a = de.parse_int(0, 255)? as u8;
            let b = de.parse_int(0, 255)? as u8;
            TestEnum::TupleVariant(a, b)
        }
        "StructVarint" => {
            assert_eq!(de.parse_map()?, 1);
            assert_eq!(de.parse_str()?, "one");
            TestEnum::StructVarint { one: de.parse_int(0, 255)? as u8 }
        }
        other => panic!("unknown variant {}", other),
    };
    de.is_done()?;
    Ok(v)
}

#[test]
fn deserialize_primitive_newtype() {
    let i8s = (i8::MIN as i64, i8::MAX as i64);
    let i16s = (i16::MIN as i64, i16::MAX as i64);
    let i32s = (i32::MIN as i64, i32::MAX as i64);
    let i64s = (i64::MIN, i64::MAX);
    assert!(read(&[10], int_in(i8s.0, i8s.1)).is_ok());
    assert!(read(&[INT_8, 10], int_in(i8s.0, i8s.1)).is_ok());
    assert!(read(&[INT_16, 0, 0], int_in(i8s.0, i8s.1)).is_ok());
    assert!(read(&[INT_32, 0, 0, 0, 0], int_in(i8s.0, i8s.1)).is_ok());
    assert!(read(&[INT_64, 0, 0, 0, 0, 0, 0, 0, 0], int_in(i8s.0, i8s.1)).is_ok());
    assert!(read(&[INT_16, 1, 0], int_in(i16s.0, i16s.1)).is_ok());
    assert!(read(&[INT_32, 0, 0, 1, 0], int_in(i16s.0, i16s.1)).is_ok());
    assert!(read(&[INT_64, 0, 0, 0, 0, 0, 0, 1, 0], int_in(i16s.0, i16s.1)).is_ok());
    assert!(read(&[INT_32, 0, 1, 1, 0], int_in(i32s.0, i32s.1)).is_ok());
    assert!(read(&[INT_64, 0, 0, 0, 0, 0, 0, 1, 0], int_in(i32s.0, i32s.1)).is_ok());
    assert!(read(&[INT_64, 0, 0, 0, 0, 0, 0, 1, 0], int_in(i64s.0, i64s.1)).is_ok());
    assert!(read(&[FLOAT_64, 0, 0, 0, 0, 0, 0, 0, 0], |d: &mut Deserializer| d.parse_f64()).is_ok());
    for input in [
        &[TINY_STRING + 1, 49][..],
        &[STRING_8, 1, 49][..],
        &[STRING_16, 0, 1, 49][..],
        &[STRING_32, 0, 0, 0, 1, 49][..],
    ] {
        assert_eq!(read(input, |d: &mut Deserializer| d.parse_char()).unwrap(), '1');
    }
    for input in [
        &[TINY_STRING + 1, 50][..],
        &[STRING_8, 1, 50][..],
        &[STRING_16, 0, 1, 50][..],
        &[STRING_32, 0, 0, 0, 1, 50][..],
    ] {
        assert_eq!(read(input, |d| d.parse_str()).unwrap(), "2");
    }
    for input in [
        &[TINY_STRING + 1, 51][..],
        &[STRING_8, 1, 51][..],
        &[STRING_16, 0, 1, 51][..],
        &[STRING_32, 0, 0, 0, 1, 51][..],
    ] {
        assert_eq!(read(input, |d: &mut Deserializer| d.parse_string()).unwrap(), "3");
    }
    // A borrowed slice, a borrowed byte wrapper and an owned byte buffer all
    // read the same byte array.
    for _ in 0..3 {
        for input in [&[BYTES_8, 1, 0][..], &[BYTES_16, 0, 1, 0][..], &[BYTES_32, 0, 0, 0, 1, 0][..]] {
            assert_eq!(read(input, |d| d.parse_bytes()).unwrap(), &[0]);
        }
    }
    assert!(read(&[NULL], |d: &mut Deserializer| d.parse_null()).is_ok());
    assert!(read(&[TRUE], |d: &mut Deserializer| d.parse_bool()).is_ok());
    assert!(read(&[FALSE], |d: &mut Deserializer| d.parse_bool()).is_ok());
}

#[test]
fn deserialize_map() {
    let test_struct = bytes(&[&[TINY_MAP + 1, TINY_STRING + 3], b"one", &[100]]);
    let one = read(&test_struct, |d: &mut Deserializer| -> SerdeResult<i64> {
        assert_eq!(d.parse_map()?, 1);
        assert_eq!(d.parse_str()?, "one");
        d.parse_int(0, u8::MAX as i64)
    });
    assert_eq!(one.unwrap(), 100);
    let two = bytes(&[&[TINY_MAP + 2, TINY_STRING + 2], b"01", &[100], &[TINY_STRING + 3], b"123", &[100]]);
    let entries = read(&two, |d: &mut Deserializer| -> SerdeResult<Vec<(String, i64)>> {
        let n = d.parse_map()?;
        let mut out = Vec::new();
        for _ in 0..n {
            let k = d.parse_str()?.to_owned();
            out.push((k, d.parse_int(0, u8::MAX as i64)?));
        }
        Ok(out)
    });
    assert_eq!(entries.unwrap(), vec![("01".to_owned(), 100), ("123".to_owned(), 100)]);

    assert_eq!(read(&[TINY_MAP], |d: &mut Deserializer| d.parse_map()).unwrap(), 0);
    assert_eq!(from_bytes(&[TINY_MAP]).unwrap(), Value::Dictionary(ValueMap::new()));
    assert_eq!(
        from_bytes(&bytes(&[&[TINY_MAP + 1, TINY_STRING + 3], b"has", &[NULL]])).unwrap(),
        Value::Dictionary(map_of(vec![("has", Value::Null)]))
    );
}

#[test]
fn deserialize_bytes() {
    let five = bytes(&[&[BYTES_8, 5, 10, 20, 30, 40, 50]]);
    assert_eq!(read(&five, |d| d.parse_bytes()).unwrap(), &[10, 20, 30, 40, 50]);
    let long = bytes(&[&[BYTES_16, 1, 0], &[0; 256]]);
    assert_eq!(read(&long, |d| d.parse_bytes()).unwrap(), &[0; 256][..]);
}

#[test]
fn deserialize_tuple_struct() {
    assert!(tuple_struct_i8(&[TINY_LIST + 2, 1, 1]).is_ok());
    assert!(tuple_struct_i8(&[LIST_8, 2, 1, 1]).is_ok());
    assert!(tuple_struct_i8(&[LIST_16, 0, 2, 1, 1]).is_ok());
    assert!(tuple_struct_i8(&[LIST_32, 0, 0, 0, 2, 1, 1]).is_ok());
}

#[test]
fn deserialize_list() {
    assert!(list_u8(&[TINY_LIST + 2, 1, 1]).is_ok());
    assert!(list_u8(&[LIST_8, 2, 1, 1]).is_ok());
    assert!(list_u8(&[LIST_16, 0, 2, 1, 1]).is_ok());
    assert!(list_u8(&[LIST_32, 0, 0, 0, 2, 1, 1]).is_ok());
    assert!(list_u8(&[LIST_STREAM, 1, 1, END_OF_STREAM]).is_ok());

    let array = |n: usize| {
        move |d: &mut Deserializer| -> SerdeResult<Vec<i64>> {
            assert_eq!(d.parse_list()?, n);
            let mut out = Vec::new();
            for _ in 0..n {
                out.push(d.parse_int(i32::MIN as i64, i32::MAX as i64)?);
            }
            Ok(out)
        }
    };
    assert_eq!(read(&[TINY_LIST + 2, 10, 20], array(2)).unwrap(), vec![10, 20]);
    let sixteen = bytes(&[&[LIST_8, 16], &[0; 16]]);
    assert_eq!(read(&sixteen, array(16)).unwrap(), vec![0; 16]);
    assert_eq!(from_bytes(&[TINY_LIST]).unwrap(), Value::List(Vec::new()));
    assert_eq!(
        from_bytes(&[TINY_LIST + 2, 192, 194]).unwrap(),
        Value::List(vec![Value::Null, Value::Bool(true)])
    );
}

#[test]
fn deserialize_enum() {
    assert!(test_enum(&bytes(&[&[TINY_MAP + 1, TINY_STRING + 11], b"UnitVariant", &[NULL]])).is_ok());
    assert!(test_enum(&bytes(&[&[TINY_MAP + 1, TINY_STRING + 14], b"NewTypeVariant", &[127]])).is_ok());
    assert!(test_enum(&bytes(&[
        &[TINY_MAP + 1, TINY_STRING + 12],
        b"TupleVariant",
        &[TINY_LIST + 2, 100, 100]
    ]))
    .is_ok());
    assert!(test_enum(&bytes(&[
        &[TINY_MAP + 1, TINY_STRING + 12],
        b"StructVarint",
        &[TINY_MAP + 1, TINY_STRING + 3],
        b"one",
        &[100]
    ]))
    .is_ok());

    let variant = |d: &mut Deserializer| -> SerdeResult<(String, Option<i64>)> {
        d.parse_enum()?;
        let name = d.parse_str()?.to_owned();
        if name == "Var4" {
            Ok((name, Some(d.parse_int(0, u8::MAX as i64)?)))
        } else {
            d.parse_null()?;
            Ok((name, None))
        }
    };
    assert_eq!(
        read(&bytes(&[&[TINY_MAP + 1, TINY_STRING + 4], b"Var1", &[NULL]]), variant).unwrap(),
        ("Var1".to_owned(), None)
    );
    assert_eq!(
        read(&bytes(&[&[TINY_MAP + 1, TINY_STRING + 4], b"Var3", &[NULL]]), variant).unwrap(),
        ("Var3".to_owned(), None)
    );
    assert_eq!(
        read(&bytes(&[&[TINY_MAP + 1, TINY_STRING + 4], b"Var4", &[10]]), variant).unwrap(),
        ("Var4".to_owned(), Some(10))
    );
}

#[test]
fn deserialize_enum_values() {
    assert_eq!(
        test_enum(&bytes(&[&[TINY_MAP + 1, TINY_STRING + 11], b"UnitVariant", &[NULL]])).unwrap(),
        TestEnum::UnitVariant
    );
    assert_eq!(
        test_enum(&bytes(&[&[TINY_MAP + 1, TINY_STRING + 14], b"NewTypeVariant", &[127]])).unwrap(),
        TestEnum::NewTypeVariant(127)
    );
    assert_eq!(
        test_enum(&bytes(&[
            &[TINY_MAP + 1, TINY_STRING + 12],
            b"TupleVariant",
            &[TINY_LIST + 2, 100, 100]
        ]))
        .unwrap(),
        TestEnum::TupleVariant(100, 100)
    );
    assert_eq!(
        test_enum(&bytes(&[
            &[TINY_MAP + 1, TINY_STRING + 12],
            b"StructVarint",
            &[TINY_MAP + 1, TINY_STRING + 3],
            b"one",
            &[100]
        ]))
        .unwrap(),
        TestEnum::StructVarint { one: 100 }
    );
}

#[test]
fn deserialize_list_values() {
    assert_eq!(list_u8(&[LIST_STREAM, 1, 1, END_OF_STREAM]).unwrap(), vec![1, 1]);
    assert_eq!(list_u8(&[LIST_8, 2, 1, 1]).unwrap(), vec![1, 1]);
    assert!(list_u8(&[TINY_LIST + 2, 1]).is_err());
    assert!(list_u8(&[TINY_LIST + 1, 1, 1]).is_err());
}

const AUTH_BYTES: &[u8] = &[
    162, 136, 117, 115, 101, 114, 110, 97, 109, 101, 132, 74, 111, 104, 110, 136, 112, 97, 115, 115, 119,
    111, 114, 100, 131, 68, 111, 101,
];

#[test]
fn typed_example() {
    let mut de = Deserializer::new(AUTH_BYTES);
    assert_eq!(de.parse_map().unwrap(), 2);
    assert_eq!(de.parse_str().unwrap(), "username");
    let username = de.parse_str().unwrap();
    assert_eq!(de.parse_str().unwrap(), "password");
    let password = de.parse_str().unwrap();
    assert!(de.is_done().is_ok());
    assert_eq!((username, password), ("John", "Doe"));
}

#[test]
fn untyped_example() {
    match serde_bolt::from_bytes(AUTH_BYTES).unwrap() {
        serde_bolt::Value::Dictionary(map) => {
            assert_eq!(map.len(), 2);
            assert_eq!(
                map.get(&"username".to_owned()),
                Some(&serde_bolt::Value::String("John".to_owned()))
            );
            assert_eq!(
                map.get(&"password".to_owned()),
                Some(&serde_bolt::Value::String("Doe".to_owned()))
            );
        }
        other => panic!("expected a map, got {:?}", other),
    }
}
