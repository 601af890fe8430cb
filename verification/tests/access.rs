use serde_bolt::constants::marker::{END_OF_STREAM, LIST_STREAM, TINY_STRUCT};
use serde_bolt::constants::{STRUCTURE_FIELDS_KEY, STRUCTURE_SIG_KEY};
use serde_bolt::de::{Deserializer, MapAccess, SeqAccess, StructureAccess, StructureAccessState};
use serde_bolt::error::ErrorCode;
use serde_bolt::value::structure::graph::{Node, Path, UnboundRelationship};
use serde_bolt::value::structure::message::{Init, Record, Run, Success};
use serde_bolt::value::structure::temporal::{DateTime, DateTimeZoneId, Point2D};
use serde_bolt::value::structure::into_variant;
use serde_bolt::{Value, ValueMap};

fn map_of(entries: Vec<(&str, Value)>) -> ValueMap {
    let mut m = ValueMap::new();
    for (k, v) in entries {
        m.insert(k.to_owned(), v);
    }
    m
}

#[test]
fn structure_access_reads_a_structure_as_a_map() {
    let input = [TINY_STRUCT + 1, 0x4E, 5];
    let mut de = Deserializer::new(&input);
    assert_eq!(de.parse_map_or_struct().unwrap(), (false, 1));
    let mut acc = StructureAccess::new(1);
    assert!(acc.next_key(&mut de).unwrap());
    assert_eq!(de.parse_str().unwrap(), STRUCTURE_SIG_KEY);
    acc.next_value(&mut de).unwrap();
    assert_eq!(acc.state, StructureAccessState::Fields);
    assert_eq!(de.parse_int(0, 255).unwrap(), 0x4E);
    assert!(acc.next_key(&mut de).unwrap());
    assert_eq!(de.parse_str().unwrap(), STRUCTURE_FIELDS_KEY);
    acc.next_value(&mut de).unwrap();
    assert_eq!(de.parse_list().unwrap(), 1);
    let mut seq = SeqAccess::new(1);
    assert!(seq.next_element(&mut de));
    assert_eq!(de.parse_int(0, 255).unwrap(), 5);
    assert!(!seq.next_element(&mut de));
    assert!(!acc.next_key(&mut de).unwrap());
    assert!(matches!(acc.next_value(&mut de).unwrap_err().code, ErrorCode::ImplementationError(_)));
    assert!(de.is_done().is_ok());
}

#[test]
fn structure_access_needs_a_signature_byte() {
    let input = [TINY_STRUCT];
    let mut de = Deserializer::new(&input);
    de.parse_map_or_struct().unwrap();
    let mut acc = StructureAccess::new(0);
    acc.next_key(&mut de).unwrap();
    de.parse_str().unwrap();
    assert_eq!(acc.next_value(&mut de).unwrap_err().code, ErrorCode::UnexpectedEndOfBytes);
}

#[test]
fn seq_access_stops_at_end_of_stream() {
    let input = [LIST_STREAM, 1, END_OF_STREAM];
    let mut de = Deserializer::new(&input);
    let len = de.parse_list().unwrap();
    let mut seq = SeqAccess::new(len);
    assert!(seq.next_element(&mut de));
    de.parse_int(0, 10).unwrap();
    assert!(!seq.next_element(&mut de));
    assert!(de.is_done().is_ok());
}

#[test]
fn map_access_counts_keys() {
    let mut m = MapAccess::new(2);
    assert!(m.next_key());
    assert!(m.next_key());
    assert!(!m.next_key());
    assert_eq!(m.len, 0);
}

#[test]
fn variant_of_a_map() {
    let (name, payload) = into_variant(Value::Dictionary(map_of(vec![("Var4", Value::I64(10))]))).unwrap();
    assert_eq!(name, "Var4");
    assert_eq!(payload, Value::I64(10));
    assert_eq!(
        into_variant(Value::Dictionary(ValueMap::new())).unwrap_err().code,
        ErrorCode::UnexpectedFieldCount { expected_len: 1, actual_len: 0 }
    );
    assert_eq!(into_variant(Value::Null).unwrap_err().code, ErrorCode::UnexpectedValue);
}

#[test]
fn fields_by_name() {
    let d = DateTime { seconds: 1, nanoseconds: 2, tz_offset_seconds: 3 };
    assert_eq!(
        d.into_value(),
        Value::Dictionary(map_of(vec![
            ("seconds", Value::I64(1)),
            ("nanoseconds", Value::I64(2)),
            ("tz_offset_seconds", Value::I64(3)),
        ]))
    );
    let z = DateTimeZoneId { seconds: 1, nanoseconds: 2, tz_id: "UTC".to_owned() };
    assert_eq!(
        z.into_value(),
        Value::Dictionary(map_of(vec![
            ("seconds", Value::I64(1)),
            ("nanoseconds", Value::I64(2)),
            ("tz_id", Value::String("UTC".to_owned())),
        ]))
    );
    let p = Point2D { srid: 1, x: 3, y: 4 };
    assert_eq!(
        p.into_value(),
        Value::Dictionary(map_of(vec![("srid", Value::I64(1)), ("x", Value::F64(3)), ("y", Value::F64(4))]))
    );
    let i = Init::new("c".to_owned(), "u".to_owned(), "p".to_owned());
    assert_eq!(
        i.into_value(),
        Value::Dictionary(map_of(vec![
            ("client", Value::String("c".to_owned())),
            (
                "auth",
                Value::Dictionary(map_of(vec![
                    ("scheme", Value::String("basic".to_owned())),
                    ("principal", Value::String("u".to_owned())),
                    ("credentials", Value::String("p".to_owned())),
                ]))
            ),
        ]))
    );
    let r = Run { statement: "s".to_owned(), parameters: ValueMap::new() };
    assert_eq!(
        r.into_value(),
        Value::Dictionary(map_of(vec![
            ("statement", Value::String("s".to_owned())),
            ("parameters", Value::Dictionary(ValueMap::new())),
        ]))
    );
    let s = Success { metadata: ValueMap::new() };
    assert_eq!(s.into_value(), Value::Dictionary(map_of(vec![("metadata", Value::Dictionary(ValueMap::new()))])));
    let rec = Record { fields: vec![Value::Null] };
    assert_eq!(rec.into_value(), Value::Dictionary(map_of(vec![("fields", Value::List(vec![Value::Null]))])));
    let n = Node { identity: 1, labels: vec!["L".to_owned()], properties: ValueMap::new() };
    let u = UnboundRelationship { identity: 2, rel_type: "T".to_owned(), properties: ValueMap::new() };
    let path = Path { nodes: vec![n], relationships: vec![u], sequence: vec![1] };
    assert_eq!(
        path.into_value(),
        Value::Dictionary(map_of(vec![
            (
                "nodes",
                Value::List(vec![Value::Dictionary(map_of(vec![
                    ("identity", Value::I64(1)),
                    ("labels", Value::List(vec![Value::String("L".to_owned())])),
                    ("properties", Value::Dictionary(ValueMap::new())),
                ]))])
            ),
            (
                "relationships",
                Value::List(vec![Value::Dictionary(map_of(vec![
                    ("identity", Value::I64(2)),
                    ("type", Value::String("T".to_owned())),
                    ("properties", Value::Dictionary(ValueMap::new())),
                ]))])
            ),
            ("sequence", Value::List(vec![Value::I64(1)])),
        ]))
    );
}

#[test]
fn insert_then_get() {
    let mut m = ValueMap::new();
    assert!(m.insert("a".to_owned(), Value::I64(1)).is_none());
    assert!(m.insert("b".to_owned(), Value::I64(2)).is_none());
    assert_eq!(m.insert("a".to_owned(), Value::I64(3)), Some(Value::I64(1)));
    assert_eq!(m.get(&"a".to_owned()), Some(&Value::I64(3)));
    assert_eq!(m.get(&"b".to_owned()), Some(&Value::I64(2)));
    assert_eq!(m.get(&"c".to_owned()), None);
    assert_eq!(m.len(), 2);
    assert_eq!(m.entries[0].0, "a");
}
