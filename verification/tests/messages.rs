use serde_bolt::constants::marker::{TINY_LIST, TINY_MAP, TINY_STRING, TINY_STRUCT};
use serde_bolt::constants::signature::{
    MSG_ACK_FAILURE, MSG_DISCARD_ALL, MSG_FAILURE, MSG_IGNORED, MSG_PULL_ALL, MSG_RECORD, MSG_RESET,
    MSG_RUN, MSG_SUCCESS,
};
use serde_bolt::value::structure::message::{
    AckFailure, BasicAuth, DiscardAll, Failure, Ignored, Init, PullAll, Record, RequestMessage, Reset, Run,
    Success, SummaryMessage,
};
use serde_bolt::value::structure::{into_i64, structure_from_bytes, structure_to_bytes, BoltStructure, Empty, Single};
use serde_bolt::{from_bytes, to_bytes, Value, ValueMap};
use std::fmt::Debug;

/// Encoding gives the bytes.
fn ser<T: BoltStructure>(value: &T, bytes: &[u8]) {
    let result = structure_to_bytes(value);
    assert!(result.is_ok());
    assert_eq!(result.unwrap(), bytes);
}

/// Decoding gives the value.
fn de<T: BoltStructure + PartialEq + Debug>(expected: &T, bytes: &[u8]) {
    let result = structure_from_bytes::<T>(bytes);
    assert!(result.is_ok(), "{:?}", result);
    assert_eq!(result.unwrap(), *expected);
}

/// Decoding then encoding gives the bytes back.
fn ser_de<T: BoltStructure + Debug>(bytes: &[u8]) {
    let t = structure_from_bytes::<T>(bytes);
    assert!(t.is_ok(), "{:?}", t);
    let out = structure_to_bytes(&t.unwrap());
    assert!(out.is_ok());
    assert_eq!(out.unwrap(), bytes);
}

/// Encoding then decoding gives the value back.
fn de_ser<T: BoltStructure + PartialEq + Debug>(value: T) {
    let bytes = structure_to_bytes(&value);
    assert!(bytes.is_ok());
    let back = structure_from_bytes::<T>(&bytes.unwrap());
    assert!(back.is_ok());
    assert_eq!(back.unwrap(), value);
}

/// Decoding fails.
fn de_err<T: BoltStructure + Debug>(bytes: &[u8]) {
    assert!(structure_from_bytes::<T>(bytes).is_err());
}

fn map_of(entries: Vec<(&str, Value)>) -> ValueMap {
    let mut m = ValueMap::new();
    for (k, v) in entries {
        m.insert(k.to_owned(), v);
    }
    m
}

const INIT_BYTES: &[u8] = &[
    0xB2, 0x01, 0x8C, 0x4D, 0x79, 0x43, 0x6C, 0x69, 0x65, 0x6E, 0x74, 0x2F, 0x31, 0x2E, 0x30, 0xA3,
    0x86, 0x73, 0x63, 0x68, 0x65, 0x6D, 0x65, 0x85, 0x62, 0x61, 0x73, 0x69, 0x63, 0x89, 0x70, 0x72,
    0x69, 0x6E, 0x63, 0x69, 0x70, 0x61, 0x6C, 0x85, 0x6E, 0x65, 0x6F, 0x34, 0x6A, 0x8B, 0x63, 0x72,
    0x65, 0x64, 0x65, 0x6E, 0x74, 0x69, 0x61, 0x6C, 0x73, 0x86, 0x73, 0x65, 0x63, 0x72, 0x65, 0x74,
];

const RUN_BYTES: &[u8] = &[
    0xB2, 0x10, 0x8F, 0x52, 0x45, 0x54, 0x55, 0x52, 0x4E, 0x20, 0x31, 0x20, 0x41, 0x53, 0x20, 0x6E,
    0x75, 0x6D, 0xA0,
];

const STATEMENT: &str = "RETURN 1 AS num";

const SUCCESS_BYTES: &[u8] = &[
    0xB1, 0x70, 0xA1, 0x86, 0x66, 0x69, 0x65, 0x6C, 0x64, 0x73, 0x92, 0x84, 0x6E, 0x61, 0x6D, 0x65,
    0x83, 0x61, 0x67, 0x65,
];

fn get_metadata() -> ValueMap {
    map_of(vec![(
        "fields",
        Value::List(vec![Value::String(String::from("name")), Value::String(String::from("age"))]),
    )])
}

const RECORD_BYTES: &[u8] = &[0x0B1, 0x071, 0x093, 0x001, 0x002, 0x003];

fn get_fields() -> Vec<Value> {
    vec![Value::I64(1), Value::I64(2), Value::I64(3)]
}

fn create_failure() -> Failure {
    Failure { metadata: ValueMap::new() }
}

const FAILURE_BYTES: &[u8] = &[TINY_STRUCT + 1, MSG_FAILURE, TINY_MAP];

fn test_init() -> Init {
    let s = String::from("test");
    Init {
        client: s.clone(),
        auth: BasicAuth { scheme: String::from("basic"), principal: s.clone(), credentials: s.clone() },
    }
}

#[test]
fn ack_failure_serialize() {
    ser(&AckFailure, &[TINY_STRUCT, MSG_ACK_FAILURE]);
}

#[test]
fn discard_all_serialize() {
    ser(&DiscardAll, &[TINY_STRUCT, MSG_DISCARD_ALL]);
}

#[test]
fn reset_serialize() {
    ser(&Reset, &[TINY_STRUCT, MSG_RESET]);
}

#[test]
fn ignored_serialize() {
    ser(&Ignored, &[TINY_STRUCT, MSG_IGNORED]);
}

#[test]
fn failure_serialize() {
    ser(&create_failure(), FAILURE_BYTES);
}

#[test]
fn serializefailure() {
    ser(&create_failure(), FAILURE_BYTES);
}

#[test]
fn failure_deserialize() {
    de(&create_failure(), FAILURE_BYTES);
}

#[test]
fn failure_deserialize_fail() {
    de_err::<Failure>(&[TINY_STRUCT, MSG_FAILURE + 1]);
    de_err::<Failure>(&[TINY_STRUCT, MSG_FAILURE]);
    de_err::<Failure>(&[TINY_STRUCT, MSG_FAILURE + 1, TINY_MAP]);
}

#[test]
fn record_serialize() {
    ser(&Record { fields: get_fields() }, RECORD_BYTES);
}

#[test]
fn record_deserialize() {
    de(&Record { fields: get_fields() }, RECORD_BYTES);
}

#[test]
fn record_deserialize_fail() {
    de_err::<Record>(&RECORD_BYTES[0..(RECORD_BYTES.len() - 1)]);
}

#[test]
fn run_serialize() {
    ser(&Run { statement: STATEMENT.to_owned(), parameters: ValueMap::new() }, RUN_BYTES);
}

#[test]
fn run_deserialize() {
    de(&Run { statement: STATEMENT.to_owned(), parameters: ValueMap::new() }, RUN_BYTES);
}

#[test]
fn run_deserialize_fail() {
    de_err::<Run>(&RUN_BYTES[0..(RUN_BYTES.len() - 1)]);
}

#[test]
fn success_serialize() {
    ser(&Success { metadata: get_metadata() }, SUCCESS_BYTES);
}

#[test]
fn success_deserialize() {
    de(&Success { metadata: get_metadata() }, SUCCESS_BYTES);
}

#[test]
fn success_deserialize_fail() {
    de_err::<Success>(&SUCCESS_BYTES[0..(SUCCESS_BYTES.len() - 1)]);
}

#[test]
fn fields() {
    // No fields: an empty list.
    let empty = match from_bytes(&[TINY_LIST]).unwrap() {
        Value::List(items) => items,
        other => panic!("{:?}", other),
    };
    assert_eq!(Empty::from_fields(&empty).unwrap(), Empty);
    assert_eq!(to_bytes(&Value::List(empty)).unwrap(), vec![TINY_LIST]);
    match from_bytes(&[TINY_LIST + 1, 0]).unwrap() {
        Value::List(items) => assert!(Empty::from_fields(&items).is_err()),
        other => panic!("{:?}", other),
    }

    // One field: a list of one element.
    let one = match from_bytes(&[TINY_LIST + 1, 0]).unwrap() {
        Value::List(items) => Single::from_fields(items).unwrap(),
        other => panic!("{:?}", other),
    };
    let field = one.value();
    assert_eq!(into_i64(field.deep_clone()).unwrap(), 0);
    assert_eq!(to_bytes(&Value::List(vec![field])).unwrap(), vec![TINY_LIST + 1, 0]);
    let bytes = to_bytes(&Value::List(vec![Value::I64(100)])).unwrap();
    let back = match from_bytes(&bytes).unwrap() {
        Value::List(items) => Single::from_fields(items).unwrap(),
        other => panic!("{:?}", other),
    };
    assert_eq!(back, Single(Value::I64(100)));
    for input in [&[TINY_LIST][..], &[TINY_LIST + 2, 0, 0][..]] {
        match from_bytes(input).unwrap() {
            Value::List(items) => assert!(Single::from_fields(items).is_err()),
            other => panic!("{:?}", other),
        }
    }
}

#[test]
fn i64() {
    let integers = vec![0, -128, 127, i64::MIN, i64::MAX];
    for int in integers {
        let read = into_i64(Value::I64(int));
        println!("{:?}, {}", read, int);
        assert_eq!(read.unwrap(), int);
    }
}

#[test]
fn message_init() {
    ser_de::<Init>(INIT_BYTES);
    ser_de::<RequestMessage>(INIT_BYTES);
    de_ser(test_init());
    de_ser(RequestMessage::Init(test_init()));
    de_err::<Init>(&INIT_BYTES[0..(INIT_BYTES.len() - 1)]);
}

#[test]
fn message_ack_failure() {
    const BYTES: &[u8] = &[TINY_STRUCT, MSG_ACK_FAILURE];
    ser_de::<AckFailure>(BYTES);
    ser_de::<RequestMessage>(BYTES);
    de_ser(AckFailure);
    de_ser(RequestMessage::AckFailure(AckFailure));
    de_err::<AckFailure>(&[TINY_STRUCT, MSG_ACK_FAILURE + 1]);
}

#[test]
fn message_reset() {
    const BYTES: &[u8] = &[TINY_STRUCT, MSG_RESET];
    ser_de::<Reset>(BYTES);
    ser_de::<RequestMessage>(BYTES);
    de_ser(Reset);
    de_ser(RequestMessage::Reset(Reset));
    de_err::<Reset>(&[TINY_STRUCT, MSG_RESET + 1]);
}

#[test]
fn message_run() {
    const BYTES: &[u8] = &[TINY_STRUCT + 2, MSG_RUN, TINY_STRING, TINY_MAP];
    ser_de::<Run>(BYTES);
    ser_de::<RequestMessage>(BYTES);
    de_ser(Run { statement: String::new(), parameters: ValueMap::new() });
    de_ser(RequestMessage::Run(Run { statement: String::new(), parameters: ValueMap::new() }));
    de_err::<Run>(&BYTES[0..(BYTES.len() - 1)]);
}

#[test]
fn message_discard_all() {
    const BYTES: &[u8] = &[TINY_STRUCT, MSG_DISCARD_ALL];
    ser_de::<DiscardAll>(BYTES);
    ser_de::<RequestMessage>(BYTES);
    de_ser(DiscardAll);
    de_ser(RequestMessage::DiscardAll(DiscardAll));
    de_err::<DiscardAll>(&[TINY_STRUCT, MSG_DISCARD_ALL + 1]);
}

#[test]
fn message_pull_all() {
    const BYTES: &[u8] = &[TINY_STRUCT, MSG_PULL_ALL];
    ser_de::<PullAll>(BYTES);
    ser_de::<RequestMessage>(BYTES);
    de_ser(PullAll);
    de_ser(RequestMessage::PullAll(PullAll));
    de_err::<PullAll>(&[TINY_STRUCT, MSG_PULL_ALL + 1]);
}

#[test]
fn message_success() {
    const BYTES: &[u8] = &[TINY_STRUCT + 1, MSG_SUCCESS, TINY_MAP];
    ser_de::<Success>(BYTES);
    ser_de::<SummaryMessage>(BYTES);
    de_ser(Success { metadata: ValueMap::new() });
    de_ser(SummaryMessage::Success(Success { metadata: ValueMap::new() }));
    de_err::<Success>(&BYTES[0..(BYTES.len() - 1)]);
}

#[test]
fn message_ignored() {
    const BYTES: &[u8] = &[TINY_STRUCT, MSG_IGNORED];
    ser_de::<Ignored>(BYTES);
    ser_de::<SummaryMessage>(BYTES);
    de_ser(Ignored);
    de_ser(SummaryMessage::Ignored(Ignored));
    de_err::<Ignored>(&[TINY_STRUCT, MSG_IGNORED + 1]);
}

#[test]
fn message_failure() {
    const BYTES: &[u8] = &[TINY_STRUCT + 1, MSG_FAILURE, TINY_MAP];
    ser_de::<Failure>(BYTES);
    ser_de::<SummaryMessage>(BYTES);
    de_ser(Failure { metadata: ValueMap::new() });
    de_ser(SummaryMessage::Failure(Failure { metadata: ValueMap::new() }));
    de_err::<Failure>(&[TINY_STRUCT + 1, MSG_FAILURE + 1, TINY_MAP]);
}

#[test]
fn message_record() {
    const BYTES: &[u8] = &[TINY_STRUCT + 1, MSG_RECORD, TINY_LIST + 1, 1];
    ser_de::<Record>(BYTES);
    de_ser(Record { fields: Vec::new() });
    de_err::<Record>(&BYTES[0..(BYTES.len() - 1)]);
}

#[test]
fn structure_ack_failure() {
    const BYTES: &[u8] = &[TINY_STRUCT, MSG_ACK_FAILURE];
    ser_de::<AckFailure>(BYTES);
    de_ser(AckFailure);
    de_err::<AckFailure>(&[TINY_STRUCT, MSG_ACK_FAILURE + 1]);
}

#[test]
fn structure_discard_all() {
    const BYTES: &[u8] = &[TINY_STRUCT, MSG_DISCARD_ALL];
    ser_de::<DiscardAll>(BYTES);
    de_ser(DiscardAll);
    de_err::<DiscardAll>(&[TINY_STRUCT, MSG_DISCARD_ALL + 1]);
}

#[test]
fn structure_failure() {
    const BYTES: &[u8] = &[TINY_STRUCT + 1, MSG_FAILURE, TINY_MAP];
    ser_de::<Failure>(BYTES);
    de_ser(Failure { metadata: ValueMap::new() });
    de_err::<Failure>(&[TINY_STRUCT + 1, MSG_FAILURE + 1, TINY_MAP]);
}

#[test]
fn structure_ignored() {
    const BYTES: &[u8] = &[TINY_STRUCT, MSG_IGNORED];
    ser_de::<Ignored>(BYTES);
    de_ser(Ignored);
    de_err::<Ignored>(&[TINY_STRUCT, MSG_IGNORED + 1]);
}

#[test]
fn structure_init() {
    let s = String::from("test");
    ser_de::<Init>(INIT_BYTES);
    de_ser(Init::new(s.clone(), s.clone(), s.clone()));
    de_err::<Init>(&INIT_BYTES[0..(INIT_BYTES.len() - 1)]);
}

#[test]
fn structure_pull_all() {
    const BYTES: &[u8] = &[TINY_STRUCT, MSG_PULL_ALL];
    ser_de::<PullAll>(BYTES);
    de_ser(PullAll);
    de_err::<PullAll>(&[TINY_STRUCT, MSG_PULL_ALL + 1]);
}

#[test]
fn structure_record() {
    const BYTES: &[u8] = &[TINY_STRUCT + 1, MSG_RECORD, TINY_LIST + 1, 1];
    ser_de::<Record>(BYTES);
    de_ser(Record { fields: Vec::new() });
    de_err::<Record>(&BYTES[0..(BYTES.len() - 1)]);
}

#[test]
fn structure_reset() {
    const BYTES: &[u8] = &[TINY_STRUCT, MSG_RESET];
    ser_de::<Reset>(BYTES);
    de_ser(Reset);
    de_err::<Reset>(&[TINY_STRUCT, MSG_RESET + 1]);
}

#[test]
fn structure_run() {
    const BYTES: &[u8] = &[TINY_STRUCT + 2, MSG_RUN, TINY_STRING, TINY_MAP];
    ser_de::<Run>(BYTES);
    de_ser(Run { statement: String::new(), parameters: ValueMap::new() });
    de_err::<Run>(&BYTES[0..(BYTES.len() - 1)]);
}

#[test]
fn structure_success() {
    const BYTES: &[u8] = &[TINY_STRUCT + 1, MSG_SUCCESS, TINY_MAP];
    ser_de::<Success>(BYTES);
    de_ser(Success { metadata: ValueMap::new() });
    de_err::<Success>(&BYTES[0..(BYTES.len() - 1)]);
}
