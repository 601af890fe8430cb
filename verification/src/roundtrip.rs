//! What decoding gives back of an encoding.
use crate::de::{
    decode_all, decode_dict, decode_entries, decode_key, decode_seq, decode_text, decode_value,
    sig_key,
};
use crate::error::ErrorCode;
use crate::marker::{marker_bytes, Marker};
use crate::read::{decode_marker, lemma_marker_roundtrip};
use crate::ser::{encode_entries, encode_seq, encode_text, encode_value, marker_result, then};
use crate::value::{dict_insert, has_key, keys_distinct, ValueModel};
use vstd::prelude::*;
use vstd::utf8::{decode_utf8, encode_utf8, valid_utf8};

verus! {

/// A value that its encoding determines: every size within the format's
/// limits, no key twice in a dictionary, and no dictionary whose first key
/// is the signature key (such a dictionary reads back as a structure).
pub open spec fn canonical(m: ValueModel) -> bool
    decreases m, 1int,
{
    match m {
        ValueModel::String(s) => encode_utf8(s).len() <= 0xFFFF_FFFF,
        ValueModel::Bytes(b) => b.len() <= 0xFFFF_FFFF,
        ValueModel::List(items) => items.len() <= 0xFFFF_FFFF && all_canonical(items),
        ValueModel::Dictionary(es) => {
            &&& es.len() <= 0xFFFF_FFFF
            &&& keys_distinct(es)
            &&& es.len() > 0 ==> es[0].0 != sig_key()
            &&& canonical_entries(es)
        },
        ValueModel::Structure(_, fields) => fields.len() <= 0xFFFF && all_canonical(fields),
        _ => true,
    }
}

/// Whether every value of the sequence is canonical.
pub open spec fn all_canonical(items: Seq<ValueModel>) -> bool
    decreases items, 0int,
{
    items.len() == 0 || (canonical(items[0]) && all_canonical(items.drop_first()))
}

/// Whether every entry has a key within the format's limits and a
/// canonical value.
pub open spec fn canonical_entries(es: Seq<(Seq<char>, ValueModel)>) -> bool
    decreases es, 0int,
{
    es.len() == 0 || (encode_utf8(es[0].0).len() <= 0xFFFF_FFFF && canonical(es[0].1)
        && canonical_entries(es.drop_first()))
}

/// No value is read where an end-of-stream marker stands.
proof fn lemma_value_not_eos(bytes: Seq<u8>, p: int)
    requires
        decode_value(bytes, p) is Ok,
    ensures
        decode_marker(bytes, p) != Ok::<(Marker, nat), ErrorCode>((Marker::EOS, 1)),
{
}

/// A string's encoding reads back as the string, as a key and as a value.
proof fn lemma_text_roundtrip(s: Seq<char>, pre: Seq<u8>, rest: Seq<u8>)
    requires
        encode_utf8(s).len() <= 0xFFFF_FFFF,
    ensures
        encode_text(s) is Ok,
        encode_text(s)->Ok_0.len() >= 1,
        decode_key(pre + encode_text(s)->Ok_0 + rest, pre.len() as int) == Ok::<(Seq<char>, int), ErrorCode>(
            (s, (pre.len() + encode_text(s)->Ok_0.len()) as int),
        ),
        decode_value(pre + encode_text(s)->Ok_0 + rest, pre.len() as int) == Ok::<(ValueModel, int), ErrorCode>(
            (ValueModel::String(s), (pre.len() + encode_text(s)->Ok_0.len()) as int),
        ),
{
    let u = encode_utf8(s);
    let m = Marker::String(u.len() as usize);
    let h = marker_bytes(m)->0;
    let bytes = pre + encode_text(s)->Ok_0 + rest;
    assert(bytes =~= pre + h + (u + rest));
    lemma_marker_roundtrip(m, pre, u + rest);
    let p = (pre.len() + h.len()) as int;
    assert(bytes.subrange(p, p + u.len() as int) =~= u);
    vstd::utf8::encode_utf8_valid_utf8(s);
    vstd::utf8::encode_utf8_decode_utf8(s);
    assert(decode_text(bytes, p, u.len() as int) == Ok::<Seq<char>, ErrorCode>(s));
}

/// Law: decoding the encoding of a canonical value, wherever it stands in
/// the input, gives the value back and ends where the encoding ends; the
/// encoding of a canonical value always succeeds.
pub proof fn lemma_value_roundtrip(m: ValueModel, pre: Seq<u8>, rest: Seq<u8>)
    requires
        canonical(m),
    ensures
        encode_value(m) is Ok,
        encode_value(m)->Ok_0.len() >= 1,
        decode_value(pre + encode_value(m)->Ok_0 + rest, pre.len() as int) == Ok::<
            (ValueModel, int),
            ErrorCode,
        >((m, (pre.len() + encode_value(m)->Ok_0.len()) as int)),
    decreases m, 2int,
{
    match m {
        ValueModel::String(s) => lemma_text_roundtrip(s, pre, rest),
        ValueModel::Bytes(b) => lemma_bytes_roundtrip(b, pre, rest),
        ValueModel::List(items) => lemma_list_roundtrip(items, pre, rest),
        ValueModel::Structure(sig, fields) => lemma_struct_roundtrip(sig, fields, pre, rest),
        ValueModel::Dictionary(es) => lemma_map_roundtrip(es, pre, rest),
        _ => lemma_scalar_roundtrip(m, pre, rest),
    }
}

/// Law: the encoding of a canonical value, as a whole input, decodes to the
/// value: what [`crate::de::from_bytes`] gives of what
/// [`crate::ser::to_bytes`] gave.
pub proof fn lemma_decode_all_encode(m: ValueModel)
    requires
        canonical(m),
    ensures
        encode_value(m) is Ok,
        decode_all(encode_value(m)->Ok_0) == Ok::<ValueModel, ErrorCode>(m),
{
    lemma_value_roundtrip(m, Seq::empty(), Seq::empty());
    let e = encode_value(m)->Ok_0;
    assert(Seq::<u8>::empty() + e + Seq::<u8>::empty() =~= e);
}

/// The marker of a value without payload reads back as the value.
proof fn lemma_scalar_roundtrip(m: ValueModel, pre: Seq<u8>, rest: Seq<u8>)
    requires
        m is Null || m is Bool || m is I64 || m is F64,
    ensures
        encode_value(m) is Ok,
        encode_value(m)->Ok_0.len() >= 1,
        decode_value(pre + encode_value(m)->Ok_0 + rest, pre.len() as int) == Ok::<
            (ValueModel, int),
            ErrorCode,
        >((m, (pre.len() + encode_value(m)->Ok_0.len()) as int)),
{
    let mk = match m {
        ValueModel::Bool(b) => if b {
            Marker::True
        } else {
            Marker::False
        },
        ValueModel::I64(v) => Marker::I64(v),
        ValueModel::F64(bits) => Marker::F64(bits),
        _ => Marker::Null,
    };
    lemma_marker_roundtrip(mk, pre, rest);
}

/// A byte array's encoding reads back as the byte array.
proof fn lemma_bytes_roundtrip(b: Seq<u8>, pre: Seq<u8>, rest: Seq<u8>)
    requires
        b.len() <= 0xFFFF_FFFF,
    ensures
        encode_value(ValueModel::Bytes(b)) is Ok,
        encode_value(ValueModel::Bytes(b))->Ok_0.len() >= 1,
        decode_value(pre + encode_value(ValueModel::Bytes(b))->Ok_0 + rest, pre.len() as int) == Ok::<
            (ValueModel, int),
            ErrorCode,
        >((ValueModel::Bytes(b), (pre.len() + encode_value(ValueModel::Bytes(b))->Ok_0.len()) as int)),
{
    let p = pre.len() as int;
    let mk = Marker::Bytes(b.len() as usize);
    let h = marker_bytes(mk)->0;
    let bytes = pre + encode_value(ValueModel::Bytes(b))->Ok_0 + rest;
    assert(bytes =~= pre + h + (b + rest));
    lemma_marker_roundtrip(mk, pre, b + rest);
    assert(bytes.subrange(p + h.len(), p + h.len() + b.len()) =~= b);
}

/// A list's encoding reads back as the list.
proof fn lemma_list_roundtrip(items: Seq<ValueModel>, pre: Seq<u8>, rest: Seq<u8>)
    requires
        canonical(ValueModel::List(items)),
    ensures
        encode_value(ValueModel::List(items)) is Ok,
        encode_value(ValueModel::List(items))->Ok_0.len() >= 1,
        decode_value(pre + encode_value(ValueModel::List(items))->Ok_0 + rest, pre.len() as int)
            == Ok::<(ValueModel, int), ErrorCode>(
            (
                ValueModel::List(items),
                (pre.len() + encode_value(ValueModel::List(items))->Ok_0.len()) as int,
            ),
        ),
    decreases items, 1int,
{
    let mk = Marker::List(items.len() as usize);
    let h = marker_bytes(mk)->0;
    lemma_seq_roundtrip(items, pre + h, rest);
    let e = encode_seq(items)->Ok_0;
    let bytes = pre + encode_value(ValueModel::List(items))->Ok_0 + rest;
    assert(bytes =~= pre + h + (e + rest));
    assert(bytes =~= (pre + h) + e + rest);
    lemma_marker_roundtrip(mk, pre, e + rest);
}

/// A structure's encoding reads back as the structure.
proof fn lemma_struct_roundtrip(sig: u8, fields: Seq<ValueModel>, pre: Seq<u8>, rest: Seq<u8>)
    requires
        canonical(ValueModel::Structure(sig, fields)),
    ensures
        encode_value(ValueModel::Structure(sig, fields)) is Ok,
        encode_value(ValueModel::Structure(sig, fields))->Ok_0.len() >= 1,
        decode_value(pre + encode_value(ValueModel::Structure(sig, fields))->Ok_0 + rest, pre.len() as int)
            == Ok::<(ValueModel, int), ErrorCode>(
            (
                ValueModel::Structure(sig, fields),
                (pre.len() + encode_value(ValueModel::Structure(sig, fields))->Ok_0.len()) as int,
            ),
        ),
    decreases fields, 1int,
{
    let p = pre.len() as int;
    let mk = Marker::Struct(fields.len() as usize);
    let h = marker_bytes(mk)->0;
    lemma_seq_roundtrip(fields, pre + h + seq![sig], rest);
    let e = encode_seq(fields)->Ok_0;
    let bytes = pre + encode_value(ValueModel::Structure(sig, fields))->Ok_0 + rest;
    assert(bytes =~= pre + h + (seq![sig] + e + rest));
    assert(bytes =~= (pre + h + seq![sig]) + e + rest);
    lemma_marker_roundtrip(mk, pre, seq![sig] + e + rest);
    assert(bytes[p + h.len()] == sig);
}

/// The encodings of canonical values, one after the other, read back as the
/// values.
proof fn lemma_seq_roundtrip(items: Seq<ValueModel>, pre: Seq<u8>, rest: Seq<u8>)
    requires
        all_canonical(items),
    ensures
        encode_seq(items) is Ok,
        decode_seq(pre + encode_seq(items)->Ok_0 + rest, pre.len() as int, items.len() as int) == Ok::<
            (Seq<ValueModel>, int),
            ErrorCode,
        >((items, (pre.len() + encode_seq(items)->Ok_0.len()) as int)),
    decreases items, 0int,
{
    if items.len() > 0 {
        let first = items[0];
        let tail = items.drop_first();
        lemma_value_roundtrip(first, Seq::empty(), Seq::empty());
        let e0 = encode_value(first)->Ok_0;
        lemma_seq_roundtrip(tail, pre + e0, rest);
        let et = encode_seq(tail)->Ok_0;
        lemma_value_roundtrip(first, pre, et + rest);
        let bytes = pre + encode_seq(items)->Ok_0 + rest;
        assert(bytes =~= pre + e0 + (et + rest));
        assert(bytes =~= (pre + e0) + et + rest);
        lemma_value_not_eos(bytes, pre.len() as int);
        assert(seq![first] + tail =~= items);
    } else {
        assert(items =~= Seq::<ValueModel>::empty());
        assert(pre + encode_seq(items)->Ok_0 + rest =~= pre + rest);
    }
}

/// A dictionary's encoding reads back as the dictionary.
proof fn lemma_map_roundtrip(es: Seq<(Seq<char>, ValueModel)>, pre: Seq<u8>, rest: Seq<u8>)
    requires
        canonical(ValueModel::Dictionary(es)),
    ensures
        encode_value(ValueModel::Dictionary(es)) is Ok,
        encode_value(ValueModel::Dictionary(es))->Ok_0.len() >= 1,
        decode_value(pre + encode_value(ValueModel::Dictionary(es))->Ok_0 + rest, pre.len() as int)
            == Ok::<(ValueModel, int), ErrorCode>(
            (
                ValueModel::Dictionary(es),
                (pre.len() + encode_value(ValueModel::Dictionary(es))->Ok_0.len()) as int,
            ),
        ),
    decreases es, 2int,
{
    let mk = Marker::Dictionary(es.len() as usize);
    let h = marker_bytes(mk)->0;
    lemma_dict_roundtrip(es, pre + h, rest);
    let e = encode_entries(es)->Ok_0;
    let bytes = pre + encode_value(ValueModel::Dictionary(es))->Ok_0 + rest;
    assert(bytes =~= pre + h + (e + rest));
    assert(bytes =~= (pre + h) + e + rest);
    lemma_marker_roundtrip(mk, pre, e + rest);
}

/// A key that follows `acc` in a sequence of distinct keys is not in `acc`.
proof fn lemma_fresh_key(acc: Seq<(Seq<char>, ValueModel)>, es: Seq<(Seq<char>, ValueModel)>)
    requires
        keys_distinct(acc + es),
        es.len() > 0,
    ensures
        !has_key(acc, es[0].0),
        dict_insert(acc, es[0].0, es[0].1) == acc.push(es[0]),
{
    if has_key(acc, es[0].0) {
        let j = choose|j: int| 0 <= j < acc.len() && acc[j].0 == es[0].0;
        assert((acc + es)[j].0 == (acc + es)[acc.len() as int].0);
    }
}

/// A dictionary's canonical entries read back as the entries.
proof fn lemma_dict_roundtrip(es: Seq<(Seq<char>, ValueModel)>, pre: Seq<u8>, rest: Seq<u8>)
    requires
        canonical(ValueModel::Dictionary(es)),
    ensures
        encode_entries(es) is Ok,
        decode_dict(pre + encode_entries(es)->Ok_0 + rest, pre.len() as int, es.len() as int) == Ok::<
            (ValueModel, int),
            ErrorCode,
        >((ValueModel::Dictionary(es), (pre.len() + encode_entries(es)->Ok_0.len()) as int)),
    decreases es, 1int,
{
    if es.len() > 0 {
        let (k, v) = es[0];
        let tail = es.drop_first();
        assert(decreases_to!(es => es[0]));
        assert(decreases_to!(es[0] => es[0].1));
        lemma_value_roundtrip(v, Seq::empty(), Seq::empty());
        lemma_text_roundtrip(k, Seq::empty(), Seq::empty());
        let ek = encode_text(k)->Ok_0;
        let ev = encode_value(v)->Ok_0;
        assert(seq![es[0]] + tail =~= es);
        lemma_entries_roundtrip(tail, seq![es[0]], pre + ek + ev, rest);
        let et = encode_entries(tail)->Ok_0;
        lemma_text_roundtrip(k, pre, ev + et + rest);
        lemma_value_roundtrip(v, pre + ek, et + rest);
        let bytes = pre + encode_entries(es)->Ok_0 + rest;
        assert(encode_entries(es)->Ok_0 == ek + ev + et);
        assert(bytes =~= pre + ek + (ev + et + rest));
        assert(bytes =~= (pre + ek) + ev + (et + rest));
        assert(bytes =~= (pre + ek + ev) + et + rest);
        assert(dict_insert(Seq::empty(), k, v) =~= seq![es[0]]);
    } else {
        assert(es =~= Seq::<(Seq<char>, ValueModel)>::empty());
    }
}

/// The remaining entries of a dictionary read back after those in `acc`.
#[verifier::spinoff_prover]
proof fn lemma_entries_roundtrip(
    es: Seq<(Seq<char>, ValueModel)>,
    acc: Seq<(Seq<char>, ValueModel)>,
    pre: Seq<u8>,
    rest: Seq<u8>,
)
    requires
        keys_distinct(acc + es),
        canonical_entries(es),
    ensures
        encode_entries(es) is Ok,
        decode_entries(pre + encode_entries(es)->Ok_0 + rest, pre.len() as int, es.len() as int, acc)
            == Ok::<(ValueModel, int), ErrorCode>(
            (ValueModel::Dictionary(acc + es), (pre.len() + encode_entries(es)->Ok_0.len()) as int),
        ),
    decreases es, 0int,
{
    if es.len() > 0 {
        let (k, v) = es[0];
        let tail = es.drop_first();
        assert(decreases_to!(es => es[0]));
        assert(decreases_to!(es[0] => es[0].1));
        lemma_value_roundtrip(v, Seq::empty(), Seq::empty());
        lemma_text_roundtrip(k, Seq::empty(), Seq::empty());
        let ek = encode_text(k)->Ok_0;
        let ev = encode_value(v)->Ok_0;
        let acc2 = acc.push(es[0]);
        assert(acc2 + tail =~= acc + es);
        lemma_entries_roundtrip(tail, acc2, pre + ek + ev, rest);
        let et = encode_entries(tail)->Ok_0;
        lemma_text_roundtrip(k, pre, ev + et + rest);
        lemma_value_roundtrip(v, pre + ek, et + rest);
        let bytes = pre + encode_entries(es)->Ok_0 + rest;
        assert(encode_entries(es)->Ok_0 == ek + ev + et);
        assert(bytes =~= pre + ek + (ev + et + rest));
        assert(bytes =~= (pre + ek) + ev + (et + rest));
        assert(bytes =~= (pre + ek + ev) + et + rest);
        lemma_fresh_key(acc, es);
    } else {
        assert(acc + es =~= acc);
        assert(pre + encode_entries(es)->Ok_0 + rest =~= pre + rest);
    }
}

} // verus!
