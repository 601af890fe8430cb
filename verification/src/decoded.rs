//! What every decoded value satisfies.
use crate::de::{
    decode_all, decode_dict, decode_entries, decode_seq, decode_struct_entries, decode_value,
};
use crate::value::{dict_insert, keys_distinct, lemma_insert_get, ValueModel};
use vstd::prelude::*;

verus! {

/// Whether no dictionary within the value repeats a key.
pub open spec fn distinct_keys(m: ValueModel) -> bool
    decreases m, 1int,
{
    match m {
        ValueModel::List(items) => all_distinct_keys(items),
        ValueModel::Structure(_, fields) => all_distinct_keys(fields),
        ValueModel::Dictionary(es) => keys_distinct(es) && entries_distinct_keys(es),
        _ => true,
    }
}

/// Whether no dictionary within the values repeats a key.
pub open spec fn all_distinct_keys(items: Seq<ValueModel>) -> bool
    decreases items, 0int,
{
    items.len() == 0 || (distinct_keys(items[0]) && all_distinct_keys(items.drop_first()))
}

/// Whether no dictionary within the entries' values repeats a key.
pub open spec fn entries_distinct_keys(es: Seq<(Seq<char>, ValueModel)>) -> bool
    decreases es, 0int,
{
    es.len() == 0 || (distinct_keys(es[0].1) && entries_distinct_keys(es.drop_first()))
}

/// Appending an entry whose value repeats no key keeps the property.
proof fn lemma_entries_push(es: Seq<(Seq<char>, ValueModel)>, e: (Seq<char>, ValueModel))
    requires
        entries_distinct_keys(es),
        distinct_keys(e.1),
    ensures
        entries_distinct_keys(es.push(e)),
    decreases es.len(),
{
    if es.len() > 0 {
        assert(es.push(e).drop_first() =~= es.drop_first().push(e));
        assert(es.push(e)[0] == es[0]);
        assert(distinct_keys(es[0].1));
        assert(entries_distinct_keys(es.drop_first()));
        lemma_entries_push(es.drop_first(), e);
        assert(entries_distinct_keys(es.push(e).drop_first()));
    } else {
        assert(es.push(e).drop_first() =~= Seq::<(Seq<char>, ValueModel)>::empty());
        assert(es.push(e)[0] == e);
        assert(entries_distinct_keys(Seq::<(Seq<char>, ValueModel)>::empty()));
        assert(entries_distinct_keys(es.push(e).drop_first()));
    }
}

/// Replacing an entry by one whose value repeats no key keeps the property.
proof fn lemma_entries_update(es: Seq<(Seq<char>, ValueModel)>, i: int, e: (Seq<char>, ValueModel))
    requires
        entries_distinct_keys(es),
        distinct_keys(e.1),
        0 <= i < es.len(),
    ensures
        entries_distinct_keys(es.update(i, e)),
    decreases es.len(),
{
    if i > 0 {
        assert(es.update(i, e).drop_first() =~= es.drop_first().update(i - 1, e));
        lemma_entries_update(es.drop_first(), i - 1, e);
    } else {
        assert(es.update(i, e).drop_first() =~= es.drop_first());
    }
}

/// Inserting an entry whose value repeats no key keeps both properties.
proof fn lemma_entries_insert(es: Seq<(Seq<char>, ValueModel)>, k: Seq<char>, v: ValueModel)
    requires
        keys_distinct(es),
        entries_distinct_keys(es),
        distinct_keys(v),
    ensures
        keys_distinct(dict_insert(es, k, v)),
        entries_distinct_keys(dict_insert(es, k, v)),
{
    lemma_insert_get(es, k, v, k);
    if crate::value::has_key(es, k) {
        let i = choose|i: int| 0 <= i < es.len() && es[i].0 == k;
        lemma_entries_update(es, i, (k, v));
    } else {
        lemma_entries_push(es, (k, v));
    }
}

/// A value read at `pos` repeats no key in any dictionary.
proof fn lemma_value_distinct(bytes: Seq<u8>, pos: int)
    ensures
        decode_value(bytes, pos) matches Ok((m, _)) ==> distinct_keys(m),
    decreases bytes.len() - pos, 0int,
{
    if let Ok((m, _)) = decode_value(bytes, pos) {
        let (mk, h) = crate::read::decode_marker(bytes, pos)->Ok_0;
        let p = pos + h;
        match mk {
            crate::marker::Marker::List(n) => {
                lemma_seq_distinct(bytes, p, n as int);
            },
            crate::marker::Marker::Struct(n) => {
                lemma_seq_distinct(bytes, p + 1, n as int);
            },
            crate::marker::Marker::Dictionary(n) => {
                lemma_dict_distinct(bytes, p, n as int);
            },
            _ => {},
        }
    }
}

/// The values of a list or structure repeat no key in any dictionary.
proof fn lemma_seq_distinct(bytes: Seq<u8>, p: int, n: int)
    ensures
        decode_seq(bytes, p, n) matches Ok((items, _)) ==> all_distinct_keys(items),
    decreases bytes.len() - p, 1int,
{
    if let Ok((items, _)) = decode_seq(bytes, p, n) {
        if items.len() > 0 {
            let (v, q) = decode_value(bytes, p)->Ok_0;
            lemma_value_distinct(bytes, p);
            lemma_seq_distinct(bytes, q, n - 1);
            let rest = decode_seq(bytes, q, n - 1)->Ok_0.0;
            assert(items == seq![v] + rest);
            assert(items.drop_first() =~= rest);
        }
    }
}

/// A dictionary read at `p` repeats no key, nor does any within it.
proof fn lemma_dict_distinct(bytes: Seq<u8>, p: int, n: int)
    ensures
        decode_dict(bytes, p, n) matches Ok((m, _)) ==> distinct_keys(m),
    decreases bytes.len() - p, 1int,
{
    if let Ok((m, _)) = decode_dict(bytes, p, n) {
        if n > 0 {
            let (k, p1) = crate::de::decode_key(bytes, p)->Ok_0;
            if k == crate::de::sig_key() {
                lemma_struct_entries_distinct(bytes, p1, n);
            } else {
                let (v, p2) = decode_value(bytes, p1)->Ok_0;
                lemma_value_distinct(bytes, p1);
                lemma_entries_insert(Seq::empty(), k, v);
                lemma_entries_distinct(bytes, p2, n - 1, dict_insert(Seq::empty(), k, v));
            }
        } else {
            assert(m == ValueModel::Dictionary(Seq::empty()));
        }
    }
}

/// The remaining entries read after those in `acc` repeat no key.
proof fn lemma_entries_distinct(bytes: Seq<u8>, p: int, n: int, acc: Seq<(Seq<char>, ValueModel)>)
    requires
        keys_distinct(acc),
        entries_distinct_keys(acc),
    ensures
        decode_entries(bytes, p, n, acc) matches Ok((m, _)) ==> distinct_keys(m),
    decreases bytes.len() - p, 1int,
{
    if let Ok((m, _)) = decode_entries(bytes, p, n, acc) {
        if n > 0 {
            let (k, p1) = crate::de::decode_key(bytes, p)->Ok_0;
            let (v, p2) = decode_value(bytes, p1)->Ok_0;
            lemma_value_distinct(bytes, p1);
            lemma_entries_insert(acc, k, v);
            lemma_entries_distinct(bytes, p2, n - 1, dict_insert(acc, k, v));
        }
    }
}

/// A structure read as a dictionary repeats no key within its fields.
proof fn lemma_struct_entries_distinct(bytes: Seq<u8>, p: int, n: int)
    ensures
        decode_struct_entries(bytes, p, n) matches Ok((m, _)) ==> distinct_keys(m),
    decreases bytes.len() - p, 1int,
{
    if let Ok((m, _)) = decode_struct_entries(bytes, p, n) {
        let (_, h) = crate::read::decode_marker(bytes, p)->Ok_0;
        let (_, p2) = crate::de::decode_key(bytes, p + h)->Ok_0;
        let (_, h2) = crate::read::decode_marker(bytes, p2)->Ok_0;
        let len = crate::read::decode_marker(bytes, p2)->Ok_0.0->List_0;
        lemma_seq_distinct(bytes, p2 + h2, len as int);
    }
}

/// Law: no dictionary in a decoded value repeats a key.
pub proof fn lemma_decoded_keys_distinct(bytes: Seq<u8>)
    ensures
        decode_all(bytes) matches Ok(m) ==> distinct_keys(m),
{
    lemma_value_distinct(bytes, 0);
}

} // verus!
