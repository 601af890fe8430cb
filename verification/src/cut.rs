//! What decoding gives of an input cut short.
use crate::de::{
    decode_all, decode_dict, decode_entries, decode_key, decode_seq, decode_struct_entries, decode_text,
    decode_value,
};
use crate::error::ErrorCode;
use crate::marker::Marker;
use crate::read::{decode_marker, field, lemma_decode_marker_header};
use crate::roundtrip::{canonical, lemma_decode_all_encode};
use crate::ser::encode_value;
use crate::value::ValueModel;
use vstd::prelude::*;

verus! {

/// Whether a read that gave `whole` from a position `start` of an input, and
/// `cut` from the same position of the input's first `k` bytes, agree: a
/// read that ended by `k` gives the same on the cut input, and one that
/// started by `k` and ended past it fails there.
pub open spec fn cut_agrees<T>(
    whole: Result<(T, int), ErrorCode>,
    cut: Result<(T, int), ErrorCode>,
    start: int,
    k: int,
) -> bool {
    whole matches Ok((_, q)) ==> {
        &&& start <= q
        &&& q <= k ==> cut == whole
        &&& start <= k < q ==> cut is Err
    }
}

/// A marker header that ends by `k` reads the same from the input's first
/// `k` bytes; one that starts by `k` and ends past it cannot be read there.
proof fn lemma_marker_cut(bytes: Seq<u8>, k: int, p: int)
    requires
        0 <= k <= bytes.len(),
    ensures
        decode_marker(bytes, p) matches Ok((m, h)) ==> {
            &&& p + h <= k ==> decode_marker(bytes.subrange(0, k), p) == decode_marker(bytes, p)
            &&& p <= k < p + h ==> decode_marker(bytes.subrange(0, k), p) is Err
        },
{
    reveal(decode_marker);
    lemma_decode_marker_header(bytes, p);
    let c = bytes.subrange(0, k);
    if 0 <= p < k {
        assert(c[p] == bytes[p]);
    }
    if 0 <= p && p + 1 < k {
        assert(field(c, p, 1) =~= field(bytes, p, 1));
    }
    if 0 <= p && p + 2 < k {
        assert(field(c, p, 2) =~= field(bytes, p, 2));
    }
    if 0 <= p && p + 4 < k {
        assert(field(c, p, 4) =~= field(bytes, p, 4));
    }
    if 0 <= p && p + 8 < k {
        assert(field(c, p, 8) =~= field(bytes, p, 8));
    }
}

/// Text that ends by `k` reads the same from the input's first `k` bytes;
/// text that starts by `k` and ends past it cannot be read there.
proof fn lemma_text_cut(bytes: Seq<u8>, k: int, p: int, len: int)
    requires
        0 <= k <= bytes.len(),
        0 <= p,
        0 <= len,
    ensures
        decode_text(bytes, p, len) is Ok ==> {
            &&& p + len <= k ==> decode_text(bytes.subrange(0, k), p, len) == decode_text(bytes, p, len)
            &&& p <= k < p + len ==> decode_text(bytes.subrange(0, k), p, len) is Err
        },
{
    let c = bytes.subrange(0, k);
    if decode_text(bytes, p, len) is Ok && p + len <= k {
        assert(c.subrange(p, p + len) =~= bytes.subrange(p, p + len));
    }
}

/// A key reads from the cut input as [`cut_agrees`] says.
proof fn lemma_key_cut(bytes: Seq<u8>, k: int, p: int)
    requires
        0 <= k <= bytes.len(),
    ensures
        cut_agrees(decode_key(bytes, p), decode_key(bytes.subrange(0, k), p), p, k),
{
    lemma_marker_cut(bytes, k, p);
    lemma_decode_marker_header(bytes, p);
    if let Ok((Marker::String(len), h)) = decode_marker(bytes, p) {
        lemma_text_cut(bytes, k, p + h, len as int);
    }
}

/// A value reads from the cut input as [`cut_agrees`] says.
proof fn lemma_value_cut(bytes: Seq<u8>, k: int, pos: int)
    requires
        0 <= k <= bytes.len(),
    ensures
        cut_agrees(decode_value(bytes, pos), decode_value(bytes.subrange(0, k), pos), pos, k),
    decreases bytes.len() - pos, 0int,
{
    let c = bytes.subrange(0, k);
    lemma_marker_cut(bytes, k, pos);
    lemma_decode_marker_header(bytes, pos);
    if let Ok((m, h)) = decode_marker(bytes, pos) {
        let p = pos + h;
        if h >= 1 && p <= bytes.len() {
            match m {
                Marker::String(len) => {
                    lemma_text_cut(bytes, k, p, len as int);
                },
                Marker::Bytes(len) => {
                    if p + len <= k {
                        assert(c.subrange(p, p + len) =~= bytes.subrange(p, p + len));
                    }
                },
                Marker::List(n) => {
                    lemma_seq_cut(bytes, k, p, n as int);
                },
                Marker::Struct(n) => {
                    if p < bytes.len() {
                        if p < k {
                            assert(c[p] == bytes[p]);
                        }
                        lemma_seq_cut(bytes, k, p + 1, n as int);
                    }
                },
                Marker::Dictionary(n) => {
                    lemma_dict_cut(bytes, k, p, n as int);
                },
                _ => {},
            }
        }
    }
}

/// A sequence reads from the cut input as [`cut_agrees`] says.
proof fn lemma_seq_cut(bytes: Seq<u8>, k: int, p: int, n: int)
    requires
        0 <= k <= bytes.len(),
    ensures
        cut_agrees(decode_seq(bytes, p, n), decode_seq(bytes.subrange(0, k), p, n), p, k),
    decreases bytes.len() - p, 1int,
{
    if n > 0 {
        lemma_marker_cut(bytes, k, p);
        lemma_decode_marker_header(bytes, p);
        lemma_value_cut(bytes, k, p);
        if decode_marker(bytes, p) != Ok::<(Marker, nat), ErrorCode>((Marker::EOS, 1)) {
            if let Ok((v, q)) = decode_value(bytes, p) {
                if q > p && q <= bytes.len() {
                    lemma_seq_cut(bytes, k, q, n - 1);
                }
            }
        }
    }
}

/// A dictionary reads from the cut input as [`cut_agrees`] says.
proof fn lemma_dict_cut(bytes: Seq<u8>, k: int, p: int, n: int)
    requires
        0 <= k <= bytes.len(),
    ensures
        cut_agrees(decode_dict(bytes, p, n), decode_dict(bytes.subrange(0, k), p, n), p, k),
    decreases bytes.len() - p, 1int,
{
    if n > 0 {
        lemma_key_cut(bytes, k, p);
        if let Ok((key, p1)) = decode_key(bytes, p) {
            if p1 > p && p1 <= bytes.len() {
                lemma_struct_entries_cut(bytes, k, p1, n);
                lemma_value_cut(bytes, k, p1);
                if let Ok((v, p2)) = decode_value(bytes, p1) {
                    if p2 > p1 && p2 <= bytes.len() {
                        lemma_entries_cut(bytes, k, p2, n - 1, crate::value::dict_insert(Seq::empty(), key, v));
                    }
                }
            }
        }
    }
}

/// Entries read from the cut input as [`cut_agrees`] says.
proof fn lemma_entries_cut(bytes: Seq<u8>, k: int, p: int, n: int, acc: Seq<(Seq<char>, ValueModel)>)
    requires
        0 <= k <= bytes.len(),
    ensures
        cut_agrees(decode_entries(bytes, p, n, acc), decode_entries(bytes.subrange(0, k), p, n, acc), p, k),
    decreases bytes.len() - p, 1int,
{
    if n > 0 {
        lemma_key_cut(bytes, k, p);
        if let Ok((key, p1)) = decode_key(bytes, p) {
            if p1 > p && p1 <= bytes.len() {
                lemma_value_cut(bytes, k, p1);
                if let Ok((v, p2)) = decode_value(bytes, p1) {
                    if p2 > p1 && p2 <= bytes.len() {
                        lemma_entries_cut(bytes, k, p2, n - 1, crate::value::dict_insert(acc, key, v));
                    }
                }
            }
        }
    }
}

/// The rest of a structure read as a dictionary reads from the cut input as
/// [`cut_agrees`] says.
proof fn lemma_struct_entries_cut(bytes: Seq<u8>, k: int, p: int, n: int)
    requires
        0 <= k <= bytes.len(),
    ensures
        cut_agrees(decode_struct_entries(bytes, p, n), decode_struct_entries(bytes.subrange(0, k), p, n), p, k),
    decreases bytes.len() - p, 0int,
{
    lemma_marker_cut(bytes, k, p);
    lemma_decode_marker_header(bytes, p);
    if let Ok((Marker::I64(v), h)) = decode_marker(bytes, p) {
        lemma_key_cut(bytes, k, p + h);
        if let Ok((key, p2)) = decode_key(bytes, p + h) {
            lemma_marker_cut(bytes, k, p2);
            lemma_decode_marker_header(bytes, p2);
            if let Ok((Marker::List(len), h2)) = decode_marker(bytes, p2) {
                if p2 + h2 > p && p2 + h2 <= bytes.len() {
                    lemma_seq_cut(bytes, k, p2 + h2, len as int);
                }
            }
        }
    }
}

/// Law: an input that decodes to a value decodes to nothing once cut short:
/// every proper prefix of a decodable input fails to decode.
pub proof fn lemma_cut_input_fails(bytes: Seq<u8>, k: int)
    requires
        decode_all(bytes) is Ok,
        0 <= k < bytes.len(),
    ensures
        decode_all(bytes.subrange(0, k)) is Err,
{
    lemma_value_cut(bytes, k, 0);
}

/// Law: the encoding of a canonical value, cut short, fails to decode.
pub proof fn lemma_cut_encoding_fails(m: ValueModel, k: int)
    requires
        canonical(m),
        0 <= k < encode_value(m)->Ok_0.len(),
    ensures
        encode_value(m) is Ok,
        decode_all(encode_value(m)->Ok_0.subrange(0, k)) is Err,
{
    lemma_decode_all_encode(m);
    lemma_cut_input_fails(encode_value(m)->Ok_0, k);
}

} // verus!
