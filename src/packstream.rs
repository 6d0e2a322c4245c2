//! PackStream: the byte form of a [`Value`], and back.
//!
//! A value starts with one marker byte that gives its kind and, for small
//! sizes, its size. Integers take the smallest form that holds them; texts,
//! lists, dictionaries and structures take the smallest size header that
//! holds their size.

use crate::bytes::{
    be, be_value, lemma_be_round_trip, lemma_pow256_facts, lemma_signed_round_trip, push_be,
    push_signed_be, read_be, read_signed_be, signed_be, signed_value,
};
use crate::error::{PackError, UnpackError};
use crate::value::{
    entry_models, lemma_entry_models_index, lemma_entry_models_push, lemma_models_index,
    lemma_models_push, model, models, Value, ValueModel,
};
use vstd::prelude::*;
use vstd::utf8::{
    decode_utf8,
    encode_utf8,
    encode_utf8_decode_utf8,
    encode_utf8_valid_utf8,
    valid_utf8,
};

verus! {

broadcast use vstd::seq_lib::group_seq_properties;

// ---------------------------------------------------------------------------
// The byte form of a value
// ---------------------------------------------------------------------------

/// The size header of a container of `n` entries: the tiny marker with the
/// size in its low nibble below 16, else the smallest of the 8, 16 and 32 bit
/// markers (`m8`, `m8 + 1`, `m8 + 2`) followed by the size.
pub open spec fn sized_header(tiny: u8, m8: u8, n: nat) -> Seq<u8> {
    if n < 16 {
        seq![(tiny + n) as u8]
    } else if n < 0x100 {
        seq![m8] + be(n, 1)
    } else if n < 0x1_0000 {
        seq![(m8 + 1) as u8] + be(n, 2)
    } else {
        seq![(m8 + 2) as u8] + be(n, 4)
    }
}

/// The byte form of an integer: the value itself in `0..=127`, the marker
/// `0xF0..=0xFF` in `-16..=-1`, else the smallest of the 8, 16, 32 and 64 bit
/// signed forms.
pub open spec fn enc_int(i: i64) -> Seq<u8> {
    if 0 <= i < 0x80 {
        seq![i as u8]
    } else if -16 <= i < 0 {
        seq![(i + 256) as u8]
    } else if -0x80 <= i < 0x80 {
        seq![0xC8u8] + signed_be(i as int, 1)
    } else if -0x8000 <= i < 0x8000 {
        seq![0xC9u8] + signed_be(i as int, 2)
    } else if -0x8000_0000 <= i < 0x8000_0000 {
        seq![0xCAu8] + signed_be(i as int, 4)
    } else {
        seq![0xCBu8] + signed_be(i as int, 8)
    }
}

/// The byte form of a text: its size in UTF-8 bytes, then those bytes.
pub open spec fn enc_text(cs: Seq<char>) -> Seq<u8> {
    sized_header(0x80, 0xD0, encode_utf8(cs).len()) + encode_utf8(cs)
}

/// The byte form of a value.
pub open spec fn enc(v: ValueModel) -> Seq<u8>
    decreases v, 1nat,
{
    match v {
        ValueModel::Null => seq![0xC0u8],
        ValueModel::Boolean(b) => if b {
            seq![0xC3u8]
        } else {
            seq![0xC2u8]
        },
        ValueModel::Integer(i) => enc_int(i),
        ValueModel::Float(bits) => seq![0xC1u8] + be(bits as nat, 8),
        ValueModel::Text(cs) => enc_text(cs),
        ValueModel::List(items) => sized_header(0x90, 0xD4, items.len()) + enc_seq(items),
        ValueModel::Dictionary(es) => sized_header(0xA0, 0xD8, es.len()) + enc_entries(es),
        ValueModel::Structure(tag, fields) => sized_header(0xB0, 0xDC, fields.len()) + seq![tag]
            + enc_seq(fields),
    }
}

/// The byte forms of values, one after the other.
pub open spec fn enc_seq(s: Seq<ValueModel>) -> Seq<u8>
    decreases s, 0nat,
{
    if s.len() == 0 {
        Seq::empty()
    } else {
        enc_seq(s.drop_last()) + enc(s.last())
    }
}

/// The byte forms of dictionary entries: each key as text, then its value.
pub open spec fn enc_entries(s: Seq<(Seq<char>, ValueModel)>) -> Seq<u8>
    decreases s, 0nat,
{
    if s.len() == 0 {
        Seq::empty()
    } else {
        enc_entries(s.drop_last()) + enc_text(s.last().0) + enc(s.last().1)
    }
}

/// Whether every size in the value fits its widest header: texts up to
/// `u32::MAX` bytes, lists and dictionaries up to `u32::MAX` entries,
/// structures up to `u16::MAX` fields.
pub open spec fn encodable(v: ValueModel) -> bool
    decreases v,
{
    match v {
        ValueModel::Text(cs) => encode_utf8(cs).len() <= u32::MAX,
        ValueModel::List(items) => items.len() <= u32::MAX && forall|i: int|
            0 <= i < items.len() ==> encodable(#[trigger] items[i]),
        ValueModel::Dictionary(es) => es.len() <= u32::MAX && forall|i: int|
            0 <= i < es.len() ==> encode_utf8(#[trigger] es[i].0).len() <= u32::MAX && encodable(
                es[i].1,
            ),
        ValueModel::Structure(_, fields) => fields.len() <= 0xFFFF && forall|i: int|
            0 <= i < fields.len() ==> encodable(#[trigger] fields[i]),
        _ => true,
    }
}

// ---------------------------------------------------------------------------
// Reading the byte form
// ---------------------------------------------------------------------------

/// The four kinds of sized values.
#[derive(Debug, Clone, Copy, PartialEq, Eq, Structural)]
pub enum Container {
    Text,
    List,
    Dictionary,
    Structure,
}

/// The kind of sized value that a marker opens, if any.
pub open spec fn container_of(m: u8) -> Option<Container> {
    if (0x80 <= m < 0x90) || (0xD0 <= m <= 0xD2) {
        Some(Container::Text)
    } else if (0x90 <= m < 0xA0) || (0xD4 <= m <= 0xD6) {
        Some(Container::List)
    } else if (0xA0 <= m < 0xB0) || (0xD8 <= m <= 0xDA) {
        Some(Container::Dictionary)
    } else if (0xB0 <= m < 0xC0) || m == 0xDC || m == 0xDD {
        Some(Container::Structure)
    } else {
        None
    }
}

/// How many size bytes follow a container marker: none for the tiny forms.
pub open spec fn size_width(m: u8) -> nat {
    if m < 0xC0 {
        0
    } else if m % 4 == 0 {
        1
    } else if m % 4 == 1 {
        2
    } else {
        4
    }
}

/// How many bytes follow an integer marker `0xC8..=0xCB`.
pub open spec fn int_width(m: u8) -> nat {
    if m == 0xC8 {
        1
    } else if m == 0xC9 {
        2
    } else if m == 0xCA {
        4
    } else {
        8
    }
}

/// The size that a container header at the start of `b` declares.
pub open spec fn header_size(b: Seq<u8>) -> nat {
    if size_width(b[0]) == 0 {
        (b[0] % 16) as nat
    } else {
        be_value(b.subrange(1, (1 + size_width(b[0])) as int))
    }
}

/// The value at the start of `b`, with the number of bytes it takes.
pub open spec fn dec(b: Seq<u8>) -> Result<(ValueModel, nat), UnpackError>
    decreases b.len(), 0nat,
{
    if b.len() == 0 {
        Err(UnpackError::TruncatedInput)
    } else {
        let m = b[0];
        if m < 0x80 {
            Ok((ValueModel::Integer(m as i64), 1))
        } else if m >= 0xF0 {
            Ok((ValueModel::Integer((m - 256) as i64), 1))
        } else if m == 0xC0 {
            Ok((ValueModel::Null, 1))
        } else if m == 0xC2 {
            Ok((ValueModel::Boolean(false), 1))
        } else if m == 0xC3 {
            Ok((ValueModel::Boolean(true), 1))
        } else if m == 0xC1 {
            if b.len() < 9 {
                Err(UnpackError::TruncatedInput)
            } else {
                Ok((ValueModel::Float(be_value(b.subrange(1, 9)) as u64), 9))
            }
        } else if 0xC8 <= m <= 0xCB {
            let w = int_width(m);
            if b.len() < 1 + w {
                Err(UnpackError::TruncatedInput)
            } else {
                Ok((ValueModel::Integer(signed_value(b.subrange(1, (1 + w) as int)) as i64), 1 + w))
            }
        } else {
            match container_of(m) {
                None => Err(UnpackError::MalformedMarker(m)),
                Some(c) => {
                    let h = 1 + size_width(m);
                    if b.len() < h {
                        Err(UnpackError::TruncatedInput)
                    } else {
                        let n = header_size(b);
                        let body = b.subrange(h as int, b.len() as int);
                        match c {
                            Container::Text => if n > body.len() {
                                Err(UnpackError::SizeOverflow)
                            } else if valid_utf8(body.subrange(0, n as int)) {
                                Ok(
                                    (
                                        ValueModel::Text(decode_utf8(body.subrange(0, n as int))),
                                        h + n,
                                    ),
                                )
                            } else {
                                Err(UnpackError::InvalidText)
                            },
                            Container::List => if n > body.len() {
                                Err(UnpackError::SizeOverflow)
                            } else {
                                match dec_seq(body, n) {
                                    Ok((items, k)) => Ok((ValueModel::List(items), h + k)),
                                    Err(e) => Err(e),
                                }
                            },
                            Container::Dictionary => if n > body.len() {
                                Err(UnpackError::SizeOverflow)
                            } else {
                                match dec_entries(body, n) {
                                    Ok((es, k)) => Ok((ValueModel::Dictionary(es), h + k)),
                                    Err(e) => Err(e),
                                }
                            },
                            Container::Structure => if body.len() == 0 {
                                Err(UnpackError::TruncatedInput)
                            } else if n > body.len() - 1 {
                                Err(UnpackError::SizeOverflow)
                            } else {
                                match dec_seq(body.subrange(1, body.len() as int), n) {
                                    Ok((fields, k)) => Ok(
                                        (ValueModel::Structure(body[0], fields), h + 1 + k),
                                    ),
                                    Err(e) => Err(e),
                                }
                            },
                        }
                    }
                },
            }
        }
    }
}

/// `n` values one after the other at the start of `b`.
pub open spec fn dec_seq(b: Seq<u8>, n: nat) -> Result<(Seq<ValueModel>, nat), UnpackError>
    decreases b.len(), 1nat,
{
    if n == 0 {
        Ok((Seq::empty(), 0))
    } else {
        match dec(b) {
            Err(e) => Err(e),
            Ok((v, k)) => if k == 0 || k > b.len() {
                Err(UnpackError::TruncatedInput)
            } else {
                match dec_seq(b.subrange(k as int, b.len() as int), (n - 1) as nat) {
                    Err(e) => Err(e),
                    Ok((vs, k2)) => Ok((seq![v] + vs, k + k2)),
                }
            },
        }
    }
}

/// `n` dictionary entries (a text key, then its value) at the start of `b`.
pub open spec fn dec_entries(b: Seq<u8>, n: nat) -> Result<
    (Seq<(Seq<char>, ValueModel)>, nat),
    UnpackError,
>
    decreases b.len(), 1nat,
{
    if n == 0 {
        Ok((Seq::empty(), 0))
    } else {
        match dec(b) {
            Err(e) => Err(e),
            Ok((key, k1)) => if k1 == 0 || k1 > b.len() {
                Err(UnpackError::TruncatedInput)
            } else {
                match key {
                    ValueModel::Text(cs) => match dec(b.subrange(k1 as int, b.len() as int)) {
                        Err(e) => Err(e),
                        Ok((v, k2)) => if k2 == 0 || k1 + k2 > b.len() {
                            Err(UnpackError::TruncatedInput)
                        } else {
                            match dec_entries(
                                b.subrange((k1 + k2) as int, b.len() as int),
                                (n - 1) as nat,
                            ) {
                                Err(e) => Err(e),
                                Ok((es, k3)) => Ok((seq![(cs, v)] + es, k1 + k2 + k3)),
                            }
                        },
                    },
                    _ => Err(UnpackError::NonTextKey),
                }
            },
        }
    }
}

// ---------------------------------------------------------------------------
// Decoding the byte form gives the value back
// ---------------------------------------------------------------------------

/// A size header at the start of some bytes reads back as its kind and size.
pub proof fn lemma_header(tiny: u8, m8: u8, n: nat, c: Container, rest: Seq<u8>)
    requires
        (tiny == 0x80 && m8 == 0xD0 && c == Container::Text) || (tiny == 0x90 && m8 == 0xD4 && c
            == Container::List) || (tiny == 0xA0 && m8 == 0xD8 && c == Container::Dictionary) || (
        tiny == 0xB0 && m8 == 0xDC && c == Container::Structure && n <= 0xFFFF),
        n <= u32::MAX,
    ensures
        ({
            let b = sized_header(tiny, m8, n) + rest;
            &&& b.len() > 0
            &&& 0x80 <= b[0] < 0xF0
            &&& b[0] != 0xC0 && b[0] != 0xC1 && b[0] != 0xC2 && b[0] != 0xC3
            &&& !(0xC8 <= b[0] <= 0xCB)
            &&& container_of(b[0]) == Some(c)
            &&& sized_header(tiny, m8, n).len() == 1 + size_width(b[0])
            &&& header_size(b) == n
            &&& b.subrange(sized_header(tiny, m8, n).len() as int, b.len() as int) == rest
        }),
{
    let h = sized_header(tiny, m8, n);
    let b = h + rest;
    assert(b.subrange(h.len() as int, b.len() as int) =~= rest);
    if n < 16 {
        assert(b[0] == tiny + n);
    } else if n < 0x100 {
        lemma_be_round_trip(n, 1);
        lemma_pow256_facts();
        assert(b.subrange(1, 2) =~= be(n, 1));
    } else if n < 0x1_0000 {
        lemma_be_round_trip(n, 2);
        lemma_pow256_facts();
        assert(b.subrange(1, 3) =~= be(n, 2));
    } else {
        lemma_be_round_trip(n, 4);
        lemma_pow256_facts();
        assert(b.subrange(1, 5) =~= be(n, 4));
    }
}

/// Every byte form takes at least one byte.
pub proof fn lemma_enc_nonempty(v: ValueModel)
    ensures
        enc(v).len() >= 1,
{
    match v {
        ValueModel::List(items) => {
            assert(sized_header(0x90, 0xD4, items.len()).len() >= 1);
        },
        ValueModel::Dictionary(es) => {
            assert(sized_header(0xA0, 0xD8, es.len()).len() >= 1);
        },
        ValueModel::Structure(tag, fields) => {
            assert(sized_header(0xB0, 0xDC, fields.len()).len() >= 1);
        },
        ValueModel::Text(cs) => {
            assert(sized_header(0x80, 0xD0, encode_utf8(cs).len()).len() >= 1);
        },
        _ => {},
    }
}

/// Values in a row take at least one byte each.
pub proof fn lemma_enc_seq_len(s: Seq<ValueModel>)
    ensures
        enc_seq(s).len() >= s.len(),
    decreases s.len(),
{
    if s.len() > 0 {
        lemma_enc_seq_len(s.drop_last());
        lemma_enc_nonempty(s.last());
    }
}

/// Entries in a row take at least one byte each.
pub proof fn lemma_enc_entries_len(s: Seq<(Seq<char>, ValueModel)>)
    ensures
        enc_entries(s).len() >= s.len(),
    decreases s.len(),
{
    if s.len() > 0 {
        lemma_enc_entries_len(s.drop_last());
        lemma_enc_nonempty(s.last().1);
    }
}

/// Values in a row: the first one, then the others.
pub proof fn lemma_enc_seq_front(s: Seq<ValueModel>)
    requires
        s.len() > 0,
    ensures
        enc_seq(s) == enc(s[0]) + enc_seq(s.drop_first()),
    decreases s.len(),
{
    if s.len() == 1 {
        assert(s.drop_last() =~= Seq::<ValueModel>::empty());
        assert(s.drop_first() =~= Seq::<ValueModel>::empty());
        assert(enc_seq(s) =~= enc(s[0]) + enc_seq(s.drop_first()));
    } else {
        lemma_enc_seq_front(s.drop_last());
        assert(s.drop_first().drop_last() =~= s.drop_last().drop_first());
        assert(s.drop_last()[0] == s[0]);
        assert(s.drop_first().last() == s.last());
        assert(enc_seq(s) =~= enc(s[0]) + enc_seq(s.drop_first()));
    }
}

/// Entries in a row: the first one, then the others.
pub proof fn lemma_enc_entries_front(s: Seq<(Seq<char>, ValueModel)>)
    requires
        s.len() > 0,
    ensures
        enc_entries(s) == enc_text(s[0].0) + enc(s[0].1) + enc_entries(s.drop_first()),
    decreases s.len(),
{
    if s.len() == 1 {
        assert(s.drop_last() =~= Seq::<(Seq<char>, ValueModel)>::empty());
        assert(s.drop_first() =~= Seq::<(Seq<char>, ValueModel)>::empty());
        assert(enc_entries(s) =~= enc_text(s[0].0) + enc(s[0].1) + enc_entries(s.drop_first()));
    } else {
        lemma_enc_entries_front(s.drop_last());
        assert(s.drop_first().drop_last() =~= s.drop_last().drop_first());
        assert(s.drop_last()[0] == s[0]);
        assert(s.drop_first().last() == s.last());
        assert(enc_entries(s) =~= enc_text(s[0].0) + enc(s[0].1) + enc_entries(s.drop_first()));
    }
}

/// An integer reads back from its byte form.
pub proof fn lemma_dec_enc_int(i: i64, rest: Seq<u8>)
    ensures
        dec(enc_int(i) + rest) == Ok::<_, UnpackError>((ValueModel::Integer(i), enc_int(i).len())),
{
    let e = enc_int(i);
    let b = e + rest;
    lemma_pow256_facts();
    if 0 <= i < 0x80 {
    } else if -16 <= i < 0 {
    } else if -0x80 <= i < 0x80 {
        lemma_signed_round_trip(i as int, 1);
        assert(b.subrange(1, 2) =~= signed_be(i as int, 1));
    } else if -0x8000 <= i < 0x8000 {
        lemma_signed_round_trip(i as int, 2);
        assert(b.subrange(1, 3) =~= signed_be(i as int, 2));
    } else if -0x8000_0000 <= i < 0x8000_0000 {
        lemma_signed_round_trip(i as int, 4);
        assert(b.subrange(1, 5) =~= signed_be(i as int, 4));
    } else {
        lemma_signed_round_trip(i as int, 8);
        assert(b.subrange(1, 9) =~= signed_be(i as int, 8));
    }
}

/// A text reads back from its byte form.
pub proof fn lemma_dec_enc_text(cs: Seq<char>, rest: Seq<u8>)
    requires
        encode_utf8(cs).len() <= u32::MAX,
    ensures
        dec(enc_text(cs) + rest) == Ok::<_, UnpackError>((ValueModel::Text(cs), enc_text(cs).len())),
{
    let u = encode_utf8(cs);
    let h = sized_header(0x80, 0xD0, u.len());
    let b = enc_text(cs) + rest;
    assert(b =~= h + (u + rest));
    lemma_header(0x80, 0xD0, u.len(), Container::Text, u + rest);
    let body = b.subrange(h.len() as int, b.len() as int);
    assert(body.subrange(0, u.len() as int) =~= u);
    encode_utf8_valid_utf8(cs);
    encode_utf8_decode_utf8(cs);
}

/// A value reads back from its byte form, whatever follows it.
pub proof fn lemma_dec_enc(v: ValueModel, rest: Seq<u8>)
    requires
        encodable(v),
    ensures
        dec(enc(v) + rest) == Ok::<_, UnpackError>((v, enc(v).len())),
    decreases v, 1nat,
{
    match v {
        ValueModel::Null => {},
        ValueModel::Boolean(x) => {},
        ValueModel::Integer(i) => {
            lemma_dec_enc_int(i, rest);
        },
        ValueModel::Float(bits) => {
            lemma_be_round_trip(bits as nat, 8);
            lemma_pow256_facts();
            let b = enc(v) + rest;
            assert(b.subrange(1, 9) =~= be(bits as nat, 8));
        },
        ValueModel::Text(cs) => {
            lemma_dec_enc_text(cs, rest);
        },
        ValueModel::List(items) => {
            let h = sized_header(0x90, 0xD4, items.len());
            let b = enc(v) + rest;
            assert(b =~= h + (enc_seq(items) + rest));
            lemma_header(0x90, 0xD4, items.len(), Container::List, enc_seq(items) + rest);
            lemma_enc_seq_len(items);
            lemma_dec_enc_seq(items, rest);
        },
        ValueModel::Dictionary(es) => {
            let h = sized_header(0xA0, 0xD8, es.len());
            let b = enc(v) + rest;
            assert(b =~= h + (enc_entries(es) + rest));
            lemma_header(0xA0, 0xD8, es.len(), Container::Dictionary, enc_entries(es) + rest);
            lemma_enc_entries_len(es);
            lemma_dec_enc_entries(es, rest);
        },
        ValueModel::Structure(tag, fields) => {
            let h = sized_header(0xB0, 0xDC, fields.len());
            let b = enc(v) + rest;
            assert(b =~= h + (seq![tag] + enc_seq(fields) + rest));
            lemma_header(
                0xB0,
                0xDC,
                fields.len(),
                Container::Structure,
                seq![tag] + enc_seq(fields) + rest,
            );
            lemma_enc_seq_len(fields);
            lemma_dec_enc_seq(fields, rest);
            let body = b.subrange(h.len() as int, b.len() as int);
            assert(body.subrange(1, body.len() as int) =~= enc_seq(fields) + rest);
        },
    }
}

/// Values in a row read back from their byte forms.
pub proof fn lemma_dec_enc_seq(s: Seq<ValueModel>, rest: Seq<u8>)
    requires
        forall|i: int| 0 <= i < s.len() ==> encodable(#[trigger] s[i]),
    ensures
        dec_seq(enc_seq(s) + rest, s.len()) == Ok::<_, UnpackError>((s, enc_seq(s).len())),
    decreases s, 0nat,
{
    if s.len() == 0 {
        assert(s =~= Seq::<ValueModel>::empty());
    } else {
        let tail = s.drop_first();
        lemma_enc_seq_front(s);
        let b = enc_seq(s) + rest;
        assert(b =~= enc(s[0]) + (enc_seq(tail) + rest));
        lemma_dec_enc(s[0], enc_seq(tail) + rest);
        lemma_enc_nonempty(s[0]);
        let k = enc(s[0]).len();
        assert(b.subrange(k as int, b.len() as int) =~= enc_seq(tail) + rest);
        assert forall|i: int| 0 <= i < tail.len() implies encodable(#[trigger] tail[i]) by {
            assert(tail[i] == s[i + 1]);
        }
        lemma_dec_enc_seq(tail, rest);
        assert(seq![s[0]] + tail =~= s);
    }
}

/// Values `vs` taking `k` bytes, then what `r` reads.
pub open spec fn prefixed<T>(vs: Seq<T>, k: nat, r: Result<(Seq<T>, nat), UnpackError>) -> Result<
    (Seq<T>, nat),
    UnpackError,
> {
    match r {
        Ok((ws, k2)) => Ok((vs + ws, k + k2)),
        Err(e) => Err(e),
    }
}

pub proof fn lemma_prefixed_empty<T>(r: Result<(Seq<T>, nat), UnpackError>)
    ensures
        prefixed(Seq::<T>::empty(), 0, r) == r,
{
    match r {
        Ok((ws, k)) => {
            assert(Seq::<T>::empty() + ws =~= ws);
        },
        Err(e) => {},
    }
}

pub proof fn lemma_prefixed_push<T>(vs: Seq<T>, k: nat, v: T, k1: nat, r: Result<(Seq<T>, nat), UnpackError>)
    ensures
        prefixed(vs, k, prefixed(seq![v], k1, r)) == prefixed(vs.push(v), k + k1, r),
{
    match r {
        Ok((ws, k2)) => {
            assert(vs + (seq![v] + ws) =~= vs.push(v) + ws);
        },
        Err(e) => {},
    }
}

/// One step of reading values: the first one, then the others.
pub proof fn lemma_dec_seq_unfold(b: Seq<u8>, n: nat, v: ValueModel, k: nat)
    requires
        n > 0,
        0 < k <= b.len(),
        dec(b) == Ok::<_, UnpackError>((v, k)),
    ensures
        dec_seq(b, n) == prefixed(
            seq![v],
            k,
            dec_seq(b.subrange(k as int, b.len() as int), (n - 1) as nat),
        ),
{
}

/// One step of reading dictionary entries: a text key, its value, then the others.
pub proof fn lemma_dec_entries_unfold(
    b: Seq<u8>,
    n: nat,
    cs: Seq<char>,
    k1: nat,
    v: ValueModel,
    k2: nat,
)
    requires
        n > 0,
        0 < k1,
        0 < k2,
        k1 + k2 <= b.len(),
        dec(b) == Ok::<_, UnpackError>((ValueModel::Text(cs), k1)),
        dec(b.subrange(k1 as int, b.len() as int)) == Ok::<_, UnpackError>((v, k2)),
    ensures
        dec_entries(b, n) == prefixed(
            seq![(cs, v)],
            k1 + k2,
            dec_entries(b.subrange((k1 + k2) as int, b.len() as int), (n - 1) as nat),
        ),
{
}

/// Dictionary entries in a row read back from their byte forms.
#[verifier::rlimit(40)]
pub proof fn lemma_dec_enc_entries(s: Seq<(Seq<char>, ValueModel)>, rest: Seq<u8>)
    requires
        forall|i: int|
            0 <= i < s.len() ==> encode_utf8(#[trigger] s[i].0).len() <= u32::MAX && encodable(
                s[i].1,
            ),
    ensures
        dec_entries(enc_entries(s) + rest, s.len()) == Ok::<_, UnpackError>((s, enc_entries(s).len())),
    decreases s, 0nat,
{
    if s.len() == 0 {
        assert(s =~= Seq::<(Seq<char>, ValueModel)>::empty());
    } else {
        let tail = s.drop_first();
        lemma_enc_entries_front(s);
        let b = enc_entries(s) + rest;
        let kt = enc_text(s[0].0);
        let kv = enc(s[0].1);
        assert(b =~= kt + (kv + enc_entries(tail) + rest));
        assert(encode_utf8(s[0].0).len() <= u32::MAX);
        lemma_dec_enc_text(s[0].0, kv + enc_entries(tail) + rest);
        assert(sized_header(0x80, 0xD0, encode_utf8(s[0].0).len()).len() >= 1);
        let b1 = b.subrange(kt.len() as int, b.len() as int);
        assert(b1 =~= kv + (enc_entries(tail) + rest));
        lemma_dec_enc(s[0].1, enc_entries(tail) + rest);
        lemma_enc_nonempty(s[0].1);
        assert(b.subrange((kt.len() + kv.len()) as int, b.len() as int) =~= enc_entries(tail)
            + rest);
        assert forall|i: int| 0 <= i < tail.len() implies encode_utf8(
            #[trigger] tail[i].0,
        ).len() <= u32::MAX && encodable(tail[i].1) by {
            assert(tail[i] == s[i + 1]);
        }
        lemma_dec_enc_entries(tail, rest);
        lemma_dec_entries_unfold(b, s.len(), s[0].0, kt.len(), s[0].1, kv.len());
        assert(seq![(s[0].0, s[0].1)] + tail =~= s);
    }
}

/// Decoding the byte form of a value gives back a value with the same model,
/// and reads exactly the bytes of that form.
pub proof fn lemma_unpack_pack(v: Value)
    requires
        encodable(model(v)),
    ensures
        dec(enc(model(v))) == Ok::<_, UnpackError>((model(v), enc(model(v)).len())),
{
    lemma_dec_enc(model(v), Seq::empty());
    assert(enc(model(v)) + Seq::<u8>::empty() =~= enc(model(v)));
}

/// Bytes that an encoder produced decode to a value whose byte form is those
/// same bytes.
pub proof fn lemma_enc_dec(b: Seq<u8>, v: ValueModel)
    requires
        encodable(v),
        b == enc(v),
    ensures
        dec(b) matches Ok((w, n)) && enc(w) == b && n == b.len(),
{
    lemma_dec_enc(v, Seq::empty());
    assert(enc(v) + Seq::<u8>::empty() =~= enc(v));
}

// ---------------------------------------------------------------------------
// Writing the byte form
// ---------------------------------------------------------------------------

/// Appends bytes one by one.
pub fn push_bytes(out: &mut Vec<u8>, bytes: &[u8])
    ensures
        final(out)@ == old(out)@ + bytes@,
{
    let ghost pre = out@;
    let mut j: usize = 0;
    while j < bytes.len()
        invariant
            j <= bytes@.len(),
            out@ == pre + bytes@.subrange(0, j as int),
        decreases bytes.len() - j,
    {
        out.push(bytes[j]);
        j = j + 1;
        assert(out@ =~= pre + bytes@.subrange(0, j as int));
    }
    assert(bytes@.subrange(0, bytes@.len() as int) =~= bytes@);
}

/// Appends the size header of a container of `n` entries.
fn push_header(out: &mut Vec<u8>, tiny: u8, m8: u8, n: usize)
    requires
        n <= u32::MAX,
        tiny <= 0xF0,
        m8 <= 0xFD,
    ensures
        final(out)@ == old(out)@ + sized_header(tiny, m8, n as nat),
{
    let ghost pre = out@;
    if n < 16 {
        out.push(tiny + n as u8);
        assert(out@ =~= pre + sized_header(tiny, m8, n as nat));
    } else if n < 0x100 {
        out.push(m8);
        push_be(out, n as u64, 1);
        assert(out@ =~= pre + sized_header(tiny, m8, n as nat));
    } else if n < 0x1_0000 {
        out.push(m8 + 1);
        push_be(out, n as u64, 2);
        assert(out@ =~= pre + sized_header(tiny, m8, n as nat));
    } else {
        out.push(m8 + 2);
        push_be(out, n as u64, 4);
        assert(out@ =~= pre + sized_header(tiny, m8, n as nat));
    }
}

/// Appends the byte form of an integer.
pub fn push_int(out: &mut Vec<u8>, i: i64)
    ensures
        final(out)@ == old(out)@ + enc_int(i),
{
    let ghost pre = out@;
    proof {
        lemma_pow256_facts();
    }
    if 0 <= i && i < 0x80 {
        out.push(i as u8);
        assert(out@ =~= pre + enc_int(i));
    } else if -16 <= i && i < 0 {
        out.push((i + 256) as u8);
        assert(out@ =~= pre + enc_int(i));
    } else if -0x80 <= i && i < 0x80 {
        out.push(0xC8);
        push_signed_be(out, i, 1);
        assert(out@ =~= pre + enc_int(i));
    } else if -0x8000 <= i && i < 0x8000 {
        out.push(0xC9);
        push_signed_be(out, i, 2);
        assert(out@ =~= pre + enc_int(i));
    } else if -0x8000_0000 <= i && i < 0x8000_0000 {
        out.push(0xCA);
        push_signed_be(out, i, 4);
        assert(out@ =~= pre + enc_int(i));
    } else {
        out.push(0xCB);
        push_signed_be(out, i, 8);
        assert(out@ =~= pre + enc_int(i));
    }
}

/// Appends the byte form of a text, unless it is longer than `u32::MAX` bytes.
pub fn push_text(out: &mut Vec<u8>, text: &str) -> (r: Result<(), PackError>)
    ensures
        r is Ok <==> encode_utf8(text@).len() <= u32::MAX,
        r is Ok ==> final(out)@ == old(out)@ + enc_text(text@),
{
    let bytes = text.as_bytes();
    if bytes.len() > 0xFFFF_FFFF {
        return Err(PackError::TooLarge);
    }
    let ghost pre = out@;
    push_header(out, 0x80, 0xD0, bytes.len());
    push_bytes(out, bytes);
    assert(out@ =~= pre + enc_text(text@));
    Ok(())
}

/// Appends the byte form of `v`, unless some size in it is too large for
/// PackStream.
pub fn encode(v: &Value, out: &mut Vec<u8>) -> (r: Result<(), PackError>)
    ensures
        r is Ok <==> encodable(model(*v)),
        r is Ok ==> final(out)@ == old(out)@ + enc(model(*v)),
    decreases v,
{
    let ghost pre = out@;
    match v {
        Value::Null => {
            out.push(0xC0);
            assert(out@ =~= pre + enc(model(*v)));
            Ok(())
        },
        Value::Boolean(b) => {
            if *b {
                out.push(0xC3);
            } else {
                out.push(0xC2);
            }
            assert(out@ =~= pre + enc(model(*v)));
            Ok(())
        },
        Value::Integer(i) => {
            push_int(out, *i);
            Ok(())
        },
        Value::Float(bits) => {
            out.push(0xC1);
            push_be(out, *bits, 8);
            assert(out@ =~= pre + enc(model(*v)));
            Ok(())
        },
        Value::String(s) => push_text(out, s.as_str()),
        Value::List(items) => {
            proof {
                lemma_models_index(items@);
            }
            if items.len() > 0xFFFF_FFFF {
                return Err(PackError::TooLarge);
            }
            push_header(out, 0x90, 0xD4, items.len());
            let r = encode_all(items, out);
            assert(r is Ok ==> out@ =~= pre + enc(model(*v)));
            r
        },
        Value::Dictionary(entries) => {
            proof {
                lemma_entry_models_index(entries@);
            }
            if entries.len() > 0xFFFF_FFFF {
                return Err(PackError::TooLarge);
            }
            push_header(out, 0xA0, 0xD8, entries.len());
            let r = encode_entries(entries, out);
            assert(r is Ok ==> out@ =~= pre + enc(model(*v)));
            r
        },
        Value::Structure(tag, fields) => {
            proof {
                lemma_models_index(fields@);
            }
            if fields.len() > 0xFFFF {
                return Err(PackError::TooLarge);
            }
            push_header(out, 0xB0, 0xDC, fields.len());
            out.push(*tag);
            let r = encode_all(fields, out);
            assert(r is Ok ==> out@ =~= pre + enc(model(*v)));
            r
        },
    }
}

/// Appends the byte forms of the values one after the other.
fn encode_all(items: &Vec<Value>, out: &mut Vec<u8>) -> (r: Result<(), PackError>)
    ensures
        r is Ok <==> forall|i: int|
            0 <= i < models(items@).len() ==> encodable(#[trigger] models(items@)[i]),
        r is Ok ==> final(out)@ == old(out)@ + enc_seq(models(items@)),
    decreases items, 0nat,
{
    let ghost pre = out@;
    let ghost ms = models(items@);
    proof {
        lemma_models_index(items@);
        assert(ms.subrange(0, 0) =~= Seq::<ValueModel>::empty());
    }
    let mut i: usize = 0;
    while i < items.len()
        invariant
            i <= items@.len(),
            ms == models(items@),
            ms.len() == items@.len(),
            forall|j: int| 0 <= j < items@.len() ==> #[trigger] ms[j] == model(items@[j]),
            out@ == pre + enc_seq(ms.subrange(0, i as int)),
            forall|j: int| 0 <= j < i ==> encodable(#[trigger] ms[j]),
        decreases items.len() - i,
    {
        let r = encode(&items[i], out);
        if r.is_err() {
            assert(!encodable(ms[i as int]));
            return r;
        }
        proof {
            let sub = ms.subrange(0, i + 1);
            assert(sub.drop_last() =~= ms.subrange(0, i as int));
            assert(sub.last() == ms[i as int]);
        }
        i = i + 1;
    }
    assert(ms.subrange(0, ms.len() as int) =~= ms);
    Ok(())
}

/// Appends the byte forms of dictionary entries: each key as text, then its value.
fn encode_entries(entries: &Vec<(String, Value)>, out: &mut Vec<u8>) -> (r: Result<
    (),
    PackError,
>)
    ensures
        r is Ok <==> forall|i: int|
            0 <= i < entry_models(entries@).len() ==> encode_utf8(
                #[trigger] entry_models(entries@)[i].0,
            ).len() <= u32::MAX && encodable(entry_models(entries@)[i].1),
        r is Ok ==> final(out)@ == old(out)@ + enc_entries(entry_models(entries@)),
    decreases entries, 0nat,
{
    let ghost pre = out@;
    let ghost ms = entry_models(entries@);
    proof {
        lemma_entry_models_index(entries@);
        assert(ms.subrange(0, 0) =~= Seq::<(Seq<char>, ValueModel)>::empty());
    }
    let mut i: usize = 0;
    while i < entries.len()
        invariant
            i <= entries@.len(),
            ms == entry_models(entries@),
            ms.len() == entries@.len(),
            forall|j: int|
                0 <= j < entries@.len() ==> #[trigger] ms[j] == (entries@[j].0@, model(
                    entries@[j].1,
                )),
            out@ == pre + enc_entries(ms.subrange(0, i as int)),
            forall|j: int|
                0 <= j < i ==> encode_utf8(#[trigger] ms[j].0).len() <= u32::MAX && encodable(
                    ms[j].1,
                ),
        decreases entries.len() - i,
    {
        let ghost before = out@;
        let rk = push_text(out, entries[i].0.as_str());
        if rk.is_err() {
            assert(ms[i as int].0 == entries@[i as int].0@);
            return rk;
        }
        let rv = encode(&entries[i].1, out);
        if rv.is_err() {
            assert(ms[i as int].1 == model(entries@[i as int].1));
            return rv;
        }
        proof {
            let sub = ms.subrange(0, i + 1);
            assert(sub.drop_last() =~= ms.subrange(0, i as int));
            assert(sub.last() == ms[i as int]);
            assert(out@ =~= pre + enc_entries(sub));
        }
        i = i + 1;
    }
    assert(ms.subrange(0, ms.len() as int) =~= ms);
    Ok(())
}

/// The byte form of `v`, unless some size in it is too large for PackStream.
pub fn pack(v: &Value) -> (r: Result<Vec<u8>, PackError>)
    ensures
        r is Ok <==> encodable(model(*v)),
        r matches Ok(bytes) ==> bytes@ == enc(model(*v)),
{
    let mut out: Vec<u8> = Vec::new();
    match encode(v, &mut out) {
        Ok(()) => {
            assert(out@ =~= Seq::<u8>::empty() + enc(model(*v)));
            Ok(out)
        },
        Err(e) => Err(e),
    }
}

// ---------------------------------------------------------------------------
// Reading the byte form
// ---------------------------------------------------------------------------

/// Relies on `std::str::from_utf8`: it accepts exactly the byte sequences that
/// are valid UTF-8, and the text it gives has exactly those bytes.
#[verifier::external_body]
fn text_from_utf8(bytes: &[u8]) -> (r: Option<String>)
    ensures
        r is Some <==> valid_utf8(bytes@),
        r matches Some(s) ==> encode_utf8(s@) == bytes@,
{
    match std::str::from_utf8(bytes) {
        Ok(s) => Some(s.to_string()),
        Err(_) => None,
    }
}

/// The kind of sized value that a marker opens, if any.
pub fn container_of_marker(m: u8) -> (r: Option<Container>)
    ensures
        r == container_of(m),
{
    if (0x80 <= m && m < 0x90) || (0xD0 <= m && m <= 0xD2) {
        Some(Container::Text)
    } else if (0x90 <= m && m < 0xA0) || (0xD4 <= m && m <= 0xD6) {
        Some(Container::List)
    } else if (0xA0 <= m && m < 0xB0) || (0xD8 <= m && m <= 0xDA) {
        Some(Container::Dictionary)
    } else if (0xB0 <= m && m < 0xC0) || m == 0xDC || m == 0xDD {
        Some(Container::Structure)
    } else {
        None
    }
}

/// The value whose byte form starts at `pos`, with the position just after it.
pub fn decode(b: &[u8], pos: usize) -> (r: Result<(Value, usize), UnpackError>)
    requires
        pos <= b@.len(),
    ensures
        match r {
            Ok((v, end)) => pos < end <= b@.len() && dec(b@.subrange(pos as int, b@.len() as int))
                == Ok::<_, UnpackError>((model(v), (end - pos) as nat)),
            Err(e) => dec(b@.subrange(pos as int, b@.len() as int)) == Err::<
                (ValueModel, nat),
                _,
            >(e),
        },
    decreases b@.len() - pos, 2nat,
{
    let ghost s = b@.subrange(pos as int, b@.len() as int);
    if pos >= b.len() {
        return Err(UnpackError::TruncatedInput);
    }
    let m = b[pos];
    assert(s[0] == m);
    let left = b.len() - pos;
    if m < 0x80 {
        Ok((Value::Integer(m as i64), pos + 1))
    } else if m >= 0xF0 {
        Ok((Value::Integer(m as i64 - 256), pos + 1))
    } else if m == 0xC0 {
        Ok((Value::Null, pos + 1))
    } else if m == 0xC2 {
        Ok((Value::Boolean(false), pos + 1))
    } else if m == 0xC3 {
        Ok((Value::Boolean(true), pos + 1))
    } else if m == 0xC1 {
        if left < 9 {
            Err(UnpackError::TruncatedInput)
        } else {
            let bits = read_be(b, pos + 1, 8);
            assert(s.subrange(1, 9) =~= b@.subrange(pos + 1, pos + 9));
            Ok((Value::Float(bits), pos + 9))
        }
    } else if 0xC8 <= m && m <= 0xCB {
        let w: usize = if m == 0xC8 {
            1
        } else if m == 0xC9 {
            2
        } else if m == 0xCA {
            4
        } else {
            8
        };
        if left < 1 + w {
            Err(UnpackError::TruncatedInput)
        } else {
            let i = read_signed_be(b, pos + 1, w);
            assert(s.subrange(1, (1 + w) as int) =~= b@.subrange(pos + 1, pos + 1 + w));
            Ok((Value::Integer(i), pos + 1 + w))
        }
    } else {
        match container_of_marker(m) {
            None => Err(UnpackError::MalformedMarker(m)),
            Some(c) => decode_sized(b, pos, c),
        }
    }
}

/// The UTF-8 text of `n` bytes at `start`.
fn read_text(b: &[u8], start: usize, n: usize) -> (r: Option<String>)
    requires
        start + n <= b@.len(),
    ensures
        r is Some <==> valid_utf8(b@.subrange(start as int, start + n)),
        r matches Some(text) ==> text@ == decode_utf8(b@.subrange(start as int, start + n)),
{
    let mut t: Vec<u8> = Vec::new();
    let mut j: usize = 0;
    while j < n
        invariant
            j <= n,
            start + n <= b.len(),
            t@ == b@.subrange(start as int, start + j),
        decreases n - j,
    {
        t.push(b[start + j]);
        j = j + 1;
        assert(t@ =~= b@.subrange(start as int, start + j));
    }
    let r = text_from_utf8(t.as_slice());
    proof {
        if r is Some {
            encode_utf8_decode_utf8(r->0@);
        }
    }
    r
}

/// The sized value (text, list, dictionary or structure) whose marker is at `pos`.
#[verifier::rlimit(30)]
fn decode_sized(b: &[u8], pos: usize, c: Container) -> (r: Result<(Value, usize), UnpackError>)
    requires
        pos < b@.len(),
        container_of(b@[pos as int]) == Some(c),
    ensures
        match r {
            Ok((v, end)) => pos < end <= b@.len() && dec(b@.subrange(pos as int, b@.len() as int))
                == Ok::<_, UnpackError>((model(v), (end - pos) as nat)),
            Err(e) => dec(b@.subrange(pos as int, b@.len() as int)) == Err::<
                (ValueModel, nat),
                _,
            >(e),
        },
    decreases b@.len() - pos, 1nat,
{
    let ghost s = b@.subrange(pos as int, b@.len() as int);
    let m = b[pos];
    assert(s[0] == m);
    let left = b.len() - pos;
    let w: usize = if m < 0xC0 {
        0
    } else if m % 4 == 0 {
        1
    } else if m % 4 == 1 {
        2
    } else {
        4
    };
    if left < 1 + w {
        return Err(UnpackError::TruncatedInput);
    }
    let n: usize = if w == 0 {
        (m % 16) as usize
    } else {
        let size = read_be(b, pos + 1, w);
        proof {
            assert(s.subrange(1, (1 + w) as int) =~= b@.subrange(pos + 1, pos + 1 + w));
            crate::bytes::lemma_be_value_bound(b@.subrange(pos + 1, pos + 1 + w));
            crate::bytes::lemma_pow256_monotonic(w as nat, 4);
            lemma_pow256_facts();
        }
        size as usize
    };
    assert(n == header_size(s));
    let start = pos + 1 + w;
    let avail = b.len() - start;
    let ghost body = s.subrange((1 + w) as int, s.len() as int);
    assert(body =~= b@.subrange(start as int, b@.len() as int));
    match c {
        Container::Text => {
            if n > avail {
                return Err(UnpackError::SizeOverflow);
            }
            assert(body.subrange(0, n as int) =~= b@.subrange(start as int, start + n));
            match read_text(b, start, n) {
                Some(text) => Ok((Value::String(text), start + n)),
                None => Err(UnpackError::InvalidText),
            }
        },
        Container::List => {
            if n > avail {
                return Err(UnpackError::SizeOverflow);
            }
            match decode_seq(b, start, n) {
                Ok((items, end)) => Ok((Value::List(items), end)),
                Err(e) => Err(e),
            }
        },
        Container::Dictionary => {
            if n > avail {
                return Err(UnpackError::SizeOverflow);
            }
            match decode_entries(b, start, n) {
                Ok((entries, end)) => Ok((Value::Dictionary(entries), end)),
                Err(e) => Err(e),
            }
        },
        Container::Structure => {
            if avail == 0 {
                return Err(UnpackError::TruncatedInput);
            }
            if n > avail - 1 {
                return Err(UnpackError::SizeOverflow);
            }
            let tag = b[start];
            assert(body.subrange(1, body.len() as int) =~= b@.subrange(
                start + 1,
                b@.len() as int,
            ));
            match decode_seq(b, start + 1, n) {
                Ok((fields, end)) => Ok((Value::Structure(tag, fields), end)),
                Err(e) => Err(e),
            }
        },
    }
}

/// `n` values one after the other from `start`, with the position after the last.
fn decode_seq(b: &[u8], start: usize, n: usize) -> (r: Result<(Vec<Value>, usize), UnpackError>)
    requires
        start <= b@.len(),
    ensures
        match r {
            Ok((items, end)) => start <= end <= b@.len() && dec_seq(
                b@.subrange(start as int, b@.len() as int),
                n as nat,
            ) == Ok::<_, UnpackError>((models(items@), (end - start) as nat)),
            Err(e) => dec_seq(b@.subrange(start as int, b@.len() as int), n as nat) == Err::<
                (Seq<ValueModel>, nat),
                _,
            >(e),
        },
    decreases b@.len() - start, 3nat,
{
    let mut items: Vec<Value> = Vec::new();
    let mut p: usize = start;
    let mut i: usize = 0;
    proof {
        lemma_prefixed_empty(dec_seq(b@.subrange(start as int, b@.len() as int), n as nat));
    }
    while i < n
        invariant
            start <= p <= b@.len(),
            i <= n,
            dec_seq(b@.subrange(start as int, b@.len() as int), n as nat) == prefixed(
                models(items@),
                (p - start) as nat,
                dec_seq(b@.subrange(p as int, b@.len() as int), (n - i) as nat),
            ),
        decreases n - i,
    {
        let ghost sp = b@.subrange(p as int, b@.len() as int);
        match decode(b, p) {
            Err(e) => {
                return Err(e);
            },
            Ok((v, q)) => {
                proof {
                    lemma_dec_seq_unfold(sp, (n - i) as nat, model(v), (q - p) as nat);
                    assert(sp.subrange((q - p) as int, sp.len() as int) =~= b@.subrange(
                        q as int,
                        b@.len() as int,
                    ));
                    lemma_prefixed_push(
                        models(items@),
                        (p - start) as nat,
                        model(v),
                        (q - p) as nat,
                        dec_seq(b@.subrange(q as int, b@.len() as int), (n - i - 1) as nat),
                    );
                    lemma_models_push(items@, v);
                }
                items.push(v);
                p = q;
                i = i + 1;
            },
        }
    }
    proof {
        assert(models(items@) + Seq::<ValueModel>::empty() =~= models(items@));
    }
    Ok((items, p))
}

/// `n` dictionary entries from `start`, with the position after the last.
fn decode_entries(b: &[u8], start: usize, n: usize) -> (r: Result<
    (Vec<(String, Value)>, usize),
    UnpackError,
>)
    requires
        start <= b@.len(),
    ensures
        match r {
            Ok((entries, end)) => start <= end <= b@.len() && dec_entries(
                b@.subrange(start as int, b@.len() as int),
                n as nat,
            ) == Ok::<_, UnpackError>((entry_models(entries@), (end - start) as nat)),
            Err(e) => dec_entries(b@.subrange(start as int, b@.len() as int), n as nat) == Err::<
                (Seq<(Seq<char>, ValueModel)>, nat),
                _,
            >(e),
        },
    decreases b@.len() - start, 3nat,
{
    let mut entries: Vec<(String, Value)> = Vec::new();
    let mut p: usize = start;
    let mut i: usize = 0;
    proof {
        lemma_prefixed_empty(dec_entries(b@.subrange(start as int, b@.len() as int), n as nat));
    }
    while i < n
        invariant
            start <= p <= b@.len(),
            i <= n,
            dec_entries(b@.subrange(start as int, b@.len() as int), n as nat) == prefixed(
                entry_models(entries@),
                (p - start) as nat,
                dec_entries(b@.subrange(p as int, b@.len() as int), (n - i) as nat),
            ),
        decreases n - i,
    {
        let ghost sp = b@.subrange(p as int, b@.len() as int);
        let (key, q) = match decode(b, p) {
            Err(e) => {
                return Err(e);
            },
            Ok((Value::String(key), q)) => (key, q),
            Ok((other, q)) => {
                assert(model(other) !is Text);
                return Err(UnpackError::NonTextKey);
            },
        };
        assert(sp.subrange((q - p) as int, sp.len() as int) =~= b@.subrange(
            q as int,
            b@.len() as int,
        ));
        let (v, t) = match decode(b, q) {
            Err(e) => {
                return Err(e);
            },
            Ok((v, t)) => (v, t),
        };
        proof {
            lemma_dec_entries_unfold(sp, (n - i) as nat, key@, (q - p) as nat, model(v), (t - q) as nat);
            assert(sp.subrange((t - p) as int, sp.len() as int) =~= b@.subrange(
                t as int,
                b@.len() as int,
            ));
            lemma_prefixed_push(
                entry_models(entries@),
                (p - start) as nat,
                (key@, model(v)),
                (t - p) as nat,
                dec_entries(b@.subrange(t as int, b@.len() as int), (n - i - 1) as nat),
            );
            lemma_entry_models_push(entries@, key, v);
        }
        entries.push((key, v));
        p = t;
        i = i + 1;
    }
    proof {
        assert(entry_models(entries@) + Seq::<(Seq<char>, ValueModel)>::empty() =~= entry_models(
            entries@,
        ));
    }
    Ok((entries, p))
}

/// The value whose byte form starts the input, with the number of bytes it takes.
pub fn unpack(bytes: &[u8]) -> (r: Result<(Value, usize), UnpackError>)
    ensures
        match r {
            Ok((v, n)) => dec(bytes@) == Ok::<_, UnpackError>((model(v), n as nat)),
            Err(e) => dec(bytes@) == Err::<(ValueModel, nat), _>(e),
        },
{
    assert(bytes@.subrange(0, bytes@.len() as int) =~= bytes@);
    decode(bytes, 0)
}

} // verus!
