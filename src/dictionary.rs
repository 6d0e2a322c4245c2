//! Lookups and inserts on dictionaries kept in insertion order.

use crate::value::{entry_models, lemma_entry_models_index, model, Value, ValueModel};
use vstd::prelude::*;

verus! {

/// The position of the first entry with key `k`, if any.
pub open spec fn key_index(es: Seq<(Seq<char>, ValueModel)>, k: Seq<char>) -> Option<int>
    decreases es.len(),
{
    if es.len() == 0 {
        None
    } else if es[0].0 == k {
        Some(0)
    } else {
        match key_index(es.drop_first(), k) {
            Some(i) => Some(i + 1),
            None => None,
        }
    }
}

/// The value of the first entry with key `k`, if any.
pub open spec fn lookup(es: Seq<(Seq<char>, ValueModel)>, k: Seq<char>) -> Option<ValueModel> {
    match key_index(es, k) {
        Some(i) => Some(es[i].1),
        None => None,
    }
}

/// The entries with `(k, v)` in place of the first entry with key `k`, or
/// with `(k, v)` added at the end when there is none.
pub open spec fn dict_insert(es: Seq<(Seq<char>, ValueModel)>, k: Seq<char>, v: ValueModel) -> Seq<
    (Seq<char>, ValueModel),
> {
    match key_index(es, k) {
        Some(i) => es.update(i, (k, v)),
        None => es.push((k, v)),
    }
}

/// `key_index` finds the first entry with the key, and nothing when there is none.
pub proof fn lemma_key_index(es: Seq<(Seq<char>, ValueModel)>, k: Seq<char>)
    ensures
        match key_index(es, k) {
            Some(i) => 0 <= i < es.len() && es[i].0 == k && forall|j: int|
                0 <= j < i ==> #[trigger] es[j].0 != k,
            None => forall|j: int| 0 <= j < es.len() ==> #[trigger] es[j].0 != k,
        },
    decreases es.len(),
{
    if es.len() > 0 {
        lemma_key_index(es.drop_first(), k);
        assert forall|j: int| 1 <= j < es.len() implies #[trigger] es[j].0 == es.drop_first()[j
            - 1].0 by {}
    }
}

/// The position of the first entry whose key is `key`.
pub fn find_key(entries: &Vec<(String, Value)>, key: &String) -> (r: Option<usize>)
    ensures
        match r {
            Some(i) => i < entries@.len() && key_index(entry_models(entries@), key@) == Some(
                i as int,
            ),
            None => key_index(entry_models(entries@), key@) is None,
        },
{
    let ghost es = entry_models(entries@);
    proof {
        lemma_entry_models_index(entries@);
        lemma_key_index(es, key@);
    }
    let mut i: usize = 0;
    while i < entries.len()
        invariant
            i <= entries@.len(),
            es == entry_models(entries@),
            es.len() == entries@.len(),
            forall|j: int|
                0 <= j < entries@.len() ==> #[trigger] es[j] == (entries@[j].0@, model(
                    entries@[j].1,
                )),
            forall|j: int| 0 <= j < i ==> #[trigger] es[j].0 != key@,
            match key_index(es, key@) {
                Some(x) => 0 <= x < es.len() && es[x].0 == key@ && forall|j: int|
                    0 <= j < x ==> #[trigger] es[j].0 != key@,
                None => forall|j: int| 0 <= j < es.len() ==> #[trigger] es[j].0 != key@,
            },
        decreases entries.len() - i,
    {
        if entries[i].0 == *key {
            assert(es[i as int].0 == key@);
            return Some(i);
        }
        assert(es[i as int].0 != key@);
        i = i + 1;
    }
    None
}

/// The value of the first entry whose key is `key`.
pub fn get_value<'a>(entries: &'a Vec<(String, Value)>, key: &String) -> (r: Option<&'a Value>)
    ensures
        match r {
            Some(v) => lookup(entry_models(entries@), key@) == Some(model(*v)),
            None => lookup(entry_models(entries@), key@) is None,
        },
{
    proof {
        lemma_entry_models_index(entries@);
    }
    match find_key(entries, key) {
        Some(i) => Some(&entries[i].1),
        None => None,
    }
}

/// Sets the value of `key`: in place of its first entry, or as a new last entry.
pub fn insert_value(entries: &mut Vec<(String, Value)>, key: String, value: Value)
    ensures
        entry_models(final(entries)@) == dict_insert(
            entry_models(old(entries)@),
            key@,
            model(value),
        ),
{
    let ghost pre = entries@;
    let ghost es = entry_models(entries@);
    proof {
        lemma_entry_models_index(pre);
    }
    match find_key(entries, &key) {
        Some(i) => {
            let ghost k = key@;
            let ghost mv = model(value);
            entries.set(i, (key, value));
            proof {
                lemma_entry_models_index(entries@);
                assert(entries@ == pre.update(i as int, (key, value)));
                assert(entry_models(entries@) =~= es.update(i as int, (k, mv)));
            }
        },
        None => {
            entries.push((key, value));
            proof {
                crate::value::lemma_entry_models_push(pre, key, value);
            }
        },
    }
}

} // verus!
