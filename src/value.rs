//! The dynamic value of PackStream and its mathematical model.

use vstd::prelude::*;

verus! {

broadcast use vstd::std_specs::vec::group_vec_axioms;

/// A PackStream value.
///
/// A float is carried as its IEEE-754 bit pattern; a dictionary keeps its
/// entries in insertion order; a structure is a tag byte with its fields
/// (graph nodes, relationships, paths, requests and responses are all
/// structures).
#[derive(Debug, PartialEq)]
pub enum Value {
    Null,
    Boolean(bool),
    Integer(i64),
    Float(u64),
    String(String),
    List(Vec<Value>),
    Dictionary(Vec<(String, Value)>),
    Structure(u8, Vec<Value>),
}

/// What a [`Value`] denotes: text as its characters, containers as sequences.
pub enum ValueModel {
    Null,
    Boolean(bool),
    Integer(i64),
    Float(u64),
    Text(Seq<char>),
    List(Seq<ValueModel>),
    Dictionary(Seq<(Seq<char>, ValueModel)>),
    Structure(u8, Seq<ValueModel>),
}

/// The model of a value.
pub open spec fn model(v: Value) -> ValueModel
    decreases v, 1nat,
{
    match v {
        Value::Null => ValueModel::Null,
        Value::Boolean(b) => ValueModel::Boolean(b),
        Value::Integer(i) => ValueModel::Integer(i),
        Value::Float(bits) => ValueModel::Float(bits),
        Value::String(s) => ValueModel::Text(s@),
        Value::List(items) => ValueModel::List(models(items@)),
        Value::Dictionary(entries) => ValueModel::Dictionary(entry_models(entries@)),
        Value::Structure(tag, fields) => ValueModel::Structure(tag, models(fields@)),
    }
}

/// The models of a sequence of values, element by element.
pub open spec fn models(s: Seq<Value>) -> Seq<ValueModel>
    decreases s, 0nat,
{
    if s.len() == 0 {
        Seq::empty()
    } else {
        models(s.drop_last()).push(model(s.last()))
    }
}

/// The models of dictionary entries, entry by entry.
pub open spec fn entry_models(s: Seq<(String, Value)>) -> Seq<(Seq<char>, ValueModel)>
    decreases s, 0nat,
{
    if s.len() == 0 {
        Seq::empty()
    } else {
        entry_models(s.drop_last()).push((s.last().0@, model(s.last().1)))
    }
}

pub proof fn lemma_models_index(s: Seq<Value>)
    ensures
        models(s).len() == s.len(),
        forall|i: int| 0 <= i < s.len() ==> #[trigger] models(s)[i] == model(s[i]),
    decreases s.len(),
{
    if s.len() > 0 {
        lemma_models_index(s.drop_last());
    }
}

pub proof fn lemma_entry_models_index(s: Seq<(String, Value)>)
    ensures
        entry_models(s).len() == s.len(),
        forall|i: int|
            0 <= i < s.len() ==> #[trigger] entry_models(s)[i] == (s[i].0@, model(s[i].1)),
    decreases s.len(),
{
    if s.len() > 0 {
        lemma_entry_models_index(s.drop_last());
    }
}

pub proof fn lemma_models_push(s: Seq<Value>, v: Value)
    ensures
        models(s.push(v)) == models(s).push(model(v)),
{
    assert(s.push(v).drop_last() =~= s);
}

pub proof fn lemma_entry_models_push(s: Seq<(String, Value)>, k: String, v: Value)
    ensures
        entry_models(s.push((k, v))) == entry_models(s).push((k@, model(v))),
{
    assert(s.push((k, v)).drop_last() =~= s);
}

impl Value {
    /// A copy of the value, down to its innermost entries.
    pub fn deep_copy(&self) -> (r: Value)
        ensures
            model(r) == model(*self),
        decreases self,
    {
        match self {
            Value::Null => Value::Null,
            Value::Boolean(b) => Value::Boolean(*b),
            Value::Integer(i) => Value::Integer(*i),
            Value::Float(bits) => Value::Float(*bits),
            Value::String(s) => Value::String(s.clone()),
            Value::List(items) => Value::List(copy_values(items)),
            Value::Dictionary(entries) => Value::Dictionary(copy_entries(entries)),
            Value::Structure(tag, fields) => Value::Structure(*tag, copy_values(fields)),
        }
    }
}

/// Copies of dictionary entries, entry by entry.
pub fn copy_entries(entries: &Vec<(String, Value)>) -> (r: Vec<(String, Value)>)
    ensures
        entry_models(r@) == entry_models(entries@),
    decreases entries, 0nat,
{
    let mut out: Vec<(String, Value)> = Vec::new();
    let mut i: usize = 0;
    while i < entries.len()
        invariant
            i <= entries@.len(),
            entry_models(out@) == entry_models(entries@.subrange(0, i as int)),
        decreases entries.len() - i,
    {
        let key = entries[i].0.clone();
        let value = entries[i].1.deep_copy();
        proof {
            lemma_entry_models_push(out@, key, value);
            let sub = entries@.subrange(0, i + 1);
            assert(sub.drop_last() =~= entries@.subrange(0, i as int));
        }
        out.push((key, value));
        i = i + 1;
    }
    proof {
        assert(entries@.subrange(0, entries@.len() as int) =~= entries@);
    }
    out
}

/// Copies of the values, element by element.
pub fn copy_values(items: &Vec<Value>) -> (r: Vec<Value>)
    ensures
        models(r@) == models(items@),
    decreases items, 0nat,
{
    let mut out: Vec<Value> = Vec::new();
    let mut i: usize = 0;
    while i < items.len()
        invariant
            i <= items@.len(),
            models(out@) == models(items@.subrange(0, i as int)),
        decreases items.len() - i,
    {
        let value = items[i].deep_copy();
        proof {
            lemma_models_push(out@, value);
            let sub = items@.subrange(0, i + 1);
            assert(sub.drop_last() =~= items@.subrange(0, i as int));
        }
        out.push(value);
        i = i + 1;
    }
    proof {
        assert(items@.subrange(0, items@.len() as int) =~= items@);
    }
    out
}

/// Whether two models are the same value when dictionaries are compared
/// without regard to the order of their entries: every entry of one has an
/// entry of the other with the same key and an equivalent value.
pub open spec fn equiv(a: ValueModel, b: ValueModel) -> bool
    decreases a, 2nat, 0nat,
{
    match a {
        ValueModel::List(x) => match b {
            ValueModel::List(y) => x.len() == y.len() && forall|i: int|
                0 <= i < x.len() ==> equiv(#[trigger] x[i], y[i]),
            _ => false,
        },
        ValueModel::Structure(t, x) => match b {
            ValueModel::Structure(u, y) => t == u && x.len() == y.len() && forall|i: int|
                0 <= i < x.len() ==> equiv(#[trigger] x[i], y[i]),
            _ => false,
        },
        ValueModel::Dictionary(x) => match b {
            ValueModel::Dictionary(y) => x.len() == y.len() && covered(x, y) && covers(x, y),
            _ => false,
        },
        _ => a == b,
    }
}

/// Whether every entry of `x` has an entry in `y` with its key and an
/// equivalent value.
pub open spec fn covered(x: Seq<(Seq<char>, ValueModel)>, y: Seq<(Seq<char>, ValueModel)>) -> bool
    decreases x, 1nat, 0nat,
{
    if x.len() == 0 {
        true
    } else {
        matched_in(x.last(), y) && covered(x.drop_last(), y)
    }
}

/// Whether some entry of `y` has the key of `e` and a value equivalent to its value.
pub open spec fn matched_in(e: (Seq<char>, ValueModel), y: Seq<(Seq<char>, ValueModel)>) -> bool
    decreases e.1, 3nat, y.len(),
{
    if y.len() == 0 {
        false
    } else {
        (y.last().0 == e.0 && equiv(e.1, y.last().1)) || matched_in(e, y.drop_last())
    }
}

/// Whether every entry of `y` has an entry in `x` with its key and a value
/// equivalent to it.
pub open spec fn covers(x: Seq<(Seq<char>, ValueModel)>, y: Seq<(Seq<char>, ValueModel)>) -> bool
    decreases x, 1nat, y.len(),
{
    if y.len() == 0 {
        true
    } else {
        matches_in(x, y.last()) && covers(x, y.drop_last())
    }
}

/// Whether some entry of `x` has the key of `e` and a value equivalent to its value.
pub open spec fn matches_in(x: Seq<(Seq<char>, ValueModel)>, e: (Seq<char>, ValueModel)) -> bool
    decreases x, 0nat, 0nat,
{
    if x.len() == 0 {
        false
    } else {
        (x.last().0 == e.0 && equiv(x.last().1, e.1)) || matches_in(x.drop_last(), e)
    }
}

impl Value {
    /// Whether the two values are the same, dictionaries compared without
    /// regard to the order of their entries.
    pub fn equivalent(&self, other: &Value) -> (r: bool)
        ensures
            r == equiv(model(*self), model(*other)),
        decreases self, 3nat, 0nat,
    {
        match self {
            Value::Null => match other {
                Value::Null => true,
                _ => false,
            },
            Value::Boolean(a) => match other {
                Value::Boolean(b) => *a == *b,
                _ => false,
            },
            Value::Integer(a) => match other {
                Value::Integer(b) => *a == *b,
                _ => false,
            },
            Value::Float(a) => match other {
                Value::Float(b) => *a == *b,
                _ => false,
            },
            Value::String(a) => match other {
                Value::String(b) => *a == *b,
                _ => false,
            },
            Value::List(x) => match other {
                Value::List(y) => equivalent_all(x, y),
                _ => false,
            },
            Value::Structure(t, x) => match other {
                Value::Structure(u, y) => *t == *u && equivalent_all(x, y),
                _ => false,
            },
            Value::Dictionary(x) => match other {
                Value::Dictionary(y) => {
                    proof {
                        lemma_entry_models_index(x@);
                        lemma_entry_models_index(y@);
                    }
                    x.len() == y.len() && entries_covered(x, y) && entries_cover(x, y)
                },
                _ => false,
            },
        }
    }
}

/// Whether the values are pairwise equivalent.
fn equivalent_all(x: &Vec<Value>, y: &Vec<Value>) -> (r: bool)
    ensures
        r == (models(x@).len() == models(y@).len() && forall|i: int|
            0 <= i < models(x@).len() ==> equiv(#[trigger] models(x@)[i], models(y@)[i])),
    decreases x, 0nat, 0nat,
{
    proof {
        lemma_models_index(x@);
        lemma_models_index(y@);
    }
    if x.len() != y.len() {
        return false;
    }
    let mut i: usize = 0;
    while i < x.len()
        invariant
            i <= x@.len(),
            x@.len() == y@.len(),
            models(x@).len() == x@.len(),
            models(y@).len() == y@.len(),
            forall|j: int| 0 <= j < x@.len() ==> #[trigger] models(x@)[j] == model(x@[j]),
            forall|j: int| 0 <= j < y@.len() ==> #[trigger] models(y@)[j] == model(y@[j]),
            forall|j: int| 0 <= j < i ==> equiv(#[trigger] models(x@)[j], models(y@)[j]),
        decreases x.len() - i,
    {
        if !x[i].equivalent(&y[i]) {
            assert(!equiv(models(x@)[i as int], models(y@)[i as int]));
            return false;
        }
        i = i + 1;
    }
    true
}

/// Whether some entry of `y` has the key `k` and a value equivalent to `v`.
fn find_equivalent_value(k: &String, v: &Value, y: &Vec<(String, Value)>) -> (r: bool)
    ensures
        r == matched_in((k@, model(*v)), entry_models(y@)),
    decreases v, 4nat, 0nat,
{
    let ghost e = (k@, model(*v));
    let ghost ey = entry_models(y@);
    proof {
        lemma_entry_models_index(y@);
        assert(ey.subrange(0, ey.len() as int) =~= ey);
    }
    let mut j: usize = y.len();
    while j > 0
        invariant
            j <= y@.len(),
            ey == entry_models(y@),
            ey.len() == y@.len(),
            e == (k@, model(*v)),
            forall|m: int| 0 <= m < y@.len() ==> #[trigger] ey[m] == (y@[m].0@, model(y@[m].1)),
            matched_in(e, ey) == matched_in(e, ey.subrange(0, j as int)),
        decreases j,
    {
        let ghost sub = ey.subrange(0, j as int);
        assert(sub.drop_last() =~= ey.subrange(0, j - 1));
        assert(sub.last() == ey[j - 1]);
        if y[j - 1].0 == *k && v.equivalent(&y[j - 1].1) {
            return true;
        }
        j = j - 1;
    }
    assert(ey.subrange(0, 0) =~= Seq::<(Seq<char>, ValueModel)>::empty());
    false
}

/// Whether some entry of `x` has the key `k` and a value to which `w` is equivalent.
fn find_equivalent_entry(x: &Vec<(String, Value)>, k: &String, w: &Value) -> (r: bool)
    ensures
        r == matches_in(entry_models(x@), (k@, model(*w))),
    decreases x, 0nat, 1nat,
{
    let ghost e = (k@, model(*w));
    let ghost ex = entry_models(x@);
    proof {
        lemma_entry_models_index(x@);
        assert(ex.subrange(0, ex.len() as int) =~= ex);
    }
    let mut i: usize = x.len();
    while i > 0
        invariant
            i <= x@.len(),
            ex == entry_models(x@),
            ex.len() == x@.len(),
            e == (k@, model(*w)),
            forall|m: int| 0 <= m < x@.len() ==> #[trigger] ex[m] == (x@[m].0@, model(x@[m].1)),
            matches_in(ex, e) == matches_in(ex.subrange(0, i as int), e),
        decreases i,
    {
        let ghost sub = ex.subrange(0, i as int);
        assert(sub.drop_last() =~= ex.subrange(0, i - 1));
        assert(sub.last() == ex[i - 1]);
        if x[i - 1].0 == *k && x[i - 1].1.equivalent(w) {
            return true;
        }
        i = i - 1;
    }
    assert(ex.subrange(0, 0) =~= Seq::<(Seq<char>, ValueModel)>::empty());
    false
}

/// Whether every entry of `x` has an entry of `y` with its key and an
/// equivalent value.
fn entries_covered(x: &Vec<(String, Value)>, y: &Vec<(String, Value)>) -> (r: bool)
    ensures
        r == covered(entry_models(x@), entry_models(y@)),
    decreases x, 1nat, 1nat,
{
    let ghost ex = entry_models(x@);
    let ghost ey = entry_models(y@);
    proof {
        lemma_entry_models_index(x@);
        assert(ex.subrange(0, ex.len() as int) =~= ex);
    }
    let mut i: usize = x.len();
    while i > 0
        invariant
            i <= x@.len(),
            ex == entry_models(x@),
            ey == entry_models(y@),
            ex.len() == x@.len(),
            forall|m: int| 0 <= m < x@.len() ==> #[trigger] ex[m] == (x@[m].0@, model(x@[m].1)),
            covered(ex, ey) == covered(ex.subrange(0, i as int), ey),
        decreases i,
    {
        let ghost sub = ex.subrange(0, i as int);
        assert(sub.drop_last() =~= ex.subrange(0, i - 1));
        assert(sub.last() == ex[i - 1]);
        if !find_equivalent_value(&x[i - 1].0, &x[i - 1].1, y) {
            return false;
        }
        i = i - 1;
    }
    assert(ex.subrange(0, 0) =~= Seq::<(Seq<char>, ValueModel)>::empty());
    true
}

/// Whether every entry of `y` has an entry of `x` with its key and a value
/// equivalent to it.
fn entries_cover(x: &Vec<(String, Value)>, y: &Vec<(String, Value)>) -> (r: bool)
    ensures
        r == covers(entry_models(x@), entry_models(y@)),
    decreases x, 1nat, 2nat,
{
    let ghost ex = entry_models(x@);
    let ghost ey = entry_models(y@);
    proof {
        lemma_entry_models_index(y@);
        assert(ey.subrange(0, ey.len() as int) =~= ey);
    }
    let mut j: usize = y.len();
    while j > 0
        invariant
            j <= y@.len(),
            ex == entry_models(x@),
            ey == entry_models(y@),
            ey.len() == y@.len(),
            forall|m: int| 0 <= m < y@.len() ==> #[trigger] ey[m] == (y@[m].0@, model(y@[m].1)),
            covers(ex, ey) == covers(ex, ey.subrange(0, j as int)),
        decreases j,
    {
        let ghost sub = ey.subrange(0, j as int);
        assert(sub.drop_last() =~= ey.subrange(0, j - 1));
        assert(sub.last() == ey[j - 1]);
        if !find_equivalent_entry(x, &y[j - 1].0, &y[j - 1].1) {
            return false;
        }
        j = j - 1;
    }
    assert(ey.subrange(0, 0) =~= Seq::<(Seq<char>, ValueModel)>::empty());
    true
}

impl Clone for Value {
    fn clone(&self) -> Self {
        self.deep_copy()
    }
}

} // verus!
