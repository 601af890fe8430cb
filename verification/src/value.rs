//! Loosely typed PackStream values and the mathematical model they stand for.
use vstd::prelude::*;

pub mod structure;

verus! {

/// Any PackStream value.
///
/// `F64` holds the IEEE 754 bits of the float. A dictionary holds its
/// entries in a [`ValueMap`].
#[derive(Debug, PartialEq)]
pub enum Value {
    Null,
    Bool(bool),
    I64(i64),
    F64(u64),
    String(String),
    List(Vec<Value>),
    Dictionary(ValueMap),
    Bytes(Vec<u8>),
    Structure { signature: u8, fields: Vec<Value> },
}

/// A dictionary from string keys to values, in insertion order; no key
/// occurs twice (see [`ValueMap::wf`]).
#[derive(Debug, PartialEq)]
pub struct ValueMap {
    pub entries: Vec<(String, Value)>,
}

/// The mathematical value that a [`Value`] stands for: strings are
/// sequences of characters, dictionaries sequences of entries.
pub enum ValueModel {
    Null,
    Bool(bool),
    I64(i64),
    F64(u64),
    String(Seq<char>),
    List(Seq<ValueModel>),
    Dictionary(Seq<(Seq<char>, ValueModel)>),
    Bytes(Seq<u8>),
    Structure(u8, Seq<ValueModel>),
}

impl Value {
    /// The model of the value.
    pub open spec fn model(&self) -> ValueModel
        decreases self,
    {
        match self {
            Value::Null => ValueModel::Null,
            Value::Bool(b) => ValueModel::Bool(*b),
            Value::I64(v) => ValueModel::I64(*v),
            Value::F64(bits) => ValueModel::F64(*bits),
            Value::String(s) => ValueModel::String(s@),
            Value::List(items) => ValueModel::List(
                Seq::new(
                    items@.len(),
                    |i: int| if 0 <= i < items@.len() { items@[i].model() } else { ValueModel::Null },
                ),
            ),
            Value::Dictionary(m) => ValueModel::Dictionary(
                Seq::new(
                    m.entries@.len(),
                    |i: int|
                        if 0 <= i < m.entries@.len() {
                            (m.entries@[i].0@, m.entries@[i].1.model())
                        } else {
                            (Seq::empty(), ValueModel::Null)
                        },
                ),
            ),
            Value::Bytes(b) => ValueModel::Bytes(b@),
            Value::Structure { signature, fields } => ValueModel::Structure(
                *signature,
                Seq::new(
                    fields@.len(),
                    |i: int| if 0 <= i < fields@.len() { fields@[i].model() } else { ValueModel::Null },
                ),
            ),
        }
    }
}

/// The models of a sequence of values.
pub open spec fn models(s: Seq<Value>) -> Seq<ValueModel> {
    Seq::new(s.len(), |i: int| s[i].model())
}

/// The model of a list, a dictionary or a structure is made of the models
/// of its parts.
pub proof fn lemma_model_parts(v: &Value)
    ensures
        v matches Value::List(items) ==> v.model() == ValueModel::List(models(items@)),
        v matches Value::Dictionary(m) ==> v.model() == ValueModel::Dictionary(m.model()),
        v matches Value::Structure { signature, fields } ==> v.model() == ValueModel::Structure(
            *signature,
            models(fields@),
        ),
{
    match v {
        Value::List(items) => {
            assert(v.model()->List_0 =~= models(items@));
        },
        Value::Dictionary(m) => {
            assert(v.model()->Dictionary_0 =~= m.model());
        },
        Value::Structure { signature, fields } => {
            assert(v.model()->Structure_1 =~= models(fields@));
        },
        _ => {},
    }
}

impl Value {
    /// A copy of the value.
    pub fn deep_clone(&self) -> (c: Value)
        ensures
            c.model() == self.model(),
        decreases self,
    {
        proof {
            lemma_model_parts(self);
        }
        let c = match self {
            Value::Null => Value::Null,
            Value::Bool(b) => Value::Bool(*b),
            Value::I64(i) => Value::I64(*i),
            Value::F64(bits) => Value::F64(*bits),
            Value::String(s) => Value::String(s.clone()),
            Value::Bytes(b) => Value::Bytes(vstd::slice::slice_to_vec(b.as_slice())),
            Value::List(items) => Value::List(clone_values(items)),
            Value::Dictionary(m) => Value::Dictionary(m.deep_clone()),
            Value::Structure { signature, fields } => Value::Structure {
                signature: *signature,
                fields: clone_values(fields),
            },
        };
        proof {
            lemma_model_parts(&c);
        }
        c
    }
}

impl Default for Value {
    /// The null value.
    fn default() -> (v: Self)
        ensures
            v.model() == ValueModel::Null,
    {
        Value::Null
    }
}

/// A copy of the values.
pub fn clone_values(items: &Vec<Value>) -> (c: Vec<Value>)
    ensures
        models(c@) == models(items@),
    decreases items,
{
    let mut c: Vec<Value> = Vec::new();
    let mut i: usize = 0;
    while i < items.len()
        invariant
            i <= items@.len(),
            c@.len() == i,
            forall|j: int| 0 <= j < i ==> #[trigger] c@[j].model() == items@[j].model(),
        decreases items@.len() - i,
    {
        assert(decreases_to!(items => items@[i as int]));
        c.push(items[i].deep_clone());
        i = i + 1;
    }
    assert(models(c@) =~= models(items@));
    c
}

/// Whether no key occurs twice among the entries.
pub open spec fn keys_distinct(entries: Seq<(Seq<char>, ValueModel)>) -> bool {
    forall|i: int, j: int| 0 <= i < j < entries.len() ==> entries[i].0 != entries[j].0
}

/// Whether the key occurs among the entries.
pub open spec fn has_key(entries: Seq<(Seq<char>, ValueModel)>, k: Seq<char>) -> bool {
    exists|i: int| 0 <= i < entries.len() && entries[i].0 == k
}

/// The value of the first entry with key `k`, if any.
pub open spec fn dict_get(entries: Seq<(Seq<char>, ValueModel)>, k: Seq<char>) -> Option<ValueModel>
    decreases entries.len(),
{
    if entries.len() == 0 {
        None
    } else if entries[0].0 == k {
        Some(entries[0].1)
    } else {
        dict_get(entries.drop_first(), k)
    }
}

/// The first entry with key `k` is the one at `i`, or there is none.
proof fn lemma_dict_get(entries: Seq<(Seq<char>, ValueModel)>, k: Seq<char>, i: int)
    requires
        0 <= i <= entries.len(),
        forall|j: int| 0 <= j < i ==> entries[j].0 != k,
    ensures
        i < entries.len() && entries[i].0 == k ==> dict_get(entries, k) == Some(entries[i].1),
        i == entries.len() ==> dict_get(entries, k) is None,
    decreases i,
{
    if i > 0 {
        lemma_dict_get(entries.drop_first(), k, i - 1);
    }
}

/// The entries after inserting `(k, v)`: an existing key keeps its place and
/// takes the new value; a new key is added at the end.
pub open spec fn dict_insert(entries: Seq<(Seq<char>, ValueModel)>, k: Seq<char>, v: ValueModel) -> Seq<
    (Seq<char>, ValueModel),
> {
    if has_key(entries, k) {
        let i = choose|i: int| 0 <= i < entries.len() && entries[i].0 == k;
        entries.update(i, (k, v))
    } else {
        entries.push((k, v))
    }
}

/// Appending an entry leaves the first entries of the keys before it.
proof fn lemma_dict_get_push(
    entries: Seq<(Seq<char>, ValueModel)>,
    k: Seq<char>,
    v: ValueModel,
    k2: Seq<char>,
)
    ensures
        dict_get(entries.push((k, v)), k2) == if dict_get(entries, k2) is Some {
            dict_get(entries, k2)
        } else if k2 == k {
            Some(v)
        } else {
            None::<ValueModel>
        },
    decreases entries.len(),
{
    if entries.len() > 0 {
        assert(entries.push((k, v)).drop_first() =~= entries.drop_first().push((k, v)));
        assert(entries.push((k, v))[0] == entries[0]);
        lemma_dict_get_push(entries.drop_first(), k, v, k2);
        if entries[0].0 == k2 {
            assert(dict_get(entries, k2) == Some(entries[0].1));
            assert(dict_get(entries.push((k, v)), k2) == Some(entries[0].1));
        } else {
            assert(dict_get(entries, k2) == dict_get(entries.drop_first(), k2));
            assert(dict_get(entries.push((k, v)), k2) == dict_get(entries.push((k, v)).drop_first(), k2));
        }
    } else {
        assert(entries.push((k, v)).drop_first() =~= Seq::<(Seq<char>, ValueModel)>::empty());
    }
}

/// Replacing the value of the entry of a key, where keys are distinct,
/// changes what that key gives and nothing else.
proof fn lemma_dict_get_update(
    entries: Seq<(Seq<char>, ValueModel)>,
    i: int,
    v: ValueModel,
    k2: Seq<char>,
)
    requires
        keys_distinct(entries),
        0 <= i < entries.len(),
    ensures
        dict_get(entries.update(i, (entries[i].0, v)), k2) == if k2 == entries[i].0 {
            Some(v)
        } else {
            dict_get(entries, k2)
        },
    decreases entries.len(),
{
    let k = entries[i].0;
    let upd = entries.update(i, (k, v));
    if i > 0 {
        assert(upd.drop_first() =~= entries.drop_first().update(i - 1, (k, v)));
        lemma_dict_get_update(entries.drop_first(), i - 1, v, k2);
    } else {
        assert(upd.drop_first() =~= entries.drop_first());
        if k2 != k {
        } else {
        }
    }
}

/// Law: after inserting `(k, v)` into a dictionary without repeated keys,
/// the key `k` gives `v`, every other key gives what it gave before, and no
/// key is repeated.
pub proof fn lemma_insert_get(
    entries: Seq<(Seq<char>, ValueModel)>,
    k: Seq<char>,
    v: ValueModel,
    k2: Seq<char>,
)
    requires
        keys_distinct(entries),
    ensures
        keys_distinct(dict_insert(entries, k, v)),
        dict_get(dict_insert(entries, k, v), k2) == if k2 == k {
            Some(v)
        } else {
            dict_get(entries, k2)
        },
{
    if has_key(entries, k) {
        let i = choose|i: int| 0 <= i < entries.len() && entries[i].0 == k;
        lemma_dict_get_update(entries, i, v, k2);
    } else {
        lemma_dict_get_push(entries, k, v, k2);
        if dict_get(entries, k) is Some {
            lemma_dict_get_some(entries, k);
        }
        if k2 == k {
            if dict_get(entries, k2) is Some {
                lemma_dict_get_some(entries, k2);
            }
        }
    }
}

/// A key that gives a value occurs among the entries.
proof fn lemma_dict_get_some(entries: Seq<(Seq<char>, ValueModel)>, k: Seq<char>)
    requires
        dict_get(entries, k) is Some,
    ensures
        has_key(entries, k),
    decreases entries.len(),
{
    if entries[0].0 != k {
        lemma_dict_get_some(entries.drop_first(), k);
        let j = choose|j: int| 0 <= j < entries.drop_first().len() && entries.drop_first()[j].0 == k;
        assert(entries[j + 1].0 == k);
    }
}

impl ValueMap {
    /// The entries' model.
    pub open spec fn model(&self) -> Seq<(Seq<char>, ValueModel)> {
        Seq::new(
            self.entries@.len(),
            |i: int| (self.entries@[i].0@, self.entries@[i].1.model()),
        )
    }

    /// The map's invariant: no key occurs twice.
    pub open spec fn wf(&self) -> bool {
        keys_distinct(self.model())
    }

    /// An empty map.
    pub fn new() -> (m: Self)
        ensures
            m.wf(),
            m.model() == Seq::<(Seq<char>, ValueModel)>::empty(),
    {
        let m = ValueMap { entries: Vec::new() };
        assert(m.model() =~= Seq::<(Seq<char>, ValueModel)>::empty());
        m
    }

    /// The number of entries.
    pub fn len(&self) -> (n: usize)
        ensures
            n == self.model().len(),
    {
        self.entries.len()
    }

    /// A copy of the map.
    pub fn deep_clone(&self) -> (c: ValueMap)
        ensures
            c.model() == self.model(),
        decreases self,
    {
        let mut entries: Vec<(String, Value)> = Vec::new();
        let mut i: usize = 0;
        while i < self.entries.len()
            invariant
                i <= self.entries@.len(),
                entries@.len() == i,
                forall|j: int|
                    0 <= j < i ==> #[trigger] entries@[j].0@ == self.entries@[j].0@ && entries@[j].1.model()
                        == self.entries@[j].1.model(),
            decreases self.entries@.len() - i,
        {
            assert(decreases_to!(self => self.entries));
            assert(decreases_to!(self.entries => self.entries@[i as int]));
            assert(decreases_to!(self.entries@[i as int] => self.entries@[i as int].1));
            let e = &self.entries[i];
            entries.push((e.0.clone(), e.1.deep_clone()));
            i = i + 1;
        }
        let c = ValueMap { entries };
        assert(c.model() =~= self.model());
        c
    }

    /// The position of the first entry with the key.
    fn position(&self, key: &String) -> (r: Option<usize>)
        ensures
            r matches Some(i) ==> i < self.model().len() && self.model()[i as int].0 == key@
                && dict_get(self.model(), key@) == Some(self.model()[i as int].1),
            r is None ==> !has_key(self.model(), key@) && dict_get(self.model(), key@) is None,
    {
        let mut i: usize = 0;
        while i < self.entries.len()
            invariant
                i <= self.entries@.len(),
                forall|j: int| 0 <= j < i ==> self.model()[j].0 != key@,
            decreases self.entries@.len() - i,
        {
            if self.entries[i].0 == *key {
                proof {
                    lemma_dict_get(self.model(), key@, i as int);
                }
                return Some(i);
            }
            i = i + 1;
        }
        proof {
            lemma_dict_get(self.model(), key@, i as int);
        }
        None
    }

    /// The value of the first entry with the key, where there is one.
    pub fn get(&self, key: &String) -> (r: Option<&Value>)
        ensures
            match dict_get(self.model(), key@) {
                Some(m) => r matches Some(v) && v.model() == m,
                None => r is None,
            },
    {
        match self.position(key) {
            Some(i) => Some(&self.entries[i].1),
            None => None,
        }
    }

    /// Inserts the entry; gives back the value that the key had, if any.
    pub fn insert(&mut self, key: String, value: Value) -> (r: Option<Value>)
        requires
            old(self).wf(),
        ensures
            final(self).wf(),
            final(self).model() == dict_insert(old(self).model(), key@, value.model()),
            r is Some <==> has_key(old(self).model(), key@),
            match dict_get(old(self).model(), key@) {
                Some(m) => r matches Some(v) && v.model() == m,
                None => r is None,
            },
    {
        let ghost k = key@;
        let ghost vm = value.model();
        match self.position(&key) {
            Some(i) => {
                let old_entry = self.entries.remove(i);
                self.entries.insert(i, (key, value));
                proof {
                    let om = old(self).model();
                    let j = choose|j: int| 0 <= j < om.len() && om[j].0 == k;
                    assert(j == i);
                    assert(self.model() =~= om.update(i as int, (k, vm)));
                }
                Some(old_entry.1)
            },
            None => {
                self.entries.push((key, value));
                assert(self.model() =~= old(self).model().push((k, vm)));
                None
            },
        }
    }
}

} // verus!
