//! The value model: the tagged generic value type used to build log entries,
//! mirroring the ICRC-3 generic value (blobs, text, integers, arrays and
//! ordered string-keyed maps); pure data, no behavior.

use vstd::prelude::*;

verus! {

/// One entry of a map value: a string key and the value under it.
pub struct Entry {
    pub key: String,
    pub val: Value,
}

/// The tagged generic value type.
pub enum Value {
    Blob(Vec<u8>),
    Text(String),
    Nat(u128),
    Nat64(u64),
    Int(i128),
    Array(Vec<Value>),
    Dict(Vec<Entry>),
}

/// The mathematical model of an `Entry`.
pub struct EntryV {
    pub key: Seq<char>,
    pub val: ValueV,
}

/// The mathematical model of a `Value`: sequences in place of vectors.
pub enum ValueV {
    Blob(Seq<u8>),
    Text(Seq<char>),
    Nat(u128),
    Nat64(u64),
    Int(i128),
    Array(Seq<ValueV>),
    Dict(Seq<EntryV>),
}

pub open spec fn view_value(v: Value) -> ValueV
    decreases v,
{
    match v {
        Value::Blob(b) => ValueV::Blob(b@),
        Value::Text(t) => ValueV::Text(t@),
        Value::Nat(n) => ValueV::Nat(n),
        Value::Nat64(n) => ValueV::Nat64(n),
        Value::Int(i) => ValueV::Int(i),
        Value::Array(a) => ValueV::Array(view_values(a@)),
        Value::Dict(m) => ValueV::Dict(view_entries(m@)),
    }
}

pub open spec fn view_values(s: Seq<Value>) -> Seq<ValueV>
    decreases s,
{
    if s.len() == 0 {
        Seq::empty()
    } else {
        seq![view_value(s.first())] + view_values(s.drop_first())
    }
}

pub open spec fn view_entries(s: Seq<Entry>) -> Seq<EntryV>
    decreases s,
{
    if s.len() == 0 {
        Seq::empty()
    } else {
        seq![EntryV { key: s.first().key@, val: view_value(s.first().val) }]
            + view_entries(s.drop_first())
    }
}

/// The model of a value sequence is the pointwise model of its elements.
pub proof fn lemma_view_values(s: Seq<Value>)
    ensures
        view_values(s).len() == s.len(),
        forall|i: int| 0 <= i < s.len() ==> view_values(s)[i] == view_value(s[i]),
    decreases s,
{
    if s.len() > 0 {
        lemma_view_values(s.drop_first());
        assert forall|i: int| 0 <= i < s.len() implies view_values(s)[i] == view_value(s[i]) by {
            if i > 0 {
                assert(s.drop_first()[i - 1] == s[i]);
            }
        }
    }
}

/// The model of an entry sequence is the pointwise model of its entries.
pub proof fn lemma_view_entries(s: Seq<Entry>)
    ensures
        view_entries(s).len() == s.len(),
        forall|i: int| 0 <= i < s.len() ==> view_entries(s)[i] == (EntryV {
            key: s[i].key@,
            val: view_value(s[i].val),
        }),
    decreases s,
{
    if s.len() > 0 {
        lemma_view_entries(s.drop_first());
        assert forall|i: int| 0 <= i < s.len() implies view_entries(s)[i] == (EntryV {
            key: s[i].key@,
            val: view_value(s[i].val),
        }) by {
            if i > 0 {
                assert(s.drop_first()[i - 1] == s[i]);
            }
        }
    }
}

/// Appending an entry extends the model by that entry's model.
pub proof fn lemma_view_entries_push(s: Seq<Entry>, e: Entry)
    ensures
        view_entries(s.push(e)) == view_entries(s) + seq![
            EntryV { key: e.key@, val: view_value(e.val) },
        ],
{
    lemma_view_entries(s.push(e));
    lemma_view_entries(s);
    assert forall|i: int| 0 <= i < s.len() + 1 implies view_entries(s.push(e))[i] == (view_entries(
        s,
    ) + seq![EntryV { key: e.key@, val: view_value(e.val) }])[i] by {
        if i < s.len() {
            assert(s.push(e)[i] == s[i]);
        } else {
            assert(s.push(e)[i] == e);
        }
    }
    assert(view_entries(s.push(e)) =~= view_entries(s) + seq![
        EntryV { key: e.key@, val: view_value(e.val) },
    ]);
}

impl View for Value {
    type V = ValueV;

    open spec fn view(&self) -> ValueV {
        view_value(*self)
    }
}

impl View for Entry {
    type V = EntryV;

    open spec fn view(&self) -> EntryV {
        EntryV { key: self.key@, val: self.val@ }
    }
}

/// Copies a byte vector; the copy has the same contents.
pub fn copy_bytes(v: &Vec<u8>) -> (r: Vec<u8>)
    ensures
        r@ == v@,
{
    let mut r: Vec<u8> = Vec::new();
    let mut i: usize = 0;
    while i < v.len()
        invariant
            i <= v.len(),
            r@ == v@.subrange(0, i as int),
        decreases v.len() - i,
    {
        r.push(v[i]);
        i = i + 1;
    }
    assert(r@ == v@);
    r
}

impl Clone for Value {
    /// The copy models the same value.
    fn clone(&self) -> (res: Self)
        ensures
            res@ == self@,
        decreases *self,
    {
        match self {
            Value::Blob(b) => Value::Blob(copy_bytes(b)),
            Value::Text(t) => Value::Text(t.clone()),
            Value::Nat(n) => Value::Nat(*n),
            Value::Nat64(n) => Value::Nat64(*n),
            Value::Int(i) => Value::Int(*i),
            Value::Array(a) => {
                let mut r: Vec<Value> = Vec::new();
                let mut i: usize = 0;
                while i < a.len()
                    invariant
                        *self == Value::Array(*a),
                        i <= a.len(),
                        r@.len() == i,
                        forall|j: int| 0 <= j < i ==> r@[j]@ == a@[j]@,
                    decreases a.len() - i,
                {
                    proof {
                        assert(decreases_to!(*self => self->Array_0));
                        assert(self->Array_0 == *a);
                        assert(decreases_to!(*a => a@));
                        assert(decreases_to!(a@ => a@[i as int]));
                    }
                    r.push(a[i].clone());
                    i = i + 1;
                }
                let out = Value::Array(r);
                proof {
                    lemma_view_values(r@);
                    lemma_view_values(a@);
                    assert(view_values(r@) =~= view_values(a@));
                }
                out
            },
            Value::Dict(m) => {
                let mut r: Vec<Entry> = Vec::new();
                let mut i: usize = 0;
                while i < m.len()
                    invariant
                        *self == Value::Dict(*m),
                        i <= m.len(),
                        r@.len() == i,
                        forall|j: int| 0 <= j < i ==> r@[j]@ == m@[j]@,
                    decreases m.len() - i,
                {
                    proof {
                        assert(decreases_to!(*self => self->Dict_0));
                        assert(self->Dict_0 == *m);
                        assert(decreases_to!(*m => m@));
                        assert(decreases_to!(m@ => m@[i as int]));
                        assert(decreases_to!(m@[i as int] => m@[i as int].val));
                    }
                    r.push(Entry { key: m[i].key.clone(), val: m[i].val.clone() });
                    i = i + 1;
                }
                let out = Value::Dict(r);
                proof {
                    lemma_view_entries(r@);
                    lemma_view_entries(m@);
                    assert(view_entries(r@) =~= view_entries(m@));
                }
                out
            },
        }
    }
}

/// Copies a vector of entries; the copy has the same model.
pub fn copy_entries(v: &Vec<Entry>) -> (r: Vec<Entry>)
    ensures
        view_entries(r@) == view_entries(v@),
{
    let mut r: Vec<Entry> = Vec::new();
    let mut i: usize = 0;
    while i < v.len()
        invariant
            i <= v.len(),
            r@.len() == i,
            forall|j: int| 0 <= j < i ==> r@[j]@ == v@[j]@,
        decreases v.len() - i,
    {
        r.push(v[i].clone());
        i = i + 1;
    }
    proof {
        lemma_view_entries(r@);
        lemma_view_entries(v@);
        assert(view_entries(r@) =~= view_entries(v@));
    }
    r
}

impl Clone for Entry {
    /// The copy models the same entry.
    fn clone(&self) -> (res: Self)
        ensures
            res@ == self@,
    {
        Entry { key: self.key.clone(), val: self.val.clone() }
    }
}

} // verus!
