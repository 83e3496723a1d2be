//! Dynamically typed values: what events are read and written as.
use vstd::prelude::*;
use vstd::utf8::encode_utf8;

use crate::keyed::KeyedMap;
use crate::text::{copy_bytes, i64_text, lossy, lossy_text, signed_decimal, text_bytes};
use crate::time::{rfc3339, Timestamp};

verus! {

/// A map from field names to values.
pub type ObjectMap = KeyedMap<Value>;

/// A value. A floating-point number is held as the bits of its IEEE 754 double.
#[derive(Debug, PartialEq)]
pub enum Value {
    Bytes(Vec<u8>),
    Regex(String),
    Integer(i64),
    Float(u64),
    Boolean(bool),
    Timestamp(Timestamp),
    Object(KeyedMap<Value>),
    Array(Vec<Value>),
    Null,
}

/// What a `Value` holds.
pub enum ValueView {
    Bytes(Seq<u8>),
    Regex(Seq<char>),
    Integer(i64),
    Float(u64),
    Boolean(bool),
    Timestamp(Timestamp),
    Object(Seq<(Seq<char>, ValueView)>),
    Array(Seq<ValueView>),
    Null,
}

impl View for Value {
    type V = ValueView;

    open spec fn view(&self) -> ValueView
        decreases self,
    {
        match self {
            Value::Bytes(b) => ValueView::Bytes(b@),
            Value::Regex(s) => ValueView::Regex(s@),
            Value::Integer(i) => ValueView::Integer(*i),
            Value::Float(f) => ValueView::Float(*f),
            Value::Boolean(b) => ValueView::Boolean(*b),
            Value::Timestamp(t) => ValueView::Timestamp(*t),
            Value::Object(m) => ValueView::Object(
                Seq::new(
                    m.entries@.len(),
                    |i: int|
                        if 0 <= i < m.entries@.len() {
                            (m.entries@[i].0@, m.entries@[i].1@)
                        } else {
                            arbitrary()
                        },
                ),
            ),
            Value::Array(a) => ValueView::Array(
                Seq::new(
                    a@.len(),
                    |i: int|
                        if 0 <= i < a@.len() {
                            a@[i]@
                        } else {
                            arbitrary()
                        },
                ),
            ),
            Value::Null => ValueView::Null,
        }
    }
}

/// An object's entries are those of its map.
pub proof fn lemma_object_view(m: KeyedMap<Value>)
    ensures
        Value::Object(m)@ == ValueView::Object(m@),
{
    reveal_with_fuel(<Value as View>::view, 2);
    assert(Value::Object(m)@->Object_0 =~= m@);
}

/// An array's items are those of its vector.
pub open spec fn array_view(a: Seq<Value>) -> Seq<ValueView> {
    Seq::new(a.len(), |i: int| a[i]@)
}

pub proof fn lemma_array_view(a: Vec<Value>)
    ensures
        Value::Array(a)@ == ValueView::Array(array_view(a@)),
{
    reveal_with_fuel(<Value as View>::view, 2);
    assert(Value::Array(a)@->Array_0 =~= array_view(a@));
}

pub proof fn lemma_field_decreases(v: Value, m: KeyedMap<Value>, i: int)
    requires
        v == Value::Object(m),
        0 <= i < m.entries@.len(),
    ensures
        decreases_to!(v => m.entries@[i].1),
{
    assert(decreases_to!(v => v->Object_0));
    assert(decreases_to!(m => m.entries));
    assert(decreases_to!(m.entries => m.entries@));
    assert(decreases_to!(m.entries@ => m.entries@[i]));
    assert(decreases_to!(m.entries@[i] => m.entries@[i].1));
}

pub proof fn lemma_item_decreases(v: Value, a: Vec<Value>, i: int)
    requires
        v == Value::Array(a),
        0 <= i < a@.len(),
    ensures
        decreases_to!(v => a@[i]),
{
    assert(decreases_to!(v => v->Array_0));
    assert(decreases_to!(a => a@));
    assert(decreases_to!(a@ => a@[i]));
}

impl Clone for Value {
    fn clone(&self) -> (r: Self)
        ensures
            r@ == self@,
        decreases self,
    {
        match self {
            Value::Bytes(b) => Value::Bytes(copy_bytes(b)),
            Value::Regex(s) => Value::Regex(s.clone()),
            Value::Integer(i) => Value::Integer(*i),
            Value::Float(f) => Value::Float(*f),
            Value::Boolean(b) => Value::Boolean(*b),
            Value::Timestamp(t) => Value::Timestamp(*t),
            Value::Object(m) => {
                let mut entries: Vec<(String, Value)> = Vec::new();
                let mut i: usize = 0;
                while i < m.entries.len()
                    invariant
                        i <= m.entries@.len(),
                        entries@.len() == i,
                        self == Value::Object(*m),
                        forall|j: int|
                            0 <= j < i ==> (#[trigger] entries@[j]).0@ == m.entries@[j].0@
                                && entries@[j].1@ == m.entries@[j].1@,
                    decreases m.entries@.len() - i,
                {
                    proof {
                        lemma_field_decreases(*self, *m, i as int);
                    }
                    let v = m.entries[i].1.clone();
                    entries.push((m.entries[i].0.clone(), v));
                    i = i + 1;
                }
                let c = KeyedMap { entries };
                proof {
                    lemma_object_view(*m);
                    lemma_object_view(c);
                    assert(c@ =~= m@);
                }
                Value::Object(c)
            },
            Value::Array(a) => {
                let mut items: Vec<Value> = Vec::new();
                let mut i: usize = 0;
                while i < a.len()
                    invariant
                        i <= a@.len(),
                        items@.len() == i,
                        self == Value::Array(*a),
                        forall|j: int| 0 <= j < i ==> (#[trigger] items@[j])@ == a@[j]@,
                    decreases a@.len() - i,
                {
                    proof {
                        lemma_item_decreases(*self, *a, i as int);
                    }
                    let v = a[i].clone();
                    items.push(v);
                    i = i + 1;
                }
                proof {
                    lemma_array_view(*a);
                    lemma_array_view(items);
                    assert(array_view(items@) =~= array_view(a@));
                }
                Value::Array(items)
            },
            Value::Null => Value::Null,
        }
    }
}

impl Clone for KeyedMap<Value> {
    fn clone(&self) -> (r: Self)
        ensures
            r@ == self@,
    {
        let mut entries: Vec<(String, Value)> = Vec::new();
        let mut i: usize = 0;
        while i < self.entries.len()
            invariant
                i <= self.entries@.len(),
                entries@.len() == i,
                forall|j: int|
                    0 <= j < i ==> (#[trigger] entries@[j]).0@ == self.entries@[j].0@
                        && entries@[j].1@ == self.entries@[j].1@,
            decreases self.entries@.len() - i,
        {
            entries.push((self.entries[i].0.clone(), self.entries[i].1.clone()));
            i = i + 1;
        }
        let r = KeyedMap { entries };
        assert(r@ =~= self@);
        r
    }
}

impl ValueView {
    /// The text as a value.
    pub open spec fn text(s: Seq<char>) -> ValueView {
        ValueView::Bytes(encode_utf8(s))
    }

    pub open spec fn integer(&self) -> Option<i64> {
        match self {
            ValueView::Integer(i) => Some(*i),
            _ => None,
        }
    }

    /// An object with no fields.
    pub open spec fn empty_object() -> ValueView {
        ValueView::Object(Seq::empty())
    }

    /// The text that a value is shown as. Of a number with a fraction, an object and an array it is
    /// the one given as `rendered`.
    pub open spec fn shown(self, rendered: Seq<char>) -> Seq<char> {
        match self {
            ValueView::Bytes(b) => lossy(b),
            ValueView::Regex(s) => s,
            ValueView::Integer(i) => signed_decimal(i as int),
            ValueView::Boolean(b) => if b {
                "true"@
            } else {
                "false"@
            },
            ValueView::Timestamp(t) => rfc3339(t.spec_secs(), t.spec_nanos()),
            ValueView::Null => "<null>"@,
            _ => rendered,
        }
    }

    /// The value after another one was merged into it: byte strings are concatenated, anything
    /// else is replaced.
    pub open spec fn merged(self, incoming: ValueView) -> ValueView {
        match (self, incoming) {
            (ValueView::Bytes(a), ValueView::Bytes(b)) => ValueView::Bytes(a + b),
            _ => incoming,
        }
    }
}

impl Value {
    /// The text as a value.
    pub fn from_text(s: &str) -> (r: Value)
        ensures
            r@ == ValueView::text(s@),
    {
        Value::Bytes(text_bytes(s))
    }

    /// An object with no fields.
    pub fn new_object() -> (r: Value)
        ensures
            r@ == ValueView::empty_object(),
    {
        let m = KeyedMap::<Value>::new();
        proof {
            lemma_object_view(m);
        }
        Value::Object(m)
    }

    pub fn as_integer(&self) -> (r: Option<i64>)
        ensures
            r == self@.integer(),
    {
        match self {
            Value::Integer(i) => Some(*i),
            _ => None,
        }
    }

    /// The text that this value is shown as. Of a number with a fraction, an object and an array it
    /// is the one given as `rendered`.
    pub fn to_string_lossy(&self, rendered: &str) -> (r: String)
        ensures
            r@ == self@.shown(rendered@),
    {
        match self {
            Value::Bytes(b) => lossy_text(b.as_slice()),
            Value::Regex(s) => s.clone(),
            Value::Integer(i) => i64_text(*i),
            Value::Boolean(b) => if *b {
                "true".to_owned()
            } else {
                "false".to_owned()
            },
            Value::Timestamp(t) => t.to_rfc3339(),
            Value::Null => "<null>".to_owned(),
            _ => rendered.to_owned(),
        }
    }

    /// Merges `incoming` into this value: byte strings are concatenated, anything else is replaced.
    pub fn merge(&mut self, incoming: Value)
        ensures
            final(self)@ == old(self)@.merged(incoming@),
    {
        match (self, incoming) {
            (Value::Bytes(a), Value::Bytes(b)) => {
                let mut b = b;
                a.append(&mut b);
            },
            (current, incoming) => {
                *current = incoming;
            },
        }
    }
}

} // verus!
