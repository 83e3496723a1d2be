//! Attributes by name.
use vstd::prelude::*;
use vstd::std_specs::iter::IteratorSpec;

use crate::any_value::{
    any_from_value, any_value_to_vrl, kvs_view, lemma_any_array_view, value_from_any, values_view,
    vrl_value_to_any_value, AnyValue, AnyView, ArrayValue, KeyValue, OtelValueKind,
};
use crate::keyed::{
    holds_key, lemma_slot_of, lemma_slot_of_is, opt_view, ordered, slot_of, value_of, with_entry,
    without_entry, KeyedMap,
};
use crate::text::{lemma_text_before_irreflexive, lemma_text_before_transitive, text_before};
use crate::value::{Value, ValueView};

verus! {

/// Attributes by name, in the order of the names.
pub type AttrsView = Seq<(Seq<char>, AnyView)>;

/// Attributes by name.
#[derive(Debug, PartialEq)]
pub struct OtelAttributes {
    pub inner: KeyedMap<AnyValue>,
}

impl View for OtelAttributes {
    type V = Seq<(Seq<char>, AnyView)>;

    open spec fn view(&self) -> Seq<(Seq<char>, AnyView)> {
        self.inner@
    }
}

/// A missing value is an empty one.
pub open spec fn or_empty(v: Option<AnyView>) -> AnyView {
    match v {
        Some(a) => a,
        None => AnyView::Empty,
    }
}

/// What an attribute holds after a further value was given under its name: the values are gathered
/// in an array.
pub open spec fn gathered(existing: Option<AnyView>, value: AnyView) -> AnyView {
    match existing {
        None => value,
        Some(AnyView::Array(items)) => AnyView::Array(items.push(value)),
        Some(first) => AnyView::Array(seq![first, value]),
    }
}

/// The attributes that a list of named ones stands for. Values under the same name are gathered in
/// an array.
pub open spec fn attrs_from_kvs(kvs: Seq<(Seq<char>, Option<AnyView>)>) -> Seq<(Seq<char>, AnyView)>
    decreases kvs.len(),
{
    if kvs.len() == 0 {
        Seq::empty()
    } else {
        let before = attrs_from_kvs(kvs.drop_last());
        let (key, value) = kvs.last();
        with_entry(before, key, gathered(value_of(before, key), or_empty(value)))
    }
}

/// The list of named attributes: an empty value is left out.
pub open spec fn kvs_from_attrs(attrs: Seq<(Seq<char>, AnyView)>) -> Seq<
    (Seq<char>, Option<AnyView>),
> {
    Seq::new(
        attrs.len(),
        |i: int|
            (
                attrs[i].0,
                if attrs[i].1 is Empty {
                    None
                } else {
                    Some(attrs[i].1)
                },
            ),
    )
}

/// The attributes as which the fields of an object are stored.
pub open spec fn attrs_from_object(m: Seq<(Seq<char>, ValueView)>) -> Seq<(Seq<char>, AnyView)> {
    Seq::new(m.len(), |i: int| (m[i].0, any_from_value(m[i].1)))
}

/// The object as which attributes are read.
pub open spec fn object_from_attrs(attrs: Seq<(Seq<char>, AnyView)>) -> Seq<
    (Seq<char>, ValueView),
> {
    Seq::new(attrs.len(), |i: int| (attrs[i].0, value_from_any(attrs[i].1)))
}

/// The attributes after others were written over them, one by one.
pub open spec fn attrs_overlaid(
    attrs: Seq<(Seq<char>, AnyView)>,
    over: Seq<(Seq<char>, AnyView)>,
) -> Seq<(Seq<char>, AnyView)>
    decreases over.len(),
{
    if over.len() == 0 {
        attrs
    } else {
        with_entry(attrs_overlaid(attrs, over.drop_last()), over.last().0, over.last().1)
    }
}

/// Named attributes with their missing values made empty.
pub open spec fn filled(kvs: Seq<(Seq<char>, Option<AnyView>)>) -> Seq<(Seq<char>, AnyView)> {
    Seq::new(kvs.len(), |i: int| (kvs[i].0, or_empty(kvs[i].1)))
}

impl Default for OtelAttributes {
    fn default() -> (r: Self)
        ensures
            r@ == Seq::<(Seq<char>, AnyView)>::empty(),
    {
        OtelAttributes::new()
    }
}

impl Clone for OtelAttributes {
    fn clone(&self) -> (r: Self)
        ensures
            r@ == self@,
    {
        let mut entries: Vec<(String, AnyValue)> = Vec::new();
        let mut i: usize = 0;
        while i < self.inner.entries.len()
            invariant
                i <= self.inner.entries@.len(),
                entries@.len() == i,
                forall|j: int|
                    0 <= j < i ==> (#[trigger] entries@[j]).0@ == self.inner.entries@[j].0@
                        && entries@[j].1@ == self.inner.entries@[j].1@,
            decreases self.inner.entries@.len() - i,
        {
            entries.push((self.inner.entries[i].0.clone(), self.inner.entries[i].1.clone()));
            i = i + 1;
        }
        let r = OtelAttributes { inner: KeyedMap { entries } };
        assert(r@ =~= self@);
        r
    }
}

impl OtelAttributes {
    /// The names stand in strictly ascending order, so that none occurs twice.
    pub open spec fn wf(&self) -> bool {
        ordered(self@)
    }

    pub fn new() -> (r: Self)
        ensures
            r@ == Seq::<(Seq<char>, AnyView)>::empty(),
            r.wf(),
    {
        OtelAttributes { inner: KeyedMap::new() }
    }

    pub fn get(&self, key: &str) -> (r: Option<&AnyValue>)
        ensures
            match r {
                Some(v) => value_of(self@, key@) == Some(v@),
                None => value_of(self@, key@) is None,
            },
    {
        self.inner.get(key)
    }

    /// Sets an attribute and returns its value before.
    pub fn insert(&mut self, key: String, value: AnyValue) -> (r: Option<AnyValue>)
        ensures
            final(self)@ == with_entry(old(self)@, key@, value@),
            opt_view(r) == value_of(old(self)@, key@),
            old(self).wf() ==> final(self).wf(),
    {
        self.inner.insert(key, value)
    }

    /// Removes an attribute and returns its value.
    pub fn remove(&mut self, key: &str) -> (r: Option<AnyValue>)
        ensures
            final(self)@ == without_entry(old(self)@, key@),
            opt_view(r) == value_of(old(self)@, key@),
            old(self).wf() ==> final(self).wf(),
    {
        self.inner.remove(key)
    }

    pub fn is_empty(&self) -> (r: bool)
        ensures
            r == (self@.len() == 0),
    {
        self.inner.is_empty()
    }

    pub fn len(&self) -> (r: usize)
        ensures
            r == self@.len(),
    {
        self.inner.len()
    }

    /// The attributes with their names, in order.
    pub fn iter(&self) -> (r: std::slice::Iter<'_, (String, AnyValue)>)
        ensures
            r.remaining() == self.inner.entries@.as_ref(),
    {
        broadcast use vstd::std_specs::slice::axiom_spec_slice_iter;
        self.inner.entries.as_slice().iter()
    }

    /// The names, in order.
    pub fn keys(&self) -> (r: Vec<&String>)
        ensures
            r@.len() == self@.len(),
            forall|i: int| 0 <= i < r@.len() ==> (#[trigger] r@[i])@ == self@[i].0,
    {
        let mut r: Vec<&String> = Vec::new();
        let mut i: usize = 0;
        while i < self.inner.entries.len()
            invariant
                i <= self.inner.entries@.len(),
                r@.len() == i,
                forall|j: int| 0 <= j < i ==> (#[trigger] r@[j])@ == self@[j].0,
            decreases self.inner.entries@.len() - i,
        {
            r.push(&self.inner.entries[i].0);
            i = i + 1;
        }
        r
    }

    /// The attributes that a list of named ones stands for. Values under the same name are gathered
    /// in an array.
    pub fn from_key_values(kvs: Vec<KeyValue>) -> (r: Self)
        ensures
            r@ == attrs_from_kvs(kvs_view(kvs@)),
            r.wf(),
    {
        let mut attrs = OtelAttributes::new();
        let ghost all = kvs_view(kvs@);
        assert(all.take(0) =~= Seq::empty());
        for kv in it: kvs
            invariant
                all == kvs_view(kvs@),
                it.seq() == kvs@,
                attrs@ == attrs_from_kvs(all.take(it.index() as int)),
                attrs.wf(),
        {
            let ghost i = it.index() as int;
            assert(all.take(i + 1).drop_last() =~= all.take(i));
            assert(all.take(i + 1).last() == kv@);
            attrs.gather(kv);
        }
        assert(all.take(all.len() as int) =~= all);
        attrs
    }

    /// Gives a further value under a name.
    fn gather(&mut self, kv: KeyValue)
        requires
            old(self).wf(),
        ensures
            final(self)@ == with_entry(
                old(self)@,
                kv@.0,
                gathered(value_of(old(self)@, kv@.0), or_empty(kv@.1)),
            ),
            final(self).wf(),
    {
        let ghost before = self@;
        let val = match kv.value {
            Some(v) => v,
            None => AnyValue::empty(),
        };
        let new = match self.inner.remove(kv.key.as_str()) {
            None => val,
            Some(existing) => match existing.value {
                Some(OtelValueKind::ArrayValue(arr)) => {
                    let ghost items = values_view(arr.values@);
                    let ghost v = val@;
                    proof {
                        lemma_any_array_view(arr);
                    }
                    let mut arr = arr;
                    arr.values.push(val);
                    proof {
                        lemma_any_array_view(arr);
                        assert(values_view(arr.values@) =~= items.push(v));
                    }
                    AnyValue { value: Some(OtelValueKind::ArrayValue(arr)) }
                },
                other => {
                    let first = AnyValue { value: other };
                    let ghost pair = seq![first@, val@];
                    let arr = ArrayValue { values: vec![first, val] };
                    proof {
                        lemma_any_array_view(arr);
                        assert(values_view(arr.values@) =~= pair);
                    }
                    AnyValue { value: Some(OtelValueKind::ArrayValue(arr)) }
                },
            },
        };
        proof {
            lemma_put_back(before, kv.key@, new@);
        }
        self.inner.insert(kv.key, new);
    }

    /// The list of named attributes: an empty value is left out.
    pub fn to_key_values(&self) -> (r: Vec<KeyValue>)
        ensures
            kvs_view(r@) == kvs_from_attrs(self@),
    {
        let mut r: Vec<KeyValue> = Vec::new();
        let mut i: usize = 0;
        while i < self.inner.entries.len()
            invariant
                i <= self.inner.entries@.len(),
                r@.len() == i,
                forall|j: int| 0 <= j < i ==> (#[trigger] r@[j])@ == kvs_from_attrs(self@)[j],
            decreases self.inner.entries@.len() - i,
        {
            let v = &self.inner.entries[i].1;
            let value = if v.value.is_none() {
                None
            } else {
                Some(v.clone())
            };
            assert(v@ is Empty == v.value is None);
            r.push(KeyValue { key: self.inner.entries[i].0.clone(), value });
            i = i + 1;
        }
        assert(kvs_view(r@) =~= kvs_from_attrs(self@));
        r
    }

    /// The attributes as which the fields of an object are stored.
    pub fn from_object_map(map: &KeyedMap<Value>) -> (r: Self)
        ensures
            r@ == attrs_from_object(map@),
            map.wf() ==> r.wf(),
    {
        let mut entries: Vec<(String, AnyValue)> = Vec::new();
        let mut i: usize = 0;
        while i < map.entries.len()
            invariant
                i <= map.entries@.len(),
                entries@.len() == i,
                forall|j: int|
                    0 <= j < i ==> (#[trigger] entries@[j]).0@ == map@[j].0 && entries@[j].1@
                        == any_from_value(map@[j].1),
            decreases map.entries@.len() - i,
        {
            entries.push((map.entries[i].0.clone(), vrl_value_to_any_value(&map.entries[i].1)));
            i = i + 1;
        }
        let r = OtelAttributes { inner: KeyedMap { entries } };
        assert(r@ =~= attrs_from_object(map@));
        r
    }

    /// The object as which the attributes are read.
    pub fn to_object_map(&self) -> (r: KeyedMap<Value>)
        ensures
            r@ == object_from_attrs(self@),
            self.wf() ==> r.wf(),
    {
        let mut entries: Vec<(String, Value)> = Vec::new();
        let mut i: usize = 0;
        while i < self.inner.entries.len()
            invariant
                i <= self.inner.entries@.len(),
                entries@.len() == i,
                forall|j: int|
                    0 <= j < i ==> (#[trigger] entries@[j]).0@ == self@[j].0 && entries@[j].1@
                        == value_from_any(self@[j].1),
            decreases self.inner.entries@.len() - i,
        {
            entries.push(
                (self.inner.entries[i].0.clone(), any_value_to_vrl(&self.inner.entries[i].1)),
            );
            i = i + 1;
        }
        let r = KeyedMap { entries };
        assert(r@ =~= object_from_attrs(self@));
        r
    }
}

/// Taking an entry out and putting one in for the same key is to replace it.
pub proof fn lemma_put_back<V>(s: Seq<(Seq<char>, V)>, key: Seq<char>, v: V)
    requires
        ordered(s),
    ensures
        with_entry(without_entry(s, key), key, v) == with_entry(s, key, v),
{
    lemma_slot_of(s, key);
    let p = slot_of(s, key);
    let t = without_entry(s, key);
    if holds_key(s, key) {
        assert forall|i: int| 0 <= i < p implies text_before(#[trigger] t[i].0, key) by {
            assert(t[i] == s[i]);
        }
        if p < t.len() {
            assert(t[p] == s[p + 1]);
            assert(text_before(s[p].0, s[p + 1].0));
            if text_before(t[p].0, key) {
                lemma_text_before_transitive(key, t[p].0, key);
                lemma_text_before_irreflexive(key);
            }
            if t[p].0 == key {
                lemma_text_before_irreflexive(key);
            }
        }
        lemma_slot_of_is(t, key, p);
        assert(t.insert(p, (key, v)) =~= s.update(p, (key, v)));
    }
}

} // verus!
