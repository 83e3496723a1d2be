//! Maps from text to values, kept as entries in the order of their keys.
use vstd::prelude::*;

use crate::text::{
    lemma_text_before_total, lemma_text_before_transitive, str_before, str_eq, text_before,
};

verus! {

/// The entries of a map: its keys and values, in order.
pub type Entries<V> = Seq<(Seq<char>, V)>;

/// The index of the first entry whose key does not stand before `key`, or the number of entries.
pub open spec fn slot_of<V>(s: Seq<(Seq<char>, V)>, key: Seq<char>) -> int
    decreases s.len(),
{
    if s.len() == 0 || !text_before(s[0].0, key) {
        0
    } else {
        1 + slot_of(s.drop_first(), key)
    }
}

/// Whether there is an entry for `key`.
pub open spec fn holds_key<V>(s: Seq<(Seq<char>, V)>, key: Seq<char>) -> bool {
    let p = slot_of(s, key);
    p < s.len() && s[p].0 == key
}

/// The value that `key` maps to.
pub open spec fn value_of<V>(s: Seq<(Seq<char>, V)>, key: Seq<char>) -> Option<V> {
    if holds_key(s, key) {
        Some(s[slot_of(s, key)].1)
    } else {
        None
    }
}

/// The entries after `key` was mapped to `value`.
pub open spec fn with_entry<V>(s: Seq<(Seq<char>, V)>, key: Seq<char>, value: V) -> Seq<
    (Seq<char>, V),
> {
    let p = slot_of(s, key);
    if holds_key(s, key) {
        s.update(p, (key, value))
    } else {
        s.insert(p, (key, value))
    }
}

/// The entries after the entry for `key`, if any, was taken out.
pub open spec fn without_entry<V>(s: Seq<(Seq<char>, V)>, key: Seq<char>) -> Seq<(Seq<char>, V)> {
    if holds_key(s, key) {
        s.remove(slot_of(s, key))
    } else {
        s
    }
}

/// Whether the keys stand in strictly ascending order.
pub open spec fn ordered<V>(s: Seq<(Seq<char>, V)>) -> bool {
    forall|i: int, j: int| 0 <= i < j < s.len() ==> text_before(#[trigger] s[i].0, #[trigger] s[j].0)
}

pub proof fn lemma_slot_of<V>(s: Seq<(Seq<char>, V)>, key: Seq<char>)
    ensures
        0 <= slot_of(s, key) <= s.len(),
        forall|i: int| 0 <= i < slot_of(s, key) ==> text_before(#[trigger] s[i].0, key),
        slot_of(s, key) < s.len() ==> !text_before(s[slot_of(s, key)].0, key),
    decreases s.len(),
{
    if s.len() == 0 || !text_before(s[0].0, key) {
    } else {
        let t = s.drop_first();
        lemma_slot_of(t, key);
        assert forall|i: int| 0 <= i < slot_of(s, key) implies text_before(
            #[trigger] s[i].0,
            key,
        ) by {
            if i > 0 {
                assert(t[i - 1].0 == s[i].0);
            }
        }
    }
}

pub proof fn lemma_slot_of_is<V>(s: Seq<(Seq<char>, V)>, key: Seq<char>, p: int)
    requires
        0 <= p <= s.len(),
        forall|i: int| 0 <= i < p ==> text_before(#[trigger] s[i].0, key),
        p < s.len() ==> !text_before(s[p].0, key),
    ensures
        slot_of(s, key) == p,
{
    lemma_slot_of(s, key);
    let q = slot_of(s, key);
    if q < p {
        assert(text_before(s[q].0, key));
    } else if p < q {
        assert(text_before(s[p].0, key));
    }
}

/// A map from text to values of type `V`.
#[derive(Debug, PartialEq)]
pub struct KeyedMap<V> {
    pub entries: Vec<(String, V)>,
}

impl<V: View> View for KeyedMap<V> {
    type V = Seq<(Seq<char>, V::V)>;

    open spec fn view(&self) -> Seq<(Seq<char>, V::V)> {
        Seq::new(self.entries@.len(), |i: int| (self.entries@[i].0@, self.entries@[i].1@))
    }
}

/// The value behind an optional value.
pub open spec fn opt_view<V: View>(o: Option<V>) -> Option<V::V> {
    match o {
        Some(v) => Some(v@),
        None => None,
    }
}

/// The views of the items of a list.
pub open spec fn views<V: View>(s: Seq<V>) -> Seq<V::V> {
    Seq::new(s.len(), |i: int| s[i]@)
}

impl<V: View> KeyedMap<V> {
    /// The keys stand in strictly ascending order, so that none occurs twice.
    pub open spec fn wf(&self) -> bool {
        ordered(self@)
    }

    pub fn new() -> (r: Self)
        ensures
            r@ == Seq::<(Seq<char>, V::V)>::empty(),
            r.wf(),
    {
        let r = KeyedMap { entries: Vec::new() };
        assert(r@ =~= Seq::<(Seq<char>, V::V)>::empty());
        r
    }

    fn slot(&self, key: &str) -> (p: usize)
        ensures
            p == slot_of(self@, key@),
            p <= self.entries@.len(),
    {
        let mut p: usize = 0;
        while p < self.entries.len() && str_before(self.entries[p].0.as_str(), key)
            invariant
                p <= self.entries@.len(),
                forall|i: int| 0 <= i < p ==> text_before(#[trigger] self@[i].0, key@),
            ensures
                p <= self.entries@.len(),
                forall|i: int| 0 <= i < p ==> text_before(#[trigger] self@[i].0, key@),
                p < self.entries@.len() ==> !text_before(self@[p as int].0, key@),
            decreases self.entries@.len() - p,
        {
            p = p + 1;
        }
        proof {
            lemma_slot_of_is(self@, key@, p as int);
        }
        p
    }

    /// The value that `key` maps to.
    pub fn get(&self, key: &str) -> (r: Option<&V>)
        ensures
            match r {
                Some(v) => value_of(self@, key@) == Some(v@) && 0 <= slot_of(self@, key@)
                    < self.entries@.len() && *v == self.entries@[slot_of(self@, key@)].1,
                None => value_of(self@, key@) is None,
            },
    {
        let p = self.slot(key);
        if p < self.entries.len() && str_eq(self.entries[p].0.as_str(), key) {
            Some(&self.entries[p].1)
        } else {
            None
        }
    }

    /// The value that `key` maps to, for change.
    pub fn get_mut(&mut self, key: &str) -> (r: Option<&mut V>)
        ensures
            match r {
                Some(v) => value_of(old(self)@, key@) == Some((*v)@) && final(self)@ == with_entry(
                    old(self)@,
                    key@,
                    (*final(v))@,
                ),
                None => value_of(old(self)@, key@) is None && final(self)@ == old(self)@,
            },
    {
        let p = self.slot(key);
        if p < self.entries.len() && str_eq(self.entries[p].0.as_str(), key) {
            Some(&mut self.entries[p].1)
        } else {
            None
        }
    }

    /// Maps `key` to `value` and returns the value that it mapped to before.
    pub fn insert(&mut self, key: String, value: V) -> (r: Option<V>)
        ensures
            final(self)@ == with_entry(old(self)@, key@, value@),
            opt_view(r) == value_of(old(self)@, key@),
            old(self).wf() ==> final(self).wf(),
    {
        let p = self.slot(key.as_str());
        let ghost before = self@;
        let ghost entry = (key@, value@);
        proof {
            lemma_slot_of(before, key@);
            if ordered(before) {
                lemma_with_entry_ordered(before, key@, value@);
            }
        }
        if p < self.entries.len() && str_eq(self.entries[p].0.as_str(), key.as_str()) {
            let old_entry = self.entries.remove(p);
            self.entries.insert(p, (key, value));
            assert(self@ =~= before.update(p as int, entry));
            Some(old_entry.1)
        } else {
            self.entries.insert(p, (key, value));
            assert(self@ =~= before.insert(p as int, entry));
            None
        }
    }

    /// Takes out the entry for `key` and returns its value.
    pub fn remove(&mut self, key: &str) -> (r: Option<V>)
        ensures
            final(self)@ == without_entry(old(self)@, key@),
            opt_view(r) == value_of(old(self)@, key@),
            old(self).wf() ==> final(self).wf(),
    {
        let p = self.slot(key);
        let ghost before = self@;
        if p < self.entries.len() && str_eq(self.entries[p].0.as_str(), key) {
            let old_entry = self.entries.remove(p);
            assert(self@ =~= before.remove(p as int));
            Some(old_entry.1)
        } else {
            None
        }
    }

    pub fn contains_key(&self, key: &str) -> (r: bool)
        ensures
            r == holds_key(self@, key@),
    {
        self.get(key).is_some()
    }

    pub fn len(&self) -> (r: usize)
        ensures
            r == self@.len(),
    {
        self.entries.len()
    }

    pub fn is_empty(&self) -> (r: bool)
        ensures
            r == (self@.len() == 0),
    {
        self.entries.len() == 0
    }
}

/// Mapping a key keeps the order of the keys.
pub proof fn lemma_with_entry_ordered<V>(s: Seq<(Seq<char>, V)>, key: Seq<char>, value: V)
    requires
        ordered(s),
    ensures
        ordered(with_entry(s, key, value)),
{
    lemma_slot_of(s, key);
    let p = slot_of(s, key);
    let t = with_entry(s, key, value);
    if holds_key(s, key) {
        assert forall|i: int, j: int| 0 <= i < j < t.len() implies text_before(
            #[trigger] t[i].0,
            #[trigger] t[j].0,
        ) by {
            assert(t[i].0 == s[i].0 && t[j].0 == s[j].0);
        }
    } else {
        assert forall|i: int, j: int| 0 <= i < j < t.len() implies text_before(
            #[trigger] t[i].0,
            #[trigger] t[j].0,
        ) by {
            if i == p {
                let e = s[j - 1].0;
                lemma_text_before_total(s[p].0, key);
                if j - 1 > p {
                    lemma_text_before_transitive(key, s[p].0, e);
                }
            } else if j == p {
                assert(text_before(s[i].0, key));
            } else {
                let a = if i < p { i } else { i - 1 };
                let b = if j < p { j } else { j - 1 };
                assert(t[i] == s[a] && t[j] == s[b]);
            }
        }
    }
}

} // verus!
