//! What holds of maps from text to values: what is read of a map after it was changed.
use vstd::prelude::*;

use crate::keyed::{
    holds_key, lemma_slot_of, lemma_slot_of_is, lemma_with_entry_ordered, ordered, slot_of,
    value_of, with_entry, without_entry,
};
use crate::text::{lemma_text_before_irreflexive, lemma_text_before_transitive, text_before};

verus! {

/// Each entry of a map is found under its key.
pub proof fn lemma_entry_found<V>(s: Seq<(Seq<char>, V)>, i: int)
    requires
        ordered(s),
        0 <= i < s.len(),
    ensures
        slot_of(s, s[i].0) == i,
        value_of(s, s[i].0) == Some(s[i].1),
{
    lemma_text_before_irreflexive(s[i].0);
    lemma_slot_of_is(s, s[i].0, i);
}

/// What a map holds for a key is one of its entries.
pub proof fn lemma_found_entry<V>(s: Seq<(Seq<char>, V)>, key: Seq<char>)
    requires
        value_of(s, key) is Some,
    ensures
        0 <= slot_of(s, key) < s.len(),
        s[slot_of(s, key)] == (key, value_of(s, key)->0),
{
    lemma_slot_of(s, key);
}

/// After a key was mapped to a value, the map holds that value for it, and for every other key
/// what it held before. Its keys stay in order.
pub proof fn law_read_after_write<V>(s: Seq<(Seq<char>, V)>, key: Seq<char>, value: V)
    requires
        ordered(s),
    ensures
        ordered(with_entry(s, key, value)),
        value_of(with_entry(s, key, value), key) == Some(value),
        forall|k: Seq<char>|
            k != key ==> #[trigger] value_of(with_entry(s, key, value), k) == value_of(s, k),
{
    let t = with_entry(s, key, value);
    lemma_with_entry_ordered(s, key, value);
    lemma_slot_of(s, key);
    let p = slot_of(s, key);
    assert(t[p] == (key, value));
    lemma_entry_found(t, p);
    assert forall|k: Seq<char>| k != key implies #[trigger] value_of(t, k) == value_of(s, k) by {
        if value_of(s, k) is Some {
            lemma_found_entry(s, k);
            let i = slot_of(s, k);
            let j = if holds_key(s, key) || i < p {
                i
            } else {
                i + 1
            };
            assert(t[j] == s[i]);
            lemma_entry_found(t, j);
        } else if value_of(t, k) is Some {
            lemma_found_entry(t, k);
            let j = slot_of(t, k);
            let i = if holds_key(s, key) || j < p {
                j
            } else {
                j - 1
            };
            assert(t[j] == s[i]);
            lemma_entry_found(s, i);
        }
    }
}

/// After a key was taken out, the map holds nothing for it, and for every other key what it held
/// before. Its keys stay in order.
pub proof fn law_read_after_remove<V>(s: Seq<(Seq<char>, V)>, key: Seq<char>)
    requires
        ordered(s),
    ensures
        ordered(without_entry(s, key)),
        value_of(without_entry(s, key), key) is None,
        forall|k: Seq<char>|
            k != key ==> #[trigger] value_of(without_entry(s, key), k) == value_of(s, k),
{
    let t = without_entry(s, key);
    if holds_key(s, key) {
        lemma_slot_of(s, key);
        let p = slot_of(s, key);
        assert forall|i: int, j: int| 0 <= i < j < t.len() implies text_before(
            #[trigger] t[i].0,
            #[trigger] t[j].0,
        ) by {
            let a = if i < p { i } else { i + 1 };
            let b = if j < p { j } else { j + 1 };
            assert(t[i] == s[a] && t[j] == s[b]);
        }
        if value_of(t, key) is Some {
            lemma_found_entry(t, key);
            let j = slot_of(t, key);
            let i = if j < p { j } else { j + 1 };
            assert(t[j] == s[i]);
            lemma_entry_found(s, i);
        }
        assert forall|k: Seq<char>| k != key implies #[trigger] value_of(t, k) == value_of(s, k) by {
            if value_of(s, k) is Some {
                lemma_found_entry(s, k);
                let i = slot_of(s, k);
                let j = if i < p { i } else { i - 1 };
                assert(t[j] == s[i]);
                lemma_entry_found(t, j);
            } else if value_of(t, k) is Some {
                lemma_found_entry(t, k);
                let j = slot_of(t, k);
                let i = if j < p { j } else { j + 1 };
                assert(t[j] == s[i]);
                lemma_entry_found(s, i);
            }
        }
    }
}

proof fn lemma_without_first<V>(s: Seq<(Seq<char>, V)>)
    requires
        ordered(s),
        s.len() > 0,
    ensures
        ordered(s.drop_first()),
        forall|k: Seq<char>|
            #![trigger value_of(s.drop_first(), k)]
            value_of(s.drop_first(), k) == if k == s[0].0 {
                None
            } else {
                value_of(s, k)
            },
{
    lemma_entry_found(s, 0);
    assert(s.drop_first() =~= s.remove(0));
    assert(without_entry(s, s[0].0) == s.drop_first());
    law_read_after_remove(s, s[0].0);
}

/// Two maps that hold the same for every key are the same.
pub proof fn law_same_entries<V>(s: Seq<(Seq<char>, V)>, t: Seq<(Seq<char>, V)>)
    requires
        ordered(s),
        ordered(t),
        forall|k: Seq<char>| #[trigger] value_of(s, k) == value_of(t, k),
    ensures
        s == t,
    decreases s.len(),
{
    if s.len() == 0 {
        if t.len() > 0 {
            lemma_entry_found(t, 0);
            assert(value_of(s, t[0].0) is Some);
            lemma_found_entry(s, t[0].0);
        }
        assert(s =~= t);
    } else {
        lemma_entry_found(s, 0);
        lemma_found_entry(t, s[0].0);
        lemma_entry_found(t, 0);
        assert(value_of(s, t[0].0) is Some);
        lemma_found_entry(s, t[0].0);
        let i = slot_of(s, t[0].0);
        let j = slot_of(t, s[0].0);
        if j > 0 {
            assert(text_before(t[0].0, t[j].0));
            if i > 0 {
                assert(text_before(s[0].0, s[i].0));
                lemma_text_before_transitive(t[0].0, s[0].0, t[0].0);
            }
            lemma_text_before_irreflexive(t[0].0);
        }
        assert(s[0] == t[0]);
        lemma_without_first(s);
        lemma_without_first(t);
        assert forall|k: Seq<char>| #[trigger]
            value_of(s.drop_first(), k) == value_of(t.drop_first(), k) by {
            assert(value_of(s, k) == value_of(t, k));
        }
        law_same_entries(s.drop_first(), t.drop_first());
        assert(s =~= seq![s[0]] + s.drop_first());
        assert(t =~= seq![t[0]] + t.drop_first());
    }
}

/// Writing under one key and then under another gives the same map in either order.
pub proof fn law_writes_commute<V>(s: Seq<(Seq<char>, V)>, a: Seq<char>, x: V, b: Seq<char>, y: V)
    requires
        ordered(s),
        a != b,
    ensures
        with_entry(with_entry(s, a, x), b, y) == with_entry(with_entry(s, b, y), a, x),
{
    law_read_after_write(s, a, x);
    law_read_after_write(s, b, y);
    law_read_after_write(with_entry(s, a, x), b, y);
    law_read_after_write(with_entry(s, b, y), a, x);
    let l = with_entry(with_entry(s, a, x), b, y);
    let r = with_entry(with_entry(s, b, y), a, x);
    assert forall|k: Seq<char>| #[trigger] value_of(l, k) == value_of(r, k) by {
        assert(value_of(with_entry(s, a, x), k) == value_of(with_entry(s, a, x), k));
        assert(value_of(with_entry(s, b, y), k) == value_of(with_entry(s, b, y), k));
        assert(value_of(r, k) == value_of(r, k));
    }
    law_same_entries(l, r);
}

} // verus!
