//! What holds of lists of named values: which values stand under a name.
use vstd::prelude::*;

verus! {

/// The values that stand under a name, in order.
pub open spec fn held<V>(m: Seq<(Seq<char>, V)>, name: Seq<char>) -> Seq<V>
    decreases m.len(),
{
    if m.len() == 0 {
        Seq::empty()
    } else if m.last().0 == name {
        held(m.drop_last(), name).push(m.last().1)
    } else {
        held(m.drop_last(), name)
    }
}

/// One value where a condition holds, else none.
pub open spec fn one_if<V>(there: bool, v: V) -> Seq<V> {
    if there {
        seq![v]
    } else {
        Seq::empty()
    }
}

/// A value that is put at the end of a list stands under its name, after those that stood there, and
/// nothing else changes.
pub proof fn lemma_put<V>(m: Seq<(Seq<char>, V)>, key: Seq<char>, v: V)
    ensures
        forall|name: Seq<char>| #[trigger]
            held(m.push((key, v)), name) == if name == key {
                held(m, name).push(v)
            } else {
                held(m, name)
            },
        held(m, key).len() == 0 ==> held(m.push((key, v)), key) == seq![v],
{
    assert(m.push((key, v)).drop_last() =~= m);
    if held(m, key).len() == 0 {
        assert(held(m.push((key, v)), key) =~= seq![v]);
    }
}

/// Nothing stands under a name in an empty list.
pub proof fn lemma_none<V>()
    ensures
        forall|name: Seq<char>| #[trigger]
            held(Seq::<(Seq<char>, V)>::empty(), name) == Seq::<V>::empty(),
{
}

} // verus!
