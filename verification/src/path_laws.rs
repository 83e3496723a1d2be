//! What holds of paths into values: what is read at a path after something was written or removed
//! there.
use vstd::prelude::*;

use crate::any_value::{
    lemma_value_from_array, object_from_kvs, value_from_any, values_from_anys, AnyView,
};
use crate::fields::{dropped, field_path};
use crate::keyed::{
    lemma_slot_of, lemma_slot_of_is, lemma_with_entry_ordered, ordered, slot_of, value_of,
    with_entry, without_entry,
};
use crate::log_path::is_field_path;
use crate::map_laws::{law_read_after_remove, law_read_after_write, lemma_found_entry};
use crate::path::{fetched, item_at, removed, stored, with_item, without_item, SegmentView};
use crate::text::{lemma_text_before_irreflexive, text_before};
use crate::value::ValueView;
use crate::value_laws::is_stored;

verus! {

/// Whether the fields of each object in a value stand in the order of their names.
pub open spec fn in_order(v: ValueView) -> bool
    decreases v,
{
    match v {
        ValueView::Array(a) => forall|i: int| 0 <= i < a.len() ==> in_order(#[trigger] a[i]),
        ValueView::Object(m) => {
            &&& ordered(m)
            &&& forall|i: int| 0 <= i < m.len() ==> in_order((#[trigger] m[i]).1)
        },
        _ => true,
    }
}

/// A value is found under the key that it was just mapped to.
pub proof fn lemma_write_found<V>(s: Seq<(Seq<char>, V)>, key: Seq<char>, v: V)
    ensures
        value_of(with_entry(s, key, v), key) == Some(v),
{
    lemma_slot_of(s, key);
    lemma_text_before_irreflexive(key);
    let p = slot_of(s, key);
    let t = with_entry(s, key, v);
    assert forall|i: int| 0 <= i < p implies text_before(#[trigger] t[i].0, key) by {
        assert(t[i] == s[i]);
    }
    lemma_slot_of_is(t, key, p);
}

/// What was written at a path is read there.
pub proof fn law_path_read_after_write(
    place: Option<ValueView>,
    path: Seq<SegmentView>,
    new: ValueView,
)
    ensures
        fetched(stored(place, path, new), path) == Some(new),
    decreases path.len(),
{
    if path.len() > 0 {
        let rest = path.drop_first();
        match path[0] {
            SegmentView::Field(f) => {
                let m = match place {
                    Some(ValueView::Object(m)) => m,
                    _ => Seq::empty(),
                };
                law_path_read_after_write(value_of(m, f), rest, new);
                lemma_write_found(m, f, stored(value_of(m, f), rest, new));
            },
            SegmentView::Index(i) => {
                let a = match place {
                    Some(ValueView::Array(a)) => a,
                    _ => Seq::empty(),
                };
                law_path_read_after_write(item_at(a, i), rest, new);
                let c = stored(item_at(a, i), rest, new);
                assert(item_at(with_item(a, i, c), i) == Some(c));
            },
        }
    }
}

/// A write below one field of an object leaves the other fields as they are.
pub proof fn law_path_write_is_local(
    m: Seq<(Seq<char>, ValueView)>,
    path: Seq<SegmentView>,
    other: Seq<SegmentView>,
    new: ValueView,
)
    requires
        ordered(m),
        path.len() > 0,
        other.len() > 0,
        path[0] is Field,
        other[0] is Field,
        path[0] != other[0],
    ensures
        fetched(stored(Some(ValueView::Object(m)), path, new), other) == fetched(
            ValueView::Object(m),
            other,
        ),
{
    let f = path[0]->Field_0;
    law_read_after_write(m, f, stored(value_of(m, f), path.drop_first(), new));
}

/// Nothing is read at a path through fields after what stood there was removed.
pub proof fn law_path_read_after_remove(v: ValueView, path: Seq<SegmentView>, prune: bool)
    requires
        in_order(v),
        is_field_path(path),
    ensures
        fetched(removed(v, path, prune), path) is None,
    decreases path.len(),
{
    reveal_with_fuel(fetched, 2);
    reveal_with_fuel(in_order, 2);
    if fetched(v, path) is Some {
        assert(path[0] is Field);
        let f = path[0]->Field_0;
        let m = v->Object_0;
        let rest = path.drop_first();
        law_read_after_remove(m, f);
        if path.len() > 1 {
            lemma_found_entry(m, f);
            let c = value_of(m, f)->0;
            assert(in_order(m[slot_of(m, f)].1));
            assert forall|i: int| 0 <= i < rest.len() implies (#[trigger] rest[i]) is Field by {
                assert(rest[i] == path[i + 1]);
            }
            law_path_read_after_remove(c, rest, prune);
            law_read_after_write(m, f, removed(c, rest, prune));
        }
    }
}

/// Nothing is read at a nested field after it was dropped.
pub proof fn lemma_dropped(v: ValueView, fields: Seq<Seq<char>>, prune: bool)
    requires
        in_order(v),
        fields.len() > 0,
    ensures
        fetched(dropped(v, fields, prune), field_path(fields)) is None,
    decreases fields.len(),
{
    reveal_with_fuel(fetched, 2);
    reveal_with_fuel(in_order, 2);
    let path = field_path(fields);
    let f = fields[0];
    assert(path[0] == SegmentView::Field(f));
    assert(path.drop_first() =~= field_path(fields.drop_first()));
    if let ValueView::Object(m) = v {
        law_read_after_remove(m, f);
        if fields.len() > 1 {
            if let Some(c) = value_of(m, f) {
                lemma_found_entry(m, f);
                assert(in_order(m[slot_of(m, f)].1));
                lemma_dropped(c, fields.drop_first(), prune);
                law_read_after_write(m, f, dropped(c, fields.drop_first(), prune));
            }
        }
    }
}

/// What an attribute value is read as can be told from what it is stored as.
pub proof fn lemma_read_is_stored(a: AnyView)
    ensures
        is_stored(value_from_any(a)),
    decreases a,
{
    reveal_with_fuel(is_stored, 2);
    match a {
        AnyView::Array(items) => {
            lemma_value_from_array(items);
            let values = values_from_anys(items);
            assert forall|i: int| 0 <= i < values.len() implies is_stored(#[trigger] values[i]) by {
                lemma_read_is_stored(items[i]);
            }
        },
        AnyView::Kvlist(kvs) => {
            lemma_fields_are_stored(kvs);
        },
        _ => {},
    }
}

proof fn lemma_fields_are_stored(kvs: Seq<(Seq<char>, Option<AnyView>)>)
    ensures
        is_stored(ValueView::Object(object_from_kvs(kvs))),
    decreases kvs,
{
    reveal_with_fuel(is_stored, 2);
    if kvs.len() > 0 {
        let last = kvs.last();
        let before = object_from_kvs(kvs.drop_last());
        lemma_fields_are_stored(kvs.drop_last());
        let v = match last.1 {
            Some(a) => value_from_any(a),
            None => ValueView::Null,
        };
        if last.1 is Some {
            assert(decreases_to!(kvs => kvs[kvs.len() - 1]));
            assert(decreases_to!(last => last.1));
            lemma_read_is_stored(last.1->0);
        }
        lemma_entry_is_stored(before, last.0, v);
    }
}

/// An object stays one that can be told from what it is stored as when such a value is put in it.
pub proof fn lemma_entry_is_stored(m: Seq<(Seq<char>, ValueView)>, f: Seq<char>, v: ValueView)
    requires
        is_stored(ValueView::Object(m)),
        is_stored(v),
    ensures
        is_stored(ValueView::Object(with_entry(m, f, v))),
{
    reveal_with_fuel(is_stored, 2);
    lemma_with_entry_ordered(m, f, v);
    lemma_slot_of(m, f);
    let t = with_entry(m, f, v);
    let p = slot_of(m, f);
    assert forall|i: int| 0 <= i < t.len() implies is_stored((#[trigger] t[i]).1) by {
        if i != p {
            let j = if t.len() == m.len() || i < p {
                i
            } else {
                i - 1
            };
            assert(t[i] == m[j]);
        }
    }
}

/// A value that can be told from what it is stored as stays one when such a value is written in it.
pub proof fn lemma_write_is_stored(place: Option<ValueView>, path: Seq<SegmentView>, new: ValueView)
    requires
        place matches Some(v) ==> is_stored(v),
        is_stored(new),
    ensures
        is_stored(stored(place, path, new)),
    decreases path.len(),
{
    reveal_with_fuel(is_stored, 2);
    if path.len() > 0 {
        let rest = path.drop_first();
        match path[0] {
            SegmentView::Field(f) => {
                let m = match place {
                    Some(ValueView::Object(m)) => m,
                    _ => Seq::empty(),
                };
                if value_of(m, f) is Some {
                    lemma_found_entry(m, f);
                    assert(is_stored(m[slot_of(m, f)].1));
                }
                lemma_write_is_stored(value_of(m, f), rest, new);
                assert(is_stored(ValueView::Object(m)));
                lemma_entry_is_stored(m, f, stored(value_of(m, f), rest, new));
            },
            SegmentView::Index(i) => {
                let a = match place {
                    Some(ValueView::Array(a)) => a,
                    _ => Seq::empty(),
                };
                lemma_write_is_stored(item_at(a, i), rest, new);
                let c = stored(item_at(a, i), rest, new);
                let t = with_item(a, i, c);
                assert forall|j: int| 0 <= j < t.len() implies is_stored(#[trigger] t[j]) by {
                    if 0 <= i < a.len() || (i < 0 && -i <= a.len()) {
                        assert(t[j] == c || t[j] == a[j]);
                    } else if i >= 0 {
                        assert(t[j] == c || t[j] == ValueView::Null || (j < a.len() && t[j] == a[j]));
                    } else {
                        let k = j - (-i - a.len());
                        assert(t[j] == c || t[j] == ValueView::Null || (0 <= k < a.len() && t[j]
                            == a[k]));
                    }
                }
            },
        }
    }
}

/// A value that can be told from what it is stored as has its fields in order.
pub proof fn lemma_stored_in_order(v: ValueView)
    requires
        is_stored(v),
    ensures
        in_order(v),
    decreases v,
{
    reveal_with_fuel(is_stored, 2);
    reveal_with_fuel(in_order, 2);
    match v {
        ValueView::Array(a) => {
            assert forall|i: int| 0 <= i < a.len() implies in_order(#[trigger] a[i]) by {
                lemma_stored_in_order(a[i]);
            }
        },
        ValueView::Object(m) => {
            assert forall|i: int| 0 <= i < m.len() implies in_order((#[trigger] m[i]).1) by {
                lemma_stored_in_order(m[i].1);
            }
        },
        _ => {},
    }
}

/// What is left of a value that can be told from what it is stored as is such a value.
pub proof fn lemma_dropped_is_stored(v: ValueView, fields: Seq<Seq<char>>, prune: bool)
    requires
        is_stored(v),
    ensures
        is_stored(dropped(v, fields, prune)),
    decreases fields.len(),
{
    reveal_with_fuel(is_stored, 2);
    if let ValueView::Object(m) = v {
        if fields.len() > 0 {
            let f = fields[0];
            law_read_after_remove(m, f);
            let t = without_entry(m, f);
            lemma_slot_of(m, f);
            assert forall|i: int| 0 <= i < t.len() implies is_stored((#[trigger] t[i]).1) by {
                let j = if t.len() == m.len() || i < slot_of(m, f) {
                    i
                } else {
                    i + 1
                };
                assert(t[i] == m[j]);
            }
            assert(is_stored(ValueView::Object(t)));
            if fields.len() > 1 {
                if let Some(c) = value_of(m, f) {
                    lemma_found_entry(m, f);
                    assert(is_stored(m[slot_of(m, f)].1));
                    lemma_dropped_is_stored(c, fields.drop_first(), prune);
                    lemma_entry_is_stored(m, f, dropped(c, fields.drop_first(), prune));
                }
            }
        }
    }
}

/// An item that is taken out of an array leaves the others, in order; an index counts from the end where
/// it is negative, and one beyond either end takes nothing out.
pub proof fn law_item_is_taken_out(a: Seq<ValueView>, i: int, j: int)
    ensures
        0 <= i < a.len() ==> without_item(a, i).len() == a.len() - 1,
        0 <= i < a.len() && 0 <= j < i ==> without_item(a, i)[j] == a[j],
        0 <= i < a.len() && i <= j < a.len() - 1 ==> without_item(a, i)[j] == a[j + 1],
        0 <= i < a.len() ==> without_item(a, i - a.len()) == without_item(a, i),
        i >= a.len() || i < -a.len() ==> without_item(a, i) == a,
        0 <= i < a.len() ==> item_at(a, i) == Some(a[i]) && item_at(a, i - a.len()) == Some(a[i]),
        i >= a.len() || i < -a.len() ==> item_at(a, i) is None,
{
}

/// An item that is set in an array stands there; the others stay, and what lies between it and the end
/// that it is beyond is null.
pub proof fn law_item_is_set(a: Seq<ValueView>, i: int, v: ValueView, j: int)
    requires
        i >= 0,
        j >= 0,
    ensures
        with_item(a, i, v).len() == if i < a.len() {
            a.len() as int
        } else {
            i + 1
        },
        with_item(a, i, v)[i] == v,
        j < a.len() && j != i ==> with_item(a, i, v)[j] == a[j],
        a.len() <= j < i ==> with_item(a, i, v)[j] == ValueView::Null,
        i < a.len() ==> with_item(a, i - a.len(), v) == with_item(a, i, v),
{
}

} // verus!
