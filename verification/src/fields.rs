//! Nested fields of objects, each named by the list of the field names that lead to it.
use vstd::prelude::*;

use crate::keyed::{opt_view, value_of, with_entry, without_entry};
use crate::path::{fetched, lemma_entry_stays, stored, OwnedSegment, OwnedValuePath, SegmentView};
use crate::value::{lemma_object_view, Value, ValueView};

verus! {

/// The characters of each of some names.
pub open spec fn names(fields: Seq<String>) -> Seq<Seq<char>> {
    Seq::new(fields.len(), |i: int| fields[i]@)
}

/// The path that goes through fields with the given names.
pub open spec fn field_path(fields: Seq<Seq<char>>) -> Seq<SegmentView> {
    Seq::new(fields.len(), |i: int| SegmentView::Field(fields[i]))
}

/// What is left of a value after the nested field was removed. With `prune`, an object on the way
/// that is then empty goes too, whether or not the field was there.
pub open spec fn dropped(v: ValueView, fields: Seq<Seq<char>>, prune: bool) -> ValueView
    decreases fields.len(),
{
    match v {
        ValueView::Object(m) => if fields.len() == 0 {
            v
        } else if fields.len() == 1 {
            ValueView::Object(without_entry(m, fields[0]))
        } else {
            match value_of(m, fields[0]) {
                Some(c) => {
                    let rest = dropped(c, fields.drop_first(), prune);
                    if prune && rest == ValueView::empty_object() {
                        ValueView::Object(without_entry(m, fields[0]))
                    } else {
                        ValueView::Object(with_entry(m, fields[0], rest))
                    }
                },
                None => v,
            }
        },
        _ => v,
    }
}

fn path_of_fields(fields: &Vec<String>, from: usize) -> (r: OwnedValuePath)
    requires
        from <= fields@.len(),
    ensures
        r@ == field_path(names(fields@).skip(from as int)),
{
    let mut segments: Vec<OwnedSegment> = Vec::new();
    let mut i: usize = from;
    while i < fields.len()
        invariant
            from <= i <= fields@.len(),
            segments@.len() == i - from,
            forall|j: int|
                0 <= j < i - from ==> (#[trigger] segments@[j])@ == SegmentView::Field(
                    fields@[from + j]@,
                ),
        decreases fields@.len() - i,
    {
        segments.push(OwnedSegment::Field(fields[i].clone()));
        i = i + 1;
    }
    let r = OwnedValuePath { segments };
    assert(r@ =~= field_path(names(fields@).skip(from as int)));
    r
}

/// The nested field of `v` that the names from `from` on lead to.
pub fn navigate_value(v: &Value, fields: &Vec<String>, from: usize) -> (r: Option<Value>)
    requires
        from <= fields@.len(),
    ensures
        opt_view(r) == fetched(v@, field_path(names(fields@).skip(from as int))),
{
    let path = path_of_fields(fields, from);
    match v.get(&path) {
        Some(found) => Some(found.clone()),
        None => None,
    }
}

/// Writes the nested field of `v` that the names from `from` on lead to. Whatever on the way is not
/// an object gives way to one.
pub fn insert_value_at(v: &mut Value, fields: &Vec<String>, from: usize, new: Value) -> (r: Option<
    Value,
>)
    requires
        from < fields@.len(),
    ensures
        final(v)@ == stored(Some(old(v)@), field_path(names(fields@).skip(from as int)), new@),
        opt_view(r) == fetched(old(v)@, field_path(names(fields@).skip(from as int))),
{
    let path = path_of_fields(fields, from);
    v.insert(&path, new)
}

/// Removes the nested field of `v` that the names from `from` on lead to.
pub fn remove_value_at(v: &mut Value, fields: &Vec<String>, from: usize, prune: bool) -> (r: Option<
    Value,
>)
    requires
        from < fields@.len(),
    ensures
        final(v)@ == dropped(old(v)@, names(fields@).skip(from as int), prune),
        opt_view(r) == fetched(old(v)@, field_path(names(fields@).skip(from as int))),
    decreases fields@.len() - from,
{
    let ghost here = names(fields@).skip(from as int);
    let ghost path = field_path(here);
    assert(here.drop_first() =~= names(fields@).skip(from + 1));
    assert(path.drop_first() =~= field_path(here.drop_first()));
    assert(path[0] == SegmentView::Field(fields@[from as int]@));
    let name: &str = fields[from].as_str();
    match v {
        Value::Object(m) => {
            proof {
                lemma_object_view(*m);
            }
            if from == fields.len() - 1 {
                let r = m.remove(name);
                proof {
                    lemma_object_view(*m);
                    if r is Some {
                        assert(fetched(r->0@, path.drop_first()) == Some(r->0@));
                    }
                }
                return r;
            }
            let ghost before = m@;
            let (r, empty) = match m.get_mut(name) {
                Some(c) => {
                    let r = remove_value_at(c, fields, from + 1, prune);
                    let empty = match c {
                        Value::Object(inner) => {
                            proof {
                                lemma_object_view(*inner);
                                if inner@.len() == 0 {
                                    assert(inner@ =~= Seq::empty());
                                }
                            }
                            inner.is_empty()
                        },
                        _ => false,
                    };
                    (r, empty)
                },
                None => {
                    proof {
                        lemma_object_view(*m);
                    }
                    return None;
                },
            };
            proof {
                let c = value_of(before, name@)->0;
                lemma_entry_stays(before, name@, dropped(c, here.drop_first(), prune));
            }
            if prune && empty {
                m.remove(name);
            }
            proof {
                lemma_object_view(*m);
            }
            r
        },
        _ => None,
    }
}

} // verus!
