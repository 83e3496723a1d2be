//! What is found in the object that an event is read as, and what is left of it when a field with a
//! place of its own is taken out.
use vstd::prelude::*;

use crate::any_value::{value_from_any, AnyView};
use crate::attributes::{lemma_put_back, object_from_attrs};
use crate::canonical::{with_object, with_text};
use crate::extract::{left_over, picked};
use crate::hex::hex_digits;
use crate::keyed::{holds_key, ordered, value_of, with_entry, without_entry};
use crate::log_value::{with_attrs, with_count, with_id};
use crate::map_laws::{law_read_after_remove, law_read_after_write, law_same_entries};
use crate::value::ValueView;
use crate::value_laws::{lemma_keys_ordered, lemma_prefix_ordered, lemma_with_last};

verus! {

/// What attributes, read as an object, leave to a field that has a place in the event, so that
/// the object gives back both: an attribute under the first name of the field must be one that
/// does not fit its place, and can be there only where the field is not set; under the second name
/// none can be there where neither is under the first.
pub open spec fn leaves_place(
    m: Seq<(Seq<char>, ValueView)>,
    name: Seq<char>,
    alias: Seq<char>,
    set: bool,
    fits: spec_fn(ValueView) -> bool,
) -> bool {
    match value_of(m, name) {
        Some(v) => !set && !fits(v),
        None => set || value_of(m, alias) is None,
    }
}

/// Taking a field with a place of its own out of an object: where it is set, it is found and
/// nothing else is lost; where it is not, nothing is found that fits and the object stays as it is.
pub proof fn lemma_taken_out(
    m: Seq<(Seq<char>, ValueView)>,
    name: Seq<char>,
    alias: Seq<char>,
    set: Option<ValueView>,
    fits: spec_fn(ValueView) -> bool,
    ok: bool,
)
    requires
        ordered(m),
        match set {
            Some(v) => value_of(m, name) == Some(v) && fits(v),
            None => leaves_place(m, name, alias, false, fits),
        },
        picked(m, name, alias) matches Some(v) ==> ok == fits(v),
    ensures
        ordered(left_over(m, name, alias, ok)),
        set is Some ==> picked(m, name, alias) == set && left_over(m, name, alias, ok)
            == without_entry(m, name),
        set is None ==> left_over(m, name, alias, ok) == m && (picked(m, name, alias) matches Some(
            v,
        ) ==> !fits(v)),
        forall|k: Seq<char>|
            #![trigger value_of(left_over(m, name, alias, ok), k)]
            value_of(left_over(m, name, alias, ok), k) == if set is Some && k == name {
                None
            } else {
                value_of(m, k)
            },
{
    law_read_after_remove(m, name);
    if set is None {
        if let Some(w) = value_of(m, name) {
            lemma_put_back(m, name, w);
            law_read_after_write(m, name, w);
            law_same_entries(with_entry(m, name, w), m);
        }
    }
}

/// Whether of the object `m`, in which fields with places of their own stand over attributes, those
/// fields named in `done` were taken out.
pub open spec fn is_taken(
    m: Seq<(Seq<char>, ValueView)>,
    left: Seq<(Seq<char>, ValueView)>,
    attrs: Seq<(Seq<char>, ValueView)>,
    done: Set<Seq<char>>,
) -> bool {
    &&& ordered(left)
    &&& forall|k: Seq<char>| #[trigger]
        value_of(left, k) == if done.contains(k) {
            value_of(attrs, k)
        } else {
            value_of(m, k)
        }
}

/// Taking one more field with a place of its own out of an object.
pub proof fn lemma_next_taken(
    m: Seq<(Seq<char>, ValueView)>,
    left: Seq<(Seq<char>, ValueView)>,
    attrs: Seq<(Seq<char>, ValueView)>,
    done: Set<Seq<char>>,
    name: Seq<char>,
    alias: Seq<char>,
    set: Option<ValueView>,
    fits: spec_fn(ValueView) -> bool,
    ok: bool,
)
    requires
        is_taken(m, left, attrs, done),
        !done.contains(name),
        !done.contains(alias),
        value_of(m, name) == match set {
            Some(v) => Some(v),
            None => value_of(attrs, name),
        },
        alias == name || value_of(m, alias) == value_of(attrs, alias),
        leaves_place(attrs, name, alias, set is Some, fits),
        set matches Some(v) ==> fits(v),
        picked(left, name, alias) matches Some(v) ==> ok == fits(v),
    ensures
        is_taken(m, left_over(left, name, alias, ok), attrs, done.insert(name)),
        match set {
            Some(v) => picked(left, name, alias) == Some(v),
            None => picked(left, name, alias) matches Some(v) ==> !fits(v),
        },
{
    assert(value_of(left, name) == value_of(m, name));
    assert(value_of(left, alias) == value_of(m, alias));
    lemma_taken_out(left, name, alias, set, fits, ok);
    let next = left_over(left, name, alias, ok);
    assert forall|k: Seq<char>| #[trigger]
        value_of(next, k) == if done.insert(name).contains(k) {
            value_of(attrs, k)
        } else {
            value_of(m, k)
        } by {
        assert(value_of(left, k) == if done.contains(k) {
            value_of(attrs, k)
        } else {
            value_of(m, k)
        });
    }
}

pub proof fn lemma_with_text(m: Seq<(Seq<char>, ValueView)>, key: Seq<char>, text: Seq<char>)
    requires
        ordered(m),
    ensures
        ordered(with_text(m, key, text)),
        forall|k: Seq<char>|
            #![trigger value_of(with_text(m, key, text), k)]
            value_of(with_text(m, key, text), k) == if k == key && text.len() > 0 {
                Some(ValueView::text(text))
            } else {
                value_of(m, k)
            },
{
    law_read_after_write(m, key, ValueView::text(text));
}

pub proof fn lemma_with_count(m: Seq<(Seq<char>, ValueView)>, key: Seq<char>, n: i64)
    requires
        ordered(m),
    ensures
        ordered(with_count(m, key, n)),
        forall|k: Seq<char>|
            #![trigger value_of(with_count(m, key, n), k)]
            value_of(with_count(m, key, n), k) == if k == key && n != 0 {
                Some(ValueView::Integer(n))
            } else {
                value_of(m, k)
            },
{
    law_read_after_write(m, key, ValueView::Integer(n));
}

pub proof fn lemma_with_id(m: Seq<(Seq<char>, ValueView)>, key: Seq<char>, id: Seq<u8>)
    requires
        ordered(m),
    ensures
        ordered(with_id(m, key, id)),
        forall|k: Seq<char>|
            #![trigger value_of(with_id(m, key, id), k)]
            value_of(with_id(m, key, id), k) == if k == key && id.len() > 0 {
                Some(ValueView::Bytes(hex_digits(id)))
            } else {
                value_of(m, k)
            },
{
    law_read_after_write(m, key, ValueView::Bytes(hex_digits(id)));
}

pub proof fn lemma_with_object(
    m: Seq<(Seq<char>, ValueView)>,
    key: Seq<char>,
    fields: Seq<(Seq<char>, ValueView)>,
)
    requires
        ordered(m),
    ensures
        ordered(with_object(m, key, fields)),
        forall|k: Seq<char>|
            #![trigger value_of(with_object(m, key, fields), k)]
            value_of(with_object(m, key, fields), k) == if k == key && fields.len() > 0 {
                Some(ValueView::Object(fields))
            } else {
                value_of(m, k)
            },
{
    law_read_after_write(m, key, ValueView::Object(fields));
}

/// What an object holds after attributes were added to it: what it held, and otherwise the
/// attribute.
pub proof fn lemma_with_attrs(m: Seq<(Seq<char>, ValueView)>, attrs: Seq<(Seq<char>, AnyView)>)
    requires
        ordered(m),
        ordered(attrs),
    ensures
        ordered(with_attrs(m, attrs)),
        ordered(object_from_attrs(attrs)),
        forall|k: Seq<char>|
            #![trigger value_of(with_attrs(m, attrs), k)]
            value_of(with_attrs(m, attrs), k) == match value_of(m, k) {
                Some(v) => Some(v),
                None => value_of(object_from_attrs(attrs), k),
            },
    decreases attrs.len(),
{
    let obj = object_from_attrs(attrs);
    lemma_keys_ordered(attrs, obj);
    if attrs.len() == 0 {
        assert(forall|k: Seq<char>| value_of(obj, k) is None);
    } else {
        let before = attrs.drop_last();
        let (key, a) = attrs.last();
        let v = value_from_any(a);
        lemma_prefix_ordered(attrs);
        lemma_with_attrs(m, before);
        let mm = with_attrs(m, before);
        let ob = object_from_attrs(before);
        assert(obj =~= ob.push((key, v)));
        lemma_with_last(ob, key, v);
        law_read_after_write(ob, key, v);
        law_read_after_write(mm, key, v);
        assert(holds_key(mm, key) <==> value_of(mm, key) is Some);
        assert forall|k: Seq<char>|
            #![trigger value_of(with_attrs(m, attrs), k)]
            value_of(with_attrs(m, attrs), k) == match value_of(m, k) {
                Some(v) => Some(v),
                None => value_of(obj, k),
            } by {
            assert(value_of(mm, k) == match value_of(m, k) {
                Some(v) => Some(v),
                None => value_of(ob, k),
            });
            assert(value_of(with_entry(ob, key, v), k) == if k == key {
                Some(v)
            } else {
                value_of(ob, k)
            });
            assert(value_of(with_entry(mm, key, v), k) == if k == key {
                Some(v)
            } else {
                value_of(mm, k)
            });
        }
    }
}

} // verus!
