//! What holds of attribute values and of the values that programs see: what comes back when one is
//! turned into the other and back.
use vstd::prelude::*;
use vstd::utf8::{
    decode_utf8_encode_utf8, encode_utf8_decode_utf8, encode_utf8_valid_utf8, valid_utf8,
};

use crate::any_value::{
    any_from_value, anys_from_values, kvs_from_object, lemma_any_from_array, lemma_any_from_object,
    lemma_value_from_array, object_from_kvs, value_from_any, values_from_anys, AnyView,
};
use crate::attributes::{
    attrs_from_kvs, attrs_from_object, filled, gathered, kvs_from_attrs, object_from_attrs,
    or_empty,
};
use crate::double::nan;
use crate::keyed::{lemma_slot_of_is, ordered, value_of, with_entry};
use crate::map_laws::law_read_after_write;
use crate::text::text_before;
use crate::value::ValueView;

verus! {

/// Whether the names stand in strictly ascending order.
pub open spec fn kvs_ordered(kvs: Seq<(Seq<char>, Option<AnyView>)>) -> bool {
    ordered(filled(kvs))
}

/// Whether an attribute value can be told from the value it is read as. One that cannot is a NaN,
/// bytes that are valid UTF-8, named attributes out of order or with a missing value, or a list
/// that holds such a value.
pub open spec fn is_kept(a: AnyView) -> bool
    decreases a,
{
    match a {
        AnyView::Double(d) => !nan(d),
        AnyView::Bytes(b) => !valid_utf8(b),
        AnyView::Array(items) => forall|i: int| 0 <= i < items.len() ==> is_kept(#[trigger] items[i]),
        AnyView::Kvlist(kvs) => {
            &&& kvs_ordered(kvs)
            &&& forall|i: int|
                0 <= i < kvs.len() ==> (#[trigger] kvs[i]).1 is Some && is_kept(kvs[i].1->0)
        },
        _ => true,
    }
}

/// Whether a value can be told from the attribute value it is stored as. One that cannot is an
/// instant, a regular expression, a NaN, or an object or array that holds such a value.
pub open spec fn is_stored(v: ValueView) -> bool
    decreases v,
{
    match v {
        ValueView::Timestamp(_) => false,
        ValueView::Regex(_) => false,
        ValueView::Float(f) => !nan(f),
        ValueView::Array(a) => forall|i: int| 0 <= i < a.len() ==> is_stored(#[trigger] a[i]),
        ValueView::Object(m) => {
            &&& ordered(m)
            &&& forall|i: int| 0 <= i < m.len() ==> is_stored((#[trigger] m[i]).1)
        },
        _ => true,
    }
}

/// The fields as which named attributes in order are read.
pub open spec fn fields_of(kvs: Seq<(Seq<char>, Option<AnyView>)>) -> Seq<(Seq<char>, ValueView)> {
    Seq::new(kvs.len(), |i: int| (kvs[i].0, value_from_any(or_empty(kvs[i].1))))
}

/// A key that comes after all others is added at the end.
pub proof fn lemma_with_last<V>(s: Seq<(Seq<char>, V)>, key: Seq<char>, v: V)
    requires
        ordered(s.push((key, v))),
    ensures
        with_entry(s, key, v) == s.push((key, v)),
        value_of(s, key) is None,
        ordered(s),
{
    let t = s.push((key, v));
    assert forall|i: int| 0 <= i < s.len() implies text_before(#[trigger] s[i].0, key) by {
        assert(t[i] == s[i]);
        assert(text_before(t[i].0, t[s.len() as int].0));
    }
    assert forall|i: int, j: int| 0 <= i < j < s.len() implies text_before(
        #[trigger] s[i].0,
        #[trigger] s[j].0,
    ) by {
        assert(t[i] == s[i] && t[j] == s[j]);
    }
    lemma_slot_of_is(s, key, s.len() as int);
    assert(s.insert(s.len() as int, (key, v)) =~= t);
}

/// The part of an ordered map without its last entry is ordered.
pub proof fn lemma_prefix_ordered<V>(s: Seq<(Seq<char>, V)>)
    requires
        ordered(s),
        s.len() > 0,
    ensures
        ordered(s.drop_last()),
{
    let t = s.drop_last();
    assert forall|i: int, j: int| 0 <= i < j < t.len() implies text_before(
        #[trigger] t[i].0,
        #[trigger] t[j].0,
    ) by {
        assert(t[i] == s[i] && t[j] == s[j]);
    }
}

/// Two lists with the same keys are both in order or neither is.
pub proof fn lemma_keys_ordered<V, W>(s: Seq<(Seq<char>, V)>, t: Seq<(Seq<char>, W)>)
    requires
        ordered(s),
        s.len() == t.len(),
        forall|i: int| 0 <= i < s.len() ==> (#[trigger] t[i]).0 == s[i].0,
    ensures
        ordered(t),
{
    assert forall|i: int, j: int| 0 <= i < j < t.len() implies text_before(
        #[trigger] t[i].0,
        #[trigger] t[j].0,
    ) by {
        assert(t[i].0 == s[i].0 && t[j].0 == s[j].0);
    }
}

pub proof fn lemma_object_of_ordered(kvs: Seq<(Seq<char>, Option<AnyView>)>)
    requires
        kvs_ordered(kvs),
    ensures
        object_from_kvs(kvs) == fields_of(kvs),
        ordered(fields_of(kvs)),
    decreases kvs.len(),
{
    lemma_keys_ordered(filled(kvs), fields_of(kvs));
    if kvs.len() == 0 {
        assert(fields_of(kvs) =~= Seq::empty());
    } else {
        let before = kvs.drop_last();
        lemma_prefix_ordered(filled(kvs));
        assert(filled(kvs).drop_last() =~= filled(before));
        lemma_object_of_ordered(before);
        let last = kvs.last();
        let v = value_from_any(or_empty(last.1));
        assert(fields_of(kvs) =~= fields_of(before).push((last.0, v)));
        lemma_with_last(fields_of(before), last.0, v);
        reveal_with_fuel(object_from_kvs, 2);
        assert(v == match last.1 {
            Some(a) => value_from_any(a),
            None => ValueView::Null,
        });
    }
}

/// An attribute value that is read as a value and stored again is the same, unless it is one that
/// cannot be told from the value it is read as.
pub proof fn law_attribute_value_round_trip(a: AnyView)
    requires
        is_kept(a),
    ensures
        any_from_value(value_from_any(a)) == a,
    decreases a,
{
    reveal_with_fuel(is_kept, 2);
    match a {
        AnyView::Str(s) => {
            encode_utf8_valid_utf8(s);
            encode_utf8_decode_utf8(s);
        },
        AnyView::Array(items) => {
            lemma_value_from_array(items);
            let values = values_from_anys(items);
            lemma_any_from_array(values);
            assert forall|i: int| 0 <= i < items.len() implies anys_from_values(values)[i]
                == items[i] by {
                law_attribute_value_round_trip(items[i]);
            }
            assert(anys_from_values(values) =~= items);
        },
        AnyView::Kvlist(kvs) => {
            lemma_object_of_ordered(kvs);
            let m = fields_of(kvs);
            lemma_any_from_object(m);
            assert forall|i: int| 0 <= i < kvs.len() implies kvs_from_object(m)[i] == kvs[i] by {
                assert(kvs[i].1 is Some);
                law_attribute_value_round_trip(kvs[i].1->0);
            }
            assert(kvs_from_object(m) =~= kvs);
        },
        _ => {},
    }
}

/// A value that is stored as an attribute value and read again is the same, unless it is one that
/// cannot be told from the attribute value it is stored as.
pub proof fn law_value_round_trip(v: ValueView)
    requires
        is_stored(v),
    ensures
        value_from_any(any_from_value(v)) == v,
    decreases v,
{
    reveal_with_fuel(is_stored, 2);
    match v {
        ValueView::Bytes(b) => {
            if valid_utf8(b) {
                decode_utf8_encode_utf8(b);
            }
        },
        ValueView::Array(a) => {
            lemma_any_from_array(a);
            let anys = anys_from_values(a);
            lemma_value_from_array(anys);
            assert forall|i: int| 0 <= i < a.len() implies values_from_anys(anys)[i] == a[i] by {
                law_value_round_trip(a[i]);
            }
            assert(values_from_anys(anys) =~= a);
        },
        ValueView::Object(m) => {
            lemma_any_from_object(m);
            let kvs = kvs_from_object(m);
            lemma_keys_ordered(m, filled(kvs));
            lemma_object_of_ordered(kvs);
            assert forall|i: int| 0 <= i < m.len() implies fields_of(kvs)[i] == m[i] by {
                law_value_round_trip(m[i].1);
            }
            assert(fields_of(kvs) =~= m);
            assert(value_from_any(AnyView::Kvlist(kvs)) == ValueView::Object(object_from_kvs(kvs)));
        },
        _ => {},
    }
}

/// Attributes that are read as an object and stored again are the same, if each of their values is.
pub proof fn law_attributes_round_trip(attrs: Seq<(Seq<char>, AnyView)>)
    requires
        forall|i: int| 0 <= i < attrs.len() ==> is_kept((#[trigger] attrs[i]).1),
    ensures
        attrs_from_object(object_from_attrs(attrs)) == attrs,
{
    let m = object_from_attrs(attrs);
    assert forall|i: int| 0 <= i < attrs.len() implies attrs_from_object(m)[i] == attrs[i] by {
        law_attribute_value_round_trip(attrs[i].1);
    }
    assert(attrs_from_object(m) =~= attrs);
}

/// Attributes that are written as a list of named ones and read from it are the same.
pub proof fn law_key_values_round_trip(attrs: Seq<(Seq<char>, AnyView)>)
    requires
        ordered(attrs),
    ensures
        attrs_from_kvs(kvs_from_attrs(attrs)) == attrs,
    decreases attrs.len(),
{
    let kvs = kvs_from_attrs(attrs);
    if attrs.len() == 0 {
        assert(attrs =~= Seq::empty());
    } else {
        let before = attrs.drop_last();
        lemma_prefix_ordered(attrs);
        law_key_values_round_trip(before);
        assert(kvs.drop_last() =~= kvs_from_attrs(before));
        let (key, v) = attrs.last();
        assert(attrs =~= before.push((key, v)));
        lemma_with_last(before, key, v);
        assert(or_empty(kvs.last().1) == v);
        assert(gathered(None, v) == v);
    }
}

/// Named attributes in order are gathered as they stand.
pub proof fn lemma_gathered(kvs: Seq<(Seq<char>, Option<AnyView>)>)
    requires
        kvs_ordered(kvs),
    ensures
        attrs_from_kvs(kvs) == filled(kvs),
    decreases kvs.len(),
{
    let all = filled(kvs);
    if kvs.len() == 0 {
        assert(all =~= Seq::empty());
    } else {
        let before = kvs.drop_last();
        lemma_prefix_ordered(all);
        assert(all.drop_last() =~= filled(before));
        lemma_gathered(before);
        let (key, v) = all.last();
        assert(all =~= filled(before).push((key, v)));
        lemma_with_last(filled(before), key, v);
    }
}

/// A value that is added to named attributes is found under its name: alone where there was none, at the
/// end of a list where there was one, and in a list behind the one that was there. The others stay.
pub proof fn law_same_names_are_gathered(
    kvs: Seq<(Seq<char>, Option<AnyView>)>,
    key: Seq<char>,
    v: AnyView,
    other: Seq<char>,
)
    requires
        other != key,
    ensures
        ({
            let before = attrs_from_kvs(kvs);
            let after = attrs_from_kvs(kvs.push((key, Some(v))));
            &&& ordered(after)
            &&& value_of(after, other) == value_of(before, other)
            &&& value_of(after, key) == match value_of(before, key) {
                None => Some(v),
                Some(AnyView::Array(items)) => Some(AnyView::Array(items.push(v))),
                Some(first) => Some(AnyView::Array(seq![first, v])),
            }
        }),
{
    lemma_attrs_ordered(kvs);
    assert(kvs.push((key, Some(v))).drop_last() =~= kvs);
    let before = attrs_from_kvs(kvs);
    law_read_after_write(before, key, gathered(value_of(before, key), v));
}

proof fn lemma_attrs_ordered(kvs: Seq<(Seq<char>, Option<AnyView>)>)
    ensures
        ordered(attrs_from_kvs(kvs)),
    decreases kvs.len(),
{
    if kvs.len() > 0 {
        let before = attrs_from_kvs(kvs.drop_last());
        lemma_attrs_ordered(kvs.drop_last());
        let (key, v) = kvs.last();
        law_read_after_write(before, key, gathered(value_of(before, key), or_empty(v)));
    }
}

} // verus!
