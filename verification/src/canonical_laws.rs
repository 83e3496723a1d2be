//! What holds of the resource and the scope of an event: the object that the event is read as gives
//! them back.
use vstd::prelude::*;
use vstd::utf8::{encode_utf8_decode_utf8, encode_utf8_valid_utf8};

use crate::any_value::{value_from_any, AnyView};
use crate::attributes::{attrs_from_object, lemma_put_back, object_from_attrs};
use crate::canonical::{
    resource_fields, restored_resource, restored_resource_attrs, restored_scope,
    restored_scope_attrs, scope_attrs_of, scope_fields, text_or_empty, with_text, without_object,
};
use crate::keyed::{ordered, slot_of, value_of, with_entry, without_entry};
use crate::map_laws::{
    law_read_after_remove, law_read_after_write, law_same_entries, lemma_entry_found,
    lemma_found_entry,
};
use crate::otlp::{ResourceView, ScopeView};
use crate::otlp_json::otlp_kvs;
use crate::place_laws::lemma_with_text;
use crate::time::wrap_u32;
use crate::value::ValueView;
use crate::value_laws::{is_kept, law_attributes_round_trip, lemma_keys_ordered};

verus! {

/// Whether each of the values can be told from the value it is read as.
pub open spec fn all_kept(attrs: Seq<(Seq<char>, AnyView)>) -> bool {
    forall|i: int| 0 <= i < attrs.len() ==> is_kept((#[trigger] attrs[i]).1)
}

/// Whether the field `attributes` of an object is not taken for a list of named attributes: it is
/// not there, or it is no such list.
pub open spec fn names_no_attributes(m: Seq<(Seq<char>, ValueView)>) -> bool {
    value_of(m, "attributes"@) matches Some(ValueView::Array(arr)) ==> otlp_kvs(arr) is None
}

/// Whether the object that a resource is read as gives it back: there is a resource exactly where
/// that object is not empty, and its attributes are not taken for something else.
pub open spec fn resource_is_kept(
    resource: Option<ResourceView>,
    attrs: Seq<(Seq<char>, AnyView)>,
) -> bool {
    &&& resource is Some <==> resource_fields(resource, attrs).len() > 0
    &&& resource matches Some(r) ==> r.attributes.len() == 0
    &&& all_kept(attrs)
    &&& value_of(attrs, "dropped_attributes_count"@) is None
    &&& names_no_attributes(object_from_attrs(attrs))
}

/// Whether the object that a scope is read as gives it back: there is a scope exactly where that
/// object is not empty, and it was not counted how many of its attributes were dropped.
pub open spec fn scope_is_kept(scope: Option<ScopeView>, attrs: Seq<(Seq<char>, AnyView)>) -> bool {
    &&& scope is Some <==> scope_fields(scope, attrs).len() > 0
    &&& scope matches Some(s) ==> s.attributes.len() == 0 && s.dropped_attributes_count == 0
    &&& all_kept(attrs)
}

/// An attribute is there under a name in the attributes exactly where a field is in the object that
/// they are read as.
pub proof fn lemma_same_names(attrs: Seq<(Seq<char>, AnyView)>, key: Seq<char>)
    requires
        ordered(attrs),
    ensures
        ordered(object_from_attrs(attrs)),
        value_of(object_from_attrs(attrs), key) == match value_of(attrs, key) {
            Some(a) => Some(value_from_any(a)),
            None => None,
        },
{
    let m = object_from_attrs(attrs);
    lemma_keys_ordered(attrs, m);
    if value_of(attrs, key) is Some {
        lemma_found_entry(attrs, key);
        let i = slot_of(attrs, key);
        lemma_entry_found(m, i);
    } else if value_of(m, key) is Some {
        lemma_found_entry(m, key);
        let i = slot_of(m, key);
        lemma_entry_found(attrs, i);
    }
}

/// The fields of an object are stored as the attributes that they were read from, also where one of
/// them is an array under the name `attributes`.
pub proof fn lemma_attrs_back(attrs: Seq<(Seq<char>, AnyView)>)
    requires
        ordered(attrs),
        all_kept(attrs),
    ensures
        ({
            let m = object_from_attrs(attrs);
            let others = without_entry(m, "attributes"@);
            &&& attrs_from_object(m) == attrs
            &&& value_of(m, "attributes"@) is None ==> others == m
            &&& value_of(m, "attributes"@) matches Some(v) ==> with_entry(others, "attributes"@, v)
                == m
        }),
{
    let m = object_from_attrs(attrs);
    law_attributes_round_trip(attrs);
    lemma_keys_ordered(attrs, m);
    if let Some(v) = value_of(m, "attributes"@) {
        lemma_put_back(m, "attributes"@, v);
        law_read_after_write(m, "attributes"@, v);
        law_same_entries(with_entry(m, "attributes"@, v), m);
    }
}

/// The object that a resource is read as gives back the resource and its attributes.
pub proof fn law_resource_round_trip(
    m: Seq<(Seq<char>, ValueView)>,
    resource: Option<ResourceView>,
    attrs: Seq<(Seq<char>, AnyView)>,
)
    requires
        ordered(attrs),
        resource_is_kept(resource, attrs),
        match resource {
            Some(_) => value_of(m, "resource"@) == Some(
                ValueView::Object(resource_fields(resource, attrs)),
            ),
            None => !(value_of(m, "resource"@) matches Some(ValueView::Object(_))),
        },
    ensures
        restored_resource(m) == resource,
        restored_resource_attrs(m) == attrs,
{
    let key = "dropped_attributes_count"@;
    let obj = object_from_attrs(attrs);
    lemma_same_names(attrs, key);
    match resource {
        Some(r) => {
            let res = resource_fields(resource, attrs);
            let count = r.dropped_attributes_count;
            law_read_after_write(obj, key, ValueView::Integer(count as i64));
            law_read_after_remove(res, key);
            assert forall|k: Seq<char>| #[trigger]
                value_of(without_entry(res, key), k) == value_of(obj, k) by {
                assert(value_of(res, k) == value_of(res, k));
            }
            law_same_entries(without_entry(res, key), obj);
            lemma_attrs_back(attrs);
            assert(wrap_u32(count as int) == count);
            assert(r.attributes =~= Seq::empty());
        },
        None => {
            assert(attrs.len() == 0);
            assert(attrs =~= Seq::empty());
        },
    }
}

/// The object that a scope is read as gives back the scope and its attributes.
pub proof fn law_scope_round_trip(
    m: Seq<(Seq<char>, ValueView)>,
    scope: Option<ScopeView>,
    attrs: Seq<(Seq<char>, AnyView)>,
)
    requires
        ordered(attrs),
        scope_is_kept(scope, attrs),
        match scope {
            Some(_) => value_of(m, "scope"@) == Some(ValueView::Object(scope_fields(scope, attrs))),
            None => !(value_of(m, "scope"@) matches Some(ValueView::Object(_))),
        },
    ensures
        restored_scope(m) == scope,
        restored_scope_attrs(m) == attrs,
{
    match scope {
        Some(s) => {
            reveal_strlit("name");
            reveal_strlit("version");
            reveal_strlit("attributes");
            let none = Seq::<(Seq<char>, ValueView)>::empty();
            let named = with_text(none, "name"@, s.name);
            let both = with_text(named, "version"@, s.version);
            let obj = ValueView::Object(object_from_attrs(attrs));
            let full = scope_fields(scope, attrs);
            lemma_with_text(none, "name"@, s.name);
            lemma_with_text(named, "version"@, s.version);
            law_read_after_write(both, "attributes"@, obj);
            assert(value_of(none, "name"@) is None);
            assert(value_of(none, "version"@) is None);
            assert(value_of(none, "attributes"@) is None);
            assert(value_of(named, "name"@) == value_of(named, "name"@));
            assert(value_of(both, "name"@) == value_of(named, "name"@));
            assert(value_of(both, "attributes"@) is None);
            law_read_after_remove(full, "name"@);
            law_read_after_remove(without_entry(full, "name"@), "version"@);
            assert(value_of(without_entry(full, "name"@), "version"@) == value_of(
                full,
                "version"@,
            ));
            encode_utf8_valid_utf8(s.name);
            encode_utf8_decode_utf8(s.name);
            encode_utf8_valid_utf8(s.version);
            encode_utf8_decode_utf8(s.version);
            lemma_attrs_back(attrs);
            assert(text_or_empty(value_of(full, "name"@)) =~= s.name);
            assert(text_or_empty(value_of(full, "version"@)) =~= s.version);
            assert(scope_attrs_of(full) =~= attrs);
            assert(s.attributes =~= Seq::empty());
            if s.name.len() == 0 && s.version.len() == 0 && attrs.len() == 0 {
                assert(full == none);
            }
        },
        None => {
            assert(attrs.len() == 0) by {
                if attrs.len() > 0 {
                    let none = Seq::<(Seq<char>, ValueView)>::empty();
                    law_read_after_write(
                        none,
                        "attributes"@,
                        ValueView::Object(object_from_attrs(attrs)),
                    );
                    lemma_found_entry(scope_fields(scope, attrs), "attributes"@);
                }
            }
            assert(attrs =~= Seq::empty());
        },
    }
}

/// What is left of an object when the resource and the scope were taken out: what was there beside
/// them.
pub proof fn lemma_without_object(m: Seq<(Seq<char>, ValueView)>, key: Seq<char>)
    requires
        ordered(m),
    ensures
        ordered(without_object(m, key)),
        forall|k: Seq<char>|
            #![trigger value_of(without_object(m, key), k)]
            value_of(without_object(m, key), k) == if k == key && value_of(m, key)->0 is Object {
                None
            } else {
                value_of(m, k)
            },
{
    law_read_after_remove(m, key);
    if let Some(v) = value_of(m, key) {
        law_read_after_write(without_entry(m, key), key, v);
        assert forall|k: Seq<char>|
            #![trigger value_of(without_object(m, key), k)]
            value_of(without_object(m, key), k) == if k == key && value_of(m, key)->0 is Object {
                None
            } else {
                value_of(m, k)
            } by {
            assert(value_of(without_entry(m, key), k) == value_of(without_entry(m, key), k));
        }
    }
}

} // verus!
