//! The parts that logs and spans have in common: the resource and the scope, as they stand in the
//! object that an event is read as.
use vstd::prelude::*;
use vstd::utf8::{decode_utf8, valid_utf8};

use crate::any_value::{
    any_from_value, any_value_to_vrl, kvs_view, value_from_any, vrl_value_to_any_value, AnyValue,
    AnyView, KeyValue,
};
use crate::attributes::{
    attrs_from_object, attrs_overlaid, filled, kvs_from_attrs, object_from_attrs, OtelAttributes,
};
use crate::fields::{dropped, field_path, insert_value_at, names, navigate_value, remove_value_at};
use crate::keyed::{opt_view, value_of, with_entry, without_entry, KeyedMap};
use crate::otlp::{InstrumentationScope, Resource, ResourceView, ScopeView};
use crate::otlp_json::{otlp_kvs, parse_otlp_key_value_array};
use crate::path::{fetched, stored};
use crate::text::{str_eq, utf8_text};
use crate::time::{to_u32, wrap_u32};
use crate::value::{lemma_array_view, lemma_object_view, Value, ValueView};

verus! {

/// The fields of an object, in order.
pub type Obj = Seq<(Seq<char>, ValueView)>;

/// Attributes by name, in order.
pub type Attrs = Seq<(Seq<char>, AnyView)>;

/// The resource with its attributes, or nothing where there is neither.
pub open spec fn full_resource(resource: Option<ResourceView>, attrs: Seq<(Seq<char>, AnyView)>) -> Option<ResourceView> {
    if resource is None && attrs.len() == 0 {
        None
    } else {
        let r = match resource {
            Some(r) => r,
            None => ResourceView::default_view(),
        };
        Some(ResourceView { attributes: kvs_from_attrs(attrs), ..r })
    }
}

/// The scope with its attributes, or nothing where there is neither.
pub open spec fn full_scope(scope: Option<ScopeView>, attrs: Seq<(Seq<char>, AnyView)>) -> Option<ScopeView> {
    if scope is None && attrs.len() == 0 {
        None
    } else {
        let s = match scope {
            Some(s) => s,
            None => ScopeView::default_view(),
        };
        Some(ScopeView { attributes: kvs_from_attrs(attrs), ..s })
    }
}

/// The resource with its attributes, or nothing where there is neither.
pub fn resource_to_proto(resource: Option<&Resource>, attrs: &OtelAttributes) -> (r: Option<Resource>)
    ensures
        opt_view(r) == full_resource(opt_view(resource), attrs@),
{
    if resource.is_none() && attrs.is_empty() {
        return None;
    }
    let mut r = match resource {
        Some(r) => r.clone(),
        None => Resource::default(),
    };
    r.attributes = attrs.to_key_values();
    Some(r)
}

/// The scope with its attributes, or nothing where there is neither.
pub fn scope_to_proto(scope: Option<&InstrumentationScope>, attrs: &OtelAttributes) -> (r: Option<
    InstrumentationScope,
>)
    ensures
        opt_view(r) == full_scope(opt_view(scope), attrs@),
{
    if scope.is_none() && attrs.is_empty() {
        return None;
    }
    let mut s = match scope {
        Some(s) => s.clone(),
        None => InstrumentationScope::default(),
    };
    s.attributes = attrs.to_key_values();
    Some(s)
}

/// The integer that a value is, zero otherwise.
pub open spec fn int_or_zero(v: Option<ValueView>) -> i64 {
    match v {
        Some(ValueView::Integer(i)) => i,
        _ => 0,
    }
}

/// The text that a value is, empty otherwise.
pub open spec fn text_or_empty(v: Option<ValueView>) -> Seq<char> {
    match v {
        Some(ValueView::Bytes(b)) => if valid_utf8(b) {
            decode_utf8(b)
        } else {
            Seq::empty()
        },
        _ => Seq::empty(),
    }
}

pub fn integer_or_zero(v: Option<Value>) -> (r: i64)
    ensures
        r == int_or_zero(opt_view(v)),
{
    match v {
        Some(Value::Integer(i)) => i,
        _ => 0,
    }
}

pub fn string_or_empty(v: Option<Value>) -> (r: String)
    ensures
        r@ == text_or_empty(opt_view(v)),
{
    match v {
        Some(Value::Bytes(b)) => match utf8_text(b.as_slice()) {
            Some(s) => s,
            None => String::new(),
        },
        _ => String::new(),
    }
}

/// The attributes that a list of named ones sets, one by one.
pub fn attributes_of(kvs: Vec<KeyValue>) -> (r: OtelAttributes)
    ensures
        r@ == attrs_overlaid(Seq::empty(), filled(kvs_view(kvs@))),
        r.wf(),
{
    let mut attrs = OtelAttributes::new();
    let ghost all = filled(kvs_view(kvs@));
    assert(all.take(0) =~= Seq::empty());
    for kv in it: kvs
        invariant
            all == filled(kvs_view(kvs@)),
            it.seq() == kvs@,
            attrs@ == attrs_overlaid(Seq::empty(), all.take(it.index() as int)),
            attrs.wf(),
    {
        let ghost i = it.index() as int;
        assert(all.take(i + 1).drop_last() =~= all.take(i));
        let value = match kv.value {
            Some(v) => v,
            None => AnyValue::empty(),
        };
        attrs.insert(kv.key, value);
    }
    assert(all.take(all.len() as int) =~= all);
    attrs
}

/// The resource that the field `resource` of an object gives, without its attributes.
pub open spec fn restored_resource(m: Seq<(Seq<char>, ValueView)>) -> Option<ResourceView> {
    match value_of(m, "resource"@) {
        Some(ValueView::Object(res)) => Some(
            ResourceView {
                attributes: Seq::empty(),
                dropped_attributes_count: wrap_u32(
                    int_or_zero(value_of(res, "dropped_attributes_count"@)) as int,
                ),
            },
        ),
        _ => None,
    }
}

/// The attributes of the resource that the field `resource` of an object gives: a list of named
/// attributes in its field `attributes`, or else all its fields, one of that name among them.
pub open spec fn restored_resource_attrs(m: Seq<(Seq<char>, ValueView)>) -> Seq<(Seq<char>, AnyView)> {
    match value_of(m, "resource"@) {
        Some(ValueView::Object(res)) => {
            let fields = without_entry(res, "dropped_attributes_count"@);
            let others = without_entry(fields, "attributes"@);
            match value_of(fields, "attributes"@) {
                Some(ValueView::Array(arr)) => match otlp_kvs(arr) {
                    Some(kvs) => attrs_overlaid(Seq::empty(), filled(kvs)),
                    None => attrs_from_object(
                        with_entry(others, "attributes"@, ValueView::Array(arr)),
                    ),
                },
                Some(v) => attrs_from_object(with_entry(others, "attributes"@, v)),
                None => attrs_from_object(others),
            }
        },
        _ => Seq::empty(),
    }
}

/// What is left of an object when the field `key` was taken out for being an object: another value
/// is put back.
pub open spec fn without_object(m: Seq<(Seq<char>, ValueView)>, key: Seq<char>) -> Seq<(Seq<char>, ValueView)> {
    match value_of(m, key) {
        Some(ValueView::Object(_)) => without_entry(m, key),
        Some(other) => with_entry(without_entry(m, key), key, other),
        None => m,
    }
}

/// Takes the resource and its attributes out of the field `resource` of an object.
pub fn restore_resource(map: &mut KeyedMap<Value>) -> (r: (Option<Resource>, OtelAttributes))
    ensures
        opt_view(r.0) == restored_resource(old(map)@),
        r.1@ == restored_resource_attrs(old(map)@),
        final(map)@ == without_object(old(map)@, "resource"@),
        old(map).wf() ==> final(map).wf(),
{
    match map.remove("resource") {
        Some(Value::Object(fields)) => {
            proof {
                lemma_object_view(fields);
            }
            let mut fields = fields;
            let count = to_u32(integer_or_zero(fields.remove("dropped_attributes_count")));
            let attrs = match fields.remove("attributes") {
                Some(Value::Array(arr)) => {
                    proof {
                        lemma_array_view(arr);
                    }
                    match parse_otlp_key_value_array(&arr) {
                        Some(kvs) => attributes_of(kvs),
                        None => {
                            fields.insert("attributes".to_owned(), Value::Array(arr));
                            OtelAttributes::from_object_map(&fields)
                        },
                    }
                },
                Some(v) => {
                    fields.insert("attributes".to_owned(), v);
                    OtelAttributes::from_object_map(&fields)
                },
                None => OtelAttributes::from_object_map(&fields),
            };
            let resource = Resource { attributes: Vec::new(), dropped_attributes_count: count };
            assert(kvs_view(resource.attributes@) =~= Seq::empty());
            (Some(resource), attrs)
        },
        Some(other) => {
            map.insert("resource".to_owned(), other);
            (None, OtelAttributes::new())
        },
        None => (None, OtelAttributes::new()),
    }
}

/// The attributes of the scope that the field `scope` of an object gives, in its field
/// `attributes`: a list of named attributes, or an object.
pub open spec fn scope_attrs_of(scope: Seq<(Seq<char>, ValueView)>) -> Seq<(Seq<char>, AnyView)> {
    match value_of(without_entry(without_entry(scope, "name"@), "version"@), "attributes"@) {
        Some(ValueView::Array(arr)) => match otlp_kvs(arr) {
            Some(kvs) => attrs_overlaid(Seq::empty(), filled(kvs)),
            None => Seq::empty(),
        },
        Some(ValueView::Object(attrs)) => attrs_from_object(attrs),
        _ => Seq::empty(),
    }
}

/// The scope that the field `scope` of an object gives, without its attributes, and nothing where
/// it has neither name nor version nor attributes.
pub open spec fn restored_scope(m: Seq<(Seq<char>, ValueView)>) -> Option<ScopeView> {
    match value_of(m, "scope"@) {
        Some(ValueView::Object(scope)) => {
            let name = text_or_empty(value_of(scope, "name"@));
            let version = text_or_empty(value_of(without_entry(scope, "name"@), "version"@));
            if name.len() == 0 && version.len() == 0 && scope_attrs_of(scope).len() == 0 {
                None
            } else {
                Some(
                    ScopeView {
                        name,
                        version,
                        attributes: Seq::empty(),
                        dropped_attributes_count: 0,
                    },
                )
            }
        },
        _ => None,
    }
}

/// The attributes of the scope that the field `scope` of an object gives.
pub open spec fn restored_scope_attrs(m: Seq<(Seq<char>, ValueView)>) -> Seq<(Seq<char>, AnyView)> {
    match value_of(m, "scope"@) {
        Some(ValueView::Object(scope)) => scope_attrs_of(scope),
        _ => Seq::empty(),
    }
}

/// Takes the scope and its attributes out of the field `scope` of an object.
pub fn restore_scope(map: &mut KeyedMap<Value>) -> (r: (Option<InstrumentationScope>, OtelAttributes))
    ensures
        opt_view(r.0) == restored_scope(old(map)@),
        r.1@ == restored_scope_attrs(old(map)@),
        final(map)@ == without_object(old(map)@, "scope"@),
        old(map).wf() ==> final(map).wf(),
{
    match map.remove("scope") {
        Some(Value::Object(fields)) => {
            proof {
                lemma_object_view(fields);
            }
            let mut fields = fields;
            let name = string_or_empty(fields.remove("name"));
            let version = string_or_empty(fields.remove("version"));
            let attrs = match fields.remove("attributes") {
                Some(Value::Array(arr)) => {
                    proof {
                        lemma_array_view(arr);
                    }
                    match parse_otlp_key_value_array(&arr) {
                        Some(kvs) => attributes_of(kvs),
                        None => OtelAttributes::new(),
                    }
                },
                Some(Value::Object(attrs)) => {
                    proof {
                        lemma_object_view(attrs);
                    }
                    OtelAttributes::from_object_map(&attrs)
                },
                _ => OtelAttributes::new(),
            };
            if name.as_str().is_empty() && version.as_str().is_empty() && attrs.is_empty() {
                let none = OtelAttributes::new();
                assert(attrs@ =~= none@);
                (None, none)
            } else {
                let scope = InstrumentationScope {
                    name,
                    version,
                    attributes: Vec::new(),
                    dropped_attributes_count: 0,
                };
                assert(kvs_view(scope.attributes@) =~= Seq::empty());
                (Some(scope), attrs)
            }
        },
        Some(other) => {
            map.insert("scope".to_owned(), other);
            (None, OtelAttributes::new())
        },
        None => (None, OtelAttributes::new()),
    }
}

/// The fields of the object that a resource is read as.
pub open spec fn resource_fields(
    resource: Option<ResourceView>,
    attrs: Seq<(Seq<char>, AnyView)>,
) -> Seq<(Seq<char>, ValueView)> {
    let fields = object_from_attrs(attrs);
    match resource {
        Some(r) => if r.dropped_attributes_count != 0 {
            with_entry(
                fields,
                "dropped_attributes_count"@,
                ValueView::Integer(r.dropped_attributes_count as i64),
            )
        } else {
            fields
        },
        None => fields,
    }
}

/// The object with a text field added, unless the text is empty.
pub open spec fn with_text(m: Seq<(Seq<char>, ValueView)>, key: Seq<char>, text: Seq<char>) -> Seq<
    (Seq<char>, ValueView),
> {
    if text.len() == 0 {
        m
    } else {
        with_entry(m, key, ValueView::text(text))
    }
}

/// The fields of the object that a scope is read as.
pub open spec fn scope_fields(scope: Option<ScopeView>, attrs: Seq<(Seq<char>, AnyView)>) -> Seq<
    (Seq<char>, ValueView),
> {
    let named = match scope {
        Some(s) => with_text(with_text(Seq::empty(), "name"@, s.name), "version"@, s.version),
        None => Seq::empty(),
    };
    if attrs.len() == 0 {
        named
    } else {
        with_entry(named, "attributes"@, ValueView::Object(object_from_attrs(attrs)))
    }
}

/// The object with a field for another object added, unless that one is empty.
pub open spec fn with_object(
    m: Seq<(Seq<char>, ValueView)>,
    key: Seq<char>,
    fields: Seq<(Seq<char>, ValueView)>,
) -> Seq<(Seq<char>, ValueView)> {
    if fields.len() == 0 {
        m
    } else {
        with_entry(m, key, ValueView::Object(fields))
    }
}

/// The object with the resource and the scope added.
pub open spec fn with_resource_scope(
    m: Seq<(Seq<char>, ValueView)>,
    resource: Option<ResourceView>,
    resource_attrs: Seq<(Seq<char>, AnyView)>,
    scope: Option<ScopeView>,
    scope_attrs: Seq<(Seq<char>, AnyView)>,
) -> Seq<(Seq<char>, ValueView)> {
    with_object(
        with_object(m, "resource"@, resource_fields(resource, resource_attrs)),
        "scope"@,
        scope_fields(scope, scope_attrs),
    )
}

/// Adds a text field to an object, unless the text is empty.
pub fn put_text(map: &mut KeyedMap<Value>, key: &str, text: &str)
    ensures
        final(map)@ == with_text(old(map)@, key@, text@),
        old(map).wf() ==> final(map).wf(),
{
    if !text.is_empty() {
        map.insert(key.to_owned(), Value::from_text(text));
    }
}

/// Adds a field for another object to an object, unless that one is empty.
pub fn put_object(map: &mut KeyedMap<Value>, key: &str, fields: KeyedMap<Value>)
    ensures
        final(map)@ == with_object(old(map)@, key@, fields@),
        old(map).wf() ==> final(map).wf(),
{
    if !fields.is_empty() {
        proof {
            lemma_object_view(fields);
        }
        map.insert(key.to_owned(), Value::Object(fields));
    }
}

/// Adds the resource and the scope to the object that an event is read as.
pub fn append_canonical_resource_scope(
    map: &mut KeyedMap<Value>,
    resource: Option<&Resource>,
    resource_attrs: &OtelAttributes,
    scope: Option<&InstrumentationScope>,
    scope_attrs: &OtelAttributes,
)
    ensures
        final(map)@ == with_resource_scope(
            old(map)@,
            opt_view(resource),
            resource_attrs@,
            opt_view(scope),
            scope_attrs@,
        ),
        old(map).wf() ==> final(map).wf(),
{
    let mut res_map = resource_attrs.to_object_map();
    match resource {
        Some(res) => {
            if res.dropped_attributes_count != 0 {
                res_map.insert(
                    "dropped_attributes_count".to_owned(),
                    Value::Integer(res.dropped_attributes_count as i64),
                );
            }
        },
        None => {},
    }
    put_object(map, "resource", res_map);
    let mut scope_map = KeyedMap::<Value>::new();
    match scope {
        Some(s) => {
            put_text(&mut scope_map, "name", s.name.as_str());
            put_text(&mut scope_map, "version", s.version.as_str());
        },
        None => {},
    }
    if !scope_attrs.is_empty() {
        let attrs = scope_attrs.to_object_map();
        proof {
            lemma_object_view(attrs);
        }
        scope_map.insert("attributes".to_owned(), Value::Object(attrs));
    }
    put_object(map, "scope", scope_map);
}

/// What is read at the field names `path`, the first of which names an attribute.
pub open spec fn attr_at(attrs: Seq<(Seq<char>, AnyView)>, path: Seq<Seq<char>>) -> Option<ValueView> {
    match value_of(attrs, path[0]) {
        Some(a) => fetched(value_from_any(a), field_path(path.drop_first())),
        None => None,
    }
}

/// The attributes after `new` was written at the field names `path`, the first of which names an
/// attribute.
pub open spec fn attrs_with(
    attrs: Seq<(Seq<char>, AnyView)>,
    path: Seq<Seq<char>>,
    new: ValueView,
) -> Seq<(Seq<char>, AnyView)> {
    let place = match value_of(attrs, path[0]) {
        Some(a) => value_from_any(a),
        None => ValueView::empty_object(),
    };
    with_entry(
        attrs,
        path[0],
        any_from_value(stored(Some(place), field_path(path.drop_first()), new)),
    )
}

/// The attributes after what stands at the field names `path` was removed. With `prune`, an attribute
/// that is left an empty object by that goes too.
pub open spec fn attrs_without(
    attrs: Seq<(Seq<char>, AnyView)>,
    path: Seq<Seq<char>>,
    prune: bool,
) -> Seq<(Seq<char>, AnyView)> {
    if path.len() == 1 {
        without_entry(attrs, path[0])
    } else {
        match value_of(attrs, path[0]) {
            Some(a) => {
                let rest = dropped(value_from_any(a), path.drop_first(), prune);
                if prune && attr_at(attrs, path) is Some && rest == ValueView::empty_object() {
                    without_entry(attrs, path[0])
                } else {
                    with_entry(attrs, path[0], any_from_value(rest))
                }
            },
            None => attrs,
        }
    }
}

/// The attributes after what stands at the field names `path`, of which there are two or more, was
/// removed. Nothing changes where nothing stands there; with `prune`, an attribute that is left an
/// empty object goes too.
pub open spec fn attrs_pruned(
    attrs: Seq<(Seq<char>, AnyView)>,
    path: Seq<Seq<char>>,
    prune: bool,
) -> Seq<(Seq<char>, AnyView)> {
    if attr_at(attrs, path) is None {
        attrs
    } else {
        let rest = dropped(value_from_any(value_of(attrs, path[0])->0), path.drop_first(), prune);
        if prune && rest == ValueView::empty_object() {
            without_entry(attrs, path[0])
        } else {
            with_entry(attrs, path[0], any_from_value(rest))
        }
    }
}

proof fn lemma_path_parts(fields: Seq<String>, from: int)
    requires
        0 <= from < fields.len(),
    ensures
        names(fields).skip(from)[0] == fields[from]@,
        names(fields).skip(from).drop_first() == names(fields).skip(from + 1),
        field_path(names(fields).skip(fields.len() as int)).len() == 0,
{
    assert(names(fields).skip(from).drop_first() =~= names(fields).skip(from + 1));
}

/// What is read at the field names from `from` on, the first of which names an attribute.
pub fn get_attr_path(attrs: &OtelAttributes, fields: &Vec<String>, from: usize) -> (r: Option<Value>)
    requires
        from < fields.len(),
    ensures
        opt_view(r) == attr_at(attrs@, names(fields@).skip(from as int)),
{
    proof {
        lemma_path_parts(fields@, from as int);
    }
    match attrs.get(fields[from].as_str()) {
        Some(av) => {
            let v = any_value_to_vrl(av);
            navigate_value(&v, fields, from + 1)
        },
        None => None,
    }
}

/// Writes `value` at the field names from `from` on, the first of which names an attribute.
pub fn insert_attr_path(attrs: &mut OtelAttributes, fields: &Vec<String>, from: usize, value: Value) -> (r:
    Option<Value>)
    requires
        from < fields.len(),
    ensures
        final(attrs)@ == attrs_with(old(attrs)@, names(fields@).skip(from as int), value@),
        opt_view(r) == attr_at(old(attrs)@, names(fields@).skip(from as int)),
        old(attrs).wf() ==> final(attrs).wf(),
{
    proof {
        lemma_path_parts(fields@, from as int);
    }
    let (v, had) = match attrs.get(fields[from].as_str()) {
        Some(av) => (any_value_to_vrl(av), true),
        None => (Value::new_object(), false),
    };
    let mut v = v;
    let ghost place = v@;
    let ghost path = field_path(names(fields@).skip(from + 1));
    let old = if from == fields.len() - 1 {
        let mut new = value;
        std::mem::swap(&mut v, &mut new);
        Some(new)
    } else {
        insert_value_at(&mut v, fields, from + 1, value)
    };
    attrs.insert(fields[from].clone(), vrl_value_to_any_value(&v));
    if had {
        old
    } else {
        None
    }
}

/// Whether a value is an object without fields.
fn is_empty_object(v: &Value) -> (r: bool)
    ensures
        r == (v@ == ValueView::empty_object()),
{
    match v {
        Value::Object(map) => {
            proof {
                lemma_object_view(*map);
                if map@.len() == 0 {
                    assert(map@ =~= Seq::empty());
                }
            }
            map.is_empty()
        },
        _ => false,
    }
}

/// Removes what stands at the field names from `from` on among the attributes of a resource or a
/// scope.
pub fn remove_resource_subpath(
    resource_attrs: &mut OtelAttributes,
    fields: &Vec<String>,
    from: usize,
    prune: bool,
) -> (r: Option<Value>)
    requires
        from < fields.len(),
    ensures
        final(resource_attrs)@ == attrs_without(
            old(resource_attrs)@,
            names(fields@).skip(from as int),
            prune,
        ),
        opt_view(r) == attr_at(old(resource_attrs)@, names(fields@).skip(from as int)),
        old(resource_attrs).wf() ==> final(resource_attrs).wf(),
{
    proof {
        lemma_path_parts(fields@, from as int);
    }
    let key: &str = fields[from].as_str();
    if from == fields.len() - 1 {
        match resource_attrs.remove(key) {
            Some(av) => {
                let v = any_value_to_vrl(&av);
                assert(fetched(v@, field_path(names(fields@).skip(from + 1))) == Some(v@));
                Some(v)
            },
            None => None,
        }
    } else {
        let mut v = match resource_attrs.get(key) {
            Some(av) => any_value_to_vrl(av),
            None => {
                return None;
            },
        };
        let result = remove_value_at(&mut v, fields, from + 1, prune);
        if prune && result.is_some() && is_empty_object(&v) {
            resource_attrs.remove(key);
        } else {
            resource_attrs.insert(key.to_owned(), vrl_value_to_any_value(&v));
        }
        result
    }
}

/// Removes what stands at the field names from `from` on, of which there are two or more, among the
/// attributes of an event.
pub fn remove_attrs_subpath(attrs: &mut OtelAttributes, fields: &Vec<String>, from: usize, prune: bool) -> (r:
    Option<Value>)
    requires
        from + 1 < fields.len(),
    ensures
        final(attrs)@ == attrs_pruned(old(attrs)@, names(fields@).skip(from as int), prune),
        opt_view(r) == attr_at(old(attrs)@, names(fields@).skip(from as int)),
        old(attrs).wf() ==> final(attrs).wf(),
{
    proof {
        lemma_path_parts(fields@, from as int);
    }
    let first: &str = fields[from].as_str();
    let mut v = match attrs.get(first) {
        Some(av) => any_value_to_vrl(av),
        None => {
            return None;
        },
    };
    let result = remove_value_at(&mut v, fields, from + 1, prune);
    if result.is_some() {
        if prune && is_empty_object(&v) {
            attrs.remove(first);
        } else {
            attrs.insert(first.to_owned(), vrl_value_to_any_value(&v));
        }
    }
    result
}

/// A text as a value, or nothing where it is empty.
pub open spec fn text_unless_empty(text: Seq<char>) -> Option<ValueView> {
    if text.len() == 0 {
        None
    } else {
        Some(ValueView::text(text))
    }
}

pub fn text_value(text: &str) -> (r: Option<Value>)
    ensures
        opt_view(r) == text_unless_empty(text@),
{
    if text.is_empty() {
        None
    } else {
        Some(Value::from_text(text))
    }
}

/// What is read at the field names `path` within a resource.
pub open spec fn resource_at(
    resource: Option<ResourceView>,
    attrs: Seq<(Seq<char>, AnyView)>,
    path: Seq<Seq<char>>,
) -> Option<ValueView> {
    if path.len() == 1 && path[0] == "dropped_attributes_count"@ {
        match resource {
            Some(r) => if r.dropped_attributes_count != 0 {
                Some(ValueView::Integer(r.dropped_attributes_count as i64))
            } else {
                None
            },
            None => None,
        }
    } else {
        attr_at(attrs, path)
    }
}

/// What is read at the field names `path` within a scope.
pub open spec fn scope_at(
    scope: Option<ScopeView>,
    attrs: Seq<(Seq<char>, AnyView)>,
    path: Seq<Seq<char>>,
) -> Option<ValueView> {
    match scope {
        Some(s) => if path.len() == 1 && path[0] == "name"@ {
            text_unless_empty(s.name)
        } else if path.len() == 1 && path[0] == "version"@ {
            text_unless_empty(s.version)
        } else if path[0] != "attributes"@ {
            None
        } else if path.len() > 1 {
            attr_at(attrs, path.drop_first())
        } else if attrs.len() == 0 {
            None
        } else {
            Some(ValueView::Object(object_from_attrs(attrs)))
        },
        None => None,
    }
}

/// The scope, or an empty one where there is none.
pub open spec fn scope_or_default(scope: Option<ScopeView>) -> ScopeView {
    match scope {
        Some(s) => s,
        None => ScopeView::default_view(),
    }
}

/// The scope after a text was written at the field names `path`.
pub open spec fn scope_with(scope: ScopeView, path: Seq<Seq<char>>, text: Seq<char>) -> ScopeView {
    if path.len() == 1 && path[0] == "name"@ {
        ScopeView { name: text, ..scope }
    } else if path.len() == 1 && path[0] == "version"@ {
        ScopeView { version: text, ..scope }
    } else {
        scope
    }
}

/// The attributes of a scope after `new` was written at the field names `path`.
pub open spec fn scope_attrs_with(
    attrs: Seq<(Seq<char>, AnyView)>,
    path: Seq<Seq<char>>,
    new: ValueView,
) -> Seq<(Seq<char>, AnyView)> {
    if path[0] != "attributes"@ {
        attrs
    } else if path.len() > 1 {
        attrs_with(attrs, path.drop_first(), new)
    } else {
        match new {
            ValueView::Object(m) => attrs_from_object(m),
            _ => attrs,
        }
    }
}

/// The attributes of a scope after what stands at the field names `path` was removed.
pub open spec fn scope_attrs_without(
    attrs: Seq<(Seq<char>, AnyView)>,
    path: Seq<Seq<char>>,
    prune: bool,
) -> Seq<(Seq<char>, AnyView)> {
    if path[0] != "attributes"@ {
        attrs
    } else if path.len() > 1 {
        attrs_without(attrs, path.drop_first(), prune)
    } else {
        Seq::empty()
    }
}

/// What is read at the field names from `from` on within a resource.
pub fn get_resource_path(
    resource: Option<&Resource>,
    attrs: &OtelAttributes,
    fields: &Vec<String>,
    from: usize,
) -> (r: Option<Value>)
    requires
        from < fields.len(),
    ensures
        opt_view(r) == resource_at(opt_view(resource), attrs@, names(fields@).skip(from as int)),
{
    proof {
        lemma_path_parts(fields@, from as int);
    }
    if from == fields.len() - 1 && str_eq(fields[from].as_str(), "dropped_attributes_count") {
        return match resource {
            Some(res) => if res.dropped_attributes_count != 0 {
                Some(Value::Integer(res.dropped_attributes_count as i64))
            } else {
                None
            },
            None => None,
        };
    }
    get_attr_path(attrs, fields, from)
}

/// What is read at the field names from `from` on within a scope.
pub fn get_scope_path(
    scope: Option<&InstrumentationScope>,
    attrs: &OtelAttributes,
    fields: &Vec<String>,
    from: usize,
) -> (r: Option<Value>)
    requires
        from < fields.len(),
    ensures
        opt_view(r) == scope_at(opt_view(scope), attrs@, names(fields@).skip(from as int)),
{
    proof {
        lemma_path_parts(fields@, from as int);
    }
    let scope = match scope {
        Some(s) => s,
        None => {
            return None;
        },
    };
    let last = from == fields.len() - 1;
    let key: &str = fields[from].as_str();
    if last && str_eq(key, "name") {
        text_value(scope.name.as_str())
    } else if last && str_eq(key, "version") {
        text_value(scope.version.as_str())
    } else if !str_eq(key, "attributes") {
        None
    } else if !last {
        get_attr_path(attrs, fields, from + 1)
    } else if attrs.is_empty() {
        None
    } else {
        let map = attrs.to_object_map();
        proof {
            lemma_object_view(map);
        }
        Some(Value::Object(map))
    }
}

proof fn lemma_scope_keys()
    ensures
        "name"@ != "version"@,
        "name"@ != "attributes"@,
        "version"@ != "attributes"@,
{
    reveal_strlit("name");
    reveal_strlit("version");
    reveal_strlit("attributes");
    assert("name"@.len() == 4 && "version"@.len() == 7 && "attributes"@.len() == 10);
}

/// Writes `value` at the field names from `from` on within a scope, which is made where there is
/// none. Where a text is needed, it is the one that the value is shown as.
pub fn insert_scope_path(
    scope: &mut Option<InstrumentationScope>,
    attrs: &mut OtelAttributes,
    fields: &Vec<String>,
    from: usize,
    value: Value,
    rendered: &str,
) -> (r: Option<Value>)
    requires
        from < fields.len(),
    ensures
        opt_view(*final(scope)) == Some(
            scope_with(
                scope_or_default(opt_view(*old(scope))),
                names(fields@).skip(from as int),
                value@.shown(rendered@),
            ),
        ),
        final(attrs)@ == scope_attrs_with(
            old(attrs)@,
            names(fields@).skip(from as int),
            value@,
        ),
        opt_view(r) == scope_at(
            Some(scope_or_default(opt_view(*old(scope)))),
            old(attrs)@,
            names(fields@).skip(from as int),
        ),
{
    proof {
        lemma_path_parts(fields@, from as int);
        lemma_scope_keys();
    }
    let mut s = match scope.take() {
        Some(s) => s,
        None => InstrumentationScope::default(),
    };
    let last = from == fields.len() - 1;
    let key: &str = fields[from].as_str();
    let old = if last && str_eq(key, "name") {
        let old = text_value(s.name.as_str());
        s.name = value.to_string_lossy(rendered);
        old
    } else if last && str_eq(key, "version") {
        let old = text_value(s.version.as_str());
        s.version = value.to_string_lossy(rendered);
        old
    } else if !str_eq(key, "attributes") {
        None
    } else if !last {
        insert_attr_path(attrs, fields, from + 1, value)
    } else {
        let old = if attrs.is_empty() {
            None
        } else {
            let map = attrs.to_object_map();
            proof {
                lemma_object_view(map);
            }
            Some(Value::Object(map))
        };
        match &value {
            Value::Object(map) => {
                proof {
                    lemma_object_view(*map);
                }
                *attrs = OtelAttributes::from_object_map(map);
            },
            _ => {},
        }
        old
    };
    *scope = Some(s);
    old
}

/// Removes what stands at the field names from `from` on within a scope.
pub fn remove_scope_subpath(
    scope: &mut Option<InstrumentationScope>,
    attrs: &mut OtelAttributes,
    fields: &Vec<String>,
    from: usize,
    prune: bool,
) -> (r: Option<Value>)
    requires
        from < fields.len(),
    ensures
        opt_view(r) == scope_at(
            opt_view(*old(scope)),
            old(attrs)@,
            names(fields@).skip(from as int),
        ),
        *old(scope) is None ==> *final(scope) == *old(scope) && final(attrs)@ == old(attrs)@,
        *old(scope) matches Some(s) ==> opt_view(*final(scope)) == Some(
            scope_with(s@, names(fields@).skip(from as int), Seq::empty()),
        ) && final(attrs)@ == scope_attrs_without(
            old(attrs)@,
            names(fields@).skip(from as int),
            prune,
        ),
{
    proof {
        lemma_path_parts(fields@, from as int);
        lemma_scope_keys();
    }
    let mut s = match scope.take() {
        Some(s) => s,
        None => {
            return None;
        },
    };
    let last = from == fields.len() - 1;
    let key: &str = fields[from].as_str();
    let old = if last && str_eq(key, "name") {
        let old = text_value(s.name.as_str());
        s.name = String::new();
        old
    } else if last && str_eq(key, "version") {
        let old = text_value(s.version.as_str());
        s.version = String::new();
        old
    } else if !str_eq(key, "attributes") {
        None
    } else if !last {
        remove_resource_subpath(attrs, fields, from + 1, prune)
    } else if attrs.is_empty() {
        assert(attrs@ =~= Seq::empty());
        None
    } else {
        let map = attrs.to_object_map();
        proof {
            lemma_object_view(map);
        }
        *attrs = OtelAttributes::new();
        Some(Value::Object(map))
    };
    *scope = Some(s);
    old
}

} // verus!
