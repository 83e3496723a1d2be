//! The order of names, which every change of an event keeps: the attributes stand in the order of
//! their names, and so do the fields of each object in the value that an event is read as.
use vstd::prelude::*;

use crate::any_value::{any_from_value, value_from_any, AnyView};
use crate::attributes::{
    attrs_from_kvs, attrs_from_object, attrs_overlaid, filled, object_from_attrs,
};
use crate::canonical::{
    attrs_pruned, attrs_with, attrs_without, int_or_zero, resource_fields, restored_resource_attrs,
    restored_scope_attrs, scope_attrs_with, scope_attrs_without, scope_fields, with_object,
    with_resource_scope, with_text, without_object,
};
use crate::extract::{id_in, left_over, nanos_in, picked, unpicked};
use crate::hex::hex_digits;
use crate::keyed::{
    lemma_slot_of, lemma_with_entry_ordered, ordered, slot_of, value_of, with_entry, without_entry,
};
use crate::log::OtelLogView;
use crate::log_path::{is_field_path, path_names};
use crate::log_value::{
    beside_record, log_from_value, log_written_back, record_fields, with_attrs, with_count, with_id,
    with_time_routed,
};
use crate::map_laws::{law_read_after_remove, lemma_found_entry};
use crate::metadata::MetadataView;
use crate::otlp::{ResourceView, ScopeView};
use crate::otlp_json::otlp_kvs;
use crate::path::{
    fetched, item_at, removed, stored, with_item, without_item, PathPrefix, SegmentView,
    TargetPathView,
};
use crate::path_laws::{
    in_order, lemma_entry_is_stored, lemma_read_is_stored, lemma_stored_in_order,
};
use crate::span::OtelSpanView;
use crate::span_value::{
    beside_instant, fields_of, span_fields, span_from_value, span_of, status_object,
};
use crate::time::{wrap_i64, wrap_u64};
use crate::value::ValueView;
use crate::value_laws::{is_stored, lemma_keys_ordered};

verus! {

/// Whether the fields of an object, and of each object in it, stand in order.
pub open spec fn fields_in_order(m: Seq<(Seq<char>, ValueView)>) -> bool {
    in_order(ValueView::Object(m))
}

proof fn lemma_no_fields()
    ensures
        fields_in_order(Seq::empty()),
        in_order(ValueView::Array(Seq::empty())),
{
    reveal_with_fuel(in_order, 2);
}

proof fn lemma_found_in_order(m: Seq<(Seq<char>, ValueView)>, key: Seq<char>)
    requires
        fields_in_order(m),
    ensures
        ordered(m),
        value_of(m, key) matches Some(v) ==> in_order(v),
{
    reveal_with_fuel(in_order, 2);
    if value_of(m, key) is Some {
        lemma_found_entry(m, key);
        assert(in_order(m[slot_of(m, key)].1));
    }
}

proof fn lemma_entry_in_order(m: Seq<(Seq<char>, ValueView)>, key: Seq<char>, v: ValueView)
    requires
        fields_in_order(m),
        in_order(v),
    ensures
        fields_in_order(with_entry(m, key, v)),
{
    reveal_with_fuel(in_order, 2);
    lemma_with_entry_ordered(m, key, v);
    lemma_slot_of(m, key);
    let t = with_entry(m, key, v);
    let p = slot_of(m, key);
    assert forall|i: int| 0 <= i < t.len() implies in_order((#[trigger] t[i]).1) by {
        if i != p {
            let j = if t.len() == m.len() || i < p {
                i
            } else {
                i - 1
            };
            assert(t[i] == m[j]);
        }
    }
}

proof fn lemma_without_in_order(m: Seq<(Seq<char>, ValueView)>, key: Seq<char>)
    requires
        fields_in_order(m),
    ensures
        fields_in_order(without_entry(m, key)),
{
    reveal_with_fuel(in_order, 2);
    law_read_after_remove(m, key);
    lemma_slot_of(m, key);
    let t = without_entry(m, key);
    assert forall|i: int| 0 <= i < t.len() implies in_order((#[trigger] t[i]).1) by {
        let j = if t.len() == m.len() || i < slot_of(m, key) {
            i
        } else {
            i + 1
        };
        assert(t[i] == m[j]);
    }
}

proof fn lemma_item_in_order(a: Seq<ValueView>, i: int, v: ValueView)
    requires
        in_order(ValueView::Array(a)),
        in_order(v),
    ensures
        in_order(ValueView::Array(with_item(a, i, v))),
        item_at(a, i) matches Some(c) ==> in_order(c),
{
    reveal_with_fuel(in_order, 2);
    let whole = ValueView::Array(a);
    assert(in_order(whole));
    assert(forall|j: int| 0 <= j < whole->Array_0.len() ==> in_order(#[trigger] whole->Array_0[j]));
    let t = with_item(a, i, v);
    assert forall|j: int| 0 <= j < t.len() implies in_order(#[trigger] t[j]) by {
        if 0 <= i < a.len() || (i < 0 && -i <= a.len()) {
            assert(t[j] == v || t[j] == a[j]);
        } else if i >= 0 {
            assert(t[j] == v || t[j] == ValueView::Null || (j < a.len() && t[j] == a[j]));
        } else {
            let k = j - (-i - a.len());
            assert(t[j] == v || t[j] == ValueView::Null || (0 <= k < a.len() && t[j] == a[k]));
        }
    }
}

proof fn lemma_without_item_in_order(a: Seq<ValueView>, i: int)
    requires
        in_order(ValueView::Array(a)),
    ensures
        in_order(ValueView::Array(without_item(a, i))),
{
    reveal_with_fuel(in_order, 2);
    let whole = ValueView::Array(a);
    assert(in_order(whole));
    assert(forall|j: int| 0 <= j < whole->Array_0.len() ==> in_order(#[trigger] whole->Array_0[j]));
    let t = without_item(a, i);
    let p = if i < 0 {
        a.len() + i
    } else {
        i
    };
    assert forall|j: int| 0 <= j < t.len() implies in_order(#[trigger] t[j]) by {
        let k = if t.len() == a.len() || j < p {
            j
        } else {
            j + 1
        };
        assert(t[j] == a[k]);
    }
}

/// A write at a path keeps the order of names in a value.
pub proof fn law_write_keeps_order(place: Option<ValueView>, path: Seq<SegmentView>, new: ValueView)
    requires
        place matches Some(v) ==> in_order(v),
        in_order(new),
    ensures
        in_order(stored(place, path, new)),
    decreases path.len(),
{
    lemma_no_fields();
    if path.len() > 0 {
        let rest = path.drop_first();
        match path[0] {
            SegmentView::Field(f) => {
                let m = match place {
                    Some(ValueView::Object(m)) => m,
                    _ => Seq::empty(),
                };
                lemma_found_in_order(m, f);
                law_write_keeps_order(value_of(m, f), rest, new);
                lemma_entry_in_order(m, f, stored(value_of(m, f), rest, new));
            },
            SegmentView::Index(i) => {
                let a = match place {
                    Some(ValueView::Array(a)) => a,
                    _ => Seq::empty(),
                };
                lemma_item_in_order(a, i, new);
                law_write_keeps_order(item_at(a, i), rest, new);
                lemma_item_in_order(a, i, stored(item_at(a, i), rest, new));
            },
        }
    }
}

/// A removal at a path keeps the order of names in a value.
pub proof fn law_removal_keeps_order(v: ValueView, path: Seq<SegmentView>, prune: bool)
    requires
        in_order(v),
    ensures
        in_order(removed(v, path, prune)),
    decreases path.len(),
{
    lemma_no_fields();
    if path.len() > 0 && fetched(v, path) is Some {
        match (v, path[0]) {
            (ValueView::Object(m), SegmentView::Field(f)) => {
                lemma_without_in_order(m, f);
                lemma_found_in_order(m, f);
                if path.len() > 1 {
                    let c = value_of(m, f)->0;
                    law_removal_keeps_order(c, path.drop_first(), prune);
                    lemma_entry_in_order(m, f, removed(c, path.drop_first(), prune));
                }
            },
            (ValueView::Array(a), SegmentView::Index(i)) => {
                lemma_without_item_in_order(a, i);
                lemma_item_in_order(a, i, ValueView::Null);
                if path.len() > 1 {
                    let c = item_at(a, i)->0;
                    law_removal_keeps_order(c, path.drop_first(), prune);
                    lemma_item_in_order(a, i, removed(c, path.drop_first(), prune));
                }
            },
            _ => {},
        }
    }
}

/// Whether an object has its fields in order and holds no instant, no regular expression and no NaN.
pub open spec fn fields_are_stored(m: Seq<(Seq<char>, ValueView)>) -> bool {
    is_stored(ValueView::Object(m))
}

proof fn lemma_nothing_is_stored()
    ensures
        fields_are_stored(Seq::empty()),
{
    reveal_with_fuel(is_stored, 2);
}

proof fn lemma_attrs_are_stored(attrs: Seq<(Seq<char>, AnyView)>)
    requires
        ordered(attrs),
    ensures
        fields_are_stored(object_from_attrs(attrs)),
{
    reveal_with_fuel(is_stored, 2);
    let m = object_from_attrs(attrs);
    lemma_keys_ordered(attrs, m);
    assert forall|i: int| 0 <= i < m.len() implies is_stored((#[trigger] m[i]).1) by {
        lemma_read_is_stored(attrs[i].1);
    }
}

proof fn lemma_with_attrs_stored(
    m: Seq<(Seq<char>, ValueView)>,
    attrs: Seq<(Seq<char>, AnyView)>,
)
    requires
        fields_are_stored(m),
    ensures
        fields_are_stored(with_attrs(m, attrs)),
    decreases attrs.len(),
{
    if attrs.len() > 0 {
        lemma_with_attrs_stored(m, attrs.drop_last());
        lemma_read_is_stored(attrs.last().1);
        lemma_entry_is_stored(
            with_attrs(m, attrs.drop_last()),
            attrs.last().0,
            value_from_any(attrs.last().1),
        );
    }
}

proof fn lemma_plain_is_stored(m: Seq<(Seq<char>, ValueView)>, key: Seq<char>, v: ValueView)
    requires
        fields_are_stored(m),
        v is Integer || v is Bytes,
    ensures
        fields_are_stored(with_entry(m, key, v)),
{
    lemma_entry_is_stored(m, key, v);
}

proof fn lemma_resource_scope_stored(
    m: Seq<(Seq<char>, ValueView)>,
    resource: Option<ResourceView>,
    resource_attrs: Seq<(Seq<char>, AnyView)>,
    scope: Option<ScopeView>,
    scope_attrs: Seq<(Seq<char>, AnyView)>,
)
    requires
        fields_are_stored(m),
        ordered(resource_attrs),
        ordered(scope_attrs),
    ensures
        fields_are_stored(with_resource_scope(m, resource, resource_attrs, scope, scope_attrs)),
{
    lemma_nothing_is_stored();
    lemma_attrs_are_stored(resource_attrs);
    lemma_attrs_are_stored(scope_attrs);
    let res = resource_fields(resource, resource_attrs);
    if let Some(r) = resource {
        lemma_plain_is_stored(
            object_from_attrs(resource_attrs),
            "dropped_attributes_count"@,
            ValueView::Integer(r.dropped_attributes_count as i64),
        );
    }
    lemma_entry_is_stored(m, "resource"@, ValueView::Object(res));
    let both = with_object(m, "resource"@, res);
    let none = Seq::<(Seq<char>, ValueView)>::empty();
    let named = match scope {
        Some(s) => {
            lemma_plain_is_stored(none, "name"@, ValueView::text(s.name));
            let n = with_text(none, "name"@, s.name);
            lemma_plain_is_stored(n, "version"@, ValueView::text(s.version));
            with_text(n, "version"@, s.version)
        },
        None => none,
    };
    lemma_entry_is_stored(named, "attributes"@, ValueView::Object(object_from_attrs(scope_attrs)));
    lemma_entry_is_stored(both, "scope"@, ValueView::Object(scope_fields(scope, scope_attrs)));
}

/// The object that a log event is read as has its fields in order, and holds no instant, no regular
/// expression and no NaN.
pub proof fn law_log_reads_plainly(log: OtelLogView)
    requires
        log.wf(),
    ensures
        fields_are_stored(log.canonical()),
{
    lemma_nothing_is_stored();
    let r = log.record;
    let none = Seq::<(Seq<char>, ValueView)>::empty();
    let m0 = match r.body {
        Some(body) => {
            lemma_read_is_stored(body);
            lemma_entry_is_stored(none, "body"@, value_from_any(body));
            with_entry(none, "body"@, value_from_any(body))
        },
        None => none,
    };
    lemma_plain_is_stored(m0, "severity_text"@, ValueView::text(r.severity_text));
    let m1 = with_text(m0, "severity_text"@, r.severity_text);
    lemma_count_is_stored(m1, "severity_number"@, r.severity_number as i64);
    let m2 = with_count(m1, "severity_number"@, r.severity_number as i64);
    let t = wrap_i64(r.time_unix_nano as int);
    lemma_count_is_stored(m2, "time_unix_nano"@, t);
    let m3 = with_count(m2, "time_unix_nano"@, t);
    let o = wrap_i64(r.observed_time_unix_nano as int);
    lemma_count_is_stored(m3, "observed_time_unix_nano"@, o);
    let m4 = with_count(m3, "observed_time_unix_nano"@, o);
    lemma_id_is_stored(m4, "trace_id"@, r.trace_id);
    let m5 = with_id(m4, "trace_id"@, r.trace_id);
    lemma_id_is_stored(m5, "span_id"@, r.span_id);
    let m6 = with_id(m5, "span_id"@, r.span_id);
    lemma_count_is_stored(m6, "flags"@, r.flags as i64);
    let m7 = with_count(m6, "flags"@, r.flags as i64);
    lemma_count_is_stored(m7, "dropped_attributes_count"@, r.dropped_attributes_count as i64);
    lemma_with_attrs_stored(record_fields(r), log.record_attrs);
    lemma_resource_scope_stored(
        with_attrs(record_fields(r), log.record_attrs),
        log.resource,
        log.resource_attrs,
        log.scope,
        log.scope_attrs,
    );
}

proof fn lemma_count_is_stored(m: Seq<(Seq<char>, ValueView)>, key: Seq<char>, n: i64)
    requires
        fields_are_stored(m),
    ensures
        fields_are_stored(with_count(m, key, n)),
{
    lemma_plain_is_stored(m, key, ValueView::Integer(n));
}

proof fn lemma_id_is_stored(m: Seq<(Seq<char>, ValueView)>, key: Seq<char>, id: Seq<u8>)
    requires
        fields_are_stored(m),
    ensures
        fields_are_stored(with_id(m, key, id)),
{
    lemma_plain_is_stored(m, key, ValueView::Bytes(hex_digits(id)));
}

/// The object that a span event is read as has its fields in order, and holds no instant, no regular
/// expression and no NaN.
pub proof fn law_span_reads_plainly(span: OtelSpanView)
    requires
        span.wf(),
    ensures
        fields_are_stored(span.canonical()),
{
    lemma_nothing_is_stored();
    let s = span.span;
    let none = Seq::<(Seq<char>, ValueView)>::empty();
    lemma_plain_is_stored(none, "name"@, ValueView::text(s.name));
    let m0 = with_text(none, "name"@, s.name);
    lemma_id_is_stored(m0, "trace_id"@, s.trace_id);
    let m1 = with_id(m0, "trace_id"@, s.trace_id);
    lemma_id_is_stored(m1, "span_id"@, s.span_id);
    let m2 = with_id(m1, "span_id"@, s.span_id);
    lemma_id_is_stored(m2, "parent_span_id"@, s.parent_span_id);
    let m3 = with_id(m2, "parent_span_id"@, s.parent_span_id);
    let start = wrap_i64(s.start_time_unix_nano as int);
    lemma_count_is_stored(m3, "start_time_unix_nano"@, start);
    let m4 = with_count(m3, "start_time_unix_nano"@, start);
    let end = wrap_i64(s.end_time_unix_nano as int);
    lemma_count_is_stored(m4, "end_time_unix_nano"@, end);
    let m5 = with_count(m4, "end_time_unix_nano"@, end);
    lemma_count_is_stored(m5, "kind"@, s.kind as i64);
    let m6 = with_count(m5, "kind"@, s.kind as i64);
    lemma_count_is_stored(m6, "flags"@, s.flags as i64);
    let m7 = with_count(m6, "flags"@, s.flags as i64);
    lemma_count_is_stored(m7, "dropped_attributes_count"@, s.dropped_attributes_count as i64);
    let m8 = with_count(m7, "dropped_attributes_count"@, s.dropped_attributes_count as i64);
    if let Some(status) = s.status {
        lemma_plain_is_stored(none, "message"@, ValueView::text(status.message));
        let m = with_text(none, "message"@, status.message);
        lemma_plain_is_stored(m, "code"@, ValueView::Integer(status.code as i64));
        lemma_entry_is_stored(m8, "status"@, status_object(status));
    }
    lemma_with_attrs_stored(span_fields(s), span.span_attrs);
    lemma_resource_scope_stored(
        with_attrs(span_fields(s), span.span_attrs),
        span.resource,
        span.resource_attrs,
        span.scope,
        span.scope_attrs,
    );
}

proof fn lemma_left_over_in_order(
    m: Seq<(Seq<char>, ValueView)>,
    name: Seq<char>,
    alias: Seq<char>,
    ok: bool,
)
    requires
        fields_in_order(m),
    ensures
        fields_in_order(left_over(m, name, alias, ok)),
{
    lemma_without_in_order(m, name);
    lemma_without_in_order(m, alias);
    lemma_found_in_order(m, name);
    lemma_found_in_order(m, alias);
    if let Some(v) = picked(m, name, alias) {
        lemma_entry_in_order(without_entry(m, name), name, v);
        lemma_entry_in_order(without_entry(m, alias), name, v);
    }
}

proof fn lemma_without_object_in_order(m: Seq<(Seq<char>, ValueView)>, key: Seq<char>)
    requires
        fields_in_order(m),
    ensures
        fields_in_order(without_object(m, key)),
{
    lemma_without_in_order(m, key);
    lemma_found_in_order(m, key);
    if let Some(v) = value_of(m, key) {
        lemma_entry_in_order(without_entry(m, key), key, v);
    }
}

proof fn lemma_overlaid_ordered(attrs: Seq<(Seq<char>, AnyView)>, over: Seq<(Seq<char>, AnyView)>)
    requires
        ordered(attrs),
    ensures
        ordered(attrs_overlaid(attrs, over)),
    decreases over.len(),
{
    if over.len() > 0 {
        lemma_overlaid_ordered(attrs, over.drop_last());
        lemma_with_entry_ordered(
            attrs_overlaid(attrs, over.drop_last()),
            over.last().0,
            over.last().1,
        );
    }
}

proof fn lemma_stored_attrs_ordered(m: Seq<(Seq<char>, ValueView)>)
    requires
        fields_in_order(m),
    ensures
        ordered(attrs_from_object(m)),
{
    reveal_with_fuel(in_order, 2);
    lemma_keys_ordered(m, attrs_from_object(m));
}

proof fn lemma_restored_ordered(m: Seq<(Seq<char>, ValueView)>)
    requires
        fields_in_order(m),
    ensures
        ordered(restored_resource_attrs(m)),
        ordered(restored_scope_attrs(m)),
{
    lemma_found_in_order(m, "resource"@);
    lemma_found_in_order(m, "scope"@);
    let none = Seq::<(Seq<char>, AnyView)>::empty();
    if let Some(ValueView::Object(res)) = value_of(m, "resource"@) {
        lemma_without_in_order(res, "dropped_attributes_count"@);
        let fields = without_entry(res, "dropped_attributes_count"@);
        lemma_without_in_order(fields, "attributes"@);
        let others = without_entry(fields, "attributes"@);
        lemma_stored_attrs_ordered(others);
        lemma_found_in_order(fields, "attributes"@);
        if let Some(v) = value_of(fields, "attributes"@) {
            lemma_entry_in_order(others, "attributes"@, v);
            lemma_stored_attrs_ordered(with_entry(others, "attributes"@, v));
            if let ValueView::Array(arr) = v {
                if let Some(kvs) = otlp_kvs(arr) {
                    lemma_overlaid_ordered(none, filled(kvs));
                }
            }
        }
    }
    if let Some(ValueView::Object(scope)) = value_of(m, "scope"@) {
        lemma_without_in_order(scope, "name"@);
        let a = without_entry(scope, "name"@);
        lemma_without_in_order(a, "version"@);
        let b = without_entry(a, "version"@);
        lemma_found_in_order(b, "attributes"@);
        match value_of(b, "attributes"@) {
            Some(ValueView::Array(arr)) => {
                if let Some(kvs) = otlp_kvs(arr) {
                    lemma_overlaid_ordered(none, filled(kvs));
                }
            },
            Some(ValueView::Object(attrs)) => {
                lemma_stored_attrs_ordered(attrs);
            },
            _ => {},
        }
    }
}

/// A log event that an object is written back as has its attributes in order, if the object has its
/// fields in order.
pub proof fn law_log_is_written_in_order(v: ValueView, metadata: MetadataView)
    requires
        in_order(v),
    ensures
        log_written_back(v, metadata).wf(),
{
    if let ValueView::Object(m) = v {
        lemma_without_in_order(m, "body"@);
        lemma_without_in_order(m, "message"@);
        let m = unpicked(m, "body"@, "message"@);
        let t = picked(m, "time_unix_nano"@, "timeUnixNano"@);
        let ok = nanos_in(t) is Some;
        lemma_left_over_in_order(m, "time_unix_nano"@, "timeUnixNano"@, ok);
        let m = left_over(m, "time_unix_nano"@, "timeUnixNano"@, ok);
        let o = picked(m, "observed_time_unix_nano"@, "observedTimeUnixNano"@);
        let ok = nanos_in(o) is Some;
        lemma_left_over_in_order(m, "observed_time_unix_nano"@, "observedTimeUnixNano"@, ok);
        let m = left_over(m, "observed_time_unix_nano"@, "observedTimeUnixNano"@, ok);
        let ok = picked(m, "severity_text"@, "severityText"@)->0 is Bytes;
        lemma_left_over_in_order(m, "severity_text"@, "severityText"@, ok);
        let m = left_over(m, "severity_text"@, "severityText"@, ok);
        let ok = picked(m, "severity_number"@, "severityNumber"@)->0 is Integer;
        lemma_left_over_in_order(m, "severity_number"@, "severityNumber"@, ok);
        let m = left_over(m, "severity_number"@, "severityNumber"@, ok);
        let ok = id_in(picked(m, "trace_id"@, "traceId"@)) is Some;
        lemma_left_over_in_order(m, "trace_id"@, "traceId"@, ok);
        let m = left_over(m, "trace_id"@, "traceId"@, ok);
        let ok = id_in(picked(m, "span_id"@, "spanId"@)) is Some;
        lemma_left_over_in_order(m, "span_id"@, "spanId"@, ok);
        let m = left_over(m, "span_id"@, "spanId"@, ok);
        let ok = picked(m, "flags"@, "flags"@)->0 is Integer;
        lemma_left_over_in_order(m, "flags"@, "flags"@, ok);
        let m = left_over(m, "flags"@, "flags"@, ok);
        let dn = "dropped_attributes_count"@;
        lemma_left_over_in_order(m, dn, dn, picked(m, dn, dn)->0 is Integer);
        let rest = beside_record(v->Object_0);
        assert(fields_in_order(rest));
        lemma_restored_ordered(rest);
        lemma_without_object_in_order(rest, "resource"@);
        let beside = without_object(rest, "resource"@);
        lemma_restored_ordered(beside);
        lemma_without_object_in_order(beside, "scope"@);
        let left = without_object(beside, "scope"@);
        lemma_without_in_order(left, "attributes"@);
        let others = without_entry(left, "attributes"@);
        lemma_stored_attrs_ordered(others);
        lemma_found_in_order(left, "attributes"@);
        if let Some(v) = value_of(left, "attributes"@) {
            lemma_entry_in_order(others, "attributes"@, v);
            lemma_stored_attrs_ordered(with_entry(others, "attributes"@, v));
            if let ValueView::Array(arr) = v {
                if let Some(kvs) = otlp_kvs(arr) {
                    lemma_overlaid_ordered(
                        attrs_from_object(others),
                        attrs_overlaid(Seq::empty(), filled(kvs)),
                    );
                }
            }
        }
    } else {
        assert(attrs_from_kvs(Seq::empty()) =~= Seq::empty());
    }
}

/// A log event that is made of an object has its attributes in order, if the object has its fields in
/// order.
pub proof fn law_log_is_made_in_order(v: ValueView, metadata: MetadataView)
    requires
        in_order(v),
    ensures
        log_from_value(v, metadata).wf(),
{
    if let ValueView::Object(m) = v {
        lemma_without_in_order(m, "timestamp"@);
        let untimed = without_entry(m, "timestamp"@);
        assert forall|n: i64| fields_in_order(
            #[trigger] with_entry(untimed, "time_unix_nano"@, ValueView::Integer(n)),
        ) by {
            reveal_with_fuel(in_order, 2);
            lemma_entry_in_order(untimed, "time_unix_nano"@, ValueView::Integer(n));
        }
        let timed = with_time_routed(m);
        assert(fields_in_order(timed));
        lemma_without_in_order(timed, "source_type"@);
        let a = without_entry(timed, "source_type"@);
        lemma_without_in_order(a, "host"@);
        let b = ValueView::Object(without_entry(a, "host"@));
        law_log_is_written_in_order(b, metadata);
        let back = log_written_back(b, metadata);
        let s = value_of(timed, "source_type"@);
        let h = value_of(a, "host"@);
        lemma_routed_ordered(back, "source_type"@, "source_type"@, s);
        let one = back.with_routed("source_type"@, "source_type"@, s);
        lemma_routed_ordered(one, "host"@, "host.name"@, h);
    } else {
        law_log_is_written_in_order(v, metadata);
    }
}

proof fn lemma_routed_ordered(
    log: OtelLogView,
    key: Seq<char>,
    place: Seq<char>,
    v: Option<ValueView>,
)
    requires
        log.wf(),
    ensures
        log.with_routed(key, place, v).wf(),
{
    if let Some(v) = v {
        lemma_with_entry_ordered(log.resource_attrs, place, any_from_value(v));
        lemma_with_entry_ordered(log.record_attrs, key, any_from_value(v));
    }
}

/// A span event that an object is written back as has its attributes in order, if the object has its
/// fields in order.
pub proof fn law_span_is_written_in_order(v: ValueView, metadata: MetadataView)
    requires
        in_order(v),
    ensures
        span_from_value(v, metadata).wf(),
{
    lemma_no_fields();
    let m = fields_of(v);
    let ok = picked(m, "name"@, "name"@)->0 is Bytes;
    lemma_left_over_in_order(m, "name"@, "name"@, ok);
    let m = left_over(m, "name"@, "name"@, ok);
    let ok = id_in(picked(m, "trace_id"@, "trace_id"@)) is Some;
    lemma_left_over_in_order(m, "trace_id"@, "trace_id"@, ok);
    let m = left_over(m, "trace_id"@, "trace_id"@, ok);
    let ok = id_in(picked(m, "span_id"@, "span_id"@)) is Some;
    lemma_left_over_in_order(m, "span_id"@, "span_id"@, ok);
    let m = left_over(m, "span_id"@, "span_id"@, ok);
    let pn = "parent_span_id"@;
    let ok = id_in(picked(m, pn, pn)) is Some;
    lemma_left_over_in_order(m, pn, pn, ok);
    let m = left_over(m, pn, pn, ok);
    let sn = "start_time_unix_nano"@;
    let start = picked(m, sn, sn);
    lemma_left_over_in_order(m, sn, sn, start->0 is Integer);
    let m = left_over(m, sn, sn, start->0 is Integer);
    let en = "end_time_unix_nano"@;
    let end = picked(m, en, en);
    lemma_left_over_in_order(m, en, en, end->0 is Integer);
    let m = left_over(m, en, en, end->0 is Integer);
    let start_nanos = wrap_u64(int_or_zero(start) as int);
    let end_nanos = wrap_u64(int_or_zero(end) as int);
    lemma_without_in_order(m, "start_time"@);
    let m = beside_instant(m, "start_time"@, start_nanos);
    lemma_without_in_order(m, "end_time"@);
    let m = beside_instant(m, "end_time"@, end_nanos);
    let ok = picked(m, "kind"@, "kind"@)->0 is Integer;
    lemma_left_over_in_order(m, "kind"@, "kind"@, ok);
    let m = left_over(m, "kind"@, "kind"@, ok);
    let ok = picked(m, "flags"@, "flags"@)->0 is Integer;
    lemma_left_over_in_order(m, "flags"@, "flags"@, ok);
    let m = left_over(m, "flags"@, "flags"@, ok);
    let dn = "dropped_attributes_count"@;
    let ok = picked(m, dn, dn)->0 is Integer;
    lemma_left_over_in_order(m, dn, dn, ok);
    let m = left_over(m, dn, dn, ok);
    lemma_without_object_in_order(m, "status"@);
    let rest = span_of(fields_of(v)).1;
    assert(rest == without_object(m, "status"@));
    lemma_restored_ordered(rest);
    lemma_without_object_in_order(rest, "resource"@);
    let beside = without_object(rest, "resource"@);
    lemma_restored_ordered(beside);
    lemma_without_object_in_order(beside, "scope"@);
    lemma_stored_attrs_ordered(without_object(beside, "scope"@));
}

proof fn lemma_attrs_with_ordered(
    attrs: Seq<(Seq<char>, AnyView)>,
    path: Seq<Seq<char>>,
    v: ValueView,
    prune: bool,
)
    requires
        ordered(attrs),
    ensures
        ordered(attrs_with(attrs, path, v)),
        ordered(attrs_without(attrs, path, prune)),
        ordered(attrs_pruned(attrs, path, prune)),
{
    law_read_after_remove(attrs, path[0]);
    assert forall|a: AnyView| ordered(#[trigger] with_entry(attrs, path[0], a)) by {
        lemma_with_entry_ordered(attrs, path[0], a);
    }
}

proof fn lemma_scope_attrs_ordered(
    attrs: Seq<(Seq<char>, AnyView)>,
    path: Seq<Seq<char>>,
    v: ValueView,
    prune: bool,
)
    requires
        ordered(attrs),
        in_order(v),
    ensures
        ordered(scope_attrs_with(attrs, path, v)),
        ordered(scope_attrs_without(attrs, path, prune)),
{
    lemma_attrs_with_ordered(attrs, path.drop_first(), v, prune);
    if let ValueView::Object(m) = v {
        lemma_stored_attrs_ordered(m);
    }
}

/// Every write and every removal at a path keeps the attributes of a log event in order.
pub proof fn law_log_stays_ordered(
    log: OtelLogView,
    path: TargetPathView,
    v: ValueView,
    rendered: Seq<char>,
    prune: bool,
)
    requires
        log.wf(),
        in_order(v),
    ensures
        log.with(path, v, rendered).wf(),
        log.without(path, prune).wf(),
{
    let fields = path_names(path.path);
    let rest = fields.drop_first();
    if path.prefix == PathPrefix::Metadata {
    } else if !is_field_path(path.path) {
        law_log_reads_plainly(log);
        let c = ValueView::Object(log.canonical());
        lemma_stored_in_order(c);
        law_write_keeps_order(Some(c), path.path, v);
        law_log_is_written_in_order(stored(Some(c), path.path, v), log.metadata);
        law_removal_keeps_order(c, path.path, prune);
        law_log_is_written_in_order(removed(c, path.path, prune), log.metadata);
    } else {
        lemma_with_entry_ordered(log.record_attrs, fields[0], any_from_value(v));
        law_read_after_remove(log.record_attrs, fields[0]);
        lemma_attrs_with_ordered(log.resource_attrs, rest, v, prune);
        lemma_scope_attrs_ordered(log.scope_attrs, rest, v, prune);
        lemma_attrs_with_ordered(log.record_attrs, fields, v, prune);
    }
}

/// Every write and every removal at a path keeps the attributes of a span event in order.
pub proof fn law_span_stays_ordered(
    span: OtelSpanView,
    path: TargetPathView,
    v: ValueView,
    rendered: Seq<char>,
    prune: bool,
)
    requires
        span.wf(),
        in_order(v),
    ensures
        span.with(path, v, rendered).wf(),
        span.without(path, prune).wf(),
{
    let fields = path_names(path.path);
    let rest = fields.drop_first();
    if path.prefix == PathPrefix::Metadata {
    } else if !is_field_path(path.path) {
        law_span_reads_plainly(span);
        let c = ValueView::Object(span.canonical());
        lemma_stored_in_order(c);
        law_write_keeps_order(Some(c), path.path, v);
        law_span_is_written_in_order(stored(Some(c), path.path, v), span.metadata);
        law_removal_keeps_order(c, path.path, prune);
        law_span_is_written_in_order(removed(c, path.path, prune), span.metadata);
    } else {
        lemma_with_entry_ordered(span.span_attrs, fields[0], any_from_value(v));
        law_read_after_remove(span.span_attrs, fields[0]);
        lemma_attrs_with_ordered(span.resource_attrs, rest, v, prune);
        lemma_scope_attrs_ordered(span.scope_attrs, rest, v, prune);
        lemma_attrs_with_ordered(span.span_attrs, fields, v, prune);
    }
}

} // verus!
