//! What holds of paths into events that go through an index: such a path is followed in the object
//! that the event is read as, and a write there changes one attribute and nothing else.
use vstd::prelude::*;

use crate::any_value::{
    any_from_value, anys_from_values, kvs_from_object, lemma_any_from_array, lemma_any_from_object,
    value_from_any, AnyView,
};
use crate::attributes::{filled, object_from_attrs};
use crate::canonical::{resource_fields, scope_fields, with_object};
use crate::canonical_laws::{all_kept, lemma_same_names};
use crate::keyed::{lemma_slot_of, ordered, slot_of, value_of, with_entry};
use crate::log::OtelLogView;
use crate::log_laws::{law_log_round_trip, lemma_canonical, lemma_record_fields, over};
use crate::log_path::{is_field_path, read_any};
use crate::log_value::{record_fields, with_attrs};
use crate::map_laws::{law_read_after_write, law_same_entries};
use crate::path::{stored, PathPrefix, SegmentView, TargetPathView};
use crate::path_laws::{law_path_read_after_write, lemma_read_is_stored, lemma_write_is_stored};
use crate::place_laws::{lemma_with_attrs, lemma_with_object};
use crate::span::OtelSpanView;
use crate::span_laws::{law_span_round_trip, lemma_span_fields};
use crate::span_value::span_fields;
use crate::value::ValueView;
use crate::value_laws::{is_kept, is_stored, law_value_round_trip, lemma_keys_ordered};

verus! {

/// What a value without instants, regular expressions and NaNs is stored as can be told from it.
proof fn lemma_stored_is_kept(v: ValueView)
    requires
        is_stored(v),
    ensures
        is_kept(any_from_value(v)),
    decreases v,
{
    reveal_with_fuel(is_stored, 2);
    reveal_with_fuel(is_kept, 2);
    match v {
        ValueView::Array(a) => {
            lemma_any_from_array(a);
            let items = anys_from_values(a);
            assert forall|i: int| 0 <= i < items.len() implies is_kept(#[trigger] items[i]) by {
                lemma_stored_is_kept(a[i]);
            }
        },
        ValueView::Object(m) => {
            lemma_any_from_object(m);
            let kvs = kvs_from_object(m);
            lemma_keys_ordered(m, filled(kvs));
            assert forall|i: int| 0 <= i < kvs.len() implies (#[trigger] kvs[i]).1 is Some && is_kept(
                kvs[i].1->0,
            ) by {
                lemma_stored_is_kept(m[i].1);
            }
        },
        _ => {},
    }
}

/// Attributes with one more that can be told from what it is read as.
proof fn lemma_attribute_kept(attrs: Seq<(Seq<char>, AnyView)>, key: Seq<char>, a: AnyView)
    requires
        ordered(attrs),
        all_kept(attrs),
        is_kept(a),
    ensures
        ordered(with_entry(attrs, key, a)),
        all_kept(with_entry(attrs, key, a)),
        value_of(object_from_attrs(with_entry(attrs, key, a)), key) == Some(value_from_any(a)),
        forall|k: Seq<char>|
            k != key ==> #[trigger] value_of(object_from_attrs(with_entry(attrs, key, a)), k)
                == value_of(object_from_attrs(attrs), k),
{
    law_read_after_write(attrs, key, a);
    lemma_slot_of(attrs, key);
    let t = with_entry(attrs, key, a);
    let p = slot_of(attrs, key);
    assert forall|i: int| 0 <= i < t.len() implies is_kept((#[trigger] t[i]).1) by {
        if i != p {
            let j = if t.len() == attrs.len() || i < p {
                i
            } else {
                i - 1
            };
            assert(t[i] == attrs[j]);
        }
    }
    lemma_same_names(t, key);
    assert forall|k: Seq<char>| k != key implies #[trigger] value_of(object_from_attrs(t), k)
        == value_of(object_from_attrs(attrs), k) by {
        lemma_same_names(t, k);
        lemma_same_names(attrs, k);
        assert(value_of(t, k) == value_of(attrs, k));
    }
}

/// Whether a log event has a place for a field of that name beside its attributes.
pub open spec fn has_log_place(k: Seq<char>) -> bool {
    ||| k == "body"@
    ||| k == "time_unix_nano"@
    ||| k == "timeUnixNano"@
    ||| k == "observed_time_unix_nano"@
    ||| k == "observedTimeUnixNano"@
    ||| k == "severity_text"@
    ||| k == "severityText"@
    ||| k == "severity_number"@
    ||| k == "severityNumber"@
    ||| k == "trace_id"@
    ||| k == "traceId"@
    ||| k == "span_id"@
    ||| k == "spanId"@
    ||| k == "flags"@
    ||| k == "dropped_attributes_count"@
    ||| k == "attributes"@
    ||| k == "resource"@
    ||| k == "scope"@
}

/// What the object that a log event is read as holds.
proof fn lemma_log_object(log: OtelLogView)
    requires
        log.wf(),
    ensures
        ordered(log.canonical()),
        forall|k: Seq<char>|
            !has_log_place(k) ==> #[trigger] value_of(log.canonical(), k) == value_of(
                object_from_attrs(log.record_attrs),
                k,
            ),
        forall|k: Seq<char>| #[trigger]
            value_of(log.canonical(), k) == log_object_at(log, k),
{
    let fields = record_fields(log.record);
    lemma_record_fields(log.record);
    lemma_canonical(log);
    let m = log.canonical();
    assert forall|k: Seq<char>| !has_log_place(k) implies #[trigger] value_of(m, k) == value_of(
        object_from_attrs(log.record_attrs),
        k,
    ) by {
        assert(value_of(fields, k) is None);
    }
}

/// What the object that a log event is read as holds under a name.
spec fn log_object_at(log: OtelLogView, k: Seq<char>) -> Option<ValueView> {
    let res = resource_fields(log.resource, log.resource_attrs);
    let sco = scope_fields(log.scope, log.scope_attrs);
    if k == "scope"@ && sco.len() > 0 {
        Some(ValueView::Object(sco))
    } else if k == "resource"@ && res.len() > 0 {
        Some(ValueView::Object(res))
    } else {
        over(
            value_of(record_fields(log.record), k),
            value_of(object_from_attrs(log.record_attrs), k),
        )
    }
}

/// A write at a path through an index of an attribute of a log event changes that attribute and
/// nothing else, and what was written is read there. The event must be one that can be told from the
/// object it is read as; without a body, its attribute `message` would become the body.
pub proof fn law_log_item_write(
    log: OtelLogView,
    path: TargetPathView,
    v: ValueView,
    rendered: Seq<char>,
)
    requires
        log.wf(),
        log.is_kept(),
        is_stored(v),
        path.prefix == PathPrefix::Event,
        path.path.len() > 0,
        !is_field_path(path.path),
        path.path[0] matches SegmentView::Field(f) && !has_log_place(f) && (f == "message"@
            ==> log.record.body is Some),
    ensures
        ({
            let f = path.path[0]->Field_0;
            let old = read_any(value_of(log.record_attrs, f));
            let new = stored(old, path.path.drop_first(), v);
            log.with(path, v, rendered) == log.with_attribute(f, any_from_value(new))
        }),
        log.with(path, v, rendered).at(path) == Some(v),
{
    let f = path.path[0]->Field_0;
    let c = log.canonical();
    lemma_log_object(log);
    lemma_same_names(log.record_attrs, f);
    let old = read_any(value_of(log.record_attrs, f));
    assert(value_of(c, f) == old);
    let rest = path.path.drop_first();
    let new = stored(old, rest, v);
    if let Some(a) = value_of(log.record_attrs, f) {
        lemma_read_is_stored(a);
    }
    lemma_write_is_stored(old, rest, v);
    lemma_stored_is_kept(new);
    law_value_round_trip(new);
    let a = any_from_value(new);
    let after = log.with_attribute(f, a);
    lemma_attribute_kept(log.record_attrs, f, a);
    lemma_log_object(after);
    law_read_after_write(c, f, new);
    assert forall|k: Seq<char>| #[trigger] value_of(after.canonical(), k) == value_of(
        with_entry(c, f, new),
        k,
    ) by {
        if k != f {
            assert(value_of(c, k) == log_object_at(log, k));
            assert(log_object_at(after, k) == log_object_at(log, k));
        }
    }
    law_same_entries(after.canonical(), with_entry(c, f, new));
    let whole = ValueView::Object(c);
    assert(stored(Some(whole), path.path, v) == ValueView::Object(with_entry(c, f, new)));
    lemma_log_stays_kept(log, f, a);
    law_log_round_trip(after);
    law_path_read_after_write(Some(whole), path.path, v);
}

/// A log event that can be told from the object it is read as stays one when an attribute without a
/// place of its own is set.
proof fn lemma_log_stays_kept(log: OtelLogView, f: Seq<char>, a: AnyView)
    requires
        log.wf(),
        log.is_kept(),
        !has_log_place(f),
        f == "message"@ ==> log.record.body is Some,
        is_kept(a),
    ensures
        log.with_attribute(f, a).is_kept(),
{
    lemma_attribute_kept(log.record_attrs, f, a);
    let m = object_from_attrs(log.record_attrs);
    let n = object_from_attrs(with_entry(log.record_attrs, f, a));
    assert(value_of(n, "body"@) == value_of(m, "body"@));
    assert(f != "message"@ ==> value_of(n, "message"@) == value_of(m, "message"@));
    assert(value_of(n, "time_unix_nano"@) == value_of(m, "time_unix_nano"@));
    assert(value_of(n, "timeUnixNano"@) == value_of(m, "timeUnixNano"@));
    assert(value_of(n, "observed_time_unix_nano"@) == value_of(m, "observed_time_unix_nano"@));
    assert(value_of(n, "observedTimeUnixNano"@) == value_of(m, "observedTimeUnixNano"@));
    assert(value_of(n, "severity_text"@) == value_of(m, "severity_text"@));
    assert(value_of(n, "severityText"@) == value_of(m, "severityText"@));
    assert(value_of(n, "severity_number"@) == value_of(m, "severity_number"@));
    assert(value_of(n, "severityNumber"@) == value_of(m, "severityNumber"@));
    assert(value_of(n, "trace_id"@) == value_of(m, "trace_id"@));
    assert(value_of(n, "traceId"@) == value_of(m, "traceId"@));
    assert(value_of(n, "span_id"@) == value_of(m, "span_id"@));
    assert(value_of(n, "spanId"@) == value_of(m, "spanId"@));
    assert(value_of(n, "flags"@) == value_of(m, "flags"@));
    assert(value_of(n, "dropped_attributes_count"@) == value_of(m, "dropped_attributes_count"@));
    assert(value_of(n, "attributes"@) == value_of(m, "attributes"@));
    assert(value_of(n, "resource"@) == value_of(m, "resource"@));
    assert(value_of(n, "scope"@) == value_of(m, "scope"@));
}

/// Whether a span event has a place for a field of that name beside its attributes.
pub open spec fn has_span_place(k: Seq<char>) -> bool {
    ||| k == "name"@
    ||| k == "trace_id"@
    ||| k == "span_id"@
    ||| k == "parent_span_id"@
    ||| k == "start_time_unix_nano"@
    ||| k == "end_time_unix_nano"@
    ||| k == "kind"@
    ||| k == "flags"@
    ||| k == "dropped_attributes_count"@
    ||| k == "status"@
    ||| k == "resource"@
    ||| k == "scope"@
}

/// What the object that a span event is read as holds under a name.
spec fn span_object_at(span: OtelSpanView, k: Seq<char>) -> Option<ValueView> {
    let res = resource_fields(span.resource, span.resource_attrs);
    let sco = scope_fields(span.scope, span.scope_attrs);
    if k == "scope"@ && sco.len() > 0 {
        Some(ValueView::Object(sco))
    } else if k == "resource"@ && res.len() > 0 {
        Some(ValueView::Object(res))
    } else {
        over(
            value_of(span_fields(span.span), k),
            value_of(object_from_attrs(span.span_attrs), k),
        )
    }
}

/// What the object that a span event is read as holds.
proof fn lemma_span_object(span: OtelSpanView)
    requires
        span.wf(),
    ensures
        ordered(span.canonical()),
        forall|k: Seq<char>|
            !has_span_place(k) ==> #[trigger] value_of(span.canonical(), k) == value_of(
                object_from_attrs(span.span_attrs),
                k,
            ),
        forall|k: Seq<char>| #[trigger]
            value_of(span.canonical(), k) == span_object_at(span, k),
{
    let fields = span_fields(span.span);
    lemma_span_fields(span.span);
    lemma_with_attrs(fields, span.span_attrs);
    let a = with_attrs(fields, span.span_attrs);
    let res = resource_fields(span.resource, span.resource_attrs);
    let sco = scope_fields(span.scope, span.scope_attrs);
    lemma_with_object(a, "resource"@, res);
    let b = with_object(a, "resource"@, res);
    lemma_with_object(b, "scope"@, sco);
    let m = span.canonical();
    assert forall|k: Seq<char>| #[trigger] value_of(m, k) == span_object_at(span, k) by {
        assert(value_of(b, k) == value_of(b, k));
        assert(value_of(a, k) == value_of(a, k));
    }
    assert forall|k: Seq<char>| !has_span_place(k) implies #[trigger] value_of(m, k) == value_of(
        object_from_attrs(span.span_attrs),
        k,
    ) by {
        assert(value_of(fields, k) is None);
    }
}

/// A span event that can be told from the object it is read as stays one when an attribute without a
/// place of its own is set.
proof fn lemma_span_stays_kept(span: OtelSpanView, f: Seq<char>, a: AnyView)
    requires
        span.wf(),
        span.is_kept(),
        !has_span_place(f),
        is_kept(a),
    ensures
        span.with_attribute(f, a).is_kept(),
{
    lemma_attribute_kept(span.span_attrs, f, a);
    let m = object_from_attrs(span.span_attrs);
    let n = object_from_attrs(with_entry(span.span_attrs, f, a));
    assert(value_of(n, "name"@) == value_of(m, "name"@));
    assert(value_of(n, "trace_id"@) == value_of(m, "trace_id"@));
    assert(value_of(n, "span_id"@) == value_of(m, "span_id"@));
    assert(value_of(n, "parent_span_id"@) == value_of(m, "parent_span_id"@));
    assert(value_of(n, "start_time_unix_nano"@) == value_of(m, "start_time_unix_nano"@));
    assert(value_of(n, "end_time_unix_nano"@) == value_of(m, "end_time_unix_nano"@));
    assert(value_of(n, "kind"@) == value_of(m, "kind"@));
    assert(value_of(n, "flags"@) == value_of(m, "flags"@));
    assert(value_of(n, "dropped_attributes_count"@) == value_of(m, "dropped_attributes_count"@));
    assert(value_of(n, "status"@) == value_of(m, "status"@));
    assert(value_of(n, "resource"@) == value_of(m, "resource"@));
    assert(value_of(n, "scope"@) == value_of(m, "scope"@));
}

/// A write at a path through an index of an attribute of a span event changes that attribute and
/// nothing else, and what was written is read there. The event must be one that can be told from the
/// object it is read as.
pub proof fn law_span_item_write(
    span: OtelSpanView,
    path: TargetPathView,
    v: ValueView,
    rendered: Seq<char>,
)
    requires
        span.wf(),
        span.is_kept(),
        is_stored(v),
        path.prefix == PathPrefix::Event,
        path.path.len() > 0,
        !is_field_path(path.path),
        path.path[0] matches SegmentView::Field(f) && !has_span_place(f),
    ensures
        ({
            let f = path.path[0]->Field_0;
            let old = read_any(value_of(span.span_attrs, f));
            let new = stored(old, path.path.drop_first(), v);
            span.with(path, v, rendered) == span.with_attribute(f, any_from_value(new))
        }),
        span.with(path, v, rendered).at(path) == Some(v),
{
    let f = path.path[0]->Field_0;
    let c = span.canonical();
    lemma_span_object(span);
    lemma_same_names(span.span_attrs, f);
    let old = read_any(value_of(span.span_attrs, f));
    assert(value_of(c, f) == old);
    let rest = path.path.drop_first();
    let new = stored(old, rest, v);
    if let Some(a) = value_of(span.span_attrs, f) {
        lemma_read_is_stored(a);
    }
    lemma_write_is_stored(old, rest, v);
    lemma_stored_is_kept(new);
    law_value_round_trip(new);
    let a = any_from_value(new);
    let after = span.with_attribute(f, a);
    lemma_attribute_kept(span.span_attrs, f, a);
    lemma_span_object(after);
    law_read_after_write(c, f, new);
    assert forall|k: Seq<char>| #[trigger] value_of(after.canonical(), k) == value_of(
        with_entry(c, f, new),
        k,
    ) by {
        if k != f {
            assert(value_of(c, k) == span_object_at(span, k));
            assert(span_object_at(after, k) == span_object_at(span, k));
        }
    }
    law_same_entries(after.canonical(), with_entry(c, f, new));
    let whole = ValueView::Object(c);
    assert(stored(Some(whole), path.path, v) == ValueView::Object(with_entry(c, f, new)));
    lemma_span_stays_kept(span, f, a);
    law_span_round_trip(after);
    law_path_read_after_write(Some(whole), path.path, v);
}

} // verus!
