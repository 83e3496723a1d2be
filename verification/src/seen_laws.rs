//! What holds of log and span events as programs see them: where each part of an event stands in the
//! value that is shown.
use vstd::prelude::*;

use crate::any_value::{object_from_kvs, value_from_any, AnyView};
use crate::attributes::object_from_attrs;
use crate::canonical::{full_resource, full_scope};
use crate::double::nan;
use crate::event::EventView;
use crate::hex::hex_digits;
use crate::keyed::{ordered, value_of, with_entry};
use crate::log::OtelLogView;
use crate::map_laws::law_read_after_write;
use crate::otlp::{LogRecordView, ResourceView, ScopeView};
use crate::otlp_span::{SpanEventView, SpanLinkView, StatusView};
use crate::path::PathPrefix;
use crate::seen_metric_laws::{
    field_of, item_of, law_attributes_are_seen, shows_attributes, shows_count, shows_int,
    shows_text, size_of,
};
use crate::span::OtelSpanView;
use crate::target::TargetView;
use crate::target_laws::{is_log_place, lemma_record_shown, lemma_with_fields, record_shown};
use crate::target_span_laws::{
    lemma_shown_names, lemma_span_seen_names, lemma_span_shown, lemma_written, span_shown,
    with_status, written,
};
use crate::target_value::{
    resource_object, scope_object, span_event_object, span_link_object, status_seen_as, with_fields,
    with_int, with_kvs, with_origin, with_str,
};
use crate::time::wrap_i64;
use crate::value::ValueView;

verus! {

/// Whether a value is an identifier in hexadecimal notation.
pub open spec fn shows_id(v: Option<ValueView>, id: Seq<u8>) -> bool {
    v == Some(ValueView::Bytes(hex_digits(id)))
}

/// A resource is seen with its attributes and with how many of them were dropped; a scope also with its
/// name and its version.
pub proof fn law_origin_is_seen(r: ResourceView, s: ScopeView)
    ensures
        shows_attributes(field_of(Some(resource_object(r)), "attributes"@), r.attributes),
        shows_int(
            field_of(Some(resource_object(r)), "dropped_attributes_count"@),
            r.dropped_attributes_count as int,
        ),
        shows_text(field_of(Some(scope_object(s)), "name"@), s.name),
        shows_text(field_of(Some(scope_object(s)), "version"@), s.version),
        shows_attributes(field_of(Some(scope_object(s)), "attributes"@), s.attributes),
        shows_int(
            field_of(Some(scope_object(s)), "dropped_attributes_count"@),
            s.dropped_attributes_count as int,
        ),
{
    reveal_strlit("name");
    reveal_strlit("version");
    reveal_strlit("attributes");
    reveal_strlit("dropped_attributes_count");
    let none = Seq::<(Seq<char>, ValueView)>::empty();
    law_read_after_write(none, "attributes"@, ValueView::Object(object_from_kvs(r.attributes)));
    let of_resource = with_kvs(none, "attributes"@, r.attributes);
    law_read_after_write(
        of_resource,
        "dropped_attributes_count"@,
        ValueView::Integer(r.dropped_attributes_count as i64),
    );
    law_read_after_write(none, "name"@, ValueView::text(s.name));
    let m1 = with_str(none, "name"@, s.name);
    law_read_after_write(m1, "version"@, ValueView::text(s.version));
    let m2 = with_str(m1, "version"@, s.version);
    law_read_after_write(m2, "attributes"@, ValueView::Object(object_from_kvs(s.attributes)));
    let m3 = with_kvs(m2, "attributes"@, s.attributes);
    law_read_after_write(
        m3,
        "dropped_attributes_count"@,
        ValueView::Integer(s.dropped_attributes_count as i64),
    );
}

/// Whether the fields of an object are those of a log record, without its attributes: the body where
/// there is one, the numbers unless they are zero, the texts and the identifiers unless they are empty.
pub open spec fn shows_record(v: Option<ValueView>, r: LogRecordView) -> bool {
    &&& field_of(v, "body"@) == match r.body {
        Some(body) => Some(value_from_any(body)),
        None => None,
    }
    &&& if r.severity_number == 0 {
        field_of(v, "severity_number"@) is None
    } else {
        shows_int(field_of(v, "severity_number"@), r.severity_number as int)
    }
    &&& if r.severity_text.len() == 0 {
        field_of(v, "severity_text"@) is None
    } else {
        shows_text(field_of(v, "severity_text"@), r.severity_text)
    }
    &&& if r.time_unix_nano == 0 {
        field_of(v, "time_unix_nano"@) is None
    } else {
        shows_count(field_of(v, "time_unix_nano"@), r.time_unix_nano)
    }
    &&& if r.observed_time_unix_nano == 0 {
        field_of(v, "observed_time_unix_nano"@) is None
    } else {
        shows_count(field_of(v, "observed_time_unix_nano"@), r.observed_time_unix_nano)
    }
    &&& if r.trace_id.len() == 0 {
        field_of(v, "trace_id"@) is None
    } else {
        shows_id(field_of(v, "trace_id"@), r.trace_id)
    }
    &&& if r.span_id.len() == 0 {
        field_of(v, "span_id"@) is None
    } else {
        shows_id(field_of(v, "span_id"@), r.span_id)
    }
    &&& if r.flags == 0 {
        field_of(v, "flags"@) is None
    } else {
        shows_int(field_of(v, "flags"@), r.flags as int)
    }
}

proof fn lemma_record_names()
    ensures
        "body"@.len() == 4,
        "flags"@.len() == 5,
        "flags"@[0] == 'f',
        "scope"@.len() == 5,
        "scope"@[0] == 's',
        "span_id"@.len() == 7,
        "trace_id"@.len() == 8,
        "trace_id"@[0] == 't',
        "resource"@.len() == 8,
        "resource"@[0] == 'r',
        "attributes"@.len() == 10,
        "severity_text"@.len() == 13,
        "time_unix_nano"@.len() == 14,
        "severity_number"@.len() == 15,
        "observed_time_unix_nano"@.len() == 23,
{
    reveal_strlit("body");
    reveal_strlit("flags");
    reveal_strlit("scope");
    reveal_strlit("span_id");
    reveal_strlit("trace_id");
    reveal_strlit("resource");
    reveal_strlit("attributes");
    reveal_strlit("severity_text");
    reveal_strlit("time_unix_nano");
    reveal_strlit("severity_number");
    reveal_strlit("observed_time_unix_nano");
}

/// Whether a field is one of a log record, its attributes aside.
pub open spec fn is_record_field(k: Seq<char>) -> bool {
    ||| k == "body"@
    ||| k == "severity_number"@
    ||| k == "severity_text"@
    ||| k == "time_unix_nano"@
    ||| k == "observed_time_unix_nano"@
    ||| k == "trace_id"@
    ||| k == "span_id"@
    ||| k == "flags"@
}

proof fn lemma_record_part(r: LogRecordView)
    ensures
        ordered(record_shown(r)),
        shows_record(Some(ValueView::Object(record_shown(r))), r),
        forall|k: Seq<char>|
            !is_record_field(k) ==> #[trigger] value_of(record_shown(r), k) is None,
{
    lemma_record_shown(r);
    let m = record_shown(r);
    assert forall|k: Seq<char>| !is_record_field(k) implies #[trigger] value_of(m, k) is None by {
        if is_log_place(k) {
            assert(k == "dropped_attributes_count"@ || k == "attributes"@ || k == "resource"@ || k
                == "scope"@);
        }
    }
}

/// What is seen beside the resource and the scope is there as it was.
proof fn lemma_origin_beside(
    m: Seq<(Seq<char>, ValueView)>,
    resource: Option<ResourceView>,
    scope: Option<ScopeView>,
)
    requires
        ordered(m),
    ensures
        ({
            let t = with_origin(m, resource, scope);
            &&& ordered(t)
            &&& value_of(t, "resource"@) == match resource {
                Some(r) => Some(resource_object(r)),
                None => value_of(m, "resource"@),
            }
            &&& value_of(t, "scope"@) == match scope {
                Some(s) => Some(scope_object(s)),
                None => value_of(m, "scope"@),
            }
            &&& forall|k: Seq<char>|
                k != "resource"@ && k != "scope"@ ==> #[trigger] value_of(t, k) == value_of(m, k)
        }),
{
    lemma_record_names();
    let m1 = match resource {
        Some(r) => {
            law_read_after_write(m, "resource"@, resource_object(r));
            with_entry(m, "resource"@, resource_object(r))
        },
        None => m,
    };
    if let Some(s) = scope {
        law_read_after_write(m1, "scope"@, scope_object(s));
    }
}

/// What is seen beside the field `attributes` is there as it was.
proof fn lemma_attributes_beside(
    m: Seq<(Seq<char>, ValueView)>,
    attrs: Seq<(Seq<char>, ValueView)>,
    there: bool,
    t: Seq<(Seq<char>, ValueView)>,
)
    requires
        ordered(m),
        t == if there {
            with_entry(m, "attributes"@, ValueView::Object(attrs))
        } else {
            m
        },
    ensures
        ordered(t),
        there ==> value_of(t, "attributes"@) == Some(ValueView::Object(attrs)),
        !there ==> value_of(t, "attributes"@) == value_of(m, "attributes"@),
        forall|k: Seq<char>| k != "attributes"@ ==> #[trigger] value_of(t, k) == value_of(m, k),
{
    law_read_after_write(m, "attributes"@, ValueView::Object(attrs));
}

/// A log event is seen with the fields of its record, unless an attribute has the name of one, with each
/// attribute under its own name, with all attributes once more in the field `attributes`, and with its
/// resource and its scope where they are there. The fields of the resource and of the scope come before
/// attributes of these names, and so does the field `attributes`.
pub proof fn law_log_is_seen(e: OtelLogView, key: Seq<char>)
    requires
        ordered(e.record_attrs),
    ensures
        ({
            let v = Some(TargetView::of_event(EventView::Log(e)).root(PathPrefix::Event));
            &&& (forall|k: Seq<char>| #[trigger] is_record_field(k) ==> value_of(e.record_attrs, k) is None)
                ==> shows_record(v, e.record)
            &&& key != "attributes"@ && key != "resource"@ && key != "scope"@ ==> match value_of(
                e.record_attrs,
                key,
            ) {
                Some(a) => field_of(v, key) == Some(value_from_any(a)),
                None => is_record_field(key) || field_of(v, key) is None,
            }
            &&& e.record_attrs.len() > 0 ==> field_of(field_of(v, "attributes"@), key) == match value_of(
                e.record_attrs,
                key,
            ) {
                Some(a) => Some(value_from_any(a)),
                None => None,
            }
            &&& e.record_attrs.len() == 0 ==> field_of(v, "attributes"@) is None
            &&& full_resource(e.resource, e.resource_attrs) matches Some(r) ==> field_of(
                v,
                "resource"@,
            ) == Some(resource_object(r))
            &&& full_scope(e.scope, e.scope_attrs) matches Some(s) ==> field_of(v, "scope"@) == Some(
                scope_object(s),
            )
        }),
{
    lemma_record_names();
    let base = record_shown(e.record);
    lemma_record_part(e.record);
    lemma_with_fields(base, e.record_attrs);
    law_attributes_are_seen(e.record_attrs, key);
    let attrs = object_from_attrs(e.record_attrs);
    let m1 = with_fields(base, e.record_attrs);
    let there = e.record_attrs.len() > 0;
    let m2 = if there {
        with_entry(m1, "attributes"@, ValueView::Object(attrs))
    } else {
        m1
    };
    lemma_attributes_beside(m1, attrs, there, m2);
    let resource = full_resource(e.resource, e.resource_attrs);
    let scope = full_scope(e.scope, e.scope_attrs);
    lemma_origin_beside(m2, resource, scope);
    let m3 = with_origin(m2, resource, scope);
    assert(e.seen() == m3);
    assert forall|k: Seq<char>| k != "attributes"@ && k != "resource"@ && k != "scope"@ implies #[trigger] value_of(
        m3,
        k,
    ) == value_of(m1, k) by {
        assert(value_of(m3, k) == value_of(m2, k));
    }
    assert(value_of(m3, "attributes"@) == value_of(m2, "attributes"@));
    if forall|k: Seq<char>| #[trigger] is_record_field(k) ==> value_of(e.record_attrs, k) is None {
        lemma_log_layers(e.record, e.record_attrs, m1, m3);
    }
    if !there {
        assert(value_of(attrs, "attributes"@) is None);
    }
}

/// What of a record and its attributes is seen where nothing else covers it.
proof fn lemma_log_layers(
    r: LogRecordView,
    record_attrs: Seq<(Seq<char>, AnyView)>,
    m1: Seq<(Seq<char>, ValueView)>,
    m3: Seq<(Seq<char>, ValueView)>,
)
    requires
        ordered(record_attrs),
        forall|k: Seq<char>|
            #![trigger value_of(m1, k)]
            value_of(m1, k) == match value_of(object_from_attrs(record_attrs), k) {
                Some(v) => Some(v),
                None => value_of(record_shown(r), k),
            },
        forall|k: Seq<char>|
            k != "attributes"@ && k != "resource"@ && k != "scope"@ ==> #[trigger] value_of(m3, k)
                == value_of(m1, k),
        forall|k: Seq<char>| #[trigger] is_record_field(k) ==> value_of(record_attrs, k) is None,
    ensures
        shows_record(Some(ValueView::Object(m3)), r),
{
    lemma_record_names();
    lemma_record_part(r);
    lemma_layer(record_attrs, "body"@);
    lemma_layer(record_attrs, "severity_number"@);
    lemma_layer(record_attrs, "severity_text"@);
    lemma_layer(record_attrs, "time_unix_nano"@);
    lemma_layer(record_attrs, "observed_time_unix_nano"@);
    lemma_layer(record_attrs, "trace_id"@);
    lemma_layer(record_attrs, "span_id"@);
    lemma_layer(record_attrs, "flags"@);
}

proof fn lemma_layer(record_attrs: Seq<(Seq<char>, AnyView)>, k: Seq<char>)
    requires
        ordered(record_attrs),
        is_record_field(k),
        forall|k: Seq<char>| #[trigger] is_record_field(k) ==> value_of(record_attrs, k) is None,
    ensures
        value_of(object_from_attrs(record_attrs), k) is None,
{
    law_attributes_are_seen(record_attrs, k);
}

/// What is seen beside the status is there as it was.
proof fn lemma_status_beside(m: Seq<(Seq<char>, ValueView)>, status: Option<StatusView>)
    requires
        ordered(m),
        value_of(m, "status"@) is None,
    ensures
        ({
            let t = with_status(m, status);
            &&& ordered(t)
            &&& value_of(t, "status"@) == match status {
                Some(s) => Some(status_seen_as(s)),
                None => None,
            }
            &&& forall|k: Seq<char>|
                k != "status"@ ==> #[trigger] value_of(t, k) == value_of(m, k)
        }),
{
    if let Some(s) = status {
        law_read_after_write(m, "status"@, status_seen_as(s));
    }
}

/// A span is seen with its identifiers in hexadecimal notation, its state, its name, its kind, its
/// times, its attributes, its events and its links, each with how many were dropped, with its status
/// where there is one, and with its resource and its scope where they are there.
pub proof fn law_span_is_seen(e: OtelSpanView)
    ensures
        ({
            let v = Some(TargetView::of_event(EventView::Trace(e)).root(PathPrefix::Event));
            let s = e.span;
            &&& shows_id(field_of(v, "trace_id"@), s.trace_id)
            &&& shows_id(field_of(v, "span_id"@), s.span_id)
            &&& shows_text(field_of(v, "trace_state"@), s.trace_state)
            &&& shows_id(field_of(v, "parent_span_id"@), s.parent_span_id)
            &&& shows_text(field_of(v, "name"@), s.name)
            &&& shows_int(field_of(v, "kind"@), s.kind as int)
            &&& shows_count(field_of(v, "start_time_unix_nano"@), s.start_time_unix_nano)
            &&& shows_count(field_of(v, "end_time_unix_nano"@), s.end_time_unix_nano)
            &&& field_of(v, "attributes"@) == Some(ValueView::Object(object_from_attrs(e.span_attrs)))
            &&& shows_int(
                field_of(v, "dropped_attributes_count"@),
                s.dropped_attributes_count as int,
            )
            &&& shows_int(field_of(v, "dropped_events_count"@), s.dropped_events_count as int)
            &&& shows_int(field_of(v, "dropped_links_count"@), s.dropped_links_count as int)
            &&& size_of(field_of(v, "events"@)) == s.events.len()
            &&& forall|i: int|
                0 <= i < s.events.len() ==> #[trigger] item_of(field_of(v, "events"@), i) == Some(
                    span_event_object(s.events[i]),
                )
            &&& size_of(field_of(v, "links"@)) == s.links.len()
            &&& forall|i: int|
                0 <= i < s.links.len() ==> #[trigger] item_of(field_of(v, "links"@), i) == Some(
                    span_link_object(s.links[i]),
                )
            &&& field_of(v, "status"@) == match s.status {
                Some(status) => Some(status_seen_as(status)),
                None => None,
            }
            &&& field_of(v, "resource"@) == match full_resource(e.resource, e.resource_attrs) {
                Some(r) => Some(resource_object(r)),
                None => None,
            }
            &&& field_of(v, "scope"@) == match full_scope(e.scope, e.scope_attrs) {
                Some(s) => Some(scope_object(s)),
                None => None,
            }
        }),
{
    let s = e.span;
    let w = span_shown(s, e.span_attrs);
    lemma_span_shown(e);
    lemma_shown_names(s, e.span_attrs);
    lemma_written(w);
    let m1 = written(Seq::empty(), w);
    assert(value_of(m1, "status"@) is None);
    assert(value_of(m1, "resource"@) is None);
    assert(value_of(m1, "scope"@) is None);
    lemma_status_beside(m1, s.status);
    let m2 = with_status(m1, s.status);
    lemma_span_seen_names();
    lemma_origin_beside(
        m2,
        full_resource(e.resource, e.resource_attrs),
        full_scope(e.scope, e.scope_attrs),
    );
    let m3 = e.seen();
    assert forall|i: int| 0 <= i < w.len() implies value_of(m3, (#[trigger] w[i]).0) == Some(w[i].1) by {
        assert(value_of(m1, w[i].0) == Some(w[i].1));
        assert(value_of(m2, w[i].0) == value_of(m1, w[i].0));
    }
    assert(value_of(m3, w[0].0) == Some(w[0].1));
    assert(value_of(m3, w[1].0) == Some(w[1].1));
    assert(value_of(m3, w[2].0) == Some(w[2].1));
    assert(value_of(m3, w[3].0) == Some(w[3].1));
    assert(value_of(m3, w[4].0) == Some(w[4].1));
    assert(value_of(m3, w[5].0) == Some(w[5].1));
    assert(value_of(m3, w[6].0) == Some(w[6].1));
    assert(value_of(m3, w[7].0) == Some(w[7].1));
    assert(value_of(m3, w[8].0) == Some(w[8].1));
    assert(value_of(m3, w[9].0) == Some(w[9].1));
    assert(value_of(m3, w[10].0) == Some(w[10].1));
    assert(value_of(m3, w[11].0) == Some(w[11].1));
    assert(value_of(m3, w[12].0) == Some(w[12].1));
    assert(value_of(m3, w[13].0) == Some(w[13].1));
    assert(value_of(m2, "resource"@) == value_of(m1, "resource"@));
    assert(value_of(m2, "scope"@) == value_of(m1, "scope"@));
    assert(value_of(m3, "status"@) == value_of(m2, "status"@));
}

/// An event of a span is seen with its time, its name, its attributes and how many were dropped; a link
/// with its identifiers in hexadecimal notation, its state, its attributes and how many were dropped; a
/// status with its message and its code.
pub proof fn law_span_parts_are_seen(e: SpanEventView, l: SpanLinkView, s: StatusView)
    ensures
        ({
            let v = Some(span_event_object(e));
            &&& shows_count(field_of(v, "time_unix_nano"@), e.time_unix_nano)
            &&& shows_text(field_of(v, "name"@), e.name)
            &&& shows_attributes(field_of(v, "attributes"@), e.attributes)
            &&& shows_int(
                field_of(v, "dropped_attributes_count"@),
                e.dropped_attributes_count as int,
            )
        }),
        ({
            let v = Some(span_link_object(l));
            &&& shows_id(field_of(v, "trace_id"@), l.trace_id)
            &&& shows_id(field_of(v, "span_id"@), l.span_id)
            &&& shows_text(field_of(v, "trace_state"@), l.trace_state)
            &&& shows_attributes(field_of(v, "attributes"@), l.attributes)
            &&& shows_int(
                field_of(v, "dropped_attributes_count"@),
                l.dropped_attributes_count as int,
            )
        }),
        shows_text(field_of(Some(status_seen_as(s)), "message"@), s.message),
        shows_int(field_of(Some(status_seen_as(s)), "code"@), s.code as int),
{
    lemma_span_event(e);
    lemma_span_link(l);
    lemma_span_seen_names();
    let none = Seq::<(Seq<char>, ValueView)>::empty();
    law_read_after_write(none, "message"@, ValueView::text(s.message));
    let m = with_str(none, "message"@, s.message);
    law_read_after_write(m, "code"@, ValueView::Integer(s.code as i64));
    assert(value_of(with_int(m, "code"@, s.code as i64), "message"@) == value_of(m, "message"@));
}

proof fn lemma_span_event(e: SpanEventView)
    ensures
        ({
            let v = Some(span_event_object(e));
            &&& shows_count(field_of(v, "time_unix_nano"@), e.time_unix_nano)
            &&& shows_text(field_of(v, "name"@), e.name)
            &&& shows_attributes(field_of(v, "attributes"@), e.attributes)
            &&& shows_int(
                field_of(v, "dropped_attributes_count"@),
                e.dropped_attributes_count as int,
            )
        }),
{
    lemma_span_seen_names();
    let w = seq![
        ("time_unix_nano"@, ValueView::Integer(wrap_i64(e.time_unix_nano as int))),
        ("name"@, ValueView::text(e.name)),
        ("attributes"@, ValueView::Object(object_from_kvs(e.attributes))),
        ("dropped_attributes_count"@, ValueView::Integer(e.dropped_attributes_count as i64)),
    ];
    lemma_written(w);
    reveal_with_fuel(written, 5);
    let m = span_event_object(e)->Object_0;
    assert(w.drop_last().drop_last().drop_last().drop_last() =~= Seq::empty());
    assert(m == written(Seq::empty(), w));
    assert(value_of(m, w[0].0) == Some(w[0].1));
    assert(value_of(m, w[1].0) == Some(w[1].1));
    assert(value_of(m, w[2].0) == Some(w[2].1));
    assert(value_of(m, w[3].0) == Some(w[3].1));
}

proof fn lemma_span_link(l: SpanLinkView)
    ensures
        ({
            let v = Some(span_link_object(l));
            &&& shows_id(field_of(v, "trace_id"@), l.trace_id)
            &&& shows_id(field_of(v, "span_id"@), l.span_id)
            &&& shows_text(field_of(v, "trace_state"@), l.trace_state)
            &&& shows_attributes(field_of(v, "attributes"@), l.attributes)
            &&& shows_int(
                field_of(v, "dropped_attributes_count"@),
                l.dropped_attributes_count as int,
            )
        }),
{
    lemma_span_seen_names();
    let w = seq![
        ("trace_id"@, ValueView::Bytes(hex_digits(l.trace_id))),
        ("span_id"@, ValueView::Bytes(hex_digits(l.span_id))),
        ("trace_state"@, ValueView::text(l.trace_state)),
        ("attributes"@, ValueView::Object(object_from_kvs(l.attributes))),
        ("dropped_attributes_count"@, ValueView::Integer(l.dropped_attributes_count as i64)),
    ];
    lemma_written(w);
    reveal_with_fuel(written, 6);
    let m = span_link_object(l)->Object_0;
    assert(w.drop_last().drop_last().drop_last().drop_last().drop_last() =~= Seq::empty());
    assert(m == written(Seq::empty(), w));
    assert(value_of(m, w[0].0) == Some(w[0].1));
    assert(value_of(m, w[1].0) == Some(w[1].1));
    assert(value_of(m, w[2].0) == Some(w[2].1));
    assert(value_of(m, w[3].0) == Some(w[3].1));
    assert(value_of(m, w[4].0) == Some(w[4].1));
}

/// An attribute value is seen as the value that it is: a text as its bytes, a number, a truth value and
/// bytes as they are, a NaN as zero, a list item by item, an empty value as null.
pub proof fn law_attribute_value_is_seen(a: AnyView)
    ensures
        a is Empty ==> value_from_any(a) == ValueView::Null,
        a matches AnyView::Str(s) ==> shows_text(Some(value_from_any(a)), s),
        a matches AnyView::Bool(b) ==> value_from_any(a) == ValueView::Boolean(b),
        a matches AnyView::Int(i) ==> value_from_any(a) == ValueView::Integer(i),
        a matches AnyView::Double(d) ==> (!nan(d) ==> value_from_any(a) == ValueView::Float(d)) && (
        nan(d) ==> value_from_any(a) == ValueView::Float(0)),
        a matches AnyView::Bytes(b) ==> value_from_any(a) == ValueView::Bytes(b),
        a matches AnyView::Array(items) ==> (value_from_any(a) matches ValueView::Array(seen)
            && seen.len() == items.len() && forall|i: int|
            0 <= i < items.len() ==> #[trigger] seen[i] == value_from_any(items[i])),
        a is Kvlist ==> value_from_any(a) is Object,
{
    if let AnyView::Array(items) = a {
        reveal_with_fuel(value_from_any, 2);
    }
}

/// Of named values, each is seen under its name unless a later one has the same name; one that is
/// missing is seen as null.
pub proof fn law_named_values_are_seen(kvs: Seq<(Seq<char>, Option<AnyView>)>, i: int)
    requires
        0 <= i < kvs.len(),
        forall|j: int| i < j < kvs.len() ==> (#[trigger] kvs[j]).0 != kvs[i].0,
    ensures
        ordered(object_from_kvs(kvs)),
        value_of(object_from_kvs(kvs), kvs[i].0) == Some(
            match kvs[i].1 {
                Some(a) => value_from_any(a),
                None => ValueView::Null,
            },
        ),
    decreases kvs.len(),
{
    let before = kvs.drop_last();
    let last = kvs.last();
    let v = match last.1 {
        Some(a) => value_from_any(a),
        None => ValueView::Null,
    };
    lemma_object_ordered(before);
    law_read_after_write(object_from_kvs(before), last.0, v);
    reveal_with_fuel(object_from_kvs, 2);
    if i < before.len() {
        assert forall|j: int| i < j < before.len() implies (#[trigger] before[j]).0 != before[i].0 by {
            assert(kvs[j].0 != kvs[i].0);
        }
        law_named_values_are_seen(before, i);
        assert(kvs[kvs.len() - 1].0 != kvs[i].0);
    }
}

proof fn lemma_object_ordered(kvs: Seq<(Seq<char>, Option<AnyView>)>)
    ensures
        ordered(object_from_kvs(kvs)),
    decreases kvs.len(),
{
    reveal_with_fuel(object_from_kvs, 2);
    if kvs.len() > 0 {
        lemma_object_ordered(kvs.drop_last());
        let last = kvs.last();
        let v = match last.1 {
            Some(a) => value_from_any(a),
            None => ValueView::Null,
        };
        law_read_after_write(object_from_kvs(kvs.drop_last()), last.0, v);
    }
}

} // verus!
