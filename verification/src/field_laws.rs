//! What is read in the fields of log and span events, and in the objects that they are read as.
use vstd::prelude::*;

use crate::any_value::{value_from_any, AnyView};
use crate::attributes::{attrs_from_object, object_from_attrs};
use crate::canonical::{
    resource_at, resource_fields, scope_at, scope_attrs_with, scope_fields, scope_with, with_text,
};
use crate::fields::field_path;
use crate::keyed::{ordered, value_of, with_entry};
use crate::log::OtelLogView;
use crate::log_laws::{lemma_canonical, lemma_log_names, lemma_record_fields};
use crate::map_laws::law_read_after_write;
use crate::otlp::{ResourceView, ScopeView};
use crate::otlp_span::StatusView;
use crate::path::fetched;
use crate::seen_laws::shows_id;
use crate::seen_metric_laws::{field_of, law_attributes_are_seen, shows_count, shows_int, shows_text};
use crate::span::OtelSpanView;
use crate::span_laws::lemma_span_fields;
use crate::span_path::status_at;
use crate::span_value::{span_fields, status_object};
use crate::time::lemma_instant;
use crate::value::ValueView;
use crate::value_laws::lemma_keys_ordered;

verus! {

/// Whether a value is an instant, given in nanoseconds since the epoch.
pub open spec fn shows_instant(v: Option<ValueView>, nanos: u64) -> bool {
    v matches Some(ValueView::Timestamp(t)) && t.spec_secs() * 1_000_000_000 + t.spec_nanos() == nanos
}

/// The attribute of a log event as a value.
pub open spec fn log_attribute(e: OtelLogView, name: Seq<char>) -> Option<ValueView> {
    match value_of(e.record_attrs, name) {
        Some(a) => Some(value_from_any(a)),
        None => None,
    }
}

/// A field of a log event that has a place in the record holds what stands there, where that is set: the
/// body as a value, the severity, the times as integers, the identifiers in hexadecimal notation. Any
/// other field, and one that is not set there, holds the attribute of its name; the body never does.
pub proof fn law_log_field_is_read(e: OtelLogView, name: Seq<char>)
    ensures
        e.field("body"@) == match e.record.body {
            Some(b) => Some(value_from_any(b)),
            None => None,
        },
        if e.record.severity_text.len() > 0 {
            shows_text(e.field("severity_text"@), e.record.severity_text)
        } else {
            e.field("severity_text"@) == log_attribute(e, "severity_text"@)
        },
        if e.record.severity_number != 0 {
            shows_int(e.field("severity_number"@), e.record.severity_number as int)
        } else {
            e.field("severity_number"@) == log_attribute(e, "severity_number"@)
        },
        if e.record.time_unix_nano != 0 {
            shows_count(e.field("time_unix_nano"@), e.record.time_unix_nano)
        } else {
            e.field("time_unix_nano"@) == log_attribute(e, "time_unix_nano"@)
        },
        if e.record.observed_time_unix_nano != 0 {
            shows_count(e.field("observed_time_unix_nano"@), e.record.observed_time_unix_nano)
        } else {
            e.field("observed_time_unix_nano"@) == log_attribute(e, "observed_time_unix_nano"@)
        },
        if e.record.trace_id.len() > 0 {
            shows_id(e.field("trace_id"@), e.record.trace_id)
        } else {
            e.field("trace_id"@) == log_attribute(e, "trace_id"@)
        },
        if e.record.span_id.len() > 0 {
            shows_id(e.field("span_id"@), e.record.span_id)
        } else {
            e.field("span_id"@) == log_attribute(e, "span_id"@)
        },
        name != "body"@ && name != "severity_text"@ && name != "severity_number"@ && name
            != "time_unix_nano"@ && name != "observed_time_unix_nano"@ && name != "trace_id"@ && name
            != "span_id"@ ==> e.field(name) == log_attribute(e, name),
{
    lemma_log_names();
}

/// The object that a log event is read as holds each field of the record that is set, each attribute whose
/// name is not that of such a field, and the resource and the scope unless there is nothing in them.
pub proof fn law_log_object_is_read(e: OtelLogView, name: Seq<char>)
    requires
        e.wf(),
    ensures
        ({
            let v = Some(ValueView::Object(e.canonical()));
            let r = e.record;
            &&& r.body matches Some(b) ==> field_of(v, "body"@) == Some(value_from_any(b))
            &&& r.severity_text.len() > 0 ==> shows_text(
                field_of(v, "severity_text"@),
                r.severity_text,
            )
            &&& r.severity_number != 0 ==> shows_int(
                field_of(v, "severity_number"@),
                r.severity_number as int,
            )
            &&& r.time_unix_nano != 0 ==> shows_count(
                field_of(v, "time_unix_nano"@),
                r.time_unix_nano,
            )
            &&& r.observed_time_unix_nano != 0 ==> shows_count(
                field_of(v, "observed_time_unix_nano"@),
                r.observed_time_unix_nano,
            )
            &&& r.trace_id.len() > 0 ==> shows_id(field_of(v, "trace_id"@), r.trace_id)
            &&& r.span_id.len() > 0 ==> shows_id(field_of(v, "span_id"@), r.span_id)
            &&& r.flags != 0 ==> shows_int(field_of(v, "flags"@), r.flags as int)
            &&& r.dropped_attributes_count != 0 ==> shows_int(
                field_of(v, "dropped_attributes_count"@),
                r.dropped_attributes_count as int,
            )
            &&& resource_fields(e.resource, e.resource_attrs).len() > 0 ==> field_of(v, "resource"@)
                == Some(ValueView::Object(resource_fields(e.resource, e.resource_attrs)))
            &&& scope_fields(e.scope, e.scope_attrs).len() > 0 ==> field_of(v, "scope"@) == Some(
                ValueView::Object(scope_fields(e.scope, e.scope_attrs)),
            )
            &&& name != "body"@ && name != "severity_text"@ && name != "severity_number"@ && name
                != "time_unix_nano"@ && name != "observed_time_unix_nano"@ && name != "trace_id"@ && name
                != "span_id"@ && name != "flags"@ && name != "dropped_attributes_count"@ && name
                != "resource"@ && name != "scope"@ ==> field_of(v, name) == log_attribute(e, name)
        }),
{
    lemma_log_names();
    lemma_canonical(e);
    lemma_record_fields(e.record);
    law_attributes_are_seen(e.record_attrs, name);
    let m = e.canonical();
    assert(value_of(m, "body"@) == value_of(m, "body"@));
    assert(value_of(m, name) == value_of(m, name));
}

/// The object that a resource is read as holds each of its attributes, and how many were dropped unless
/// none were.
pub proof fn law_resource_object_is_read(
    resource: Option<ResourceView>,
    attrs: Seq<(Seq<char>, AnyView)>,
    name: Seq<char>,
)
    requires
        ordered(attrs),
    ensures
        ({
            let m = resource_fields(resource, attrs);
            let dropped = if resource is Some {
                resource->0.dropped_attributes_count
            } else {
                0
            };
            &&& dropped != 0 ==> shows_int(value_of(m, "dropped_attributes_count"@), dropped as int)
            &&& dropped == 0 || name != "dropped_attributes_count"@ ==> value_of(m, name)
                == match value_of(attrs, name) {
                Some(a) => Some(value_from_any(a)),
                None => None,
            }
        }),
{
    law_attributes_are_seen(attrs, name);
    let fields = object_from_attrs(attrs);
    assert(ordered(fields)) by {
        lemma_keys_ordered(attrs, fields);
    }
    if let Some(r) = resource {
        law_read_after_write(
            fields,
            "dropped_attributes_count"@,
            ValueView::Integer(r.dropped_attributes_count as i64),
        );
    }
}

/// The object that a scope is read as holds its name and its version unless they are empty, and its
/// attributes unless there are none.
pub proof fn law_scope_object_is_read(
    scope: Option<ScopeView>,
    attrs: Seq<(Seq<char>, AnyView)>,
)
    ensures
        ({
            let m = scope_fields(scope, attrs);
            &&& scope matches Some(s) ==> (s.name.len() > 0 ==> shows_text(
                value_of(m, "name"@),
                s.name,
            ))
            &&& scope matches Some(s) ==> (s.version.len() > 0 ==> shows_text(
                value_of(m, "version"@),
                s.version,
            ))
            &&& attrs.len() > 0 ==> value_of(m, "attributes"@) == Some(
                ValueView::Object(object_from_attrs(attrs)),
            )
            &&& attrs.len() == 0 ==> value_of(m, "attributes"@) is None
            &&& scope is None || scope->0.name.len() == 0 ==> value_of(m, "name"@) is None
            &&& scope is None || scope->0.version.len() == 0 ==> value_of(m, "version"@) is None
        }),
{
    reveal_strlit("name");
    reveal_strlit("version");
    reveal_strlit("attributes");
    assert("name"@.len() == 4 && "version"@.len() == 7 && "attributes"@.len() == 10);
    let none = Seq::<(Seq<char>, ValueView)>::empty();
    let named = match scope {
        Some(s) => {
            law_read_after_write(none, "name"@, ValueView::text(s.name));
            let m1 = with_text(none, "name"@, s.name);
            law_read_after_write(m1, "version"@, ValueView::text(s.version));
            with_text(m1, "version"@, s.version)
        },
        None => none,
    };
    law_read_after_write(named, "attributes"@, ValueView::Object(object_from_attrs(attrs)));
}

/// The attribute of a span event as a value.
pub open spec fn span_attribute(e: OtelSpanView, name: Seq<char>) -> Option<ValueView> {
    match value_of(e.span_attrs, name) {
        Some(a) => Some(value_from_any(a)),
        None => None,
    }
}

proof fn lemma_span_field_names()
    ensures
        "name"@.len() == 4 && "name"@[0] == 'n',
        "kind"@.len() == 4 && "kind"@[0] == 'k',
        "trace_id"@.len() == 8 && "trace_id"@[0] == 't',
        "end_time"@.len() == 8 && "end_time"@[0] == 'e',
        "span_id"@.len() == 7,
        "parent_span_id"@.len() == 14,
        "start_time"@.len() == 10,
        "status"@.len() == 6,
        "start_time_unix_nano"@.len() == 20,
        "end_time_unix_nano"@.len() == 18,
        "flags"@.len() == 5,
        "dropped_attributes_count"@.len() == 24,
{
    reveal_strlit("name");
    reveal_strlit("kind");
    reveal_strlit("trace_id");
    reveal_strlit("end_time");
    reveal_strlit("span_id");
    reveal_strlit("parent_span_id");
    reveal_strlit("start_time");
    reveal_strlit("status");
    reveal_strlit("start_time_unix_nano");
    reveal_strlit("end_time_unix_nano");
    reveal_strlit("flags");
    reveal_strlit("dropped_attributes_count");
}

/// A field of a span event that has a place in the span holds what stands there, where that is set: the
/// name, the identifiers in hexadecimal notation, the times as instants, the kind and the status. Any
/// other field, and one that is not set there, holds the attribute of its name; the status never does.
pub proof fn law_span_field_is_read(e: OtelSpanView, name: Seq<char>)
    ensures
        if e.span.name.len() > 0 {
            shows_text(e.field("name"@), e.span.name)
        } else {
            e.field("name"@) == span_attribute(e, "name"@)
        },
        if e.span.trace_id.len() > 0 {
            shows_id(e.field("trace_id"@), e.span.trace_id)
        } else {
            e.field("trace_id"@) == span_attribute(e, "trace_id"@)
        },
        if e.span.span_id.len() > 0 {
            shows_id(e.field("span_id"@), e.span.span_id)
        } else {
            e.field("span_id"@) == span_attribute(e, "span_id"@)
        },
        if e.span.parent_span_id.len() > 0 {
            shows_id(e.field("parent_span_id"@), e.span.parent_span_id)
        } else {
            e.field("parent_span_id"@) == span_attribute(e, "parent_span_id"@)
        },
        if e.span.start_time_unix_nano != 0 {
            shows_instant(e.field("start_time"@), e.span.start_time_unix_nano)
        } else {
            e.field("start_time"@) == span_attribute(e, "start_time"@)
        },
        if e.span.end_time_unix_nano != 0 {
            shows_instant(e.field("end_time"@), e.span.end_time_unix_nano)
        } else {
            e.field("end_time"@) == span_attribute(e, "end_time"@)
        },
        if e.span.kind != 0 {
            shows_int(e.field("kind"@), e.span.kind as int)
        } else {
            e.field("kind"@) == span_attribute(e, "kind"@)
        },
        e.field("status"@) == match e.span.status {
            Some(s) => Some(status_object(s)),
            None => None,
        },
        name != "name"@ && name != "trace_id"@ && name != "span_id"@ && name != "parent_span_id"@
            && name != "start_time"@ && name != "end_time"@ && name != "kind"@ && name != "status"@
            ==> e.field(name) == span_attribute(e, name),
{
    lemma_span_field_names();
    let (s, t) = (e.span.start_time_unix_nano, e.span.end_time_unix_nano);
    lemma_instant((s / 1_000_000_000) as i64, (s % 1_000_000_000) as u32);
    lemma_instant((t / 1_000_000_000) as i64, (t % 1_000_000_000) as u32);
}

/// The removal of a field that only has a place in the span gives what stood there, unless it was zero:
/// the times as integers, the flags, and how many attributes were dropped.
pub proof fn law_span_field_is_cleared(e: OtelSpanView)
    ensures
        if e.span.start_time_unix_nano != 0 {
            shows_count(e.cleared("start_time_unix_nano"@), e.span.start_time_unix_nano)
        } else {
            e.cleared("start_time_unix_nano"@) is None
        },
        if e.span.end_time_unix_nano != 0 {
            shows_count(e.cleared("end_time_unix_nano"@), e.span.end_time_unix_nano)
        } else {
            e.cleared("end_time_unix_nano"@) is None
        },
        if e.span.flags != 0 {
            shows_int(e.cleared("flags"@), e.span.flags as int)
        } else {
            e.cleared("flags"@) is None
        },
        if e.span.dropped_attributes_count != 0 {
            shows_int(
                e.cleared("dropped_attributes_count"@),
                e.span.dropped_attributes_count as int,
            )
        } else {
            e.cleared("dropped_attributes_count"@) is None
        },
{
    lemma_span_field_names();
}

/// The fields of a span, in the object that it is read as, hold what is set.
pub proof fn law_span_object_is_read(e: OtelSpanView)
    ensures
        ({
            let v = Some(ValueView::Object(span_fields(e.span)));
            let s = e.span;
            &&& s.name.len() > 0 ==> shows_text(field_of(v, "name"@), s.name)
            &&& s.trace_id.len() > 0 ==> shows_id(field_of(v, "trace_id"@), s.trace_id)
            &&& s.span_id.len() > 0 ==> shows_id(field_of(v, "span_id"@), s.span_id)
            &&& s.parent_span_id.len() > 0 ==> shows_id(
                field_of(v, "parent_span_id"@),
                s.parent_span_id,
            )
            &&& s.start_time_unix_nano != 0 ==> shows_count(
                field_of(v, "start_time_unix_nano"@),
                s.start_time_unix_nano,
            )
            &&& s.end_time_unix_nano != 0 ==> shows_count(
                field_of(v, "end_time_unix_nano"@),
                s.end_time_unix_nano,
            )
            &&& s.kind != 0 ==> shows_int(field_of(v, "kind"@), s.kind as int)
            &&& s.flags != 0 ==> shows_int(field_of(v, "flags"@), s.flags as int)
            &&& s.dropped_attributes_count != 0 ==> shows_int(
                field_of(v, "dropped_attributes_count"@),
                s.dropped_attributes_count as int,
            )
            &&& s.status matches Some(status) ==> field_of(v, "status"@) == Some(status_object(status))
        }),
{
    lemma_span_fields(e.span);
}

/// The object that a status is read as holds its message unless it is empty, and its code; both are read
/// below the field `status` too.
pub proof fn law_status_is_read(s: StatusView)
    ensures
        s.message.len() > 0 ==> shows_text(field_of(Some(status_object(s)), "message"@), s.message),
        s.message.len() == 0 ==> field_of(Some(status_object(s)), "message"@) is None,
        shows_int(field_of(Some(status_object(s)), "code"@), s.code as int),
        status_at(s, seq!["message"@]) == field_of(Some(status_object(s)), "message"@),
        status_at(s, seq!["code"@]) == field_of(Some(status_object(s)), "code"@),
{
    reveal_strlit("message");
    reveal_strlit("code");
    assert("message"@.len() == 7 && "code"@.len() == 4);
    let none = Seq::<(Seq<char>, ValueView)>::empty();
    law_read_after_write(none, "message"@, ValueView::text(s.message));
    let m = with_text(none, "message"@, s.message);
    law_read_after_write(m, "code"@, ValueView::Integer(s.code as i64));
    assert(value_of(with_entry(m, "code"@, ValueView::Integer(s.code as i64)), "message"@)
        == value_of(m, "message"@));
}

/// Below a resource its attributes are read by their names, and how many were dropped unless none were.
/// Below a scope its name and its version are read unless they are empty, all its attributes unless there
/// are none, and each of them by its name.
pub proof fn law_nested_fields_are_read(
    resource: Option<ResourceView>,
    scope: ScopeView,
    attrs: Seq<(Seq<char>, AnyView)>,
    key: Seq<char>,
)
    requires
        key != "dropped_attributes_count"@,
    ensures
        resource_at(resource, attrs, seq![key]) == match value_of(attrs, key) {
            Some(a) => Some(value_from_any(a)),
            None => None,
        },
        resource matches Some(r) ==> (r.dropped_attributes_count != 0 ==> shows_int(
            resource_at(resource, attrs, seq!["dropped_attributes_count"@]),
            r.dropped_attributes_count as int,
        )),
        scope.name.len() > 0 ==> shows_text(scope_at(Some(scope), attrs, seq!["name"@]), scope.name),
        scope.name.len() == 0 ==> scope_at(Some(scope), attrs, seq!["name"@]) is None,
        scope.version.len() > 0 ==> shows_text(
            scope_at(Some(scope), attrs, seq!["version"@]),
            scope.version,
        ),
        scope.version.len() == 0 ==> scope_at(Some(scope), attrs, seq!["version"@]) is None,
        attrs.len() > 0 ==> scope_at(Some(scope), attrs, seq!["attributes"@]) == Some(
            ValueView::Object(object_from_attrs(attrs)),
        ),
        scope_at(Some(scope), attrs, seq!["attributes"@, key]) == match value_of(attrs, key) {
            Some(a) => Some(value_from_any(a)),
            None => None,
        },
        scope_at(None, attrs, seq!["name"@]) is None,
{
    reveal_strlit("name");
    reveal_strlit("version");
    reveal_strlit("attributes");
    assert("name"@.len() == 4 && "version"@.len() == 7 && "attributes"@.len() == 10);
    assert(seq!["attributes"@, key].drop_first() =~= seq![key]);
    let below = field_path(seq![key].drop_first());
    assert(below =~= Seq::empty());
    reveal_with_fuel(fetched, 1);
}

/// A name, a version or an attribute that is written below a scope is read there, and the other parts of
/// the scope stay.
pub proof fn law_scope_is_written(
    scope: ScopeView,
    attrs: Seq<(Seq<char>, AnyView)>,
    text: Seq<char>,
    v: ValueView,
)
    ensures
        scope_with(scope, seq!["name"@], text) == (ScopeView { name: text, ..scope }),
        scope_with(scope, seq!["version"@], text) == (ScopeView { version: text, ..scope }),
        scope_with(scope, seq!["attributes"@], text) == scope,
        scope_attrs_with(attrs, seq!["name"@], v) == attrs,
        scope_attrs_with(attrs, seq!["version"@], v) == attrs,
        v matches ValueView::Object(m) ==> scope_attrs_with(attrs, seq!["attributes"@], v)
            == attrs_from_object(m),
{
    reveal_strlit("name");
    reveal_strlit("version");
    reveal_strlit("attributes");
    assert("name"@.len() == 4 && "version"@.len() == 7 && "attributes"@.len() == 10);
}

} // verus!
