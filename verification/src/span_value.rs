//! The object that a span event is read as, and how such an object is written back.
use vstd::prelude::*;

use crate::attributes::{attrs_from_object, OtelAttributes};
use crate::canonical::{
    append_canonical_resource_scope, int_or_zero, integer_or_zero, put_text, restore_resource,
    restore_scope, restored_resource, restored_resource_attrs, restored_scope, restored_scope_attrs,
    string_or_empty, text_or_empty, with_resource_scope, with_text, without_object,
};
use crate::extract::{extract_id, extract_integer, extract_text, id_in, left_over, or_none, picked};
use crate::keyed::{opt_view, value_of, with_entry, without_entry, KeyedMap};
use crate::log::OtelLog;
use crate::log_value::{put_attrs, put_count, put_id, with_attrs, with_count, with_id};
use crate::metadata::{EventMetadata, MetadataView};
use crate::otlp_span::{Span, SpanView, Status, StatusView};
use crate::span::{OtelSpan, OtelSpanView};
use crate::time::{
    nanos_since_epoch, to_i32, to_i64, to_u32, to_u64, wrap_i32, wrap_i64, wrap_u32, wrap_u64,
};
use crate::value::{lemma_object_view, Value, ValueView};

verus! {

/// The object that a status is read as.
pub open spec fn status_object(s: StatusView) -> ValueView {
    ValueView::Object(
        with_entry(
            with_text(Seq::empty(), "message"@, s.message),
            "code"@,
            ValueView::Integer(s.code as i64),
        ),
    )
}

/// The object that a status is read as.
pub fn status_value(s: &Status) -> (r: Value)
    ensures
        r@ == status_object(s@),
{
    let mut map = KeyedMap::<Value>::new();
    put_text(&mut map, "message", s.message.as_str());
    map.insert("code".to_owned(), Value::Integer(s.code as i64));
    proof {
        lemma_object_view(map);
    }
    Value::Object(map)
}

/// The fields of the span that are not attributes, each under its name unless it is not set.
pub open spec fn span_fields(s: SpanView) -> Seq<(Seq<char>, ValueView)> {
    let m = with_text(Seq::empty(), "name"@, s.name);
    let m = with_id(m, "trace_id"@, s.trace_id);
    let m = with_id(m, "span_id"@, s.span_id);
    let m = with_id(m, "parent_span_id"@, s.parent_span_id);
    let m = with_count(m, "start_time_unix_nano"@, wrap_i64(s.start_time_unix_nano as int));
    let m = with_count(m, "end_time_unix_nano"@, wrap_i64(s.end_time_unix_nano as int));
    let m = with_count(m, "kind"@, s.kind as i64);
    let m = with_count(m, "flags"@, s.flags as i64);
    let m = with_count(m, "dropped_attributes_count"@, s.dropped_attributes_count as i64);
    match s.status {
        Some(status) => with_entry(m, "status"@, status_object(status)),
        None => m,
    }
}

impl OtelSpanView {
    /// The fields of the object that the event is read as: those of the span, its attributes, the
    /// resource and the scope.
    pub open spec fn canonical(&self) -> Seq<(Seq<char>, ValueView)> {
        with_resource_scope(
            with_attrs(span_fields(self.span), self.span_attrs),
            self.resource,
            self.resource_attrs,
            self.scope,
            self.scope_attrs,
        )
    }
}

/// The nanoseconds since the Unix epoch that an instant gives, where it does not lie before it.
pub open spec fn nanos_of_instant(v: Option<ValueView>) -> Option<u64> {
    match v {
        Some(ValueView::Timestamp(t)) => match nanos_since_epoch(
            t.spec_secs() as int,
            t.spec_nanos() as int,
        ) {
            Some(n) => if n >= 0 {
                Some(n as u64)
            } else {
                None
            },
            None => None,
        },
        _ => None,
    }
}

/// The nanoseconds since the Unix epoch that an instant gives, where it does not lie before it.
pub fn instant_nanos(v: &Value) -> (r: Option<u64>)
    ensures
        r == nanos_of_instant(Some(v@)),
{
    match v {
        Value::Timestamp(t) => match t.timestamp_nanos_opt() {
            Some(n) => if n >= 0 {
                Some(n as u64)
            } else {
                None
            },
            None => None,
        },
        _ => None,
    }
}

/// Whether a time that is not set is to be taken from the instant under its former name.
pub open spec fn takes_instant(m: Seq<(Seq<char>, ValueView)>, name: Seq<char>, nanos: u64) -> bool {
    nanos == 0 && nanos_of_instant(value_of(m, name)) is Some
}

/// A time, or where it is not set the one that the instant under its former name gives.
pub open spec fn or_instant(m: Seq<(Seq<char>, ValueView)>, name: Seq<char>, nanos: u64) -> u64 {
    if takes_instant(m, name, nanos) {
        nanos_of_instant(value_of(m, name))->0
    } else {
        nanos
    }
}

/// The object without the instant that was taken from it.
pub open spec fn beside_instant(m: Seq<(Seq<char>, ValueView)>, name: Seq<char>, nanos: u64) -> Seq<
    (Seq<char>, ValueView),
> {
    if takes_instant(m, name, nanos) {
        without_entry(m, name)
    } else {
        m
    }
}

fn extract_instant(map: &mut KeyedMap<Value>, name: &str, nanos: u64) -> (r: u64)
    ensures
        r == or_instant(old(map)@, name@, nanos),
        final(map)@ == beside_instant(old(map)@, name@, nanos),
        old(map).wf() ==> final(map).wf(),
{
    if nanos != 0 {
        return nanos;
    }
    let taken = match map.get(name) {
        Some(v) => instant_nanos(v),
        None => None,
    };
    match taken {
        Some(n) => {
            map.remove(name);
            n
        },
        None => nanos,
    }
}

/// The status that the fields of an object give; none where they say nothing.
pub open spec fn status_of(m: Seq<(Seq<char>, ValueView)>) -> Option<StatusView> {
    let message = text_or_empty(value_of(m, "message"@));
    let rest = without_entry(m, "message"@);
    let code = wrap_i32(int_or_zero(value_of(rest, "code"@)) as int);
    if message.len() == 0 && code == 0 && without_entry(rest, "code"@).len() == 0 {
        None
    } else {
        Some(StatusView { message, code })
    }
}

/// The status in an object.
pub open spec fn restored_status(m: Seq<(Seq<char>, ValueView)>) -> Option<StatusView> {
    match value_of(m, "status"@) {
        Some(ValueView::Object(s)) => status_of(s),
        _ => None,
    }
}

fn restore_status(map: &mut KeyedMap<Value>) -> (r: Option<Status>)
    ensures
        opt_view(r) == restored_status(old(map)@),
        final(map)@ == without_object(old(map)@, "status"@),
        old(map).wf() ==> final(map).wf(),
{
    match map.remove("status") {
        Some(Value::Object(mut fields)) => {
            proof {
                lemma_object_view(fields);
            }
            let message = string_or_empty(fields.remove("message"));
            let code = to_i32(integer_or_zero(fields.remove("code")));
            if message.as_str().is_empty() && code == 0 && fields.is_empty() {
                None
            } else {
                Some(Status { message, code })
            }
        },
        Some(other) => {
            map.insert("status".to_owned(), other);
            None
        },
        None => None,
    }
}

/// The fields of an object that were taken out for a span, and what is left of the object.
pub open spec fn span_of(m: Seq<(Seq<char>, ValueView)>) -> (SpanView, Seq<(Seq<char>, ValueView)>) {
    let name = picked(m, "name"@, "name"@);
    let m = left_over(m, "name"@, "name"@, name->0 is Bytes);
    let t = picked(m, "trace_id"@, "trace_id"@);
    let m = left_over(m, "trace_id"@, "trace_id"@, id_in(t) is Some);
    let s = picked(m, "span_id"@, "span_id"@);
    let m = left_over(m, "span_id"@, "span_id"@, id_in(s) is Some);
    let p = picked(m, "parent_span_id"@, "parent_span_id"@);
    let m = left_over(m, "parent_span_id"@, "parent_span_id"@, id_in(p) is Some);
    let start = picked(m, "start_time_unix_nano"@, "start_time_unix_nano"@);
    let m = left_over(m, "start_time_unix_nano"@, "start_time_unix_nano"@, start->0 is Integer);
    let end = picked(m, "end_time_unix_nano"@, "end_time_unix_nano"@);
    let m = left_over(m, "end_time_unix_nano"@, "end_time_unix_nano"@, end->0 is Integer);
    let start_nanos = wrap_u64(int_or_zero(start) as int);
    let end_nanos = wrap_u64(int_or_zero(end) as int);
    let start_time = or_instant(m, "start_time"@, start_nanos);
    let m = beside_instant(m, "start_time"@, start_nanos);
    let end_time = or_instant(m, "end_time"@, end_nanos);
    let m = beside_instant(m, "end_time"@, end_nanos);
    let kind = picked(m, "kind"@, "kind"@);
    let m = left_over(m, "kind"@, "kind"@, kind->0 is Integer);
    let flags = picked(m, "flags"@, "flags"@);
    let m = left_over(m, "flags"@, "flags"@, flags->0 is Integer);
    let dropped = picked(m, "dropped_attributes_count"@, "dropped_attributes_count"@);
    let m = left_over(
        m,
        "dropped_attributes_count"@,
        "dropped_attributes_count"@,
        dropped->0 is Integer,
    );
    let span = SpanView {
        trace_id: or_none(id_in(t)),
        span_id: or_none(id_in(s)),
        trace_state: Seq::empty(),
        parent_span_id: or_none(id_in(p)),
        flags: wrap_u32(int_or_zero(flags) as int),
        name: text_or_empty(name),
        kind: wrap_i32(int_or_zero(kind) as int),
        start_time_unix_nano: start_time,
        end_time_unix_nano: end_time,
        attributes: Seq::empty(),
        dropped_attributes_count: wrap_u32(int_or_zero(dropped) as int),
        events: Seq::empty(),
        dropped_events_count: 0,
        links: Seq::empty(),
        dropped_links_count: 0,
        status: restored_status(m),
    };
    (span, without_object(m, "status"@))
}

/// The fields of an object; none of any other value.
pub open spec fn fields_of(v: ValueView) -> Seq<(Seq<char>, ValueView)> {
    match v {
        ValueView::Object(m) => m,
        _ => Seq::empty(),
    }
}

/// The span event that a value is written back as: the fields of an object go to their places.
pub open spec fn span_from_value(v: ValueView, metadata: MetadataView) -> OtelSpanView {
    let (span, rest) = span_of(fields_of(v));
    let beside_resource = without_object(rest, "resource"@);
    OtelSpanView {
        span,
        span_attrs: attrs_from_object(without_object(beside_resource, "scope"@)),
        resource: restored_resource(rest),
        resource_attrs: restored_resource_attrs(rest),
        scope: restored_scope(beside_resource),
        scope_attrs: restored_scope_attrs(beside_resource),
        metadata,
    }
}

impl OtelSpan {
    /// The object that the event is read as.
    pub fn to_value_canonical(&self) -> (r: Value)
        ensures
            r@ == ValueView::Object(self@.canonical()),
    {
        let map = self.canonical_map();
        proof {
            lemma_object_view(map);
        }
        Value::Object(map)
    }

    /// The fields of the object that the event is read as.
    fn canonical_map(&self) -> (map: KeyedMap<Value>)
        ensures
            map@ == self@.canonical(),
            map.wf(),
    {
        let mut map = KeyedMap::<Value>::new();
        put_text(&mut map, "name", self.span.name.as_str());
        put_id(&mut map, "trace_id", &self.span.trace_id);
        put_id(&mut map, "span_id", &self.span.span_id);
        put_id(&mut map, "parent_span_id", &self.span.parent_span_id);
        put_count(&mut map, "start_time_unix_nano", to_i64(self.span.start_time_unix_nano));
        put_count(&mut map, "end_time_unix_nano", to_i64(self.span.end_time_unix_nano));
        put_count(&mut map, "kind", self.span.kind as i64);
        put_count(&mut map, "flags", self.span.flags as i64);
        put_count(
            &mut map,
            "dropped_attributes_count",
            self.span.dropped_attributes_count as i64,
        );
        if let Some(status) = &self.span.status {
            map.insert("status".to_owned(), status_value(status));
        }
        put_attrs(&mut map, &self.span_attrs);
        append_canonical_resource_scope(
            &mut map,
            self.resource.as_ref(),
            &self.resource_attrs,
            self.scope.as_ref(),
            &self.scope_attrs,
        );
        map
    }

    /// Writes a value back: the fields of an object go to their places in the event. The times may
    /// also stand as instants under the names `start_time` and `end_time`.
    pub fn apply_value_map(&mut self, value: Value)
        ensures
            final(self)@ == span_from_value(value@, old(self)@.metadata),
    {
        let mut map = match value {
            Value::Object(m) => {
                proof {
                    lemma_object_view(m);
                }
                m
            },
            _ => KeyedMap::<Value>::new(),
        };
        let name = extract_text(&mut map, "name", "name");
        let trace_id = extract_id(&mut map, "trace_id", "trace_id");
        let span_id = extract_id(&mut map, "span_id", "span_id");
        let parent_span_id = extract_id(&mut map, "parent_span_id", "parent_span_id");
        let start = to_u64(
            extract_integer(&mut map, "start_time_unix_nano", "start_time_unix_nano"),
        );
        let end = to_u64(extract_integer(&mut map, "end_time_unix_nano", "end_time_unix_nano"));
        let start_time_unix_nano = extract_instant(&mut map, "start_time", start);
        let end_time_unix_nano = extract_instant(&mut map, "end_time", end);
        let kind = to_i32(extract_integer(&mut map, "kind", "kind"));
        let flags = to_u32(extract_integer(&mut map, "flags", "flags"));
        let dropped_attributes_count = to_u32(
            extract_integer(&mut map, "dropped_attributes_count", "dropped_attributes_count"),
        );
        let status = restore_status(&mut map);
        let (resource, resource_attrs) = restore_resource(&mut map);
        self.resource = resource;
        self.resource_attrs = resource_attrs;
        let (scope, scope_attrs) = restore_scope(&mut map);
        self.scope = scope;
        self.scope_attrs = scope_attrs;
        self.span_attrs = OtelAttributes::from_object_map(&map);
        self.span = Span {
            name,
            trace_id,
            span_id,
            parent_span_id,
            start_time_unix_nano,
            end_time_unix_nano,
            kind,
            flags,
            dropped_attributes_count,
            status,
            ..Span::default()
        };
    }

    /// The span event that a value gives: the fields of an object go to their places in the event.
    pub fn from_value_map(value: Value, metadata: EventMetadata) -> (r: Self)
        ensures
            r@ == span_from_value(value@, metadata@),
    {
        let mut out = OtelSpan::from_parts(Span::default(), None, None, metadata);
        out.apply_value_map(value);
        out
    }

    /// Create a span event from a log event.
    ///
    /// The fields of the log become span attributes. Resource and scope are preserved.
    pub fn from_otel_log(log: OtelLog) -> (r: Self)
        ensures
            r@ == (OtelSpanView {
                span: SpanView::default_view(),
                span_attrs: attrs_from_object(log@.canonical()),
                resource: log@.resource,
                resource_attrs: log@.resource_attrs,
                scope: log@.scope,
                scope_attrs: log@.scope_attrs,
                metadata: log@.metadata,
            }),
    {
        let map = match log.as_map() {
            Some(map) => map,
            None => KeyedMap::<Value>::new(),
        };
        OtelSpan {
            span: Span::default(),
            span_attrs: OtelAttributes::from_object_map(&map),
            resource: log.resource,
            resource_attrs: log.resource_attrs,
            scope: log.scope,
            scope_attrs: log.scope_attrs,
            metadata: log.metadata,
        }
    }

    /// The fields of the object that the event is read as.
    pub fn as_map(&self) -> (r: Option<KeyedMap<Value>>)
        ensures
            r matches Some(m) && m@ == self@.canonical(),
    {
        Some(self.canonical_map())
    }
}

} // verus!
