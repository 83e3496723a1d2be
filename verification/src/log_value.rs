//! The object that a log event is read as, and how such an object is written back.
use vstd::prelude::*;

use crate::any_value::{
    any_from_value, any_value_to_vrl, kvs_view, value_from_any, vrl_value_to_any_value, AnyView,
};
use crate::attributes::{attrs_from_kvs, attrs_from_object, attrs_overlaid, filled, OtelAttributes};
use crate::canonical::{
    append_canonical_resource_scope, attributes_of, int_or_zero, put_text, restore_resource,
    restore_scope, restored_resource, restored_resource_attrs, restored_scope, restored_scope_attrs,
    text_or_empty, with_resource_scope, with_text, without_object,
};
use crate::extract::{
    extract_id, extract_integer, extract_nanos_field, extract_text, id_in, left_over, nanos_in,
    or_none, or_zero, pick, picked, unpicked,
};
use crate::hex::{hex_digits, hex_encode};
use crate::keyed::{holds_key, opt_view, value_of, with_entry, without_entry, KeyedMap};
use crate::log::{OtelLog, OtelLogView};
use crate::metadata::{EventMetadata, MetadataView};
use crate::metric_new::nanos_at;
use crate::otlp::{LogRecord, LogRecordView};
use crate::otlp_json::{otlp_item, otlp_kvs, parse_otlp_key_value_array, try_parse_otlp_any_value};
use crate::time::{to_i32, to_i64, to_u32, wrap_i32, wrap_i64, wrap_u32};
use crate::value::{lemma_array_view, lemma_object_view, Value, ValueView};

verus! {

/// The object with an integer field added, unless it is zero.
pub open spec fn with_count(m: Seq<(Seq<char>, ValueView)>, key: Seq<char>, n: i64) -> Seq<
    (Seq<char>, ValueView),
> {
    if n == 0 {
        m
    } else {
        with_entry(m, key, ValueView::Integer(n))
    }
}

/// The object with an identifier added in hexadecimal notation, unless it is empty.
pub open spec fn with_id(m: Seq<(Seq<char>, ValueView)>, key: Seq<char>, id: Seq<u8>) -> Seq<
    (Seq<char>, ValueView),
> {
    if id.len() == 0 {
        m
    } else {
        with_entry(m, key, ValueView::Bytes(hex_digits(id)))
    }
}

/// The object with a field added for each attribute, unless a field of its name is there.
pub open spec fn with_attrs(m: Seq<(Seq<char>, ValueView)>, attrs: Seq<(Seq<char>, AnyView)>) -> Seq<
    (Seq<char>, ValueView),
>
    decreases attrs.len(),
{
    if attrs.len() == 0 {
        m
    } else {
        let before = with_attrs(m, attrs.drop_last());
        let (key, value) = attrs.last();
        if holds_key(before, key) {
            before
        } else {
            with_entry(before, key, value_from_any(value))
        }
    }
}

pub fn put_count(map: &mut KeyedMap<Value>, key: &str, n: i64)
    ensures
        final(map)@ == with_count(old(map)@, key@, n),
        old(map).wf() ==> final(map).wf(),
{
    if n != 0 {
        map.insert(key.to_owned(), Value::Integer(n));
    }
}

pub fn put_id(map: &mut KeyedMap<Value>, key: &str, id: &Vec<u8>)
    ensures
        final(map)@ == with_id(old(map)@, key@, id@),
        old(map).wf() ==> final(map).wf(),
{
    if id.len() != 0 {
        map.insert(key.to_owned(), hex_encode(id));
    }
}

pub fn put_attrs(map: &mut KeyedMap<Value>, attrs: &OtelAttributes)
    ensures
        final(map)@ == with_attrs(old(map)@, attrs@),
        old(map).wf() ==> final(map).wf(),
{
    let ghost before = map@;
    let ghost all = attrs@;
    let mut i: usize = 0;
    assert(all.take(0) =~= Seq::empty());
    while i < attrs.inner.entries.len()
        invariant
            i <= attrs.inner.entries@.len(),
            all == attrs@,
            map@ == with_attrs(before, all.take(i as int)),
            old(map).wf() ==> map.wf(),
        decreases attrs.inner.entries@.len() - i,
    {
        assert(all.take(i + 1).drop_last() =~= all.take(i as int));
        let key: &str = attrs.inner.entries[i].0.as_str();
        if !map.contains_key(key) {
            map.insert(key.to_owned(), any_value_to_vrl(&attrs.inner.entries[i].1));
        }
        i = i + 1;
    }
    assert(all.take(i as int) =~= all);
}

/// The fields of the record that are not attributes, each under its name unless it is not set.
pub open spec fn record_fields(r: LogRecordView) -> Seq<(Seq<char>, ValueView)> {
    let m = match r.body {
        Some(body) => with_entry(Seq::empty(), "body"@, value_from_any(body)),
        None => Seq::empty(),
    };
    let m = with_text(m, "severity_text"@, r.severity_text);
    let m = with_count(m, "severity_number"@, r.severity_number as i64);
    let m = with_count(m, "time_unix_nano"@, wrap_i64(r.time_unix_nano as int));
    let m = with_count(m, "observed_time_unix_nano"@, wrap_i64(r.observed_time_unix_nano as int));
    let m = with_id(m, "trace_id"@, r.trace_id);
    let m = with_id(m, "span_id"@, r.span_id);
    let m = with_count(m, "flags"@, r.flags as i64);
    with_count(m, "dropped_attributes_count"@, r.dropped_attributes_count as i64)
}

impl OtelLogView {
    /// The fields of the object that the event is read as: those of the record, its attributes,
    /// the resource and the scope.
    pub open spec fn canonical(&self) -> Seq<(Seq<char>, ValueView)> {
        with_resource_scope(
            with_attrs(record_fields(self.record), self.record_attrs),
            self.resource,
            self.resource_attrs,
            self.scope,
            self.scope_attrs,
        )
    }
}

/// What is left of an object without a body after the other fields of a record were taken out of it.
pub open spec fn beside_natives(m: Seq<(Seq<char>, ValueView)>) -> Seq<(Seq<char>, ValueView)> {
    let t = picked(m, "time_unix_nano"@, "timeUnixNano"@);
    let m = left_over(m, "time_unix_nano"@, "timeUnixNano"@, nanos_in(t) is Some);
    let o = picked(m, "observed_time_unix_nano"@, "observedTimeUnixNano"@);
    let m = left_over(m, "observed_time_unix_nano"@, "observedTimeUnixNano"@, nanos_in(o) is Some);
    let s = picked(m, "severity_text"@, "severityText"@);
    let m = left_over(m, "severity_text"@, "severityText"@, s->0 is Bytes);
    let n = picked(m, "severity_number"@, "severityNumber"@);
    let m = left_over(m, "severity_number"@, "severityNumber"@, n->0 is Integer);
    let i = picked(m, "trace_id"@, "traceId"@);
    let m = left_over(m, "trace_id"@, "traceId"@, id_in(i) is Some);
    let p = picked(m, "span_id"@, "spanId"@);
    let m = left_over(m, "span_id"@, "spanId"@, id_in(p) is Some);
    let f = picked(m, "flags"@, "flags"@);
    let m = left_over(m, "flags"@, "flags"@, f->0 is Integer);
    let d = picked(m, "dropped_attributes_count"@, "dropped_attributes_count"@);
    left_over(m, "dropped_attributes_count"@, "dropped_attributes_count"@, d->0 is Integer)
}

/// The record that the fields of an object without a body give. Each field may be named as in the
/// protocol or as in its JSON encoding; what does not fit counts as not set.
pub open spec fn natives_of(m: Seq<(Seq<char>, ValueView)>) -> LogRecordView {
    let t = picked(m, "time_unix_nano"@, "timeUnixNano"@);
    let m = left_over(m, "time_unix_nano"@, "timeUnixNano"@, nanos_in(t) is Some);
    let o = picked(m, "observed_time_unix_nano"@, "observedTimeUnixNano"@);
    let m = left_over(m, "observed_time_unix_nano"@, "observedTimeUnixNano"@, nanos_in(o) is Some);
    let s = picked(m, "severity_text"@, "severityText"@);
    let m = left_over(m, "severity_text"@, "severityText"@, s->0 is Bytes);
    let n = picked(m, "severity_number"@, "severityNumber"@);
    let m = left_over(m, "severity_number"@, "severityNumber"@, n->0 is Integer);
    let i = picked(m, "trace_id"@, "traceId"@);
    let m = left_over(m, "trace_id"@, "traceId"@, id_in(i) is Some);
    let p = picked(m, "span_id"@, "spanId"@);
    let m = left_over(m, "span_id"@, "spanId"@, id_in(p) is Some);
    let f = picked(m, "flags"@, "flags"@);
    let m = left_over(m, "flags"@, "flags"@, f->0 is Integer);
    let d = picked(m, "dropped_attributes_count"@, "dropped_attributes_count"@);
    LogRecordView {
        time_unix_nano: or_zero(nanos_in(t)),
        observed_time_unix_nano: or_zero(nanos_in(o)),
        severity_number: wrap_i32(int_or_zero(n) as int),
        severity_text: text_or_empty(s),
        body: None,
        attributes: Seq::empty(),
        dropped_attributes_count: wrap_u32(int_or_zero(d) as int),
        flags: wrap_u32(int_or_zero(f) as int),
        trace_id: or_none(id_in(i)),
        span_id: or_none(id_in(p)),
    }
}

/// What is left of an object after the fields of a record were taken out of it.
pub open spec fn beside_record(m: Seq<(Seq<char>, ValueView)>) -> Seq<(Seq<char>, ValueView)> {
    beside_natives(unpicked(m, "body"@, "message"@))
}

/// The record that the fields of an object give. The body is the field `body`, or else the field
/// `message`.
pub open spec fn record_of(m: Seq<(Seq<char>, ValueView)>) -> LogRecordView {
    LogRecordView {
        body: match picked(m, "body"@, "message"@) {
            Some(v) => Some(otlp_item(v)),
            None => None,
        },
        ..natives_of(unpicked(m, "body"@, "message"@))
    }
}

/// The attributes that the fields of an object give: a list of named attributes in the field
/// `attributes` goes over the fields. Anything else in that field is an attribute of that name.
pub open spec fn event_attrs_of(m: Seq<(Seq<char>, ValueView)>) -> Seq<(Seq<char>, AnyView)> {
    let others = without_entry(m, "attributes"@);
    match value_of(m, "attributes"@) {
        Some(ValueView::Array(arr)) => match otlp_kvs(arr) {
            Some(kvs) => attrs_overlaid(
                attrs_from_object(others),
                attrs_overlaid(Seq::empty(), filled(kvs)),
            ),
            None => attrs_from_object(with_entry(others, "attributes"@, ValueView::Array(arr))),
        },
        Some(v) => attrs_from_object(with_entry(others, "attributes"@, v)),
        None => attrs_from_object(others),
    }
}

/// The log event that a value is written back as: the fields of an object go to their places, and
/// any other value is the body.
pub open spec fn log_written_back(v: ValueView, metadata: MetadataView) -> OtelLogView {
    match v {
        ValueView::Object(m) => {
            let rest = beside_record(m);
            let beside_resource = without_object(rest, "resource"@);
            OtelLogView {
                record: record_of(m),
                record_attrs: event_attrs_of(without_object(beside_resource, "scope"@)),
                resource: restored_resource(rest),
                resource_attrs: restored_resource_attrs(rest),
                scope: restored_scope(beside_resource),
                scope_attrs: restored_scope_attrs(beside_resource),
                metadata,
            }
        },
        _ => OtelLogView::of_body(any_from_value(v), metadata),
    }
}

/// The fields of an object with an instant in the field `timestamp` as the time of the event, where
/// the object has no other one and the instant lies after the Unix epoch and within the nanoseconds
/// that can be counted.
pub open spec fn with_time_routed(m: Seq<(Seq<char>, ValueView)>) -> Seq<(Seq<char>, ValueView)> {
    match value_of(m, "timestamp"@) {
        Some(ValueView::Timestamp(t)) => match nanos_at(Some(t)) {
            Some(n) => if n > 0 && picked(m, "time_unix_nano"@, "timeUnixNano"@) is None {
                with_entry(
                    without_entry(m, "timestamp"@),
                    "time_unix_nano"@,
                    ValueView::Integer(n),
                )
            } else {
                m
            },
            None => m,
        },
        _ => m,
    }
}

impl OtelLogView {
    /// The event with a value as an attribute of its resource; as an attribute of its record, where
    /// the resource has one of that name.
    pub open spec fn with_routed(
        self,
        key: Seq<char>,
        place: Seq<char>,
        v: Option<ValueView>,
    ) -> OtelLogView {
        match v {
            Some(v) => if value_of(self.resource_attrs, place) is None {
                self.with_resource_attribute(place, any_from_value(v))
            } else {
                self.with_attribute(key, any_from_value(v))
            },
            None => self,
        }
    }
}

/// The log event that a value gives: the fields of an object go to their places, the type of the
/// source and the host to the attributes of the resource, and any other value is the body.
pub open spec fn log_from_value(v: ValueView, metadata: MetadataView) -> OtelLogView {
    match v {
        ValueView::Object(m) => {
            let timed = with_time_routed(m);
            let sourceless = without_entry(timed, "source_type"@);
            log_written_back(
                ValueView::Object(without_entry(sourceless, "host"@)),
                metadata,
            ).with_routed("source_type"@, "source_type"@, value_of(timed, "source_type"@)).with_routed(
                "host"@,
                "host.name"@,
                value_of(sourceless, "host"@),
            )
        },
        _ => log_written_back(v, metadata),
    }
}

/// Sets the attributes `over` on top of `attrs`.
pub fn overlay(attrs: &mut OtelAttributes, over: OtelAttributes)
    ensures
        final(attrs)@ == attrs_overlaid(old(attrs)@, over@),
        old(attrs).wf() ==> final(attrs).wf(),
{
    let ghost before = attrs@;
    let ghost all = over@;
    assert(all.take(0) =~= Seq::empty());
    for entry in it: over.inner.entries
        invariant
            it.seq() == over.inner.entries@,
            all == over@,
            attrs@ == attrs_overlaid(before, all.take(it.index() as int)),
            old(attrs).wf() ==> attrs.wf(),
    {
        let ghost i = it.index() as int;
        assert(all.take(i + 1).drop_last() =~= all.take(i));
        attrs.insert(entry.0, entry.1);
    }
    assert(all.take(all.len() as int) =~= all);
}

/// The attributes that the fields of an object give: a list of named attributes in the field
/// `attributes` goes over the fields. Anything else in that field is an attribute of that name.
pub fn event_attributes(map: KeyedMap<Value>) -> (r: OtelAttributes)
    ensures
        r@ == event_attrs_of(map@),
        map.wf() ==> r.wf(),
{
    let mut map = map;
    match map.remove("attributes") {
        Some(Value::Array(arr)) => {
            proof {
                lemma_array_view(arr);
            }
            match parse_otlp_key_value_array(&arr) {
                Some(kvs) => {
                    let extra = attributes_of(kvs);
                    let mut attrs = OtelAttributes::from_object_map(&map);
                    overlay(&mut attrs, extra);
                    attrs
                },
                None => {
                    map.insert("attributes".to_owned(), Value::Array(arr));
                    OtelAttributes::from_object_map(&map)
                },
            }
        },
        Some(v) => {
            map.insert("attributes".to_owned(), v);
            OtelAttributes::from_object_map(&map)
        },
        None => OtelAttributes::from_object_map(&map),
    }
}

/// Makes an instant in the field `timestamp` of an object the time of the event, where the object has
/// no other one.
fn route_time(map: &mut KeyedMap<Value>)
    ensures
        final(map)@ == with_time_routed(old(map)@),
        old(map).wf() ==> final(map).wf(),
{
    let nanos = match map.get("timestamp") {
        Some(Value::Timestamp(t)) => t.timestamp_nanos_opt(),
        _ => None,
    };
    let free = !map.contains_key("time_unix_nano") && !map.contains_key("timeUnixNano");
    match nanos {
        Some(n) => {
            if n > 0 && free {
                map.remove("timestamp");
                map.insert("time_unix_nano".to_owned(), Value::Integer(n));
            }
        },
        None => {},
    }
}

impl OtelLog {
    /// The object that the event is read as.
    pub fn to_value_canonical(&self) -> (r: Value)
        ensures
            r@ == ValueView::Object(self@.canonical()),
    {
        let map = self.canonical_map();
        proof {
            lemma_object_view(map);
        }
        Value::Object(map)
    }

    /// The fields of the object that the event is read as.
    fn canonical_map(&self) -> (map: KeyedMap<Value>)
        ensures
            map@ == self@.canonical(),
            map.wf(),
    {
        let mut map = KeyedMap::<Value>::new();
        match self.body() {
            Some(body) => {
                map.insert("body".to_owned(), any_value_to_vrl(body));
            },
            None => {},
        }
        put_text(&mut map, "severity_text", self.record.severity_text.as_str());
        put_count(&mut map, "severity_number", self.record.severity_number as i64);
        put_count(&mut map, "time_unix_nano", to_i64(self.record.time_unix_nano));
        put_count(
            &mut map,
            "observed_time_unix_nano",
            to_i64(self.record.observed_time_unix_nano),
        );
        put_id(&mut map, "trace_id", &self.record.trace_id);
        put_id(&mut map, "span_id", &self.record.span_id);
        put_count(&mut map, "flags", self.record.flags as i64);
        put_count(
            &mut map,
            "dropped_attributes_count",
            self.record.dropped_attributes_count as i64,
        );
        put_attrs(&mut map, &self.record_attrs);
        append_canonical_resource_scope(
            &mut map,
            self.resource.as_ref(),
            &self.resource_attrs,
            self.scope.as_ref(),
            &self.scope_attrs,
        );
        map
    }

    /// Writes a value back: the fields of an object go to their places in the event, `message` to
    /// that of the body where there is no `body`, and any other value becomes the body. A field that
    /// has no place of its own becomes an attribute of the record.
    pub fn apply_value_map(&mut self, value: Value)
        ensures
            final(self)@ == log_written_back(value@, old(self)@.metadata),
    {
        let mut map = match value {
            Value::Object(m) => {
                proof {
                    lemma_object_view(m);
                }
                m
            },
            other => {
                self.record = LogRecord {
                    body: Some(vrl_value_to_any_value(&other)),
                    ..LogRecord::default()
                };
                self.record_attrs = OtelAttributes::new();
                self.resource = None;
                self.resource_attrs = OtelAttributes::new();
                self.scope = None;
                self.scope_attrs = OtelAttributes::new();
                assert(attrs_from_kvs(Seq::empty()) =~= Seq::empty());
                return;
            },
        };
        let body = match pick(&mut map, "body", "message") {
            Some(v) => match try_parse_otlp_any_value(&v) {
                Some(a) => Some(a),
                None => Some(vrl_value_to_any_value(&v)),
            },
            None => None,
        };
        let time_unix_nano = extract_nanos_field(&mut map, "time_unix_nano", "timeUnixNano");
        let observed_time_unix_nano = extract_nanos_field(
            &mut map,
            "observed_time_unix_nano",
            "observedTimeUnixNano",
        );
        let severity_text = extract_text(&mut map, "severity_text", "severityText");
        let severity_number = to_i32(
            extract_integer(&mut map, "severity_number", "severityNumber"),
        );
        let trace_id = extract_id(&mut map, "trace_id", "traceId");
        let span_id = extract_id(&mut map, "span_id", "spanId");
        let flags = to_u32(extract_integer(&mut map, "flags", "flags"));
        let dropped_attributes_count = to_u32(
            extract_integer(&mut map, "dropped_attributes_count", "dropped_attributes_count"),
        );
        let (resource, resource_attrs) = restore_resource(&mut map);
        self.resource = resource;
        self.resource_attrs = resource_attrs;
        let (scope, scope_attrs) = restore_scope(&mut map);
        self.scope = scope;
        self.scope_attrs = scope_attrs;
        self.record_attrs = event_attributes(map);
        self.record = LogRecord {
            time_unix_nano,
            observed_time_unix_nano,
            severity_number,
            severity_text,
            body,
            attributes: Vec::new(),
            dropped_attributes_count,
            flags,
            trace_id,
            span_id,
        };
        assert(kvs_view(self.record.attributes@) =~= Seq::empty());
    }

    /// Sets an attribute of the resource, or one of the record where the resource has one of that
    /// name.
    fn route(&mut self, key: &str, place: &str, value: Option<Value>)
        ensures
            final(self)@ == old(self)@.with_routed(key@, place@, opt_view(value)),
    {
        if let Some(v) = value {
            if self.resource_attribute(place).is_none() {
                self.set_resource_attribute(place.to_owned(), vrl_value_to_any_value(&v));
            } else {
                self.set_attribute(key.to_owned(), vrl_value_to_any_value(&v));
            }
        }
    }

    /// The log event that a value gives: the fields of an object go to their places in the event, an
    /// instant in `timestamp` becomes its time, `source_type` and `host` become attributes of the
    /// resource, and any other value is the body.
    pub fn from_value_map(value: Value, metadata: EventMetadata) -> (r: Self)
        ensures
            r@ == log_from_value(value@, metadata@),
    {
        let mut out = OtelLog::new_with_metadata(metadata);
        match value {
            Value::Object(m) => {
                proof {
                    lemma_object_view(m);
                }
                let mut map = m;
                route_time(&mut map);
                let source_type = map.remove("source_type");
                let host = map.remove("host");
                proof {
                    lemma_object_view(map);
                }
                out.apply_value_map(Value::Object(map));
                out.route("source_type", "source_type", source_type);
                out.route("host", "host.name", host);
            },
            other => {
                out.apply_value_map(other);
            },
        }
        out
    }

    pub fn from_map(map: KeyedMap<Value>, metadata: EventMetadata) -> (r: Self)
        ensures
            r@ == log_from_value(ValueView::Object(map@), metadata@),
    {
        proof {
            lemma_object_view(map);
        }
        OtelLog::from_value_map(Value::Object(map), metadata)
    }

    /// The object that the event is read as; changing it changes nothing in the event.
    pub fn value_mut(&mut self) -> (r: Value)
        ensures
            r@ == ValueView::Object(old(self)@.canonical()),
            final(self)@ == old(self)@,
    {
        self.to_value_canonical()
    }

    /// The fields of the object that the event is read as.
    pub fn as_map(&self) -> (r: Option<KeyedMap<Value>>)
        ensures
            r matches Some(m) && m@ == self@.canonical(),
    {
        Some(self.canonical_map())
    }

    /// The names of the fields of the object that the event is read as, in order.
    pub fn keys(&self) -> (r: Option<Vec<String>>)
        ensures
            r is Some,
            r->0@.len() == self@.canonical().len(),
            forall|i: int|
                0 <= i < r->0@.len() ==> (#[trigger] r->0@[i])@ == self@.canonical()[i].0,
    {
        let map = self.canonical_map();
        let mut names: Vec<String> = Vec::new();
        let ghost all = map@;
        for entry in it: map.entries
            invariant
                it.seq() == map.entries@,
                all == map@,
                names@.len() == it.index(),
                forall|j: int| 0 <= j < names@.len() ==> (#[trigger] names@[j])@ == all[j].0,
        {
            names.push(entry.0);
        }
        Some(names)
    }
}

} // verus!
