//! Events in the JSON encoding of the OpenTelemetry protocol: names in camel case, nanoseconds and
//! 64-bit integers as texts of digits.
use vstd::prelude::*;

use crate::any_value::{
    kvs_view, lemma_any_array_view, lemma_any_item_decreases, lemma_any_kv_decreases,
    lemma_any_kvlist_view, values_view, AnyValue, AnyView, KeyValue, OtelValueKind,
};
use crate::attributes::kvs_from_attrs;
use crate::canonical::{full_resource, full_scope};
use crate::event::{Event, EventView};
use crate::json::{fields_view, items_view, Json, JsonView};
use crate::json_fields::{
    and_id, and_int, and_nanos, and_text, array_json, counts_json, double_json, doubles_json,
    hex_encode_bytes, hex_text, int_json, json_counts, json_double, json_doubles, json_int,
    no_fields, object_json, put, put_id_unless_empty, put_int_unless_zero, put_nanos_unless_zero,
    put_text_unless_empty,
};
use crate::keyed::{opt_view, views};
use crate::log::{OtelLog, OtelLogView};
use crate::metric::{OtelMetric, OtelMetricView};
use crate::otlp::{InstrumentationScope, Resource, ResourceView, ScopeView};
use crate::otlp_metric::{
    Buckets, BucketsView, Data, DataView, ExponentialHistogramDataPoint,
    ExponentialHistogramDataPointView, HistogramDataPoint, HistogramDataPointView, NumberDataPoint,
    NumberDataPointView, NumberValue, SummaryDataPoint, SummaryDataPointView, ValueAtQuantile,
    ValueAtQuantileView,
};
use crate::otlp_span::{SpanEvent, SpanEventView, SpanLink, SpanLinkView, Status, StatusView};
use crate::span::{OtelSpan, OtelSpanView};
use crate::text::{decimal, i64_text, signed_decimal, u64_text};

verus! {

/// The JSON object that an attribute value is: its content under the name of its type.
pub open spec fn json_any(a: AnyView) -> JsonView
    decreases a,
{
    match a {
        AnyView::Empty => JsonView::Object(Seq::empty()),
        AnyView::Str(s) => JsonView::Object(seq![("stringValue"@, JsonView::String(s))]),
        AnyView::Int(i) => JsonView::Object(
            seq![("intValue"@, JsonView::String(signed_decimal(i as int)))],
        ),
        AnyView::Double(d) => JsonView::Object(seq![("doubleValue"@, json_double(d))]),
        AnyView::Bool(b) => JsonView::Object(seq![("boolValue"@, JsonView::Bool(b))]),
        AnyView::Bytes(b) => JsonView::Object(
            seq![("bytesValue"@, JsonView::String(hex_text(b)))],
        ),
        AnyView::Array(items) => JsonView::Object(
            seq![
                (
                    "arrayValue"@,
                    json_values(
                        Seq::new(
                            items.len(),
                            |i: int|
                                if 0 <= i < items.len() {
                                    json_any(items[i])
                                } else {
                                    arbitrary()
                                },
                        ),
                    ),
                ),
            ],
        ),
        AnyView::Kvlist(kvs) => JsonView::Object(
            seq![
                (
                    "kvlistValue"@,
                    json_values(
                        Seq::new(
                            kvs.len(),
                            |i: int|
                                if 0 <= i < kvs.len() {
                                    match kvs[i].1 {
                                        Some(v) => json_pair(kvs[i].0, Some(json_any(v))),
                                        None => json_pair(kvs[i].0, None),
                                    }
                                } else {
                                    arbitrary()
                                },
                        ),
                    ),
                ),
            ],
        ),
    }
}

/// The object that holds a list of values.
pub open spec fn json_values(items: Seq<JsonView>) -> JsonView {
    JsonView::Object(seq![("values"@, JsonView::Array(items))])
}

/// The object that a named value is.
pub open spec fn json_pair(key: Seq<char>, value: Option<JsonView>) -> JsonView {
    JsonView::Object(
        match value {
            Some(v) => seq![("key"@, JsonView::String(key)), ("value"@, v)],
            None => seq![("key"@, JsonView::String(key))],
        },
    )
}

/// The object that a named attribute is.
pub open spec fn json_kv(kv: (Seq<char>, Option<AnyView>)) -> JsonView {
    json_pair(
        kv.0,
        match kv.1 {
            Some(v) => Some(json_any(v)),
            None => None,
        },
    )
}

/// The array that named attributes are.
pub open spec fn json_kvs(kvs: Seq<(Seq<char>, Option<AnyView>)>) -> JsonView {
    JsonView::Array(Seq::new(kvs.len(), |i: int| json_kv(kvs[i])))
}

fn values_json(items: Vec<Json>) -> (r: Json)
    ensures
        r@ == json_values(items_view(items@)),
{
    let mut m = no_fields();
    put(&mut m, "values", array_json(items));
    assert(fields_view(m@) =~= seq![("values"@, JsonView::Array(items_view(items@)))]);
    object_json(m)
}

fn single_json(key: &str, v: Json) -> (r: Json)
    ensures
        r@ == JsonView::Object(seq![(key@, v@)]),
{
    let mut m = no_fields();
    put(&mut m, key, v);
    assert(fields_view(m@) =~= seq![(key@, v@)]);
    object_json(m)
}

fn pair_json(key: &str, value: Option<Json>) -> (r: Json)
    ensures
        r@ == json_pair(key@, opt_view(value)),
{
    let mut m = no_fields();
    put(&mut m, "key", Json::String(key.to_owned()));
    assert(fields_view(m@) =~= seq![("key"@, JsonView::String(key@))]);
    if let Some(v) = value {
        put(&mut m, "value", v);
        assert(fields_view(m@) =~= seq![("key"@, JsonView::String(key@)), ("value"@, v@)]);
    }
    object_json(m)
}

pub proof fn lemma_json_any_array(items: Seq<AnyView>)
    ensures
        json_any(AnyView::Array(items)) == JsonView::Object(
            seq![("arrayValue"@, json_values(Seq::new(items.len(), |i: int| json_any(items[i]))))],
        ),
{
    reveal_with_fuel(json_any, 2);
    let fields = json_any(AnyView::Array(items))->Object_0;
    let listed = fields[0].1->Object_0;
    let expected = Seq::new(items.len(), |i: int| json_any(items[i]));
    assert(listed[0].1->Array_0 =~= expected);
    assert(listed =~= seq![("values"@, JsonView::Array(expected))]);
    assert(fields =~= seq![("arrayValue"@, json_values(expected))]);
}

pub proof fn lemma_json_any_kvlist(kvs: Seq<(Seq<char>, Option<AnyView>)>)
    ensures
        json_any(AnyView::Kvlist(kvs)) == JsonView::Object(
            seq![("kvlistValue"@, json_values(Seq::new(kvs.len(), |i: int| json_kv(kvs[i]))))],
        ),
{
    reveal_with_fuel(json_any, 2);
    let fields = json_any(AnyView::Kvlist(kvs))->Object_0;
    let listed = fields[0].1->Object_0;
    let expected = Seq::new(kvs.len(), |i: int| json_kv(kvs[i]));
    assert(listed[0].1->Array_0 =~= expected);
    assert(listed =~= seq![("values"@, JsonView::Array(expected))]);
    assert(fields =~= seq![("kvlistValue"@, json_values(expected))]);
}

/// The JSON object that an attribute value is.
pub fn any_to_json(a: &AnyValue) -> (r: Json)
    ensures
        r@ == json_any(a@),
    decreases a,
{
    match &a.value {
        None => {
            let m = no_fields();
            object_json(m)
        },
        Some(OtelValueKind::StringValue(s)) => single_json("stringValue", Json::String(s.clone())),
        Some(OtelValueKind::IntValue(i)) => single_json("intValue", Json::String(i64_text(*i))),
        Some(OtelValueKind::DoubleValue(d)) => single_json("doubleValue", double_json(*d)),
        Some(OtelValueKind::BoolValue(b)) => single_json("boolValue", Json::Bool(*b)),
        Some(OtelValueKind::BytesValue(b)) => single_json(
            "bytesValue",
            Json::String(hex_encode_bytes(b)),
        ),
        Some(OtelValueKind::ArrayValue(l)) => {
            proof {
                lemma_any_array_view(*l);
                lemma_json_any_array(values_view(l.values@));
            }
            let mut items: Vec<Json> = Vec::new();
            let mut i: usize = 0;
            while i < l.values.len()
                invariant
                    i <= l.values@.len(),
                    items@.len() == i,
                    a.value == Some(OtelValueKind::ArrayValue(*l)),
                    forall|j: int| 0 <= j < i ==> (#[trigger] items@[j])@ == json_any(l.values@[j]@),
                decreases l.values@.len() - i,
            {
                proof {
                    lemma_any_item_decreases(*a, *l, i as int);
                }
                items.push(any_to_json(&l.values[i]));
                i = i + 1;
            }
            assert(items_view(items@) =~= Seq::new(
                l.values@.len(),
                |i: int| json_any(values_view(l.values@)[i]),
            ));
            single_json("arrayValue", values_json(items))
        },
        Some(OtelValueKind::KvlistValue(l)) => {
            proof {
                lemma_any_kvlist_view(*l);
                lemma_json_any_kvlist(kvs_view(l.values@));
            }
            let mut items: Vec<Json> = Vec::new();
            let mut i: usize = 0;
            while i < l.values.len()
                invariant
                    i <= l.values@.len(),
                    items@.len() == i,
                    a.value == Some(OtelValueKind::KvlistValue(*l)),
                    forall|j: int| 0 <= j < i ==> (#[trigger] items@[j])@ == json_kv(l.values@[j]@),
                decreases l.values@.len() - i,
            {
                proof {
                    if l.values@[i as int].value is Some {
                        lemma_any_kv_decreases(*a, *l, i as int);
                    }
                }
                let value = match &l.values[i].value {
                    Some(v) => Some(any_to_json(v)),
                    None => None,
                };
                items.push(pair_json(l.values[i].key.as_str(), value));
                i = i + 1;
            }
            assert(items_view(items@) =~= Seq::new(
                l.values@.len(),
                |i: int| json_kv(kvs_view(l.values@)[i]),
            ));
            single_json("kvlistValue", values_json(items))
        },
    }
}

/// The array that named attributes are.
pub fn attributes_to_json(kvs: &Vec<KeyValue>) -> (r: Json)
    ensures
        r@ == json_kvs(kvs_view(kvs@)),
{
    let mut items: Vec<Json> = Vec::new();
    let mut i: usize = 0;
    while i < kvs.len()
        invariant
            i <= kvs@.len(),
            items@.len() == i,
            forall|j: int| 0 <= j < i ==> (#[trigger] items@[j])@ == json_kv(kvs@[j]@),
        decreases kvs@.len() - i,
    {
        let value = match &kvs[i].value {
            Some(v) => Some(any_to_json(v)),
            None => None,
        };
        items.push(pair_json(kvs[i].key.as_str(), value));
        i = i + 1;
    }
    assert(items_view(items@) =~= json_kvs(kvs_view(kvs@))->Array_0);
    array_json(items)
}

/// The fields with named attributes, unless there are none.
pub open spec fn and_kvs(
    m: Seq<(Seq<char>, JsonView)>,
    kvs: Seq<(Seq<char>, Option<AnyView>)>,
) -> Seq<(Seq<char>, JsonView)> {
    if kvs.len() == 0 {
        m
    } else {
        m.push(("attributes"@, json_kvs(kvs)))
    }
}

fn put_kvs_unless_empty(m: &mut Vec<(String, Json)>, kvs: &Vec<KeyValue>)
    ensures
        fields_view(final(m)@) == and_kvs(fields_view(old(m)@), kvs_view(kvs@)),
{
    if kvs.len() != 0 {
        put(m, "attributes", attributes_to_json(kvs));
    }
}

/// The object that a resource is.
pub open spec fn json_resource(r: ResourceView) -> JsonView {
    JsonView::Object(seq![("attributes"@, json_kvs(r.attributes))])
}

/// The object that a resource is.
pub fn resource_to_json(resource: &Resource) -> (r: Json)
    ensures
        r@ == json_resource(resource@),
{
    single_json("attributes", attributes_to_json(&resource.attributes))
}

/// The object that a scope is.
pub open spec fn json_scope(s: ScopeView) -> JsonView {
    JsonView::Object(and_text(and_text(Seq::empty(), "name"@, s.name), "version"@, s.version))
}

/// The object that a scope is.
pub fn scope_to_json(scope: &InstrumentationScope) -> (r: Json)
    ensures
        r@ == json_scope(scope@),
{
    let mut m = no_fields();
    put_text_unless_empty(&mut m, "name", scope.name.as_str());
    put_text_unless_empty(&mut m, "version", scope.version.as_str());
    object_json(m)
}

/// The fields with a resource and a scope, as far as they are there.
pub open spec fn and_origin(
    m: Seq<(Seq<char>, JsonView)>,
    resource: Option<ResourceView>,
    scope: Option<ScopeView>,
) -> Seq<(Seq<char>, JsonView)> {
    let m = match resource {
        Some(r) => m.push(("resource"@, json_resource(r))),
        None => m,
    };
    match scope {
        Some(s) => m.push(("scope"@, json_scope(s))),
        None => m,
    }
}

fn put_origin(
    m: &mut Vec<(String, Json)>,
    resource: Option<Resource>,
    scope: Option<InstrumentationScope>,
)
    ensures
        fields_view(final(m)@) == and_origin(
            fields_view(old(m)@),
            opt_view(resource),
            opt_view(scope),
        ),
{
    if let Some(r) = &resource {
        put(m, "resource", resource_to_json(r));
    }
    if let Some(s) = &scope {
        put(m, "scope", scope_to_json(s));
    }
}

impl OtelLogView {
    /// The fields of the JSON object that the event is.
    pub open spec fn json_fields(&self) -> Seq<(Seq<char>, JsonView)> {
        let r = self.record;
        let m = match r.body {
            Some(body) => seq![("body"@, json_any(body))],
            None => Seq::empty(),
        };
        let m = and_text(m, "severityText"@, r.severity_text);
        let m = and_int(m, "severityNumber"@, r.severity_number as i64);
        let m = and_nanos(m, "timeUnixNano"@, r.time_unix_nano);
        let m = and_nanos(m, "observedTimeUnixNano"@, r.observed_time_unix_nano);
        let m = and_id(m, "traceId"@, r.trace_id);
        let m = and_id(m, "spanId"@, r.span_id);
        let m = and_int(m, "flags"@, r.flags as i64);
        let m = and_kvs(m, kvs_from_attrs(self.record_attrs));
        and_origin(
            m,
            full_resource(self.resource, self.resource_attrs),
            full_scope(self.scope, self.scope_attrs),
        )
    }
}

impl OtelLog {
    /// The event as a JSON object.
    pub fn to_json(&self) -> (r: Json)
        ensures
            r@ == JsonView::Object(self@.json_fields()),
    {
        let mut m = no_fields();
        if let Some(body) = &self.record.body {
            put(&mut m, "body", any_to_json(body));
            assert(fields_view(m@) =~= seq![("body"@, json_any(body@))]);
        }
        put_text_unless_empty(&mut m, "severityText", self.record.severity_text.as_str());
        put_int_unless_zero(&mut m, "severityNumber", self.record.severity_number as i64);
        put_nanos_unless_zero(&mut m, "timeUnixNano", self.record.time_unix_nano);
        put_nanos_unless_zero(
            &mut m,
            "observedTimeUnixNano",
            self.record.observed_time_unix_nano,
        );
        put_id_unless_empty(&mut m, "traceId", &self.record.trace_id);
        put_id_unless_empty(&mut m, "spanId", &self.record.span_id);
        put_int_unless_zero(&mut m, "flags", self.record.flags as i64);
        put_kvs_unless_empty(&mut m, &self.record_attrs.to_key_values());
        put_origin(&mut m, self.resource_proto(), self.scope_proto());
        object_json(m)
    }
}

/// The object that the status of a span is.
pub open spec fn json_status(s: StatusView) -> JsonView {
    JsonView::Object(
        seq![("code"@, json_int(s.code as i64)), ("message"@, JsonView::String(s.message))],
    )
}

fn status_to_json(s: &Status) -> (r: Json)
    ensures
        r@ == json_status(s@),
{
    let mut m = no_fields();
    put(&mut m, "code", int_json(s.code as i64));
    put(&mut m, "message", Json::String(s.message.clone()));
    assert(fields_view(m@) =~= json_status(s@)->Object_0);
    object_json(m)
}

/// The object that an event of a span is.
pub open spec fn json_span_event(e: SpanEventView) -> JsonView {
    let m = and_nanos(Seq::empty(), "timeUnixNano"@, e.time_unix_nano);
    let m = and_text(m, "name"@, e.name);
    let m = and_kvs(m, e.attributes);
    JsonView::Object(and_int(m, "droppedAttributesCount"@, e.dropped_attributes_count as i64))
}

/// The object that an event of a span is.
pub fn span_event_to_json(e: &SpanEvent) -> (r: Json)
    ensures
        r@ == json_span_event(e@),
{
    let mut m = no_fields();
    put_nanos_unless_zero(&mut m, "timeUnixNano", e.time_unix_nano);
    put_text_unless_empty(&mut m, "name", e.name.as_str());
    put_kvs_unless_empty(&mut m, &e.attributes);
    put_int_unless_zero(&mut m, "droppedAttributesCount", e.dropped_attributes_count as i64);
    object_json(m)
}

/// The object that a link of a span is.
pub open spec fn json_span_link(l: SpanLinkView) -> JsonView {
    let m = and_id(Seq::empty(), "traceId"@, l.trace_id);
    let m = and_id(m, "spanId"@, l.span_id);
    let m = and_text(m, "traceState"@, l.trace_state);
    let m = and_kvs(m, l.attributes);
    let m = and_int(m, "droppedAttributesCount"@, l.dropped_attributes_count as i64);
    JsonView::Object(and_int(m, "flags"@, l.flags as i64))
}

/// The object that a link of a span is.
pub fn span_link_to_json(l: &SpanLink) -> (r: Json)
    ensures
        r@ == json_span_link(l@),
{
    let mut m = no_fields();
    put_id_unless_empty(&mut m, "traceId", &l.trace_id);
    put_id_unless_empty(&mut m, "spanId", &l.span_id);
    put_text_unless_empty(&mut m, "traceState", l.trace_state.as_str());
    put_kvs_unless_empty(&mut m, &l.attributes);
    put_int_unless_zero(&mut m, "droppedAttributesCount", l.dropped_attributes_count as i64);
    put_int_unless_zero(&mut m, "flags", l.flags as i64);
    object_json(m)
}

impl OtelSpanView {
    /// The fields of the JSON object that the event is.
    pub open spec fn json_fields(&self) -> Seq<(Seq<char>, JsonView)> {
        let s = self.span;
        let m = and_text(Seq::empty(), "name"@, s.name);
        let m = and_id(m, "traceId"@, s.trace_id);
        let m = and_id(m, "spanId"@, s.span_id);
        let m = and_id(m, "parentSpanId"@, s.parent_span_id);
        let m = and_int(m, "kind"@, s.kind as i64);
        let m = and_nanos(m, "startTimeUnixNano"@, s.start_time_unix_nano);
        let m = and_nanos(m, "endTimeUnixNano"@, s.end_time_unix_nano);
        let m = and_kvs(m, kvs_from_attrs(self.span_attrs));
        let m = match s.status {
            Some(status) => m.push(("status"@, json_status(status))),
            None => m,
        };
        let m = and_int(m, "flags"@, s.flags as i64);
        and_origin(
            m,
            full_resource(self.resource, self.resource_attrs),
            full_scope(self.scope, self.scope_attrs),
        )
    }
}

impl OtelSpan {
    /// The event as a JSON object.
    pub fn to_json(&self) -> (r: Json)
        ensures
            r@ == JsonView::Object(self@.json_fields()),
    {
        let mut m = no_fields();
        put_text_unless_empty(&mut m, "name", self.span.name.as_str());
        put_id_unless_empty(&mut m, "traceId", &self.span.trace_id);
        put_id_unless_empty(&mut m, "spanId", &self.span.span_id);
        put_id_unless_empty(&mut m, "parentSpanId", &self.span.parent_span_id);
        put_int_unless_zero(&mut m, "kind", self.span.kind as i64);
        put_nanos_unless_zero(&mut m, "startTimeUnixNano", self.span.start_time_unix_nano);
        put_nanos_unless_zero(&mut m, "endTimeUnixNano", self.span.end_time_unix_nano);
        put_kvs_unless_empty(&mut m, &self.span_attrs.to_key_values());
        if let Some(status) = &self.span.status {
            put(&mut m, "status", status_to_json(status));
        }
        put_int_unless_zero(&mut m, "flags", self.span.flags as i64);
        put_origin(&mut m, self.resource_proto(), self.scope_proto());
        object_json(m)
    }
}

/// The object that a data point of a sum or a gauge is.
pub open spec fn json_number_point(p: NumberDataPointView) -> JsonView {
    let m = and_kvs(Seq::empty(), p.attributes);
    let m = and_nanos(m, "timeUnixNano"@, p.time_unix_nano);
    let m = and_nanos(m, "startTimeUnixNano"@, p.start_time_unix_nano);
    JsonView::Object(
        match p.value {
            Some(NumberValue::AsDouble(d)) => m.push(("asDouble"@, json_double(d))),
            Some(NumberValue::AsInt(i)) => m.push(
                ("asInt"@, JsonView::String(signed_decimal(i as int))),
            ),
            None => m,
        },
    )
}

/// The object that a data point of a sum or a gauge is.
pub fn number_data_point_to_json(p: &NumberDataPoint) -> (r: Json)
    ensures
        r@ == json_number_point(p@),
{
    let mut m = no_fields();
    put_kvs_unless_empty(&mut m, &p.attributes);
    put_nanos_unless_zero(&mut m, "timeUnixNano", p.time_unix_nano);
    put_nanos_unless_zero(&mut m, "startTimeUnixNano", p.start_time_unix_nano);
    match p.value {
        Some(NumberValue::AsDouble(d)) => {
            put(&mut m, "asDouble", double_json(d));
        },
        Some(NumberValue::AsInt(i)) => {
            put(&mut m, "asInt", Json::String(i64_text(i)));
        },
        None => {},
    }
    object_json(m)
}

/// The fields that data points of histograms and summaries have in common.
pub open spec fn json_point_start(
    attributes: Seq<(Seq<char>, Option<AnyView>)>,
    time: u64,
    count: u64,
) -> Seq<(Seq<char>, JsonView)> {
    and_nanos(and_kvs(Seq::empty(), attributes), "timeUnixNano"@, time).push(
        ("count"@, JsonView::String(decimal(count as nat))),
    )
}

fn start_point(attributes: &Vec<KeyValue>, time: u64, count: u64) -> (r: Vec<(String, Json)>)
    ensures
        fields_view(r@) == json_point_start(kvs_view(attributes@), time, count),
{
    let mut m = no_fields();
    put_kvs_unless_empty(&mut m, attributes);
    put_nanos_unless_zero(&mut m, "timeUnixNano", time);
    put(&mut m, "count", Json::String(u64_text(count)));
    m
}

/// The fields with a sum, where there is one.
pub open spec fn and_sum(m: Seq<(Seq<char>, JsonView)>, sum: Option<u64>) -> Seq<
    (Seq<char>, JsonView),
> {
    match sum {
        Some(d) => m.push(("sum"@, json_double(d))),
        None => m,
    }
}

fn put_sum(m: &mut Vec<(String, Json)>, sum: Option<u64>)
    ensures
        fields_view(final(m)@) == and_sum(fields_view(old(m)@), sum),
{
    if let Some(d) = sum {
        put(m, "sum", double_json(d));
    }
}

/// The object that a data point of a histogram is.
pub open spec fn json_histogram_point(p: HistogramDataPointView) -> JsonView {
    let m = json_point_start(p.attributes, p.time_unix_nano, p.count);
    let m = and_sum(m, p.sum);
    let m = if p.bucket_counts.len() == 0 {
        m
    } else {
        m.push(("bucketCounts"@, json_counts(p.bucket_counts)))
    };
    JsonView::Object(
        if p.explicit_bounds.len() == 0 {
            m
        } else {
            m.push(("explicitBounds"@, json_doubles(p.explicit_bounds)))
        },
    )
}

/// The object that a data point of a histogram is.
pub fn histogram_point_to_json(p: &HistogramDataPoint) -> (r: Json)
    ensures
        r@ == json_histogram_point(p@),
{
    let mut m = start_point(&p.attributes, p.time_unix_nano, p.count);
    put_sum(&mut m, p.sum);
    if p.bucket_counts.len() != 0 {
        put(&mut m, "bucketCounts", counts_json(&p.bucket_counts));
    }
    if p.explicit_bounds.len() != 0 {
        put(&mut m, "explicitBounds", doubles_json(&p.explicit_bounds));
    }
    object_json(m)
}

/// The object that a value at a quantile is.
pub open spec fn json_quantile(q: ValueAtQuantileView) -> JsonView {
    JsonView::Object(
        seq![("quantile"@, json_double(q.quantile)), ("value"@, json_double(q.value))],
    )
}

fn quantile_to_json(q: &ValueAtQuantile) -> (r: Json)
    ensures
        r@ == json_quantile(q@),
{
    let mut m = no_fields();
    put(&mut m, "quantile", double_json(q.quantile));
    put(&mut m, "value", double_json(q.value));
    assert(fields_view(m@) =~= json_quantile(q@)->Object_0);
    object_json(m)
}

fn quantiles_to_json(points: &Vec<ValueAtQuantile>) -> (r: Json)
    ensures
        r@ == JsonView::Array(Seq::new(points@.len(), |i: int| json_quantile(views(points@)[i]))),
{
    let mut items: Vec<Json> = Vec::new();
    let mut i: usize = 0;
    while i < points.len()
        invariant
            i <= points@.len(),
            items@.len() == i,
            forall|j: int| 0 <= j < i ==> (#[trigger] items@[j])@ == json_quantile(points@[j]@),
        decreases points@.len() - i,
    {
        items.push(quantile_to_json(&points[i]));
        i = i + 1;
    }
    assert(items_view(items@) =~= Seq::new(points@.len(), |i: int| json_quantile(views(points@)[i])));
    array_json(items)
}

/// The object that a data point of a summary is.
pub open spec fn json_summary_point(p: SummaryDataPointView) -> JsonView {
    let m = json_point_start(p.attributes, p.time_unix_nano, p.count);
    let m = m.push(("sum"@, json_double(p.sum)));
    JsonView::Object(
        m.push(
            (
                "quantileValues"@,
                JsonView::Array(
                    Seq::new(
                        p.quantile_values.len(),
                        |i: int| json_quantile(p.quantile_values[i]),
                    ),
                ),
            ),
        ),
    )
}

/// The object that a data point of a summary is.
pub fn summary_point_to_json(p: &SummaryDataPoint) -> (r: Json)
    ensures
        r@ == json_summary_point(p@),
{
    let mut m = start_point(&p.attributes, p.time_unix_nano, p.count);
    put(&mut m, "sum", double_json(p.sum));
    put(&mut m, "quantileValues", quantiles_to_json(&p.quantile_values));
    object_json(m)
}

/// The object that buckets are.
pub open spec fn json_buckets(b: BucketsView) -> JsonView {
    JsonView::Object(
        seq![("offset"@, json_int(b.offset as i64)), ("bucketCounts"@, json_counts(b.bucket_counts))],
    )
}

fn buckets_to_json(b: &Buckets) -> (r: Json)
    ensures
        r@ == json_buckets(b@),
{
    let mut m = no_fields();
    put(&mut m, "offset", int_json(b.offset as i64));
    put(&mut m, "bucketCounts", counts_json(&b.bucket_counts));
    assert(fields_view(m@) =~= json_buckets(b@)->Object_0);
    object_json(m)
}

/// The object that a data point of a histogram with exponential bounds is.
pub open spec fn json_exponential_point(p: ExponentialHistogramDataPointView) -> JsonView {
    let m = json_point_start(p.attributes, p.time_unix_nano, p.count);
    let m = and_sum(m, p.sum);
    let m = m.push(("scale"@, json_int(p.scale as i64)));
    let m = m.push(("zeroCount"@, JsonView::String(decimal(p.zero_count as nat))));
    let m = match p.positive {
        Some(b) => m.push(("positive"@, json_buckets(b))),
        None => m,
    };
    JsonView::Object(
        match p.negative {
            Some(b) => m.push(("negative"@, json_buckets(b))),
            None => m,
        },
    )
}

/// The object that a data point of a histogram with exponential bounds is.
pub fn exponential_point_to_json(p: &ExponentialHistogramDataPoint) -> (r: Json)
    ensures
        r@ == json_exponential_point(p@),
{
    let mut m = start_point(&p.attributes, p.time_unix_nano, p.count);
    put_sum(&mut m, p.sum);
    put(&mut m, "scale", int_json(p.scale as i64));
    put(&mut m, "zeroCount", Json::String(u64_text(p.zero_count)));
    if let Some(b) = &p.positive {
        put(&mut m, "positive", buckets_to_json(b));
    }
    if let Some(b) = &p.negative {
        put(&mut m, "negative", buckets_to_json(b));
    }
    object_json(m)
}

fn numbers_to_json(points: &Vec<NumberDataPoint>) -> (r: Json)
    ensures
        r@ == JsonView::Array(Seq::new(points@.len(), |i: int| json_number_point(views(points@)[i]))),
{
    let mut items: Vec<Json> = Vec::new();
    let mut i: usize = 0;
    while i < points.len()
        invariant
            i <= points@.len(),
            items@.len() == i,
            forall|j: int| 0 <= j < i ==> (#[trigger] items@[j])@ == json_number_point(points@[j]@),
        decreases points@.len() - i,
    {
        items.push(number_data_point_to_json(&points[i]));
        i = i + 1;
    }
    assert(items_view(items@) =~= Seq::new(points@.len(), |i: int| json_number_point(views(points@)[i])));
    array_json(items)
}

fn histograms_to_json(points: &Vec<HistogramDataPoint>) -> (r: Json)
    ensures
        r@ == JsonView::Array(Seq::new(points@.len(), |i: int| json_histogram_point(views(points@)[i]))),
{
    let mut items: Vec<Json> = Vec::new();
    let mut i: usize = 0;
    while i < points.len()
        invariant
            i <= points@.len(),
            items@.len() == i,
            forall|j: int| 0 <= j < i ==> (#[trigger] items@[j])@ == json_histogram_point(points@[j]@),
        decreases points@.len() - i,
    {
        items.push(histogram_point_to_json(&points[i]));
        i = i + 1;
    }
    assert(items_view(items@) =~= Seq::new(points@.len(), |i: int| json_histogram_point(views(points@)[i])));
    array_json(items)
}

fn summaries_to_json(points: &Vec<SummaryDataPoint>) -> (r: Json)
    ensures
        r@ == JsonView::Array(Seq::new(points@.len(), |i: int| json_summary_point(views(points@)[i]))),
{
    let mut items: Vec<Json> = Vec::new();
    let mut i: usize = 0;
    while i < points.len()
        invariant
            i <= points@.len(),
            items@.len() == i,
            forall|j: int| 0 <= j < i ==> (#[trigger] items@[j])@ == json_summary_point(points@[j]@),
        decreases points@.len() - i,
    {
        items.push(summary_point_to_json(&points[i]));
        i = i + 1;
    }
    assert(items_view(items@) =~= Seq::new(points@.len(), |i: int| json_summary_point(views(points@)[i])));
    array_json(items)
}

fn exponentials_to_json(points: &Vec<ExponentialHistogramDataPoint>) -> (r: Json)
    ensures
        r@ == JsonView::Array(Seq::new(points@.len(), |i: int| json_exponential_point(views(points@)[i]))),
{
    let mut items: Vec<Json> = Vec::new();
    let mut i: usize = 0;
    while i < points.len()
        invariant
            i <= points@.len(),
            items@.len() == i,
            forall|j: int| 0 <= j < i ==> (#[trigger] items@[j])@ == json_exponential_point(points@[j]@),
        decreases points@.len() - i,
    {
        items.push(exponential_point_to_json(&points[i]));
        i = i + 1;
    }
    assert(items_view(items@) =~= Seq::new(points@.len(), |i: int| json_exponential_point(views(points@)[i])));
    array_json(items)
}

/// The field that the data of a metric are: under the name of their type.
pub open spec fn json_data(d: DataView) -> (Seq<char>, JsonView) {
    match d {
        DataView::Sum(s) => (
            "sum"@,
            JsonView::Object(
                seq![
                    (
                        "dataPoints"@,
                        JsonView::Array(
                            Seq::new(
                                s.data_points.len(),
                                |i: int| json_number_point(s.data_points[i]),
                            ),
                        ),
                    ),
                    ("aggregationTemporality"@, json_int(s.aggregation_temporality as i64)),
                    ("isMonotonic"@, JsonView::Bool(s.is_monotonic)),
                ],
            ),
        ),
        DataView::Gauge(g) => (
            "gauge"@,
            JsonView::Object(
                seq![
                    (
                        "dataPoints"@,
                        JsonView::Array(
                            Seq::new(
                                g.data_points.len(),
                                |i: int| json_number_point(g.data_points[i]),
                            ),
                        ),
                    ),
                ],
            ),
        ),
        DataView::Histogram(h) => (
            "histogram"@,
            JsonView::Object(
                seq![
                    (
                        "dataPoints"@,
                        JsonView::Array(
                            Seq::new(
                                h.data_points.len(),
                                |i: int| json_histogram_point(h.data_points[i]),
                            ),
                        ),
                    ),
                    ("aggregationTemporality"@, json_int(h.aggregation_temporality as i64)),
                ],
            ),
        ),
        DataView::Summary(s) => (
            "summary"@,
            JsonView::Object(
                seq![
                    (
                        "dataPoints"@,
                        JsonView::Array(
                            Seq::new(
                                s.data_points.len(),
                                |i: int| json_summary_point(s.data_points[i]),
                            ),
                        ),
                    ),
                ],
            ),
        ),
        DataView::ExponentialHistogram(e) => (
            "exponentialHistogram"@,
            JsonView::Object(
                seq![
                    (
                        "dataPoints"@,
                        JsonView::Array(
                            Seq::new(
                                e.data_points.len(),
                                |i: int| json_exponential_point(e.data_points[i]),
                            ),
                        ),
                    ),
                    ("aggregationTemporality"@, json_int(e.aggregation_temporality as i64)),
                ],
            ),
        ),
    }
}

fn put_data(m: &mut Vec<(String, Json)>, data: &Data)
    ensures
        fields_view(final(m)@) == fields_view(old(m)@).push(json_data(data@)),
{
    let mut inner = no_fields();
    match data {
        Data::Sum(s) => {
            put(&mut inner, "dataPoints", numbers_to_json(&s.data_points));
            put(&mut inner, "aggregationTemporality", int_json(s.aggregation_temporality as i64));
            put(&mut inner, "isMonotonic", Json::Bool(s.is_monotonic));
            assert(fields_view(inner@) =~= json_data(data@).1->Object_0);
            put(m, "sum", object_json(inner));
        },
        Data::Gauge(g) => {
            put(&mut inner, "dataPoints", numbers_to_json(&g.data_points));
            assert(fields_view(inner@) =~= json_data(data@).1->Object_0);
            put(m, "gauge", object_json(inner));
        },
        Data::Histogram(h) => {
            put(&mut inner, "dataPoints", histograms_to_json(&h.data_points));
            put(&mut inner, "aggregationTemporality", int_json(h.aggregation_temporality as i64));
            assert(fields_view(inner@) =~= json_data(data@).1->Object_0);
            put(m, "histogram", object_json(inner));
        },
        Data::Summary(s) => {
            put(&mut inner, "dataPoints", summaries_to_json(&s.data_points));
            assert(fields_view(inner@) =~= json_data(data@).1->Object_0);
            put(m, "summary", object_json(inner));
        },
        Data::ExponentialHistogram(e) => {
            put(&mut inner, "dataPoints", exponentials_to_json(&e.data_points));
            put(&mut inner, "aggregationTemporality", int_json(e.aggregation_temporality as i64));
            assert(fields_view(inner@) =~= json_data(data@).1->Object_0);
            put(m, "exponentialHistogram", object_json(inner));
        },
    }
}

impl OtelMetricView {
    /// The fields of the JSON object that the event is.
    pub open spec fn json_fields(&self) -> Seq<(Seq<char>, JsonView)> {
        let m = seq![("name"@, JsonView::String(self.metric.name))];
        let m = and_text(m, "description"@, self.metric.description);
        let m = and_text(m, "unit"@, self.metric.unit);
        let m = match self.metric.with_point_attributes(self.dp_attrs).data {
            Some(d) => m.push(json_data(d)),
            None => m,
        };
        and_origin(
            m,
            full_resource(self.resource, self.resource_attrs),
            full_scope(self.scope, self.scope_attrs),
        )
    }
}

impl OtelMetric {
    /// The event as a JSON object.
    pub fn to_json(&self) -> (r: Json)
        ensures
            r@ == JsonView::Object(self@.json_fields()),
    {
        let metric = self.metric_proto();
        let mut m = no_fields();
        put(&mut m, "name", Json::String(metric.name.clone()));
        assert(fields_view(m@) =~= seq![("name"@, JsonView::String(self@.metric.name))]);
        put_text_unless_empty(&mut m, "description", metric.description.as_str());
        put_text_unless_empty(&mut m, "unit", metric.unit.as_str());
        if let Some(data) = &metric.data {
            put_data(&mut m, data);
        }
        put_origin(&mut m, self.resource_proto(), self.scope_proto());
        object_json(m)
    }
}

impl EventView {
    /// The JSON object that the event is, under the name of its kind.
    pub open spec fn json(&self) -> JsonView {
        JsonView::Object(
            match self {
                EventView::Log(e) => seq![("log"@, JsonView::Object(e.json_fields()))],
                EventView::Metric(e) => seq![("metric"@, JsonView::Object(e.json_fields()))],
                EventView::Trace(e) => seq![("trace"@, JsonView::Object(e.json_fields()))],
            },
        )
    }
}

impl Event {
    /// Convert to a JSON value for serialization.
    /// Wraps the event in `{"log": ...}`, `{"metric": ...}`, or `{"trace": ...}`.
    pub fn to_legacy_json_value(self) -> (r: Json)
        ensures
            r@ == self@.json(),
    {
        match &self {
            Event::Log(e) => single_json("log", e.to_json()),
            Event::Metric(e) => single_json("metric", e.to_json()),
            Event::Trace(e) => single_json("trace", e.to_json()),
        }
    }

    /// The event as a JSON object.
    pub fn to_json(&self) -> (r: Json)
        ensures
            r@ == match self@ {
                EventView::Log(e) => JsonView::Object(e.json_fields()),
                EventView::Metric(e) => JsonView::Object(e.json_fields()),
                EventView::Trace(e) => JsonView::Object(e.json_fields()),
            },
    {
        match self {
            Event::Log(e) => e.to_json(),
            Event::Metric(e) => e.to_json(),
            Event::Trace(e) => e.to_json(),
        }
    }
}

} // verus!
