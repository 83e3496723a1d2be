//! What a program changes of a metric when it sets or removes something at a path, and what events come
//! out of the values that it leaves.
use vstd::prelude::*;
use vstd::utf8::{encode_utf8, encode_utf8_decode_utf8, encode_utf8_valid_utf8};

use crate::any_value::{any_from_value, kvs_from_object, AnyView};
use crate::attributes::filled;
use crate::event::EventView;
use crate::keyed::{ordered, value_of};
use crate::map_laws::{lemma_entry_found, lemma_found_entry};
use crate::metadata::MetadataView;
use crate::metric::OtelMetricView;
use crate::metric_made_laws::{law_point_attribute_is_set, law_resource_attribute_is_set};
use crate::otlp_metric::MetricMessageView;
use crate::path::SegmentView;
use crate::target::{
    components, first_steps, metric_set, place_of, unsettable, FaultView, MetricPlace,
    TargetEventsView, TargetView, MAX_OTEL_METRIC_PATH_DEPTH,
};
use crate::target_laws::{is_log_place, lemma_beside_log_fields};
use crate::target_value::{beside_log_fields, log_seen, resource_seen, scope_seen, span_seen};
use crate::text::lossy;
use crate::value::ValueView;
use crate::value_laws::{lemma_gathered, lemma_keys_ordered};

verus! {

proof fn lemma_place_names()
    ensures
        "name"@.len() == 4 && "name"@[0] == 'n',
        "unit"@.len() == 4 && "unit"@[0] == 'u',
        "kind"@.len() == 4 && "kind"@[0] == 'k',
        "data"@.len() == 4 && "data"@[0] == 'd',
        "description"@.len() == 11,
        "resource"@.len() == 8,
        "scope"@.len() == 5,
        "namespace"@.len() == 9,
        "attributes"@.len() == 10,
{
    reveal_strlit("name");
    reveal_strlit("unit");
    reveal_strlit("kind");
    reveal_strlit("data");
    reveal_strlit("description");
    reveal_strlit("resource");
    reveal_strlit("scope");
    reveal_strlit("namespace");
    reveal_strlit("attributes");
}

/// The path through one field.
pub open spec fn one_step(name: Seq<char>) -> Seq<SegmentView> {
    seq![SegmentView::Field(name)]
}

/// The path through two fields.
pub open spec fn two_steps(name: Seq<char>, below: Seq<char>) -> Seq<SegmentView> {
    seq![SegmentView::Field(name), SegmentView::Field(below)]
}

proof fn lemma_one_step(name: Seq<char>)
    ensures
        components(one_step(name), MAX_OTEL_METRIC_PATH_DEPTH as nat) == Some(seq![name]),
{
    let path = one_step(name);
    let n = MAX_OTEL_METRIC_PATH_DEPTH as nat;
    assert(first_steps(path, n) =~= path);
    assert(components(path, n)->0 =~= seq![name]);
}

proof fn lemma_two_steps(name: Seq<char>, below: Seq<char>)
    ensures
        components(two_steps(name, below), MAX_OTEL_METRIC_PATH_DEPTH as nat) matches Some(names)
            && names.len() == 2 && names[0] == name && names[1] == below,
{
    let path = two_steps(name, below);
    let n = MAX_OTEL_METRIC_PATH_DEPTH as nat;
    assert(first_steps(path, n) =~= path);
    assert(forall|i: int| 0 <= i < path.len() ==> (#[trigger] path[i]) is Field);
}

/// The value that a text is.
pub open spec fn text_value(text: Seq<char>) -> ValueView {
    ValueView::Bytes(encode_utf8(text))
}

/// A text that a program sets as the name, the description or the unit of a metric is that of the metric,
/// and nothing else of it changes; one that it sets as the namespace is its namespace. One that is set as
/// the kind makes it incremental if it says so, else absolute, where the data have a place for it.
pub proof fn law_text_of_metric_is_set(m: OtelMetricView, text: Seq<char>)
    requires
        ordered(m.resource_attrs),
    ensures
        metric_set(m, one_step("name"@), text_value(text)) == Ok::<OtelMetricView, FaultView>(
            (OtelMetricView {
                metric: MetricMessageView { name: text, ..m.metric },
                ..m
            }),
        ),
        metric_set(m, one_step("description"@), text_value(text)) == Ok::<OtelMetricView, FaultView>(
            (OtelMetricView {
                metric: MetricMessageView { description: text, ..m.metric },
                ..m
            }),
        ),
        metric_set(m, one_step("unit"@), text_value(text)) == Ok::<OtelMetricView, FaultView>(
            (OtelMetricView {
                metric: MetricMessageView { unit: text, ..m.metric },
                ..m
            }),
        ),
        metric_set(m, one_step("namespace"@), text_value(text)) matches Ok(after) && {
            &&& after.namespace() == Some(text)
            &&& after.metric == m.metric
            &&& after.dp_attrs == m.dp_attrs
            &&& forall|k: Seq<char>|
                k != "metric.namespace"@ ==> #[trigger] value_of(after.resource_attrs, k) == value_of(
                    m.resource_attrs,
                    k,
                )
        },
        metric_set(m, one_step("kind"@), text_value(text)) matches Ok(after) && {
            &&& after.dp_attrs == m.dp_attrs
            &&& after.resource_attrs == m.resource_attrs
            &&& after.metric.name == m.metric.name
            &&& m.metric.data matches Some(d) ==> ((d is Sum || d is Histogram
                || d is ExponentialHistogram) ==> (after.kind() is Incremental <==> text
                == "incremental"@)) && ((d is Gauge || d is Summary) ==> after == m)
        },
{
    lemma_place_names();
    lemma_one_step("name"@);
    lemma_one_step("description"@);
    lemma_one_step("unit"@);
    lemma_one_step("namespace"@);
    lemma_one_step("kind"@);
    encode_utf8_valid_utf8(text);
    encode_utf8_decode_utf8(text);
    assert(lossy(encode_utf8(text)) == text);
    let ns = AnyView::Str(text);
    let after = m.with_resource_attribute("metric.namespace"@, ns);
    assert(metric_set(m, one_step("namespace"@), text_value(text)) == Ok::<
        OtelMetricView,
        FaultView,
    >(after));
    assert forall|k: Seq<char>| k != "metric.namespace"@ implies #[trigger] value_of(
        after.resource_attrs,
        k,
    ) == value_of(m.resource_attrs, k) by {
        law_resource_attribute_is_set(m, "metric.namespace"@, ns, k);
    }
    assert("name"@ != "metric.namespace"@) by {
        reveal_strlit("metric.namespace");
        assert("metric.namespace"@.len() == 16);
    }
    law_resource_attribute_is_set(m, "metric.namespace"@, ns, "name"@);
}

/// What is no text is not set as the name, the description, the unit, the kind or the namespace of a
/// metric; the program is told so, and what it tried to set. Nothing is set at the root of a metric, nor
/// at a field that it does not have, nor at its data.
pub proof fn law_metric_refuses(m: OtelMetricView, v: ValueView, name: Seq<char>)
    requires
        !(v is Bytes),
    ensures
        name == "name"@ || name == "description"@ || name == "unit"@ || name == "kind"@ || name
            == "namespace"@ ==> metric_set(m, one_step(name), v) == Err::<OtelMetricView, FaultView>(
            FaultView::ExpectedBytes { got: v },
        ),
        metric_set(m, Seq::empty(), v) == Err::<OtelMetricView, FaultView>(FaultView::SetPathError),
        metric_set(m, one_step("data"@), v) == Err::<OtelMetricView, FaultView>(
            unsettable(one_step("data"@)),
        ),
        name != "name"@ && name != "description"@ && name != "unit"@ && name != "kind"@ && name
            != "namespace"@ && name != "resource"@ && name != "scope"@ ==> metric_set(
            m,
            one_step(name),
            v,
        ) == Err::<OtelMetricView, FaultView>(unsettable(one_step(name))),
{
    lemma_place_names();
    lemma_one_step(name);
    lemma_one_step("data"@);
}

/// An attribute that a program sets is set on each data point of a metric, and the other attributes stay.
/// It does so too where the path goes through a data point.
pub proof fn law_metric_attribute_is_set(
    m: OtelMetricView,
    key: Seq<char>,
    v: ValueView,
    i: int,
    other: Seq<char>,
)
    requires
        0 <= i < m.dp_attrs.len(),
        ordered(m.dp_attrs[i]),
        other != key,
    ensures
        metric_set(m, two_steps("attributes"@, key), v) matches Ok(after) && {
            &&& value_of(after.dp_attrs[i], key) == Some(any_from_value(v))
            &&& value_of(after.dp_attrs[i], other) == value_of(m.dp_attrs[i], other)
            &&& after == (OtelMetricView { dp_attrs: after.dp_attrs, ..m })
            &&& forall|kind: Seq<char>, at: int|
                metric_set(
                    m,
                    #[trigger] through_point(kind, at, key),
                    v,
                ) == Ok::<OtelMetricView, FaultView>(after)
        },
{
    lemma_place_names();
    lemma_two_steps("attributes"@, key);
    law_point_attribute_is_set(m.dp_attrs, key, any_from_value(v), other, i);
    let path = two_steps("attributes"@, key);
    let names = components(path, MAX_OTEL_METRIC_PATH_DEPTH as nat)->0;
    assert(place_of(names) == MetricPlace::Attribute);
}

/// The path through a data point to one of its attributes.
pub open spec fn through_point(kind: Seq<char>, at: int, key: Seq<char>) -> Seq<SegmentView> {
    seq![
        SegmentView::Field("data"@),
        SegmentView::Field(kind),
        SegmentView::Field("data_points"@),
        SegmentView::Index(at),
        SegmentView::Field("attributes"@),
        SegmentView::Field(key),
    ]
}

/// What a program removes of a metric: a text becomes empty, an attribute goes from each data point, and
/// of the resource and the scope nothing is left.
pub proof fn law_metric_part_is_removed(
    m: OtelMetricView,
    key: Seq<char>,
    i: int,
    other: Seq<char>,
)
    requires
        0 <= i < m.dp_attrs.len(),
        ordered(m.dp_attrs[i]),
        other != key,
    ensures
        m.without_place(seq!["name"@]) == (OtelMetricView {
            metric: MetricMessageView { name: Seq::empty(), ..m.metric },
            ..m
        }),
        m.without_place(seq!["description"@]) == (OtelMetricView {
            metric: MetricMessageView { description: Seq::empty(), ..m.metric },
            ..m
        }),
        m.without_place(seq!["unit"@]) == (OtelMetricView {
            metric: MetricMessageView { unit: Seq::empty(), ..m.metric },
            ..m
        }),
        m.without_place(seq!["resource"@]).resource_attrs.len() == 0,
        m.without_place(seq!["scope"@]).scope_attrs.len() == 0,
        m.without_place(seq!["scope"@]).scope matches Some(s) && s.name.len() == 0 && s.version.len()
            == 0,
        value_of(m.without_place(seq!["attributes"@, key]).dp_attrs[i], key) is None,
        value_of(m.without_place(seq!["attributes"@, key]).dp_attrs[i], other) == value_of(
            m.dp_attrs[i],
            other,
        ),
        m.without_place(seq!["kind"@]) == m,
        m.without_place(seq!["data"@]) == m,
{
    lemma_place_names();
    law_point_attribute_is_set(
        m.dp_attrs,
        key,
        AnyView::Empty,
        other,
        i,
    );
}

/// An array that a program leaves in place of a log or a span is one event for each of its items, in
/// order, with the same metadata; any other value is one event. A metric stays the one that it is.
pub proof fn law_events_come_out(a: Seq<ValueView>, v: ValueView, metadata: MetadataView, i: int)
    requires
        0 <= i < a.len(),
        !(v is Array),
    ensures
        TargetView::OtelLog(ValueView::Array(a), metadata).events() matches TargetEventsView::OtelLogs(
            events,
        ) && events.len() == a.len() && events[i] == EventView::Log(log_seen(a[i], metadata))
            && log_seen(a[i], metadata).metadata == metadata,
        TargetView::OtelSpan(ValueView::Array(a), metadata).events() matches
            TargetEventsView::OtelSpans(events) && events.len() == a.len() && events[i]
            == EventView::Trace(span_seen(a[i], metadata)) && span_seen(a[i], metadata).metadata
            == metadata,
        TargetView::OtelLog(v, metadata).events() == TargetEventsView::One(
            EventView::Log(log_seen(v, metadata)),
        ),
        TargetView::OtelSpan(v, metadata).events() == TargetEventsView::One(
            EventView::Trace(span_seen(v, metadata)),
        ),
{
}

/// Of the object that a program leaves in place of a log, each field without a place of its own becomes an
/// attribute, and the others do not.
pub proof fn law_other_fields_become_attributes(
    m: Seq<(Seq<char>, ValueView)>,
    metadata: MetadataView,
    key: Seq<char>,
)
    requires
        ordered(m),
    ensures
        value_of(log_seen(ValueView::Object(m), metadata).record_attrs, key) == if is_log_place(key) {
            None
        } else {
            match value_of(m, key) {
                Some(v) => Some(any_from_value(v)),
                None => None,
            }
        },
{
    lemma_beside_log_fields(m);
    let rest = beside_log_fields(m);
    let kvs = kvs_from_object(rest);
    lemma_keys_ordered(rest, filled(kvs));
    lemma_gathered(kvs);
    let attrs = filled(kvs);
    assert(log_seen(ValueView::Object(m), metadata).record_attrs == attrs);
    if value_of(rest, key) is Some {
        lemma_found_entry(rest, key);
        let i = choose|i: int| 0 <= i < rest.len() && rest[i].0 == key;
        lemma_entry_found(rest, i);
        lemma_entry_found(attrs, i);
        assert(attrs[i].0 == key);
    } else if value_of(attrs, key) is Some {
        lemma_found_entry(attrs, key);
        let i = choose|i: int| 0 <= i < attrs.len() && attrs[i].0 == key;
        assert(rest[i].0 == key);
        lemma_entry_found(rest, i);
    }
}

/// Of the object that a program leaves in place of a log, an integer in the place of a number is that
/// number, a text in the place of the severity is that text, and the body is what stands in its place.
pub proof fn law_log_is_taken_back(
    m: Seq<(Seq<char>, ValueView)>,
    metadata: MetadataView,
    n: i64,
    text: Seq<char>,
)
    requires
        n >= 0,
    ensures
        ({
            let r = log_seen(ValueView::Object(m), metadata).record;
            &&& value_of(m, "time_unix_nano"@) == Some(ValueView::Integer(n)) ==> r.time_unix_nano == n
            &&& value_of(m, "observed_time_unix_nano"@) == Some(ValueView::Integer(n))
                ==> r.observed_time_unix_nano == n
            &&& value_of(m, "severity_number"@) == Some(ValueView::Integer(n)) && n <= i32::MAX
                ==> r.severity_number == n
            &&& value_of(m, "flags"@) == Some(ValueView::Integer(n)) && n <= u32::MAX ==> r.flags == n
            &&& value_of(m, "dropped_attributes_count"@) == Some(ValueView::Integer(n)) && n
                <= u32::MAX ==> r.dropped_attributes_count == n
            &&& value_of(m, "severity_text"@) == Some(text_value(text)) ==> r.severity_text == text
            &&& r.body == match value_of(m, "body"@) {
                Some(v) => Some(any_from_value(v)),
                None => None,
            }
        }),
{
    encode_utf8_valid_utf8(text);
    encode_utf8_decode_utf8(text);
    assert(lossy(encode_utf8(text)) == text);
}

/// Of an object that a program sets as a resource or as a scope, the integer in the place of the attributes
/// that were dropped is how many were, the texts are the name and the version, and the attributes are those
/// that stand under `attributes`. What is no object is neither.
pub proof fn law_origin_is_taken_back(
    m: Seq<(Seq<char>, ValueView)>,
    n: i64,
    text: Seq<char>,
    v: ValueView,
)
    requires
        0 <= n <= u32::MAX,
        !(v is Object),
    ensures
        resource_seen(Some(ValueView::Object(m))) matches Some(r) && {
            &&& value_of(m, "dropped_attributes_count"@) == Some(ValueView::Integer(n))
                ==> r.dropped_attributes_count == n
            &&& value_of(m, "attributes"@) matches Some(ValueView::Object(a)) ==> r.attributes
                == kvs_from_object(a)
            &&& value_of(m, "attributes"@) is None ==> r.attributes.len() == 0
        },
        scope_seen(Some(ValueView::Object(m))) matches Some(s) && {
            &&& value_of(m, "dropped_attributes_count"@) == Some(ValueView::Integer(n))
                ==> s.dropped_attributes_count == n
            &&& value_of(m, "name"@) == Some(text_value(text)) ==> s.name == text
            &&& value_of(m, "version"@) == Some(text_value(text)) ==> s.version == text
            &&& value_of(m, "attributes"@) matches Some(ValueView::Object(a)) ==> s.attributes
                == kvs_from_object(a)
        },
        resource_seen(Some(v)) is None && scope_seen(Some(v)) is None,
        resource_seen(None) is None && scope_seen(None) is None,
{
    encode_utf8_valid_utf8(text);
    encode_utf8_decode_utf8(text);
    assert(lossy(encode_utf8(text)) == text);
}

/// Of the object that a program leaves in place of a span, an integer in the place of a number is that
/// number, and a text in the place of a name is that text.
pub proof fn law_span_is_taken_back(
    m: Seq<(Seq<char>, ValueView)>,
    metadata: MetadataView,
    n: i64,
    text: Seq<char>,
)
    requires
        n >= 0,
    ensures
        ({
            let s = span_seen(ValueView::Object(m), metadata).span;
            &&& value_of(m, "start_time_unix_nano"@) == Some(ValueView::Integer(n))
                ==> s.start_time_unix_nano == n
            &&& value_of(m, "end_time_unix_nano"@) == Some(ValueView::Integer(n))
                ==> s.end_time_unix_nano == n
            &&& value_of(m, "kind"@) == Some(ValueView::Integer(n)) && n <= i32::MAX ==> s.kind == n
            &&& value_of(m, "flags"@) == Some(ValueView::Integer(n)) && n <= u32::MAX ==> s.flags == n
            &&& value_of(m, "dropped_attributes_count"@) == Some(ValueView::Integer(n)) && n
                <= u32::MAX ==> s.dropped_attributes_count == n
            &&& value_of(m, "dropped_events_count"@) == Some(ValueView::Integer(n)) && n <= u32::MAX
                ==> s.dropped_events_count == n
            &&& value_of(m, "dropped_links_count"@) == Some(ValueView::Integer(n)) && n <= u32::MAX
                ==> s.dropped_links_count == n
            &&& value_of(m, "name"@) == Some(text_value(text)) ==> s.name == text
            &&& value_of(m, "trace_state"@) == Some(text_value(text)) ==> s.trace_state == text
            &&& value_of(m, "status"@) is None ==> s.status is None
            &&& value_of(m, "status"@) matches Some(ValueView::Object(o)) ==> (s.status matches Some(
                status,
            ) && (value_of(o, "message"@) == Some(text_value(text)) ==> status.message == text) && (
            value_of(o, "code"@) == Some(ValueView::Integer(n)) && n <= i32::MAX ==> status.code
                == n))
        }),
{
    encode_utf8_valid_utf8(text);
    encode_utf8_decode_utf8(text);
    assert(lossy(encode_utf8(text)) == text);
}

} // verus!
