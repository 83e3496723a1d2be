//! What calls on an event give after one another: what was set is what is read.
use vstd::prelude::*;

use crate::any_value::{any_from_value, value_from_any, AnyValue, AnyView};
use crate::attributes::{attrs_from_kvs, OtelAttributes};
use crate::config::{
    get_source_metadata, get_vector_metadata, insert_vector_metadata, law_data_types,
    law_metadata_is_retrieved, DataType,
};
use crate::double::less;
use crate::event::Event;
use crate::json::{Json, JsonView};
use crate::json_laws::{
    held_in, law_log_in_json, law_metric_in_json, law_number_point_in_json, law_span_in_json,
    number_written,
};
use crate::keyed::{opt_view, ordered, value_of, without_entry};
use crate::log::OtelLog;
use crate::map_laws::{law_read_after_remove, law_read_after_write, lemma_found_entry};
use crate::metadata::OutputId;
use crate::metric::OtelMetric;
use crate::metric_data::MetricValue;
use crate::metric_kind::{MetricKind, StatisticKind};
use crate::metric_laws::is_integer;
use crate::metric_made_laws::{law_attributes_are_put, law_start_is_set};
use crate::metric_math::{addable, addables_fit, all_addable, are_added, is_added, pairs};
use crate::metric_math_laws::{all_zero, law_zero_is_everywhere};
use crate::metric_read::{exponents_fit, scales};
use crate::metric_read_laws::{
    buckets_in, grows, law_interval_is_read, law_positive_limits, law_time_is_read, positive_start,
    times_held,
};
use crate::metric_tags::{tag_text, MetricTags};
use crate::otel_metric::OtelMetric as MetricEvent;
use crate::otlp::{InstrumentationScope, Resource};
use crate::otlp_metric::{
    BucketsView, DataView, ExponentialHistogramDataPointView, NumberDataPoint, NumberValue, SumView,
};
use crate::otlp_output::number_data_point_to_json;
use crate::path::{OwnedValuePath, PathPrefix};
use crate::series::MetricIdentity;
use crate::span::OtelSpan;
use crate::tag_laws::{law_resource_attributes_are_tags, names_in_order};
use crate::target::VrlTarget;
use crate::time::{epoch_nanos, lemma_instant, Timestamp};
use crate::value::{Value, ValueView};

verus! {

/// The host that was set on a log is the one that it has, and the same holds of the type of its source.
/// Neither changes the other.
pub proof fn law_host_is_kept(log: &mut OtelLog, v: Value, host: Option<Value>, source: Option<Value>)
    requires
        old(log)@.wf(),
        call_ensures(OtelLog::set_host, (log, v), ()),
        call_ensures(OtelLog::get_host, (final(log),), host),
        call_ensures(OtelLog::get_source_type, (final(log),), source),
    ensures
        opt_view(host) == Some(value_from_any(any_from_value(v@))),
        value_of(final(log)@.resource_attrs, "host.name"@) == Some(any_from_value(v@)),
        opt_view(source) == match value_of(old(log)@.resource_attrs, "source_type"@) {
            Some(a) => Some(value_from_any(a)),
            None => None,
        },
{
    reveal_strlit("host.name");
    reveal_strlit("source_type");
    assert("host.name"@.len() == 9 && "source_type"@.len() == 11);
    law_read_after_write(old(log)@.resource_attrs, "host.name"@, any_from_value(v@));
}

/// The type of its source that was set on a log is the one that it has.
pub proof fn law_source_type_is_kept(log: &mut OtelLog, v: Value, source: Option<Value>)
    requires
        old(log)@.wf(),
        call_ensures(OtelLog::set_source_type, (log, v), ()),
        call_ensures(OtelLog::get_source_type, (final(log),), source),
    ensures
        opt_view(source) == Some(value_from_any(any_from_value(v@))),
        value_of(final(log)@.resource_attrs, "source_type"@) == Some(any_from_value(v@)),
{
    law_read_after_write(old(log)@.resource_attrs, "source_type"@, any_from_value(v@));
}

/// The time that was set on a log, if it is not before the epoch, is the one that it has, and the time of
/// its observation stays.
pub proof fn law_time_of_log_is_kept(log: &mut OtelLog, ts: Timestamp, was: Option<Value>, nanos: u64)
    requires
        epoch_nanos(ts) >= 0,
        call_ensures(OtelLog::set_timestamp, (log, ts), was),
        call_ensures(OtelLog::time_unix_nano, (final(log),), nanos),
    ensures
        nanos == epoch_nanos(ts),
        final(log)@.record.observed_time_unix_nano == old(log)@.record.observed_time_unix_nano,
        final(log)@.record_attrs == old(log)@.record_attrs,
        opt_view(was) == old(log)@.timestamp(),
{
}

/// An attribute that was set on a log is the one that it has, and the others stay; one that was removed
/// it has no more.
pub proof fn law_attribute_of_log_is_kept(
    log: &mut OtelLog,
    key: String,
    v: AnyValue,
    name: &str,
    r: Option<&AnyValue>,
)
    requires
        old(log)@.wf(),
        call_ensures(OtelLog::set_attribute, (log, key, v), ()),
        call_ensures(OtelLog::attribute, (final(log), name), r),
    ensures
        name@ == key@ ==> opt_view(r) == Some(v@),
        name@ != key@ ==> opt_view(r) == value_of(old(log)@.record_attrs, name@),
{
    law_read_after_write(old(log)@.record_attrs, key@, v@);
}

/// An attribute that was removed from a log is handed out, and the log has it no more.
pub proof fn law_attribute_of_log_is_removed(
    log: &mut OtelLog,
    key: &str,
    was: Option<AnyValue>,
    name: &str,
    r: Option<&AnyValue>,
)
    requires
        old(log)@.wf(),
        call_ensures(OtelLog::remove_attribute, (log, key), was),
        call_ensures(OtelLog::attribute, (final(log), name), r),
    ensures
        opt_view(was) == value_of(old(log)@.record_attrs, key@),
        name@ == key@ ==> r is None,
        name@ != key@ ==> opt_view(r) == value_of(old(log)@.record_attrs, name@),
{
    law_read_after_remove(old(log)@.record_attrs, key@);
}

/// The body that was set on a log is the one that it has, and nothing else changes.
pub proof fn law_body_is_kept(log: &mut OtelLog, v: AnyValue, r: Option<&AnyValue>)
    requires
        call_ensures(OtelLog::set_body, (log, v), ()),
        call_ensures(OtelLog::body, (final(log),), r),
    ensures
        opt_view(r) == Some(v@),
        final(log)@.record_attrs == old(log)@.record_attrs,
        final(log)@.record.severity_text == old(log)@.record.severity_text,
        final(log)@.record.time_unix_nano == old(log)@.record.time_unix_nano,
{
}

/// An attribute that was set on a span is the one that it has, and the others stay.
pub proof fn law_attribute_of_span_is_kept(
    span: &mut OtelSpan,
    key: String,
    v: AnyValue,
    name: &str,
    r: Option<&AnyValue>,
)
    requires
        old(span)@.wf(),
        call_ensures(OtelSpan::set_attribute, (span, key, v), ()),
        call_ensures(OtelSpan::attribute, (final(span), name), r),
    ensures
        name@ == key@ ==> opt_view(r) == Some(v@),
        name@ != key@ ==> opt_view(r) == value_of(old(span)@.span_attrs, name@),
{
    law_read_after_write(old(span)@.span_attrs, key@, v@);
}

/// The number that was set as the first of a sum or a gauge with a data point is the one that it has.
pub proof fn law_first_value_is_kept(m: &mut OtelMetric, value: u64, r: Option<u64>)
    requires
        call_ensures(OtelMetric::set_first_value, (m, value), ()),
        call_ensures(OtelMetric::first_value_as_f64, (final(m),), r),
    ensures
        old(m)@.metric.data matches Some(DataView::Sum(s)) ==> (s.data_points.len() > 0 ==> r == Some(
            value,
        )),
        old(m)@.metric.data matches Some(DataView::Gauge(g)) ==> (g.data_points.len() > 0 ==> r == Some(
            value,
        )),
        final(m)@.dp_attrs == old(m)@.dp_attrs,
        final(m)@.metric.name == old(m)@.metric.name,
{
}

/// The kind that was set on a sum or a histogram is the one that it has: it is a difference exactly where
/// it is incremental, and goes on from the start exactly where it is absolute.
pub proof fn law_kind_is_told(
    m: &mut OtelMetric,
    kind: MetricKind,
    read: MetricKind,
    delta: bool,
    cumulative: bool,
)
    requires
        old(m)@.metric.data matches Some(d) && (d is Sum || d is Histogram
            || d is ExponentialHistogram),
        call_ensures(OtelMetric::set_kind, (m, kind), ()),
        call_ensures(OtelMetric::kind, (final(m),), read),
        call_ensures(OtelMetric::is_delta, (final(m),), delta),
        call_ensures(OtelMetric::is_cumulative, (final(m),), cumulative),
    ensures
        read == kind,
        delta <==> kind is Incremental,
        cumulative <==> kind is Absolute,
{
}

/// The namespace that was set on a metric is the one that it has.
pub proof fn law_namespace_is_kept(m: &mut OtelMetric, ns: &str, r: Option<&str>)
    requires
        ordered(old(m)@.resource_attrs),
        call_ensures(OtelMetric::set_namespace, (m, ns), ()),
        call_ensures(OtelMetric::namespace, (final(m),), r),
    ensures
        r matches Some(s) && s@ == ns@,
        final(m)@.metric == old(m)@.metric,
{
    law_read_after_write(old(m)@.resource_attrs, "metric.namespace"@, AnyView::Str(ns@));
}

/// The time that was set on a metric with a data point, if it is after the epoch, is the one that it has.
pub proof fn law_time_of_metric_is_kept(m: &mut OtelMetric, ts: Timestamp, r: Option<Timestamp>)
    requires
        epoch_nanos(ts) > 0,
        old(m)@.metric.data matches Some(d) && d.first_times() is Some,
        call_ensures(OtelMetric::set_timestamp, (m, Some(ts)), ()),
        call_ensures(OtelMetric::timestamp, (final(m),), r),
    ensures
        r matches Some(t) && t.spec_secs() * 1_000_000_000 + t.spec_nanos() == epoch_nanos(ts),
{
    let nanos = epoch_nanos(ts) as u64;
    lemma_instant((nanos / 1_000_000_000) as i64, (nanos % 1_000_000_000) as u32);
}

/// After a metric was set to zero, the first number of a sum or a gauge is zero, and of a histogram the
/// count, the sum and all counts of buckets are.
pub proof fn law_zero_is_read(m: &mut OtelMetric, r: Option<u64>)
    requires
        call_ensures(OtelMetric::zero, (m,), ()),
        call_ensures(OtelMetric::first_value_as_f64, (final(m),), r),
    ensures
        r matches Some(v) ==> v == 0,
        final(m)@.metric.data matches Some(DataView::Histogram(h)) ==> forall|i: int|
            0 <= i < h.data_points.len() ==> (#[trigger] h.data_points[i]).count == 0
                && h.data_points[i].sum == Some(0u64) && all_zero(h.data_points[i].bucket_counts),
        final(m)@.dp_attrs == old(m)@.dp_attrs,
{
    if let Some(d) = old(m)@.metric.data {
        law_zero_is_everywhere(d, 0);
        if let Some(DataView::Histogram(h)) = final(m)@.metric.data {
            assert forall|i: int| 0 <= i < h.data_points.len() implies (#[trigger] h.data_points[i]).count
                == 0 && h.data_points[i].sum == Some(0u64) && all_zero(
                h.data_points[i].bucket_counts,
            ) by {
                law_zero_is_everywhere(d, i);
            }
        }
    }
}

/// What a program sees of an event is the value that its target holds, and the metric of a target is that
/// of the event.
pub proof fn law_target_shows_event(e: Event, multi: bool, t: VrlTarget)
    requires
        call_ensures(VrlTarget::new, (e, multi), t),
    ensures
        e matches Event::Log(log) ==> t@.root(PathPrefix::Event) == ValueView::Object(log@.seen()),
        e matches Event::Trace(span) ==> t@.root(PathPrefix::Event) == ValueView::Object(span@.seen()),
        e matches Event::Metric(m) ==> t@.root(PathPrefix::Event) == ValueView::Object(m@.seen()),
        t@.metadata() == e@.metadata(),
{
}

/// The JSON object of an event has the names that its parts are known by: a log its severity, a span its
/// name, a metric its name; a data point has its times and its number.
pub proof fn law_events_in_json(
    log: OtelLog,
    span: OtelSpan,
    metric: OtelMetric,
    point: NumberDataPoint,
    a: Json,
    b: Json,
    c: Json,
    d: Json,
)
    requires
        call_ensures(OtelLog::to_json, (&log,), a),
        call_ensures(OtelSpan::to_json, (&span,), b),
        call_ensures(OtelMetric::to_json, (&metric,), c),
        call_ensures(number_data_point_to_json, (&point,), d),
    ensures
        log@.record.severity_text.len() > 0 ==> held_in(a@, "severityText"@) == seq![
            JsonView::String(log@.record.severity_text),
        ],
        span@.span.name.len() > 0 ==> held_in(b@, "name"@) == seq![JsonView::String(span@.span.name)],
        held_in(c@, "name"@) == seq![JsonView::String(metric@.metric.name)],
        number_written(d@, point@),
{
    law_log_in_json(log@);
    law_span_in_json(span@);
    law_metric_in_json(metric@);
    law_number_point_in_json(point@);
}

/// The source that was set on an event is the one that it has, and the event itself stays; the same holds
/// of the type of the source and of the output that it came through.
pub proof fn law_source_is_kept(e: &mut Event, id: String, r: Option<&String>)
    requires
        call_ensures(Event::set_source_id, (e, id), ()),
        call_ensures(Event::source_id, (final(e),), r),
    ensures
        r matches Some(s) && s@ == id@,
        final(e)@.metadata().source_type == old(e)@.metadata().source_type,
        final(e)@.metadata().upstream_id == old(e)@.metadata().upstream_id,
        final(e)@.metadata().value == old(e)@.metadata().value,
        final(e)@ == old(e)@.with_metadata(final(e)@.metadata()),
{
}

/// The type of the source and the output that were set on an event are those that it has.
pub proof fn law_origin_of_event_is_kept(e: Event, ty: &str, id: OutputId, a: Event, b: Event)
    requires
        call_ensures(Event::with_source_type, (e, ty), a),
        call_ensures(Event::with_upstream_id, (e, id), b),
    ensures
        a@.metadata().source_type == Some(ty@),
        a@.metadata().source_id == e@.metadata().source_id,
        b@.metadata().upstream_id == Some(id@),
        b@.metadata().source_type == e@.metadata().source_type,
{
}

/// A metric that was made as a counter or as a gauge has its name, its kind and its value.
pub proof fn law_made_metric_is_read(
    name: String,
    kind: MetricKind,
    value: u64,
    c: OtelMetric,
    g: OtelMetric,
    read: MetricKind,
    number: Option<u64>,
)
    requires
        call_ensures(OtelMetric::new_counter, (name, kind, value), c),
        call_ensures(OtelMetric::new_gauge, (name, value), g),
        call_ensures(OtelMetric::kind, (&c,), read),
        call_ensures(OtelMetric::first_value_as_f64, (&g,), number),
    ensures
        c@.metric.name == name@ && g@.metric.name == name@,
        read == kind,
        number == Some(value),
        c@.metric.data matches Some(DataView::Sum(s)) && s.is_monotonic && s.data_points.len() == 1
            && s.data_points[0].value == Some(NumberValue::AsDouble(value)),
        g@.metric.data is Some && g@.metric.data->0 is Gauge,
{
}

/// The interval that was set on a metric whose time is known is the one that it has, if it is not longer
/// than the time since the epoch.
pub proof fn law_interval_is_kept(m: MetricEvent, ms: u32, r: MetricEvent, read: Option<u32>, d: DataView)
    requires
        m@.event.metric.data == Some(d),
        0 < ms,
        times_held(d).1 > ms * 1_000_000,
        call_ensures(MetricEvent::with_interval_ms, (m, Some(ms)), r),
        call_ensures(MetricEvent::interval_ms, (&r,), read),
    ensures
        read == Some(ms),
        r@.event.timestamp() == m@.event.timestamp(),
{
    law_start_is_set(d, (ms * 1_000_000) as u64);
    let after = d.started((ms * 1_000_000) as u64);
    assert(r@.event.metric.data == Some(after));
    law_interval_is_read(r@.event, after);
    law_time_is_read(m@.event, d);
}

/// Attributes that were put on a metric with a data point are among its tags.
pub proof fn law_tags_are_kept(
    m: MetricEvent,
    tags: OtelAttributes,
    r: MetricEvent,
    read: Option<OtelAttributes>,
    key: Seq<char>,
)
    requires
        m@.event.dp_attrs.len() > 0,
        ordered(m@.event.dp_attrs[0]),
        ordered(tags@),
        value_of(tags@, key) is Some,
        call_ensures(MetricEvent::with_tags, (m, Some(tags)), r),
        call_ensures(MetricEvent::tags, (&r,), read),
    ensures
        read matches Some(t) && value_of(t@, key) == value_of(tags@, key),
        r@.event.metric == m@.event.metric,
{
    law_attributes_are_put(m@.event, tags@, key, 0);
    assert(r@.event.first_attrs() == r@.event.dp_attrs[0]);
}

/// Among the tags that a metric hands out each attribute of its resource stands under its name after
/// `resource.`, but for the one that names the namespace and those without a value, unless an attribute of
/// the first data point has that name. `shown` shows a double as `text` says.
pub proof fn law_tags_are_handed_out<F: Fn(u64) -> String>(
    m: OtelMetric,
    shown: F,
    text: spec_fn(u64) -> Seq<char>,
    r: Option<MetricTags>,
    key: Seq<char>,
    v: AnyView,
)
    requires
        call_ensures(OtelMetric::tags::<F>, (&m, shown), r),
        m@.tags_shown(shown, text),
        names_in_order(m@),
        value_of(m@.resource_attrs, key) == Some(v),
        key != "metric.namespace"@,
        !(v is Empty),
        value_of(m@.first_point(), "resource."@ + key) is None,
    ensures
        r matches Some(tags) && value_of(tags@, "resource."@ + key) == Some(
            seq![Some(tag_text(v, text))],
        ),
{
    law_resource_attributes_are_tags(m@, key, v, text);
}

/// The value that a histogram with exponential bounds hands out has, for each count of positive numbers, a
/// bucket with that count whose limit is the bound for the offset plus the index plus one. `power` computes
/// bounds that grow with the exponent.
pub proof fn law_value_is_handed_out<F: Fn(i32, i32) -> u64>(
    m: OtelMetric,
    power: F,
    pow: spec_fn(i32, i32) -> u64,
    r: MetricValue,
    p: ExponentialHistogramDataPointView,
    b: BucketsView,
    i: int,
)
    requires
        call_ensures(OtelMetric::value::<F>, (&m, power), r),
        scales(power, pow),
        m@.metric.data matches Some(DataView::ExponentialHistogram(e)) && e.data_points.len() > 0
            && e.data_points[0] == p,
        p.positive == Some(b),
        exponents_fit(p),
        grows(pow),
        0 <= i < b.bucket_counts.len(),
    ensures
        buckets_in(r@)[positive_start(p) + i].upper_limit == pow(p.scale, (b.offset + i + 1) as i32),
        buckets_in(r@)[positive_start(p) + i].count == b.bucket_counts[i],
{
    let x = pow(p.scale, (b.offset + i + 1) as i32);
    assert(less(pow(p.scale, (b.offset + i) as i32), x));
    law_positive_limits(m@, p, b, pow, i, x);
}

/// A sum of integers that another one was added to holds the sum of both in each pair of data points, and
/// is told to be added; `plus` adds doubles.
pub proof fn law_integers_are_added<F: Fn(u64, u64) -> u64>(
    m: &mut OtelMetric,
    other: &OtelMetric,
    plus: F,
    done: bool,
    s: SumView,
    o: SumView,
    i: int,
)
    requires
        call_ensures(OtelMetric::add::<F>, (m, other, plus), done),
        old(m)@.metric.data == Some(DataView::Sum(s)),
        other@.metric.data == Some(DataView::Sum(o)),
        addables_fit(s.data_points, o.data_points),
        forall|j: int| 0 <= j < s.data_points.len() ==> is_integer(#[trigger] s.data_points[j]),
        forall|j: int| 0 <= j < o.data_points.len() ==> is_integer(#[trigger] o.data_points[j]),
        0 <= i < s.data_points.len(),
        i < o.data_points.len(),
    ensures
        done,
        final(m)@.metric.data matches Some(DataView::Sum(after)) && after.data_points[i].value
            == Some(
            NumberValue::AsInt(
                (s.data_points[i].value->0->AsInt_0 + o.data_points[i].value->0->AsInt_0) as i64,
            ),
        ) && after.data_points[i].time_unix_nano == s.data_points[i].time_unix_nano,
{
    let (x, y) = (s.data_points, o.data_points);
    assert forall|j: int| 0 <= j < x.len() && j < y.len() implies addable(#[trigger] x[j], y[j]) by {
        assert(is_integer(x[j]) && is_integer(y[j]));
    }
    assert(all_addable(x, y, pairs(x.len(), y.len())));
    assert(all_addable(x, y, i));
    assert(is_integer(x[i]) && is_integer(y[i]));
    let after = final(m)@.metric.data->0->Sum_0.data_points;
    assert(are_added(plus, x, y, after));
    assert(is_added(plus, x[i], y[i], after[i]));
}

/// A value that was put into the metadata of a log under `vector` is read there, under that name.
pub proof fn law_vector_metadata_is_kept(
    log: &mut OtelLog,
    key: &OwnedValuePath,
    v: Value,
    r: Option<Value>,
    name: &str,
    other: Option<Value>,
)
    requires
        name@ == "vector"@,
        call_ensures(insert_vector_metadata, (log, key, v), ()),
        call_ensures(get_vector_metadata, (final(log), key), r),
        call_ensures(get_source_metadata, (name, final(log), key), other),
    ensures
        opt_view(r) == Some(v@),
        opt_view(other) == Some(v@),
        final(log)@.record == old(log)@.record,
        final(log)@.record_attrs == old(log)@.record_attrs,
{
    law_metadata_is_retrieved(old(log)@, "vector"@, key@, v@);
}

/// The scope that was set on a log is the one that it has, its attributes apart from it; nothing else
/// changes.
pub proof fn law_scope_of_log_is_kept(
    log: &mut OtelLog,
    scope: InstrumentationScope,
    r: Option<&InstrumentationScope>,
)
    requires
        call_ensures(OtelLog::set_scope, (log, scope), ()),
        call_ensures(OtelLog::scope, (final(log),), r),
    ensures
        r matches Some(s) && s@.name == scope@.name && s@.version == scope@.version
            && s@.dropped_attributes_count == scope@.dropped_attributes_count && s@.attributes.len()
            == 0,
        final(log)@.scope_attrs == attrs_from_kvs(scope@.attributes),
        final(log)@.record == old(log)@.record,
        final(log)@.resource == old(log)@.resource,
{
}

/// The resource that was set on a log is the one that it has, its attributes apart from it; nothing else
/// changes.
pub proof fn law_resource_of_log_is_kept(
    log: &mut OtelLog,
    resource: Resource,
    r: Option<&Resource>,
)
    requires
        call_ensures(OtelLog::set_resource, (log, resource), ()),
        call_ensures(OtelLog::resource, (final(log),), r),
    ensures
        r matches Some(s) && s@.dropped_attributes_count == resource@.dropped_attributes_count
            && s@.attributes.len() == 0,
        final(log)@.resource_attrs == attrs_from_kvs(resource@.attributes),
        final(log)@.record == old(log)@.record,
        final(log)@.scope == old(log)@.scope,
{
}

/// A tag that was replaced among those that tell a metric apart is the one that it has, and the text that it
/// was before is given; the others stay, and so does the name.
pub proof fn law_tag_is_replaced(
    m: &mut MetricIdentity,
    key: String,
    value: String,
    was: Option<String>,
    other: Seq<char>,
)
    requires
        old(m)@.tags matches Some(t) && ordered(t),
        other != key@,
        call_ensures(MetricIdentity::replace_tag, (m, key, value), was),
    ensures
        final(m)@.tags matches Some(t) && value_of(t, key@) == Some(AnyView::Str(value@)) && value_of(
            t,
            other,
        ) == value_of(old(m)@.tags->0, other),
        value_of(old(m)@.tags->0, key@) matches Some(AnyView::Str(s)) ==> opt_view(was) == Some(s),
        value_of(old(m)@.tags->0, key@) is None ==> was is None,
        final(m)@.name == old(m)@.name && final(m)@.namespace == old(m)@.namespace,
{
    law_read_after_write(old(m)@.tags->0, key@, AnyView::Str(value@));
}

/// A tag that was removed from those that tell a metric apart is there no more, and the others stay.
pub proof fn law_tag_is_removed(
    m: &mut MetricIdentity,
    key: &str,
    was: Option<String>,
    other: Seq<char>,
)
    requires
        old(m)@.tags matches Some(t) && ordered(t),
        other != key@,
        value_of(old(m)@.tags->0, other) is Some,
        call_ensures(MetricIdentity::remove_tag, (m, key), was),
    ensures
        final(m)@.tags matches Some(t) && value_of(t, key@) is None && value_of(t, other) == value_of(
            old(m)@.tags->0,
            other,
        ),
        value_of(old(m)@.tags->0, key@) matches Some(AnyView::Str(s)) ==> opt_view(was) == Some(s),
{
    law_read_after_remove(old(m)@.tags->0, key@);
    lemma_found_entry(without_entry(old(m)@.tags->0, key@), other);
}

/// The words for kinds and for statistics are those that name them.
pub proof fn law_words(a: MetricKind, b: StatisticKind, x: &'static str, y: &'static str, t: i32)
    requires
        call_ensures(MetricKind::as_str, (&a,), x),
        call_ensures(StatisticKind::as_str, (&b,), y),
        call_ensures(MetricKind::temporality, (&a,), t),
    ensures
        a is Incremental ==> x@ == "incremental"@ && t == 1,
        a is Absolute ==> x@ == "absolute"@ && t == 2,
        b is Histogram ==> y@ == "histogram"@,
        b is Summary ==> y@ == "summary"@,
{
}

/// A set of kinds is a number with a bit for each kind: one for logs, two for metrics, four for traces. It
/// contains another one exactly where all bits of that one are set.
pub proof fn law_bits_of_kinds(a: DataType, b: DataType, x: u8, within: bool, both: DataType)
    requires
        call_ensures(DataType::bits, (a,), x),
        call_ensures(DataType::contains, (&a, b), within),
        call_ensures(DataType::or, (a, b), both),
    ensures
        x % 2 == 1 <==> a.log(),
        (x / 2) % 2 == 1 <==> a.metric(),
        (x / 4) % 2 == 1 <==> a.trace(),
        x < 8,
        a == b ==> within && both == a,
        within <==> both == a,
{
    law_data_types(both, a);
}

/// A metric is a gauge or a sum exactly where its data are, and a set or a distribution exactly where it is
/// marked as one.
pub proof fn law_type_of_metric_is_told(
    m: OtelMetric,
    gauge: bool,
    sum: bool,
    set: bool,
    distribution: bool,
    timed: bool,
)
    requires
        call_ensures(OtelMetric::is_gauge, (&m,), gauge),
        call_ensures(OtelMetric::is_sum, (&m,), sum),
        call_ensures(OtelMetric::is_set, (&m,), set),
        call_ensures(OtelMetric::is_distribution, (&m,), distribution),
        call_ensures(OtelMetric::has_temporality, (&m,), timed),
    ensures
        gauge <==> m@.metric.data is Some && m@.metric.data->0 is Gauge,
        sum <==> m@.metric.data is Some && m@.metric.data->0 is Sum,
        set <==> m@.dp_attrs.len() > 0 && value_of(m@.dp_attrs[0], "vector.metric_type"@) == Some(
            AnyView::Str("set"@),
        ),
        distribution <==> m@.dp_attrs.len() > 0 && value_of(m@.dp_attrs[0], "vector.metric_type"@)
            == Some(AnyView::Str("distribution"@)),
        timed <==> m@.metric.data is Some && (m@.metric.data->0 is Sum || m@.metric.data->0 is Histogram
            || m@.metric.data->0 is ExponentialHistogram),
{
}

} // verus!
