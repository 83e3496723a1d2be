//! Events of any kind, and arrays of them, as the messages of the Vector-native encoding.
use vstd::prelude::*;

use crate::array::{EventArray, EventArrayView};
use crate::event::{Event, EventView};
use crate::keyed::views;
use crate::log::{OtelLog, OtelLogView};
use crate::log_value::log_from_value;
use crate::metric::{OtelMetric, OtelMetricView};
use crate::metric_data::{MetricDataView, MetricSeriesView, MetricValueView};
use crate::metric_kind::{total_rate, Sample};
use crate::metric_new::{metric_of_parts, sums};
use crate::metric_ops::is_metric_parts;
use crate::span::{OtelSpan, OtelSpanView};
use crate::span_value::span_from_value;
use crate::value::ValueView;
use crate::wire::{encoded, encoded_fields, readable};
use crate::wire_event::{
    data_decoded, decode_log, decode_metric, decode_trace, decoded_or, encode_log, encode_metric,
    encode_trace, is_opt_metadata_of, known_fields, metadata_encoded, metadata_readable,
    metric_encoded, metric_readable, series_decoded, WireLog, WireLogView, WireMetric,
    WireMetricView, WireTrace, WireTraceView,
};

verus! {

/// An event in a message.
#[derive(Debug, PartialEq)]
pub enum WireEvent {
    Log(WireLog),
    Metric(WireMetric),
    Trace(WireTrace),
}

pub enum WireEventView {
    Log(WireLogView),
    Metric(WireMetricView),
    Trace(WireTraceView),
}

impl View for WireEvent {
    type V = WireEventView;

    open spec fn view(&self) -> WireEventView {
        match self {
            WireEvent::Log(w) => WireEventView::Log(w@),
            WireEvent::Metric(w) => WireEventView::Metric(w@),
            WireEvent::Trace(w) => WireEventView::Trace(w@),
        }
    }
}

/// An array of events of one kind in a message.
#[derive(Debug, PartialEq)]
pub enum WireEventArray {
    Logs(Vec<WireLog>),
    Metrics(Vec<WireMetric>),
    Traces(Vec<WireTrace>),
}

impl WireEventArray {
    /// The messages of the events, in order.
    pub open spec fn events(&self) -> Seq<WireEventView> {
        match self {
            WireEventArray::Logs(a) => Seq::new(a@.len(), |i: int| WireEventView::Log(a@[i]@)),
            WireEventArray::Metrics(a) => Seq::new(a@.len(), |i: int| WireEventView::Metric(a@[i]@)),
            WireEventArray::Traces(a) => Seq::new(a@.len(), |i: int| WireEventView::Trace(a@[i]@)),
        }
    }
}

/// The message of a log event.
pub open spec fn log_encoded(log: OtelLogView) -> WireLogView {
    WireLogView {
        value: Some(encoded(ValueView::Object(log.canonical()))),
        metadata_full: Some(metadata_encoded(log.metadata)),
    }
}

/// The message of a span event.
pub open spec fn trace_encoded(span: OtelSpanView) -> WireTraceView {
    WireTraceView {
        fields: encoded_fields(span.canonical()),
        metadata_full: Some(metadata_encoded(span.metadata)),
    }
}

/// Whether this is the message of a metric event, where `shown` shows a double and `power` gives the
/// bound for a scale and an exponent.
pub open spec fn is_metric_message<F: Fn(u64) -> String, G: Fn(i32, i32) -> u64>(
    m: OtelMetricView,
    shown: F,
    power: G,
    w: WireMetricView,
) -> bool {
    exists|series: MetricSeriesView, data: MetricDataView|
        w == #[trigger] metric_encoded(series, data, m.metadata) && is_metric_parts(
            m,
            shown,
            power,
            series,
            data,
        )
}

/// Whether this is the message of an event.
pub open spec fn is_message<F: Fn(u64) -> String, G: Fn(i32, i32) -> u64>(
    e: EventView,
    shown: F,
    power: G,
    w: WireEventView,
) -> bool {
    match (e, w) {
        (EventView::Log(log), WireEventView::Log(w)) => w == log_encoded(log),
        (EventView::Metric(m), WireEventView::Metric(w)) => is_metric_message(m, shown, power, w),
        (EventView::Trace(span), WireEventView::Trace(w)) => w == trace_encoded(span),
        _ => false,
    }
}

/// The message of a log event.
fn write_log(log: OtelLog) -> (r: WireLog)
    ensures
        r@ == log_encoded(log@),
{
    let value = log.to_value_canonical();
    encode_log(&value, log.metadata)
}

/// The message of a span event.
fn write_trace(span: OtelSpan) -> (r: WireTrace)
    ensures
        r@ == trace_encoded(span@),
{
    let fields = match span.as_map() {
        Some(fields) => fields,
        None => vstd::pervasive::unreached(),
    };
    encode_trace(&fields, span.metadata)
}

/// The message of a metric event.
fn write_metric<F: Fn(u64) -> String, G: Fn(i32, i32) -> u64>(metric: OtelMetric, shown: F, power: G) -> (r:
    WireMetric)
    requires
        forall|b: u64| call_requires(shown, (b,)),
        forall|s: i32, e: i32| call_requires(power, (s, e)),
        metric@.has_bounds(),
    ensures
        is_metric_message(metric@, shown, power, r@),
{
    let (series, data, metadata) = metric.into_metric_parts(shown, power);
    encode_metric(series, data, metadata)
}

/// The message of an event. `shown` shows a double, `power` gives the bound for a scale and an
/// exponent.
pub fn encode_event<F: Fn(u64) -> String, G: Fn(i32, i32) -> u64>(event: Event, shown: F, power: G) -> (r:
    WireEvent)
    requires
        forall|b: u64| call_requires(shown, (b,)),
        forall|s: i32, e: i32| call_requires(power, (s, e)),
        event@ matches EventView::Metric(m) ==> m.has_bounds(),
    ensures
        is_message(event@, shown, power, r@),
{
    match event {
        Event::Log(log) => WireEvent::Log(write_log(log)),
        Event::Metric(metric) => WireEvent::Metric(write_metric(metric, shown, power)),
        Event::Trace(span) => WireEvent::Trace(write_trace(span)),
    }
}

/// The message of an array of events. `shown` shows a double, `power` gives the bound for a scale
/// and an exponent.
pub fn encode_array<F: Fn(u64) -> String + Copy, G: Fn(i32, i32) -> u64 + Copy>(
    array: EventArray,
    shown: F,
    power: G,
) -> (r: WireEventArray)
    requires
        forall|b: u64| call_requires(shown, (b,)),
        forall|s: i32, e: i32| call_requires(power, (s, e)),
        array@ matches EventArrayView::Metrics(a) ==> forall|i: int|
            0 <= i < a.len() ==> (#[trigger] a[i]).has_bounds(),
    ensures
        r is Logs == array@ is Logs,
        r is Metrics == array@ is Metrics,
        r is Traces == array@ is Traces,
        r.events().len() == array@.events().len(),
        forall|i: int|
            0 <= i < r.events().len() ==> is_message(
                array@.events()[i],
                shown,
                power,
                #[trigger] r.events()[i],
            ),
{
    match array {
        EventArray::Logs(a) => {
            let mut out: Vec<WireLog> = Vec::new();
            let ghost all = views(a@);
            for log in it: a
                invariant
                    it.seq() == a@,
                    all == views(a@),
                    out@.len() == it.index(),
                    forall|j: int| 0 <= j < out@.len() ==> (#[trigger] out@[j])@ == log_encoded(all[j]),
            {
                out.push(write_log(log));
            }
            WireEventArray::Logs(out)
        },
        EventArray::Metrics(a) => {
            let mut out: Vec<WireMetric> = Vec::new();
            let ghost all = views(a@);
            for metric in it: a
                invariant
                    it.seq() == a@,
                    all == views(a@),
                    forall|b: u64| call_requires(shown, (b,)),
                    forall|s: i32, e: i32| call_requires(power, (s, e)),
                    forall|i: int| 0 <= i < all.len() ==> (#[trigger] all[i]).has_bounds(),
                    out@.len() == it.index(),
                    forall|j: int|
                        0 <= j < out@.len() ==> is_metric_message(
                            all[j],
                            shown,
                            power,
                            (#[trigger] out@[j])@,
                        ),
            {
                assert(all[it.index() as int].has_bounds());
                out.push(write_metric(metric, shown, power));
            }
            WireEventArray::Metrics(out)
        },
        EventArray::Traces(a) => {
            let mut out: Vec<WireTrace> = Vec::new();
            let ghost all = views(a@);
            for span in it: a
                invariant
                    it.seq() == a@,
                    all == views(a@),
                    out@.len() == it.index(),
                    forall|j: int|
                        0 <= j < out@.len() ==> (#[trigger] out@[j])@ == trace_encoded(all[j]),
            {
                out.push(write_trace(span));
            }
            WireEventArray::Traces(out)
        },
    }
}

/// Whether the rates of the samples in a message add up within 32 bits.
pub open spec fn rates_fit(w: WireMetricView) -> bool {
    data_decoded(w).value matches MetricValueView::Distribution { samples, .. } ==> total_rate(samples)
        <= u32::MAX
}

/// Whether an event can be read from a message.
pub open spec fn event_readable(w: WireEventView) -> bool {
    match w {
        WireEventView::Log(w) => {
            &&& w.value matches Some(v) ==> readable(v)
            &&& metadata_readable(w.metadata_full)
        },
        WireEventView::Metric(w) => metric_readable(w) && rates_fit(w),
        WireEventView::Trace(w) => {
            &&& forall|i: int| 0 <= i < w.fields.len() ==> readable((#[trigger] w.fields[i]).1)
            &&& metadata_readable(w.metadata_full)
        },
    }
}

/// Whether this is the metric event in a message, where `sum` sums up the values of samples.
pub open spec fn is_metric_of<F: Fn(&Vec<Sample>) -> u64>(
    m: OtelMetricView,
    w: WireMetricView,
    sum: F,
) -> bool {
    &&& is_opt_metadata_of(m.metadata, w.metadata_full)
    &&& exists|total: spec_fn(Seq<Sample>) -> u64|
        m == #[trigger] metric_of_parts(series_decoded(w), data_decoded(w), m.metadata, total)
            && data_decoded(w).is_totalled(sum, total)
    &&& forall|total: spec_fn(Seq<Sample>) -> u64| #[trigger]
        sums(sum, total) ==> m == metric_of_parts(
            series_decoded(w),
            data_decoded(w),
            m.metadata,
            total,
        )
}

/// Whether this is the event in a message, where `sum` sums up the values of samples.
pub open spec fn is_event_of<F: Fn(&Vec<Sample>) -> u64>(e: EventView, w: WireEventView, sum: F) -> bool {
    match (e, w) {
        (EventView::Log(log), WireEventView::Log(w)) => {
            &&& is_opt_metadata_of(log.metadata, w.metadata_full)
            &&& log == log_from_value(decoded_or(w.value, ValueView::Null), log.metadata)
        },
        (EventView::Metric(m), WireEventView::Metric(w)) => is_metric_of(m, w, sum),
        (EventView::Trace(span), WireEventView::Trace(w)) => {
            &&& is_opt_metadata_of(span.metadata, w.metadata_full)
            &&& span == span_from_value(ValueView::Object(known_fields(w.fields)), span.metadata)
        },
        _ => false,
    }
}

/// The metric event in a message.
fn read_metric<F: Fn(&Vec<Sample>) -> u64>(metric: WireMetric, sum: F) -> (r: OtelMetric)
    requires
        forall|samples: &Vec<Sample>| call_requires(sum, (samples,)),
        metric_readable(metric@),
        rates_fit(metric@),
    ensures
        is_metric_of(r@, metric@, sum),
{
    let (series, data, metadata) = decode_metric(metric);
    assert(data.can_be_summed(sum)) by {
        assert(data@ == data_decoded(metric@));
    }
    OtelMetric::from_metric_parts(series, data, metadata, sum)
}

/// The event in a message. `sum` sums up the values of samples, each as often as it was measured.
pub fn decode_event<F: Fn(&Vec<Sample>) -> u64>(event: WireEvent, sum: F) -> (r: Event)
    requires
        forall|samples: &Vec<Sample>| call_requires(sum, (samples,)),
        event_readable(event@),
    ensures
        is_event_of(r@, event@, sum),
{
    match event {
        WireEvent::Log(w) => Event::Log(decode_log(w)),
        WireEvent::Metric(w) => Event::Metric(read_metric(w, sum)),
        WireEvent::Trace(w) => {
            assert(w@.fields == w.fields@);
            Event::Trace(decode_trace(w))
        },
    }
}

/// The array of events in a message. `sum` sums up the values of samples, each as often as it was
/// measured.
pub fn decode_array<F: Fn(&Vec<Sample>) -> u64 + Copy>(array: WireEventArray, sum: F) -> (r: EventArray)
    requires
        forall|samples: &Vec<Sample>| call_requires(sum, (samples,)),
        forall|i: int| 0 <= i < array.events().len() ==> event_readable(#[trigger] array.events()[i]),
    ensures
        r@ is Logs == array is Logs,
        r@ is Metrics == array is Metrics,
        r@ is Traces == array is Traces,
        r@.events().len() == array.events().len(),
        forall|i: int|
            0 <= i < r@.events().len() ==> is_event_of(
                #[trigger] r@.events()[i],
                array.events()[i],
                sum,
            ),
{
    let ghost all = array.events();
    match array {
        WireEventArray::Logs(a) => {
            let mut out: Vec<OtelLog> = Vec::new();
            for w in it: a
                invariant
                    it.seq() == a@,
                    all.len() == a@.len(),
                    forall|i: int| 0 <= i < all.len() ==> #[trigger] all[i] == WireEventView::Log(a@[i]@),
                    forall|i: int| 0 <= i < all.len() ==> event_readable(#[trigger] all[i]),
                    out@.len() == it.index(),
                    forall|j: int|
                        0 <= j < out@.len() ==> is_event_of(
                            EventView::Log((#[trigger] out@[j])@),
                            all[j],
                            sum,
                        ),
            {
                assert(event_readable(all[it.index() as int]));
                out.push(decode_log(w));
            }
            EventArray::Logs(out)
        },
        WireEventArray::Metrics(a) => {
            let mut out: Vec<OtelMetric> = Vec::new();
            for w in it: a
                invariant
                    it.seq() == a@,
                    all.len() == a@.len(),
                    forall|samples: &Vec<Sample>| call_requires(sum, (samples,)),
                    forall|i: int|
                        0 <= i < all.len() ==> #[trigger] all[i] == WireEventView::Metric(a@[i]@),
                    forall|i: int| 0 <= i < all.len() ==> event_readable(#[trigger] all[i]),
                    out@.len() == it.index(),
                    forall|j: int|
                        0 <= j < out@.len() ==> is_event_of(
                            EventView::Metric((#[trigger] out@[j])@),
                            all[j],
                            sum,
                        ),
            {
                assert(event_readable(all[it.index() as int]));
                out.push(read_metric(w, sum));
            }
            EventArray::Metrics(out)
        },
        WireEventArray::Traces(a) => {
            let mut out: Vec<OtelSpan> = Vec::new();
            for w in it: a
                invariant
                    it.seq() == a@,
                    all.len() == a@.len(),
                    forall|i: int|
                        0 <= i < all.len() ==> #[trigger] all[i] == WireEventView::Trace(a@[i]@),
                    forall|i: int| 0 <= i < all.len() ==> event_readable(#[trigger] all[i]),
                    out@.len() == it.index(),
                    forall|j: int|
                        0 <= j < out@.len() ==> is_event_of(
                            EventView::Trace((#[trigger] out@[j])@),
                            all[j],
                            sum,
                        ),
            {
                assert(event_readable(all[it.index() as int]));
                assert(w@.fields == w.fields@);
                out.push(decode_trace(w));
            }
            EventArray::Traces(out)
        },
    }
}

} // verus!
