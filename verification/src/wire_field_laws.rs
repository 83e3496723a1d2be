//! What stands in the fields of the messages that events are written as.
use vstd::prelude::*;
use vstd::utf8::encode_utf8;

use crate::keyed::{ordered, value_of};
use crate::log::OtelLogView;
use crate::map_laws::{law_read_after_write, lemma_entry_found, lemma_found_entry};
use crate::metadata::MetadataView;
use crate::metric_data::{MetricDataView, MetricSeriesView, MetricValueView};
use crate::otel_metric::keys_of;
use crate::span::OtelSpanView;
use crate::text::text_before;
use crate::value::ValueView;
use crate::wire::{encoded, lemma_encoded_array, lemma_encoded_object, WireView};
use crate::wire_array::{log_encoded, trace_encoded};
use crate::wire_event::{metadata_encoded, metric_encoded, sorted_texts, WireMetricValueView};

verus! {

/// A value stands in a message as what it is: bytes as bytes, a number as a number, an instant as its
/// seconds and nanoseconds, an object with its fields and an array with its items in order. A regular
/// expression stands as the bytes of its text.
pub proof fn law_value_in_message(v: ValueView)
    ensures
        v matches ValueView::Bytes(b) ==> encoded(v) == WireView::RawBytes(b),
        v matches ValueView::Regex(s) ==> encoded(v) == WireView::RawBytes(encode_utf8(s)),
        v matches ValueView::Integer(i) ==> encoded(v) == WireView::Integer(i),
        v matches ValueView::Float(f) ==> encoded(v) == WireView::Float(f),
        v matches ValueView::Boolean(b) ==> encoded(v) == WireView::Boolean(b),
        v matches ValueView::Timestamp(t) ==> (encoded(v) matches WireView::Timestamp {
            seconds,
            nanos,
        } && seconds == t.spec_secs() && (t.spec_nanos() <= i32::MAX ==> nanos == t.spec_nanos())),
        v matches ValueView::Object(m) ==> (encoded(v) matches WireView::Fields(fields)
            && fields.len() == m.len() && forall|i: int|
            0 <= i < m.len() ==> (#[trigger] fields[i]).0 == m[i].0 && fields[i].1 == encoded(m[i].1)),
        v matches ValueView::Array(a) ==> (encoded(v) matches WireView::Array(items) && items.len()
            == a.len() && forall|i: int|
            0 <= i < a.len() ==> #[trigger] items[i] == encoded(a[i])),
{
    match v {
        ValueView::Object(m) => {
            lemma_encoded_object(m);
        },
        ValueView::Array(a) => {
            lemma_encoded_array(a);
        },
        _ => {},
    }
}

/// The metadata of an event stand in a message with their value, with where the event came from, with
/// their secrets where there are some, and with the identifier of the event where there is one.
pub proof fn law_metadata_in_message(m: MetadataView)
    ensures
        ({
            let w = metadata_encoded(m);
            &&& w.value == Some(encoded(m.value))
            &&& w.source_id == m.source_id
            &&& w.source_type == m.source_type
            &&& w.upstream_id == m.upstream_id
            &&& m.secrets.len() > 0 ==> w.secrets == Some(m.secrets)
            &&& m.secrets.len() == 0 ==> w.secrets is None
            &&& m.source_event_id matches Some(id) ==> w.source_event_id == id
            &&& m.source_event_id is None ==> w.source_event_id.len() == 0
        }),
{
}

/// A metric stands in a message with its name, its namespace and its tags, its time in seconds and
/// nanoseconds, its interval, its kind, its value and its metadata. What is missing stands as nothing, an
/// empty text, no tags and zero.
pub proof fn law_metric_in_message(s: MetricSeriesView, d: MetricDataView, m: MetadataView)
    ensures
        ({
            let w = metric_encoded(s, d, m);
            &&& w.name == s.name
            &&& s.namespace matches Some(ns) ==> w.namespace == ns
            &&& s.namespace is None ==> w.namespace.len() == 0
            &&& s.tags matches Some(tags) ==> w.tags_v2 == tags
            &&& s.tags is None ==> w.tags_v2.len() == 0
            &&& d.timestamp matches Some(t) ==> (w.timestamp matches Some((secs, nanos)) && secs
                == t.spec_secs() && (t.spec_nanos() <= i32::MAX ==> nanos == t.spec_nanos()))
            &&& d.timestamp is None ==> w.timestamp is None
            &&& w.kind == d.kind
            &&& d.interval_ms matches Some(ms) ==> w.interval_ms == ms
            &&& d.interval_ms is None ==> w.interval_ms == 0
            &&& w.metadata_full == Some(metadata_encoded(m))
            &&& match d.value {
                MetricValueView::Counter { value } => w.value == Some(
                    WireMetricValueView::Counter(value),
                ),
                MetricValueView::Gauge { value } => w.value == Some(WireMetricValueView::Gauge(value)),
                MetricValueView::SetOf { values } => w.value == Some(
                    WireMetricValueView::SetOf(values),
                ),
                MetricValueView::Distribution { samples, statistic } => w.value matches Some(
                    WireMetricValueView::Distribution2 { samples: x, statistic: y },
                ) && x == samples && y == statistic,
                MetricValueView::AggregatedHistogram { buckets, count, sum } => w.value matches Some(
                    WireMetricValueView::AggregatedHistogram3 { buckets: x, count: y, sum: z },
                ) && x == buckets && y == count && z == sum,
                MetricValueView::AggregatedSummary { quantiles, count, sum } => w.value matches Some(
                    WireMetricValueView::AggregatedSummary3 { quantiles: x, count: y, sum: z },
                ) && x == quantiles && y == count && z == sum,
            }
        }),
{
}

/// A log stands in a message as the object that it is read as, a span with the fields of that object; both
/// with their metadata.
pub proof fn law_event_in_message(log: OtelLogView, span: OtelSpanView)
    ensures
        log_encoded(log).value == Some(encoded(ValueView::Object(log.canonical()))),
        log_encoded(log).metadata_full == Some(metadata_encoded(log.metadata)),
        trace_encoded(span).fields.len() == span.canonical().len(),
        forall|i: int|
            0 <= i < span.canonical().len() ==> (#[trigger] trace_encoded(span).fields[i]).0
                == span.canonical()[i].0 && trace_encoded(span).fields[i].1 == encoded(
                span.canonical()[i].1,
            ),
        trace_encoded(span).metadata_full == Some(metadata_encoded(span.metadata)),
{
}

/// Texts that are sorted are the same ones, in order, none of them twice.
pub proof fn law_texts_are_sorted(texts: Seq<Seq<char>>, text: Seq<char>)
    ensures
        sorted_texts(texts).contains(text) <==> texts.contains(text),
        forall|i: int, j: int|
            0 <= i < j < sorted_texts(texts).len() ==> text_before(
                #[trigger] sorted_texts(texts)[i],
                #[trigger] sorted_texts(texts)[j],
            ),
{
    lemma_keys(texts, text);
    let keys = keys_of(texts);
    let sorted = sorted_texts(texts);
    if sorted.contains(text) {
        let i = choose|i: int| 0 <= i < sorted.len() && sorted[i] == text;
        lemma_entry_found(keys, i);
    }
    if value_of(keys, text) is Some {
        lemma_found_entry(keys, text);
        let i = choose|i: int| 0 <= i < keys.len() && keys[i].0 == text;
        assert(sorted[i] == text);
    }
}

proof fn lemma_keys(texts: Seq<Seq<char>>, text: Seq<char>)
    ensures
        ordered(keys_of(texts)),
        value_of(keys_of(texts), text) is Some <==> texts.contains(text),
    decreases texts.len(),
{
    if texts.len() > 0 {
        let before = texts.drop_last();
        lemma_keys(before, text);
        law_read_after_write(keys_of(before), texts.last(), true);
        if before.contains(text) {
            let i = choose|i: int| 0 <= i < before.len() && before[i] == text;
            assert(texts[i] == text);
        }
        if texts.last() == text {
            assert(texts[texts.len() - 1] == text);
        }
        if texts.contains(text) && texts.last() != text {
            let i = choose|i: int| 0 <= i < texts.len() && texts[i] == text;
            assert(before[i] == text);
        }
    }
}

} // verus!
