//! Events as the messages of the Vector-native encoding.
use vstd::prelude::*;

use crate::keyed::{opt_view, views, KeyedMap};
use crate::log::OtelLog;
use crate::log_value::log_from_value;
use crate::metadata::{EventMetadata, MetadataView, OutputId, OutputIdView};
use crate::metric_data::{
    MetricData, MetricDataView, MetricName, MetricSeries, MetricSeriesView, MetricTime, MetricValue,
    MetricValueView,
};
use crate::metric_kind::{Bucket, MetricKind, Quantile, Sample, StatisticKind};
use crate::metric_tags::{values_collected, MetricTags, TagValue, TagValueSet};
use crate::otel_metric::{collect_keys, key_list, keys_of};
use crate::schema::Definition;
use crate::span::OtelSpan;
use crate::span_value::span_from_value;
use crate::time::{is_instant, Timestamp};
use crate::value::{lemma_object_view, Value, ValueView};
use crate::wire::{
    decode_value, decoded, encode_value, encoded, encoded_fields, readable, WireValue, WireView,
};

verus! {

/// The metadata of an event in a message.
#[derive(Debug, PartialEq)]
pub struct WireMetadata {
    pub value: Option<WireValue>,
    pub source_id: Option<String>,
    pub source_type: Option<String>,
    pub upstream_id: Option<OutputId>,
    pub secrets: Option<KeyedMap<String>>,
    pub source_event_id: Vec<u8>,
}

#[verifier::ext_equal]
pub struct WireMetadataView {
    pub value: Option<WireView>,
    pub source_id: Option<Seq<char>>,
    pub source_type: Option<Seq<char>>,
    pub upstream_id: Option<OutputIdView>,
    pub secrets: Option<Seq<(Seq<char>, Seq<char>)>>,
    pub source_event_id: Seq<u8>,
}

impl View for WireMetadata {
    type V = WireMetadataView;

    open spec fn view(&self) -> WireMetadataView {
        WireMetadataView {
            value: opt_view(self.value),
            source_id: opt_view(self.source_id),
            source_type: opt_view(self.source_type),
            upstream_id: opt_view(self.upstream_id),
            secrets: opt_view(self.secrets),
            source_event_id: self.source_event_id@,
        }
    }
}

/// The metadata of an event as they stand in a message. The schema and dropped fields do not.
pub open spec fn metadata_encoded(m: MetadataView) -> WireMetadataView {
    WireMetadataView {
        value: Some(encoded(m.value)),
        source_id: m.source_id,
        source_type: m.source_type,
        upstream_id: m.upstream_id,
        secrets: if m.secrets.len() == 0 {
            None
        } else {
            Some(m.secrets)
        },
        source_event_id: match m.source_event_id {
            Some(id) => id,
            None => Seq::empty(),
        },
    }
}

/// The metadata of an event as they stand in a message.
pub fn encode_metadata(metadata: EventMetadata) -> (r: WireMetadata)
    ensures
        r@ == metadata_encoded(metadata@),
{
    let secrets = if metadata.secrets.is_empty() {
        None
    } else {
        Some(metadata.secrets)
    };
    WireMetadata {
        value: Some(encode_value(&metadata.value)),
        source_id: metadata.source_id,
        source_type: metadata.source_type,
        upstream_id: metadata.upstream_id,
        secrets,
        source_event_id: match metadata.source_event_id {
            Some(id) => id,
            None => Vec::new(),
        },
    }
}

/// Whether the value of optional metadata can be read.
pub open spec fn metadata_readable(w: Option<WireMetadataView>) -> bool {
    match w {
        Some(w) => match w.value {
            Some(v) => readable(v),
            None => true,
        },
        None => true,
    }
}

/// The value that stands in a message, or another one where there is none or its kind is not known.
pub open spec fn decoded_or(w: Option<WireView>, default: ValueView) -> ValueView {
    match w {
        Some(w) => match decoded(w) {
            Some(v) => v,
            None => default,
        },
        None => default,
    }
}

/// Whether these are the metadata that stand in a message. An identifier counts where it has the
/// sixteen bytes of a UUID.
pub open spec fn is_metadata_of(m: MetadataView, w: WireMetadataView) -> bool {
    &&& m.value == decoded_or(w.value, ValueView::empty_object())
    &&& m.secrets == match w.secrets {
        Some(s) => s,
        None => Seq::empty(),
    }
    &&& m.source_id == w.source_id
    &&& m.source_type == w.source_type
    &&& m.upstream_id == w.upstream_id
    &&& m.schema_definition.is_default_with(Seq::empty())
    &&& m.dropped_fields.len() == 0
    &&& m.source_event_id == if w.source_event_id.len() == 16 {
        Some(w.source_event_id)
    } else {
        None
    }
}

fn decode_or(w: &Option<WireValue>, default: Value) -> (r: Value)
    requires
        match opt_view(*w) {
            Some(v) => readable(v),
            None => true,
        },
    ensures
        r@ == decoded_or(opt_view(*w), default@),
{
    match w {
        Some(w) => match decode_value(w) {
            Some(v) => v,
            None => default,
        },
        None => default,
    }
}

/// The metadata that stand in a message.
pub fn decode_metadata(w: WireMetadata) -> (r: EventMetadata)
    requires
        metadata_readable(Some(w@)),
    ensures
        is_metadata_of(r@, w@),
{
    let value = decode_or(&w.value, Value::new_object());
    let source_event_id = if w.source_event_id.len() == 16 {
        Some(w.source_event_id)
    } else {
        None
    };
    EventMetadata {
        value,
        secrets: match w.secrets {
            Some(s) => s,
            None => KeyedMap::new(),
        },
        source_id: w.source_id,
        source_type: w.source_type,
        upstream_id: w.upstream_id,
        schema_definition: Definition::default_definition(),
        dropped_fields: KeyedMap::new(),
        source_event_id,
    }
}

/// Whether these are the metadata that stand in a message, or those of which nothing is known where
/// it has none.
pub open spec fn is_opt_metadata_of(m: MetadataView, w: Option<WireMetadataView>) -> bool {
    match w {
        Some(w) => is_metadata_of(m, w),
        None => m.is_default(),
    }
}

fn decode_opt_metadata(w: Option<WireMetadata>) -> (r: EventMetadata)
    requires
        metadata_readable(opt_view(w)),
    ensures
        is_opt_metadata_of(r@, opt_view(w)),
{
    match w {
        Some(w) => decode_metadata(w),
        None => EventMetadata::default(),
    }
}

/// A log event in a message.
#[derive(Debug, PartialEq)]
pub struct WireLog {
    pub value: Option<WireValue>,
    pub metadata_full: Option<WireMetadata>,
}

#[verifier::ext_equal]
pub struct WireLogView {
    pub value: Option<WireView>,
    pub metadata_full: Option<WireMetadataView>,
}

impl View for WireLog {
    type V = WireLogView;

    open spec fn view(&self) -> WireLogView {
        WireLogView { value: opt_view(self.value), metadata_full: opt_view(self.metadata_full) }
    }
}

/// The message with a value and metadata.
pub fn encode_log(value: &Value, metadata: EventMetadata) -> (r: WireLog)
    ensures
        opt_view(r.value) == Some(encoded(value@)),
        opt_view(r.metadata_full) == Some(metadata_encoded(metadata@)),
{
    WireLog {
        value: Some(encode_value(value)),
        metadata_full: Some(encode_metadata(metadata)),
    }
}

/// The log event in a message.
pub fn decode_log(log: WireLog) -> (r: OtelLog)
    requires
        match opt_view(log.value) {
            Some(v) => readable(v),
            None => true,
        },
        metadata_readable(opt_view(log.metadata_full)),
    ensures
        is_opt_metadata_of(r@.metadata, opt_view(log.metadata_full)),
        r@ == log_from_value(decoded_or(opt_view(log.value), ValueView::Null), r@.metadata),
{
    let metadata = decode_opt_metadata(log.metadata_full);
    let value = decode_or(&log.value, Value::Null);
    OtelLog::from_value_map(value, metadata)
}

/// A span event in a message.
#[derive(Debug, PartialEq)]
pub struct WireTrace {
    pub fields: KeyedMap<WireValue>,
    pub metadata_full: Option<WireMetadata>,
}

#[verifier::ext_equal]
pub struct WireTraceView {
    pub fields: Seq<(Seq<char>, WireView)>,
    pub metadata_full: Option<WireMetadataView>,
}

impl View for WireTrace {
    type V = WireTraceView;

    open spec fn view(&self) -> WireTraceView {
        WireTraceView { fields: self.fields@, metadata_full: opt_view(self.metadata_full) }
    }
}

/// The message with fields and metadata.
pub fn encode_trace(fields: &KeyedMap<Value>, metadata: EventMetadata) -> (r: WireTrace)
    ensures
        r.fields@ == encoded_fields(fields@),
        opt_view(r.metadata_full) == Some(metadata_encoded(metadata@)),
{
    let mut entries: Vec<(String, WireValue)> = Vec::new();
    let mut i: usize = 0;
    while i < fields.entries.len()
        invariant
            i <= fields.entries@.len(),
            entries@.len() == i,
            forall|j: int|
                0 <= j < i ==> (#[trigger] entries@[j]).0@ == fields.entries@[j].0@
                    && entries@[j].1@ == encoded(fields.entries@[j].1@),
        decreases fields.entries@.len() - i,
    {
        entries.push((fields.entries[i].0.clone(), encode_value(&fields.entries[i].1)));
        i = i + 1;
    }
    let map = KeyedMap { entries };
    assert(map@ =~= encoded_fields(fields@));
    WireTrace { fields: map, metadata_full: Some(encode_metadata(metadata)) }
}

/// The fields of a message whose kind is known.
pub open spec fn known_fields(m: Seq<(Seq<char>, WireView)>) -> Seq<(Seq<char>, ValueView)>
    decreases m.len(),
{
    if m.len() == 0 {
        Seq::empty()
    } else {
        match decoded(m.last().1) {
            Some(v) => known_fields(m.drop_last()).push((m.last().0, v)),
            None => known_fields(m.drop_last()),
        }
    }
}

/// The span event in a message. Fields whose kind is not known are passed over.
pub fn decode_trace(trace: WireTrace) -> (r: OtelSpan)
    requires
        forall|i: int| 0 <= i < trace.fields@.len() ==> readable((#[trigger] trace.fields@[i]).1),
        metadata_readable(opt_view(trace.metadata_full)),
    ensures
        is_opt_metadata_of(r@.metadata, opt_view(trace.metadata_full)),
        r@ == span_from_value(ValueView::Object(known_fields(trace.fields@)), r@.metadata),
{
    let metadata = decode_opt_metadata(trace.metadata_full);
    let fields = &trace.fields;
    let ghost all = fields@;
    assert(all.take(0) =~= Seq::empty());
    let mut map: KeyedMap<Value> = KeyedMap::new();
    let mut i: usize = 0;
    while i < fields.entries.len()
        invariant
            i <= fields.entries@.len(),
            all == fields@,
            forall|i: int| 0 <= i < all.len() ==> readable((#[trigger] all[i]).1),
            map@ == known_fields(all.take(i as int)),
        decreases fields.entries@.len() - i,
    {
        assert(all.take(i + 1).drop_last() =~= all.take(i as int));
        assert(all[i as int].1 == fields.entries@[i as int].1@);
        if let Some(v) = decode_value(&fields.entries[i].1) {
            let ghost before = map@;
            map.entries.push((fields.entries[i].0.clone(), v));
            assert(map@ =~= before.push((all[i as int].0, v@)));
        }
        i = i + 1;
    }
    assert(all.take(i as int) =~= all);
    proof {
        lemma_object_view(map);
    }
    OtelSpan::from_value_map(Value::Object(map), metadata)
}

/// The values of a tag in a message.
#[derive(Debug, PartialEq)]
pub struct WireTagValues {
    pub values: Vec<TagValue>,
}

impl View for WireTagValues {
    type V = Seq<Option<Seq<char>>>;

    open spec fn view(&self) -> Seq<Option<Seq<char>>> {
        views(self.values@)
    }
}

/// The value of a metric in a message.
#[derive(Debug, PartialEq)]
pub enum WireMetricValue {
    Counter(u64),
    Gauge(u64),
    SetOf(Vec<String>),
    Distribution2 { samples: Vec<Sample>, statistic: StatisticKind },
    AggregatedHistogram3 { buckets: Vec<Bucket>, count: u64, sum: u64 },
    AggregatedSummary3 { quantiles: Vec<Quantile>, count: u64, sum: u64 },
    /// A value of a form that is no longer supported. Buffers must be drained before it is met.
    Superseded,
}

pub enum WireMetricValueView {
    Counter(u64),
    Gauge(u64),
    SetOf(Seq<Seq<char>>),
    Distribution2 { samples: Seq<Sample>, statistic: StatisticKind },
    AggregatedHistogram3 { buckets: Seq<Bucket>, count: u64, sum: u64 },
    AggregatedSummary3 { quantiles: Seq<Quantile>, count: u64, sum: u64 },
    Superseded,
}

impl View for WireMetricValue {
    type V = WireMetricValueView;

    open spec fn view(&self) -> WireMetricValueView {
        match self {
            WireMetricValue::Counter(v) => WireMetricValueView::Counter(*v),
            WireMetricValue::Gauge(v) => WireMetricValueView::Gauge(*v),
            WireMetricValue::SetOf(values) => WireMetricValueView::SetOf(views(values@)),
            WireMetricValue::Distribution2 { samples, statistic } =>
                WireMetricValueView::Distribution2 { samples: samples@, statistic: *statistic },
            WireMetricValue::AggregatedHistogram3 { buckets, count, sum } =>
                WireMetricValueView::AggregatedHistogram3 {
                buckets: buckets@,
                count: *count,
                sum: *sum,
            },
            WireMetricValue::AggregatedSummary3 { quantiles, count, sum } =>
                WireMetricValueView::AggregatedSummary3 {
                quantiles: quantiles@,
                count: *count,
                sum: *sum,
            },
            WireMetricValue::Superseded => WireMetricValueView::Superseded,
        }
    }
}

/// The value of a metric as it stands in a message.
pub open spec fn metric_value_encoded(v: MetricValueView) -> WireMetricValueView {
    match v {
        MetricValueView::Counter { value } => WireMetricValueView::Counter(value),
        MetricValueView::Gauge { value } => WireMetricValueView::Gauge(value),
        MetricValueView::SetOf { values } => WireMetricValueView::SetOf(values),
        MetricValueView::Distribution { samples, statistic } => WireMetricValueView::Distribution2 {
            samples,
            statistic,
        },
        MetricValueView::AggregatedHistogram { buckets, count, sum } =>
            WireMetricValueView::AggregatedHistogram3 { buckets, count, sum },
        MetricValueView::AggregatedSummary { quantiles, count, sum } =>
            WireMetricValueView::AggregatedSummary3 { quantiles, count, sum },
    }
}

/// The value of a metric as it stands in a message.
pub fn encode_metric_value(value: MetricValue) -> (r: WireMetricValue)
    ensures
        r@ == metric_value_encoded(value@),
{
    match value {
        MetricValue::Counter { value } => WireMetricValue::Counter(value),
        MetricValue::Gauge { value } => WireMetricValue::Gauge(value),
        MetricValue::SetOf { values } => WireMetricValue::SetOf(values),
        MetricValue::Distribution { samples, statistic } => WireMetricValue::Distribution2 {
            samples,
            statistic,
        },
        MetricValue::AggregatedHistogram { buckets, count, sum } =>
            WireMetricValue::AggregatedHistogram3 { buckets, count, sum },
        MetricValue::AggregatedSummary { quantiles, count, sum } =>
            WireMetricValue::AggregatedSummary3 { quantiles, count, sum },
    }
}

/// Texts in order, none of them twice.
pub open spec fn sorted_texts(texts: Seq<Seq<char>>) -> Seq<Seq<char>> {
    Seq::new(keys_of(texts).len(), |i: int| keys_of(texts)[i].0)
}

/// Texts in order, none of them twice.
pub fn sort_texts(texts: &Vec<String>) -> (r: Vec<String>)
    ensures
        views(r@) == sorted_texts(views(texts@)),
{
    let r = key_list(&collect_keys(texts));
    assert(views(r@) =~= sorted_texts(views(texts@)));
    r
}

/// The value of a metric in a message. One of a form that is no longer supported is a gauge at zero.
pub open spec fn metric_value_decoded(w: WireMetricValueView) -> MetricValueView {
    match w {
        WireMetricValueView::Counter(value) => MetricValueView::Counter { value },
        WireMetricValueView::Gauge(value) => MetricValueView::Gauge { value },
        WireMetricValueView::SetOf(values) => MetricValueView::SetOf { values: sorted_texts(values) },
        WireMetricValueView::Distribution2 { samples, statistic } => MetricValueView::Distribution {
            samples,
            statistic,
        },
        WireMetricValueView::AggregatedHistogram3 { buckets, count, sum } =>
            MetricValueView::AggregatedHistogram { buckets, count, sum },
        WireMetricValueView::AggregatedSummary3 { quantiles, count, sum } =>
            MetricValueView::AggregatedSummary { quantiles, count, sum },
        WireMetricValueView::Superseded => MetricValueView::Gauge { value: 0 },
    }
}

/// The value of a metric in a message.
pub fn decode_metric_value(value: WireMetricValue) -> (r: MetricValue)
    ensures
        r@ == metric_value_decoded(value@),
{
    match value {
        WireMetricValue::Counter(value) => MetricValue::Counter { value },
        WireMetricValue::Gauge(value) => MetricValue::Gauge { value },
        WireMetricValue::SetOf(values) => MetricValue::SetOf { values: sort_texts(&values) },
        WireMetricValue::Distribution2 { samples, statistic } => MetricValue::Distribution {
            samples,
            statistic,
        },
        WireMetricValue::AggregatedHistogram3 { buckets, count, sum } =>
            MetricValue::AggregatedHistogram { buckets, count, sum },
        WireMetricValue::AggregatedSummary3 { quantiles, count, sum } =>
            MetricValue::AggregatedSummary { quantiles, count, sum },
        WireMetricValue::Superseded => MetricValue::Gauge { value: 0 },
    }
}

/// A metric in a message.
#[derive(Debug, PartialEq)]
pub struct WireMetric {
    pub name: String,
    pub namespace: String,
    /// The seconds since the Unix epoch and the nanoseconds within the second.
    pub timestamp: Option<(i64, i32)>,
    pub tags_v2: KeyedMap<WireTagValues>,
    pub kind: MetricKind,
    pub interval_ms: u32,
    pub value: Option<WireMetricValue>,
    pub metadata_full: Option<WireMetadata>,
}

#[verifier::ext_equal]
pub struct WireMetricView {
    pub name: Seq<char>,
    pub namespace: Seq<char>,
    pub timestamp: Option<(i64, i32)>,
    pub tags_v2: Seq<(Seq<char>, Seq<Option<Seq<char>>>)>,
    pub kind: MetricKind,
    pub interval_ms: u32,
    pub value: Option<WireMetricValueView>,
    pub metadata_full: Option<WireMetadataView>,
}

impl View for WireMetric {
    type V = WireMetricView;

    open spec fn view(&self) -> WireMetricView {
        WireMetricView {
            name: self.name@,
            namespace: self.namespace@,
            timestamp: self.timestamp,
            tags_v2: self.tags_v2@,
            kind: self.kind,
            interval_ms: self.interval_ms,
            value: opt_view(self.value),
            metadata_full: opt_view(self.metadata_full),
        }
    }
}

/// The metric as it stands in a message.
pub open spec fn metric_encoded(s: MetricSeriesView, d: MetricDataView, m: MetadataView) -> WireMetricView {
    WireMetricView {
        name: s.name,
        namespace: match s.namespace {
            Some(ns) => ns,
            None => Seq::empty(),
        },
        timestamp: match d.timestamp {
            Some(t) => Some((t.spec_secs(), t.spec_nanos() as i32)),
            None => None,
        },
        tags_v2: match s.tags {
            Some(t) => t,
            None => Seq::empty(),
        },
        kind: d.kind,
        interval_ms: match d.interval_ms {
            Some(ms) => ms,
            None => 0,
        },
        value: Some(metric_value_encoded(d.value)),
        metadata_full: Some(metadata_encoded(m)),
    }
}

/// The metric as it stands in a message.
pub fn encode_metric(series: MetricSeries, data: MetricData, metadata: EventMetadata) -> (r: WireMetric)
    ensures
        r@ == metric_encoded(series@, data@, metadata@),
{
    let tags = match series.tags {
        Some(t) => t,
        None => MetricTags::default(),
    };
    let mut entries: Vec<(String, WireTagValues)> = Vec::new();
    let ghost all = tags@;
    for entry in it: tags.tags.entries
        invariant
            it.seq() == tags.tags.entries@,
            all == tags@,
            entries@.len() == it.index(),
            forall|j: int|
                0 <= j < entries@.len() ==> (#[trigger] entries@[j]).0@ == all[j].0
                    && entries@[j].1@ == all[j].1,
    {
        entries.push((entry.0, WireTagValues { values: entry.1.values }));
    }
    let tags_v2 = KeyedMap { entries };
    assert(tags_v2@ =~= all);
    WireMetric {
        name: series.name.name,
        namespace: match series.name.namespace {
            Some(ns) => ns,
            None => String::new(),
        },
        timestamp: match data.time.timestamp {
            Some(t) => Some((t.timestamp(), t.timestamp_subsec_nanos() as i32)),
            None => None,
        },
        tags_v2,
        kind: data.kind,
        interval_ms: match data.time.interval_ms {
            Some(ms) => ms,
            None => 0,
        },
        value: Some(encode_metric_value(data.value)),
        metadata_full: Some(encode_metadata(metadata)),
    }
}

/// Whether a metric in a message has a value, and its time exists.
pub open spec fn metric_readable(w: WireMetricView) -> bool {
    &&& w.value is Some
    &&& match w.timestamp {
        Some(t) => is_instant(t.0 as int, t.1 as int),
        None => true,
    }
    &&& metadata_readable(w.metadata_full)
}

/// The tags in a message. A value that a tag has twice counts once.
pub open spec fn tags_decoded(tags: Seq<(Seq<char>, Seq<Option<Seq<char>>>)>) -> Option<
    Seq<(Seq<char>, Seq<Option<Seq<char>>>)>,
> {
    if tags.len() == 0 {
        None
    } else {
        Some(Seq::new(tags.len(), |i: int| (tags[i].0, values_collected(tags[i].1))))
    }
}

/// The name and the tags of a metric in a message.
pub open spec fn series_decoded(w: WireMetricView) -> MetricSeriesView {
    MetricSeriesView {
        name: w.name,
        namespace: if w.namespace.len() == 0 {
            None
        } else {
            Some(w.namespace)
        },
        tags: tags_decoded(w.tags_v2),
    }
}

/// The data of a metric in a message.
pub open spec fn data_decoded(w: WireMetricView) -> MetricDataView {
    MetricDataView {
        timestamp: match w.timestamp {
            Some(t) => Some(Timestamp::at(t.0, t.1 as u32)),
            None => None,
        },
        interval_ms: if w.interval_ms == 0 {
            None
        } else {
            Some(w.interval_ms)
        },
        kind: w.kind,
        value: metric_value_decoded(w.value->0),
    }
}

/// The metric in a message.
pub fn decode_metric(metric: WireMetric) -> (r: (MetricSeries, MetricData, EventMetadata))
    requires
        metric_readable(metric@),
    ensures
        r.0@ == series_decoded(metric@),
        r.1@ == data_decoded(metric@),
        is_opt_metadata_of(r.2@, metric@.metadata_full),
{
    let namespace = if metric.namespace.as_str().is_empty() {
        None
    } else {
        Some(metric.namespace)
    };
    let timestamp = match metric.timestamp {
        Some(t) => Timestamp::from_timestamp(t.0, t.1 as u32),
        None => None,
    };
    let ghost all = metric.tags_v2@;
    let mut entries: Vec<(String, TagValueSet)> = Vec::new();
    for entry in it: metric.tags_v2.entries
        invariant
            it.seq() == metric.tags_v2.entries@,
            all == metric.tags_v2@,
            entries@.len() == it.index(),
            forall|j: int|
                0 <= j < entries@.len() ==> (#[trigger] entries@[j]).0@ == all[j].0
                    && entries@[j].1@ == values_collected(all[j].1),
    {
        entries.push((entry.0, TagValueSet::from_values(entry.1.values)));
    }
    let tags = if entries.len() == 0 {
        None
    } else {
        let tags = MetricTags { tags: KeyedMap { entries } };
        assert(tags@ =~= tags_decoded(all)->0);
        Some(tags)
    };
    let value = match metric.value {
        Some(v) => decode_metric_value(v),
        None => MetricValue::Gauge { value: 0 },
    };
    let interval_ms = if metric.interval_ms == 0 {
        None
    } else {
        Some(metric.interval_ms)
    };
    (
        MetricSeries { name: MetricName { name: metric.name, namespace }, tags },
        MetricData { time: MetricTime { timestamp, interval_ms }, kind: metric.kind, value },
        decode_opt_metadata(metric.metadata_full),
    )
}

} // verus!
