//! Metric events made from metric values.
use vstd::prelude::*;

use crate::any_value::{
    kvs_view, lemma_any_array_view, string_value, AnyValue, AnyView, ArrayValue, KeyValue,
    OtelValueKind,
};
use crate::double::{double_from_u64, double_of_nat, is_same, same};
use crate::keyed::{opt_view, views};
use crate::log::{opt_resource_stripped, resource_attrs_of};
use crate::metadata::{EventMetadata, MetadataView};
use crate::metric::{OtelMetric, OtelMetricView};
use crate::metric_data::{
    MetricData, MetricDataView, MetricSeries, MetricSeriesView, MetricValue, MetricValueView,
};
use crate::metric_kind::{
    sum_rates, total_rate, Bucket, MetricKind, Quantile, Sample, StatisticKind,
};
use crate::metric_tags::{any_from_tag_values, tag_set_to_any, MetricTags};
use crate::otlp::{Resource, ResourceView};
use crate::otlp_metric::{
    Data, DataView, Gauge, GaugeView, Histogram, HistogramDataPoint, HistogramDataPointView,
    HistogramView, Metric, MetricMessageView, NumberDataPoint, NumberDataPointView, NumberValue,
    Sum, SumView, Summary, SummaryDataPoint, SummaryDataPointView, SummaryView, ValueAtQuantile,
    ValueAtQuantileView,
};
use crate::time::{nanos_since_epoch, to_u64, wrap_u64, Timestamp};

verus! {

/// The bits of positive infinity.
pub const INFINITY: u64 = 0x7ff0_0000_0000_0000;

/// Whether `sum` sums up the values of samples, each as often as it was measured, to what `total`
/// says.
pub open spec fn sums<F: Fn(&Vec<Sample>) -> u64>(
    sum: F,
    total: spec_fn(Seq<Sample>) -> u64,
) -> bool {
    forall|v: &Vec<Sample>, r: u64| #[trigger] call_ensures(sum, (v,), r) ==> r == total(v@)
}

/// Whether `sum` may give what `total` says of samples.
pub open spec fn total_drawn<F: Fn(&Vec<Sample>) -> u64>(
    sum: F,
    samples: Seq<Sample>,
    total: spec_fn(Seq<Sample>) -> u64,
) -> bool {
    exists|v: &Vec<Sample>| v@ == samples && #[trigger] call_ensures(sum, (v,), total(samples))
}

/// The function that gives one total for any samples.
pub open spec fn total_of(t: u64) -> spec_fn(Seq<Sample>) -> u64 {
    |samples: Seq<Sample>| t
}

/// A metric with only a name and data.
pub open spec fn named(name: Seq<char>, data: DataView) -> MetricMessageView {
    MetricMessageView { name, data: Some(data), ..MetricMessageView::default_view() }
}

/// A data point with only a double as its value.
pub open spec fn double_point(value: u64) -> NumberDataPointView {
    NumberDataPointView {
        value: Some(NumberValue::AsDouble(value)),
        ..NumberDataPointView::default_view()
    }
}

/// The data of a counter.
pub open spec fn counter_data(temporality: i32, point: NumberDataPointView) -> DataView {
    DataView::Sum(
        SumView {
            data_points: seq![point],
            aggregation_temporality: temporality,
            is_monotonic: true,
        },
    )
}

/// The data of a gauge.
pub open spec fn gauge_data(point: NumberDataPointView) -> DataView {
    DataView::Gauge(GaugeView { data_points: seq![point] })
}

/// The data of a histogram.
pub open spec fn histogram_data(temporality: i32, point: HistogramDataPointView) -> DataView {
    DataView::Histogram(
        HistogramView { data_points: seq![point], aggregation_temporality: temporality },
    )
}

/// The data of a summary.
pub open spec fn summary_data(point: SummaryDataPointView) -> DataView {
    DataView::Summary(SummaryView { data_points: seq![point] })
}

/// The counts of buckets.
pub open spec fn counts_of(buckets: Seq<Bucket>) -> Seq<u64> {
    Seq::new(buckets.len(), |i: int| buckets[i].count)
}

/// The limits of buckets.
pub open spec fn limits_of(buckets: Seq<Bucket>) -> Seq<u64> {
    Seq::new(buckets.len(), |i: int| buckets[i].upper_limit)
}

/// The limits of buckets without an infinite one at the end.
pub open spec fn finite_limits(limits: Seq<u64>) -> Seq<u64> {
    if limits.len() > 0 && same(limits.last(), INFINITY) {
        limits.drop_last()
    } else {
        limits
    }
}

/// Quantiles as they stand in a message.
pub open spec fn quantile_values(quantiles: Seq<Quantile>) -> Seq<ValueAtQuantileView> {
    Seq::new(
        quantiles.len(),
        |i: int|
            ValueAtQuantileView { quantile: quantiles[i].quantile, value: quantiles[i].value },
    )
}

/// The rates of samples.
pub open spec fn rates_of(samples: Seq<Sample>) -> Seq<u64> {
    Seq::new(samples.len(), |i: int| samples[i].rate as u64)
}

/// The values of samples.
pub open spec fn values_of(samples: Seq<Sample>) -> Seq<u64> {
    Seq::new(samples.len(), |i: int| samples[i].value)
}

/// A list of texts as an attribute value.
pub open spec fn any_from_texts(texts: Seq<Seq<char>>) -> AnyView {
    AnyView::Array(Seq::new(texts.len(), |i: int| AnyView::Str(texts[i])))
}

/// A named attribute that is a text.
pub open spec fn text_attribute(key: Seq<char>, text: Seq<char>) -> (Seq<char>, Option<AnyView>) {
    (key, Some(AnyView::Str(text)))
}

/// Tags as named attributes.
pub open spec fn tag_attributes(tags: Option<Seq<(Seq<char>, Seq<Option<Seq<char>>>)>>) -> Seq<
    (Seq<char>, Option<AnyView>),
> {
    match tags {
        Some(tags) => Seq::new(
            tags.len(),
            |i: int| (tags[i].0, Some(any_from_tag_values(tags[i].1))),
        ),
        None => Seq::empty(),
    }
}

/// The nanoseconds since the Unix epoch of an instant that may be missing.
pub open spec fn nanos_at(t: Option<Timestamp>) -> Option<i64> {
    match t {
        Some(t) => nanos_since_epoch(t.spec_secs() as int, t.spec_nanos() as int),
        None => None,
    }
}

impl MetricDataView {
    /// Whether `sum` may give what `total` says of the samples of the metric, where it has any.
    pub open spec fn is_totalled<F: Fn(&Vec<Sample>) -> u64>(
        &self,
        sum: F,
        total: spec_fn(Seq<Sample>) -> u64,
    ) -> bool {
        self.value matches MetricValueView::Distribution { samples, .. } ==> total_drawn(
            sum,
            samples,
            total,
        )
    }

    /// When the metric was taken, in nanoseconds since the Unix epoch; zero where that is unknown.
    pub open spec fn time_nanos(&self) -> u64 {
        match nanos_at(self.timestamp) {
            Some(n) => wrap_u64(n as int),
            None => 0,
        }
    }

    /// When the interval of the metric began, in nanoseconds since the Unix epoch; zero where that
    /// is unknown.
    pub open spec fn start_nanos(&self) -> u64 {
        match (self.interval_ms, nanos_at(self.timestamp)) {
            (Some(ms), Some(n)) => if wrap_u64(n as int) >= ms * 1_000_000 {
                (wrap_u64(n as int) - ms * 1_000_000) as u64
            } else {
                0
            },
            _ => 0,
        }
    }

    /// A data point of the metric.
    pub open spec fn number_point(
        &self,
        attributes: Seq<(Seq<char>, Option<AnyView>)>,
        value: u64,
    ) -> NumberDataPointView {
        NumberDataPointView {
            attributes,
            start_time_unix_nano: self.start_nanos(),
            time_unix_nano: self.time_nanos(),
            ..double_point(value)
        }
    }

    /// A histogram of the metric.
    pub open spec fn histogram_point(
        &self,
        attributes: Seq<(Seq<char>, Option<AnyView>)>,
        count: u64,
        sum: u64,
        bucket_counts: Seq<u64>,
        explicit_bounds: Seq<u64>,
    ) -> HistogramDataPointView {
        HistogramDataPointView {
            attributes,
            start_time_unix_nano: self.start_nanos(),
            time_unix_nano: self.time_nanos(),
            count,
            sum: Some(sum),
            bucket_counts,
            explicit_bounds,
            ..HistogramDataPointView::default_view()
        }
    }

    /// The metric as it stands in a message. What a message has no place for becomes an attribute.
    pub open spec fn message_data(
        &self,
        attributes: Seq<(Seq<char>, Option<AnyView>)>,
        total: spec_fn(Seq<Sample>) -> u64,
    ) -> DataView {
        match self.value {
            MetricValueView::Counter { value } => counter_data(
                self.kind.as_temporality(),
                self.number_point(attributes, value),
            ),
            MetricValueView::Gauge { value } => gauge_data(
                self.number_point(
                    if self.kind == MetricKind::Incremental {
                        attributes.push(text_attribute("vector.metric_kind"@, "incremental"@))
                    } else {
                        attributes
                    },
                    value,
                ),
            ),
            MetricValueView::SetOf { values } => gauge_data(
                self.number_point(
                    attributes.push(text_attribute("vector.metric_type"@, "set"@)).push(
                        text_attribute("vector.metric_kind"@, self.kind.word()),
                    ).push(("vector.set_values"@, Some(any_from_texts(values)))),
                    double_of_nat(values.len()) as u64,
                ),
            ),
            MetricValueView::Distribution { samples, statistic } => histogram_data(
                self.kind.as_temporality(),
                self.histogram_point(
                    attributes.push(text_attribute("vector.metric_type"@, "distribution"@)).push(
                        text_attribute("vector.statistic"@, statistic.word()),
                    ),
                    total_rate(samples) as u64,
                    total(samples),
                    rates_of(samples),
                    values_of(samples),
                ),
            ),
            MetricValueView::AggregatedHistogram { buckets, count, sum } => histogram_data(
                self.kind.as_temporality(),
                self.histogram_point(
                    attributes,
                    count,
                    sum,
                    counts_of(buckets),
                    finite_limits(limits_of(buckets)),
                ),
            ),
            MetricValueView::AggregatedSummary { quantiles, count, sum } => summary_data(
                SummaryDataPointView {
                    attributes,
                    start_time_unix_nano: self.start_nanos(),
                    time_unix_nano: self.time_nanos(),
                    count,
                    sum,
                    quantile_values: quantile_values(quantiles),
                    flags: 0,
                },
            ),
        }
    }
}

/// The resource that names the namespace of a metric.
pub open spec fn namespace_resource(namespace: Option<Seq<char>>) -> Option<ResourceView> {
    match namespace {
        Some(ns) => Some(
            ResourceView {
                attributes: seq![text_attribute("metric.namespace"@, ns)],
                dropped_attributes_count: 0,
            },
        ),
        None => None,
    }
}

/// The metric event for a metric value.
pub open spec fn metric_of_parts(
    series: MetricSeriesView,
    data: MetricDataView,
    metadata: MetadataView,
    total: spec_fn(Seq<Sample>) -> u64,
) -> OtelMetricView {
    OtelMetricView {
        resource: opt_resource_stripped(namespace_resource(series.namespace)),
        resource_attrs: resource_attrs_of(namespace_resource(series.namespace)),
        ..OtelMetricView::of_metric(
            named(series.name, data.message_data(tag_attributes(series.tags), total)),
            metadata,
        )
    }
}

fn push_text(kvs: &mut Vec<KeyValue>, key: &str, text: &str)
    ensures
        kvs_view(final(kvs)@) == kvs_view(old(kvs)@).push(text_attribute(key@, text@)),
{
    kvs.push(KeyValue { key: key.to_owned(), value: Some(string_value(text)) });
    assert(kvs_view(kvs@) =~= kvs_view(old(kvs)@).push(text_attribute(key@, text@)));
}

/// A list of texts as an attribute value.
pub fn texts_to_any(texts: &Vec<String>) -> (r: AnyValue)
    ensures
        r@ == any_from_texts(views(texts@)),
{
    let mut values: Vec<AnyValue> = Vec::new();
    let mut i: usize = 0;
    while i < texts.len()
        invariant
            i <= texts@.len(),
            values@.len() == i,
            forall|j: int| 0 <= j < i ==> (#[trigger] values@[j])@ == AnyView::Str(texts@[j]@),
        decreases texts@.len() - i,
    {
        values.push(string_value(texts[i].as_str()));
        i = i + 1;
    }
    let list = ArrayValue { values };
    proof {
        lemma_any_array_view(list);
    }
    let r = AnyValue { value: Some(OtelValueKind::ArrayValue(list)) };
    assert(r@->Array_0 =~= any_from_texts(views(texts@))->Array_0);
    r
}

/// Tags as named attributes.
fn tags_to_kvs(tags: &Option<MetricTags>) -> (r: Vec<KeyValue>)
    ensures
        kvs_view(r@) == tag_attributes(opt_view(*tags)),
{
    let mut kvs: Vec<KeyValue> = Vec::new();
    if let Some(t) = tags {
        let mut i: usize = 0;
        while i < t.tags.entries.len()
            invariant
                i <= t.tags.entries@.len(),
                kvs@.len() == i,
                forall|j: int|
                    0 <= j < i ==> (#[trigger] kvs@[j])@ == (
                        t@[j].0,
                        Some(any_from_tag_values(t@[j].1)),
                    ),
            decreases t.tags.entries@.len() - i,
        {
            kvs.push(
                KeyValue {
                    key: t.tags.entries[i].0.clone(),
                    value: Some(tag_set_to_any(&t.tags.entries[i].1)),
                },
            );
            i = i + 1;
        }
    }
    assert(kvs_view(kvs@) =~= tag_attributes(opt_view(*tags)));
    kvs
}

/// The counts and the limits of buckets.
fn split_buckets(buckets: &Vec<Bucket>) -> (r: (Vec<u64>, Vec<u64>))
    ensures
        r.0@ == counts_of(buckets@),
        r.1@ == limits_of(buckets@),
{
    let mut counts: Vec<u64> = Vec::new();
    let mut limits: Vec<u64> = Vec::new();
    let mut i: usize = 0;
    while i < buckets.len()
        invariant
            i <= buckets@.len(),
            counts@.len() == i,
            limits@.len() == i,
            forall|j: int| 0 <= j < i ==> #[trigger] counts@[j] == buckets@[j].count,
            forall|j: int| 0 <= j < i ==> #[trigger] limits@[j] == buckets@[j].upper_limit,
        decreases buckets@.len() - i,
    {
        counts.push(buckets[i].count);
        limits.push(buckets[i].upper_limit);
        i = i + 1;
    }
    assert(counts@ =~= counts_of(buckets@));
    assert(limits@ =~= limits_of(buckets@));
    (counts, limits)
}

/// The rates and the values of samples.
fn split_samples(samples: &Vec<Sample>) -> (r: (Vec<u64>, Vec<u64>))
    ensures
        r.0@ == rates_of(samples@),
        r.1@ == values_of(samples@),
{
    let mut rates: Vec<u64> = Vec::new();
    let mut values: Vec<u64> = Vec::new();
    let mut i: usize = 0;
    while i < samples.len()
        invariant
            i <= samples@.len(),
            rates@.len() == i,
            values@.len() == i,
            forall|j: int| 0 <= j < i ==> #[trigger] rates@[j] == samples@[j].rate as u64,
            forall|j: int| 0 <= j < i ==> #[trigger] values@[j] == samples@[j].value,
        decreases samples@.len() - i,
    {
        rates.push(samples[i].rate as u64);
        values.push(samples[i].value);
        i = i + 1;
    }
    assert(rates@ =~= rates_of(samples@));
    assert(values@ =~= values_of(samples@));
    (rates, values)
}

/// Quantiles as they stand in a message.
fn message_quantiles(quantiles: &Vec<Quantile>) -> (r: Vec<ValueAtQuantile>)
    ensures
        views(r@) == quantile_values(quantiles@),
{
    let mut out: Vec<ValueAtQuantile> = Vec::new();
    let mut i: usize = 0;
    while i < quantiles.len()
        invariant
            i <= quantiles@.len(),
            out@.len() == i,
            forall|j: int|
                0 <= j < i ==> (#[trigger] out@[j])@ == (ValueAtQuantileView {
                    quantile: quantiles@[j].quantile,
                    value: quantiles@[j].value,
                }),
        decreases quantiles@.len() - i,
    {
        out.push(ValueAtQuantile { quantile: quantiles[i].quantile, value: quantiles[i].value });
        i = i + 1;
    }
    assert(views(out@) =~= quantile_values(quantiles@));
    out
}

fn counter(temporality: i32, point: NumberDataPoint) -> (r: Data)
    ensures
        r@ == counter_data(temporality, point@),
{
    let sum = Sum {
        data_points: vec![point],
        aggregation_temporality: temporality,
        is_monotonic: true,
    };
    assert(views(sum.data_points@) =~= seq![point@]);
    Data::Sum(sum)
}

fn gauge(point: NumberDataPoint) -> (r: Data)
    ensures
        r@ == gauge_data(point@),
{
    let gauge = Gauge { data_points: vec![point] };
    assert(views(gauge.data_points@) =~= seq![point@]);
    Data::Gauge(gauge)
}

fn histogram(temporality: i32, point: HistogramDataPoint) -> (r: Data)
    ensures
        r@ == histogram_data(temporality, point@),
{
    let histogram = Histogram { data_points: vec![point], aggregation_temporality: temporality };
    assert(views(histogram.data_points@) =~= seq![point@]);
    Data::Histogram(histogram)
}

fn summary(point: SummaryDataPoint) -> (r: Data)
    ensures
        r@ == summary_data(point@),
{
    let summary = Summary { data_points: vec![point] };
    assert(views(summary.data_points@) =~= seq![point@]);
    Data::Summary(summary)
}

fn metric_named(name: String, data: Data) -> (r: Metric)
    ensures
        r@ == named(name@, data@),
{
    Metric { name, data: Some(data), ..Metric::default() }
}

impl MetricData {
    fn exec_time_nanos(&self) -> (r: u64)
        ensures
            r == self@.time_nanos(),
    {
        match &self.time.timestamp {
            Some(t) => match t.timestamp_nanos_opt() {
                Some(n) => to_u64(n),
                None => 0,
            },
            None => 0,
        }
    }

    fn exec_start_nanos(&self) -> (r: u64)
        ensures
            r == self@.start_nanos(),
    {
        match (self.time.interval_ms, &self.time.timestamp) {
            (Some(ms), Some(t)) => match t.timestamp_nanos_opt() {
                Some(n) => {
                    let end: u64 = to_u64(n);
                    let interval: u64 = ms as u64 * 1_000_000;
                    if end >= interval {
                        end - interval
                    } else {
                        0
                    }
                },
                None => 0,
            },
            _ => 0,
        }
    }

    fn exec_number_point(&self, attributes: Vec<KeyValue>, value: u64) -> (r: NumberDataPoint)
        ensures
            r@ == self@.number_point(kvs_view(attributes@), value),
    {
        NumberDataPoint {
            attributes,
            start_time_unix_nano: self.exec_start_nanos(),
            time_unix_nano: self.exec_time_nanos(),
            value: Some(NumberValue::AsDouble(value)),
            ..NumberDataPoint::default()
        }
    }

    fn exec_histogram_point(
        &self,
        attributes: Vec<KeyValue>,
        count: u64,
        sum: u64,
        bucket_counts: Vec<u64>,
        explicit_bounds: Vec<u64>,
    ) -> (r: HistogramDataPoint)
        ensures
            r@ == self@.histogram_point(
                kvs_view(attributes@),
                count,
                sum,
                bucket_counts@,
                explicit_bounds@,
            ),
    {
        HistogramDataPoint {
            attributes,
            start_time_unix_nano: self.exec_start_nanos(),
            time_unix_nano: self.exec_time_nanos(),
            count,
            sum: Some(sum),
            bucket_counts,
            explicit_bounds,
            ..HistogramDataPoint::default()
        }
    }

    /// Whether the rates of the samples in the value add up within 32 bits, and `sum` can sum them
    /// up.
    pub open spec fn can_be_summed<F: Fn(&Vec<Sample>) -> u64>(&self, sum: F) -> bool {
        self.value matches MetricValue::Distribution { samples, .. } ==> total_rate(samples@)
            <= u32::MAX && call_requires(sum, (&samples,))
    }

    /// The metric as it stands in a message. What a message has no place for becomes an attribute.
    fn to_message_data<F: Fn(&Vec<Sample>) -> u64>(&self, attributes: Vec<KeyValue>, sum: F) -> (r:
        Data)
        requires
            self.can_be_summed(sum),
        ensures
            forall|total: spec_fn(Seq<Sample>) -> u64| #[trigger]
                sums(sum, total) ==> r@ == self@.message_data(kvs_view(attributes@), total),
            exists|total: spec_fn(Seq<Sample>) -> u64|
                r@ == #[trigger] self@.message_data(kvs_view(attributes@), total)
                    && self@.is_totalled(sum, total),
    {
        let ghost given = kvs_view(attributes@);
        let ghost mut drawn: u64 = 0;
        let mut attributes = attributes;
        let temporality = self.kind.temporality();
        let r = match &self.value {
            MetricValue::Counter { value } => counter(
                temporality,
                self.exec_number_point(attributes, *value),
            ),
            MetricValue::Gauge { value } => {
                if self.kind == MetricKind::Incremental {
                    push_text(&mut attributes, "vector.metric_kind", "incremental");
                }
                gauge(self.exec_number_point(attributes, *value))
            },
            MetricValue::SetOf { values } => {
                push_text(&mut attributes, "vector.metric_type", "set");
                push_text(&mut attributes, "vector.metric_kind", self.kind.as_str());
                let ghost before = kvs_view(attributes@);
                attributes.push(
                    KeyValue {
                        key: "vector.set_values".to_owned(),
                        value: Some(texts_to_any(values)),
                    },
                );
                assert(kvs_view(attributes@) =~= before.push(
                    ("vector.set_values"@, Some(any_from_texts(views(values@)))),
                ));
                gauge(self.exec_number_point(attributes, double_from_u64(values.len() as u64)))
            },
            MetricValue::Distribution { samples, statistic } => {
                push_text(&mut attributes, "vector.metric_type", "distribution");
                push_text(&mut attributes, "vector.statistic", statistic.as_str());
                let (rates, values) = split_samples(samples);
                let count = sum_rates(samples);
                let total = sum(samples);
                proof {
                    drawn = total;
                    assert(call_ensures(sum, (samples,), total_of(total)(samples@)));
                }
                histogram(
                    temporality,
                    self.exec_histogram_point(attributes, count, total, rates, values),
                )
            },
            MetricValue::AggregatedHistogram { buckets, count, sum: total } => {
                let (counts, mut limits) = split_buckets(buckets);
                if limits.len() > 0 && is_same(limits[limits.len() - 1], INFINITY) {
                    limits.pop();
                }
                histogram(
                    temporality,
                    self.exec_histogram_point(attributes, *count, *total, counts, limits),
                )
            },
            MetricValue::AggregatedSummary { quantiles, count, sum: total } => summary(
                SummaryDataPoint {
                    attributes,
                    start_time_unix_nano: self.exec_start_nanos(),
                    time_unix_nano: self.exec_time_nanos(),
                    count: *count,
                    sum: *total,
                    quantile_values: message_quantiles(quantiles),
                    flags: 0,
                },
            ),
        };
        assert(r@ == self@.message_data(given, total_of(drawn)));
        r
    }
}

/// A histogram data point with only counts.
pub open spec fn plain_histogram(
    count: u64,
    sum: u64,
    bucket_counts: Seq<u64>,
    explicit_bounds: Seq<u64>,
) -> HistogramDataPointView {
    HistogramDataPointView {
        count,
        sum: Some(sum),
        bucket_counts,
        explicit_bounds,
        ..HistogramDataPointView::default_view()
    }
}

impl OtelMetricView {
    /// The event of a histogram with a bucket for each sample.
    pub open spec fn of_samples(
        name: Seq<char>,
        kind: MetricKind,
        samples: Seq<Sample>,
        total: u64,
        metadata: MetadataView,
    ) -> OtelMetricView {
        OtelMetricView::of_metric(
            named(
                name,
                histogram_data(
                    kind.as_temporality(),
                    plain_histogram(
                        total_rate(samples) as u64,
                        total,
                        rates_of(samples),
                        values_of(samples),
                    ),
                ),
            ),
            metadata,
        )
    }

    /// The event of a distribution.
    pub open spec fn of_distribution(
        name: Seq<char>,
        kind: MetricKind,
        samples: Seq<Sample>,
        statistic: StatisticKind,
        total: u64,
        metadata: MetadataView,
    ) -> OtelMetricView {
        OtelMetricView::of_samples(name, kind, samples, total, metadata).with_point_attribute(
            "vector.metric_type"@,
            AnyView::Str("distribution"@),
        ).with_point_attribute("vector.statistic"@, AnyView::Str(statistic.word()))
    }

    /// The gauge event with a value.
    pub open spec fn of_gauge(name: Seq<char>, value: u64, metadata: MetadataView) -> OtelMetricView {
        OtelMetricView::of_metric(named(name, gauge_data(double_point(value))), metadata)
    }
}

impl OtelMetric {
    /// Convenience constructor for a counter metric.
    pub fn new_counter(name: String, kind: MetricKind, value: u64) -> (r: Self)
        ensures
            r@ == OtelMetricView::of_metric(
                named(name@, counter_data(kind.as_temporality(), double_point(value))),
                r@.metadata,
            ),
            r@.metadata.is_default(),
    {
        let point = NumberDataPoint {
            value: Some(NumberValue::AsDouble(value)),
            ..NumberDataPoint::default()
        };
        OtelMetric::new(metric_named(name, counter(kind.temporality(), point)))
    }

    /// Convenience constructor for a gauge metric.
    pub fn new_gauge(name: String, value: u64) -> (r: Self)
        ensures
            r@ == OtelMetricView::of_gauge(name@, value, r@.metadata),
            r@.metadata.is_default(),
    {
        let point = NumberDataPoint {
            value: Some(NumberValue::AsDouble(value)),
            ..NumberDataPoint::default()
        };
        OtelMetric::new(metric_named(name, gauge(point)))
    }

    /// Convenience constructor for an aggregated histogram metric.
    pub fn new_histogram(
        name: String,
        kind: MetricKind,
        buckets: &Vec<Bucket>,
        count: u64,
        sum: u64,
    ) -> (r: Self)
        ensures
            r@ == OtelMetricView::of_metric(
                named(
                    name@,
                    histogram_data(
                        kind.as_temporality(),
                        plain_histogram(count, sum, counts_of(buckets@), limits_of(buckets@)),
                    ),
                ),
                r@.metadata,
            ),
            r@.metadata.is_default(),
    {
        let (bucket_counts, explicit_bounds) = split_buckets(buckets);
        let point = HistogramDataPoint {
            count,
            sum: Some(sum),
            bucket_counts,
            explicit_bounds,
            ..HistogramDataPoint::default()
        };
        OtelMetric::new(metric_named(name, histogram(kind.temporality(), point)))
    }

    /// Convenience constructor for an aggregated summary metric.
    pub fn new_summary(name: String, quantiles: &Vec<Quantile>, count: u64, sum: u64) -> (r: Self)
        ensures
            r@ == OtelMetricView::of_metric(
                named(
                    name@,
                    summary_data(
                        SummaryDataPointView {
                            count,
                            sum,
                            quantile_values: quantile_values(quantiles@),
                            ..SummaryDataPointView::default_view()
                        },
                    ),
                ),
                r@.metadata,
            ),
            r@.metadata.is_default(),
    {
        let point = SummaryDataPoint {
            count,
            sum,
            quantile_values: message_quantiles(quantiles),
            ..SummaryDataPoint::default()
        };
        OtelMetric::new(metric_named(name, summary(point)))
    }

    /// Convenience constructor for a set metric.
    /// There is no native set type; represented as a Gauge whose value
    /// is the cardinality (number of unique values).
    pub fn new_set(name: String, cardinality: usize) -> (r: Self)
        ensures
            r@ == OtelMetricView::of_gauge(
                name@,
                double_of_nat(cardinality as nat) as u64,
                r@.metadata,
            ),
            r@.metadata.is_default(),
    {
        OtelMetric::new_gauge(name, double_from_u64(cardinality as u64))
    }

    /// Convenience constructor for a distribution metric from samples.
    /// Represented as a Histogram with vector.metric_type=distribution
    /// and vector.statistic attribute indicating histogram vs summary. `sum` sums up the values of
    /// samples, each as often as it was measured.
    pub fn new_distribution_from_samples<F: Fn(&Vec<Sample>) -> u64>(
        name: String,
        kind: MetricKind,
        samples: &Vec<Sample>,
        statistic: StatisticKind,
        sum: F,
    ) -> (r: Self)
        requires
            total_rate(samples@) <= u32::MAX,
            call_requires(sum, (samples,)),
        ensures
            exists|total: u64|
                #[trigger] call_ensures(sum, (samples,), total) && r@
                    == OtelMetricView::of_distribution(
                    name@,
                    kind,
                    samples@,
                    statistic,
                    total,
                    r@.metadata,
                ),
            r@.metadata.is_default(),
    {
        let (bucket_counts, explicit_bounds) = split_samples(samples);
        let total = sum(samples);
        assert(call_ensures(sum, (samples,), total));
        let point = HistogramDataPoint {
            count: sum_rates(samples),
            sum: Some(total),
            bucket_counts,
            explicit_bounds,
            ..HistogramDataPoint::default()
        };
        let mut m = OtelMetric::new(metric_named(name, histogram(kind.temporality(), point)));
        m.set_data_point_attribute(
            "vector.metric_type".to_string(),
            string_value("distribution"),
        );
        m.set_data_point_attribute(
            "vector.statistic".to_string(),
            string_value(statistic.as_str()),
        );
        m
    }

    /// Convenience constructor for a distribution metric (empty, no samples).
    /// `sum` sums up the values of samples, each as often as it was measured.
    pub fn new_distribution<F: Fn(&Vec<Sample>) -> u64>(name: String, kind: MetricKind, sum: F) -> (r:
        Self)
        requires
            forall|v: &Vec<Sample>| call_requires(sum, (v,)),
        ensures
            exists|none: &Vec<Sample>, total: u64|
                none@.len() == 0 && #[trigger] call_ensures(sum, (none,), total) && r@
                    == OtelMetricView::of_distribution(
                    name@,
                    kind,
                    none@,
                    StatisticKind::Histogram,
                    total,
                    r@.metadata,
                ),
            r@.metadata.is_default(),
    {
        let none: Vec<Sample> = Vec::new();
        OtelMetric::new_distribution_from_samples(
            name,
            kind,
            &none,
            StatisticKind::Histogram,
            sum,
        )
    }

    /// Convenience constructor for a set metric with its values.
    /// Represented as a Gauge with vector.metric_type=set,
    /// vector.set_values attribute, and cardinality as the numeric value.
    pub fn new_set_from_values(name: String, kind: MetricKind, values: &Vec<String>) -> (r: Self)
        ensures
            r@ == OtelMetricView::of_gauge(
                name@,
                double_of_nat(values@.len()) as u64,
                r@.metadata,
            ).with_point_attribute(
                "vector.metric_type"@,
                AnyView::Str("set"@),
            ).with_point_attribute(
                "vector.metric_kind"@,
                AnyView::Str(kind.word()),
            ).with_point_attribute("vector.set_values"@, any_from_texts(views(values@))),
            r@.metadata.is_default(),
    {
        let mut m = OtelMetric::new_gauge(name, double_from_u64(values.len() as u64));
        m.set_data_point_attribute("vector.metric_type".to_string(), string_value("set"));
        m.set_data_point_attribute(
            "vector.metric_kind".to_string(),
            string_value(kind.as_str()),
        );
        m.set_data_point_attribute("vector.set_values".to_string(), texts_to_any(values));
        m
    }

    /// Convenience constructor for a delta/signed gauge (e.g. statsd +/-).
    /// Represented as a Gauge with vector.metric_kind=incremental attribute.
    pub fn new_gauge_delta(name: String, value: u64) -> (r: Self)
        ensures
            r@ == OtelMetricView::of_gauge(name@, value, r@.metadata).with_point_attribute(
                "vector.metric_kind"@,
                AnyView::Str("incremental"@),
            ),
            r@.metadata.is_default(),
    {
        let mut m = OtelMetric::new_gauge(name, value);
        m.set_data_point_attribute(
            "vector.metric_kind".to_string(),
            string_value("incremental"),
        );
        m
    }

    /// Construct a metric event from a metric value. `sum` sums up the values of samples, each as
    /// often as it was measured.
    pub fn from_metric_parts<F: Fn(&Vec<Sample>) -> u64>(
        series: MetricSeries,
        data: MetricData,
        metadata: EventMetadata,
        sum: F,
    ) -> (r: Self)
        requires
            data.can_be_summed(sum),
        ensures
            forall|total: spec_fn(Seq<Sample>) -> u64| #[trigger]
                sums(sum, total) ==> r@ == metric_of_parts(series@, data@, metadata@, total),
            exists|total: spec_fn(Seq<Sample>) -> u64|
                r@ == #[trigger] metric_of_parts(series@, data@, metadata@, total)
                    && data@.is_totalled(sum, total),
    {
        let ghost parts = (series@, data@, metadata@);
        let attributes = tags_to_kvs(&series.tags);
        let ghost kvs = kvs_view(attributes@);
        let content = data.to_message_data(attributes, sum);
        let ghost total = choose|total: spec_fn(Seq<Sample>) -> u64|
            content@ == #[trigger] data@.message_data(kvs, total) && data@.is_totalled(sum, total);
        let message = metric_named(series.name.name, content);
        let resource = match series.name.namespace {
            Some(ns) => {
                let mut attributes: Vec<KeyValue> = Vec::new();
                push_text(&mut attributes, "metric.namespace", ns.as_str());
                assert(kvs_view(attributes@) =~= seq![text_attribute("metric.namespace"@, ns@)]);
                Some(Resource { attributes, dropped_attributes_count: 0 })
            },
            None => None,
        };
        let r = OtelMetric::from_parts(message, resource, None, metadata);
        assert(r@ == metric_of_parts(parts.0, parts.1, parts.2, total));
        r
    }
}

} // verus!
