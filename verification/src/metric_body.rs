//! Metric events as the bodies of log events.
use vstd::prelude::*;

use crate::any_value::{
    int_value, kvs_view, lemma_any_array_view, lemma_any_kvlist_view, string_value, values_view,
    AnyValue, AnyView, ArrayValue, KeyValue, KeyValueList, OtelValueKind,
};
use crate::keyed::views;
use crate::metric::OtelMetric;
use crate::otlp_metric::{
    Buckets, BucketsView, Data, DataView, ExponentialHistogram, ExponentialHistogramDataPoint,
    ExponentialHistogramDataPointView, Gauge, Histogram, HistogramDataPoint, HistogramDataPointView,
    MetricMessageView, NumberDataPoint, NumberDataPointView, NumberValue, Sum, Summary,
    SummaryDataPoint, SummaryDataPointView, ValueAtQuantile, ValueAtQuantileView,
};
use crate::text::{decimal, u64_text};

verus! {

/// A list of key-value pairs with one more.
pub open spec fn and(
    m: Seq<(Seq<char>, Option<AnyView>)>,
    key: Seq<char>,
    v: AnyView,
) -> Seq<(Seq<char>, Option<AnyView>)> {
    m.push((key, Some(v)))
}

/// A list of key-value pairs with one more, under a condition.
pub open spec fn and_if(
    given: bool,
    m: Seq<(Seq<char>, Option<AnyView>)>,
    key: Seq<char>,
    v: AnyView,
) -> Seq<(Seq<char>, Option<AnyView>)> {
    if given {
        and(m, key, v)
    } else {
        m
    }
}

/// A count as text.
pub open spec fn count_any(n: u64) -> AnyView {
    AnyView::Str(decimal(n as nat))
}

/// Counts as texts.
pub open spec fn counts_any(counts: Seq<u64>) -> AnyView {
    AnyView::Array(Seq::new(counts.len(), |i: int| count_any(counts[i])))
}

/// Doubles as attribute values.
pub open spec fn doubles_any(doubles: Seq<u64>) -> AnyView {
    AnyView::Array(Seq::new(doubles.len(), |i: int| AnyView::Double(doubles[i])))
}

/// A named attribute as a list of key-value pairs.
pub open spec fn attribute_any(kv: (Seq<char>, Option<AnyView>)) -> AnyView {
    let named = and(Seq::empty(), "key"@, AnyView::Str(kv.0));
    AnyView::Kvlist(
        match kv.1 {
            Some(v) => and(named, "value"@, v),
            None => named,
        },
    )
}

/// Named attributes as a list.
pub open spec fn attributes_any(kvs: Seq<(Seq<char>, Option<AnyView>)>) -> AnyView {
    AnyView::Array(Seq::new(kvs.len(), |i: int| attribute_any(kvs[i])))
}

/// A number with its attributes and times.
pub open spec fn number_any(p: NumberDataPointView) -> AnyView {
    let m = match p.value {
        Some(NumberValue::AsDouble(d)) => and(Seq::empty(), "asDouble"@, AnyView::Double(d)),
        Some(NumberValue::AsInt(i)) => and(Seq::empty(), "asInt"@, AnyView::Int(i)),
        None => Seq::empty(),
    };
    let m = and_if(p.attributes.len() > 0, m, "attributes"@, attributes_any(p.attributes));
    let m = and_if(p.time_unix_nano != 0, m, "timeUnixNano"@, count_any(p.time_unix_nano));
    AnyView::Kvlist(
        and_if(
            p.start_time_unix_nano != 0,
            m,
            "startTimeUnixNano"@,
            count_any(p.start_time_unix_nano),
        ),
    )
}

/// Numbers as a list.
pub open spec fn numbers_any(points: Seq<NumberDataPointView>) -> AnyView {
    AnyView::Array(Seq::new(points.len(), |i: int| number_any(points[i])))
}

/// The pairs with which each data point of a histogram or of a summary begins.
pub open spec fn point_start(
    attributes: Seq<(Seq<char>, Option<AnyView>)>,
    time: u64,
    count: u64,
) -> Seq<(Seq<char>, Option<AnyView>)> {
    let m = and_if(attributes.len() > 0, Seq::empty(), "attributes"@, attributes_any(attributes));
    let m = and_if(time != 0, m, "timeUnixNano"@, count_any(time));
    and(m, "count"@, count_any(count))
}

/// The pairs with the sum added, where there is one.
pub open spec fn and_sum(m: Seq<(Seq<char>, Option<AnyView>)>, sum: Option<u64>) -> Seq<
    (Seq<char>, Option<AnyView>),
> {
    match sum {
        Some(s) => and(m, "sum"@, AnyView::Double(s)),
        None => m,
    }
}

/// A histogram.
pub open spec fn histogram_any(p: HistogramDataPointView) -> AnyView {
    let m = and_sum(point_start(p.attributes, p.time_unix_nano, p.count), p.sum);
    let m = and_if(p.bucket_counts.len() > 0, m, "bucketCounts"@, counts_any(p.bucket_counts));
    AnyView::Kvlist(
        and_if(
            p.explicit_bounds.len() > 0,
            m,
            "explicitBounds"@,
            doubles_any(p.explicit_bounds),
        ),
    )
}

/// Histograms as a list.
pub open spec fn histograms_any(points: Seq<HistogramDataPointView>) -> AnyView {
    AnyView::Array(Seq::new(points.len(), |i: int| histogram_any(points[i])))
}

/// The value at a quantile.
pub open spec fn quantile_any(q: ValueAtQuantileView) -> AnyView {
    AnyView::Kvlist(
        and(
            and(Seq::empty(), "quantile"@, AnyView::Double(q.quantile)),
            "value"@,
            AnyView::Double(q.value),
        ),
    )
}

/// The values at quantiles as a list.
pub open spec fn quantiles_any(quantiles: Seq<ValueAtQuantileView>) -> AnyView {
    AnyView::Array(Seq::new(quantiles.len(), |i: int| quantile_any(quantiles[i])))
}

/// A summary.
pub open spec fn summary_any(p: SummaryDataPointView) -> AnyView {
    let m = and(
        point_start(p.attributes, p.time_unix_nano, p.count),
        "sum"@,
        AnyView::Double(p.sum),
    );
    AnyView::Kvlist(and(m, "quantileValues"@, quantiles_any(p.quantile_values)))
}

/// Summaries as a list.
pub open spec fn summaries_any(points: Seq<SummaryDataPointView>) -> AnyView {
    AnyView::Array(Seq::new(points.len(), |i: int| summary_any(points[i])))
}

/// The buckets of one sign.
pub open spec fn side_any(b: BucketsView) -> AnyView {
    AnyView::Kvlist(
        and(
            and(Seq::empty(), "offset"@, AnyView::Int(b.offset as i64)),
            "bucketCounts"@,
            counts_any(b.bucket_counts),
        ),
    )
}

/// A histogram whose bounds grow exponentially.
pub open spec fn exponential_any(p: ExponentialHistogramDataPointView) -> AnyView {
    let m = and_sum(point_start(p.attributes, p.time_unix_nano, p.count), p.sum);
    let m = and(m, "scale"@, AnyView::Int(p.scale as i64));
    let m = and(m, "zeroCount"@, count_any(p.zero_count));
    let m = match p.positive {
        Some(b) => and(m, "positive"@, side_any(b)),
        None => m,
    };
    AnyView::Kvlist(
        match p.negative {
            Some(b) => and(m, "negative"@, side_any(b)),
            None => m,
        },
    )
}

/// Histograms whose bounds grow exponentially as a list.
pub open spec fn exponentials_any(points: Seq<ExponentialHistogramDataPointView>) -> AnyView {
    AnyView::Array(Seq::new(points.len(), |i: int| exponential_any(points[i])))
}

/// A number that says how numbers were aggregated over time.
pub open spec fn and_temporality(m: Seq<(Seq<char>, Option<AnyView>)>, temporality: i32) -> Seq<
    (Seq<char>, Option<AnyView>),
> {
    and(m, "aggregationTemporality"@, AnyView::Int(temporality as i64))
}

impl DataView {
    /// The name of the kind of data, and the data as key-value pairs.
    pub open spec fn body(&self) -> (Seq<char>, AnyView) {
        match self {
            DataView::Sum(s) => (
                "sum"@,
                AnyView::Kvlist(
                    and(
                        and_temporality(
                            and(Seq::empty(), "dataPoints"@, numbers_any(s.data_points)),
                            s.aggregation_temporality,
                        ),
                        "isMonotonic"@,
                        AnyView::Bool(s.is_monotonic),
                    ),
                ),
            ),
            DataView::Gauge(g) => (
                "gauge"@,
                AnyView::Kvlist(and(Seq::empty(), "dataPoints"@, numbers_any(g.data_points))),
            ),
            DataView::Histogram(h) => (
                "histogram"@,
                AnyView::Kvlist(
                    and_temporality(
                        and(Seq::empty(), "dataPoints"@, histograms_any(h.data_points)),
                        h.aggregation_temporality,
                    ),
                ),
            ),
            DataView::Summary(s) => (
                "summary"@,
                AnyView::Kvlist(and(Seq::empty(), "dataPoints"@, summaries_any(s.data_points))),
            ),
            DataView::ExponentialHistogram(e) => (
                "exponentialHistogram"@,
                AnyView::Kvlist(
                    and_temporality(
                        and(Seq::empty(), "dataPoints"@, exponentials_any(e.data_points)),
                        e.aggregation_temporality,
                    ),
                ),
            ),
        }
    }
}

impl MetricMessageView {
    /// The metric as key-value pairs.
    pub open spec fn body(&self) -> AnyView {
        let m = and(Seq::empty(), "name"@, AnyView::Str(self.name));
        let m = and_if(
            self.description.len() > 0,
            m,
            "description"@,
            AnyView::Str(self.description),
        );
        let m = and_if(self.unit.len() > 0, m, "unit"@, AnyView::Str(self.unit));
        AnyView::Kvlist(
            match self.data {
                Some(d) => and(m, d.body().0, d.body().1),
                None => m,
            },
        )
    }
}

fn no_pairs() -> (r: Vec<KeyValue>)
    ensures
        kvs_view(r@) == Seq::<(Seq<char>, Option<AnyView>)>::empty(),
{
    let r: Vec<KeyValue> = Vec::new();
    assert(kvs_view(r@) =~= Seq::empty());
    r
}

fn push_pair(kvs: &mut Vec<KeyValue>, key: &str, value: AnyValue)
    ensures
        kvs_view(final(kvs)@) == and(kvs_view(old(kvs)@), key@, value@),
{
    kvs.push(KeyValue { key: key.to_owned(), value: Some(value) });
    assert(kvs_view(kvs@) =~= and(kvs_view(old(kvs)@), key@, value@));
}

fn double_value(d: u64) -> (r: AnyValue)
    ensures
        r@ == AnyView::Double(d),
{
    AnyValue { value: Some(OtelValueKind::DoubleValue(d)) }
}

fn bool_value(b: bool) -> (r: AnyValue)
    ensures
        r@ == AnyView::Bool(b),
{
    AnyValue { value: Some(OtelValueKind::BoolValue(b)) }
}

fn kvlist_any_value(kvs: Vec<KeyValue>) -> (r: AnyValue)
    ensures
        r@ == AnyView::Kvlist(kvs_view(kvs@)),
{
    let list = KeyValueList { values: kvs };
    proof {
        lemma_any_kvlist_view(list);
    }
    AnyValue { value: Some(OtelValueKind::KvlistValue(list)) }
}

fn array_any_value(values: Vec<AnyValue>) -> (r: AnyValue)
    ensures
        r@ == AnyView::Array(values_view(values@)),
{
    let list = ArrayValue { values };
    proof {
        lemma_any_array_view(list);
    }
    AnyValue { value: Some(OtelValueKind::ArrayValue(list)) }
}

fn count_value(n: u64) -> (r: AnyValue)
    ensures
        r@ == count_any(n),
{
    string_value(u64_text(n).as_str())
}

fn counts_to_any_value(counts: &Vec<u64>) -> (r: AnyValue)
    ensures
        r@ == counts_any(counts@),
{
    let ghost all = counts@;
    let mut values: Vec<AnyValue> = Vec::new();
    let mut i: usize = 0;
    while i < counts.len()
        invariant
            i <= counts@.len(),
            all == counts@,
            values@.len() == i,
            forall|j: int| 0 <= j < i ==> (#[trigger] values@[j])@ == count_any(all[j]),
        decreases counts@.len() - i,
    {
        assert(all[i as int] == counts@[i as int]);
        values.push(count_value(counts[i]));
        i = i + 1;
    }
    assert(values_view(values@) =~= counts_any(all)->Array_0);
    array_any_value(values)
}

fn doubles_to_any_value(doubles: &Vec<u64>) -> (r: AnyValue)
    ensures
        r@ == doubles_any(doubles@),
{
    let ghost all = doubles@;
    let mut values: Vec<AnyValue> = Vec::new();
    let mut i: usize = 0;
    while i < doubles.len()
        invariant
            i <= doubles@.len(),
            all == doubles@,
            values@.len() == i,
            forall|j: int| 0 <= j < i ==> (#[trigger] values@[j])@ == AnyView::Double(all[j]),
        decreases doubles@.len() - i,
    {
        assert(all[i as int] == doubles@[i as int]);
        values.push(double_value(doubles[i]));
        i = i + 1;
    }
    assert(values_view(values@) =~= doubles_any(all)->Array_0);
    array_any_value(values)
}

fn attr_to_any_value(kv: &KeyValue) -> (r: AnyValue)
    ensures
        r@ == attribute_any(kv@),
{
    let mut inner = no_pairs();
    push_pair(&mut inner, "key", string_value(kv.key.as_str()));
    if let Some(v) = &kv.value {
        push_pair(&mut inner, "value", v.clone());
    }
    kvlist_any_value(inner)
}

fn attrs_to_any_value(attrs: &Vec<KeyValue>) -> (r: AnyValue)
    ensures
        r@ == attributes_any(kvs_view(attrs@)),
{
    let ghost all = kvs_view(attrs@);
    let mut values: Vec<AnyValue> = Vec::new();
    let mut i: usize = 0;
    while i < attrs.len()
        invariant
            i <= attrs@.len(),
            all == kvs_view(attrs@),
            values@.len() == i,
            forall|j: int| 0 <= j < i ==> (#[trigger] values@[j])@ == attribute_any(all[j]),
        decreases attrs@.len() - i,
    {
        assert(all[i as int] == attrs@[i as int]@);
        values.push(attr_to_any_value(&attrs[i]));
        i = i + 1;
    }
    assert(values_view(values@) =~= attributes_any(all)->Array_0);
    array_any_value(values)
}

fn number_dp_to_any_value(dp: &NumberDataPoint) -> (r: AnyValue)
    ensures
        r@ == number_any(dp@),
{
    let mut kvs = no_pairs();
    match dp.value {
        Some(NumberValue::AsDouble(d)) => push_pair(&mut kvs, "asDouble", double_value(d)),
        Some(NumberValue::AsInt(i)) => push_pair(&mut kvs, "asInt", int_value(i)),
        None => {},
    }
    if dp.attributes.len() > 0 {
        push_pair(&mut kvs, "attributes", attrs_to_any_value(&dp.attributes));
    }
    if dp.time_unix_nano != 0 {
        push_pair(&mut kvs, "timeUnixNano", count_value(dp.time_unix_nano));
    }
    if dp.start_time_unix_nano != 0 {
        push_pair(&mut kvs, "startTimeUnixNano", count_value(dp.start_time_unix_nano));
    }
    kvlist_any_value(kvs)
}

fn numbers_to_any_value(points: &Vec<NumberDataPoint>) -> (r: AnyValue)
    ensures
        r@ == numbers_any(views(points@)),
{
    let ghost all = views(points@);
    let mut values: Vec<AnyValue> = Vec::new();
    let mut i: usize = 0;
    while i < points.len()
        invariant
            i <= points@.len(),
            all == views(points@),
            values@.len() == i,
            forall|j: int| 0 <= j < i ==> (#[trigger] values@[j])@ == number_any(all[j]),
        decreases points@.len() - i,
    {
        assert(all[i as int] == points@[i as int]@);
        values.push(number_dp_to_any_value(&points[i]));
        i = i + 1;
    }
    assert(values_view(values@) =~= numbers_any(all)->Array_0);
    array_any_value(values)
}

/// The pairs with which each data point of a histogram or of a summary begins.
fn start_point(attributes: &Vec<KeyValue>, time: u64, count: u64) -> (r: Vec<KeyValue>)
    ensures
        kvs_view(r@) == point_start(kvs_view(attributes@), time, count),
{
    let mut m = no_pairs();
    if attributes.len() > 0 {
        push_pair(&mut m, "attributes", attrs_to_any_value(attributes));
    }
    if time != 0 {
        push_pair(&mut m, "timeUnixNano", count_value(time));
    }
    push_pair(&mut m, "count", count_value(count));
    m
}

fn histogram_dp_to_any_value(dp: &HistogramDataPoint) -> (r: AnyValue)
    ensures
        r@ == histogram_any(dp@),
{
    let mut m = start_point(&dp.attributes, dp.time_unix_nano, dp.count);
    if let Some(sum) = dp.sum {
        push_pair(&mut m, "sum", double_value(sum));
    }
    if dp.bucket_counts.len() > 0 {
        push_pair(&mut m, "bucketCounts", counts_to_any_value(&dp.bucket_counts));
    }
    if dp.explicit_bounds.len() > 0 {
        push_pair(&mut m, "explicitBounds", doubles_to_any_value(&dp.explicit_bounds));
    }
    kvlist_any_value(m)
}

fn histograms_to_any_value(points: &Vec<HistogramDataPoint>) -> (r: AnyValue)
    ensures
        r@ == histograms_any(views(points@)),
{
    let ghost all = views(points@);
    let mut values: Vec<AnyValue> = Vec::new();
    let mut i: usize = 0;
    while i < points.len()
        invariant
            i <= points@.len(),
            all == views(points@),
            values@.len() == i,
            forall|j: int| 0 <= j < i ==> (#[trigger] values@[j])@ == histogram_any(all[j]),
        decreases points@.len() - i,
    {
        assert(all[i as int] == points@[i as int]@);
        values.push(histogram_dp_to_any_value(&points[i]));
        i = i + 1;
    }
    assert(values_view(values@) =~= histograms_any(all)->Array_0);
    array_any_value(values)
}

fn quantile_to_any_value(q: &ValueAtQuantile) -> (r: AnyValue)
    ensures
        r@ == quantile_any(q@),
{
    let mut m = no_pairs();
    push_pair(&mut m, "quantile", double_value(q.quantile));
    push_pair(&mut m, "value", double_value(q.value));
    kvlist_any_value(m)
}

fn quantiles_to_any_value(quantiles: &Vec<ValueAtQuantile>) -> (r: AnyValue)
    ensures
        r@ == quantiles_any(views(quantiles@)),
{
    let ghost all = views(quantiles@);
    let mut values: Vec<AnyValue> = Vec::new();
    let mut i: usize = 0;
    while i < quantiles.len()
        invariant
            i <= quantiles@.len(),
            all == views(quantiles@),
            values@.len() == i,
            forall|j: int| 0 <= j < i ==> (#[trigger] values@[j])@ == quantile_any(all[j]),
        decreases quantiles@.len() - i,
    {
        assert(all[i as int] == quantiles@[i as int]@);
        values.push(quantile_to_any_value(&quantiles[i]));
        i = i + 1;
    }
    assert(values_view(values@) =~= quantiles_any(all)->Array_0);
    array_any_value(values)
}

fn summary_dp_to_any_value(dp: &SummaryDataPoint) -> (r: AnyValue)
    ensures
        r@ == summary_any(dp@),
{
    let mut m = start_point(&dp.attributes, dp.time_unix_nano, dp.count);
    push_pair(&mut m, "sum", double_value(dp.sum));
    push_pair(&mut m, "quantileValues", quantiles_to_any_value(&dp.quantile_values));
    kvlist_any_value(m)
}

fn summaries_to_any_value(points: &Vec<SummaryDataPoint>) -> (r: AnyValue)
    ensures
        r@ == summaries_any(views(points@)),
{
    let ghost all = views(points@);
    let mut values: Vec<AnyValue> = Vec::new();
    let mut i: usize = 0;
    while i < points.len()
        invariant
            i <= points@.len(),
            all == views(points@),
            values@.len() == i,
            forall|j: int| 0 <= j < i ==> (#[trigger] values@[j])@ == summary_any(all[j]),
        decreases points@.len() - i,
    {
        assert(all[i as int] == points@[i as int]@);
        values.push(summary_dp_to_any_value(&points[i]));
        i = i + 1;
    }
    assert(values_view(values@) =~= summaries_any(all)->Array_0);
    array_any_value(values)
}

fn side_to_any_value(b: &Buckets) -> (r: AnyValue)
    ensures
        r@ == side_any(b@),
{
    let mut m = no_pairs();
    push_pair(&mut m, "offset", int_value(b.offset as i64));
    push_pair(&mut m, "bucketCounts", counts_to_any_value(&b.bucket_counts));
    kvlist_any_value(m)
}

fn exponential_dp_to_any_value(dp: &ExponentialHistogramDataPoint) -> (r: AnyValue)
    ensures
        r@ == exponential_any(dp@),
{
    let mut m = start_point(&dp.attributes, dp.time_unix_nano, dp.count);
    if let Some(sum) = dp.sum {
        push_pair(&mut m, "sum", double_value(sum));
    }
    push_pair(&mut m, "scale", int_value(dp.scale as i64));
    push_pair(&mut m, "zeroCount", count_value(dp.zero_count));
    if let Some(b) = &dp.positive {
        push_pair(&mut m, "positive", side_to_any_value(b));
    }
    if let Some(b) = &dp.negative {
        push_pair(&mut m, "negative", side_to_any_value(b));
    }
    kvlist_any_value(m)
}

fn exponentials_to_any_value(points: &Vec<ExponentialHistogramDataPoint>) -> (r: AnyValue)
    ensures
        r@ == exponentials_any(views(points@)),
{
    let ghost all = views(points@);
    let mut values: Vec<AnyValue> = Vec::new();
    let mut i: usize = 0;
    while i < points.len()
        invariant
            i <= points@.len(),
            all == views(points@),
            values@.len() == i,
            forall|j: int| 0 <= j < i ==> (#[trigger] values@[j])@ == exponential_any(all[j]),
        decreases points@.len() - i,
    {
        assert(all[i as int] == points@[i as int]@);
        values.push(exponential_dp_to_any_value(&points[i]));
        i = i + 1;
    }
    assert(values_view(values@) =~= exponentials_any(all)->Array_0);
    array_any_value(values)
}

fn sum_to_any_value(sum: &Sum) -> (r: AnyValue)
    ensures
        r@ == DataView::Sum(sum@).body().1,
{
    let mut kvs = no_pairs();
    push_pair(&mut kvs, "dataPoints", numbers_to_any_value(&sum.data_points));
    push_pair(
        &mut kvs,
        "aggregationTemporality",
        int_value(sum.aggregation_temporality as i64),
    );
    push_pair(&mut kvs, "isMonotonic", bool_value(sum.is_monotonic));
    kvlist_any_value(kvs)
}

fn gauge_to_any_value(gauge: &Gauge) -> (r: AnyValue)
    ensures
        r@ == DataView::Gauge(gauge@).body().1,
{
    let mut kvs = no_pairs();
    push_pair(&mut kvs, "dataPoints", numbers_to_any_value(&gauge.data_points));
    kvlist_any_value(kvs)
}

fn histogram_to_any_value(hist: &Histogram) -> (r: AnyValue)
    ensures
        r@ == DataView::Histogram(hist@).body().1,
{
    let mut kvs = no_pairs();
    push_pair(&mut kvs, "dataPoints", histograms_to_any_value(&hist.data_points));
    push_pair(
        &mut kvs,
        "aggregationTemporality",
        int_value(hist.aggregation_temporality as i64),
    );
    kvlist_any_value(kvs)
}

fn summary_to_any_value(summary: &Summary) -> (r: AnyValue)
    ensures
        r@ == DataView::Summary(summary@).body().1,
{
    let mut kvs = no_pairs();
    push_pair(&mut kvs, "dataPoints", summaries_to_any_value(&summary.data_points));
    kvlist_any_value(kvs)
}

fn exp_histogram_to_any_value(exp: &ExponentialHistogram) -> (r: AnyValue)
    ensures
        r@ == DataView::ExponentialHistogram(exp@).body().1,
{
    let mut kvs = no_pairs();
    push_pair(&mut kvs, "dataPoints", exponentials_to_any_value(&exp.data_points));
    push_pair(
        &mut kvs,
        "aggregationTemporality",
        int_value(exp.aggregation_temporality as i64),
    );
    kvlist_any_value(kvs)
}

impl OtelMetric {
    /// Convert this metric to a list of key-value pairs suitable for use as
    /// the body of a log event. Includes name, description, unit, and data (sum/gauge/
    /// histogram/summary/exponentialHistogram). Does NOT include resource/scope
    /// — those should be transferred directly to the log event.
    pub fn to_log_body(&self) -> (r: AnyValue)
        ensures
            r@ == self@.metric.with_point_attributes(self@.dp_attrs).body(),
    {
        let metric = self.metric_proto();
        let mut kvs = no_pairs();
        push_pair(&mut kvs, "name", string_value(metric.name.as_str()));
        if !metric.description.as_str().is_empty() {
            push_pair(&mut kvs, "description", string_value(metric.description.as_str()));
        }
        if !metric.unit.as_str().is_empty() {
            push_pair(&mut kvs, "unit", string_value(metric.unit.as_str()));
        }
        match &metric.data {
            Some(Data::Sum(sum)) => push_pair(&mut kvs, "sum", sum_to_any_value(sum)),
            Some(Data::Gauge(gauge)) => push_pair(&mut kvs, "gauge", gauge_to_any_value(gauge)),
            Some(Data::Histogram(hist)) => push_pair(
                &mut kvs,
                "histogram",
                histogram_to_any_value(hist),
            ),
            Some(Data::Summary(summary)) => push_pair(
                &mut kvs,
                "summary",
                summary_to_any_value(summary),
            ),
            Some(Data::ExponentialHistogram(exp)) => push_pair(
                &mut kvs,
                "exponentialHistogram",
                exp_histogram_to_any_value(exp),
            ),
            None => {},
        }
        kvlist_any_value(kvs)
    }
}

} // verus!
