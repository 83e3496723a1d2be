//! What holds of the kind, the value and the time that are read of a metric.
use vstd::prelude::*;

use crate::any_value::AnyView;
use crate::double::{less, nan, rank};
use crate::keyed::{ordered, value_of};
use crate::map_laws::{law_read_after_write, lemma_entry_found, lemma_found_entry};
use crate::metric::OtelMetricView;
use crate::metric_data::MetricValueView;
use crate::metric_kind::Bucket;
use crate::metric_read::{exponents_fit, first_text, negated, set_values, text_keys, text_set};
use crate::otlp_metric::{
    BucketsView, DataView, ExponentialHistogramDataPointView, HistogramDataPointView, NumberValue,
};
use crate::text::text_before;
use crate::time::{epoch_nanos, lemma_instant};

verus! {

/// Whether the bound for an exponent is a number that grows with the exponent.
pub open spec fn grows(pow: spec_fn(i32, i32) -> u64) -> bool {
    forall|scale: i32, a: i32, b: i32| a < b ==> #[trigger] less(pow(scale, a), pow(scale, b))
}

/// Whether the double `a` is at most the double `b`.
pub open spec fn at_most(a: u64, b: u64) -> bool {
    !nan(a) && !nan(b) && !less(b, a)
}

/// How many counts there are for the numbers of one sign.
pub open spec fn side_len(b: Option<BucketsView>) -> int {
    match b {
        Some(b) => b.bucket_counts.len() as int,
        None => 0,
    }
}

/// The buckets of a value that is a histogram; none of any other value.
pub open spec fn buckets_in(v: MetricValueView) -> Seq<Bucket> {
    match v {
        MetricValueView::AggregatedHistogram { buckets, .. } => buckets,
        _ => Seq::empty(),
    }
}

/// Where the buckets of the positive numbers begin.
pub open spec fn positive_start(p: ExponentialHistogramDataPointView) -> int {
    side_len(p.negative) + if p.zero_count > 0 {
        1int
    } else {
        0
    }
}

/// A histogram with exponential bounds is read as one with a bucket for each count: first those of
/// the negative numbers, then the one of zero unless none was counted, then those of the positive
/// numbers. The count and the sum are those of the data point.
pub proof fn law_exponential_counts(
    m: OtelMetricView,
    p: ExponentialHistogramDataPointView,
    pow: spec_fn(i32, i32) -> u64,
)
    requires
        m.metric.data matches Some(DataView::ExponentialHistogram(e)) && e.data_points.len() > 0
            && e.data_points[0] == p,
    ensures
        ({
            let buckets = buckets_in(m.value(pow));
            let n = side_len(p.negative);
            let start = positive_start(p);
            &&& m.value(pow) matches MetricValueView::AggregatedHistogram { count, sum, .. } && count
                == p.count && (p.sum matches Some(s) ==> sum == s) && (p.sum is None ==> sum == 0)
            &&& buckets.len() == start + side_len(p.positive)
            &&& forall|i: int|
                0 <= i < n ==> (#[trigger] buckets[i]).count == p.negative->0.bucket_counts[i]
            &&& p.zero_count > 0 ==> buckets[n].upper_limit == 0 && buckets[n].count == p.zero_count
            &&& forall|i: int|
                0 <= i < side_len(p.positive) ==> (#[trigger] buckets[start + i]).count
                    == p.positive->0.bucket_counts[i]
        }),
{
}

/// A positive number that was counted in the bucket with an index, so that it is above the bound for
/// the offset plus the index and not above the next bound, is not above the limit of that bucket, and
/// it is above the limit of the bucket before. That limit is the bound for the offset plus the index
/// plus one.
pub proof fn law_positive_limits(
    m: OtelMetricView,
    p: ExponentialHistogramDataPointView,
    b: BucketsView,
    pow: spec_fn(i32, i32) -> u64,
    i: int,
    x: u64,
)
    requires
        m.metric.data matches Some(DataView::ExponentialHistogram(e)) && e.data_points.len() > 0
            && e.data_points[0] == p,
        p.positive == Some(b),
        exponents_fit(p),
        grows(pow),
        0 <= i < b.bucket_counts.len(),
        less(pow(p.scale, (b.offset + i) as i32), x),
        at_most(x, pow(p.scale, (b.offset + i + 1) as i32)),
    ensures
        ({
            let buckets = buckets_in(m.value(pow));
            let k = positive_start(p) + i;
            &&& at_most(x, buckets[k].upper_limit)
            &&& i > 0 ==> less(buckets[k - 1].upper_limit, x)
            &&& buckets[k].upper_limit == pow(p.scale, (b.offset + i + 1) as i32)
            &&& buckets[k].count == b.bucket_counts[i]
        }),
{
}

/// A negative number that was counted in the bucket with an index, so that its amount is above the
/// bound for the offset plus the index and not above the next bound, is below the limit of that
/// bucket, and it is not below the limit of the bucket after, which is further from zero. That limit
/// is the bound for the offset plus the index, with the other sign.
pub proof fn law_negative_limits(
    m: OtelMetricView,
    p: ExponentialHistogramDataPointView,
    b: BucketsView,
    pow: spec_fn(i32, i32) -> u64,
    i: int,
    x: u64,
)
    requires
        m.metric.data matches Some(DataView::ExponentialHistogram(e)) && e.data_points.len() > 0
            && e.data_points[0] == p,
        p.negative == Some(b),
        exponents_fit(p),
        grows(pow),
        0 <= i < b.bucket_counts.len(),
        i + 1 < b.bucket_counts.len() || b.offset + i < i32::MAX,
        less(pow(p.scale, (b.offset + i) as i32), negated(x)),
        at_most(negated(x), pow(p.scale, (b.offset + i + 1) as i32)),
    ensures
        ({
            let buckets = buckets_in(m.value(pow));
            &&& less(x, buckets[i].upper_limit)
            &&& i + 1 < b.bucket_counts.len() ==> at_most(buckets[i + 1].upper_limit, x)
            &&& rank(buckets[i].upper_limit) == -rank(pow(p.scale, (b.offset + i) as i32))
            &&& buckets[i].count == b.bucket_counts[i]
        }),
{
    law_negation(x);
    law_negation(pow(p.scale, (b.offset + i) as i32));
    law_negation(pow(p.scale, (b.offset + i + 1) as i32));
}

/// A number with the other sign is as far from zero, on the other side; with the other sign again it
/// is the same.
pub proof fn law_negation(x: u64)
    ensures
        nan(negated(x)) == nan(x),
        rank(negated(x)) == -rank(x),
        negated(negated(x)) == x,
        negated(x) != x,
{
}

/// A histogram is read as a bucket for each count, with the bound that stands at the same place as its
/// limit, and with an infinite limit where there is none. The count and the sum are those of the data
/// point.
pub proof fn law_histogram_is_read(
    m: OtelMetricView,
    p: HistogramDataPointView,
    pow: spec_fn(i32, i32) -> u64,
)
    requires
        m.metric.data matches Some(DataView::Histogram(h)) && h.data_points.len() > 0
            && h.data_points[0] == p,
        first_text(m.dp_attrs, "vector.metric_type"@) != Some("distribution"@),
    ensures
        ({
            let buckets = buckets_in(m.value(pow));
            &&& m.value(pow) matches MetricValueView::AggregatedHistogram { count, sum, .. } && count
                == p.count && (p.sum matches Some(s) ==> sum == s) && (p.sum is None ==> sum == 0)
            &&& buckets.len() == p.bucket_counts.len()
            &&& forall|i: int|
                0 <= i < buckets.len() ==> (#[trigger] buckets[i]).count == p.bucket_counts[i]
                    && buckets[i].upper_limit == if i < p.explicit_bounds.len() {
                    p.explicit_bounds[i]
                } else {
                    0x7ff0_0000_0000_0000
                }
        }),
{
}

/// A histogram that is marked as a distribution is read as samples: each bound, with the count at the
/// same place as its rate, as far as there are both. It is read as a histogram unless it is marked
/// otherwise.
pub proof fn law_distribution_is_read(
    m: OtelMetricView,
    p: HistogramDataPointView,
    pow: spec_fn(i32, i32) -> u64,
)
    requires
        m.metric.data matches Some(DataView::Histogram(h)) && h.data_points.len() > 0
            && h.data_points[0] == p,
        first_text(m.dp_attrs, "vector.metric_type"@) == Some("distribution"@),
    ensures
        m.value(pow) matches MetricValueView::Distribution { samples, statistic } && {
            &&& samples.len() <= p.explicit_bounds.len()
            &&& samples.len() <= p.bucket_counts.len()
            &&& samples.len() == p.explicit_bounds.len() || samples.len() == p.bucket_counts.len()
            &&& forall|i: int|
                0 <= i < samples.len() ==> (#[trigger] samples[i]).value == p.explicit_bounds[i] && (
                p.bucket_counts[i] <= u32::MAX ==> samples[i].rate == p.bucket_counts[i])
            &&& statistic is Summary <==> first_text(m.dp_attrs, "vector.statistic"@) == Some(
                "summary"@,
            )
        },
{
}

/// A summary is read with its quantiles in order, and with its count and its sum.
pub proof fn law_summary_is_read(m: OtelMetricView, pow: spec_fn(i32, i32) -> u64)
    ensures
        m.metric.data matches Some(DataView::Summary(s)) ==> (s.data_points.len() > 0 ==> (m.value(pow)
            matches MetricValueView::AggregatedSummary { quantiles, count, sum } && {
            let p = s.data_points[0];
            &&& count == p.count
            &&& sum == p.sum
            &&& quantiles.len() == p.quantile_values.len()
            &&& forall|i: int|
                0 <= i < quantiles.len() ==> (#[trigger] quantiles[i]).quantile
                    == p.quantile_values[i].quantile && quantiles[i].value
                    == p.quantile_values[i].value
        })),
{
}

/// The double that the first data point of a sum or a gauge holds is the value that is read: of a sum
/// that only grows as a counter, of any other as a gauge.
pub proof fn law_double_is_read(m: OtelMetricView, pow: spec_fn(i32, i32) -> u64)
    ensures
        m.metric.data matches Some(DataView::Sum(s)) ==> (s.data_points.len() > 0 ==> (
        s.data_points[0].value matches Some(NumberValue::AsDouble(d)) ==> m.value(pow) == if s.is_monotonic {
            MetricValueView::Counter { value: d }
        } else {
            MetricValueView::Gauge { value: d }
        })),
        m.metric.data matches Some(DataView::Gauge(g)) ==> (first_text(
            m.dp_attrs,
            "vector.metric_type"@,
        ) != Some("set"@) ==> (g.data_points.len() > 0 ==> (g.data_points[0].value matches Some(
            NumberValue::AsDouble(d),
        ) ==> m.value(pow) == MetricValueView::Gauge { value: d }))),
{
}

/// A metric without a data point has a value of the type of its data, with nothing counted or measured.
pub proof fn law_nothing_is_read(m: OtelMetricView, pow: spec_fn(i32, i32) -> u64)
    ensures
        m.metric.data is None ==> m.value(pow) == (MetricValueView::Gauge { value: 0 }),
        m.metric.data matches Some(DataView::Sum(s)) ==> (s.data_points.len() == 0 ==> m.value(pow)
            == if s.is_monotonic {
            MetricValueView::Counter { value: 0 }
        } else {
            MetricValueView::Gauge { value: 0 }
        }),
        m.metric.data matches Some(DataView::Summary(s)) ==> (s.data_points.len() == 0 ==> m.value(
            pow,
        ) == (MetricValueView::AggregatedSummary { quantiles: Seq::empty(), count: 0, sum: 0 })),
        m.metric.data matches Some(DataView::ExponentialHistogram(e)) ==> (e.data_points.len() == 0
            ==> m.value(pow) == (MetricValueView::AggregatedHistogram {
            buckets: Seq::empty(),
            count: 0,
            sum: 0,
        })),
{
}

proof fn lemma_text_keys(values: Seq<AnyView>, text: Seq<char>)
    ensures
        ordered(text_keys(values)),
        value_of(text_keys(values), text) is Some <==> values.contains(AnyView::Str(text)),
    decreases values.len(),
{
    if values.len() > 0 {
        let before = values.drop_last();
        lemma_text_keys(before, text);
        if let AnyView::Str(s) = values.last() {
            law_read_after_write(text_keys(before), s, true);
        }
        if before.contains(AnyView::Str(text)) {
            let i = choose|i: int| 0 <= i < before.len() && before[i] == AnyView::Str(text);
            assert(values[i] == AnyView::Str(text));
        }
        if values.last() == AnyView::Str(text) {
            assert(values[values.len() - 1] == AnyView::Str(text));
        }
        if values.contains(AnyView::Str(text)) && values.last() != AnyView::Str(text) {
            let i = choose|i: int| 0 <= i < values.len() && values[i] == AnyView::Str(text);
            assert(before[i] == AnyView::Str(text));
        }
    }
}

/// The values of a set are exactly the texts that the first data point lists, in order, none of them
/// twice.
pub proof fn law_set_is_read(
    m: OtelMetricView,
    listed: Seq<AnyView>,
    text: Seq<char>,
    pow: spec_fn(i32, i32) -> u64,
)
    requires
        m.metric.data matches Some(DataView::Gauge(_)),
        first_text(m.dp_attrs, "vector.metric_type"@) == Some("set"@),
        m.dp_attrs.len() > 0,
        value_of(m.dp_attrs[0], "vector.set_values"@) == Some(AnyView::Array(listed)),
    ensures
        m.value(pow) matches MetricValueView::SetOf { values } && {
            &&& values.contains(text) <==> listed.contains(AnyView::Str(text))
            &&& forall|i: int, j: int|
                0 <= i < j < values.len() ==> text_before(#[trigger] values[i], #[trigger] values[j])
        },
{
    lemma_text_keys(listed, text);
    let keys = text_keys(listed);
    let values = text_set(listed);
    if values.contains(text) {
        let i = choose|i: int| 0 <= i < values.len() && values[i] == text;
        lemma_entry_found(keys, i);
    }
    if value_of(keys, text) is Some {
        lemma_found_entry(keys, text);
        let i = choose|i: int| 0 <= i < keys.len() && keys[i].0 == text;
        assert(values[i] == text);
    }
}

/// A metric is incremental where its aggregation temporality is the one for differences, which is one,
/// or where it is a gauge that is marked as incremental; else it is absolute.
pub proof fn law_kind_is_read(m: OtelMetricView)
    ensures
        m.kind() is Incremental <==> match m.metric.data {
            Some(DataView::Sum(s)) => s.aggregation_temporality == 1,
            Some(DataView::Histogram(h)) => h.aggregation_temporality == 1,
            Some(DataView::ExponentialHistogram(e)) => e.aggregation_temporality == 1,
            Some(DataView::Gauge(_)) => first_text(m.dp_attrs, "vector.metric_kind"@) == Some(
                "incremental"@,
            ),
            _ => false,
        },
{
}

/// A text is read of the first data point under a key exactly where its attribute of that name is that
/// text.
pub proof fn law_first_text(
    dp_attrs: Seq<Seq<(Seq<char>, AnyView)>>,
    key: Seq<char>,
    text: Seq<char>,
)
    ensures
        first_text(dp_attrs, key) == Some(text) <==> dp_attrs.len() > 0 && value_of(dp_attrs[0], key)
            == Some(AnyView::Str(text)),
{
}

/// When the measurement of the first data point began and when it was made, both zero where there is no
/// data point.
pub open spec fn times_held(d: DataView) -> (u64, u64) {
    match d {
        DataView::Sum(x) => if x.data_points.len() > 0 {
            (x.data_points[0].start_time_unix_nano, x.data_points[0].time_unix_nano)
        } else {
            (0, 0)
        },
        DataView::Gauge(x) => if x.data_points.len() > 0 {
            (x.data_points[0].start_time_unix_nano, x.data_points[0].time_unix_nano)
        } else {
            (0, 0)
        },
        DataView::Histogram(x) => if x.data_points.len() > 0 {
            (x.data_points[0].start_time_unix_nano, x.data_points[0].time_unix_nano)
        } else {
            (0, 0)
        },
        DataView::ExponentialHistogram(x) => if x.data_points.len() > 0 {
            (x.data_points[0].start_time_unix_nano, x.data_points[0].time_unix_nano)
        } else {
            (0, 0)
        },
        DataView::Summary(x) => if x.data_points.len() > 0 {
            (x.data_points[0].start_time_unix_nano, x.data_points[0].time_unix_nano)
        } else {
            (0, 0)
        },
    }
}

/// The time of a metric is the instant as many nanoseconds after the epoch as its first data point says,
/// and none where that says zero.
pub proof fn law_time_is_read(m: OtelMetricView, d: DataView)
    requires
        m.metric.data == Some(d),
    ensures
        ({
            let nanos = times_held(d).1;
            &&& m.timestamp() is None <==> nanos == 0
            &&& m.timestamp() matches Some(t) ==> t.spec_secs() * 1_000_000_000 + t.spec_nanos()
                == nanos && t.spec_nanos() < 1_000_000_000
            &&& m.timestamp() matches Some(t) ==> (nanos <= i64::MAX ==> epoch_nanos(t) == nanos)
        }),
{
    let nanos = times_held(d).1;
    lemma_instant((nanos / 1_000_000_000) as i64, (nanos % 1_000_000_000) as u32);
}

/// The interval of a metric is the whole milliseconds from the start of its first data point to its
/// time: there is none where the start is unknown, where it is not before the time, and where less than a
/// millisecond lies between them. This holds as long as the milliseconds are a word of 32 bits.
pub proof fn law_interval_is_read(m: OtelMetricView, d: DataView)
    requires
        m.metric.data == Some(d),
        times_held(d).1 - times_held(d).0 < 0x1_0000_0000 * 1_000_000,
    ensures
        ({
            let (start, end) = times_held(d);
            match m.interval_ms() {
                Some(ms) => start > 0 && ms > 0 && ms * 1_000_000 <= end - start < (ms + 1)
                    * 1_000_000,
                None => start == 0 || end - start < 1_000_000,
            }
        }),
{
    let (start, end) = times_held(d);
    if end > start {
        let ms = (end - start) / 1_000_000;
        assert(ms < 0x1_0000_0000);
    }
}

/// The namespace of a metric is the text of the attribute `metric.namespace` of its resource.
pub proof fn law_namespace_is_read(m: OtelMetricView, ns: Seq<char>)
    ensures
        m.namespace() == Some(ns) <==> value_of(m.resource_attrs, "metric.namespace"@) == Some(
            AnyView::Str(ns),
        ),
{
}

} // verus!
