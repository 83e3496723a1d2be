//! What a metric event says: its kind, value, time and tags.
use vstd::prelude::*;

use crate::any_value::{lemma_any_array_view, values_view, AnyValue, AnyView, OtelValueKind};
use crate::double::{double_from_i64, double_of_int};
use crate::keyed::{value_of, views, with_entry, KeyedMap};
use crate::metric::{OtelMetric, OtelMetricView};
use crate::metric_data::{MetricValue, MetricValueView};
use crate::metric_kind::{Bucket, DELTA, MetricKind, Quantile, Sample, StatisticKind};
use crate::metric_new::INFINITY;
use crate::otlp_metric::{
    Buckets, BucketsView, Data, DataView, ExponentialHistogramDataPoint,
    ExponentialHistogramDataPointView, HistogramDataPoint, HistogramDataPointView, NumberDataPoint,
    NumberDataPointView, NumberValue, SummaryDataPoint,
};
use crate::text::str_eq;
use crate::time::{instant_after, Timestamp};

verus! {

/// The instant a number of nanoseconds after the Unix epoch; none for zero.
pub open spec fn instant_from(nanos: u64) -> Option<Timestamp> {
    if nanos == 0 {
        None
    } else {
        Some(instant_after(nanos))
    }
}

fn nanos_to_ts(nanos: u64) -> (r: Option<Timestamp>)
    ensures
        r == instant_from(nanos),
{
    if nanos == 0 {
        None
    } else {
        Some(Timestamp::from_nanos(nanos))
    }
}

/// The lower half of a word of 64 bits.
pub open spec fn low_half(n: u64) -> u32 {
    (n % 0x1_0000_0000) as u32
}

/// The milliseconds between two times in nanoseconds, as a word of 32 bits; none where the first
/// time is unknown or not before the second, and where the word is zero.
pub open spec fn millis_between(start: u64, end: u64) -> Option<u32> {
    if start > 0 && end > start && low_half(((end - start) / 1_000_000) as u64) != 0 {
        Some(low_half(((end - start) / 1_000_000) as u64))
    } else {
        None
    }
}

/// The text that an attribute of the first data point is.
pub open spec fn first_text(dp_attrs: Seq<Seq<(Seq<char>, AnyView)>>, key: Seq<char>) -> Option<
    Seq<char>,
> {
    if dp_attrs.len() == 0 {
        None
    } else {
        match value_of(dp_attrs[0], key) {
            Some(AnyView::Str(s)) => Some(s),
            _ => None,
        }
    }
}

/// The bits of the double that a number is; zero where there is none.
pub open spec fn number_as_double(v: Option<NumberValue>) -> u64 {
    match v {
        Some(NumberValue::AsDouble(d)) => d,
        Some(NumberValue::AsInt(i)) => double_of_int(i as int) as u64,
        None => 0,
    }
}

/// The first number of some data points, as the bits of a double; zero where there is none.
pub open spec fn first_number(points: Seq<NumberDataPointView>) -> u64 {
    if points.len() == 0 {
        0
    } else {
        number_as_double(points[0].value)
    }
}

/// The texts among attribute values, as the keys of a map.
pub open spec fn text_keys(values: Seq<AnyView>) -> Seq<(Seq<char>, bool)>
    decreases values.len(),
{
    if values.len() == 0 {
        Seq::empty()
    } else {
        let before = text_keys(values.drop_last());
        match values.last() {
            AnyView::Str(s) => with_entry(before, s, true),
            _ => before,
        }
    }
}

/// The texts among attribute values, in order and none of them twice.
pub open spec fn text_set(values: Seq<AnyView>) -> Seq<Seq<char>> {
    let keys = text_keys(values);
    Seq::new(keys.len(), |i: int| keys[i].0)
}

/// The values of a set, where the first data point lists them.
pub open spec fn set_values(dp_attrs: Seq<Seq<(Seq<char>, AnyView)>>) -> Seq<Seq<char>> {
    if dp_attrs.len() == 0 {
        Seq::empty()
    } else {
        match value_of(dp_attrs[0], "vector.set_values"@) {
            Some(AnyView::Array(a)) => text_set(a),
            _ => Seq::empty(),
        }
    }
}

/// The kind that an aggregation temporality stands for.
pub open spec fn kind_of(temporality: i32) -> MetricKind {
    if temporality == DELTA {
        MetricKind::Incremental
    } else {
        MetricKind::Absolute
    }
}

/// The kind that an attribute of the first data point names; absolute where it names none.
pub open spec fn kind_named(dp_attrs: Seq<Seq<(Seq<char>, AnyView)>>) -> MetricKind {
    if first_text(dp_attrs, "vector.metric_kind"@) == Some("incremental"@) {
        MetricKind::Incremental
    } else {
        MetricKind::Absolute
    }
}

/// The samples that the buckets of a histogram stand for.
pub open spec fn samples_of(p: HistogramDataPointView) -> Seq<Sample> {
    let n = if p.explicit_bounds.len() < p.bucket_counts.len() {
        p.explicit_bounds.len()
    } else {
        p.bucket_counts.len()
    };
    Seq::new(
        n,
        |i: int| Sample { value: p.explicit_bounds[i], rate: low_half(p.bucket_counts[i]) },
    )
}

/// The buckets of a histogram; one without a limit has an infinite one.
pub open spec fn buckets_of(p: HistogramDataPointView) -> Seq<Bucket> {
    Seq::new(
        p.bucket_counts.len(),
        |i: int|
            Bucket {
                upper_limit: if i < p.explicit_bounds.len() {
                    p.explicit_bounds[i]
                } else {
                    INFINITY
                },
                count: p.bucket_counts[i],
            },
    )
}

/// The bits of the double with the other sign.
pub open spec fn negated(bits: u64) -> u64 {
    if bits < 0x8000_0000_0000_0000 {
        (bits + 0x8000_0000_0000_0000) as u64
    } else {
        (bits - 0x8000_0000_0000_0000) as u64
    }
}

/// The buckets for the counts of one sign, where `limit` is the limit of the bucket with an index.
pub open spec fn limited(counts: Seq<u64>, limit: spec_fn(int) -> u64) -> Seq<Bucket> {
    Seq::new(counts.len(), |i: int| Bucket { upper_limit: limit(i), count: counts[i] })
}

/// Whether `power` computes what `pow` says: of a scale and an exponent, the bound that the scale
/// gives for the exponent.
pub open spec fn scales<F: Fn(i32, i32) -> u64>(power: F, pow: spec_fn(i32, i32) -> u64) -> bool {
    forall|scale: i32, e: i32, r: u64| #[trigger]
        call_ensures(power, (scale, e), r) ==> r == pow(scale, e)
}

/// The exponent that the scale of a histogram has for the limit of a bucket.
pub open spec fn exponent_at(b: BucketsView, positive: bool, i: int) -> i32 {
    if positive {
        (b.offset + i + 1) as i32
    } else {
        (b.offset + i) as i32
    }
}

/// The buckets of the positive numbers, or those of the negative ones, where `pow` gives the bound for
/// a scale and an exponent.
pub open spec fn side_buckets(
    b: BucketsView,
    scale: i32,
    positive: bool,
    pow: spec_fn(i32, i32) -> u64,
) -> Seq<Bucket> {
    limited(
        b.bucket_counts,
        |i: int|
            if positive {
                pow(scale, exponent_at(b, true, i))
            } else {
                negated(pow(scale, exponent_at(b, false, i)))
            },
    )
}

/// Whether `power` may give what `pow` says of the exponents of the buckets of one sign.
pub open spec fn side_scaled<F: Fn(i32, i32) -> u64>(
    power: F,
    b: BucketsView,
    scale: i32,
    positive: bool,
    pow: spec_fn(i32, i32) -> u64,
) -> bool {
    forall|i: int|
        0 <= i < b.bucket_counts.len() ==> call_ensures(
            power,
            (scale, exponent_at(b, positive, i)),
            pow(scale, #[trigger] exponent_at(b, positive, i)),
        )
}

/// The buckets of a histogram whose bounds grow exponentially: those of the negative numbers, the
/// one of zero, those of the positive numbers. `low` and `high` give the bound for a scale and an
/// exponent, among the negative and the positive numbers.
pub open spec fn signed_buckets(
    p: ExponentialHistogramDataPointView,
    low: spec_fn(i32, i32) -> u64,
    high: spec_fn(i32, i32) -> u64,
) -> Seq<Bucket> {
    let negative = match p.negative {
        Some(b) => side_buckets(b, p.scale, false, low),
        None => Seq::empty(),
    };
    let zero = if p.zero_count > 0 {
        seq![Bucket { upper_limit: 0, count: p.zero_count }]
    } else {
        Seq::empty()
    };
    let positive = match p.positive {
        Some(b) => side_buckets(b, p.scale, true, high),
        None => Seq::empty(),
    };
    negative + zero + positive
}

/// Whether `power` may give what `low` and `high` say of the exponents of all buckets.
pub open spec fn buckets_scaled<F: Fn(i32, i32) -> u64>(
    power: F,
    p: ExponentialHistogramDataPointView,
    low: spec_fn(i32, i32) -> u64,
    high: spec_fn(i32, i32) -> u64,
) -> bool {
    &&& p.negative matches Some(b) ==> side_scaled(power, b, p.scale, false, low)
    &&& p.positive matches Some(b) ==> side_scaled(power, b, p.scale, true, high)
}

/// What `low` and `high` say of the exponents of all buckets is what `pow` says, if `power` may give
/// the one and computes the other.
proof fn lemma_scaled<F: Fn(i32, i32) -> u64>(
    power: F,
    p: ExponentialHistogramDataPointView,
    low: spec_fn(i32, i32) -> u64,
    high: spec_fn(i32, i32) -> u64,
    pow: spec_fn(i32, i32) -> u64,
)
    requires
        buckets_scaled(power, p, low, high),
        scales(power, pow),
    ensures
        signed_buckets(p, low, high) == signed_buckets(p, pow, pow),
{
    if let Some(b) = p.negative {
        let (x, y) = (side_buckets(b, p.scale, false, low), side_buckets(b, p.scale, false, pow));
        assert forall|i: int| 0 <= i < x.len() implies x[i] == y[i] by {
            assert(call_ensures(
                power,
                (p.scale, exponent_at(b, false, i)),
                low(p.scale, exponent_at(b, false, i)),
            ));
        }
        assert(x =~= y);
    }
    if let Some(b) = p.positive {
        let (x, y) = (side_buckets(b, p.scale, true, high), side_buckets(b, p.scale, true, pow));
        assert forall|i: int| 0 <= i < x.len() implies x[i] == y[i] by {
            assert(call_ensures(
                power,
                (p.scale, exponent_at(b, true, i)),
                high(p.scale, exponent_at(b, true, i)),
            ));
        }
        assert(x =~= y);
    }
}

/// The sum, or zero where there is none.
pub open spec fn sum_or_zero(sum: Option<u64>) -> u64 {
    match sum {
        Some(s) => s,
        None => 0,
    }
}

/// Whether the exponents of all buckets fit into a word of 32 bits.
pub open spec fn exponents_fit(p: ExponentialHistogramDataPointView) -> bool {
    &&& p.negative matches Some(b) ==> b.offset + b.bucket_counts.len() <= 0x8000_0000
    &&& p.positive matches Some(b) ==> b.offset + b.bucket_counts.len() <= i32::MAX
}

impl OtelMetricView {
    /// The kind of the metric.
    pub open spec fn kind(&self) -> MetricKind {
        match self.metric.data {
            Some(DataView::Sum(s)) => kind_of(s.aggregation_temporality),
            Some(DataView::Gauge(_)) => kind_named(self.dp_attrs),
            Some(DataView::Histogram(h)) => kind_of(h.aggregation_temporality),
            Some(DataView::ExponentialHistogram(e)) => kind_of(e.aggregation_temporality),
            _ => MetricKind::Absolute,
        }
    }

    /// The value of the metric: that of its first data point. `pow` gives the bound for a scale
    /// and an exponent.
    pub open spec fn value(&self, pow: spec_fn(i32, i32) -> u64) -> MetricValueView {
        self.signed_value(pow, pow)
    }

    /// Whether `power` may give what `low` and `high` say of the exponents of all buckets of the
    /// first data point.
    pub open spec fn is_scaled<F: Fn(i32, i32) -> u64>(
        &self,
        power: F,
        low: spec_fn(i32, i32) -> u64,
        high: spec_fn(i32, i32) -> u64,
    ) -> bool {
        self.metric.data matches Some(DataView::ExponentialHistogram(e)) ==> (e.data_points.len() > 0
            ==> buckets_scaled(power, e.data_points[0], low, high))
    }

    /// The value of the metric: that of its first data point. `low` and `high` give the bound for a
    /// scale and an exponent, among the negative and the positive numbers.
    pub open spec fn signed_value(
        &self,
        low: spec_fn(i32, i32) -> u64,
        high: spec_fn(i32, i32) -> u64,
    ) -> MetricValueView {
        match self.metric.data {
            Some(DataView::Sum(s)) => if s.is_monotonic {
                MetricValueView::Counter { value: first_number(s.data_points) }
            } else {
                MetricValueView::Gauge { value: first_number(s.data_points) }
            },
            Some(DataView::Gauge(g)) => if first_text(self.dp_attrs, "vector.metric_type"@) == Some(
                "set"@,
            ) {
                MetricValueView::SetOf { values: set_values(self.dp_attrs) }
            } else {
                MetricValueView::Gauge { value: first_number(g.data_points) }
            },
            Some(DataView::Histogram(h)) => {
                let none = h.data_points.len() == 0;
                let p = h.data_points[0];
                if first_text(self.dp_attrs, "vector.metric_type"@) == Some("distribution"@) {
                    MetricValueView::Distribution {
                        samples: if none {
                            Seq::empty()
                        } else {
                            samples_of(p)
                        },
                        statistic: if first_text(self.dp_attrs, "vector.statistic"@) == Some(
                            "summary"@,
                        ) {
                            StatisticKind::Summary
                        } else {
                            StatisticKind::Histogram
                        },
                    }
                } else if none {
                    MetricValueView::AggregatedHistogram { buckets: Seq::empty(), count: 0, sum: 0 }
                } else {
                    MetricValueView::AggregatedHistogram {
                        buckets: buckets_of(p),
                        count: p.count,
                        sum: sum_or_zero(p.sum),
                    }
                }
            },
            Some(DataView::Summary(s)) => {
                let p = s.data_points[0];
                if s.data_points.len() == 0 {
                    MetricValueView::AggregatedSummary { quantiles: Seq::empty(), count: 0, sum: 0 }
                } else {
                    MetricValueView::AggregatedSummary {
                        quantiles: Seq::new(
                            p.quantile_values.len(),
                            |i: int|
                                Quantile {
                                    quantile: p.quantile_values[i].quantile,
                                    value: p.quantile_values[i].value,
                                },
                        ),
                        count: p.count,
                        sum: p.sum,
                    }
                }
            },
            Some(DataView::ExponentialHistogram(e)) => {
                let p = e.data_points[0];
                if e.data_points.len() == 0 {
                    MetricValueView::AggregatedHistogram { buckets: Seq::empty(), count: 0, sum: 0 }
                } else {
                    MetricValueView::AggregatedHistogram {
                        buckets: signed_buckets(p, low, high),
                        count: p.count,
                        sum: sum_or_zero(p.sum),
                    }
                }
            },
            None => MetricValueView::Gauge { value: 0 },
        }
    }

    /// Whether the bounds of all buckets of the first data point can be computed.
    pub open spec fn has_bounds(&self) -> bool {
        self.metric.data matches Some(DataView::ExponentialHistogram(e)) ==> (e.data_points.len() > 0
            ==> exponents_fit(e.data_points[0]))
    }

    /// The time of the metric: that of its first data point.
    pub open spec fn timestamp(&self) -> Option<Timestamp> {
        match self.metric.data {
            Some(d) => match d.first_times() {
                Some((start, end)) => instant_from(end),
                None => None,
            },
            None => None,
        }
    }

    /// Over how many milliseconds the metric was taken.
    pub open spec fn interval_ms(&self) -> Option<u32> {
        match self.metric.data {
            Some(d) => match d.first_times() {
                Some((start, end)) => millis_between(start, end),
                None => None,
            },
            None => None,
        }
    }

    /// The namespace of the metric.
    pub open spec fn namespace(&self) -> Option<Seq<char>> {
        match value_of(self.resource_attrs, "metric.namespace"@) {
            Some(AnyView::Str(s)) => Some(s),
            _ => None,
        }
    }
}

pub(crate) fn first_number_of(points: &Vec<NumberDataPoint>) -> (r: u64)
    ensures
        r == first_number(views(points@)),
{
    if points.len() == 0 {
        return 0;
    }
    match points[0].value {
        Some(NumberValue::AsDouble(d)) => d,
        Some(NumberValue::AsInt(i)) => double_from_i64(i),
        None => 0,
    }
}

fn kind_from(temporality: i32) -> (r: MetricKind)
    ensures
        r == kind_of(temporality),
{
    if temporality == DELTA {
        MetricKind::Incremental
    } else {
        MetricKind::Absolute
    }
}

fn to_low_half(n: u64) -> (r: u32)
    ensures
        r == low_half(n),
{
    (n % 0x1_0000_0000) as u32
}

pub(crate) fn negate(bits: u64) -> (r: u64)
    ensures
        r == negated(bits),
{
    if bits < 0x8000_0000_0000_0000 {
        bits + 0x8000_0000_0000_0000
    } else {
        bits - 0x8000_0000_0000_0000
    }
}

/// The texts among attribute values, in order and none of them twice.
pub fn collect_texts(values: &Vec<AnyValue>) -> (r: Vec<String>)
    ensures
        views(r@) == text_set(values_view(values@)),
{
    let mut keys: KeyedMap<bool> = KeyedMap::new();
    let ghost all = values_view(values@);
    let mut i: usize = 0;
    assert(all.take(0) =~= Seq::empty());
    while i < values.len()
        invariant
            i <= values@.len(),
            all == values_view(values@),
            keys@ == text_keys(all.take(i as int)),
        decreases values@.len() - i,
    {
        assert(all.take(i + 1).drop_last() =~= all.take(i as int));
        assert(all[i as int] == values@[i as int]@);
        if let Some(OtelValueKind::StringValue(s)) = &values[i].value {
            keys.insert(s.clone(), true);
        }
        i = i + 1;
    }
    assert(all.take(i as int) =~= all);
    let mut r: Vec<String> = Vec::new();
    let ghost expected = text_set(all);
    for entry in it: keys.entries
        invariant
            it.seq() == keys.entries@,
            keys@ == text_keys(all),
            r@.len() == it.index(),
            forall|j: int| 0 <= j < r@.len() ==> (#[trigger] r@[j])@ == keys@[j].0,
    {
        r.push(entry.0);
    }
    assert(views(r@) =~= expected);
    r
}

/// The samples that the buckets of a histogram stand for.
fn histogram_samples(p: &HistogramDataPoint) -> (r: Vec<Sample>)
    ensures
        r@ == samples_of(p@),
{
    let mut r: Vec<Sample> = Vec::new();
    let mut i: usize = 0;
    while i < p.explicit_bounds.len() && i < p.bucket_counts.len()
        invariant
            i <= p.explicit_bounds@.len(),
            i <= p.bucket_counts@.len(),
            r@.len() == i,
            forall|j: int|
                0 <= j < i ==> #[trigger] r@[j] == (Sample {
                    value: p.explicit_bounds@[j],
                    rate: low_half(p.bucket_counts@[j]),
                }),
        decreases p.explicit_bounds@.len() - i,
    {
        r.push(Sample { value: p.explicit_bounds[i], rate: to_low_half(p.bucket_counts[i]) });
        i = i + 1;
    }
    assert(r@ =~= samples_of(p@));
    r
}

/// The buckets of a histogram; one without a limit has an infinite one.
fn histogram_buckets(p: &HistogramDataPoint) -> (r: Vec<Bucket>)
    ensures
        r@ == buckets_of(p@),
{
    let mut r: Vec<Bucket> = Vec::new();
    let mut i: usize = 0;
    while i < p.bucket_counts.len()
        invariant
            i <= p.bucket_counts@.len(),
            r@.len() == i,
            forall|j: int| 0 <= j < i ==> #[trigger] r@[j] == buckets_of(p@)[j],
        decreases p.bucket_counts@.len() - i,
    {
        let upper_limit = if i < p.explicit_bounds.len() {
            p.explicit_bounds[i]
        } else {
            INFINITY
        };
        r.push(Bucket { upper_limit, count: p.bucket_counts[i] });
        i = i + 1;
    }
    assert(r@ =~= buckets_of(p@));
    r
}

/// Adds the buckets of the negative numbers, or those of the positive ones.
fn push_exponential<F: Fn(i32, i32) -> u64>(
    r: &mut Vec<Bucket>,
    b: &Buckets,
    scale: i32,
    positive: bool,
    power: &F,
)
    requires
        forall|s: i32, e: i32| call_requires(*power, (s, e)),
        b.offset + b.bucket_counts@.len() + (if positive {
            1int
        } else {
            0
        }) <= 0x8000_0000,
    ensures
        exists|pow: spec_fn(i32, i32) -> u64|
            final(r)@ == old(r)@ + #[trigger] side_buckets(b@, scale, positive, pow)
                && side_scaled(*power, b@, scale, positive, pow),
{
    let ghost before = r@;
    let ghost mut drawn: Seq<u64> = Seq::empty();
    let mut i: usize = 0;
    while i < b.bucket_counts.len()
        invariant
            i <= b.bucket_counts@.len(),
            r@.len() == before.len() + i,
            before == old(r)@,
            r@.take(before.len() as int) == before,
            forall|s: i32, e: i32| call_requires(*power, (s, e)),
            b.offset + b.bucket_counts@.len() + (if positive {
                1int
            } else {
                0
            }) <= 0x8000_0000,
            drawn.len() == i,
            forall|j: int|
                0 <= j < i ==> call_ensures(
                    *power,
                    (scale, exponent_at(b@, positive, j)),
                    #[trigger] drawn[j],
                ),
            forall|j: int|
                0 <= j < i ==> #[trigger] r@[before.len() + j] == (Bucket {
                    upper_limit: if positive {
                        drawn[j]
                    } else {
                        negated(drawn[j])
                    },
                    count: b.bucket_counts@[j],
                }),
        decreases b.bucket_counts@.len() - i,
    {
        let idx: i32 = (b.offset as i64 + i as i64) as i32;
        let exponent: i32 = if positive {
            idx + 1
        } else {
            idx
        };
        let bound = power(scale, exponent);
        assert(exponent == exponent_at(b@, positive, i as int));
        let upper_limit = if positive {
            bound
        } else {
            negate(bound)
        };
        let ghost was = r@;
        r.push(Bucket { upper_limit, count: b.bucket_counts[i] });
        proof {
            drawn = drawn.push(bound);
        }
        assert(r@.take(before.len() as int) =~= was.take(before.len() as int));
        i = i + 1;
    }
    proof {
        let first = exponent_at(b@, positive, 0);
        let pow = |s: i32, e: i32| drawn[e - first];
        let added = side_buckets(b@, scale, positive, pow);
        assert forall|j: int| 0 <= j < drawn.len() implies pow(
            scale,
            #[trigger] exponent_at(b@, positive, j),
        ) == drawn[j] by {
            assert(exponent_at(b@, positive, j) - first == j);
        }
        assert forall|k: int| 0 <= k < r@.len() implies r@[k] == (before + added)[k] by {
            if k < before.len() {
                assert(r@[k] == r@.take(before.len() as int)[k]);
            } else {
                let j = k - before.len();
                assert(r@[before.len() + j] == (before + added)[k]) by {
                    assert(pow(scale, exponent_at(b@, positive, j)) == drawn[j]);
                }
            }
        }
        assert(r@ =~= before + added);
        assert(side_scaled(*power, b@, scale, positive, pow)) by {
            assert forall|j: int| 0 <= j < b@.bucket_counts.len() implies call_ensures(
                *power,
                (scale, exponent_at(b@, positive, j)),
                pow(scale, #[trigger] exponent_at(b@, positive, j)),
            ) by {
                assert(call_ensures(*power, (scale, exponent_at(b@, positive, j)), drawn[j]));
            }
        }
    }
}

/// The buckets of a histogram whose bounds grow exponentially.
fn all_exponential<F: Fn(i32, i32) -> u64>(p: &ExponentialHistogramDataPoint, power: &F) -> (r: Vec<
    Bucket,
>)
    requires
        forall|s: i32, e: i32| call_requires(*power, (s, e)),
        exponents_fit(p@),
    ensures
        exists|low: spec_fn(i32, i32) -> u64, high: spec_fn(i32, i32) -> u64|
            r@ == #[trigger] signed_buckets(p@, low, high) && buckets_scaled(*power, p@, low, high),
{
    let mut r: Vec<Bucket> = Vec::new();
    let ghost mut low = |s: i32, e: i32| 0u64;
    let ghost mut high = |s: i32, e: i32| 0u64;
    if let Some(b) = &p.negative {
        push_exponential(&mut r, b, p.scale, false, power);
        proof {
            low = choose|pow: spec_fn(i32, i32) -> u64|
                r@ == Seq::<Bucket>::empty() + #[trigger] side_buckets(b@, p.scale, false, pow)
                    && side_scaled(*power, b@, p.scale, false, pow);
            assert(r@ =~= side_buckets(b@, p.scale, false, low));
        }
    }
    if p.zero_count > 0 {
        r.push(Bucket { upper_limit: 0, count: p.zero_count });
    }
    let ghost second = r@;
    if let Some(b) = &p.positive {
        push_exponential(&mut r, b, p.scale, true, power);
        proof {
            high = choose|pow: spec_fn(i32, i32) -> u64|
                r@ == second + #[trigger] side_buckets(b@, p.scale, true, pow) && side_scaled(
                    *power,
                    b@,
                    p.scale,
                    true,
                    pow,
                );
        }
    }
    assert(r@ =~= signed_buckets(p@, low, high));
    r
}

fn summary_quantiles(p: &SummaryDataPoint) -> (r: Vec<Quantile>)
    ensures
        r@.len() == p@.quantile_values.len(),
        forall|i: int|
            0 <= i < r@.len() ==> #[trigger] r@[i] == (Quantile {
                quantile: p@.quantile_values[i].quantile,
                value: p@.quantile_values[i].value,
            }),
{
    let mut r: Vec<Quantile> = Vec::new();
    let mut i: usize = 0;
    while i < p.quantile_values.len()
        invariant
            i <= p.quantile_values@.len(),
            r@.len() == i,
            forall|j: int|
                0 <= j < r@.len() ==> #[trigger] r@[j] == (Quantile {
                    quantile: p@.quantile_values[j].quantile,
                    value: p@.quantile_values[j].value,
                }),
        decreases p.quantile_values@.len() - i,
    {
        r.push(
            Quantile {
                quantile: p.quantile_values[i].quantile,
                value: p.quantile_values[i].value,
            },
        );
        i = i + 1;
    }
    r
}

impl OtelMetric {
    /// The text that an attribute of the first data point is.
    pub(crate) fn dp_get_str(&self, key: &str) -> (r: Option<&str>)
        ensures
            match r {
                Some(s) => first_text(self@.dp_attrs, key@) == Some(s@),
                None => first_text(self@.dp_attrs, key@) is None,
            },
    {
        if self.dp_attrs.len() == 0 {
            return None;
        }
        match self.dp_attrs[0].get(key) {
            Some(v) => match &v.value {
                Some(OtelValueKind::StringValue(s)) => Some(s.as_str()),
                _ => None,
            },
            None => None,
        }
    }

    /// Whether an attribute of the first data point is a text.
    pub(crate) fn dp_has_str(&self, key: &str, text: &str) -> (r: bool)
        ensures
            r == (first_text(self@.dp_attrs, key@) == Some(text@)),
    {
        match self.dp_get_str(key) {
            Some(s) => str_eq(s, text),
            None => false,
        }
    }

    /// The values of a set, where the first data point lists them.
    fn listed_set_values(&self) -> (r: Vec<String>)
        ensures
            views(r@) == set_values(self@.dp_attrs),
    {
        if self.dp_attrs.len() > 0 {
            if let Some(v) = self.dp_attrs[0].get("vector.set_values") {
                if let Some(OtelValueKind::ArrayValue(a)) = &v.value {
                    proof {
                        lemma_any_array_view(*a);
                    }
                    return collect_texts(&a.values);
                }
            }
        }
        let none: Vec<String> = Vec::new();
        assert(views(none@) =~= Seq::empty());
        none
    }

    /// Get the metric kind.
    pub fn kind(&self) -> (r: MetricKind)
        ensures
            r == self@.kind(),
    {
        match &self.metric.data {
            Some(Data::Sum(s)) => kind_from(s.aggregation_temporality),
            Some(Data::Gauge(_)) => if self.dp_has_str("vector.metric_kind", "incremental") {
                MetricKind::Incremental
            } else {
                MetricKind::Absolute
            },
            Some(Data::Histogram(h)) => kind_from(h.aggregation_temporality),
            Some(Data::ExponentialHistogram(e)) => kind_from(e.aggregation_temporality),
            _ => MetricKind::Absolute,
        }
    }

    /// Get the metric value. `power` gives the bound for a scale and an exponent: two to the power
    /// of two to the power of the negated scale, to the power of the exponent.
    pub fn value<F: Fn(i32, i32) -> u64>(&self, power: F) -> (r: MetricValue)
        requires
            forall|s: i32, e: i32| call_requires(power, (s, e)),
            self@.has_bounds(),
        ensures
            forall|pow: spec_fn(i32, i32) -> u64| #[trigger]
                scales(power, pow) ==> r@ == self@.value(pow),
            exists|low: spec_fn(i32, i32) -> u64, high: spec_fn(i32, i32) -> u64|
                r@ == #[trigger] self@.signed_value(low, high) && self@.is_scaled(power, low, high),
    {
        let ghost mut low = |s: i32, e: i32| 0u64;
        let ghost mut high = |s: i32, e: i32| 0u64;
        let r = match &self.metric.data {
            Some(Data::Sum(s)) => if s.is_monotonic {
                MetricValue::Counter { value: first_number_of(&s.data_points) }
            } else {
                MetricValue::Gauge { value: first_number_of(&s.data_points) }
            },
            Some(Data::Gauge(g)) => if self.dp_has_str("vector.metric_type", "set") {
                MetricValue::SetOf { values: self.listed_set_values() }
            } else {
                MetricValue::Gauge { value: first_number_of(&g.data_points) }
            },
            Some(Data::Histogram(h)) => if self.dp_has_str("vector.metric_type", "distribution") {
                let statistic = if self.dp_has_str("vector.statistic", "summary") {
                    StatisticKind::Summary
                } else {
                    StatisticKind::Histogram
                };
                let samples = if h.data_points.len() == 0 {
                    Vec::new()
                } else {
                    histogram_samples(&h.data_points[0])
                };
                MetricValue::Distribution { samples, statistic }
            } else if h.data_points.len() == 0 {
                MetricValue::AggregatedHistogram { buckets: Vec::new(), count: 0, sum: 0 }
            } else {
                MetricValue::AggregatedHistogram {
                    buckets: histogram_buckets(&h.data_points[0]),
                    count: h.data_points[0].count,
                    sum: h.data_points[0].sum.unwrap_or(0),
                }
            },
            Some(Data::Summary(s)) => if s.data_points.len() == 0 {
                MetricValue::AggregatedSummary { quantiles: Vec::new(), count: 0, sum: 0 }
            } else {
                let quantiles = summary_quantiles(&s.data_points[0]);
                let r = MetricValue::AggregatedSummary {
                    quantiles,
                    count: s.data_points[0].count,
                    sum: s.data_points[0].sum,
                };
                proof {
                    let pow = |s: i32, e: i32| 0u64;
                    assert(r@->AggregatedSummary_quantiles =~= self@.value(
                        pow,
                    )->AggregatedSummary_quantiles);
                }
                r
            },
            Some(Data::ExponentialHistogram(e)) => if e.data_points.len() == 0 {
                MetricValue::AggregatedHistogram { buckets: Vec::new(), count: 0, sum: 0 }
            } else {
                let buckets = all_exponential(&e.data_points[0], &power);
                proof {
                    let p = e.data_points@[0]@;
                    let (l, h) = choose|l: spec_fn(i32, i32) -> u64, h: spec_fn(i32, i32) -> u64|
                        buckets@ == #[trigger] signed_buckets(p, l, h) && buckets_scaled(
                            power,
                            p,
                            l,
                            h,
                        );
                    low = l;
                    high = h;
                    assert forall|pow: spec_fn(i32, i32) -> u64| #[trigger] scales(
                        power,
                        pow,
                    ) implies buckets@ == signed_buckets(p, pow, pow) by {
                        lemma_scaled(power, p, l, h, pow);
                    }
                }
                MetricValue::AggregatedHistogram {
                    buckets,
                    count: e.data_points[0].count,
                    sum: e.data_points[0].sum.unwrap_or(0),
                }
            },
            None => MetricValue::Gauge { value: 0 },
        };
        assert(r@ == self@.signed_value(low, high));
        r
    }

    /// Get the metric timestamp from the first data point.
    pub fn timestamp(&self) -> (r: Option<Timestamp>)
        ensures
            r == self@.timestamp(),
    {
        match &self.metric.data {
            Some(d) => match d.first_times() {
                Some((_, end)) => nanos_to_ts(end),
                None => None,
            },
            None => None,
        }
    }

    /// Get the interval between start_time and end_time in milliseconds.
    pub fn interval_ms(&self) -> (r: Option<u32>)
        ensures
            r == self@.interval_ms(),
    {
        match &self.metric.data {
            Some(d) => match d.first_times() {
                Some((start, end)) => if start > 0 && end > start {
                    let diff_ms = to_low_half((end - start) / 1_000_000);
                    if diff_ms != 0 {
                        Some(diff_ms)
                    } else {
                        None
                    }
                } else {
                    None
                },
                None => None,
            },
            None => None,
        }
    }

    /// Extract the kind, the value and the time. `power` gives the bound for a scale and an
    /// exponent.
    pub(crate) fn extract_metric_data<F: Fn(i32, i32) -> u64>(&self, power: F) -> (r: (
        MetricKind,
        MetricValue,
        Option<Timestamp>,
    ))
        requires
            forall|s: i32, e: i32| call_requires(power, (s, e)),
            self@.has_bounds(),
        ensures
            r.0 == self@.kind(),
            forall|pow: spec_fn(i32, i32) -> u64| #[trigger]
                scales(power, pow) ==> r.1@ == self@.value(pow),
            exists|low: spec_fn(i32, i32) -> u64, high: spec_fn(i32, i32) -> u64|
                r.1@ == #[trigger] self@.signed_value(low, high) && self@.is_scaled(
                    power,
                    low,
                    high,
                ),
            r.2 == self@.timestamp(),
    {
        (self.kind(), self.value(power), self.timestamp())
    }

    /// Get the metric namespace from the `metric.namespace` resource attribute.
    pub fn namespace(&self) -> (r: Option<&str>)
        ensures
            match r {
                Some(s) => self@.namespace() == Some(s@),
                None => self@.namespace() is None,
            },
    {
        match self.resource_attrs.get("metric.namespace") {
            Some(v) => match &v.value {
                Some(OtelValueKind::StringValue(s)) => Some(s.as_str()),
                _ => None,
            },
            None => None,
        }
    }
}

} // verus!
