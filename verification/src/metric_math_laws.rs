//! What holds of metrics that are added, subtracted and set to zero: what becomes of each number of
//! each data point, and what stays as it was.
use vstd::prelude::*;

use crate::metric_math::{
    addable, addables_fit, all_addable, all_countable, all_differing, all_growable, all_mergeable,
    all_separable, can_add, can_subtract, countable, countables_fit, counts_cover, data_added,
    data_subtracted, data_zeroed, differing, differings_fit, growable, growables_fit, mergeable,
    mergeables_fit, separable,
};
use crate::otlp_metric::{
    BucketsView, DataView, ExponentialHistogramDataPointView, ExponentialHistogramView, GaugeView,
    HistogramDataPointView, HistogramView, NumberDataPointView, NumberValue, SumView,
    SummaryDataPointView,
};

verus! {

/// Whether all counts are zero.
pub open spec fn all_zero(counts: Seq<u64>) -> bool {
    forall|i: int| 0 <= i < counts.len() ==> #[trigger] counts[i] == 0
}

/// Whether the buckets of one sign are those given, with zero in each.
pub open spec fn side_is_zero(before: Option<BucketsView>, after: Option<BucketsView>) -> bool {
    match (before, after) {
        (Some(b), Some(a)) => a.offset == b.offset && a.bucket_counts.len()
            == b.bucket_counts.len() && all_zero(a.bucket_counts),
        (None, None) => true,
        _ => false,
    }
}

/// Whether a number is zero, of the type that it was.
pub open spec fn number_is_zero(p: NumberDataPointView, r: NumberDataPointView) -> bool {
    match p.value {
        Some(NumberValue::AsDouble(_)) => r.value == Some(NumberValue::AsDouble(0)),
        Some(NumberValue::AsInt(_)) => r.value == Some(NumberValue::AsInt(0)),
        None => r.value is None,
    }
}

/// After a metric was set to zero, every number of every data point is zero, whatever it was: that of
/// a sum or a gauge; the count, the sum and each count of a bucket of a histogram; the count, the sum
/// and the value at each quantile of a summary. There are as many data points, buckets and quantiles
/// as before.
pub proof fn law_zero_is_everywhere(d: DataView, i: int)
    requires
        i >= 0,
    ensures
        match (d, data_zeroed(d)) {
            (DataView::Sum(x), DataView::Sum(y)) => {
                &&& y.data_points.len() == x.data_points.len()
                &&& i < x.data_points.len() ==> number_is_zero(x.data_points[i], y.data_points[i])
            },
            (DataView::Gauge(x), DataView::Gauge(y)) => {
                &&& y.data_points.len() == x.data_points.len()
                &&& i < x.data_points.len() ==> number_is_zero(x.data_points[i], y.data_points[i])
            },
            (DataView::Histogram(x), DataView::Histogram(y)) => {
                &&& y.data_points.len() == x.data_points.len()
                &&& i < x.data_points.len() ==> {
                    let (p, r) = (x.data_points[i], y.data_points[i]);
                    &&& r.count == 0
                    &&& r.sum == Some(0u64)
                    &&& r.bucket_counts.len() == p.bucket_counts.len()
                    &&& all_zero(r.bucket_counts)
                }
            },
            (DataView::ExponentialHistogram(x), DataView::ExponentialHistogram(y)) => {
                &&& y.data_points.len() == x.data_points.len()
                &&& i < x.data_points.len() ==> {
                    let (p, r) = (x.data_points[i], y.data_points[i]);
                    &&& r.count == 0
                    &&& r.sum == Some(0u64)
                    &&& r.zero_count == 0
                    &&& side_is_zero(p.positive, r.positive)
                    &&& side_is_zero(p.negative, r.negative)
                }
            },
            (DataView::Summary(x), DataView::Summary(y)) => {
                &&& y.data_points.len() == x.data_points.len()
                &&& i < x.data_points.len() ==> {
                    let (p, r) = (x.data_points[i], y.data_points[i]);
                    &&& r.count == 0
                    &&& r.sum == 0
                    &&& r.quantile_values.len() == p.quantile_values.len()
                    &&& forall|k: int|
                        0 <= k < r.quantile_values.len() ==> (#[trigger] r.quantile_values[k]).value
                            == 0 && r.quantile_values[k].quantile == p.quantile_values[k].quantile
                }
            },
            _ => false,
        },
{
}

/// A metric that was set to zero keeps all else: its temporality and whether it is monotonic, and of
/// each data point the attributes, the times, the bounds, the scale, the least and the greatest value,
/// the flags and the exemplars.
pub proof fn law_zero_keeps_the_rest(d: DataView, i: int)
    requires
        i >= 0,
    ensures
        match (d, data_zeroed(d)) {
            (DataView::Sum(x), DataView::Sum(y)) => {
                &&& y == (SumView { data_points: y.data_points, ..x })
                &&& i < x.data_points.len() ==> y.data_points[i] == (NumberDataPointView {
                    value: y.data_points[i].value,
                    ..x.data_points[i]
                })
            },
            (DataView::Gauge(x), DataView::Gauge(y)) => {
                i < x.data_points.len() ==> y.data_points[i] == (NumberDataPointView {
                    value: y.data_points[i].value,
                    ..x.data_points[i]
                })
            },
            (DataView::Histogram(x), DataView::Histogram(y)) => {
                &&& y == (HistogramView { data_points: y.data_points, ..x })
                &&& i < x.data_points.len() ==> {
                    let r = y.data_points[i];
                    r == (HistogramDataPointView {
                        count: r.count,
                        sum: r.sum,
                        bucket_counts: r.bucket_counts,
                        ..x.data_points[i]
                    })
                }
            },
            (DataView::ExponentialHistogram(x), DataView::ExponentialHistogram(y)) => {
                &&& y == (ExponentialHistogramView { data_points: y.data_points, ..x })
                &&& i < x.data_points.len() ==> {
                    let r = y.data_points[i];
                    r == (ExponentialHistogramDataPointView {
                        count: r.count,
                        sum: r.sum,
                        zero_count: r.zero_count,
                        positive: r.positive,
                        negative: r.negative,
                        ..x.data_points[i]
                    })
                }
            },
            (DataView::Summary(x), DataView::Summary(y)) => {
                i < x.data_points.len() ==> {
                    let r = y.data_points[i];
                    r == (SummaryDataPointView {
                        count: r.count,
                        sum: r.sum,
                        quantile_values: r.quantile_values,
                        ..x.data_points[i]
                    })
                }
            },
            _ => false,
        },
{
}

/// Whether each count is the sum of two others.
pub open spec fn are_sums(a: Seq<u64>, b: Seq<u64>, r: Seq<u64>) -> bool {
    &&& r.len() == a.len()
    &&& forall|i: int| 0 <= i < r.len() ==> #[trigger] r[i] == a[i] + b[i]
}

/// The sum of a data point, zero where it has none.
pub open spec fn sum_of(sum: Option<u64>) -> u64 {
    if sum is Some {
        sum->0
    } else {
        0
    }
}

/// Whether a data point is another one with a number added, where `f` adds doubles.
pub open spec fn number_grew(
    p: NumberDataPointView,
    o: NumberDataPointView,
    r: NumberDataPointView,
    f: spec_fn(u64, u64) -> u64,
) -> bool {
    &&& match (p.value, o.value, r.value) {
        (
            Some(NumberValue::AsDouble(a)),
            Some(NumberValue::AsDouble(b)),
            Some(NumberValue::AsDouble(c)),
        ) => c == f(a, b),
        (
            Some(NumberValue::AsInt(a)),
            Some(NumberValue::AsInt(b)),
            Some(NumberValue::AsInt(c)),
        ) => c == a + b,
        _ => false,
    }
    &&& r == (NumberDataPointView { value: r.value, ..p })
}

/// Where a sum could be added to another one, each number of a pair of data points is the sum of the
/// two, and the data points without a partner, and all else, are as they were.
pub proof fn law_sums_are_added(s: SumView, o: SumView, i: int, f: spec_fn(u64, u64) -> u64)
    requires
        can_add(Some(DataView::Sum(s)), Some(DataView::Sum(o))),
        addables_fit(s.data_points, o.data_points),
        0 <= i < s.data_points.len(),
    ensures
        data_added(Some(DataView::Sum(s)), Some(DataView::Sum(o)), f) matches Some(
            DataView::Sum(after),
        ) && {
            &&& after == (SumView { data_points: after.data_points, ..s })
            &&& after.data_points.len() == s.data_points.len()
            &&& if i < o.data_points.len() {
                number_grew(s.data_points[i], o.data_points[i], after.data_points[i], f)
            } else {
                after.data_points[i] == s.data_points[i]
            }
        },
{
    if i < o.data_points.len() {
        assert(all_addable(s.data_points, o.data_points, i));
        assert(addable(s.data_points[i], o.data_points[i]));
    }
}

/// Where a gauge could be added to another one, each number of a pair of data points is the sum of the
/// two, and the data points without a partner, and all else, are as they were.
pub proof fn law_gauges_are_added(g: GaugeView, o: GaugeView, i: int, f: spec_fn(u64, u64) -> u64)
    requires
        can_add(Some(DataView::Gauge(g)), Some(DataView::Gauge(o))),
        addables_fit(g.data_points, o.data_points),
        0 <= i < g.data_points.len(),
    ensures
        data_added(Some(DataView::Gauge(g)), Some(DataView::Gauge(o)), f) matches Some(
            DataView::Gauge(after),
        ) && {
            &&& after.data_points.len() == g.data_points.len()
            &&& if i < o.data_points.len() {
                number_grew(g.data_points[i], o.data_points[i], after.data_points[i], f)
            } else {
                after.data_points[i] == g.data_points[i]
            }
        },
{
    if i < o.data_points.len() {
        assert(all_addable(g.data_points, o.data_points, i));
        assert(addable(g.data_points[i], o.data_points[i]));
    }
}

/// Where histograms could be added, each count of a bucket, the count and the sum of a pair of data
/// points are the sums of the two, and all else is as it was.
pub proof fn law_histograms_are_added(
    h: HistogramView,
    o: HistogramView,
    i: int,
    f: spec_fn(u64, u64) -> u64,
)
    requires
        can_add(Some(DataView::Histogram(h)), Some(DataView::Histogram(o))),
        mergeables_fit(h.data_points, o.data_points),
        0 <= i < h.data_points.len(),
    ensures
        data_added(Some(DataView::Histogram(h)), Some(DataView::Histogram(o)), f) matches Some(
            DataView::Histogram(after),
        ) && {
            let (p, q, r) = (h.data_points[i], o.data_points[i], after.data_points[i]);
            &&& after == (HistogramView { data_points: after.data_points, ..h })
            &&& after.data_points.len() == h.data_points.len()
            &&& if i < o.data_points.len() {
                &&& are_sums(p.bucket_counts, q.bucket_counts, r.bucket_counts)
                &&& r.count == p.count + q.count
                &&& r.sum == Some(f(sum_of(p.sum), sum_of(q.sum)))
                &&& r == (HistogramDataPointView {
                    bucket_counts: r.bucket_counts,
                    count: r.count,
                    sum: r.sum,
                    ..p
                })
            } else {
                r == p
            }
        },
{
    if i < o.data_points.len() {
        assert(all_mergeable(h.data_points, o.data_points, i));
        assert(mergeable(h.data_points[i], o.data_points[i]));
    }
}

/// Whether the buckets of one sign are the sums of two others; those without a partner stay.
pub open spec fn side_grew(
    a: Option<BucketsView>,
    b: Option<BucketsView>,
    r: Option<BucketsView>,
) -> bool {
    match (a, b, r) {
        (Some(a), Some(b), Some(r)) => r.offset == a.offset && are_sums(
            a.bucket_counts,
            b.bucket_counts,
            r.bucket_counts,
        ),
        _ => r == a,
    }
}

/// Where histograms with exponential bounds could be added, each count of a bucket, the count of
/// zeros, the count and the sum of a pair of data points are the sums of the two, and all else is as
/// it was.
pub proof fn law_exponentials_are_added(
    h: ExponentialHistogramView,
    o: ExponentialHistogramView,
    i: int,
    f: spec_fn(u64, u64) -> u64,
)
    requires
        can_add(
            Some(DataView::ExponentialHistogram(h)),
            Some(DataView::ExponentialHistogram(o)),
        ),
        growables_fit(h.data_points, o.data_points),
        0 <= i < h.data_points.len(),
    ensures
        data_added(
            Some(DataView::ExponentialHistogram(h)),
            Some(DataView::ExponentialHistogram(o)),
            f,
        ) matches Some(DataView::ExponentialHistogram(after)) && {
            let (p, q, r) = (h.data_points[i], o.data_points[i], after.data_points[i]);
            &&& after == (ExponentialHistogramView { data_points: after.data_points, ..h })
            &&& after.data_points.len() == h.data_points.len()
            &&& if i < o.data_points.len() {
                &&& r.count == p.count + q.count
                &&& r.zero_count == p.zero_count + q.zero_count
                &&& r.sum == Some(f(sum_of(p.sum), sum_of(q.sum)))
                &&& side_grew(p.positive, q.positive, r.positive)
                &&& side_grew(p.negative, q.negative, r.negative)
                &&& r == (ExponentialHistogramDataPointView {
                    count: r.count,
                    zero_count: r.zero_count,
                    sum: r.sum,
                    positive: r.positive,
                    negative: r.negative,
                    ..p
                })
            } else {
                r == p
            }
        },
{
    if i < o.data_points.len() {
        assert(all_growable(h.data_points, o.data_points, i));
        assert(growable(h.data_points[i], o.data_points[i]));
    }
}

/// Whether a data point is another one with a number taken off, where `f` subtracts doubles.
pub open spec fn number_shrank(
    p: NumberDataPointView,
    o: NumberDataPointView,
    r: NumberDataPointView,
    f: spec_fn(u64, u64) -> u64,
) -> bool {
    &&& match (p.value, o.value, r.value) {
        (
            Some(NumberValue::AsDouble(a)),
            Some(NumberValue::AsDouble(b)),
            Some(NumberValue::AsDouble(c)),
        ) => c == f(a, b),
        (
            Some(NumberValue::AsInt(a)),
            Some(NumberValue::AsInt(b)),
            Some(NumberValue::AsInt(c)),
        ) => c == a - b,
        _ => false,
    }
    &&& r == (NumberDataPointView { value: r.value, ..p })
}

/// Where a sum could be subtracted from another one, each number of a pair of data points is the
/// difference of the two, and not negative if it is an integer. All else is as it was.
pub proof fn law_sums_are_subtracted(s: SumView, o: SumView, i: int, f: spec_fn(u64, u64) -> u64)
    requires
        can_subtract(Some(DataView::Sum(s)), Some(DataView::Sum(o))),
        countables_fit(s.data_points, o.data_points),
        0 <= i < s.data_points.len(),
    ensures
        data_subtracted(Some(DataView::Sum(s)), Some(DataView::Sum(o)), f) matches Some(
            DataView::Sum(after),
        ) && {
            let r = after.data_points[i];
            &&& after == (SumView { data_points: after.data_points, ..s })
            &&& after.data_points.len() == s.data_points.len()
            &&& if i < o.data_points.len() {
                &&& number_shrank(s.data_points[i], o.data_points[i], r, f)
                &&& r.value matches Some(NumberValue::AsInt(c)) ==> c >= 0
            } else {
                r == s.data_points[i]
            }
        },
{
    if i < o.data_points.len() {
        assert(all_countable(s.data_points, o.data_points, i));
        assert(countable(s.data_points[i], o.data_points[i]));
    }
}

/// Where a gauge could be subtracted from another one, each number of a pair of data points is the
/// difference of the two, and all else is as it was.
pub proof fn law_gauges_are_subtracted(
    g: GaugeView,
    o: GaugeView,
    i: int,
    f: spec_fn(u64, u64) -> u64,
)
    requires
        can_subtract(Some(DataView::Gauge(g)), Some(DataView::Gauge(o))),
        differings_fit(g.data_points, o.data_points),
        0 <= i < g.data_points.len(),
    ensures
        data_subtracted(Some(DataView::Gauge(g)), Some(DataView::Gauge(o)), f) matches Some(
            DataView::Gauge(after),
        ) && {
            &&& after.data_points.len() == g.data_points.len()
            &&& if i < o.data_points.len() {
                number_shrank(g.data_points[i], o.data_points[i], after.data_points[i], f)
            } else {
                after.data_points[i] == g.data_points[i]
            }
        },
{
    if i < o.data_points.len() {
        assert(all_differing(g.data_points, o.data_points, i));
        assert(differing(g.data_points[i], o.data_points[i]));
    }
}

/// Where a histogram could be subtracted from another one, each count of a bucket, the count and the
/// sum of a pair of data points are the differences of the two, and all else is as it was.
pub proof fn law_histograms_are_subtracted(
    h: HistogramView,
    o: HistogramView,
    i: int,
    f: spec_fn(u64, u64) -> u64,
)
    requires
        can_subtract(Some(DataView::Histogram(h)), Some(DataView::Histogram(o))),
        0 <= i < h.data_points.len(),
    ensures
        data_subtracted(Some(DataView::Histogram(h)), Some(DataView::Histogram(o)), f) matches Some(
            DataView::Histogram(after),
        ) && {
            let (p, q, r) = (h.data_points[i], o.data_points[i], after.data_points[i]);
            &&& after == (HistogramView { data_points: after.data_points, ..h })
            &&& after.data_points.len() == h.data_points.len()
            &&& if i < o.data_points.len() {
                &&& are_sums(r.bucket_counts, q.bucket_counts, p.bucket_counts)
                &&& r.count + q.count == p.count
                &&& r.sum == Some(f(sum_of(p.sum), sum_of(q.sum)))
                &&& r == (HistogramDataPointView {
                    bucket_counts: r.bucket_counts,
                    count: r.count,
                    sum: r.sum,
                    ..p
                })
            } else {
                r == p
            }
        },
{
    if i < o.data_points.len() {
        let (p, q) = (h.data_points[i], o.data_points[i]);
        assert(all_separable(h.data_points, o.data_points, i));
        assert(separable(p, q));
        let r = data_subtracted(
            Some(DataView::Histogram(h)),
            Some(DataView::Histogram(o)),
            f,
        )->0->Histogram_0.data_points[i];
        assert forall|k: int| 0 <= k < p.bucket_counts.len() implies #[trigger] p.bucket_counts[k]
            == r.bucket_counts[k] + q.bucket_counts[k] by {
            assert(counts_cover(p.bucket_counts, q.bucket_counts, k + 1));
        }
    }
}

/// Whether two numbers are of one type, so that they can be added.
pub open spec fn same_number_type(p: NumberDataPointView, o: NumberDataPointView) -> bool {
    &&& p.value is Some
    &&& o.value is Some
    &&& p.value->0 is AsInt <==> o.value->0 is AsInt
}

/// Sums, and gauges, can be added exactly where the numbers of each pair of data points are of one
/// type.
pub proof fn law_numbers_can_be_added(points: Seq<NumberDataPointView>, o: Seq<NumberDataPointView>)
    ensures
        all_addable(
            points,
            o,
            if points.len() < o.len() {
                points.len() as int
            } else {
                o.len() as int
            },
        ) <==> forall|i: int|
            0 <= i < points.len() && i < o.len() ==> same_number_type(#[trigger] points[i], o[i]),
        all_differing(points, o, o.len() as int) ==> all_addable(points, o, o.len() as int),
{
    if forall|i: int|
        0 <= i < points.len() && i < o.len() ==> same_number_type(#[trigger] points[i], o[i]) {
        assert forall|i: int| 0 <= i < points.len() && i < o.len() implies addable(
            #[trigger] points[i],
            o[i],
        ) by {
            assert(same_number_type(points[i], o[i]));
        }
    } else {
        let i = choose|i: int|
            0 <= i < points.len() && i < o.len() && !same_number_type(#[trigger] points[i], o[i]);
        assert(!addable(points[i], o[i]));
    }
    if all_differing(points, o, o.len() as int) {
        assert forall|i: int| 0 <= i < o.len() implies addable(#[trigger] points[i], o[i]) by {
            assert(differing(points[i], o[i]));
        }
    }
}

/// Where the data points of a pair cannot be added, that pair and all after it stay as they were.
pub proof fn law_addition_stops(s: SumView, o: SumView, n: int, i: int, f: spec_fn(u64, u64) -> u64)
    requires
        0 <= n < o.data_points.len(),
        n <= i < s.data_points.len(),
        !same_number_type(s.data_points[n], o.data_points[n]),
    ensures
        !can_add(Some(DataView::Sum(s)), Some(DataView::Sum(o))),
        data_added(Some(DataView::Sum(s)), Some(DataView::Sum(o)), f) matches Some(
            DataView::Sum(after),
        ) && after.data_points[i] == s.data_points[i],
{
    assert(!addable(s.data_points[n], o.data_points[n]));
    if i == n && i < o.data_points.len() {
        assert(!addable(s.data_points[i], o.data_points[i]));
    }
}

} // verus!
