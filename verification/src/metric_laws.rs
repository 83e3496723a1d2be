//! What holds of the arithmetic of metrics.
use vstd::prelude::*;

use crate::double::less;
use crate::keyed::{ordered, value_of, with_entry};
use crate::map_laws::{law_read_after_remove, law_read_after_write};
use crate::metric_math::{
    addable, addables_fit, added_points, all_addable, all_countable, all_differing, all_mergeable,
    all_separable, can_add, can_subtract, countable, counted_down_points, counts_added, counts_cover,
    counts_subtracted, data_added, data_is_added, data_is_subtracted, data_subtracted, data_zeroed,
    differed_points, differing, is_merged, is_separated, mergeable, mergeable_fit, mergeables_fit,
    same_bounds, separable,
};
use crate::otel_metric::{keys_of, keys_reduced, keys_united};
use crate::otlp_metric::{
    DataView, HistogramDataPointView, HistogramView, NumberDataPointView, NumberValue, SumView,
};
use crate::value_laws::{lemma_prefix_ordered, lemma_with_last};

verus! {

/// Whether two metrics have data of the same type.
pub open spec fn same_type(a: Option<DataView>, b: Option<DataView>) -> bool {
    match (a, b) {
        (Some(DataView::Sum(_)), Some(DataView::Sum(_))) => true,
        (Some(DataView::Gauge(_)), Some(DataView::Gauge(_))) => true,
        (Some(DataView::Histogram(_)), Some(DataView::Histogram(_))) => true,
        (Some(DataView::Summary(_)), Some(DataView::Summary(_))) => true,
        (
            Some(DataView::ExponentialHistogram(_)),
            Some(DataView::ExponentialHistogram(_)),
        ) => true,
        _ => false,
    }
}

/// Data of another type is neither added nor subtracted, and the metric stays as it is.
pub proof fn law_types_must_match(
    a: Option<DataView>,
    b: Option<DataView>,
    f: spec_fn(u64, u64) -> u64,
)
    requires
        !same_type(a, b),
    ensures
        !can_add(a, b),
        data_added(a, b, f) == a,
        !can_subtract(a, b),
        data_subtracted(a, b, f) == a,
{
}

/// What the data of a metric is added to, or subtracted from, keeps its type.
pub proof fn law_type_is_kept(a: Option<DataView>, b: Option<DataView>, f: spec_fn(u64, u64) -> u64)
    requires
        a is Some,
    ensures
        same_type(data_added(a, b, f), a),
        same_type(data_subtracted(a, b, f), a),
        same_type(Some(data_zeroed(a->0)), a),
{
}

/// Histograms whose bounds differ are neither added nor subtracted.
pub proof fn law_bounds_must_match(h: HistogramView, o: HistogramView, i: int)
    requires
        0 <= i < h.data_points.len(),
        i < o.data_points.len(),
        !same_bounds(h.data_points[i].explicit_bounds, o.data_points[i].explicit_bounds),
    ensures
        !can_add(Some(DataView::Histogram(h)), Some(DataView::Histogram(o))),
        !can_subtract(Some(DataView::Histogram(h)), Some(DataView::Histogram(o))),
{
    assert(!mergeable(h.data_points[i], o.data_points[i]));
    assert(!separable(h.data_points[i], o.data_points[i]));
}

/// Nothing is subtracted from a counter that is less than what is to be subtracted: a counter does
/// not go negative.
pub proof fn law_counters_do_not_go_negative(s: SumView, o: SumView, i: int)
    requires
        0 <= i < s.data_points.len(),
        i < o.data_points.len(),
        match (s.data_points[i].value, o.data_points[i].value) {
            (Some(NumberValue::AsDouble(a)), Some(NumberValue::AsDouble(b))) => less(a, b),
            (Some(NumberValue::AsInt(a)), Some(NumberValue::AsInt(b))) => a < b,
            _ => false,
        },
    ensures
        !can_subtract(Some(DataView::Sum(s)), Some(DataView::Sum(o))),
{
    assert(!countable(s.data_points[i], o.data_points[i]));
}

/// Whether a data point is an integer.
pub open spec fn is_integer(p: NumberDataPointView) -> bool {
    p.value matches Some(NumberValue::AsInt(_))
}

/// Integers that were added and then subtracted again leave data points as they were: those of a
/// gauge, and those of a counter that is not negative.
pub proof fn law_integers_come_back(
    points: Seq<NumberDataPointView>,
    others: Seq<NumberDataPointView>,
    f: spec_fn(u64, u64) -> u64,
    g: spec_fn(u64, u64) -> u64,
)
    requires
        forall|i: int| 0 <= i < points.len() ==> is_integer(#[trigger] points[i]),
        forall|i: int| 0 <= i < others.len() ==> is_integer(#[trigger] others[i]),
        addables_fit(points, others),
    ensures
        differed_points(added_points(points, others, f), others, g) == points,
        (forall|i: int|
            0 <= i < points.len() ==> (#[trigger] points[i]).value->0->AsInt_0 >= 0)
            ==> counted_down_points(added_points(points, others, f), others, g) == points,
{
    let sums = added_points(points, others, f);
    assert forall|i: int| 0 <= i < points.len() && i < others.len() implies is_integer(
        #[trigger] sums[i],
    ) && sums[i].value->0->AsInt_0 == points[i].value->0->AsInt_0 + others[i].value->0->AsInt_0
        && sums[i] == (NumberDataPointView { value: sums[i].value, ..points[i] }) by {
        assert(is_integer(points[i]) && is_integer(others[i]));
        assert(all_addable(points, others, i)) by {
            assert forall|j: int| 0 <= j < i implies addable(#[trigger] points[j], others[j]) by {
                assert(is_integer(points[j]) && is_integer(others[j]));
            }
        }
    }
    let back = differed_points(sums, others, g);
    assert forall|i: int| 0 <= i < points.len() implies back[i] == points[i] by {
        assert(is_integer(points[i]));
        if i < others.len() {
            assert(is_integer(sums[i]) && is_integer(others[i]));
            assert(all_differing(sums, others, i)) by {
                assert forall|j: int| 0 <= j < i implies differing(
                    #[trigger] sums[j],
                    others[j],
                ) by {
                    assert(is_integer(sums[j]) && is_integer(others[j]));
                }
            }
        }
    }
    assert(back =~= points);
    if forall|i: int| 0 <= i < points.len() ==> (#[trigger] points[i]).value->0->AsInt_0 >= 0 {
        let down = counted_down_points(sums, others, g);
        assert forall|i: int| 0 <= i < points.len() implies down[i] == points[i] by {
            assert(is_integer(points[i]));
            if i < others.len() {
                assert(is_integer(sums[i]) && is_integer(others[i]));
                assert(all_countable(sums, others, i)) by {
                    assert forall|j: int| 0 <= j < i implies countable(
                        #[trigger] sums[j],
                        others[j],
                    ) by {
                        assert(is_integer(sums[j]) && is_integer(others[j]));
                        assert(points[j].value->0->AsInt_0 >= 0);
                    }
                }
            }
        }
        assert(down =~= points);
    }
}

/// A metric that was set to zero stays the same when it is set to zero again.
pub proof fn law_zero_is_final(d: DataView)
    ensures
        data_zeroed(data_zeroed(d)) == data_zeroed(d),
{
    let once = data_zeroed(d);
    let twice = data_zeroed(once);
    match (once, twice) {
        (DataView::Sum(a), DataView::Sum(b)) => {
            assert(b.data_points =~= a.data_points);
        },
        (DataView::Gauge(a), DataView::Gauge(b)) => {
            assert(b.data_points =~= a.data_points);
        },
        (DataView::Histogram(a), DataView::Histogram(b)) => {
            assert forall|i: int| 0 <= i < a.data_points.len() implies b.data_points[i]
                == a.data_points[i] by {
                assert(b.data_points[i].bucket_counts =~= a.data_points[i].bucket_counts);
            }
            assert(b.data_points =~= a.data_points);
        },
        (DataView::Summary(a), DataView::Summary(b)) => {
            assert forall|i: int| 0 <= i < a.data_points.len() implies b.data_points[i]
                == a.data_points[i] by {
                assert(b.data_points[i].quantile_values =~= a.data_points[i].quantile_values);
            }
            assert(b.data_points =~= a.data_points);
        },
        (DataView::ExponentialHistogram(a), DataView::ExponentialHistogram(b)) => {
            assert forall|i: int| 0 <= i < a.data_points.len() implies b.data_points[i]
                == a.data_points[i] by {
                let (x, y) = (a.data_points[i], b.data_points[i]);
                if x.positive is Some {
                    assert(y.positive->0.bucket_counts =~= x.positive->0.bucket_counts);
                }
                if x.negative is Some {
                    assert(y.negative->0.bucket_counts =~= x.negative->0.bucket_counts);
                }
            }
            assert(b.data_points =~= a.data_points);
        },
        _ => {},
    }
}

/// Whether a set holds a value.
pub open spec fn in_set(s: Seq<(Seq<char>, bool)>, k: Seq<char>) -> bool {
    value_of(s, k) is Some
}

/// A set that is made of values holds exactly those.
pub proof fn law_set_holds_its_values(texts: Seq<Seq<char>>)
    ensures
        ordered(keys_of(texts)),
        forall|k: Seq<char>| #[trigger] in_set(keys_of(texts), k) <==> texts.contains(k),
    decreases texts.len(),
{
    if texts.len() > 0 {
        let before = texts.drop_last();
        law_set_holds_its_values(before);
        law_read_after_write(keys_of(before), texts.last(), true);
        assert forall|k: Seq<char>| #[trigger] in_set(keys_of(texts), k) <==> texts.contains(k) by {
            assert(in_set(keys_of(before), k) <==> before.contains(k));
            if before.contains(k) {
                let i = choose|i: int| 0 <= i < before.len() && before[i] == k;
                assert(texts[i] == k);
            }
            if texts.contains(k) && k != texts.last() {
                let i = choose|i: int| 0 <= i < texts.len() && texts[i] == k;
                assert(before[i] == k);
            }
            assert(texts[texts.len() - 1] == texts.last());
        }
    }
}

/// Adding one set to another gives their union, and subtracting it what only the first one holds.
pub proof fn law_set_arithmetic(s: Seq<(Seq<char>, bool)>, t: Seq<(Seq<char>, bool)>)
    requires
        ordered(s),
        ordered(t),
    ensures
        ordered(keys_united(s, t)),
        ordered(keys_reduced(s, t)),
        forall|k: Seq<char>| #[trigger]
            in_set(keys_united(s, t), k) <==> in_set(s, k) || in_set(t, k),
        forall|k: Seq<char>| #[trigger]
            in_set(keys_reduced(s, t), k) <==> in_set(s, k) && !in_set(t, k),
    decreases t.len(),
{
    if t.len() > 0 {
        let before = t.drop_last();
        let key = t.last().0;
        lemma_prefix_ordered(t);
        law_set_arithmetic(s, before);
        law_read_after_write(keys_united(s, before), key, true);
        law_read_after_remove(keys_reduced(s, before), key);
        assert(t =~= before.push((key, t.last().1)));
        lemma_with_last(before, key, t.last().1);
        law_read_after_write(before, key, t.last().1);
        assert forall|k: Seq<char>| #[trigger] in_set(keys_united(s, t), k) <==> in_set(s, k)
            || in_set(t, k) by {
            assert(in_set(keys_united(s, before), k) <==> in_set(s, k) || in_set(before, k));
            assert(value_of(with_entry(before, key, t.last().1), k) == value_of(t, k));
        }
        assert forall|k: Seq<char>| #[trigger] in_set(keys_reduced(s, t), k) <==> in_set(s, k)
            && !in_set(t, k) by {
            assert(in_set(keys_reduced(s, before), k) <==> in_set(s, k) && !in_set(before, k));
            assert(value_of(with_entry(before, key, t.last().1), k) == value_of(t, k));
        }
    } else {
        assert(forall|k: Seq<char>| !in_set(t, k));
    }
}

/// Whether two lists of histograms have the same buckets, pair by pair.
pub open spec fn all_like(points: Seq<HistogramDataPointView>, others: Seq<HistogramDataPointView>) -> bool {
    &&& points.len() == others.len()
    &&& forall|i: int| 0 <= i < points.len() ==> mergeable(#[trigger] points[i], others[i])
}

/// Whether two lists of histograms agree in everything but their sums.
pub open spec fn same_counts(a: Seq<HistogramDataPointView>, b: Seq<HistogramDataPointView>) -> bool {
    &&& a.len() == b.len()
    &&& forall|i: int|
        0 <= i < a.len() ==> #[trigger] a[i] == (HistogramDataPointView { sum: a[i].sum, ..b[i] })
}

/// Histograms with the same buckets that were added and then subtracted again leave every count and
/// every bucket as it was: both can be done, and only the sums go through doubles.
pub proof fn law_histograms_come_back<F: Fn(u64, u64) -> u64, G: Fn(u64, u64) -> u64>(
    h: HistogramView,
    o: HistogramView,
    plus: F,
    minus: G,
    sums: Option<DataView>,
    back: Option<DataView>,
)
    requires
        all_like(h.data_points, o.data_points),
        mergeables_fit(h.data_points, o.data_points),
        data_is_added(
            plus,
            Some(DataView::Histogram(h)),
            Some(DataView::Histogram(o)),
            sums,
        ),
        data_is_subtracted(minus, sums, Some(DataView::Histogram(o)), back),
    ensures
        can_add(Some(DataView::Histogram(h)), Some(DataView::Histogram(o))),
        can_subtract(sums, Some(DataView::Histogram(o))),
        back matches Some(DataView::Histogram(r)) && same_counts(r.data_points, h.data_points)
            && r.aggregation_temporality == h.aggregation_temporality,
{
    let points = h.data_points;
    let others = o.data_points;
    let mid = sums->0->Histogram_0.data_points;
    let end = back->0->Histogram_0.data_points;
    assert forall|i: int| 0 <= i < points.len() implies separable(#[trigger] mid[i], others[i])
        && mid[i].bucket_counts == counts_added(points[i].bucket_counts, others[i].bucket_counts)
        && mid[i] == (HistogramDataPointView {
        bucket_counts: mid[i].bucket_counts,
        count: (points[i].count + others[i].count) as u64,
        sum: mid[i].sum,
        ..points[i]
    }) by {
        assert(all_mergeable(points, others, i)) by {
            assert forall|j: int| 0 <= j < i implies mergeable(#[trigger] points[j], others[j]) by {}
        }
        assert(mergeable(points[i], others[i]));
        assert(mergeable_fit(points[i], others[i]));
        assert(is_merged(plus, points[i], others[i], mid[i]));
        let (p, q) = (points[i].bucket_counts, others[i].bucket_counts);
        assert forall|j: int| 0 <= j < p.len() implies #[trigger] mid[i].bucket_counts[j]
            >= q[j] by {
            assert(p[j] + q[j] <= u64::MAX);
        }
    }
    assert(all_mergeable(points, others, points.len() as int));
    assert(all_separable(mid, others, mid.len() as int));
    assert forall|i: int| 0 <= i < end.len() implies #[trigger] end[i] == (HistogramDataPointView {
        sum: end[i].sum,
        ..points[i]
    }) by {
        assert(separable(mid[i], others[i]));
        assert(all_separable(mid, others, i)) by {
            assert forall|j: int| 0 <= j < i implies separable(#[trigger] mid[j], others[j]) by {}
        }
        assert(is_separated(minus, mid[i], others[i], end[i]));
        assert(mergeable(points[i], others[i]));
        assert(all_mergeable(points, others, i));
        assert(mergeable_fit(points[i], others[i]));
        let (p, q) = (points[i].bucket_counts, others[i].bucket_counts);
        let c = end[i].bucket_counts;
        assert(c == counts_subtracted(mid[i].bucket_counts, q));
        assert forall|j: int| 0 <= j < p.len() implies c[j] == p[j] by {
            assert(p[j] + q[j] <= u64::MAX);
            assert(counts_cover(mid[i].bucket_counts, q, j + 1)) by {
                assert forall|k: int| 0 <= k < j + 1 implies #[trigger] mid[i].bucket_counts[k]
                    >= q[k] by {
                    assert(p[k] + q[k] <= u64::MAX);
                }
            }
        }
        assert(c =~= p);
    }
}

/// A histogram is not subtracted from one that has a smaller count, or a smaller count in a bucket.
pub proof fn law_histograms_do_not_go_negative(h: HistogramView, o: HistogramView, i: int)
    requires
        0 <= i < h.data_points.len(),
        i < o.data_points.len(),
        h.data_points[i].count < o.data_points[i].count || exists|j: int|
            0 <= j < h.data_points[i].bucket_counts.len() && j
                < o.data_points[i].bucket_counts.len()
                && #[trigger] h.data_points[i].bucket_counts[j]
                < o.data_points[i].bucket_counts[j],
    ensures
        !can_subtract(Some(DataView::Histogram(h)), Some(DataView::Histogram(o))),
{
    assert(!separable(h.data_points[i], o.data_points[i]));
}

} // verus!
