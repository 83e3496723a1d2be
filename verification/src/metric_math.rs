//! Metric events that are added up, subtracted and set to zero.
use vstd::prelude::*;

use crate::double::{is_less, is_same, less, same};
use crate::keyed::{opt_view, views};
use crate::metric::{OtelMetric, OtelMetricView};
use crate::metric_read::sum_or_zero;
use crate::otlp_metric::{
    Buckets, BucketsView, Data, DataView, ExponentialHistogramDataPoint,
    ExponentialHistogramDataPointView, ExponentialHistogramView, GaugeView, HistogramDataPoint,
    HistogramDataPointView, HistogramView, MetricMessageView, NumberDataPoint, NumberDataPointView,
    NumberValue, SumView, SummaryDataPoint, SummaryDataPointView, SummaryView, ValueAtQuantileView,
};

verus! {

/// Whether `op` computes what `f` says of two doubles.
pub open spec fn computes<F: Fn(u64, u64) -> u64>(op: F, f: spec_fn(u64, u64) -> u64) -> bool {
    forall|a: u64, b: u64, r: u64| #[trigger] call_ensures(op, (a, b), r) ==> r == f(a, b)
}

/// The function that gives one double for any two.
pub open spec fn always(v: u64) -> spec_fn(u64, u64) -> u64 {
    |a: u64, b: u64| v
}

/// Whether `op` may give what `f` says of two numbers that are doubles.
pub open spec fn number_drawn<F: Fn(u64, u64) -> u64>(
    op: F,
    p: NumberDataPointView,
    o: NumberDataPointView,
    f: spec_fn(u64, u64) -> u64,
) -> bool {
    match (p.value, o.value) {
        (
            Some(NumberValue::AsDouble(a)),
            Some(NumberValue::AsDouble(b)),
        ) => call_ensures(op, (a, b), f(a, b)),
        _ => true,
    }
}

/// Whether `op` may give what `f` says of two sums.
pub open spec fn sum_drawn<F: Fn(u64, u64) -> u64>(
    op: F,
    a: Option<u64>,
    b: Option<u64>,
    f: spec_fn(u64, u64) -> u64,
) -> bool {
    call_ensures(op, (sum_or_zero(a), sum_or_zero(b)), f(sum_or_zero(a), sum_or_zero(b)))
}

/// How many pairs two lists give.
pub open spec fn pairs(a: nat, b: nat) -> int {
    if a < b {
        a as int
    } else {
        b as int
    }
}

/// Whether two numbers can be added: both are doubles, or both integers.
pub open spec fn addable(p: NumberDataPointView, o: NumberDataPointView) -> bool {
    match (p.value, o.value) {
        (Some(NumberValue::AsDouble(_)), Some(NumberValue::AsDouble(_))) => true,
        (Some(NumberValue::AsInt(_)), Some(NumberValue::AsInt(_))) => true,
        _ => false,
    }
}

/// Whether the sum of two integers is one of 64 bits.
pub open spec fn addable_fit(p: NumberDataPointView, o: NumberDataPointView) -> bool {
    match (p.value, o.value) {
        (Some(NumberValue::AsInt(a)), Some(NumberValue::AsInt(b))) => i64::MIN <= a + b <= i64::MAX,
        _ => true,
    }
}

/// The data point after another one was added; `f` adds doubles.
pub open spec fn added(
    p: NumberDataPointView,
    o: NumberDataPointView,
    f: spec_fn(u64, u64) -> u64,
) -> NumberDataPointView {
    match (p.value, o.value) {
        (
            Some(NumberValue::AsDouble(a)),
            Some(NumberValue::AsDouble(b)),
        ) => NumberDataPointView { value: Some(NumberValue::AsDouble(f(a, b))), ..p },
        (Some(NumberValue::AsInt(a)), Some(NumberValue::AsInt(b))) => NumberDataPointView {
            value: Some(NumberValue::AsInt((a + b) as i64)),
            ..p
        },
        _ => p,
    }
}

/// Whether the first data points, up to a number, can be added.
pub open spec fn all_addable(points: Seq<NumberDataPointView>, others: Seq<NumberDataPointView>, n: int) -> bool {
    forall|i: int| 0 <= i < n ==> addable(#[trigger] points[i], others[i])
}

/// Whether no count that is added overflows.
pub open spec fn addables_fit(points: Seq<NumberDataPointView>, others: Seq<NumberDataPointView>) -> bool {
    forall|i: int|
        0 <= i < points.len() && i < others.len() && all_addable(points, others, i) ==> addable_fit(
            #[trigger] points[i],
            others[i],
        )
}

/// The data points after others were added, pair by pair, up to the first pair for which that is
/// not possible.
pub open spec fn added_points(
    points: Seq<NumberDataPointView>,
    others: Seq<NumberDataPointView>,
    f: spec_fn(u64, u64) -> u64,
) -> Seq<NumberDataPointView> {
    Seq::new(
        points.len(),
        |i: int|
            if i < others.len() && all_addable(points, others, i) {
                added(points[i], others[i], f)
            } else {
                points[i]
            },
    )
}

/// Whether this is what a data point may be after another one was added, where `op` computes doubles.
pub open spec fn is_added<F: Fn(u64, u64) -> u64>(
    op: F,
    p: NumberDataPointView,
    o: NumberDataPointView,
    r: NumberDataPointView,
) -> bool {
    exists|f: spec_fn(u64, u64) -> u64| r == #[trigger] added(p, o, f) && number_drawn(op, p, o, f)
}

/// Whether this is what data points may be after others were added, pair by pair, up to the first pair
/// for which that is not possible.
pub open spec fn are_added<F: Fn(u64, u64) -> u64>(
    op: F,
    points: Seq<NumberDataPointView>,
    others: Seq<NumberDataPointView>,
    r: Seq<NumberDataPointView>,
) -> bool {
    &&& r.len() == points.len()
    &&& forall|i: int|
        0 <= i < points.len() ==> if i < others.len() && all_addable(points, others, i) {
            is_added(op, points[i], others[i], #[trigger] r[i])
        } else {
            r[i] == points[i]
        }
}

fn add_number<F: Fn(u64, u64) -> u64>(p: &mut NumberDataPoint, o: &NumberDataPoint, plus: &F) -> (r:
    bool)
    requires
        forall|a: u64, b: u64| call_requires(*plus, (a, b)),
        addable_fit(old(p)@, o@),
    ensures
        r == addable(old(p)@, o@),
        forall|f: spec_fn(u64, u64) -> u64| #[trigger]
            computes(*plus, f) ==> final(p)@ == added(old(p)@, o@, f),
        is_added(*plus, old(p)@, o@, final(p)@),
{
    match (p.value, o.value) {
        (Some(NumberValue::AsDouble(a)), Some(NumberValue::AsDouble(b))) => {
            let v = plus(a, b);
            p.value = Some(NumberValue::AsDouble(v));
            assert(p@ == added(old(p)@, o@, always(v)));
            true
        },
        (Some(NumberValue::AsInt(a)), Some(NumberValue::AsInt(b))) => {
            p.value = Some(NumberValue::AsInt(a + b));
            assert(p@ == added(old(p)@, o@, always(0)));
            true
        },
        _ => {
            assert(p@ == added(old(p)@, o@, always(0)));
            false
        },
    }
}

/// Adds numbers, pair by pair.
fn add_numbers<F: Fn(u64, u64) -> u64>(points: &mut Vec<NumberDataPoint>, others: &Vec<NumberDataPoint>, plus: &F) -> (r: bool)
    requires
        forall|a: u64, b: u64| call_requires(*plus, (a, b)),
        addables_fit(views(old(points)@), views(others@)),
    ensures
        forall|f: spec_fn(u64, u64) -> u64| #[trigger]
            computes(*plus, f) ==> views(final(points)@) == added_points(
                views(old(points)@),
                views(others@),
                f,
            ),
        are_added(*plus, views(old(points)@), views(others@), views(final(points)@)),
        r == all_addable(views(old(points)@), views(others@), pairs(old(points)@.len(), others@.len())),
{
    let ghost before = views(points@);
    let ghost given = views(others@);
    let mut i: usize = 0;
    while i < points.len() && i < others.len()
        invariant
            i <= points@.len(),
            i <= others@.len(),
            points@.len() == old(points)@.len(),
            before == views(old(points)@),
            given == views(others@),
            addables_fit(before, given),
            all_addable(before, given, i as int),
            forall|a: u64, b: u64| call_requires(*plus, (a, b)),
            forall|f: spec_fn(u64, u64) -> u64, j: int|
                0 <= j < i && #[trigger] computes(*plus, f) ==> (#[trigger] points@[j])@ == added(
                    before[j],
                    given[j],
                    f,
                ),
            forall|j: int|
                0 <= j < i ==> is_added(*plus, before[j], given[j], (#[trigger] points@[j])@),
            forall|j: int| i <= j < points@.len() ==> (#[trigger] points@[j])@ == before[j],
        decreases points@.len() - i,
    {
        assert(given[i as int] == others@[i as int]@);
        assert(addable_fit(before[i as int], given[i as int]));
        let done = add_number(&mut points[i], &others[i], plus);
        if !done {
            proof {
                assert(are_added(*plus, before, given, views(points@))) by {
                    assert forall|j: int| 0 <= j < before.len() implies if j < given.len() && all_addable(
                        before,
                        given,
                        j,
                    ) {
                        is_added(*plus, before[j], given[j], #[trigger] views(points@)[j])
                    } else {
                        views(points@)[j] == before[j]
                    } by {
                        if j > i {
                            assert(!addable(before[i as int], given[i as int]));
                        } else {
                            assert(all_addable(before, given, j));
                        }
                    }
                }
                assert forall|f: spec_fn(u64, u64) -> u64| #[trigger] computes(*plus, f) implies views(
                    points@,
                ) == added_points(before, given, f) by {
                    let expected = added_points(before, given, f);
                    assert forall|j: int| 0 <= j < expected.len() implies views(points@)[j]
                        == expected[j] by {
                        if j > i {
                            assert(!addable(before[i as int], given[i as int]));
                            assert(!all_addable(before, given, j));
                        } else {
                            assert(all_addable(before, given, j));
                        }
                    }
                    assert(views(points@) =~= expected);
                }
            }
            return false;
        }
        i = i + 1;
    }
    proof {
        assert(are_added(*plus, before, given, views(points@))) by {
            assert forall|j: int| 0 <= j < before.len() implies if j < given.len() && all_addable(
                before,
                given,
                j,
            ) {
                is_added(*plus, before[j], given[j], #[trigger] views(points@)[j])
            } else {
                views(points@)[j] == before[j]
            } by {}
        }
        assert forall|f: spec_fn(u64, u64) -> u64| #[trigger] computes(*plus, f) implies views(points@)
            == added_points(before, given, f) by {
            let expected = added_points(before, given, f);
            assert forall|j: int| 0 <= j < expected.len() implies views(points@)[j] == expected[j] by {
                if j < i {
                    assert(all_addable(before, given, j));
                }
            }
            assert(views(points@) =~= expected);
        }
    }
    true
}

/// Whether two numbers can be subtracted: both are doubles, or both integers.
pub open spec fn differing(p: NumberDataPointView, o: NumberDataPointView) -> bool {
    addable(p, o)
}

/// Whether the difference of two integers is one of 64 bits.
pub open spec fn differing_fit(p: NumberDataPointView, o: NumberDataPointView) -> bool {
    match (p.value, o.value) {
        (Some(NumberValue::AsInt(a)), Some(NumberValue::AsInt(b))) => i64::MIN <= a - b <= i64::MAX,
        _ => true,
    }
}

/// The data point after another one was subtracted; `f` subtracts doubles.
pub open spec fn differed(
    p: NumberDataPointView,
    o: NumberDataPointView,
    f: spec_fn(u64, u64) -> u64,
) -> NumberDataPointView {
    match (p.value, o.value) {
        (
            Some(NumberValue::AsDouble(a)),
            Some(NumberValue::AsDouble(b)),
        ) => NumberDataPointView { value: Some(NumberValue::AsDouble(f(a, b))), ..p },
        (Some(NumberValue::AsInt(a)), Some(NumberValue::AsInt(b))) => NumberDataPointView {
            value: Some(NumberValue::AsInt((a - b) as i64)),
            ..p
        },
        _ => p,
    }
}

/// Whether the first data points, up to a number, can be subtracted.
pub open spec fn all_differing(points: Seq<NumberDataPointView>, others: Seq<NumberDataPointView>, n: int) -> bool {
    forall|i: int| 0 <= i < n ==> differing(#[trigger] points[i], others[i])
}

/// Whether no count that is subtracted overflows.
pub open spec fn differings_fit(points: Seq<NumberDataPointView>, others: Seq<NumberDataPointView>) -> bool {
    forall|i: int|
        0 <= i < points.len() && i < others.len() && all_differing(points, others, i) ==> differing_fit(
            #[trigger] points[i],
            others[i],
        )
}

/// The data points after others were subtracted, pair by pair, up to the first pair for which that is
/// not possible.
pub open spec fn differed_points(
    points: Seq<NumberDataPointView>,
    others: Seq<NumberDataPointView>,
    f: spec_fn(u64, u64) -> u64,
) -> Seq<NumberDataPointView> {
    Seq::new(
        points.len(),
        |i: int|
            if i < others.len() && all_differing(points, others, i) {
                differed(points[i], others[i], f)
            } else {
                points[i]
            },
    )
}

/// Whether this is what a data point may be after another one was subtracted, where `op` computes doubles.
pub open spec fn is_differed<F: Fn(u64, u64) -> u64>(
    op: F,
    p: NumberDataPointView,
    o: NumberDataPointView,
    r: NumberDataPointView,
) -> bool {
    exists|f: spec_fn(u64, u64) -> u64| r == #[trigger] differed(p, o, f) && number_drawn(op, p, o, f)
}

/// Whether this is what data points may be after others were subtracted, pair by pair, up to the first pair
/// for which that is not possible.
pub open spec fn are_differed<F: Fn(u64, u64) -> u64>(
    op: F,
    points: Seq<NumberDataPointView>,
    others: Seq<NumberDataPointView>,
    r: Seq<NumberDataPointView>,
) -> bool {
    &&& r.len() == points.len()
    &&& forall|i: int|
        0 <= i < points.len() ==> if i < others.len() && all_differing(points, others, i) {
            is_differed(op, points[i], others[i], #[trigger] r[i])
        } else {
            r[i] == points[i]
        }
}

fn subtract_number<F: Fn(u64, u64) -> u64>(
    p: &mut NumberDataPoint,
    o: &NumberDataPoint,
    minus: &F,
) -> (r: bool)
    requires
        forall|a: u64, b: u64| call_requires(*minus, (a, b)),
        differing_fit(old(p)@, o@),
    ensures
        r == differing(old(p)@, o@),
        forall|f: spec_fn(u64, u64) -> u64| #[trigger]
            computes(*minus, f) ==> final(p)@ == differed(old(p)@, o@, f),
        is_differed(*minus, old(p)@, o@, final(p)@),
{
    match (p.value, o.value) {
        (Some(NumberValue::AsDouble(a)), Some(NumberValue::AsDouble(b))) => {
            let v = minus(a, b);
            p.value = Some(NumberValue::AsDouble(v));
            assert(p@ == differed(old(p)@, o@, always(v)));
            true
        },
        (Some(NumberValue::AsInt(a)), Some(NumberValue::AsInt(b))) => {
            p.value = Some(NumberValue::AsInt(a - b));
            assert(p@ == differed(old(p)@, o@, always(0)));
            true
        },
        _ => {
            assert(p@ == differed(old(p)@, o@, always(0)));
            false
        },
    }
}

/// Subtracts numbers, pair by pair.
fn subtract_numbers<F: Fn(u64, u64) -> u64>(points: &mut Vec<NumberDataPoint>, others: &Vec<NumberDataPoint>, minus: &F) -> (r: bool)
    requires
        forall|a: u64, b: u64| call_requires(*minus, (a, b)),
        differings_fit(views(old(points)@), views(others@)),
    ensures
        forall|f: spec_fn(u64, u64) -> u64| #[trigger]
            computes(*minus, f) ==> views(final(points)@) == differed_points(
                views(old(points)@),
                views(others@),
                f,
            ),
        are_differed(*minus, views(old(points)@), views(others@), views(final(points)@)),
        r == all_differing(views(old(points)@), views(others@), pairs(old(points)@.len(), others@.len())),
{
    let ghost before = views(points@);
    let ghost given = views(others@);
    let mut i: usize = 0;
    while i < points.len() && i < others.len()
        invariant
            i <= points@.len(),
            i <= others@.len(),
            points@.len() == old(points)@.len(),
            before == views(old(points)@),
            given == views(others@),
            differings_fit(before, given),
            all_differing(before, given, i as int),
            forall|a: u64, b: u64| call_requires(*minus, (a, b)),
            forall|f: spec_fn(u64, u64) -> u64, j: int|
                0 <= j < i && #[trigger] computes(*minus, f) ==> (#[trigger] points@[j])@ == differed(
                    before[j],
                    given[j],
                    f,
                ),
            forall|j: int|
                0 <= j < i ==> is_differed(*minus, before[j], given[j], (#[trigger] points@[j])@),
            forall|j: int| i <= j < points@.len() ==> (#[trigger] points@[j])@ == before[j],
        decreases points@.len() - i,
    {
        assert(given[i as int] == others@[i as int]@);
        assert(differing_fit(before[i as int], given[i as int]));
        let done = subtract_number(&mut points[i], &others[i], minus);
        if !done {
            proof {
                assert(are_differed(*minus, before, given, views(points@))) by {
                    assert forall|j: int| 0 <= j < before.len() implies if j < given.len() && all_differing(
                        before,
                        given,
                        j,
                    ) {
                        is_differed(*minus, before[j], given[j], #[trigger] views(points@)[j])
                    } else {
                        views(points@)[j] == before[j]
                    } by {
                        if j > i {
                            assert(!differing(before[i as int], given[i as int]));
                        } else {
                            assert(all_differing(before, given, j));
                        }
                    }
                }
                assert forall|f: spec_fn(u64, u64) -> u64| #[trigger] computes(*minus, f) implies views(
                    points@,
                ) == differed_points(before, given, f) by {
                    let expected = differed_points(before, given, f);
                    assert forall|j: int| 0 <= j < expected.len() implies views(points@)[j]
                        == expected[j] by {
                        if j > i {
                            assert(!differing(before[i as int], given[i as int]));
                            assert(!all_differing(before, given, j));
                        } else {
                            assert(all_differing(before, given, j));
                        }
                    }
                    assert(views(points@) =~= expected);
                }
            }
            return false;
        }
        i = i + 1;
    }
    proof {
        assert(are_differed(*minus, before, given, views(points@))) by {
            assert forall|j: int| 0 <= j < before.len() implies if j < given.len() && all_differing(
                before,
                given,
                j,
            ) {
                is_differed(*minus, before[j], given[j], #[trigger] views(points@)[j])
            } else {
                views(points@)[j] == before[j]
            } by {}
        }
        assert forall|f: spec_fn(u64, u64) -> u64| #[trigger] computes(*minus, f) implies views(points@)
            == differed_points(before, given, f) by {
            let expected = differed_points(before, given, f);
            assert forall|j: int| 0 <= j < expected.len() implies views(points@)[j] == expected[j] by {
                if j < i {
                    assert(all_differing(before, given, j));
                }
            }
            assert(views(points@) =~= expected);
        }
    }
    true
}

/// Whether a number can be subtracted from a counter: both are doubles, or both integers, and the
/// counter is not the lesser one.
pub open spec fn countable(p: NumberDataPointView, o: NumberDataPointView) -> bool {
    match (p.value, o.value) {
        (Some(NumberValue::AsDouble(a)), Some(NumberValue::AsDouble(b))) => !less(a, b),
        (Some(NumberValue::AsInt(a)), Some(NumberValue::AsInt(b))) => a >= b,
        _ => false,
    }
}

/// Whether the difference of two integers is one of 64 bits.
pub open spec fn countable_fit(p: NumberDataPointView, o: NumberDataPointView) -> bool {
    match (p.value, o.value) {
        (Some(NumberValue::AsInt(a)), Some(NumberValue::AsInt(b))) => a - b <= i64::MAX,
        _ => true,
    }
}

/// The data point of a counter after another one was subtracted, where it can be.
pub open spec fn counted_down(
    p: NumberDataPointView,
    o: NumberDataPointView,
    f: spec_fn(u64, u64) -> u64,
) -> NumberDataPointView {
    if countable(p, o) {
        differed(p, o, f)
    } else {
        p
    }
}

/// Whether the first data points, up to a number, can be subtracted.
pub open spec fn all_countable(points: Seq<NumberDataPointView>, others: Seq<NumberDataPointView>, n: int) -> bool {
    forall|i: int| 0 <= i < n ==> countable(#[trigger] points[i], others[i])
}

/// Whether no count that is subtracted overflows.
pub open spec fn countables_fit(points: Seq<NumberDataPointView>, others: Seq<NumberDataPointView>) -> bool {
    forall|i: int|
        0 <= i < points.len() && i < others.len() && all_countable(points, others, i) ==> countable_fit(
            #[trigger] points[i],
            others[i],
        )
}

/// The data points after others were subtracted, pair by pair, up to the first pair for which that is
/// not possible.
pub open spec fn counted_down_points(
    points: Seq<NumberDataPointView>,
    others: Seq<NumberDataPointView>,
    f: spec_fn(u64, u64) -> u64,
) -> Seq<NumberDataPointView> {
    Seq::new(
        points.len(),
        |i: int|
            if i < others.len() && all_countable(points, others, i) {
                counted_down(points[i], others[i], f)
            } else {
                points[i]
            },
    )
}

/// Whether this is what a data point may be after another one was subtracted, where `op` computes doubles.
pub open spec fn is_counted_down<F: Fn(u64, u64) -> u64>(
    op: F,
    p: NumberDataPointView,
    o: NumberDataPointView,
    r: NumberDataPointView,
) -> bool {
    exists|f: spec_fn(u64, u64) -> u64| r == #[trigger] counted_down(p, o, f) && (countable(p, o) ==> number_drawn(op, p, o, f))
}

/// Whether this is what data points may be after others were subtracted, pair by pair, up to the first pair
/// for which that is not possible.
pub open spec fn are_counted_down<F: Fn(u64, u64) -> u64>(
    op: F,
    points: Seq<NumberDataPointView>,
    others: Seq<NumberDataPointView>,
    r: Seq<NumberDataPointView>,
) -> bool {
    &&& r.len() == points.len()
    &&& forall|i: int|
        0 <= i < points.len() ==> if i < others.len() && all_countable(points, others, i) {
            is_counted_down(op, points[i], others[i], #[trigger] r[i])
        } else {
            r[i] == points[i]
        }
}

fn subtract_counter<F: Fn(u64, u64) -> u64>(
    p: &mut NumberDataPoint,
    o: &NumberDataPoint,
    minus: &F,
) -> (r: bool)
    requires
        forall|a: u64, b: u64| call_requires(*minus, (a, b)),
        countable_fit(old(p)@, o@),
    ensures
        r == countable(old(p)@, o@),
        forall|f: spec_fn(u64, u64) -> u64| #[trigger]
            computes(*minus, f) ==> final(p)@ == counted_down(old(p)@, o@, f),
        is_counted_down(*minus, old(p)@, o@, final(p)@),
{
    match (p.value, o.value) {
        (Some(NumberValue::AsDouble(a)), Some(NumberValue::AsDouble(b))) => {
            if is_less(a, b) {
                assert(p@ == counted_down(old(p)@, o@, always(0)));
                return false;
            }
            let v = minus(a, b);
            p.value = Some(NumberValue::AsDouble(v));
            assert(p@ == counted_down(old(p)@, o@, always(v)));
            true
        },
        (Some(NumberValue::AsInt(a)), Some(NumberValue::AsInt(b))) => {
            if a < b {
                assert(p@ == counted_down(old(p)@, o@, always(0)));
                return false;
            }
            p.value = Some(NumberValue::AsInt(a - b));
            assert(p@ == counted_down(old(p)@, o@, always(0)));
            true
        },
        _ => {
            assert(p@ == counted_down(old(p)@, o@, always(0)));
            false
        },
    }
}

/// Subtracts numbers from those of a counter, pair by pair.
fn subtract_counters<F: Fn(u64, u64) -> u64>(points: &mut Vec<NumberDataPoint>, others: &Vec<NumberDataPoint>, minus: &F) -> (r: bool)
    requires
        forall|a: u64, b: u64| call_requires(*minus, (a, b)),
        countables_fit(views(old(points)@), views(others@)),
    ensures
        forall|f: spec_fn(u64, u64) -> u64| #[trigger]
            computes(*minus, f) ==> views(final(points)@) == counted_down_points(
                views(old(points)@),
                views(others@),
                f,
            ),
        are_counted_down(*minus, views(old(points)@), views(others@), views(final(points)@)),
        r == all_countable(views(old(points)@), views(others@), pairs(old(points)@.len(), others@.len())),
{
    let ghost before = views(points@);
    let ghost given = views(others@);
    let mut i: usize = 0;
    while i < points.len() && i < others.len()
        invariant
            i <= points@.len(),
            i <= others@.len(),
            points@.len() == old(points)@.len(),
            before == views(old(points)@),
            given == views(others@),
            countables_fit(before, given),
            all_countable(before, given, i as int),
            forall|a: u64, b: u64| call_requires(*minus, (a, b)),
            forall|f: spec_fn(u64, u64) -> u64, j: int|
                0 <= j < i && #[trigger] computes(*minus, f) ==> (#[trigger] points@[j])@ == counted_down(
                    before[j],
                    given[j],
                    f,
                ),
            forall|j: int|
                0 <= j < i ==> is_counted_down(*minus, before[j], given[j], (#[trigger] points@[j])@),
            forall|j: int| i <= j < points@.len() ==> (#[trigger] points@[j])@ == before[j],
        decreases points@.len() - i,
    {
        assert(given[i as int] == others@[i as int]@);
        assert(countable_fit(before[i as int], given[i as int]));
        let done = subtract_counter(&mut points[i], &others[i], minus);
        if !done {
            proof {
                assert(are_counted_down(*minus, before, given, views(points@))) by {
                    assert forall|j: int| 0 <= j < before.len() implies if j < given.len() && all_countable(
                        before,
                        given,
                        j,
                    ) {
                        is_counted_down(*minus, before[j], given[j], #[trigger] views(points@)[j])
                    } else {
                        views(points@)[j] == before[j]
                    } by {
                        if j > i {
                            assert(!countable(before[i as int], given[i as int]));
                        } else {
                            assert(all_countable(before, given, j));
                        }
                    }
                }
                assert forall|f: spec_fn(u64, u64) -> u64| #[trigger] computes(*minus, f) implies views(
                    points@,
                ) == counted_down_points(before, given, f) by {
                    let expected = counted_down_points(before, given, f);
                    assert forall|j: int| 0 <= j < expected.len() implies views(points@)[j]
                        == expected[j] by {
                        if j > i {
                            assert(!countable(before[i as int], given[i as int]));
                            assert(!all_countable(before, given, j));
                        } else {
                            assert(all_countable(before, given, j));
                        }
                    }
                    assert(views(points@) =~= expected);
                }
            }
            return false;
        }
        i = i + 1;
    }
    proof {
        assert(are_counted_down(*minus, before, given, views(points@))) by {
            assert forall|j: int| 0 <= j < before.len() implies if j < given.len() && all_countable(
                before,
                given,
                j,
            ) {
                is_counted_down(*minus, before[j], given[j], #[trigger] views(points@)[j])
            } else {
                views(points@)[j] == before[j]
            } by {}
        }
        assert forall|f: spec_fn(u64, u64) -> u64| #[trigger] computes(*minus, f) implies views(points@)
            == counted_down_points(before, given, f) by {
            let expected = counted_down_points(before, given, f);
            assert forall|j: int| 0 <= j < expected.len() implies views(points@)[j] == expected[j] by {
                if j < i {
                    assert(all_countable(before, given, j));
                }
            }
            assert(views(points@) =~= expected);
        }
    }
    true
}

/// Whether two lists of bounds are equal as numbers.
pub open spec fn same_bounds(a: Seq<u64>, b: Seq<u64>) -> bool {
    a.len() == b.len() && forall|i: int| 0 <= i < a.len() ==> same(#[trigger] a[i], b[i])
}

/// Whether two histograms have the same buckets.
pub open spec fn mergeable(p: HistogramDataPointView, o: HistogramDataPointView) -> bool {
    same_bounds(p.explicit_bounds, o.explicit_bounds) && p.bucket_counts.len()
        == o.bucket_counts.len()
}

/// Whether the sums of two lists of counts are words of 64 bits.
pub open spec fn counts_fit(a: Seq<u64>, b: Seq<u64>) -> bool {
    a.len() == b.len() ==> forall|i: int|
        0 <= i < a.len() ==> #[trigger] a[i] + b[i] <= u64::MAX
}

/// The sums of two lists of counts.
pub open spec fn counts_added(a: Seq<u64>, b: Seq<u64>) -> Seq<u64> {
    Seq::new(a.len(), |i: int| (a[i] + b[i]) as u64)
}

/// Whether no count overflows where two histograms are added.
pub open spec fn mergeable_fit(p: HistogramDataPointView, o: HistogramDataPointView) -> bool {
    mergeable(p, o) ==> counts_fit(p.bucket_counts, o.bucket_counts) && p.count + o.count
        <= u64::MAX
}

/// The histogram after another one was added, where it has the same buckets; `f` adds doubles.
pub open spec fn merged(
    p: HistogramDataPointView,
    o: HistogramDataPointView,
    f: spec_fn(u64, u64) -> u64,
) -> HistogramDataPointView {
    if mergeable(p, o) {
        HistogramDataPointView {
            bucket_counts: counts_added(p.bucket_counts, o.bucket_counts),
            count: (p.count + o.count) as u64,
            sum: Some(f(sum_or_zero(p.sum), sum_or_zero(o.sum))),
            ..p
        }
    } else {
        p
    }
}

/// Whether the first data points, up to a number, can be added.
pub open spec fn all_mergeable(points: Seq<HistogramDataPointView>, others: Seq<HistogramDataPointView>, n: int) -> bool {
    forall|i: int| 0 <= i < n ==> mergeable(#[trigger] points[i], others[i])
}

/// Whether no count that is added overflows.
pub open spec fn mergeables_fit(points: Seq<HistogramDataPointView>, others: Seq<HistogramDataPointView>) -> bool {
    forall|i: int|
        0 <= i < points.len() && i < others.len() && all_mergeable(points, others, i) ==> mergeable_fit(
            #[trigger] points[i],
            others[i],
        )
}

/// The data points after others were added, pair by pair, up to the first pair for which that is
/// not possible.
pub open spec fn merged_points(
    points: Seq<HistogramDataPointView>,
    others: Seq<HistogramDataPointView>,
    f: spec_fn(u64, u64) -> u64,
) -> Seq<HistogramDataPointView> {
    Seq::new(
        points.len(),
        |i: int|
            if i < others.len() && all_mergeable(points, others, i) {
                merged(points[i], others[i], f)
            } else {
                points[i]
            },
    )
}

fn bounds_eq(a: &Vec<u64>, b: &Vec<u64>) -> (r: bool)
    ensures
        r == same_bounds(a@, b@),
{
    if a.len() != b.len() {
        return false;
    }
    let mut i: usize = 0;
    while i < a.len()
        invariant
            i <= a@.len(),
            a@.len() == b@.len(),
            forall|j: int| 0 <= j < i ==> same(#[trigger] a@[j], b@[j]),
        decreases a@.len() - i,
    {
        if !is_same(a[i], b[i]) {
            assert(!same(a@[i as int], b@[i as int]));
            return false;
        }
        i = i + 1;
    }
    true
}

fn add_counts(a: &mut Vec<u64>, b: &Vec<u64>)
    requires
        old(a)@.len() == b@.len(),
        counts_fit(old(a)@, b@),
    ensures
        final(a)@ == counts_added(old(a)@, b@),
{
    let mut i: usize = 0;
    while i < a.len()
        invariant
            i <= a@.len(),
            a@.len() == old(a)@.len(),
            a@.len() == b@.len(),
            counts_fit(old(a)@, b@),
            forall|j: int| 0 <= j < i ==> #[trigger] a@[j] == (old(a)@[j] + b@[j]) as u64,
            forall|j: int| i <= j < a@.len() ==> #[trigger] a@[j] == old(a)@[j],
        decreases a@.len() - i,
    {
        assert(old(a)@[i as int] + b@[i as int] <= u64::MAX);
        let sum: u64 = a[i] + b[i];
        a[i] = sum;
        i = i + 1;
    }
    assert(a@ =~= counts_added(old(a)@, b@));
}

/// Whether this is what a data point may be after another one was added, where `op` computes doubles.
pub open spec fn is_merged<F: Fn(u64, u64) -> u64>(
    op: F,
    p: HistogramDataPointView,
    o: HistogramDataPointView,
    r: HistogramDataPointView,
) -> bool {
    exists|f: spec_fn(u64, u64) -> u64| r == #[trigger] merged(p, o, f) && (mergeable(p, o) ==> sum_drawn(op, p.sum, o.sum, f))
}

/// Whether this is what data points may be after others were added, pair by pair, up to the first pair
/// for which that is not possible.
pub open spec fn are_merged<F: Fn(u64, u64) -> u64>(
    op: F,
    points: Seq<HistogramDataPointView>,
    others: Seq<HistogramDataPointView>,
    r: Seq<HistogramDataPointView>,
) -> bool {
    &&& r.len() == points.len()
    &&& forall|i: int|
        0 <= i < points.len() ==> if i < others.len() && all_mergeable(points, others, i) {
            is_merged(op, points[i], others[i], #[trigger] r[i])
        } else {
            r[i] == points[i]
        }
}

fn add_histogram<F: Fn(u64, u64) -> u64>(
    p: &mut HistogramDataPoint,
    o: &HistogramDataPoint,
    plus: &F,
) -> (r: bool)
    requires
        forall|a: u64, b: u64| call_requires(*plus, (a, b)),
        mergeable_fit(old(p)@, o@),
    ensures
        r == mergeable(old(p)@, o@),
        forall|f: spec_fn(u64, u64) -> u64| #[trigger]
            computes(*plus, f) ==> final(p)@ == merged(old(p)@, o@, f),
        is_merged(*plus, old(p)@, o@, final(p)@),
{
    if !bounds_eq(&p.explicit_bounds, &o.explicit_bounds) || p.bucket_counts.len()
        != o.bucket_counts.len() {
        assert(p@ == merged(old(p)@, o@, always(0)));
        return false;
    }
    add_counts(&mut p.bucket_counts, &o.bucket_counts);
    p.count = p.count + o.count;
    let v = plus(p.sum.unwrap_or(0), o.sum.unwrap_or(0));
    p.sum = Some(v);
    assert(p@ == merged(old(p)@, o@, always(v)));
    true
}

/// Adds histograms, pair by pair.
fn add_histograms<F: Fn(u64, u64) -> u64>(points: &mut Vec<HistogramDataPoint>, others: &Vec<HistogramDataPoint>, plus: &F) -> (r: bool)
    requires
        forall|a: u64, b: u64| call_requires(*plus, (a, b)),
        mergeables_fit(views(old(points)@), views(others@)),
    ensures
        forall|f: spec_fn(u64, u64) -> u64| #[trigger]
            computes(*plus, f) ==> views(final(points)@) == merged_points(
                views(old(points)@),
                views(others@),
                f,
            ),
        are_merged(*plus, views(old(points)@), views(others@), views(final(points)@)),
        r == all_mergeable(views(old(points)@), views(others@), pairs(old(points)@.len(), others@.len())),
{
    let ghost before = views(points@);
    let ghost given = views(others@);
    let mut i: usize = 0;
    while i < points.len() && i < others.len()
        invariant
            i <= points@.len(),
            i <= others@.len(),
            points@.len() == old(points)@.len(),
            before == views(old(points)@),
            given == views(others@),
            mergeables_fit(before, given),
            all_mergeable(before, given, i as int),
            forall|a: u64, b: u64| call_requires(*plus, (a, b)),
            forall|f: spec_fn(u64, u64) -> u64, j: int|
                0 <= j < i && #[trigger] computes(*plus, f) ==> (#[trigger] points@[j])@ == merged(
                    before[j],
                    given[j],
                    f,
                ),
            forall|j: int|
                0 <= j < i ==> is_merged(*plus, before[j], given[j], (#[trigger] points@[j])@),
            forall|j: int| i <= j < points@.len() ==> (#[trigger] points@[j])@ == before[j],
        decreases points@.len() - i,
    {
        assert(given[i as int] == others@[i as int]@);
        assert(mergeable_fit(before[i as int], given[i as int]));
        let done = add_histogram(&mut points[i], &others[i], plus);
        if !done {
            proof {
                assert(are_merged(*plus, before, given, views(points@))) by {
                    assert forall|j: int| 0 <= j < before.len() implies if j < given.len() && all_mergeable(
                        before,
                        given,
                        j,
                    ) {
                        is_merged(*plus, before[j], given[j], #[trigger] views(points@)[j])
                    } else {
                        views(points@)[j] == before[j]
                    } by {
                        if j > i {
                            assert(!mergeable(before[i as int], given[i as int]));
                        } else {
                            assert(all_mergeable(before, given, j));
                        }
                    }
                }
                assert forall|f: spec_fn(u64, u64) -> u64| #[trigger] computes(*plus, f) implies views(
                    points@,
                ) == merged_points(before, given, f) by {
                    let expected = merged_points(before, given, f);
                    assert forall|j: int| 0 <= j < expected.len() implies views(points@)[j]
                        == expected[j] by {
                        if j > i {
                            assert(!mergeable(before[i as int], given[i as int]));
                            assert(!all_mergeable(before, given, j));
                        } else {
                            assert(all_mergeable(before, given, j));
                        }
                    }
                    assert(views(points@) =~= expected);
                }
            }
            return false;
        }
        i = i + 1;
    }
    proof {
        assert(are_merged(*plus, before, given, views(points@))) by {
            assert forall|j: int| 0 <= j < before.len() implies if j < given.len() && all_mergeable(
                before,
                given,
                j,
            ) {
                is_merged(*plus, before[j], given[j], #[trigger] views(points@)[j])
            } else {
                views(points@)[j] == before[j]
            } by {}
        }
        assert forall|f: spec_fn(u64, u64) -> u64| #[trigger] computes(*plus, f) implies views(points@)
            == merged_points(before, given, f) by {
            let expected = merged_points(before, given, f);
            assert forall|j: int| 0 <= j < expected.len() implies views(points@)[j] == expected[j] by {
                if j < i {
                    assert(all_mergeable(before, given, j));
                }
            }
            assert(views(points@) =~= expected);
        }
    }
    true
}

/// Whether the first counts of a list, up to a number, are not less than those of another.
pub open spec fn counts_cover(a: Seq<u64>, b: Seq<u64>, n: int) -> bool {
    forall|i: int| 0 <= i < n ==> #[trigger] a[i] >= b[i]
}

/// The counts after others were subtracted, one by one, up to the first that is too small.
pub open spec fn counts_subtracted(a: Seq<u64>, b: Seq<u64>) -> Seq<u64> {
    Seq::new(
        a.len(),
        |i: int|
            if counts_cover(a, b, i + 1) {
                (a[i] - b[i]) as u64
            } else {
                a[i]
            },
    )
}

/// Whether a histogram has the same buckets as another one and at least its count.
pub open spec fn comparable(p: HistogramDataPointView, o: HistogramDataPointView) -> bool {
    mergeable(p, o) && p.count >= o.count
}

/// Whether a histogram can be subtracted from another one.
pub open spec fn separable(p: HistogramDataPointView, o: HistogramDataPointView) -> bool {
    comparable(p, o) && counts_cover(p.bucket_counts, o.bucket_counts, p.bucket_counts.len() as int)
}

/// The histogram after another one was subtracted; `f` subtracts doubles. Where a bucket is too
/// small, only those before it have changed.
pub open spec fn separated(
    p: HistogramDataPointView,
    o: HistogramDataPointView,
    f: spec_fn(u64, u64) -> u64,
) -> HistogramDataPointView {
    if separable(p, o) {
        HistogramDataPointView {
            bucket_counts: counts_subtracted(p.bucket_counts, o.bucket_counts),
            count: (p.count - o.count) as u64,
            sum: Some(f(sum_or_zero(p.sum), sum_or_zero(o.sum))),
            ..p
        }
    } else if comparable(p, o) {
        HistogramDataPointView {
            bucket_counts: counts_subtracted(p.bucket_counts, o.bucket_counts),
            ..p
        }
    } else {
        p
    }
}

/// Whether the first data points, up to a number, can be subtracted.
pub open spec fn all_separable(points: Seq<HistogramDataPointView>, others: Seq<HistogramDataPointView>, n: int) -> bool {
    forall|i: int| 0 <= i < n ==> separable(#[trigger] points[i], others[i])
}

/// The data points after others were subtracted, pair by pair, up to the first pair for which that is
/// not possible.
pub open spec fn separated_points(
    points: Seq<HistogramDataPointView>,
    others: Seq<HistogramDataPointView>,
    f: spec_fn(u64, u64) -> u64,
) -> Seq<HistogramDataPointView> {
    Seq::new(
        points.len(),
        |i: int|
            if i < others.len() && all_separable(points, others, i) {
                separated(points[i], others[i], f)
            } else {
                points[i]
            },
    )
}

fn subtract_counts(a: &mut Vec<u64>, b: &Vec<u64>) -> (r: bool)
    requires
        old(a)@.len() == b@.len(),
    ensures
        final(a)@ == counts_subtracted(old(a)@, b@),
        r == counts_cover(old(a)@, b@, b@.len() as int),
{
    let mut i: usize = 0;
    while i < a.len()
        invariant
            i <= a@.len(),
            a@.len() == old(a)@.len(),
            a@.len() == b@.len(),
            counts_cover(old(a)@, b@, i as int),
            forall|j: int| 0 <= j < i ==> #[trigger] a@[j] == (old(a)@[j] - b@[j]) as u64,
            forall|j: int| i <= j < a@.len() ==> #[trigger] a@[j] == old(a)@[j],
        decreases a@.len() - i,
    {
        if a[i] < b[i] {
            proof {
                let expected = counts_subtracted(old(a)@, b@);
                assert forall|j: int| 0 <= j < a@.len() implies a@[j] == expected[j] by {
                    if j >= i {
                        assert(old(a)@[i as int] < b@[i as int]);
                        assert(!counts_cover(old(a)@, b@, j + 1));
                    } else {
                        assert(counts_cover(old(a)@, b@, j + 1));
                    }
                }
                assert(a@ =~= expected);
                assert(old(a)@[i as int] < b@[i as int]);
            }
            return false;
        }
        let left: u64 = a[i] - b[i];
        a[i] = left;
        i = i + 1;
    }
    proof {
        let expected = counts_subtracted(old(a)@, b@);
        assert forall|j: int| 0 <= j < a@.len() implies a@[j] == expected[j] by {
            assert(counts_cover(old(a)@, b@, j + 1));
        }
        assert(a@ =~= expected);
    }
    true
}

/// Whether this is what a data point may be after another one was subtracted, where `op` computes doubles.
pub open spec fn is_separated<F: Fn(u64, u64) -> u64>(
    op: F,
    p: HistogramDataPointView,
    o: HistogramDataPointView,
    r: HistogramDataPointView,
) -> bool {
    exists|f: spec_fn(u64, u64) -> u64| r == #[trigger] separated(p, o, f) && (separable(p, o) ==> sum_drawn(op, p.sum, o.sum, f))
}

/// Whether this is what data points may be after others were subtracted, pair by pair, up to the first pair
/// for which that is not possible.
pub open spec fn are_separated<F: Fn(u64, u64) -> u64>(
    op: F,
    points: Seq<HistogramDataPointView>,
    others: Seq<HistogramDataPointView>,
    r: Seq<HistogramDataPointView>,
) -> bool {
    &&& r.len() == points.len()
    &&& forall|i: int|
        0 <= i < points.len() ==> if i < others.len() && all_separable(points, others, i) {
            is_separated(op, points[i], others[i], #[trigger] r[i])
        } else {
            r[i] == points[i]
        }
}

fn subtract_histogram<F: Fn(u64, u64) -> u64>(
    p: &mut HistogramDataPoint,
    o: &HistogramDataPoint,
    minus: &F,
) -> (r: bool)
    requires
        forall|a: u64, b: u64| call_requires(*minus, (a, b)),
    ensures
        r == separable(old(p)@, o@),
        forall|f: spec_fn(u64, u64) -> u64| #[trigger]
            computes(*minus, f) ==> final(p)@ == separated(old(p)@, o@, f),
        is_separated(*minus, old(p)@, o@, final(p)@),
{
    if !bounds_eq(&p.explicit_bounds, &o.explicit_bounds) || p.bucket_counts.len()
        != o.bucket_counts.len() || p.count < o.count {
        assert(p@ == separated(old(p)@, o@, always(0)));
        return false;
    }
    if !subtract_counts(&mut p.bucket_counts, &o.bucket_counts) {
        assert(p@ == separated(old(p)@, o@, always(0)));
        return false;
    }
    p.count = p.count - o.count;
    let v = minus(p.sum.unwrap_or(0), o.sum.unwrap_or(0));
    p.sum = Some(v);
    assert(p@ == separated(old(p)@, o@, always(v)));
    true
}

/// Subtracts histograms, pair by pair.
fn subtract_histograms<F: Fn(u64, u64) -> u64>(points: &mut Vec<HistogramDataPoint>, others: &Vec<HistogramDataPoint>, minus: &F) -> (r: bool)
    requires
        forall|a: u64, b: u64| call_requires(*minus, (a, b)),
    ensures
        forall|f: spec_fn(u64, u64) -> u64| #[trigger]
            computes(*minus, f) ==> views(final(points)@) == separated_points(
                views(old(points)@),
                views(others@),
                f,
            ),
        are_separated(*minus, views(old(points)@), views(others@), views(final(points)@)),
        r == all_separable(views(old(points)@), views(others@), pairs(old(points)@.len(), others@.len())),
{
    let ghost before = views(points@);
    let ghost given = views(others@);
    let mut i: usize = 0;
    while i < points.len() && i < others.len()
        invariant
            i <= points@.len(),
            i <= others@.len(),
            points@.len() == old(points)@.len(),
            before == views(old(points)@),
            given == views(others@),
            all_separable(before, given, i as int),
            forall|a: u64, b: u64| call_requires(*minus, (a, b)),
            forall|f: spec_fn(u64, u64) -> u64, j: int|
                0 <= j < i && #[trigger] computes(*minus, f) ==> (#[trigger] points@[j])@ == separated(
                    before[j],
                    given[j],
                    f,
                ),
            forall|j: int|
                0 <= j < i ==> is_separated(*minus, before[j], given[j], (#[trigger] points@[j])@),
            forall|j: int| i <= j < points@.len() ==> (#[trigger] points@[j])@ == before[j],
        decreases points@.len() - i,
    {
        assert(given[i as int] == others@[i as int]@);
        let done = subtract_histogram(&mut points[i], &others[i], minus);
        if !done {
            proof {
                assert(are_separated(*minus, before, given, views(points@))) by {
                    assert forall|j: int| 0 <= j < before.len() implies if j < given.len() && all_separable(
                        before,
                        given,
                        j,
                    ) {
                        is_separated(*minus, before[j], given[j], #[trigger] views(points@)[j])
                    } else {
                        views(points@)[j] == before[j]
                    } by {
                        if j > i {
                            assert(!separable(before[i as int], given[i as int]));
                        } else {
                            assert(all_separable(before, given, j));
                        }
                    }
                }
                assert forall|f: spec_fn(u64, u64) -> u64| #[trigger] computes(*minus, f) implies views(
                    points@,
                ) == separated_points(before, given, f) by {
                    let expected = separated_points(before, given, f);
                    assert forall|j: int| 0 <= j < expected.len() implies views(points@)[j]
                        == expected[j] by {
                        if j > i {
                            assert(!separable(before[i as int], given[i as int]));
                            assert(!all_separable(before, given, j));
                        } else {
                            assert(all_separable(before, given, j));
                        }
                    }
                    assert(views(points@) =~= expected);
                }
            }
            return false;
        }
        i = i + 1;
    }
    proof {
        assert(are_separated(*minus, before, given, views(points@))) by {
            assert forall|j: int| 0 <= j < before.len() implies if j < given.len() && all_separable(
                before,
                given,
                j,
            ) {
                is_separated(*minus, before[j], given[j], #[trigger] views(points@)[j])
            } else {
                views(points@)[j] == before[j]
            } by {}
        }
        assert forall|f: spec_fn(u64, u64) -> u64| #[trigger] computes(*minus, f) implies views(points@)
            == separated_points(before, given, f) by {
            let expected = separated_points(before, given, f);
            assert forall|j: int| 0 <= j < expected.len() implies views(points@)[j] == expected[j] by {
                if j < i {
                    assert(all_separable(before, given, j));
                }
            }
            assert(views(points@) =~= expected);
        }
    }
    true
}

/// Whether two lists of buckets start at the same offset and are equally long.
pub open spec fn aligned(a: BucketsView, b: BucketsView) -> bool {
    a.offset == b.offset && a.bucket_counts.len() == b.bucket_counts.len()
}

/// Whether the buckets of one sign can be added, where both sides have any.
pub open spec fn sides_aligned(a: Option<BucketsView>, b: Option<BucketsView>) -> bool {
    match (a, b) {
        (Some(a), Some(b)) => aligned(a, b),
        _ => true,
    }
}

/// The buckets of one sign after others were added, where both sides have any that are aligned.
pub open spec fn side_added(a: Option<BucketsView>, b: Option<BucketsView>) -> Option<BucketsView> {
    match (a, b) {
        (Some(a), Some(b)) => if aligned(a, b) {
            Some(
                BucketsView { bucket_counts: counts_added(a.bucket_counts, b.bucket_counts), ..a },
            )
        } else {
            Some(a)
        },
        _ => a,
    }
}

/// Whether no count overflows where the buckets of one sign are added.
pub open spec fn side_fits(a: Option<BucketsView>, b: Option<BucketsView>) -> bool {
    match (a, b) {
        (Some(a), Some(b)) => aligned(a, b) ==> counts_fit(a.bucket_counts, b.bucket_counts),
        _ => true,
    }
}

/// Whether two histograms whose bounds grow exponentially have the same buckets.
pub open spec fn growable(
    p: ExponentialHistogramDataPointView,
    o: ExponentialHistogramDataPointView,
) -> bool {
    p.scale == o.scale && sides_aligned(p.positive, o.positive) && sides_aligned(
        p.negative,
        o.negative,
    )
}

/// Whether no count overflows where two histograms whose bounds grow exponentially are added.
pub open spec fn growable_fit(
    p: ExponentialHistogramDataPointView,
    o: ExponentialHistogramDataPointView,
) -> bool {
    p.scale == o.scale ==> {
        &&& p.count + o.count <= u64::MAX
        &&& p.zero_count + o.zero_count <= u64::MAX
        &&& side_fits(p.positive, o.positive)
        &&& sides_aligned(p.positive, o.positive) ==> side_fits(p.negative, o.negative)
    }
}

/// The histogram after another one was added; `f` adds doubles. Where the scales differ nothing
/// changes. Where the buckets of one sign are not aligned, those stay, and where they are the
/// positive ones, the negative ones too.
pub open spec fn grown(
    p: ExponentialHistogramDataPointView,
    o: ExponentialHistogramDataPointView,
    f: spec_fn(u64, u64) -> u64,
) -> ExponentialHistogramDataPointView {
    if p.scale == o.scale {
        ExponentialHistogramDataPointView {
            count: (p.count + o.count) as u64,
            sum: Some(f(sum_or_zero(p.sum), sum_or_zero(o.sum))),
            zero_count: (p.zero_count + o.zero_count) as u64,
            positive: side_added(p.positive, o.positive),
            negative: if sides_aligned(p.positive, o.positive) {
                side_added(p.negative, o.negative)
            } else {
                p.negative
            },
            ..p
        }
    } else {
        p
    }
}

/// Whether the first data points, up to a number, can be added.
pub open spec fn all_growable(points: Seq<ExponentialHistogramDataPointView>, others: Seq<ExponentialHistogramDataPointView>, n: int) -> bool {
    forall|i: int| 0 <= i < n ==> growable(#[trigger] points[i], others[i])
}

/// Whether no count that is added overflows.
pub open spec fn growables_fit(points: Seq<ExponentialHistogramDataPointView>, others: Seq<ExponentialHistogramDataPointView>) -> bool {
    forall|i: int|
        0 <= i < points.len() && i < others.len() && all_growable(points, others, i) ==> growable_fit(
            #[trigger] points[i],
            others[i],
        )
}

/// The data points after others were added, pair by pair, up to the first pair for which that is
/// not possible.
pub open spec fn grown_points(
    points: Seq<ExponentialHistogramDataPointView>,
    others: Seq<ExponentialHistogramDataPointView>,
    f: spec_fn(u64, u64) -> u64,
) -> Seq<ExponentialHistogramDataPointView> {
    Seq::new(
        points.len(),
        |i: int|
            if i < others.len() && all_growable(points, others, i) {
                grown(points[i], others[i], f)
            } else {
                points[i]
            },
    )
}

fn add_side(a: &mut Option<Buckets>, b: &Option<Buckets>) -> (r: bool)
    requires
        side_fits(opt_view(*old(a)), opt_view(*b)),
    ensures
        opt_view(*final(a)) == side_added(opt_view(*old(a)), opt_view(*b)),
        r == sides_aligned(opt_view(*old(a)), opt_view(*b)),
{
    match (a, b) {
        (Some(a), Some(b)) => {
            if a.offset != b.offset || a.bucket_counts.len() != b.bucket_counts.len() {
                return false;
            }
            add_counts(&mut a.bucket_counts, &b.bucket_counts);
            true
        },
        _ => true,
    }
}

/// Whether this is what a data point may be after another one was added, where `op` computes doubles.
pub open spec fn is_grown<F: Fn(u64, u64) -> u64>(
    op: F,
    p: ExponentialHistogramDataPointView,
    o: ExponentialHistogramDataPointView,
    r: ExponentialHistogramDataPointView,
) -> bool {
    exists|f: spec_fn(u64, u64) -> u64| r == #[trigger] grown(p, o, f) && (p.scale == o.scale ==> sum_drawn(op, p.sum, o.sum, f))
}

/// Whether this is what data points may be after others were added, pair by pair, up to the first pair
/// for which that is not possible.
pub open spec fn are_grown<F: Fn(u64, u64) -> u64>(
    op: F,
    points: Seq<ExponentialHistogramDataPointView>,
    others: Seq<ExponentialHistogramDataPointView>,
    r: Seq<ExponentialHistogramDataPointView>,
) -> bool {
    &&& r.len() == points.len()
    &&& forall|i: int|
        0 <= i < points.len() ==> if i < others.len() && all_growable(points, others, i) {
            is_grown(op, points[i], others[i], #[trigger] r[i])
        } else {
            r[i] == points[i]
        }
}

fn add_exponential<F: Fn(u64, u64) -> u64>(
    p: &mut ExponentialHistogramDataPoint,
    o: &ExponentialHistogramDataPoint,
    plus: &F,
) -> (r: bool)
    requires
        forall|a: u64, b: u64| call_requires(*plus, (a, b)),
        growable_fit(old(p)@, o@),
    ensures
        r == growable(old(p)@, o@),
        forall|f: spec_fn(u64, u64) -> u64| #[trigger]
            computes(*plus, f) ==> final(p)@ == grown(old(p)@, o@, f),
        is_grown(*plus, old(p)@, o@, final(p)@),
{
    if p.scale != o.scale {
        assert(p@ == grown(old(p)@, o@, always(0)));
        return false;
    }
    p.count = p.count + o.count;
    let v = plus(p.sum.unwrap_or(0), o.sum.unwrap_or(0));
    p.sum = Some(v);
    p.zero_count = p.zero_count + o.zero_count;
    let done = add_side(&mut p.positive, &o.positive) && add_side(&mut p.negative, &o.negative);
    assert(p@ == grown(old(p)@, o@, always(v)));
    done
}

/// Adds histograms whose bounds grow exponentially, pair by pair.
fn add_exponentials<F: Fn(u64, u64) -> u64>(points: &mut Vec<ExponentialHistogramDataPoint>, others: &Vec<ExponentialHistogramDataPoint>, plus: &F) -> (r: bool)
    requires
        forall|a: u64, b: u64| call_requires(*plus, (a, b)),
        growables_fit(views(old(points)@), views(others@)),
    ensures
        forall|f: spec_fn(u64, u64) -> u64| #[trigger]
            computes(*plus, f) ==> views(final(points)@) == grown_points(
                views(old(points)@),
                views(others@),
                f,
            ),
        are_grown(*plus, views(old(points)@), views(others@), views(final(points)@)),
        r == all_growable(views(old(points)@), views(others@), pairs(old(points)@.len(), others@.len())),
{
    let ghost before = views(points@);
    let ghost given = views(others@);
    let mut i: usize = 0;
    while i < points.len() && i < others.len()
        invariant
            i <= points@.len(),
            i <= others@.len(),
            points@.len() == old(points)@.len(),
            before == views(old(points)@),
            given == views(others@),
            growables_fit(before, given),
            all_growable(before, given, i as int),
            forall|a: u64, b: u64| call_requires(*plus, (a, b)),
            forall|f: spec_fn(u64, u64) -> u64, j: int|
                0 <= j < i && #[trigger] computes(*plus, f) ==> (#[trigger] points@[j])@ == grown(
                    before[j],
                    given[j],
                    f,
                ),
            forall|j: int|
                0 <= j < i ==> is_grown(*plus, before[j], given[j], (#[trigger] points@[j])@),
            forall|j: int| i <= j < points@.len() ==> (#[trigger] points@[j])@ == before[j],
        decreases points@.len() - i,
    {
        assert(given[i as int] == others@[i as int]@);
        assert(growable_fit(before[i as int], given[i as int]));
        let done = add_exponential(&mut points[i], &others[i], plus);
        if !done {
            proof {
                assert(are_grown(*plus, before, given, views(points@))) by {
                    assert forall|j: int| 0 <= j < before.len() implies if j < given.len() && all_growable(
                        before,
                        given,
                        j,
                    ) {
                        is_grown(*plus, before[j], given[j], #[trigger] views(points@)[j])
                    } else {
                        views(points@)[j] == before[j]
                    } by {
                        if j > i {
                            assert(!growable(before[i as int], given[i as int]));
                        } else {
                            assert(all_growable(before, given, j));
                        }
                    }
                }
                assert forall|f: spec_fn(u64, u64) -> u64| #[trigger] computes(*plus, f) implies views(
                    points@,
                ) == grown_points(before, given, f) by {
                    let expected = grown_points(before, given, f);
                    assert forall|j: int| 0 <= j < expected.len() implies views(points@)[j]
                        == expected[j] by {
                        if j > i {
                            assert(!growable(before[i as int], given[i as int]));
                            assert(!all_growable(before, given, j));
                        } else {
                            assert(all_growable(before, given, j));
                        }
                    }
                    assert(views(points@) =~= expected);
                }
            }
            return false;
        }
        i = i + 1;
    }
    proof {
        assert(are_grown(*plus, before, given, views(points@))) by {
            assert forall|j: int| 0 <= j < before.len() implies if j < given.len() && all_growable(
                before,
                given,
                j,
            ) {
                is_grown(*plus, before[j], given[j], #[trigger] views(points@)[j])
            } else {
                views(points@)[j] == before[j]
            } by {}
        }
        assert forall|f: spec_fn(u64, u64) -> u64| #[trigger] computes(*plus, f) implies views(points@)
            == grown_points(before, given, f) by {
            let expected = grown_points(before, given, f);
            assert forall|j: int| 0 <= j < expected.len() implies views(points@)[j] == expected[j] by {
                if j < i {
                    assert(all_growable(before, given, j));
                }
            }
            assert(views(points@) =~= expected);
        }
    }
    true
}

/// Whether data can be added to other data: both are of one kind, the summary aside, and each pair
/// of data points can be.
pub open spec fn can_add(d: Option<DataView>, o: Option<DataView>) -> bool {
    match (d, o) {
        (Some(DataView::Sum(d)), Some(DataView::Sum(o))) => all_addable(
            d.data_points,
            o.data_points,
            pairs(d.data_points.len(), o.data_points.len()),
        ),
        (Some(DataView::Gauge(d)), Some(DataView::Gauge(o))) => all_addable(
            d.data_points,
            o.data_points,
            pairs(d.data_points.len(), o.data_points.len()),
        ),
        (Some(DataView::Histogram(d)), Some(DataView::Histogram(o))) => all_mergeable(
            d.data_points,
            o.data_points,
            pairs(d.data_points.len(), o.data_points.len()),
        ),
        (
            Some(DataView::ExponentialHistogram(d)),
            Some(DataView::ExponentialHistogram(o)),
        ) => all_growable(
            d.data_points,
            o.data_points,
            pairs(d.data_points.len(), o.data_points.len()),
        ),
        _ => false,
    }
}

/// Whether no count overflows where data is added.
pub open spec fn add_fits(d: Option<DataView>, o: Option<DataView>) -> bool {
    match (d, o) {
        (Some(DataView::Sum(d)), Some(DataView::Sum(o))) => addables_fit(
            d.data_points,
            o.data_points,
        ),
        (Some(DataView::Gauge(d)), Some(DataView::Gauge(o))) => addables_fit(
            d.data_points,
            o.data_points,
        ),
        (Some(DataView::Histogram(d)), Some(DataView::Histogram(o))) => mergeables_fit(
            d.data_points,
            o.data_points,
        ),
        (
            Some(DataView::ExponentialHistogram(d)),
            Some(DataView::ExponentialHistogram(o)),
        ) => growables_fit(d.data_points, o.data_points),
        _ => true,
    }
}

/// The data after other data was added, pair of data points by pair, up to the first pair for which
/// that is not possible; `f` adds doubles.
pub open spec fn data_added(
    d: Option<DataView>,
    o: Option<DataView>,
    f: spec_fn(u64, u64) -> u64,
) -> Option<DataView> {
    match (d, o) {
        (Some(DataView::Sum(d)), Some(DataView::Sum(o))) => Some(
            DataView::Sum(
                SumView { data_points: added_points(d.data_points, o.data_points, f), ..d },
            ),
        ),
        (Some(DataView::Gauge(d)), Some(DataView::Gauge(o))) => Some(
            DataView::Gauge(
                GaugeView { data_points: added_points(d.data_points, o.data_points, f) },
            ),
        ),
        (Some(DataView::Histogram(d)), Some(DataView::Histogram(o))) => Some(
            DataView::Histogram(
                HistogramView { data_points: merged_points(d.data_points, o.data_points, f), ..d },
            ),
        ),
        (
            Some(DataView::ExponentialHistogram(d)),
            Some(DataView::ExponentialHistogram(o)),
        ) => Some(
            DataView::ExponentialHistogram(
                ExponentialHistogramView {
                    data_points: grown_points(d.data_points, o.data_points, f),
                    ..d
                },
            ),
        ),
        _ => d,
    }
}

/// Whether this is what data may be after other data was added, where `op` adds doubles.
pub open spec fn data_is_added<F: Fn(u64, u64) -> u64>(
    op: F,
    d: Option<DataView>,
    o: Option<DataView>,
    r: Option<DataView>,
) -> bool {
    match (d, o) {
        (Some(DataView::Sum(d)), Some(DataView::Sum(o))) => {
            r matches Some(DataView::Sum(s)) && s == (SumView { data_points: s.data_points, ..d })
                && are_added(op, d.data_points, o.data_points, s.data_points)
        },
        (Some(DataView::Gauge(d)), Some(DataView::Gauge(o))) => {
            r matches Some(DataView::Gauge(g)) && are_added(
                op,
                d.data_points,
                o.data_points,
                g.data_points,
            )
        },
        (Some(DataView::Histogram(d)), Some(DataView::Histogram(o))) => {
            r matches Some(DataView::Histogram(h)) && h == (HistogramView {
                data_points: h.data_points,
                ..d
            }) && are_merged(op, d.data_points, o.data_points, h.data_points)
        },
        (
            Some(DataView::ExponentialHistogram(d)),
            Some(DataView::ExponentialHistogram(o)),
        ) => {
            r matches Some(DataView::ExponentialHistogram(e)) && e == (ExponentialHistogramView {
                data_points: e.data_points,
                ..d
            }) && are_grown(op, d.data_points, o.data_points, e.data_points)
        },
        _ => r == d,
    }
}

/// Whether data can be subtracted from other data: both are sums, gauges or histograms, and each
/// pair of data points can be.
pub open spec fn can_subtract(d: Option<DataView>, o: Option<DataView>) -> bool {
    match (d, o) {
        (Some(DataView::Sum(d)), Some(DataView::Sum(o))) => all_countable(
            d.data_points,
            o.data_points,
            pairs(d.data_points.len(), o.data_points.len()),
        ),
        (Some(DataView::Gauge(d)), Some(DataView::Gauge(o))) => all_differing(
            d.data_points,
            o.data_points,
            pairs(d.data_points.len(), o.data_points.len()),
        ),
        (Some(DataView::Histogram(d)), Some(DataView::Histogram(o))) => all_separable(
            d.data_points,
            o.data_points,
            pairs(d.data_points.len(), o.data_points.len()),
        ),
        _ => false,
    }
}

/// Whether no number overflows where data is subtracted.
pub open spec fn subtract_fits(d: Option<DataView>, o: Option<DataView>) -> bool {
    match (d, o) {
        (Some(DataView::Sum(d)), Some(DataView::Sum(o))) => countables_fit(
            d.data_points,
            o.data_points,
        ),
        (Some(DataView::Gauge(d)), Some(DataView::Gauge(o))) => differings_fit(
            d.data_points,
            o.data_points,
        ),
        _ => true,
    }
}

/// The data after other data was subtracted, pair of data points by pair, up to the first pair for
/// which that is not possible; `f` subtracts doubles.
pub open spec fn data_subtracted(
    d: Option<DataView>,
    o: Option<DataView>,
    f: spec_fn(u64, u64) -> u64,
) -> Option<DataView> {
    match (d, o) {
        (Some(DataView::Sum(d)), Some(DataView::Sum(o))) => Some(
            DataView::Sum(
                SumView { data_points: counted_down_points(d.data_points, o.data_points, f), ..d },
            ),
        ),
        (Some(DataView::Gauge(d)), Some(DataView::Gauge(o))) => Some(
            DataView::Gauge(
                GaugeView { data_points: differed_points(d.data_points, o.data_points, f) },
            ),
        ),
        (Some(DataView::Histogram(d)), Some(DataView::Histogram(o))) => Some(
            DataView::Histogram(
                HistogramView {
                    data_points: separated_points(d.data_points, o.data_points, f),
                    ..d
                },
            ),
        ),
        _ => d,
    }
}

/// Whether this is what data may be after other data was subtracted, where `op` subtracts doubles.
pub open spec fn data_is_subtracted<F: Fn(u64, u64) -> u64>(
    op: F,
    d: Option<DataView>,
    o: Option<DataView>,
    r: Option<DataView>,
) -> bool {
    match (d, o) {
        (Some(DataView::Sum(d)), Some(DataView::Sum(o))) => {
            r matches Some(DataView::Sum(s)) && s == (SumView { data_points: s.data_points, ..d })
                && are_counted_down(op, d.data_points, o.data_points, s.data_points)
        },
        (Some(DataView::Gauge(d)), Some(DataView::Gauge(o))) => {
            r matches Some(DataView::Gauge(g)) && are_differed(
                op,
                d.data_points,
                o.data_points,
                g.data_points,
            )
        },
        (Some(DataView::Histogram(d)), Some(DataView::Histogram(o))) => {
            r matches Some(DataView::Histogram(h)) && h == (HistogramView {
                data_points: h.data_points,
                ..d
            }) && are_separated(op, d.data_points, o.data_points, h.data_points)
        },
        _ => r == d,
    }
}

/// Zeros, as many as there are counts.
pub open spec fn zeros(counts: Seq<u64>) -> Seq<u64> {
    Seq::new(counts.len(), |i: int| 0u64)
}

/// The data point with its number set to zero.
pub open spec fn zero_number(p: NumberDataPointView) -> NumberDataPointView {
    NumberDataPointView {
        value: match p.value {
            Some(NumberValue::AsDouble(_)) => Some(NumberValue::AsDouble(0)),
            Some(NumberValue::AsInt(_)) => Some(NumberValue::AsInt(0)),
            None => None,
        },
        ..p
    }
}

/// The histogram with its counts set to zero.
pub open spec fn zero_histogram(p: HistogramDataPointView) -> HistogramDataPointView {
    HistogramDataPointView {
        bucket_counts: zeros(p.bucket_counts),
        count: 0,
        sum: Some(0),
        ..p
    }
}

/// The summary with its counts and its values set to zero.
pub open spec fn zero_summary(p: SummaryDataPointView) -> SummaryDataPointView {
    SummaryDataPointView {
        quantile_values: Seq::new(
            p.quantile_values.len(),
            |i: int| ValueAtQuantileView { value: 0, ..p.quantile_values[i] },
        ),
        count: 0,
        sum: 0,
        ..p
    }
}

/// The buckets of one sign with their counts set to zero.
pub open spec fn zero_side(b: Option<BucketsView>) -> Option<BucketsView> {
    match b {
        Some(b) => Some(BucketsView { bucket_counts: zeros(b.bucket_counts), ..b }),
        None => None,
    }
}

/// The histogram whose bounds grow exponentially with its counts set to zero.
pub open spec fn zero_exponential(p: ExponentialHistogramDataPointView) -> ExponentialHistogramDataPointView {
    ExponentialHistogramDataPointView {
        count: 0,
        sum: Some(0),
        zero_count: 0,
        positive: zero_side(p.positive),
        negative: zero_side(p.negative),
        ..p
    }
}

/// The data with all numbers and counts set to zero.
pub open spec fn data_zeroed(d: DataView) -> DataView {
    match d {
        DataView::Sum(s) => DataView::Sum(
            SumView {
                data_points: Seq::new(
                    s.data_points.len(),
                    |i: int| zero_number(s.data_points[i]),
                ),
                ..s
            },
        ),
        DataView::Gauge(g) => DataView::Gauge(
            GaugeView {
                data_points: Seq::new(
                    g.data_points.len(),
                    |i: int| zero_number(g.data_points[i]),
                ),
            },
        ),
        DataView::Histogram(h) => DataView::Histogram(
            HistogramView {
                data_points: Seq::new(
                    h.data_points.len(),
                    |i: int| zero_histogram(h.data_points[i]),
                ),
                ..h
            },
        ),
        DataView::Summary(s) => DataView::Summary(
            SummaryView {
                data_points: Seq::new(
                    s.data_points.len(),
                    |i: int| zero_summary(s.data_points[i]),
                ),
            },
        ),
        DataView::ExponentialHistogram(e) => DataView::ExponentialHistogram(
            ExponentialHistogramView {
                data_points: Seq::new(
                    e.data_points.len(),
                    |i: int| zero_exponential(e.data_points[i]),
                ),
                ..e
            },
        ),
    }
}

fn set_zeros(counts: &mut Vec<u64>)
    ensures
        final(counts)@ == zeros(old(counts)@),
{
    let mut i: usize = 0;
    while i < counts.len()
        invariant
            i <= counts@.len(),
            counts@.len() == old(counts)@.len(),
            forall|j: int| 0 <= j < i ==> #[trigger] counts@[j] == 0,
        decreases counts@.len() - i,
    {
        counts[i] = 0;
        i = i + 1;
    }
    assert(counts@ =~= zeros(old(counts)@));
}

fn zero_one_number(p: &mut NumberDataPoint)
    ensures
        final(p)@ == zero_number(old(p)@),
{
    match p.value {
        Some(NumberValue::AsDouble(_)) => {
            p.value = Some(NumberValue::AsDouble(0));
        },
        Some(NumberValue::AsInt(_)) => {
            p.value = Some(NumberValue::AsInt(0));
        },
        None => {},
    }
}

fn zero_one_histogram(p: &mut HistogramDataPoint)
    ensures
        final(p)@ == zero_histogram(old(p)@),
{
    set_zeros(&mut p.bucket_counts);
    p.count = 0;
    p.sum = Some(0);
}

fn zero_one_summary(p: &mut SummaryDataPoint)
    ensures
        final(p)@ == zero_summary(old(p)@),
{
    let ghost before = views(p.quantile_values@);
    let mut i: usize = 0;
    while i < p.quantile_values.len()
        invariant
            i <= p.quantile_values@.len(),
            p.quantile_values@.len() == before.len(),
            before == old(p)@.quantile_values,
            p.attributes == old(p).attributes,
            p.start_time_unix_nano == old(p).start_time_unix_nano,
            p.time_unix_nano == old(p).time_unix_nano,
            p.flags == old(p).flags,
            forall|j: int|
                0 <= j < i ==> (#[trigger] p.quantile_values@[j])@ == (ValueAtQuantileView {
                    value: 0,
                    ..before[j]
                }),
            forall|j: int|
                i <= j < before.len() ==> (#[trigger] p.quantile_values@[j])@ == before[j],
        decreases p.quantile_values@.len() - i,
    {
        p.quantile_values[i].value = 0;
        i = i + 1;
    }
    p.count = 0;
    p.sum = 0;
    assert(views(p.quantile_values@) =~= zero_summary(old(p)@).quantile_values);
}

fn zero_one_exponential(p: &mut ExponentialHistogramDataPoint)
    ensures
        final(p)@ == zero_exponential(old(p)@),
{
    p.count = 0;
    p.sum = Some(0);
    p.zero_count = 0;
    if let Some(b) = &mut p.positive {
        set_zeros(&mut b.bucket_counts);
    }
    if let Some(b) = &mut p.negative {
        set_zeros(&mut b.bucket_counts);
    }
}

fn zero_numbers(points: &mut Vec<NumberDataPoint>)
    ensures
        views(final(points)@) == Seq::new(
            old(points)@.len(),
            |i: int| zero_number(views(old(points)@)[i]),
        ),
{
    let ghost before = views(points@);
    let mut i: usize = 0;
    while i < points.len()
        invariant
            i <= points@.len(),
            points@.len() == before.len(),
            before == views(old(points)@),
            forall|j: int| 0 <= j < i ==> (#[trigger] points@[j])@ == zero_number(before[j]),
            forall|j: int| i <= j < before.len() ==> (#[trigger] points@[j])@ == before[j],
        decreases points@.len() - i,
    {
        zero_one_number(&mut points[i]);
        i = i + 1;
    }
    assert(views(points@) =~= Seq::new(before.len(), |i: int| zero_number(before[i])));
}

fn zero_histograms(points: &mut Vec<HistogramDataPoint>)
    ensures
        views(final(points)@) == Seq::new(
            old(points)@.len(),
            |i: int| zero_histogram(views(old(points)@)[i]),
        ),
{
    let ghost before = views(points@);
    let mut i: usize = 0;
    while i < points.len()
        invariant
            i <= points@.len(),
            points@.len() == before.len(),
            before == views(old(points)@),
            forall|j: int| 0 <= j < i ==> (#[trigger] points@[j])@ == zero_histogram(before[j]),
            forall|j: int| i <= j < before.len() ==> (#[trigger] points@[j])@ == before[j],
        decreases points@.len() - i,
    {
        zero_one_histogram(&mut points[i]);
        i = i + 1;
    }
    assert(views(points@) =~= Seq::new(before.len(), |i: int| zero_histogram(before[i])));
}

fn zero_summaries(points: &mut Vec<SummaryDataPoint>)
    ensures
        views(final(points)@) == Seq::new(
            old(points)@.len(),
            |i: int| zero_summary(views(old(points)@)[i]),
        ),
{
    let ghost before = views(points@);
    let mut i: usize = 0;
    while i < points.len()
        invariant
            i <= points@.len(),
            points@.len() == before.len(),
            before == views(old(points)@),
            forall|j: int| 0 <= j < i ==> (#[trigger] points@[j])@ == zero_summary(before[j]),
            forall|j: int| i <= j < before.len() ==> (#[trigger] points@[j])@ == before[j],
        decreases points@.len() - i,
    {
        zero_one_summary(&mut points[i]);
        i = i + 1;
    }
    assert(views(points@) =~= Seq::new(before.len(), |i: int| zero_summary(before[i])));
}

fn zero_exponentials(points: &mut Vec<ExponentialHistogramDataPoint>)
    ensures
        views(final(points)@) == Seq::new(
            old(points)@.len(),
            |i: int| zero_exponential(views(old(points)@)[i]),
        ),
{
    let ghost before = views(points@);
    let mut i: usize = 0;
    while i < points.len()
        invariant
            i <= points@.len(),
            points@.len() == before.len(),
            before == views(old(points)@),
            forall|j: int| 0 <= j < i ==> (#[trigger] points@[j])@ == zero_exponential(before[j]),
            forall|j: int| i <= j < before.len() ==> (#[trigger] points@[j])@ == before[j],
        decreases points@.len() - i,
    {
        zero_one_exponential(&mut points[i]);
        i = i + 1;
    }
    assert(views(points@) =~= Seq::new(before.len(), |i: int| zero_exponential(before[i])));
}

impl OtelMetricView {
    /// The event with other data.
    pub open spec fn with_opt_data(self, data: Option<DataView>) -> OtelMetricView {
        OtelMetricView {
            metric: MetricMessageView { data, ..self.metric },
            ..self
        }
    }
}

impl OtelMetric {
    /// Add the data from `other` to this metric. `plus` adds two doubles.
    ///
    /// Both metrics must have the same data type (Sum+Sum, Gauge+Gauge, etc.).
    /// For Histogram, bucket layouts (explicit_bounds) must match.
    /// Returns `false` if the types are incompatible.
    #[must_use]
    pub fn add<F: Fn(u64, u64) -> u64>(&mut self, other: &OtelMetric, plus: F) -> (r: bool)
        requires
            forall|a: u64, b: u64| call_requires(plus, (a, b)),
            add_fits(old(self)@.metric.data, other@.metric.data),
        ensures
            r == can_add(old(self)@.metric.data, other@.metric.data),
            forall|f: spec_fn(u64, u64) -> u64| #[trigger]
                computes(plus, f) ==> final(self)@ == old(self)@.with_opt_data(
                    data_added(old(self)@.metric.data, other@.metric.data, f),
                ),
            final(self)@ == old(self)@.with_opt_data(final(self)@.metric.data),
            data_is_added(plus, old(self)@.metric.data, other@.metric.data, final(self)@.metric.data),
    {
        match (&mut self.metric.data, &other.metric.data) {
            (Some(Data::Sum(d)), Some(Data::Sum(o))) => add_numbers(
                &mut d.data_points,
                &o.data_points,
                &plus,
            ),
            (Some(Data::Gauge(d)), Some(Data::Gauge(o))) => add_numbers(
                &mut d.data_points,
                &o.data_points,
                &plus,
            ),
            (Some(Data::Histogram(d)), Some(Data::Histogram(o))) => add_histograms(
                &mut d.data_points,
                &o.data_points,
                &plus,
            ),
            (
                Some(Data::ExponentialHistogram(d)),
                Some(Data::ExponentialHistogram(o)),
            ) => add_exponentials(&mut d.data_points, &o.data_points, &plus),
            _ => false,
        }
    }

    /// Subtract the data of `other` from this metric. `minus` subtracts two doubles.
    ///
    /// Both metrics must have the same data type. For counters (Sum),
    /// this is monotonic: returns `false` if subtraction would go negative.
    #[must_use]
    pub fn subtract<F: Fn(u64, u64) -> u64>(&mut self, other: &OtelMetric, minus: F) -> (r: bool)
        requires
            forall|a: u64, b: u64| call_requires(minus, (a, b)),
            subtract_fits(old(self)@.metric.data, other@.metric.data),
        ensures
            r == can_subtract(old(self)@.metric.data, other@.metric.data),
            forall|f: spec_fn(u64, u64) -> u64| #[trigger]
                computes(minus, f) ==> final(self)@ == old(self)@.with_opt_data(
                    data_subtracted(old(self)@.metric.data, other@.metric.data, f),
                ),
            final(self)@ == old(self)@.with_opt_data(final(self)@.metric.data),
            data_is_subtracted(minus, old(self)@.metric.data, other@.metric.data, final(self)@.metric.data),
    {
        match (&mut self.metric.data, &other.metric.data) {
            (Some(Data::Sum(d)), Some(Data::Sum(o))) => subtract_counters(
                &mut d.data_points,
                &o.data_points,
                &minus,
            ),
            (Some(Data::Gauge(d)), Some(Data::Gauge(o))) => subtract_numbers(
                &mut d.data_points,
                &o.data_points,
                &minus,
            ),
            (Some(Data::Histogram(d)), Some(Data::Histogram(o))) => subtract_histograms(
                &mut d.data_points,
                &o.data_points,
                &minus,
            ),
            _ => false,
        }
    }

    /// Zero out all data point values in this metric.
    pub fn zero(&mut self)
        ensures
            final(self)@ == match old(self)@.metric.data {
                Some(d) => old(self)@.with_opt_data(Some(data_zeroed(d))),
                None => old(self)@,
            },
    {
        match &mut self.metric.data {
            Some(Data::Sum(s)) => zero_numbers(&mut s.data_points),
            Some(Data::Gauge(g)) => zero_numbers(&mut g.data_points),
            Some(Data::Histogram(h)) => zero_histograms(&mut h.data_points),
            Some(Data::Summary(s)) => zero_summaries(&mut s.data_points),
            Some(Data::ExponentialHistogram(e)) => zero_exponentials(&mut e.data_points),
            None => {},
        }
    }
}

} // verus!
