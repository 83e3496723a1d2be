//! Histograms whose bounds grow exponentially: how they are made, and how they become histograms with
//! explicit bounds.
use vstd::prelude::*;

use crate::double::{is_less, less};
use crate::keyed::views;
use crate::metric::{OtelMetric, OtelMetricView};
use crate::metric_read::{negate, negated};
use crate::otlp_metric::{
    copy_words, Buckets, BucketsView, Data, DataView, ExponentialHistogram,
    ExponentialHistogramDataPoint, ExponentialHistogramDataPointView, Histogram, HistogramDataPoint,
    HistogramDataPointView,
};

verus! {

/// The first bound that is not less than a value; past the end where there is none.
pub open spec fn place(bounds: Seq<u64>, value: u64) -> int
    decreases bounds.len(),
{
    if bounds.len() == 0 || !less(bounds[0], value) {
        0
    } else {
        1 + place(bounds.drop_first(), value)
    }
}

/// The counts with some added to the bucket that a value belongs into.
pub open spec fn placed(counts: Seq<nat>, bounds: Seq<u64>, value: u64, n: u64) -> Seq<nat> {
    counts.update(place(bounds, value), counts[place(bounds, value)] + n as nat)
}

/// Whether `midpoint` computes what `mid` says: of a scale and an exponent, the middle of the bucket
/// that lies between the bounds for the exponent and for the next one.
pub open spec fn centres<F: Fn(i32, i32) -> u64>(
    midpoint: F,
    mid: spec_fn(i32, i32) -> u64,
) -> bool {
    forall|scale: i32, e: i32, r: u64| #[trigger]
        call_ensures(midpoint, (scale, e), r) ==> r == mid(scale, e)
}

/// The counts after the first buckets of one sign were placed, each by its middle.
pub open spec fn side_placed(
    counts: Seq<nat>,
    bounds: Seq<u64>,
    scale: i32,
    b: BucketsView,
    n: nat,
    negative: bool,
    mid: spec_fn(i32, i32) -> u64,
) -> Seq<nat>
    decreases n,
{
    if n == 0 {
        counts
    } else {
        let before = side_placed(counts, bounds, scale, b, (n - 1) as nat, negative, mid);
        let count = b.bucket_counts[n - 1];
        if count == 0 {
            before
        } else {
            let centre = mid(scale, (b.offset + n - 1) as i32);
            placed(
                before,
                bounds,
                if negative {
                    negated(centre)
                } else {
                    centre
                },
                count,
            )
        }
    }
}

/// The counts after all buckets of one sign were placed.
pub open spec fn opt_side_placed(
    counts: Seq<nat>,
    bounds: Seq<u64>,
    scale: i32,
    b: Option<BucketsView>,
    negative: bool,
    mid: spec_fn(i32, i32) -> u64,
) -> Seq<nat> {
    match b {
        Some(b) => side_placed(counts, bounds, scale, b, b.bucket_counts.len(), negative, mid),
        None => counts,
    }
}

/// No counts, one more than there are bounds.
pub open spec fn no_counts(n: nat) -> Seq<nat> {
    Seq::new(n + 1, |i: int| 0nat)
}

/// The counts of the buckets with the given bounds for a histogram whose bounds grow exponentially:
/// zero is placed as it is, each other bucket by its middle. `low` and `high` give the middle for a
/// scale and an exponent, among the negative and the positive numbers.
pub open spec fn converted_counts(
    p: ExponentialHistogramDataPointView,
    bounds: Seq<u64>,
    low: spec_fn(i32, i32) -> u64,
    high: spec_fn(i32, i32) -> u64,
) -> Seq<nat> {
    let counts = no_counts(bounds.len());
    let counts = if p.zero_count > 0 {
        placed(counts, bounds, 0, p.zero_count)
    } else {
        counts
    };
    let counts = opt_side_placed(counts, bounds, p.scale, p.positive, false, high);
    opt_side_placed(counts, bounds, p.scale, p.negative, true, low)
}

/// Whether `midpoint` may give what `mid` says of the buckets of one sign that count anything.
pub open spec fn side_centred<F: Fn(i32, i32) -> u64>(
    midpoint: F,
    scale: i32,
    b: BucketsView,
    mid: spec_fn(i32, i32) -> u64,
) -> bool {
    forall|i: int|
        0 <= i < b.bucket_counts.len() && #[trigger] b.bucket_counts[i] != 0 ==> call_ensures(
            midpoint,
            (scale, (b.offset + i) as i32),
            mid(scale, (b.offset + i) as i32),
        )
}

/// Whether `midpoint` may give what `low` and `high` say of the buckets that count anything.
pub open spec fn is_centred<F: Fn(i32, i32) -> u64>(
    midpoint: F,
    p: ExponentialHistogramDataPointView,
    low: spec_fn(i32, i32) -> u64,
    high: spec_fn(i32, i32) -> u64,
) -> bool {
    &&& p.negative matches Some(b) ==> side_centred(midpoint, p.scale, b, low)
    &&& p.positive matches Some(b) ==> side_centred(midpoint, p.scale, b, high)
}

/// Middles that agree wherever a bucket counts anything place the counts alike.
proof fn lemma_side_agrees(
    counts: Seq<nat>,
    bounds: Seq<u64>,
    scale: i32,
    b: BucketsView,
    n: nat,
    negative: bool,
    mid: spec_fn(i32, i32) -> u64,
    other: spec_fn(i32, i32) -> u64,
)
    requires
        n <= b.bucket_counts.len(),
        forall|i: int|
            0 <= i < n && #[trigger] b.bucket_counts[i] != 0 ==> mid(
                scale,
                (b.offset + i) as i32,
            ) == other(scale, (b.offset + i) as i32),
    ensures
        side_placed(counts, bounds, scale, b, n, negative, mid) == side_placed(
            counts,
            bounds,
            scale,
            b,
            n,
            negative,
            other,
        ),
    decreases n,
{
    if n > 0 {
        lemma_side_agrees(counts, bounds, scale, b, (n - 1) as nat, negative, mid, other);
        assert(b.bucket_counts[n - 1] != 0 ==> mid(scale, (b.offset + n - 1) as i32) == other(
            scale,
            (b.offset + n - 1) as i32,
        ));
    }
}

/// Where a function computes the middles, it places the counts as what it may give does.
proof fn lemma_centres_agree<F: Fn(i32, i32) -> u64>(
    midpoint: F,
    p: ExponentialHistogramDataPointView,
    bounds: Seq<u64>,
    low: spec_fn(i32, i32) -> u64,
    high: spec_fn(i32, i32) -> u64,
    mid: spec_fn(i32, i32) -> u64,
)
    requires
        is_centred(midpoint, p, low, high),
        centres(midpoint, mid),
    ensures
        converted_counts(p, bounds, low, high) == converted_counts(p, bounds, mid, mid),
{
    let first = no_counts(bounds.len());
    let second = if p.zero_count > 0 {
        placed(first, bounds, 0, p.zero_count)
    } else {
        first
    };
    if let Some(b) = p.positive {
        let n = b.bucket_counts.len();
        lemma_side_agrees(second, bounds, p.scale, b, n, false, high, mid);
    }
    let third = opt_side_placed(second, bounds, p.scale, p.positive, false, mid);
    if let Some(b) = p.negative {
        let n = b.bucket_counts.len();
        lemma_side_agrees(third, bounds, p.scale, b, n, true, low, mid);
    }
}

/// The middles that were given for the first buckets, from the exponent `first` on.
pub open spec fn given_middles(first: i32, given: Seq<u64>) -> spec_fn(i32, i32) -> u64 {
    |s: i32, e: i32|
        if 0 <= e - first < given.len() {
            given[e - first]
        } else {
            0
        }
}

/// The sum of counts.
pub open spec fn total(counts: Seq<nat>) -> nat
    decreases counts.len(),
{
    if counts.len() == 0 {
        0
    } else {
        total(counts.drop_last()) + counts.last()
    }
}

/// The sum of the first counts of a list.
pub open spec fn counts_total(counts: Seq<u64>) -> nat
    decreases counts.len(),
{
    if counts.len() == 0 {
        0
    } else {
        counts_total(counts.drop_last()) + counts.last() as nat
    }
}

/// The sum of the counts of one sign.
pub open spec fn side_total(b: Option<BucketsView>) -> nat {
    match b {
        Some(b) => counts_total(b.bucket_counts),
        None => 0,
    }
}

/// How many values a histogram whose bounds grow exponentially counts in its buckets.
pub open spec fn all_counted(p: ExponentialHistogramDataPointView) -> nat {
    p.zero_count as nat + side_total(p.positive) + side_total(p.negative)
}

pub proof fn lemma_place_bounded(bounds: Seq<u64>, value: u64)
    ensures
        0 <= place(bounds, value) <= bounds.len(),
    decreases bounds.len(),
{
    if bounds.len() > 0 && less(bounds[0], value) {
        lemma_place_bounded(bounds.drop_first(), value);
    }
}

pub proof fn lemma_total_update(counts: Seq<nat>, i: int, v: nat)
    requires
        0 <= i < counts.len(),
    ensures
        total(counts.update(i, v)) == total(counts) - counts[i] + v,
    decreases counts.len(),
{
    if i == counts.len() - 1 {
        assert(counts.update(i, v).drop_last() =~= counts.drop_last());
    } else {
        assert(counts.update(i, v).drop_last() =~= counts.drop_last().update(i, v));
        lemma_total_update(counts.drop_last(), i, v);
    }
}

proof fn lemma_placed(counts: Seq<nat>, bounds: Seq<u64>, value: u64, n: u64)
    requires
        counts.len() == bounds.len() + 1,
    ensures
        placed(counts, bounds, value, n).len() == counts.len(),
        total(placed(counts, bounds, value, n)) == total(counts) + n,
{
    lemma_place_bounded(bounds, value);
    lemma_total_update(
        counts,
        place(bounds, value),
        counts[place(bounds, value)] + n as nat,
    );
}

proof fn lemma_side_placed(
    counts: Seq<nat>,
    bounds: Seq<u64>,
    scale: i32,
    b: BucketsView,
    n: nat,
    negative: bool,
    mid: spec_fn(i32, i32) -> u64,
)
    requires
        counts.len() == bounds.len() + 1,
        n <= b.bucket_counts.len(),
    ensures
        side_placed(counts, bounds, scale, b, n, negative, mid).len() == counts.len(),
        total(side_placed(counts, bounds, scale, b, n, negative, mid)) == total(counts)
            + counts_total(b.bucket_counts.take(n as int)),
    decreases n,
{
    if n == 0 {
        assert(b.bucket_counts.take(0) =~= Seq::empty());
    } else {
        lemma_side_placed(counts, bounds, scale, b, (n - 1) as nat, negative, mid);
        let before = side_placed(counts, bounds, scale, b, (n - 1) as nat, negative, mid);
        let count = b.bucket_counts[n - 1];
        assert(b.bucket_counts.take(n as int).drop_last() =~= b.bucket_counts.take(n - 1));
        let centre = mid(scale, (b.offset + n - 1) as i32);
        lemma_placed(
            before,
            bounds,
            if negative {
                negated(centre)
            } else {
                centre
            },
            count,
        );
    }
}

proof fn lemma_opt_side_placed(
    counts: Seq<nat>,
    bounds: Seq<u64>,
    scale: i32,
    b: Option<BucketsView>,
    negative: bool,
    mid: spec_fn(i32, i32) -> u64,
)
    requires
        counts.len() == bounds.len() + 1,
    ensures
        opt_side_placed(counts, bounds, scale, b, negative, mid).len() == counts.len(),
        total(opt_side_placed(counts, bounds, scale, b, negative, mid)) == total(counts)
            + side_total(b),
{
    if let Some(s) = b {
        lemma_side_placed(counts, bounds, scale, s, s.bucket_counts.len(), negative, mid);
        assert(s.bucket_counts.take(s.bucket_counts.len() as int) =~= s.bucket_counts);
    }
}

proof fn lemma_no_counts(n: nat)
    ensures
        total(no_counts(n)) == 0,
    decreases n,
{
    if n == 0 {
        reveal_with_fuel(total, 2);
        assert(no_counts(0).drop_last() =~= Seq::empty());
    } else {
        assert(no_counts(n).drop_last() =~= no_counts((n - 1) as nat));
        lemma_no_counts((n - 1) as nat);
    }
}

/// A conversion to explicit bounds loses no value: the new buckets count as many as the old ones, and
/// there is one more of them than there are bounds.
pub proof fn law_conversion_keeps_counts(
    p: ExponentialHistogramDataPointView,
    bounds: Seq<u64>,
    low: spec_fn(i32, i32) -> u64,
    high: spec_fn(i32, i32) -> u64,
)
    ensures
        converted_counts(p, bounds, low, high).len() == bounds.len() + 1,
        total(converted_counts(p, bounds, low, high)) == all_counted(p),
{
    lemma_no_counts(bounds.len());
    let first = no_counts(bounds.len());
    lemma_placed(first, bounds, 0, p.zero_count);
    let second = if p.zero_count > 0 {
        placed(first, bounds, 0, p.zero_count)
    } else {
        first
    };
    lemma_opt_side_placed(second, bounds, p.scale, p.positive, false, high);
    let third = opt_side_placed(second, bounds, p.scale, p.positive, false, high);
    lemma_opt_side_placed(third, bounds, p.scale, p.negative, true, low);
}

proof fn lemma_total_bounds(counts: Seq<nat>, i: int)
    requires
        0 <= i < counts.len(),
    ensures
        counts[i] <= total(counts),
    decreases counts.len(),
{
    if i < counts.len() - 1 {
        lemma_total_bounds(counts.drop_last(), i);
    }
}

/// Whether the exponent of a bucket, and the one that follows it, fit into a word of 32 bits, unless
/// the bucket counts nothing.
pub open spec fn exponent_fits(b: BucketsView, i: int) -> bool {
    b.bucket_counts[i] != 0 ==> b.offset + i < i32::MAX
}

/// Whether the exponents of buckets fit.
pub open spec fn exponents_all_fit(b: BucketsView) -> bool {
    forall|i: int| 0 <= i < b.bucket_counts.len() ==> #[trigger] exponent_fits(b, i)
}

/// Whether the exponents of the buckets of one sign fit.
pub open spec fn side_exponents_fit(b: Option<BucketsView>) -> bool {
    match b {
        Some(b) => exponents_all_fit(b),
        None => true,
    }
}

impl OtelMetricView {
    /// Whether the metric can be converted to explicit bounds: the middles of its buckets can be
    /// computed, and no count overflows.
    pub open spec fn is_convertible(&self) -> bool {
        self.metric.data matches Some(DataView::ExponentialHistogram(e)) ==> (e.data_points.len() > 0
            ==> {
            let p = e.data_points[0];
            &&& all_counted(p) <= u64::MAX
            &&& side_exponents_fit(p.positive)
            &&& side_exponents_fit(p.negative)
        })
    }
}

/// The views of counts as numbers.
pub open spec fn as_nats(counts: Seq<u64>) -> Seq<nat> {
    Seq::new(counts.len(), |i: int| counts[i] as nat)
}

/// Whether these are the counts of the buckets with the given bounds for a histogram whose bounds grow
/// exponentially, where `midpoint` gives the middle of a bucket.
pub open spec fn are_converted<F: Fn(i32, i32) -> u64>(
    p: ExponentialHistogramDataPointView,
    bounds: Seq<u64>,
    midpoint: F,
    counts: Seq<u64>,
) -> bool {
    &&& exists|low: spec_fn(i32, i32) -> u64, high: spec_fn(i32, i32) -> u64|
        as_nats(counts) == #[trigger] converted_counts(p, bounds, low, high) && is_centred(
            midpoint,
            p,
            low,
            high,
        )
    &&& forall|mid: spec_fn(i32, i32) -> u64| #[trigger]
        centres(midpoint, mid) ==> as_nats(counts) == converted_counts(p, bounds, mid, mid)
}

/// Whether this is the histogram with explicit bounds that a histogram whose bounds grow exponentially
/// becomes, where `midpoint` gives the middle of a bucket. It counts as many values in its buckets.
pub open spec fn is_converted<F: Fn(i32, i32) -> u64>(
    p: ExponentialHistogramDataPointView,
    bounds: Seq<u64>,
    midpoint: F,
    r: HistogramDataPointView,
) -> bool {
    &&& r.attributes.len() == 0
    &&& r.start_time_unix_nano == p.start_time_unix_nano
    &&& r.time_unix_nano == p.time_unix_nano
    &&& r.count == p.count
    &&& r.sum == p.sum
    &&& r.explicit_bounds == bounds
    &&& r.bucket_counts.len() == bounds.len() + 1
    &&& total(as_nats(r.bucket_counts)) == all_counted(p)
    &&& are_converted(p, bounds, midpoint, r.bucket_counts)
    &&& r.exemplars == p.exemplars
    &&& r.flags == p.flags
    &&& r.min == p.min
    &&& r.max == p.max
}

fn find_place(bounds: &Vec<u64>, value: u64) -> (r: usize)
    ensures
        r == place(bounds@, value),
        r <= bounds@.len(),
{
    let mut i: usize = 0;
    assert(bounds@.skip(0) =~= bounds@);
    while i < bounds.len()
        invariant
            i <= bounds@.len(),
            place(bounds@, value) == i + place(bounds@.skip(i as int), value),
        decreases bounds@.len() - i,
    {
        let ghost rest = bounds@.skip(i as int);
        assert(rest[0] == bounds@[i as int]);
        if !is_less(bounds[i], value) {
            return i;
        }
        assert(rest.drop_first() =~= bounds@.skip(i + 1));
        i = i + 1;
    }
    i
}

fn place_value(counts: &mut Vec<u64>, bounds: &Vec<u64>, value: u64, n: u64)
    requires
        old(counts)@.len() == bounds@.len() + 1,
        total(as_nats(old(counts)@)) + n <= u64::MAX,
    ensures
        as_nats(final(counts)@) == placed(as_nats(old(counts)@), bounds@, value, n),
        final(counts)@.len() == old(counts)@.len(),
{
    let ghost before = as_nats(counts@);
    let i = find_place(bounds, value);
    proof {
        lemma_total_bounds(before, i as int);
    }
    let sum: u64 = counts[i] + n;
    counts[i] = sum;
    assert(as_nats(counts@) =~= placed(before, bounds@, value, n));
}

fn place_side<F: Fn(i32, i32) -> u64>(
    counts: &mut Vec<u64>,
    bounds: &Vec<u64>,
    scale: i32,
    b: &Buckets,
    negative: bool,
    midpoint: &F,
)
    requires
        old(counts)@.len() == bounds@.len() + 1,
        total(as_nats(old(counts)@)) + counts_total(b@.bucket_counts) <= u64::MAX,
        exponents_all_fit(b@),
        forall|s: i32, e: i32| call_requires(*midpoint, (s, e)),
    ensures
        final(counts)@.len() == old(counts)@.len(),
        total(as_nats(final(counts)@)) == total(as_nats(old(counts)@)) + counts_total(
            b@.bucket_counts,
        ),
        exists|mid: spec_fn(i32, i32) -> u64|
            as_nats(final(counts)@) == #[trigger] side_placed(
                as_nats(old(counts)@),
                bounds@,
                scale,
                b@,
                b@.bucket_counts.len(),
                negative,
                mid,
            ) && side_centred(*midpoint, scale, b@, mid),
{
    let ghost mut given = Seq::<u64>::empty();
    let ghost before = as_nats(counts@);
    let ghost all = b@.bucket_counts;
    assert(all.take(0) =~= Seq::empty());
    let mut i: usize = 0;
    while i < b.bucket_counts.len()
        invariant
            i <= b.bucket_counts@.len(),
            all == b@.bucket_counts,
            before == as_nats(old(counts)@),
            counts@.len() == bounds@.len() + 1,
            counts@.len() == old(counts)@.len(),
            total(before) + counts_total(all) <= u64::MAX,
            total(as_nats(counts@)) == total(before) + counts_total(all.take(i as int)),
            exponents_all_fit(b@),
            forall|s: i32, e: i32| call_requires(*midpoint, (s, e)),
            given.len() == i,
            forall|j: int|
                0 <= j < i && #[trigger] all[j] != 0 ==> call_ensures(
                    *midpoint,
                    (scale, (b.offset + j) as i32),
                    given[j],
                ),
            as_nats(counts@) == side_placed(
                before,
                bounds@,
                scale,
                b@,
                i as nat,
                negative,
                given_middles(b.offset, given),
            ),
        decreases b.bucket_counts@.len() - i,
    {
        assert(all.take(i + 1).drop_last() =~= all.take(i as int));
        proof {
            lemma_counts_total_grows(all, i + 1);
        }
        let n: u64 = b.bucket_counts[i];
        let ghost was_given = given;
        let ghost mut next: u64 = 0;
        if n != 0 {
            assert(exponent_fits(b@, i as int));
            let idx: i32 = (b.offset as i64 + i as i64) as i32;
            let centre = midpoint(scale, idx);
            proof {
                next = centre;
            }
            let value = if negative {
                negate(centre)
            } else {
                centre
            };
            let ghost was = as_nats(counts@);
            place_value(counts, bounds, value, n);
            proof {
                lemma_placed(was, bounds@, value, n);
            }
        }
        proof {
            given = given.push(next);
            let mid = given_middles(b.offset, given);
            let other = given_middles(b.offset, was_given);
            assert forall|j: int| 0 <= j < i && #[trigger] b@.bucket_counts[j] != 0 implies mid(
                scale,
                (b@.offset + j) as i32,
            ) == other(scale, (b@.offset + j) as i32) by {
                assert(exponent_fits(b@, j));
            }
            lemma_side_agrees(before, bounds@, scale, b@, i as nat, negative, mid, other);
            assert forall|j: int| 0 <= j < i + 1 && #[trigger] all[j] != 0 implies call_ensures(
                *midpoint,
                (scale, (b.offset + j) as i32),
                given[j],
            ) by {
                if j < i {
                    assert(given[j] == was_given[j]);
                }
            }
        }
        i = i + 1;
    }
    assert(all.take(i as int) =~= all);
    proof {
        let mid = given_middles(b.offset, given);
        assert forall|j: int| 0 <= j < b@.bucket_counts.len() && #[trigger] b@.bucket_counts[j]
            != 0 implies call_ensures(
            *midpoint,
            (scale, (b@.offset + j) as i32),
            mid(scale, (b@.offset + j) as i32),
        ) by {
            assert(exponent_fits(b@, j));
            assert(all[j] != 0);
        }
        assert(side_centred(*midpoint, scale, b@, mid));
    }
}

proof fn lemma_counts_total_grows(counts: Seq<u64>, n: int)
    requires
        0 <= n <= counts.len(),
    ensures
        counts_total(counts.take(n)) <= counts_total(counts),
    decreases counts.len(),
{
    if n == counts.len() {
        assert(counts.take(n) =~= counts);
    } else {
        lemma_counts_total_grows(counts.drop_last(), n);
        assert(counts.drop_last().take(n) =~= counts.take(n));
    }
}

/// The counts of the buckets with the given bounds for a histogram whose bounds grow exponentially.
fn convert_counts<F: Fn(i32, i32) -> u64>(
    p: &ExponentialHistogramDataPoint,
    bounds: &Vec<u64>,
    midpoint: &F,
) -> (r: Vec<u64>)
    requires
        bounds@.len() < usize::MAX,
        all_counted(p@) <= u64::MAX,
        side_exponents_fit(p@.positive),
        side_exponents_fit(p@.negative),
        forall|s: i32, e: i32| call_requires(*midpoint, (s, e)),
    ensures
        r@.len() == bounds@.len() + 1,
        total(as_nats(r@)) == all_counted(p@),
        are_converted(p@, bounds@, *midpoint, r@),
{
    let ghost mut low = |s: i32, e: i32| 0u64;
    let ghost mut high = |s: i32, e: i32| 0u64;
    let mut counts: Vec<u64> = Vec::new();
    let mut i: usize = 0;
    while i <= bounds.len()
        invariant
            bounds@.len() < usize::MAX,
            i <= bounds@.len() + 1,
            counts@.len() == i,
            forall|j: int| 0 <= j < i ==> #[trigger] counts@[j] == 0,
        decreases bounds@.len() + 1 - i,
    {
        counts.push(0);
        i = i + 1;
    }
    assert(as_nats(counts@) =~= no_counts(bounds@.len()));
    proof {
        lemma_no_counts(bounds@.len());
    }
    if p.zero_count > 0 {
        let ghost was = as_nats(counts@);
        place_value(&mut counts, bounds, 0, p.zero_count);
        proof {
            lemma_placed(was, bounds@, 0, p.zero_count);
        }
    }
    let ghost second = as_nats(counts@);
    if let Some(b) = &p.positive {
        place_side(&mut counts, bounds, p.scale, b, false, midpoint);
        proof {
            let n = b@.bucket_counts.len();
            high = choose|mid: spec_fn(i32, i32) -> u64|
                as_nats(counts@) == #[trigger] side_placed(
                    second,
                    bounds@,
                    p.scale,
                    b@,
                    n,
                    false,
                    mid,
                ) && side_centred(*midpoint, p.scale, b@, mid);
        }
    }
    let ghost third = as_nats(counts@);
    if let Some(b) = &p.negative {
        place_side(&mut counts, bounds, p.scale, b, true, midpoint);
        proof {
            let n = b@.bucket_counts.len();
            low = choose|mid: spec_fn(i32, i32) -> u64|
                as_nats(counts@) == #[trigger] side_placed(
                    third,
                    bounds@,
                    p.scale,
                    b@,
                    n,
                    true,
                    mid,
                ) && side_centred(*midpoint, p.scale, b@, mid);
        }
    }
    proof {
        assert(as_nats(counts@) == converted_counts(p@, bounds@, low, high));
        assert(is_centred(*midpoint, p@, low, high));
        assert forall|mid: spec_fn(i32, i32) -> u64| #[trigger] centres(
            *midpoint,
            mid,
        ) implies as_nats(counts@) == converted_counts(p@, bounds@, mid, mid) by {
            lemma_centres_agree(*midpoint, p@, bounds@, low, high, mid);
        }
        law_conversion_keeps_counts(p@, bounds@, low, high);
    }
    counts
}

impl OtelMetric {
    /// If this metric is an ExponentialHistogram, convert it in-place to an
    /// explicit-bounds Histogram using the given target bucket boundaries.
    /// Returns true if conversion happened, false if the metric was not an
    /// ExponentialHistogram. `midpoint` gives, for a scale and an exponent, the middle of the bucket
    /// that lies between the bounds for the exponent and for the next one.
    pub fn convert_exponential_to_histogram<F: Fn(i32, i32) -> u64>(
        &mut self,
        target_bounds: &Vec<u64>,
        midpoint: F,
    ) -> (r: bool)
        requires
            target_bounds@.len() < usize::MAX,
            old(self)@.is_convertible(),
            forall|s: i32, e: i32| call_requires(midpoint, (s, e)),
        ensures
            r == (old(self)@.metric.data matches Some(DataView::ExponentialHistogram(_))),
            !r ==> final(self)@ == old(self)@,
            old(self)@.metric.data matches Some(DataView::ExponentialHistogram(e)) ==> {
                &&& final(self)@ == old(self)@.with_opt_data(final(self)@.metric.data)
                &&& final(self)@.metric.data matches Some(DataView::Histogram(h))
                &&& h.aggregation_temporality == e.aggregation_temporality
                &&& e.data_points.len() == 0 ==> h.data_points.len() == 0
                &&& e.data_points.len() > 0 ==> h.data_points.len() == 1 && is_converted(
                    e.data_points[0],
                    target_bounds@,
                    midpoint,
                    h.data_points[0],
                )
            },
    {
        let converted = match &self.metric.data {
            Some(Data::ExponentialHistogram(e)) => {
                let mut points: Vec<HistogramDataPoint> = Vec::new();
                if e.data_points.len() > 0 {
                    let dp = &e.data_points[0];
                    let exemplars = dp.exemplars.clone();
                    assert(views(exemplars@) =~= views(dp.exemplars@));
                    let point = HistogramDataPoint {
                        start_time_unix_nano: dp.start_time_unix_nano,
                        time_unix_nano: dp.time_unix_nano,
                        count: dp.count,
                        sum: dp.sum,
                        bucket_counts: convert_counts(dp, target_bounds, &midpoint),
                        explicit_bounds: copy_words(target_bounds),
                        exemplars,
                        flags: dp.flags,
                        min: dp.min,
                        max: dp.max,
                        ..HistogramDataPoint::default()
                    };
                    points.push(point);
                }
                Histogram { data_points: points, aggregation_temporality: e.aggregation_temporality }
            },
            _ => {
                return false;
            },
        };
        self.metric.data = Some(Data::Histogram(converted));
        true
    }
}

} // verus!
