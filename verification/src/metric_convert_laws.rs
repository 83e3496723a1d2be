//! What holds of histograms that are converted to explicit bounds: where each count goes.
use vstd::prelude::*;

use crate::double::less;
use crate::metric_convert::{
    converted_counts, lemma_place_bounded, no_counts, opt_side_placed, place, placed, side_placed,
};
use crate::metric_read::negated;
use crate::otlp_metric::{BucketsView, ExponentialHistogramDataPointView};

verus! {

/// Whether a value belongs into the bucket with an index: it is above all bounds before that of the
/// bucket, and not above that of the bucket itself. The last bucket has none.
pub open spec fn belongs(bounds: Seq<u64>, j: int, value: u64) -> bool {
    &&& 0 <= j <= bounds.len()
    &&& forall|i: int| 0 <= i < j ==> less(#[trigger] bounds[i], value)
    &&& j < bounds.len() ==> !less(bounds[j], value)
}

/// A value is placed into the bucket that it belongs into, and it belongs into one only.
pub proof fn law_value_is_placed(bounds: Seq<u64>, j: int, value: u64)
    ensures
        belongs(bounds, place(bounds, value), value),
        belongs(bounds, j, value) <==> j == place(bounds, value),
    decreases bounds.len(),
{
    let k = place(bounds, value);
    lemma_place_bounded(bounds, value);
    if bounds.len() > 0 && less(bounds[0], value) {
        let rest = bounds.drop_first();
        law_value_is_placed(rest, j - 1, value);
        assert(k == 1 + place(rest, value));
        assert forall|i: int| 0 <= i < k implies less(#[trigger] bounds[i], value) by {
            if i > 0 {
                assert(rest[i - 1] == bounds[i]);
            }
        }
        if k < bounds.len() {
            assert(rest[k - 1] == bounds[k]);
        }
    }
    assert(belongs(bounds, k, value));
    if belongs(bounds, j, value) && j != k {
        if j < k {
            assert(less(bounds[j], value));
        } else {
            assert(less(bounds[k], value));
        }
    }
}

/// How many of the values that the first buckets of one sign count lie, by the middles of those buckets,
/// in the bucket with an index.
pub open spec fn landed(
    bounds: Seq<u64>,
    j: int,
    scale: i32,
    b: BucketsView,
    n: nat,
    negative: bool,
    mid: spec_fn(i32, i32) -> u64,
) -> nat
    decreases n,
{
    if n == 0 {
        0
    } else {
        let centre = mid(scale, (b.offset + n - 1) as i32);
        let before = landed(bounds, j, scale, b, (n - 1) as nat, negative, mid);
        if belongs(
            bounds,
            j,
            if negative {
                negated(centre)
            } else {
                centre
            },
        ) {
            before + b.bucket_counts[n - 1] as nat
        } else {
            before
        }
    }
}

/// How many of the values that all buckets of one sign count lie in the bucket with an index.
pub open spec fn side_landed(
    bounds: Seq<u64>,
    j: int,
    scale: i32,
    b: Option<BucketsView>,
    negative: bool,
    mid: spec_fn(i32, i32) -> u64,
) -> nat {
    match b {
        Some(b) => landed(bounds, j, scale, b, b.bucket_counts.len(), negative, mid),
        None => 0,
    }
}

proof fn lemma_landed(
    counts: Seq<nat>,
    bounds: Seq<u64>,
    j: int,
    scale: i32,
    b: BucketsView,
    n: nat,
    negative: bool,
    mid: spec_fn(i32, i32) -> u64,
)
    requires
        counts.len() == bounds.len() + 1,
        0 <= j <= bounds.len(),
    ensures
        side_placed(counts, bounds, scale, b, n, negative, mid).len() == counts.len(),
        side_placed(counts, bounds, scale, b, n, negative, mid)[j] == counts[j] + landed(
            bounds,
            j,
            scale,
            b,
            n,
            negative,
            mid,
        ),
    decreases n,
{
    if n > 0 {
        lemma_landed(counts, bounds, j, scale, b, (n - 1) as nat, negative, mid);
        let centre = mid(scale, (b.offset + n - 1) as i32);
        let value = if negative {
            negated(centre)
        } else {
            centre
        };
        law_value_is_placed(bounds, j, value);
        lemma_place_bounded(bounds, value);
    }
}

/// After a conversion to explicit bounds, each bucket counts exactly what belongs into it: the zeros, if
/// zero does, and all values of those buckets whose middle does, the middles of the negative ones with the
/// other sign.
pub proof fn law_counts_are_converted(
    p: ExponentialHistogramDataPointView,
    bounds: Seq<u64>,
    low: spec_fn(i32, i32) -> u64,
    high: spec_fn(i32, i32) -> u64,
    j: int,
)
    requires
        0 <= j <= bounds.len(),
    ensures
        converted_counts(p, bounds, low, high).len() == bounds.len() + 1,
        converted_counts(p, bounds, low, high)[j] == (if belongs(bounds, j, 0) {
            p.zero_count as nat
        } else {
            0
        }) + side_landed(bounds, j, p.scale, p.positive, false, high) + side_landed(
            bounds,
            j,
            p.scale,
            p.negative,
            true,
            low,
        ),
{
    law_value_is_placed(bounds, j, 0);
    lemma_place_bounded(bounds, 0);
    let first = no_counts(bounds.len());
    let second = if p.zero_count > 0 {
        placed(first, bounds, 0, p.zero_count)
    } else {
        first
    };
    assert(second.len() == bounds.len() + 1);
    if let Some(b) = p.positive {
        lemma_landed(second, bounds, j, p.scale, b, b.bucket_counts.len(), false, high);
    }
    let third = opt_side_placed(second, bounds, p.scale, p.positive, false, high);
    if let Some(b) = p.negative {
        lemma_landed(third, bounds, j, p.scale, b, b.bucket_counts.len(), true, low);
    }
}

} // verus!
