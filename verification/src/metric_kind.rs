//! The parts that metric values are made of. Doubles are held as the bits of their IEEE 754
//! representation.
use vstd::prelude::*;
use vstd::string::{StrSliceExecFns, StringExecFns};
use vstd::utf8::{decode_utf8, valid_utf8};

use crate::double::{is_less, is_same, less, same};
use crate::keyed::opt_view;
use crate::text::{str_eq, utf8_text};
use crate::value::{Value, ValueView};

verus! {

/// Metric kind.
///
/// Metrics can be either absolute or incremental. Absolute metrics represent a sort of "last write
/// wins" scenario, where the latest absolute value seen is meant to be the actual metric value.  In
/// contrast, incremental metrics are meant to be additive, such that we don't know what total value
/// of the metric is, but we know that we'll be adding or subtracting the given value from it.
#[derive(Clone, Copy, Debug, Eq, Hash, PartialEq, PartialOrd, Structural)]
pub enum MetricKind {
    /// Incremental metric.
    Incremental,
    /// Absolute metric.
    Absolute,
}

/// The aggregation temporality of a metric that holds what came since the last one.
pub const DELTA: i32 = 1;

/// The aggregation temporality of a metric that holds what came since the start.
pub const CUMULATIVE: i32 = 2;

/// What the samples of a distribution are to be read as.
#[derive(Clone, Copy, Debug, Eq, PartialEq, Structural)]
pub enum StatisticKind {
    Histogram,
    Summary,
}

/// Why a value is no metric kind.
#[derive(Debug)]
pub enum MetricKindError {
    /// It is no byte string.
    NotBytes,
    /// It is a byte string that is no text.
    NotText,
    /// It is another text.
    Invalid { kind: String },
}

impl MetricKindError {
    /// The words in which it is reported that a text names no metric kind.
    pub open spec fn words(&self) -> Option<Seq<char>> {
        match self {
            MetricKindError::Invalid { kind } => Some(
                "invalid metric kind "@ + kind@
                    + ", metric kind must be `absolute` or `incremental`"@,
            ),
            _ => None,
        }
    }

    /// The words in which it is reported that a text names no metric kind.
    pub fn message(&self) -> (r: Option<String>)
        ensures
            opt_view(r) == self.words(),
    {
        match self {
            MetricKindError::Invalid { kind } => {
                let mut s = "invalid metric kind ".to_owned();
                s.append(kind.as_str());
                s.append(", metric kind must be `absolute` or `incremental`");
                Some(s)
            },
            _ => None,
        }
    }
}

impl MetricKind {
    /// The word for the kind.
    pub open spec fn word(&self) -> Seq<char> {
        match self {
            MetricKind::Incremental => "incremental"@,
            MetricKind::Absolute => "absolute"@,
        }
    }

    /// The word for the kind.
    pub fn as_str(&self) -> (r: &'static str)
        ensures
            r@ == self.word(),
    {
        match self {
            MetricKind::Incremental => "incremental",
            MetricKind::Absolute => "absolute",
        }
    }

    /// The aggregation temporality that the kind stands for.
    pub open spec fn as_temporality(&self) -> i32 {
        match self {
            MetricKind::Incremental => DELTA,
            MetricKind::Absolute => CUMULATIVE,
        }
    }

    /// The aggregation temporality that the kind stands for.
    pub fn temporality(&self) -> (r: i32)
        ensures
            r == self.as_temporality(),
    {
        match self {
            MetricKind::Incremental => DELTA,
            MetricKind::Absolute => CUMULATIVE,
        }
    }

    /// The kind that a value names.
    pub fn try_from_value(value: &Value) -> (r: Result<MetricKind, MetricKindError>)
        ensures
            match value@ {
                ValueView::Bytes(b) => match r {
                    Ok(kind) => valid_utf8(b) && kind.word() == decode_utf8(b),
                    Err(MetricKindError::Invalid { kind }) => valid_utf8(b) && kind@
                        == decode_utf8(b) && kind@ != MetricKind::Incremental.word() && kind@
                        != MetricKind::Absolute.word(),
                    Err(MetricKindError::NotText) => !valid_utf8(b),
                    Err(MetricKindError::NotBytes) => false,
                },
                _ => r matches Err(MetricKindError::NotBytes),
            },
    {
        match value {
            Value::Bytes(b) => match utf8_text(b.as_slice()) {
                Some(s) => if str_eq(s.as_str(), "incremental") {
                    Ok(MetricKind::Incremental)
                } else if str_eq(s.as_str(), "absolute") {
                    Ok(MetricKind::Absolute)
                } else {
                    Err(MetricKindError::Invalid { kind: s })
                },
                None => Err(MetricKindError::NotText),
            },
            _ => Err(MetricKindError::NotBytes),
        }
    }

    /// The word for the kind, as a value.
    pub fn to_value(&self) -> (r: Value)
        ensures
            r@ == ValueView::text(self.word()),
    {
        Value::from_text(self.as_str())
    }
}

impl StatisticKind {
    /// The word for the kind.
    pub open spec fn word(&self) -> Seq<char> {
        match self {
            StatisticKind::Histogram => "histogram"@,
            StatisticKind::Summary => "summary"@,
        }
    }

    /// The word for the kind.
    pub fn as_str(&self) -> (r: &'static str)
        ensures
            r@ == self.word(),
    {
        match self {
            StatisticKind::Histogram => "histogram",
            StatisticKind::Summary => "summary",
        }
    }
}

/// A value that was measured, and how often.
#[derive(Clone, Copy, Debug, PartialEq, Eq)]
pub struct Sample {
    pub value: u64,
    pub rate: u32,
}

/// How many values were at most a limit, and above the one of the bucket before.
#[derive(Clone, Copy, Debug, PartialEq, Eq)]
pub struct Bucket {
    pub upper_limit: u64,
    pub count: u64,
}

/// The value at a quantile.
#[derive(Clone, Copy, Debug, PartialEq, Eq)]
pub struct Quantile {
    pub quantile: u64,
    pub value: u64,
}

/// The double, moved to 0 where it is less and to 1 where it is greater.
pub open spec fn clamped(bits: u64) -> u64 {
    if less(bits, 0) {
        0
    } else if less(0x3ff0_0000_0000_0000, bits) {
        0x3ff0_0000_0000_0000
    } else {
        bits
    }
}

/// The first characters of a text.
pub open spec fn first_chars(s: Seq<char>, n: int) -> Seq<char> {
    if s.len() <= n {
        s
    } else {
        s.take(n)
    }
}

/// The text without the points in it.
pub open spec fn without_points(s: Seq<char>) -> Seq<char>
    decreases s.len(),
{
    if s.len() == 0 {
        Seq::empty()
    } else if s.last() == '.' {
        without_points(s.drop_last())
    } else {
        without_points(s.drop_last()).push(s.last())
    }
}

fn take_chars(s: &str, n: usize) -> (r: String)
    ensures
        r@ == first_chars(s@, n as int),
{
    if s.unicode_len() <= n {
        s.to_owned()
    } else {
        assert(s@.subrange(0, n as int) =~= s@.take(n as int));
        s.substring_char(0, n).to_owned()
    }
}

fn drop_points(s: &str) -> (r: String)
    ensures
        r@ == without_points(s@),
{
    let mut r = String::new();
    let len = s.unicode_len();
    let mut i: usize = 0;
    assert(s@.take(0) =~= Seq::empty());
    while i < len
        invariant
            i <= len,
            len == s@.len(),
            r@ == without_points(s@.take(i as int)),
        decreases len - i,
    {
        assert(s@.take(i + 1).drop_last() =~= s@.take(i as int));
        if s.get_char(i) != '.' {
            assert(s@.subrange(i as int, i + 1) =~= seq![s@[i as int]]);
            let ghost before = r@;
            r.append(s.substring_char(i, i + 1));
            assert(r@ =~= before.push(s@[i as int]));
        }
        i = i + 1;
    }
    assert(s@.take(i as int) =~= s@);
    r
}

impl Quantile {
    /// The quantile as a percentage without a point, such as "25" or "999". `shown` shows a double
    /// times one hundred.
    pub fn to_percentile_string<F: Fn(u64) -> String>(&self, shown: F) -> (r: String)
        requires
            forall|b: u64| call_requires(shown, (b,)),
        ensures
            exists|s: String|
                #[trigger] call_ensures(shown, (clamped(self.quantile),), s) && r@
                    == without_points(first_chars(s@, 5)),
    {
        let s = shown(clamp(self.quantile));
        let first = take_chars(s.as_str(), 5);
        drop_points(first.as_str())
    }

    /// The quantile as a decimal number, such as "0.25" or "0.999". `shown` shows a double.
    pub fn to_quantile_string<F: Fn(u64) -> String>(&self, shown: F) -> (r: String)
        requires
            forall|b: u64| call_requires(shown, (b,)),
        ensures
            exists|s: String|
                #[trigger] call_ensures(shown, (clamped(self.quantile),), s) && r@ == first_chars(
                    s@,
                    6,
                ),
    {
        let s = shown(clamp(self.quantile));
        take_chars(s.as_str(), 6)
    }
}

fn clamp(bits: u64) -> (r: u64)
    ensures
        r == clamped(bits),
{
    if is_less(bits, 0) {
        0
    } else if is_less(0x3ff0_0000_0000_0000, bits) {
        0x3ff0_0000_0000_0000
    } else {
        bits
    }
}

/// Pairs values with rates, as far as there are both.
pub fn zip_samples(values: &Vec<u64>, rates: &Vec<u32>) -> (r: Vec<Sample>)
    ensures
        r@.len() == if values@.len() < rates@.len() {
            values@.len()
        } else {
            rates@.len()
        },
        forall|i: int|
            0 <= i < r@.len() ==> #[trigger] r@[i] == (Sample { value: values@[i], rate: rates@[i] }),
{
    let mut r: Vec<Sample> = Vec::new();
    let mut i: usize = 0;
    while i < values.len() && i < rates.len()
        invariant
            i <= values@.len(),
            i <= rates@.len(),
            r@.len() == i,
            forall|j: int|
                0 <= j < i ==> #[trigger] r@[j] == (Sample { value: values@[j], rate: rates@[j] }),
        decreases values@.len() - i,
    {
        r.push(Sample { value: values[i], rate: rates[i] });
        i = i + 1;
    }
    r
}

/// Pairs limits with counts, as far as there are both.
pub fn zip_buckets(limits: &Vec<u64>, counts: &Vec<u64>) -> (r: Vec<Bucket>)
    ensures
        r@.len() == if limits@.len() < counts@.len() {
            limits@.len()
        } else {
            counts@.len()
        },
        forall|i: int|
            0 <= i < r@.len() ==> #[trigger] r@[i] == (Bucket {
                upper_limit: limits@[i],
                count: counts@[i],
            }),
{
    let mut r: Vec<Bucket> = Vec::new();
    let mut i: usize = 0;
    while i < limits.len() && i < counts.len()
        invariant
            i <= limits@.len(),
            i <= counts@.len(),
            r@.len() == i,
            forall|j: int|
                0 <= j < i ==> #[trigger] r@[j] == (Bucket {
                    upper_limit: limits@[j],
                    count: counts@[j],
                }),
        decreases limits@.len() - i,
    {
        r.push(Bucket { upper_limit: limits[i], count: counts[i] });
        i = i + 1;
    }
    r
}

/// Pairs quantiles with values, as far as there are both.
pub fn zip_quantiles(quantiles: &Vec<u64>, values: &Vec<u64>) -> (r: Vec<Quantile>)
    ensures
        r@.len() == if quantiles@.len() < values@.len() {
            quantiles@.len()
        } else {
            values@.len()
        },
        forall|i: int|
            0 <= i < r@.len() ==> #[trigger] r@[i] == (Quantile {
                quantile: quantiles@[i],
                value: values@[i],
            }),
{
    let mut r: Vec<Quantile> = Vec::new();
    let mut i: usize = 0;
    while i < quantiles.len() && i < values.len()
        invariant
            i <= quantiles@.len(),
            i <= values@.len(),
            r@.len() == i,
            forall|j: int|
                0 <= j < i ==> #[trigger] r@[j] == (Quantile {
                    quantile: quantiles@[j],
                    value: values@[j],
                }),
        decreases quantiles@.len() - i,
    {
        r.push(Quantile { quantile: quantiles[i], value: values[i] });
        i = i + 1;
    }
    r
}

/// How often values were measured, all together.
pub open spec fn total_rate(samples: Seq<Sample>) -> nat
    decreases samples.len(),
{
    if samples.len() == 0 {
        0
    } else {
        total_rate(samples.drop_last()) + samples.last().rate as nat
    }
}

/// How often values were measured, all together, where that fits into a word of 32 bits.
pub fn sum_rates(samples: &Vec<Sample>) -> (r: u64)
    requires
        total_rate(samples@) <= u32::MAX,
    ensures
        r == total_rate(samples@),
{
    let mut sum: u64 = 0;
    let mut i: usize = 0;
    assert(samples@.take(0) =~= Seq::empty());
    while i < samples.len()
        invariant
            i <= samples@.len(),
            sum == total_rate(samples@.take(i as int)),
            total_rate(samples@) <= u32::MAX,
        decreases samples@.len() - i,
    {
        assert(samples@.take(i + 1).drop_last() =~= samples@.take(i as int));
        proof {
            lemma_total_rate_grows(samples@, i + 1);
        }
        sum = sum + samples[i].rate as u64;
        i = i + 1;
    }
    assert(samples@.take(i as int) =~= samples@);
    sum
}

pub proof fn lemma_total_rate_grows(samples: Seq<Sample>, n: int)
    requires
        0 <= n <= samples.len(),
    ensures
        total_rate(samples.take(n)) <= total_rate(samples),
    decreases samples.len(),
{
    if n == samples.len() {
        assert(samples.take(n) =~= samples);
    } else {
        lemma_total_rate_grows(samples.drop_last(), n);
        assert(samples.drop_last().take(n) =~= samples.take(n));
    }
}

/// The first bucket whose limit is not less than a value.
pub open spec fn bucket_for(limits: Seq<u64>, value: u64) -> Option<int>
    decreases limits.len(),
{
    if limits.len() == 0 {
        None
    } else {
        match bucket_for(limits.drop_last(), value) {
            Some(i) => Some(i),
            None => if less(value, limits.last()) || same(limits.last(), value) {
                Some(limits.len() - 1)
            } else {
                None
            },
        }
    }
}

/// How often values were measured that belong into a bucket.
pub open spec fn counted(samples: Seq<Sample>, limits: Seq<u64>, bucket: int) -> nat
    decreases samples.len(),
{
    if samples.len() == 0 {
        0
    } else {
        let before = counted(samples.drop_last(), limits, bucket);
        if bucket_for(limits, samples.last().value) == Some(bucket) {
            before + samples.last().rate as nat
        } else {
            before
        }
    }
}

fn find_bucket(limits: &Vec<u64>, value: u64) -> (r: Option<usize>)
    ensures
        match r {
            Some(i) => bucket_for(limits@, value) == Some(i as int) && i < limits@.len(),
            None => bucket_for(limits@, value) is None,
        },
{
    let mut i: usize = 0;
    assert(limits@.take(0) =~= Seq::empty());
    while i < limits.len()
        invariant
            i <= limits@.len(),
            bucket_for(limits@.take(i as int), value) is None,
        decreases limits@.len() - i,
    {
        assert(limits@.take(i + 1).drop_last() =~= limits@.take(i as int));
        if is_less(value, limits[i]) || is_same(limits[i], value) {
            proof {
                lemma_bucket_stays(limits@, value, i + 1);
            }
            return Some(i);
        }
        i = i + 1;
    }
    assert(limits@.take(i as int) =~= limits@);
    None
}

proof fn lemma_bucket_stays(limits: Seq<u64>, value: u64, n: int)
    requires
        0 <= n <= limits.len(),
        bucket_for(limits.take(n), value) is Some,
    ensures
        bucket_for(limits, value) == bucket_for(limits.take(n), value),
    decreases limits.len(),
{
    if n == limits.len() {
        assert(limits.take(n) =~= limits);
    } else {
        assert(limits.drop_last().take(n) =~= limits.take(n));
        lemma_bucket_stays(limits.drop_last(), value, n);
    }
}

proof fn lemma_counted_bounded(samples: Seq<Sample>, limits: Seq<u64>, bucket: int)
    ensures
        counted(samples, limits, bucket) <= total_rate(samples),
    decreases samples.len(),
{
    if samples.len() > 0 {
        lemma_counted_bounded(samples.drop_last(), limits, bucket);
    }
}

/// Sorts samples into buckets with the given limits, and gives the buckets, how often values were
/// measured, and the sum of the values. `sum` sums up the values, each as often as it was measured.
pub fn samples_to_buckets<F: Fn(&Vec<Sample>) -> u64>(
    samples: &Vec<Sample>,
    buckets: &Vec<u64>,
    sum: F,
) -> (r: (Vec<Bucket>, u64, u64))
    requires
        total_rate(samples@) <= u64::MAX,
        call_requires(sum, (samples,)),
    ensures
        r.0@.len() == buckets@.len(),
        forall|i: int|
            0 <= i < r.0@.len() ==> (#[trigger] r.0@[i]).upper_limit == buckets@[i] && r.0@[i].count
                == counted(samples@, buckets@, i),
        r.1 == total_rate(samples@),
        call_ensures(sum, (samples,), r.2),
{
    let mut out: Vec<Bucket> = Vec::new();
    let mut i: usize = 0;
    while i < buckets.len()
        invariant
            i <= buckets@.len(),
            out@.len() == i,
            forall|j: int|
                0 <= j < i ==> #[trigger] out@[j] == (Bucket { upper_limit: buckets@[j], count: 0 }),
        decreases buckets@.len() - i,
    {
        out.push(Bucket { upper_limit: buckets[i], count: 0 });
        i = i + 1;
    }
    let mut count: u64 = 0;
    let mut k: usize = 0;
    assert(samples@.take(0) =~= Seq::empty());
    while k < samples.len()
        invariant
            k <= samples@.len(),
            out@.len() == buckets@.len(),
            total_rate(samples@) <= u64::MAX,
            count == total_rate(samples@.take(k as int)),
            forall|j: int|
                0 <= j < out@.len() ==> (#[trigger] out@[j]).upper_limit == buckets@[j]
                    && out@[j].count == counted(samples@.take(k as int), buckets@, j),
        decreases samples@.len() - k,
    {
        let ghost next = samples@.take(k + 1);
        assert(next.drop_last() =~= samples@.take(k as int));
        proof {
            lemma_total_rate_grows(samples@, k + 1);
            assert forall|j: int| counted(next, buckets@, j) <= total_rate(next) by {
                lemma_counted_bounded(next, buckets@, j);
            }
        }
        let rate: u64 = samples[k].rate as u64;
        if let Some(b) = find_bucket(buckets, samples[k].value) {
            assert(counted(next, buckets@, b as int) <= total_rate(next));
            let old: Bucket = out[b];
            out[b] = Bucket { upper_limit: old.upper_limit, count: old.count + rate };
        }
        count = count + rate;
        k = k + 1;
    }
    assert(samples@.take(k as int) =~= samples@);
    (out, count, sum(samples))
}

} // verus!
