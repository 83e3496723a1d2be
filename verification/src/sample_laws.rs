//! What holds of samples that are sorted into buckets, of quantiles, and of metrics in words.
use vstd::prelude::*;

use crate::double::{less, nan, same};
use crate::metric_kind::{
    bucket_for, clamped, counted, first_chars, total_rate, without_points, MetricKind, Sample,
};
use crate::metric_text::{identity_words, last_value, metric_words, single_values, tag_words, tags_words};
use crate::otel_metric::{seen_text, Seen};
use crate::text::{decimal, quoted};

verus! {

/// A value is sorted into the first bucket whose limit it does not exceed, and into none where it exceeds
/// all of them.
pub proof fn law_bucket_of_value(limits: Seq<u64>, value: u64)
    ensures
        match bucket_for(limits, value) {
            Some(i) => {
                &&& 0 <= i < limits.len()
                &&& less(value, limits[i]) || same(limits[i], value)
                &&& forall|j: int|
                    0 <= j < i ==> !less(value, #[trigger] limits[j]) && !same(limits[j], value)
            },
            None => forall|j: int|
                0 <= j < limits.len() ==> !less(value, #[trigger] limits[j]) && !same(
                    limits[j],
                    value,
                ),
        },
    decreases limits.len(),
{
    if limits.len() > 0 {
        let before = limits.drop_last();
        law_bucket_of_value(before, value);
        let n = limits.len() - 1;
        assert forall|j: int| 0 <= j < n implies before[j] == #[trigger] limits[j] by {}
    }
}

/// What a bucket counts is not changed by a sample that belongs into another one, and grows by the rate of
/// a sample that belongs into it. No sample is counted in two buckets.
pub proof fn law_samples_are_counted(samples: Seq<Sample>, limits: Seq<u64>, sample: Sample, i: int, j: int)
    ensures
        counted(Seq::empty(), limits, i) == 0,
        counted(samples.push(sample), limits, i) == counted(samples, limits, i) + if bucket_for(
            limits,
            sample.value,
        ) == Some(i) {
            sample.rate as nat
        } else {
            0
        },
        total_rate(samples.push(sample)) == total_rate(samples) + sample.rate,
        i != j ==> counted(samples, limits, i) + counted(samples, limits, j) <= total_rate(samples),
    decreases samples.len(),
{
    assert(samples.push(sample).drop_last() =~= samples);
    if samples.len() > 0 {
        law_samples_are_counted(samples.drop_last(), limits, sample, i, j);
    }
}

/// A quantile that is clamped lies between zero and one, and one that does so before stays as it is; a NaN
/// stays one.
pub proof fn law_quantile_is_clamped(bits: u64)
    ensures
        nan(bits) ==> clamped(bits) == bits,
        !nan(bits) ==> !less(clamped(bits), 0) && !less(0x3ff0_0000_0000_0000, clamped(bits)),
        !less(bits, 0) && !less(0x3ff0_0000_0000_0000, bits) ==> clamped(bits) == bits,
        less(bits, 0) ==> clamped(bits) == 0,
        less(0x3ff0_0000_0000_0000, bits) ==> clamped(bits) == 0x3ff0_0000_0000_0000,
{
}

/// The first characters of a text are that many of it, or all where there are no more. A text without its
/// points has none, and is as it was where it had none.
pub proof fn law_quantile_in_words(s: Seq<char>, n: int)
    requires
        n >= 0,
    ensures
        s.len() <= n ==> first_chars(s, n) == s,
        s.len() > n ==> first_chars(s, n).len() == n,
        forall|i: int|
            0 <= i < first_chars(s, n).len() ==> #[trigger] first_chars(s, n)[i] == s[i],
        !without_points(s).contains('.'),
        !s.contains('.') ==> without_points(s) == s,
    decreases s.len(),
{
    if s.len() > 0 {
        let before = s.drop_last();
        law_quantile_in_words(before, 0);
        let kept = without_points(before);
        if without_points(s).contains('.') {
            let i = choose|i: int| 0 <= i < without_points(s).len() && without_points(s)[i] == '.';
            if i < kept.len() {
                assert(kept[i] == '.');
            }
        }
        if !s.contains('.') {
            assert(s[s.len() - 1] != '.');
            if before.contains('.') {
                let i = choose|i: int| 0 <= i < before.len() && before[i] == '.';
                assert(s[i] == '.');
            }
            assert(without_points(s) =~= s);
        }
    } else {
        assert(without_points(s) =~= s);
    }
}

/// Tags in words: a tag without a value is its name, one with a value is both with an equals sign between
/// them, and between two tags stands a comma.
pub proof fn law_tags_in_words(
    name: Seq<char>,
    value: Seq<char>,
    tags: Seq<(Seq<char>, Option<Seq<char>>)>,
    tag: (Seq<char>, Option<Seq<char>>),
)
    ensures
        tag_words((name, None)) == name,
        tag_words((name, Some(value))) == name + "="@ + value,
        tags_words(Seq::empty()) == Seq::<char>::empty(),
        tags.len() == 0 ==> tags_words(tags.push(tag)) == tag_words(tag),
        tags.len() > 0 ==> tags_words(tags.push(tag)) == tags_words(tags) + ","@ + tag_words(tag),
{
    let all = tags.push(tag);
    assert(all.drop_last() =~= tags);
    assert(all.last() == tag);
}

/// A metric in words begins with its time and a space where it has one. Then comes what tells it apart:
/// its namespace and an underscore where it has one, its name, and its tags in braces. Then come the sign
/// of its kind, an equals sign or a plus, between spaces, and its value.
pub proof fn law_metric_in_words(
    time: Seq<char>,
    namespace: Seq<char>,
    name: Seq<char>,
    tags: Seq<(Seq<char>, Option<Seq<char>>)>,
    value: Seq<char>,
)
    ensures
        identity_words(None, name, tags) == name + "{"@ + tags_words(tags) + "}"@,
        identity_words(Some(namespace), name, tags) == namespace + "_"@ + identity_words(
            None,
            name,
            tags,
        ),
        metric_words(None, identity_words(None, name, tags), MetricKind::Absolute, value)
            == identity_words(None, name, tags) + " = "@ + value,
        metric_words(None, identity_words(None, name, tags), MetricKind::Incremental, value)
            == identity_words(None, name, tags) + " + "@ + value,
        metric_words(Some(time), identity_words(None, name, tags), MetricKind::Absolute, value) == time
            + " "@ + metric_words(
            None,
            identity_words(None, name, tags),
            MetricKind::Absolute,
            value,
        ),
{
    let full = namespace + "_"@ + name;
    assert(full + "{"@ + tags_words(tags) + "}"@ =~= namespace + "_"@ + identity_words(
        None,
        name,
        tags,
    ));
    let identity = identity_words(None, name, tags);
    assert(time + " "@ + identity + " = "@ + value =~= time + " "@ + (identity + " = "@ + value));
}

/// Of the values of a tag the last text counts; a tag without one does not stand among those that are
/// shown, and each other one stands there with its last text in quotes, in order.
pub proof fn law_single_values(
    tags: Seq<(Seq<char>, Seq<Option<Seq<char>>>)>,
    tag: (Seq<char>, Seq<Option<Seq<char>>>),
    text: Seq<char>,
)
    ensures
        last_value(tag.1.push(Some(text))) == Some(text),
        last_value(tag.1.push(None)) == last_value(tag.1),
        last_value(Seq::empty()) is None,
        last_value(tag.1) matches Some(s) ==> single_values(tags.push(tag)) == single_values(tags).push(
            (tag.0, Some(quoted(s))),
        ),
        last_value(tag.1) is None ==> single_values(tags.push(tag)) == single_values(tags),
{
    assert(tag.1.push(Some(text)).drop_last() =~= tag.1);
    assert(tag.1.push(None).drop_last() =~= tag.1);
    assert(tags.push(tag).drop_last() =~= tags);
}

/// The data of a metric in words name their type, and after it the number, how many values, buckets or
/// quantiles there are, the count and the sum.
pub proof fn law_data_in_words(value: u64, values: Seq<Seq<char>>, text: spec_fn(u64) -> Seq<char>)
    ensures
        seen_text(Seen::Sum { value }, text) == "counter: "@ + text(value),
        seen_text(Seen::Gauge { value }, text) == "gauge: "@ + text(value),
        seen_text(Seen::SetOf { values }, text) == "set: "@ + decimal(values.len()) + " values"@,
{
}

} // verus!
