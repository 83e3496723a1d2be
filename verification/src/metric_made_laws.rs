//! What is read of a metric after it was made or changed.
use vstd::prelude::*;

use crate::any_value::AnyView;
use crate::attributes::attrs_from_kvs;
use crate::double::{double_of_nat, less, same};
use crate::keyed::{ordered, value_of, with_entry, without_entry};
use crate::map_laws::{law_read_after_remove, law_read_after_write};
use crate::metadata::MetadataView;
use crate::metric::{first_value, points_with, points_without, OtelMetricView};
use crate::metric_data::MetricValueView;
use crate::metric_extra::{bucket_index, exponential_event, flattened, single_point};
use crate::metric_kind::{Bucket, MetricKind, Quantile, Sample, StatisticKind};
use crate::metric_new::{
    any_from_texts, counter_data, counts_of, double_point, histogram_data, limits_of, named,
    plain_histogram, quantile_values, summary_data,
};
use crate::metric_ops::{last_text, singles, with_first_double};
use crate::metric_read_laws::{buckets_in, law_set_is_read, side_len, times_held};
use crate::metric_tags::any_from_tag_values;
use crate::otel_metric::{plain, MetricEventView, Seen};
use crate::otlp_metric::{
    DataView, ExponentialHistogramDataPointView, HistogramDataPointView, NumberDataPointView,
    NumberValue, SummaryDataPointView,
};
use crate::value_laws::{lemma_prefix_ordered, lemma_with_last};

verus! {

/// A counter that was made with a kind and a value has that kind and that value; it has no time, no
/// interval, no namespace and no tags.
pub proof fn law_counter_is_made(
    name: Seq<char>,
    kind: MetricKind,
    value: u64,
    metadata: MetadataView,
    pow: spec_fn(i32, i32) -> u64,
    text: spec_fn(u64) -> Seq<char>,
)
    ensures
        ({
            let m = OtelMetricView::of_metric(
                named(name, counter_data(kind.as_temporality(), double_point(value))),
                metadata,
            );
            &&& m.metric.name == name
            &&& m.kind() == kind
            &&& m.value(pow) == (MetricValueView::Counter { value })
            &&& m.timestamp() is None
            &&& m.interval_ms() is None
            &&& m.namespace() is None
            &&& m.dp_attrs.len() == 1 && m.dp_attrs[0].len() == 0
            &&& plain(m).kind() == kind
            &&& plain(m).seen() == (Seen::Sum { value })
        }),
{
    assert(attrs_from_kvs(Seq::empty()) =~= Seq::empty());
}

/// A gauge that was made with a value has that value, and is absolute; one that is marked as incremental
/// is incremental.
pub proof fn law_gauge_is_made(
    name: Seq<char>,
    value: u64,
    metadata: MetadataView,
    pow: spec_fn(i32, i32) -> u64,
)
    ensures
        ({
            let m = OtelMetricView::of_gauge(name, value, metadata);
            &&& m.metric.name == name
            &&& m.kind() is Absolute
            &&& m.value(pow) == (MetricValueView::Gauge { value })
            &&& plain(m).seen() == (Seen::Gauge { value })
            &&& m.timestamp() is None
        }),
        ({
            let m = OtelMetricView::of_gauge(name, value, metadata).with_point_attribute(
                "vector.metric_kind"@,
                AnyView::Str("incremental"@),
            );
            &&& m.kind() is Incremental
            &&& m.value(pow) == (MetricValueView::Gauge { value })
        }),
{
    reveal_strlit("vector.metric_kind");
    reveal_strlit("vector.metric_type");
    assert(attrs_from_kvs(Seq::empty()) =~= Seq::empty());
    let m = OtelMetricView::of_gauge(name, value, metadata);
    assert(m.dp_attrs[0] =~= Seq::empty());
    law_read_after_write(m.dp_attrs[0], "vector.metric_kind"@, AnyView::Str("incremental"@));
    assert("vector.metric_kind"@[7] == 'm' && "vector.metric_kind"@[14] == 'k');
    assert("vector.metric_type"@[14] == 't');
}

/// A histogram that was made with buckets, a count and a sum is read with just these.
pub proof fn law_histogram_is_made(
    name: Seq<char>,
    kind: MetricKind,
    buckets: Seq<Bucket>,
    count: u64,
    sum: u64,
    metadata: MetadataView,
    pow: spec_fn(i32, i32) -> u64,
)
    ensures
        ({
            let m = OtelMetricView::of_metric(
                named(
                    name,
                    histogram_data(
                        kind.as_temporality(),
                        plain_histogram(count, sum, counts_of(buckets), limits_of(buckets)),
                    ),
                ),
                metadata,
            );
            &&& m.metric.name == name
            &&& m.kind() == kind
            &&& m.value(pow) == (MetricValueView::AggregatedHistogram { buckets, count, sum })
        }),
{
    assert(attrs_from_kvs(Seq::empty()) =~= Seq::empty());
    let m = OtelMetricView::of_metric(
        named(
            name,
            histogram_data(
                kind.as_temporality(),
                plain_histogram(count, sum, counts_of(buckets), limits_of(buckets)),
            ),
        ),
        metadata,
    );
    assert(m.dp_attrs[0] =~= Seq::empty());
    assert(buckets_in(m.value(pow)) =~= buckets);
}

/// A summary that was made with quantiles, a count and a sum is read with just these.
pub proof fn law_summary_is_made(
    name: Seq<char>,
    quantiles: Seq<Quantile>,
    count: u64,
    sum: u64,
    metadata: MetadataView,
    pow: spec_fn(i32, i32) -> u64,
)
    ensures
        ({
            let m = OtelMetricView::of_metric(
                named(
                    name,
                    summary_data(
                        (SummaryDataPointView {
                            count,
                            sum,
                            quantile_values: quantile_values(quantiles),
                            ..SummaryDataPointView::default_view()
                        }),
                    ),
                ),
                metadata,
            );
            &&& m.metric.name == name
            &&& m.kind() is Absolute
            &&& m.value(pow) == (MetricValueView::AggregatedSummary { quantiles, count, sum })
        }),
{
    let m = OtelMetricView::of_metric(
        named(
            name,
            summary_data(
                SummaryDataPointView {
                    count,
                    sum,
                    quantile_values: quantile_values(quantiles),
                    ..SummaryDataPointView::default_view()
                },
            ),
        ),
        metadata,
    );
    assert(m.value(pow)->AggregatedSummary_quantiles =~= quantiles);
}

/// A distribution that was made of samples and a statistic is read with just these.
pub proof fn law_distribution_is_made(
    name: Seq<char>,
    kind: MetricKind,
    samples: Seq<Sample>,
    statistic: StatisticKind,
    total: u64,
    metadata: MetadataView,
    pow: spec_fn(i32, i32) -> u64,
)
    ensures
        ({
            let m = OtelMetricView::of_distribution(
                name,
                kind,
                samples,
                statistic,
                total,
                metadata,
            );
            &&& m.metric.name == name
            &&& m.kind() == kind
            &&& m.value(pow) == (MetricValueView::Distribution { samples, statistic })
        }),
{
    reveal_strlit("vector.metric_type");
    reveal_strlit("vector.statistic");
    reveal_strlit("summary");
    reveal_strlit("histogram");
    assert("vector.metric_type"@.len() == 18 && "vector.statistic"@.len() == 16);
    assert("summary"@.len() == 7 && "histogram"@.len() == 9);
    assert(attrs_from_kvs(Seq::empty()) =~= Seq::empty());
    let plain = OtelMetricView::of_samples(name, kind, samples, total, metadata);
    let none = plain.dp_attrs[0];
    assert(none =~= Seq::empty());
    law_read_after_write(none, "vector.metric_type"@, AnyView::Str("distribution"@));
    law_read_after_write(
        with_entry(none, "vector.metric_type"@, AnyView::Str("distribution"@)),
        "vector.statistic"@,
        AnyView::Str(statistic.word()),
    );
    let m = OtelMetricView::of_distribution(name, kind, samples, statistic, total, metadata);
    assert(m.value(pow)->samples =~= samples);
}

/// A histogram with exponential bounds that counts one value counts it once: as a zero, as a positive or
/// as a negative number, as it is. Its sum, its least and its greatest value are that value.
pub proof fn law_single_value_is_counted(value: u64, steps: spec_fn(u64) -> int)
    ensures
        ({
            let p = single_point(value, steps);
            &&& p.count == 1
            &&& p.sum == Some(value)
            &&& p.zero_count == if same(value, 0) {
                1u64
            } else {
                0
            }
            &&& p.zero_count + side_len(p.positive) + side_len(p.negative) == 1
            &&& side_len(p.positive) == 1 <==> less(0, value)
            &&& p.positive matches Some(b) ==> (b.bucket_counts.len() == 1 ==> b.bucket_counts[0] == 1)
            &&& p.negative matches Some(b) ==> (b.bucket_counts.len() == 1 ==> b.bucket_counts[0] == 1)
        }),
{
}

/// A power of two is counted in the bucket whose upper limit it is: at the scale that has 2 to the power
/// of 20 buckets for each power of two, the one before as many buckets as the power says, that often.
pub proof fn law_power_of_two_is_counted(k: int, steps: spec_fn(u64) -> int)
    requires
        -1022 <= k <= 1023,
    ensures
        bucket_index(((k + 1023) * 0x10_0000_0000_0000) as u64, steps) == k * 0x10_0000 - 1,
{
    let bits = ((k + 1023) * 0x10_0000_0000_0000) as u64;
    assert(bits / 0x10_0000_0000_0000 == k + 1023);
    assert(bits % 0x10_0000_0000_0000 == 0);
}

/// A metric whose time is set has it in every data point, and nothing else of it changes.
pub proof fn law_time_is_everywhere(d: DataView, nanos: u64, i: int)
    requires
        i >= 0,
    ensures
        match (d, d.at(nanos)) {
            (DataView::Sum(x), DataView::Sum(y)) => {
                &&& y.data_points.len() == x.data_points.len()
                &&& i < x.data_points.len() ==> y.data_points[i] == (NumberDataPointView {
                    time_unix_nano: nanos,
                    ..x.data_points[i]
                })
                &&& y.aggregation_temporality == x.aggregation_temporality
                &&& y.is_monotonic == x.is_monotonic
            },
            (DataView::Gauge(x), DataView::Gauge(y)) => {
                &&& y.data_points.len() == x.data_points.len()
                &&& i < x.data_points.len() ==> y.data_points[i] == (NumberDataPointView {
                    time_unix_nano: nanos,
                    ..x.data_points[i]
                })
            },
            (DataView::Histogram(x), DataView::Histogram(y)) => {
                &&& y.data_points.len() == x.data_points.len()
                &&& i < x.data_points.len() ==> y.data_points[i] == (HistogramDataPointView {
                    time_unix_nano: nanos,
                    ..x.data_points[i]
                })
                &&& y.aggregation_temporality == x.aggregation_temporality
            },
            (DataView::ExponentialHistogram(x), DataView::ExponentialHistogram(y)) => {
                &&& y.data_points.len() == x.data_points.len()
                &&& i < x.data_points.len() ==> y.data_points[i] == (
                ExponentialHistogramDataPointView { time_unix_nano: nanos, ..x.data_points[i] })
                &&& y.aggregation_temporality == x.aggregation_temporality
            },
            (DataView::Summary(x), DataView::Summary(y)) => {
                &&& y.data_points.len() == x.data_points.len()
                &&& i < x.data_points.len() ==> y.data_points[i] == (SummaryDataPointView {
                    time_unix_nano: nanos,
                    ..x.data_points[i]
                })
            },
            _ => false,
        },
{
}

/// A metric whose start is set some nanoseconds before its time has that start, or zero where its time is
/// not as late, and the same time; where its time is unknown nothing changes.
pub proof fn law_start_is_set(d: DataView, nanos: u64)
    ensures
        ({
            let (start, end) = times_held(d);
            let (begun, ended) = times_held(d.started(nanos));
            &&& ended == end
            &&& end == 0 ==> d.started(nanos) == d
            &&& end >= nanos && end > 0 ==> begun == end - nanos
            &&& 0 < end < nanos ==> begun == 0
        }),
{
}

/// A number that is set as the first of a metric is its value, and all other data points stay.
pub proof fn law_first_number_is_set(points: Seq<NumberDataPointView>, value: u64, i: int)
    requires
        0 <= i < points.len(),
    ensures
        ({
            let after = with_first_double(points, value);
            &&& after.len() == points.len()
            &&& after[0].value == Some(NumberValue::AsDouble(value))
            &&& after[0] == (NumberDataPointView { value: after[0].value, ..points[0] })
            &&& i > 0 ==> after[i] == points[i]
        }),
{
}

/// An attribute that is set on the data points of a metric is read of each of them, and the others stay;
/// one that is removed is read of none.
pub proof fn law_point_attribute_is_set(
    attrs: Seq<Seq<(Seq<char>, AnyView)>>,
    key: Seq<char>,
    v: AnyView,
    other: Seq<char>,
    i: int,
)
    requires
        0 <= i < attrs.len(),
        ordered(attrs[i]),
        other != key,
    ensures
        points_with(attrs, key, v).len() == attrs.len(),
        value_of(points_with(attrs, key, v)[i], key) == Some(v),
        value_of(points_with(attrs, key, v)[i], other) == value_of(attrs[i], other),
        points_without(attrs, key).len() == attrs.len(),
        value_of(points_without(attrs, key)[i], key) is None,
        value_of(points_without(attrs, key)[i], other) == value_of(attrs[i], other),
        ordered(points_with(attrs, key, v)[i]),
        ordered(points_without(attrs, key)[i]),
{
    law_read_after_write(attrs[i], key, v);
    law_read_after_remove(attrs[i], key);
}

/// An attribute that is set on the resource of a metric is read of it, and the others stay; the
/// namespace is one of them. Nothing else changes, but that there is a resource.
pub proof fn law_resource_attribute_is_set(
    m: OtelMetricView,
    key: Seq<char>,
    v: AnyView,
    other: Seq<char>,
)
    requires
        ordered(m.resource_attrs),
        other != key,
    ensures
        ({
            let after = m.with_resource_attribute(key, v);
            &&& value_of(after.resource_attrs, key) == Some(v)
            &&& value_of(after.resource_attrs, other) == value_of(m.resource_attrs, other)
            &&& key == "metric.namespace"@ ==> (v matches AnyView::Str(ns) ==> after.namespace()
                == Some(ns))
            &&& after.resource is Some
            &&& m.resource is Some ==> after.resource == m.resource
            &&& after.metric == m.metric && after.dp_attrs == m.dp_attrs && after.scope == m.scope
                && after.scope_attrs == m.scope_attrs && after.metadata == m.metadata
        }),
{
    law_read_after_write(m.resource_attrs, key, v);
}

/// Attributes of the resource that are flattened are read of each data point: those whose keys are given
/// and that the resource has. All other attributes of the data points stay, and so does all else.
pub proof fn law_resource_is_flattened(
    m: OtelMetricView,
    keys: Seq<Seq<char>>,
    key: Seq<char>,
    i: int,
)
    requires
        0 <= i < m.dp_attrs.len(),
        ordered(m.dp_attrs[i]),
    ensures
        ({
            let after = flattened(m, keys);
            &&& after == (OtelMetricView { dp_attrs: after.dp_attrs, ..m })
            &&& after.dp_attrs.len() == m.dp_attrs.len()
            &&& ordered(after.dp_attrs[i])
            &&& value_of(after.dp_attrs[i], key) == if keys.contains(key) && value_of(
                m.resource_attrs,
                key,
            ) is Some {
                value_of(m.resource_attrs, key)
            } else {
                value_of(m.dp_attrs[i], key)
            }
        }),
    decreases keys.len(),
{
    if keys.len() > 0 {
        let before = keys.drop_last();
        law_resource_is_flattened(m, before, key, i);
        let last = keys.last();
        if let Some(v) = value_of(m.resource_attrs, last) {
            law_read_after_write(flattened(m, before).dp_attrs[i], last, v);
        }
        if before.contains(key) {
            let j = choose|j: int| 0 <= j < before.len() && before[j] == key;
            assert(keys[j] == key);
        }
        if key == last {
            assert(keys[keys.len() - 1] == key);
        }
        if keys.contains(key) && key != last {
            let j = choose|j: int| 0 <= j < keys.len() && keys[j] == key;
            assert(before[j] == key);
        }
    }
}

proof fn lemma_key_apart<V>(s: Seq<(Seq<char>, V)>, key: Seq<char>)
    requires
        ordered(s),
        s.len() > 0,
    ensures
        ordered(s.drop_last()),
        value_of(s, key) == if key == s.last().0 {
            Some(s.last().1)
        } else {
            value_of(s.drop_last(), key)
        },
{
    let before = s.drop_last();
    lemma_prefix_ordered(s);
    assert(s =~= before.push((s.last().0, s.last().1)));
    lemma_with_last(before, s.last().0, s.last().1);
    law_read_after_write(before, s.last().0, s.last().1);
}

/// Tags that are set on a metric are read of each data point: each under its name, a single value as it
/// is and several ones as a list. Attributes of other names stay, and so does all else.
pub proof fn law_tags_are_set(
    m: OtelMetricView,
    tags: Seq<(Seq<char>, Seq<Option<Seq<char>>>)>,
    key: Seq<char>,
    i: int,
)
    requires
        ordered(tags),
        0 <= i < m.dp_attrs.len(),
        ordered(m.dp_attrs[i]),
    ensures
        ({
            let after = m.with_tags(tags);
            &&& after == (OtelMetricView { dp_attrs: after.dp_attrs, ..m })
            &&& after.dp_attrs.len() == m.dp_attrs.len()
            &&& ordered(after.dp_attrs[i])
            &&& match value_of(tags, key) {
                Some(values) => {
                    &&& values == seq![None::<Seq<char>>] ==> value_of(after.dp_attrs[i], key) == Some(
                        AnyView::Empty,
                    )
                    &&& values.len() == 1 && values[0] is Some ==> value_of(after.dp_attrs[i], key)
                        == Some(AnyView::Str(values[0]->0))
                    &&& values.len() != 1 ==> (value_of(after.dp_attrs[i], key) matches Some(
                        AnyView::Array(items),
                    ) && items.len() == values.len() && forall|j: int|
                        0 <= j < items.len() ==> #[trigger] items[j] == match values[j] {
                            Some(t) => AnyView::Str(t),
                            None => AnyView::Empty,
                        })
                },
                None => value_of(after.dp_attrs[i], key) == value_of(m.dp_attrs[i], key),
            }
        }),
    decreases tags.len(),
{
    if tags.len() > 0 {
        let before = tags.drop_last();
        lemma_key_apart(tags, key);
        law_tags_are_set(m, before, key, i);
        let (name, values) = tags.last();
        let was = m.with_tags(before).dp_attrs[i];
        law_read_after_remove(was, name);
        law_read_after_write(without_entry(was, name), name, any_from_tag_values(values));
    }
}

/// Attributes that are reduced to single values keep their names; a list with a text in it becomes its
/// last text, and all else stays.
pub proof fn law_tags_are_single(attrs: Seq<(Seq<char>, AnyView)>, i: int)
    requires
        0 <= i < attrs.len(),
    ensures
        singles(attrs).len() == attrs.len(),
        singles(attrs)[i].0 == attrs[i].0,
        !(attrs[i].1 is Array) ==> singles(attrs)[i].1 == attrs[i].1,
        attrs[i].1 matches AnyView::Array(items) ==> {
            &&& singles(attrs)[i].1 matches AnyView::Str(s) ==> exists|k: int|
                0 <= k < items.len() && #[trigger] items[k] == AnyView::Str(s) && forall|l: int|
                    k < l < items.len() ==> !((#[trigger] items[l]) is Str)
            &&& (forall|k: int| 0 <= k < items.len() ==> !((#[trigger] items[k]) is Str))
                <==> singles(attrs)[i].1 == attrs[i].1
        },
{
    if let AnyView::Array(items) = attrs[i].1 {
        lemma_last_text(items);
        if let Some(s) = last_text(items) {
            let k = choose|k: int|
                0 <= k < items.len() && #[trigger] items[k] == AnyView::Str(s) && forall|l: int|
                    k < l < items.len() ==> !((#[trigger] items[l]) is Str);
            assert(items[k] is Str);
        }
    }
}

proof fn lemma_last_text(items: Seq<AnyView>)
    ensures
        match last_text(items) {
            Some(s) => exists|k: int|
                0 <= k < items.len() && #[trigger] items[k] == AnyView::Str(s) && forall|l: int|
                    k < l < items.len() ==> !((#[trigger] items[l]) is Str),
            None => forall|k: int| 0 <= k < items.len() ==> !((#[trigger] items[k]) is Str),
        },
    decreases items.len(),
{
    if items.len() > 0 {
        let before = items.drop_last();
        lemma_last_text(before);
        let n = items.len() - 1;
        if items.last() is Str {
            assert(items[n] == AnyView::Str(last_text(items)->0));
        } else {
            match last_text(before) {
                Some(s) => {
                    let k = choose|k: int|
                        0 <= k < before.len() && #[trigger] before[k] == AnyView::Str(s) && forall|l: int|
                            k < l < before.len() ==> !((#[trigger] before[l]) is Str);
                    assert(items[k] == AnyView::Str(s));
                    assert forall|l: int| k < l < items.len() implies !((#[trigger] items[l]) is Str) by {
                        if l < n {
                            assert(before[l] == items[l]);
                        }
                    }
                },
                None => {
                    assert forall|k: int| 0 <= k < items.len() implies !((#[trigger] items[k]) is Str) by {
                        if k < n {
                            assert(before[k] == items[k]);
                        }
                    }
                },
            }
        }
    }
}

/// What a metric is, told apart by the type of its data, is what its first data point holds.
pub proof fn law_metric_is_told(m: MetricEventView)
    ensures
        m.event.metric.data matches Some(DataView::Sum(s)) ==> (s.data_points.len() > 0 ==> (
        s.data_points[0].value matches Some(NumberValue::AsDouble(d)) ==> m.seen() == if s.is_monotonic {
            Seen::Sum { value: d }
        } else {
            Seen::Gauge { value: d }
        })),
        m.event.metric.data matches Some(DataView::Gauge(g)) ==> (m.set_values matches Some(keys) ==> (
        m.seen() matches Seen::SetOf { values } && values.len() == keys.len() && forall|i: int|
            0 <= i < values.len() ==> #[trigger] values[i] == keys[i].0)),
        m.event.metric.data matches Some(DataView::Gauge(g)) ==> (m.set_values is None ==> (
        g.data_points.len() > 0 ==> (g.data_points[0].value matches Some(NumberValue::AsDouble(d))
            ==> m.seen() == (Seen::Gauge { value: d })))),
        m.event.metric.data matches Some(DataView::Histogram(h)) ==> (h.data_points.len() > 0 ==> {
            let p = h.data_points[0];
            m.seen() matches Seen::Histogram { bounds, counts, count, sum } && bounds
                == p.explicit_bounds && counts == p.bucket_counts && count == p.count && (
            p.sum matches Some(s) ==> sum == s) && (p.sum is None ==> sum == 0)
        }),
        m.event.metric.data matches Some(DataView::Summary(s)) ==> (s.data_points.len() > 0 ==> {
            let p = s.data_points[0];
            m.seen() matches Seen::Summary { quantiles, count, sum } && quantiles == p.quantile_values
                && count == p.count && sum == p.sum
        }),
        m.event.metric.data matches Some(DataView::ExponentialHistogram(e)) ==> (e.data_points.len()
            > 0 ==> {
            let p = e.data_points[0];
            m.seen() matches Seen::ExponentialHistogram {
                scale,
                count,
                sum,
                zero_count,
                positive,
                negative,
                min,
                max,
            } && scale == p.scale && count == p.count && zero_count == p.zero_count && positive
                == p.positive && negative == p.negative && min == p.min && max == p.max && (
            p.sum matches Some(s) ==> sum == s) && (p.sum is None ==> sum == 0)
        }),
        m.kind() is Incremental <==> match m.event.metric.data {
            Some(DataView::Sum(s)) => s.aggregation_temporality == 1,
            Some(DataView::Histogram(h)) => h.aggregation_temporality == 1,
            Some(DataView::ExponentialHistogram(e)) => e.aggregation_temporality == 1,
            Some(_) => m.kind_override == Some(MetricKind::Incremental),
            None => false,
        },
{
}

/// An incremental metric has the aggregation temporality one, an absolute one has two.
pub proof fn law_temporality(kind: MetricKind)
    ensures
        kind is Incremental ==> kind.as_temporality() == 1,
        kind is Absolute ==> kind.as_temporality() == 2,
{
}

/// A histogram with exponential bounds that was made of a data point holds that data point, without a
/// time, and is incremental.
pub proof fn law_exponential_is_made(
    name: Seq<char>,
    point: ExponentialHistogramDataPointView,
    metadata: MetadataView,
)
    ensures
        ({
            let m = exponential_event(name, point, metadata);
            &&& m.metric.name == name
            &&& m.kind() is Incremental
            &&& m.metric.data matches Some(DataView::ExponentialHistogram(e)) && e.data_points.len()
                == 1 && e.data_points[0] == (ExponentialHistogramDataPointView {
                attributes: Seq::empty(),
                ..point
            })
            &&& m.dp_attrs.len() == 1
            &&& m.dp_attrs[0] == attrs_from_kvs(point.attributes)
        }),
{
}

/// A set that was made of values is read with exactly those values, whatever their order, and with the
/// kind that was given; the number that it holds is how many values were given.
pub proof fn law_set_is_made(
    name: Seq<char>,
    kind: MetricKind,
    texts: Seq<Seq<char>>,
    metadata: MetadataView,
    pow: spec_fn(i32, i32) -> u64,
    text: Seq<char>,
)
    ensures
        ({
            let m = OtelMetricView::of_gauge(
                name,
                double_of_nat(texts.len()) as u64,
                metadata,
            ).with_point_attribute("vector.metric_type"@, AnyView::Str("set"@)).with_point_attribute(
                "vector.metric_kind"@,
                AnyView::Str(kind.word()),
            ).with_point_attribute("vector.set_values"@, any_from_texts(texts));
            &&& m.metric.name == name
            &&& m.kind() == kind
            &&& m.value(pow) matches MetricValueView::SetOf { values } && (values.contains(text)
                <==> texts.contains(text))
        }),
{
    reveal_strlit("vector.metric_type");
    reveal_strlit("vector.metric_kind");
    reveal_strlit("vector.set_values");
    reveal_strlit("incremental");
    reveal_strlit("absolute");
    assert("vector.metric_type"@.len() == 18 && "vector.metric_kind"@.len() == 18
        && "vector.set_values"@.len() == 17);
    assert("vector.metric_type"@[14] == 't' && "vector.metric_kind"@[14] == 'k');
    assert("incremental"@.len() == 11 && "absolute"@.len() == 8);
    assert(attrs_from_kvs(Seq::empty()) =~= Seq::empty());
    let plain = OtelMetricView::of_gauge(name, double_of_nat(texts.len()) as u64, metadata);
    let none = plain.dp_attrs[0];
    assert(none =~= Seq::empty());
    law_read_after_write(none, "vector.metric_type"@, AnyView::Str("set"@));
    let a1 = with_entry(none, "vector.metric_type"@, AnyView::Str("set"@));
    law_read_after_write(a1, "vector.metric_kind"@, AnyView::Str(kind.word()));
    let a2 = with_entry(a1, "vector.metric_kind"@, AnyView::Str(kind.word()));
    law_read_after_write(a2, "vector.set_values"@, any_from_texts(texts));
    let m = plain.with_point_attribute(
        "vector.metric_type"@,
        AnyView::Str("set"@),
    ).with_point_attribute("vector.metric_kind"@, AnyView::Str(kind.word())).with_point_attribute(
        "vector.set_values"@,
        any_from_texts(texts),
    );
    assert(m.dp_attrs[0] == with_entry(a2, "vector.set_values"@, any_from_texts(texts)));
    let listed = any_from_texts(texts)->Array_0;
    law_set_is_read(m, listed, text, pow);
    if texts.contains(text) {
        let i = choose|i: int| 0 <= i < texts.len() && texts[i] == text;
        assert(listed[i] == AnyView::Str(text));
    }
    if listed.contains(AnyView::Str(text)) {
        let i = choose|i: int| 0 <= i < listed.len() && listed[i] == AnyView::Str(text);
        assert(texts[i] == text);
    }
}

/// Attributes that are put on a metric are read of each data point, and the others stay; so does all else.
pub proof fn law_attributes_are_put(
    m: OtelMetricView,
    attrs: Seq<(Seq<char>, AnyView)>,
    key: Seq<char>,
    i: int,
)
    requires
        ordered(attrs),
        0 <= i < m.dp_attrs.len(),
        ordered(m.dp_attrs[i]),
    ensures
        ({
            let after = m.with_attrs(attrs);
            &&& after == (OtelMetricView { dp_attrs: after.dp_attrs, ..m })
            &&& after.dp_attrs.len() == m.dp_attrs.len()
            &&& ordered(after.dp_attrs[i])
            &&& value_of(after.dp_attrs[i], key) == match value_of(attrs, key) {
                Some(v) => Some(v),
                None => value_of(m.dp_attrs[i], key),
            }
        }),
    decreases attrs.len(),
{
    if attrs.len() > 0 {
        let before = attrs.drop_last();
        lemma_key_apart(attrs, key);
        law_attributes_are_put(m, before, key, i);
        let (name, v) = attrs.last();
        let was = m.with_attrs(before).dp_attrs[i];
        law_read_after_remove(was, name);
        law_read_after_write(without_entry(was, name), name, v);
    }
}

/// The value that the removal of an attribute from data points gives is that of the first data point that
/// has it, and none where none has it.
pub proof fn law_first_value_is_given(attrs: Seq<Seq<(Seq<char>, AnyView)>>, key: Seq<char>)
    ensures
        match first_value(attrs, key) {
            Some(v) => exists|i: int|
                0 <= i < attrs.len() && value_of(#[trigger] attrs[i], key) == Some(v) && forall|j: int|
                    0 <= j < i ==> value_of(#[trigger] attrs[j], key) is None,
            None => forall|i: int| 0 <= i < attrs.len() ==> value_of(#[trigger] attrs[i], key) is None,
        },
    decreases attrs.len(),
{
    if attrs.len() > 0 {
        let before = attrs.drop_last();
        law_first_value_is_given(before, key);
        let n = attrs.len() - 1;
        match first_value(before, key) {
            Some(v) => {
                let i = choose|i: int|
                    0 <= i < before.len() && value_of(#[trigger] before[i], key) == Some(v) && forall|
                        j: int,
                    |
                        0 <= j < i ==> value_of(#[trigger] before[j], key) is None;
                assert(value_of(attrs[i], key) == Some(v));
                assert forall|j: int| 0 <= j < i implies value_of(#[trigger] attrs[j], key) is None by {
                    assert(before[j] == attrs[j]);
                }
            },
            None => {
                assert forall|j: int| 0 <= j < n implies value_of(#[trigger] attrs[j], key) is None by {
                    assert(before[j] == attrs[j]);
                }
                if value_of(attrs[n], key) is Some {
                    assert(attrs.last() == attrs[n]);
                }
            },
        }
    }
}

} // verus!
