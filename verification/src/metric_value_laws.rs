//! What holds of metric values: a value that is turned into a metric event is the value of that event.
use vstd::prelude::*;

use crate::any_value::AnyView;
use crate::attributes::{attrs_from_kvs, filled};
use crate::double::same;
use crate::keyed::{lemma_slot_of, ordered, slot_of, value_of, with_entry};
use crate::map_laws::{law_read_after_write, lemma_found_entry};
use crate::metadata::MetadataView;
use crate::metric_data::{MetricDataView, MetricSeriesView, MetricValueView};
use crate::metric_kind::{Bucket, MetricKind, Quantile, Sample};
use crate::metric_new::{
    any_from_texts, counts_of, finite_limits, limits_of, metric_of_parts, nanos_at, rates_of,
    tag_attributes, text_attribute, values_of, INFINITY,
};
use crate::metric_read::{
    buckets_of, instant_from, low_half, millis_between, samples_of, set_values, text_keys, text_set,
};
use crate::metric_ops::{is_metric_parts, listed_tags, point_tags, resource_tags};
use crate::metric_tags::{any_from_tag_values, attrs_shown, values_with, values_without};
use crate::otel_metric::keys_of;
use crate::otlp_metric::{DataView, HistogramDataPointView};
use crate::text::begins_with;
use crate::time::lemma_timestamp_at;
use crate::value_laws::{lemma_gathered, lemma_keys_ordered, lemma_with_last};
use crate::wire_laws::{lemma_sorted_stay, lemma_values_stay, texts_ordered, values_differ};

verus! {

/// Whether a tag has the name of an attribute that stands for what a message has no place for.
pub open spec fn is_own_name(k: Seq<char>) -> bool {
    ||| k == "vector.metric_type"@
    ||| k == "vector.metric_kind"@
    ||| k == "vector.set_values"@
    ||| k == "vector.statistic"@
}

/// Whether the tags of a metric stand in order, and none has the name of such an attribute.
pub open spec fn tags_are_plain(
    tags: Option<Seq<(Seq<char>, Seq<Option<Seq<char>>>)>>,
) -> bool {
    tags matches Some(t) ==> ordered(t) && forall|i: int|
        0 <= i < t.len() ==> !is_own_name((#[trigger] t[i]).0)
}

/// Whether the time of a metric lies after the Unix epoch, in a second of the usual length, and its
/// interval began after the Unix epoch.
pub open spec fn time_is_kept(d: MetricDataView) -> bool {
    match d.timestamp {
        Some(t) => {
            &&& t.spec_nanos() < 1_000_000_000
            &&& nanos_at(d.timestamp) matches Some(n) && n > 0 && (d.interval_ms matches Some(ms)
                ==> 0 < ms && ms * 1_000_000 < n)
        },
        None => d.interval_ms is None,
    }
}

/// Whether a metric value can be told from the metric event that it is turned into: a summary is
/// always absolute, and a set is in order.
pub open spec fn data_is_kept(d: MetricDataView) -> bool {
    &&& time_is_kept(d)
    &&& match d.value {
        MetricValueView::SetOf { values } => texts_ordered(values),
        MetricValueView::AggregatedSummary { .. } => d.kind == MetricKind::Absolute,
        _ => true,
    }
}

proof fn lemma_own_names()
    ensures
        "vector.metric_type"@.len() == 18,
        "vector.metric_type"@[14] == 't',
        "vector.metric_kind"@.len() == 18,
        "vector.metric_kind"@[14] == 'k',
        "vector.set_values"@.len() == 17,
        "vector.statistic"@.len() == 16,
        "set"@.len() == 3,
        "distribution"@.len() == 12,
        "absolute"@.len() == 8,
        "incremental"@.len() == 11,
        "summary"@.len() == 7,
        "histogram"@.len() == 9,
{
    reveal_strlit("vector.metric_type");
    reveal_strlit("vector.metric_kind");
    reveal_strlit("vector.set_values");
    reveal_strlit("vector.statistic");
    reveal_strlit("set");
    reveal_strlit("distribution");
    reveal_strlit("absolute");
    reveal_strlit("incremental");
    reveal_strlit("summary");
    reveal_strlit("histogram");
}

/// The attributes that tags become hold none of the attributes that stand for what a message has no
/// place for.
proof fn lemma_plain_tags(tags: Option<Seq<(Seq<char>, Seq<Option<Seq<char>>>)>>)
    requires
        tags_are_plain(tags),
    ensures
        ordered(attrs_from_kvs(tag_attributes(tags))),
        forall|k: Seq<char>| #[trigger]
            is_own_name(k) ==> value_of(attrs_from_kvs(tag_attributes(tags)), k) is None,
{
    let kvs = tag_attributes(tags);
    if let Some(t) = tags {
        lemma_keys_ordered(t, filled(kvs));
    } else {
        assert(filled(kvs) =~= Seq::empty());
    }
    lemma_gathered(kvs);
    let attrs = filled(kvs);
    assert forall|k: Seq<char>| #[trigger] is_own_name(k) implies value_of(attrs, k) is None by {
        if value_of(attrs, k) is Some {
            lemma_found_entry(attrs, k);
            let i = slot_of(attrs, k);
            assert(!is_own_name(tags->0[i].0));
        }
    }
}

/// An attribute that was not there is added as it is.
proof fn lemma_attribute_added(
    kvs: Seq<(Seq<char>, Option<AnyView>)>,
    key: Seq<char>,
    v: AnyView,
)
    requires
        ordered(attrs_from_kvs(kvs)),
        value_of(attrs_from_kvs(kvs), key) is None,
    ensures
        attrs_from_kvs(kvs.push((key, Some(v)))) == with_entry(attrs_from_kvs(kvs), key, v),
        ordered(attrs_from_kvs(kvs.push((key, Some(v))))),
        value_of(attrs_from_kvs(kvs.push((key, Some(v)))), key) == Some(v),
        forall|k: Seq<char>|
            k != key ==> #[trigger] value_of(attrs_from_kvs(kvs.push((key, Some(v)))), k)
                == value_of(attrs_from_kvs(kvs), k),
{
    let all = kvs.push((key, Some(v)));
    assert(all.drop_last() =~= kvs);
    law_read_after_write(attrs_from_kvs(kvs), key, v);
}

proof fn lemma_text_keys(texts: Seq<Seq<char>>)
    ensures
        text_keys(any_from_texts(texts)->Array_0) == keys_of(texts),
    decreases texts.len(),
{
    if texts.len() > 0 {
        let a = any_from_texts(texts)->Array_0;
        lemma_text_keys(texts.drop_last());
        assert(a.drop_last() =~= any_from_texts(texts.drop_last())->Array_0);
        assert(a.last() == AnyView::Str(texts.last()));
    }
}

proof fn lemma_buckets_back(buckets: Seq<Bucket>, p: HistogramDataPointView)
    requires
        p.bucket_counts == counts_of(buckets),
        p.explicit_bounds == finite_limits(limits_of(buckets)),
    ensures
        buckets_of(p) == buckets,
{
    let limits = limits_of(buckets);
    if limits.len() > 0 && same(limits.last(), INFINITY) {
        assert(limits.last() == INFINITY);
    }
    assert forall|i: int| 0 <= i < buckets.len() implies buckets_of(p)[i] == buckets[i] by {
        assert(limits[i] == buckets[i].upper_limit);
    }
    assert(buckets_of(p) =~= buckets);
}

proof fn lemma_samples_back(samples: Seq<Sample>, p: HistogramDataPointView)
    requires
        p.bucket_counts == rates_of(samples),
        p.explicit_bounds == values_of(samples),
    ensures
        samples_of(p) == samples,
{
    assert forall|i: int| 0 <= i < samples.len() implies samples_of(p)[i] == samples[i] by {
        assert(low_half(samples[i].rate as u64) == samples[i].rate);
    }
    assert(samples_of(p) =~= samples);
}

/// The time and the interval of a metric come back.
proof fn lemma_times_back(d: MetricDataView)
    requires
        time_is_kept(d),
    ensures
        instant_from(d.time_nanos()) == d.timestamp,
        millis_between(d.start_nanos(), d.time_nanos()) == d.interval_ms,
{
    if let Some(t) = d.timestamp {
        lemma_timestamp_at(t);
        let n = nanos_at(d.timestamp)->0 as int;
        let secs = t.spec_secs() as int;
        let nanos = t.spec_nanos() as int;
        assert(n == secs * 1_000_000_000 + nanos);
        assert(n / 1_000_000_000 == secs && n % 1_000_000_000 == nanos) by (nonlinear_arith)
            requires
                n == secs * 1_000_000_000 + nanos,
                0 <= nanos < 1_000_000_000,
        ;
        if let Some(ms) = d.interval_ms {
            assert(d.time_nanos() - d.start_nanos() == ms * 1_000_000);
            assert((ms * 1_000_000) / 1_000_000 == ms as int);
        }
    }
}

/// A metric value that is turned into a metric event is the value of that event, with its kind, its
/// time and its interval, and the event has the name and the namespace of the metric.
pub proof fn law_metric_value_round_trip(
    series: MetricSeriesView,
    data: MetricDataView,
    metadata: MetadataView,
    total: spec_fn(Seq<Sample>) -> u64,
    pow: spec_fn(i32, i32) -> u64,
)
    requires
        tags_are_plain(series.tags),
        data_is_kept(data),
    ensures
        ({
            let m = metric_of_parts(series, data, metadata, total);
            &&& m.data(pow) == data
            &&& m.metric.name == series.name
            &&& m.namespace() == series.namespace
        }),
{
    lemma_own_names();
    lemma_times_back(data);
    let m = metric_of_parts(series, data, metadata, total);
    let kvs = tag_attributes(series.tags);
    lemma_plain_tags(series.tags);
    let attrs = attrs_from_kvs(kvs);
    assert(is_own_name("vector.metric_type"@) && is_own_name("vector.metric_kind"@) && is_own_name(
        "vector.set_values"@,
    ) && is_own_name("vector.statistic"@));
    assert(m.namespace() == series.namespace) by {
        if let Some(ns) = series.namespace {
            let none = Seq::<(Seq<char>, Option<AnyView>)>::empty();
            let one = seq![text_attribute("metric.namespace"@, ns)];
            assert(attrs_from_kvs(none) =~= Seq::empty());
            lemma_attribute_added(none, "metric.namespace"@, AnyView::Str(ns));
            assert(none.push(text_attribute("metric.namespace"@, ns)) =~= one);
        }
    }
    let full = data.message_data(kvs, total);
    assert(m.dp_attrs.len() == 1);
    let d = m.metric.data->0;
    match data.value {
        MetricValueView::Counter { value } => {
            assert(d->Sum_0.data_points.len() == 1);
        },
        MetricValueView::Gauge { value } => {
            let word = AnyView::Str("incremental"@);
            lemma_attribute_added(kvs, "vector.metric_kind"@, word);
            assert(m.dp_attrs[0] == if data.kind == MetricKind::Incremental {
                attrs_from_kvs(kvs.push(("vector.metric_kind"@, Some(word))))
            } else {
                attrs
            });
        },
        MetricValueView::SetOf { values } => {
            let k1 = kvs.push(text_attribute("vector.metric_type"@, "set"@));
            lemma_attribute_added(kvs, "vector.metric_type"@, AnyView::Str("set"@));
            let k2 = k1.push(text_attribute("vector.metric_kind"@, data.kind.word()));
            lemma_attribute_added(k1, "vector.metric_kind"@, AnyView::Str(data.kind.word()));
            let k3 = k2.push(("vector.set_values"@, Some(any_from_texts(values))));
            lemma_attribute_added(k2, "vector.set_values"@, any_from_texts(values));
            assert(m.dp_attrs[0] == attrs_from_kvs(k3));
            assert(value_of(attrs_from_kvs(k3), "vector.metric_type"@) == value_of(
                attrs_from_kvs(k2),
                "vector.metric_type"@,
            ));
            lemma_text_keys(values);
            lemma_sorted_stay(values);
            assert(text_set(any_from_texts(values)->Array_0) =~= values);
        },
        MetricValueView::Distribution { samples, statistic } => {
            let k1 = kvs.push(text_attribute("vector.metric_type"@, "distribution"@));
            lemma_attribute_added(kvs, "vector.metric_type"@, AnyView::Str("distribution"@));
            let k2 = k1.push(text_attribute("vector.statistic"@, statistic.word()));
            lemma_attribute_added(k1, "vector.statistic"@, AnyView::Str(statistic.word()));
            assert(m.dp_attrs[0] == attrs_from_kvs(k2));
            lemma_samples_back(samples, d->Histogram_0.data_points[0]);
        },
        MetricValueView::AggregatedHistogram { buckets, count, sum } => {
            assert(m.dp_attrs[0] == attrs);
            lemma_buckets_back(buckets, d->Histogram_0.data_points[0]);
        },
        MetricValueView::AggregatedSummary { quantiles, count, sum } => {
            let p = d->Summary_0.data_points[0];
            assert(Seq::new(
                p.quantile_values.len(),
                |i: int|
                    Quantile {
                        quantile: p.quantile_values[i].quantile,
                        value: p.quantile_values[i].value,
                    },
            ) =~= quantiles);
            match m.value(pow) {
                MetricValueView::AggregatedSummary { quantiles: q, .. } => {
                    assert(q =~= quantiles);
                },
                _ => {},
            }
        },
    }
}

/// Whether the tags of a metric can be told from the metric event that they are turned into: there
/// are some where there are any, they stand in order, none begins with `vector.`, and none has a
/// value twice.
pub open spec fn tags_are_kept(tags: Option<Seq<(Seq<char>, Seq<Option<Seq<char>>>)>>) -> bool {
    tags matches Some(t) ==> t.len() > 0 && ordered(t) && forall|i: int|
        0 <= i < t.len() ==> !begins_with((#[trigger] t[i]).0, "vector."@) && values_differ(t[i].1)
}

/// Whether an attribute value neither is a double nor has one in its list.
pub open spec fn has_no_double(v: AnyView) -> bool {
    v !is Double && (v matches AnyView::Array(a) ==> forall|i: int|
        0 <= i < a.len() ==> (#[trigger] a[i]) !is Double)
}

/// Whether there are no doubles among attributes.
pub open spec fn have_no_doubles(attrs: Seq<(Seq<char>, AnyView)>) -> bool {
    forall|i: int| 0 <= i < attrs.len() ==> has_no_double((#[trigger] attrs[i]).1)
}

/// An attribute that begins with `vector.` gives no tag, wherever it stands.
proof fn lemma_no_tag(
    tags: Seq<(Seq<char>, Seq<Option<Seq<char>>>)>,
    attrs: Seq<(Seq<char>, AnyView)>,
    p: int,
    e: (Seq<char>, AnyView),
    text: spec_fn(u64) -> Seq<char>,
)
    requires
        0 <= p <= attrs.len(),
        begins_with(e.0, "vector."@),
    ensures
        point_tags(tags, attrs.insert(p, e), text) == point_tags(tags, attrs, text),
    decreases attrs.len(),
{
    let all = attrs.insert(p, e);
    if p == attrs.len() {
        assert(all.drop_last() =~= attrs);
    } else {
        assert(all.drop_last() =~= attrs.drop_last().insert(p, e));
        assert(all.last() == attrs.last());
        lemma_no_tag(tags, attrs.drop_last(), p, e, text);
    }
}

/// An attribute that stands for what a message has no place for adds no tag.
proof fn lemma_own_gives_no_tag(
    kvs: Seq<(Seq<char>, Option<AnyView>)>,
    key: Seq<char>,
    v: AnyView,
    text: spec_fn(u64) -> Seq<char>,
)
    requires
        ordered(attrs_from_kvs(kvs)),
        value_of(attrs_from_kvs(kvs), key) is None,
        begins_with(key, "vector."@),
    ensures
        point_tags(Seq::empty(), attrs_from_kvs(kvs.push((key, Some(v)))), text) == point_tags(
            Seq::empty(),
            attrs_from_kvs(kvs),
            text,
        ),
        have_no_doubles(attrs_from_kvs(kvs)) && has_no_double(v) ==> have_no_doubles(
            attrs_from_kvs(kvs.push((key, Some(v)))),
        ),
{
    let attrs = attrs_from_kvs(kvs);
    lemma_attribute_added(kvs, key, v);
    lemma_slot_of(attrs, key);
    let p = slot_of(attrs, key);
    lemma_no_tag(Seq::empty(), attrs, p, (key, v), text);
    let all = attrs.insert(p, (key, v));
    if have_no_doubles(attrs) && has_no_double(v) {
        assert forall|i: int| 0 <= i < all.len() implies has_no_double((#[trigger] all[i]).1) by {
            if i < p {
                assert(all[i] == attrs[i]);
            } else if i > p {
                assert(all[i] == attrs[i - 1]);
            }
        }
    }
}

/// The attributes that tags become give back the tags.
proof fn lemma_tags_back(
    tags: Seq<(Seq<char>, Seq<Option<Seq<char>>>)>,
    attrs: Seq<(Seq<char>, AnyView)>,
    text: spec_fn(u64) -> Seq<char>,
)
    requires
        ordered(tags),
        attrs.len() == tags.len(),
        forall|i: int|
            0 <= i < tags.len() ==> #[trigger] attrs[i] == (
                tags[i].0,
                any_from_tag_values(tags[i].1),
            ),
        forall|i: int|
            0 <= i < tags.len() ==> !begins_with((#[trigger] tags[i]).0, "vector."@)
                && values_differ(tags[i].1),
    ensures
        point_tags(Seq::empty(), attrs, text) == tags,
    decreases tags.len(),
{
    if tags.len() == 0 {
        assert(tags =~= Seq::empty());
    } else {
        let before = tags.drop_last();
        let (key, values) = tags[tags.len() - 1];
        assert(attrs[tags.len() - 1] == (key, any_from_tag_values(values)));
        assert forall|i: int| 0 <= i < before.len() implies #[trigger] attrs.drop_last()[i] == (
            before[i].0,
            any_from_tag_values(before[i].1),
        ) by {
            assert(attrs[i] == (tags[i].0, any_from_tag_values(tags[i].1)));
        }
        assert forall|i: int| 0 <= i < before.len() implies !begins_with(
            (#[trigger] before[i]).0,
            "vector."@,
        ) && values_differ(before[i].1) by {
            assert(before[i] == tags[i]);
        }
        assert(before.push((key, values)) =~= tags);
        lemma_with_last(before, key, values);
        lemma_tags_back(before, attrs.drop_last(), text);
        lemma_values_stay(values);
        let v = any_from_tag_values(values);
        if values.len() == 1 {
            assert(values =~= seq![values[0]]);
            assert(values_without(Seq::empty(), values[0]) =~= Seq::empty());
            assert(values_with(Seq::empty(), values[0]) =~= values);
        } else {
            assert(listed_tags(v->Array_0, text) =~= values);
        }
    }
}

/// A metric event that is made of a name, tags, data and metadata comes apart into them: the name,
/// the namespace, the tags, the value with its kind, its time and its interval, and the metadata all
/// come back.
pub proof fn law_metric_comes_apart(
    series: MetricSeriesView,
    data: MetricDataView,
    metadata: MetadataView,
    total: spec_fn(Seq<Sample>) -> u64,
    pow: spec_fn(i32, i32) -> u64,
    text: spec_fn(u64) -> Seq<char>,
)
    requires
        tags_are_kept(series.tags),
        data_is_kept(data),
    ensures
        ({
            let m = metric_of_parts(series, data, metadata, total);
            &&& m.series(text) == series
            &&& m.data(pow) == data
            &&& m.metadata == metadata
            &&& have_no_doubles(m.resource_attrs)
            &&& have_no_doubles(m.dp_attrs[0])
        }),
{
    reveal_strlit("vector.");
    reveal_strlit("vector.metric_type");
    reveal_strlit("vector.metric_kind");
    reveal_strlit("vector.set_values");
    reveal_strlit("vector.statistic");
    assert("vector.metric_type"@.take(7) =~= "vector."@);
    assert("vector.metric_kind"@.take(7) =~= "vector."@);
    assert("vector.set_values"@.take(7) =~= "vector."@);
    assert("vector.statistic"@.take(7) =~= "vector."@);
    lemma_own_names();
    if let Some(t) = series.tags {
        assert forall|i: int| 0 <= i < t.len() implies !is_own_name((#[trigger] t[i]).0) by {
            assert(!begins_with(t[i].0, "vector."@));
        }
    }
    law_metric_value_round_trip(series, data, metadata, total, pow);
    let m = metric_of_parts(series, data, metadata, total);
    let kvs = tag_attributes(series.tags);
    lemma_plain_tags(series.tags);
    let attrs = attrs_from_kvs(kvs);
    let none = Seq::<(Seq<char>, Seq<Option<Seq<char>>>)>::empty();
    assert(is_own_name("vector.metric_type"@) && is_own_name("vector.metric_kind"@) && is_own_name(
        "vector.set_values"@,
    ) && is_own_name("vector.statistic"@));
    assert(resource_tags(none, m.resource_attrs, text) == none && have_no_doubles(
        m.resource_attrs,
    )) by {
        if let Some(ns) = series.namespace {
            let nothing = Seq::<(Seq<char>, Option<AnyView>)>::empty();
            let one = seq![text_attribute("metric.namespace"@, ns)];
            assert(attrs_from_kvs(nothing) =~= Seq::empty());
            assert(one.drop_last() =~= nothing);
            assert(m.resource_attrs.len() == 1);
            assert(m.resource_attrs[0].0 == "metric.namespace"@);
            assert(m.resource_attrs.drop_last() =~= Seq::empty());
            reveal_with_fuel(resource_tags, 2);
            lemma_attribute_added(nothing, "metric.namespace"@, AnyView::Str(ns));
            assert(m.resource_attrs[0].1 == AnyView::Str(ns));
        } else {
            assert(m.resource_attrs =~= Seq::empty());
        }
    }
    assert(point_tags(none, attrs, text) == match series.tags {
        Some(t) => t,
        None => none,
    }) by {
        match series.tags {
            Some(t) => {
                lemma_keys_ordered(t, filled(kvs));
                lemma_gathered(kvs);
                lemma_tags_back(t, attrs, text);
            },
            None => {
                assert(attrs =~= Seq::empty());
            },
        }
    }
    assert(have_no_doubles(attrs)) by {
        match series.tags {
            Some(t) => {
                lemma_keys_ordered(t, filled(kvs));
                lemma_gathered(kvs);
            },
            None => {
                assert(attrs =~= Seq::empty());
            },
        }
    }
    assert(m.dp_attrs.len() == 1);
    match data.value {
        MetricValueView::Gauge { value } => {
            let word = AnyView::Str("incremental"@);
            lemma_own_gives_no_tag(kvs, "vector.metric_kind"@, word, text);
            assert(m.dp_attrs[0] == if data.kind == MetricKind::Incremental {
                attrs_from_kvs(kvs.push(("vector.metric_kind"@, Some(word))))
            } else {
                attrs
            });
        },
        MetricValueView::SetOf { values } => {
            let k1 = kvs.push(text_attribute("vector.metric_type"@, "set"@));
            lemma_attribute_added(kvs, "vector.metric_type"@, AnyView::Str("set"@));
            lemma_own_gives_no_tag(kvs, "vector.metric_type"@, AnyView::Str("set"@), text);
            let word = AnyView::Str(data.kind.word());
            let k2 = k1.push(text_attribute("vector.metric_kind"@, data.kind.word()));
            lemma_attribute_added(k1, "vector.metric_kind"@, word);
            lemma_own_gives_no_tag(k1, "vector.metric_kind"@, word, text);
            let list = any_from_texts(values);
            lemma_own_gives_no_tag(k2, "vector.set_values"@, list, text);
            assert(m.dp_attrs[0] == attrs_from_kvs(k2.push(("vector.set_values"@, Some(list)))));
        },
        MetricValueView::Distribution { samples, statistic } => {
            let k1 = kvs.push(text_attribute("vector.metric_type"@, "distribution"@));
            lemma_attribute_added(kvs, "vector.metric_type"@, AnyView::Str("distribution"@));
            lemma_own_gives_no_tag(kvs, "vector.metric_type"@, AnyView::Str("distribution"@), text);
            let word = AnyView::Str(statistic.word());
            lemma_own_gives_no_tag(k1, "vector.statistic"@, word, text);
            assert(m.dp_attrs[0] == attrs_from_kvs(
                k1.push(text_attribute("vector.statistic"@, statistic.word())),
            ));
        },
        _ => {
            assert(m.dp_attrs[0] == attrs);
        },
    }
    assert(m.all_tags(text) == point_tags(none, m.dp_attrs[0], text));
}

/// What a metric event that is made of a name, tags, data and metadata is taken apart into is that,
/// whatever texts and bounds doubles have.
pub proof fn law_parts_come_back<F: Fn(u64) -> String, G: Fn(i32, i32) -> u64>(
    series: MetricSeriesView,
    data: MetricDataView,
    metadata: MetadataView,
    total: spec_fn(Seq<Sample>) -> u64,
    shown: F,
    power: G,
    series_back: MetricSeriesView,
    data_back: MetricDataView,
)
    requires
        tags_are_kept(series.tags),
        data_is_kept(data),
        is_metric_parts(
            metric_of_parts(series, data, metadata, total),
            shown,
            power,
            series_back,
            data_back,
        ),
    ensures
        series_back == series,
        data_back == data,
        metric_of_parts(series, data, metadata, total).metadata == metadata,
{
    let text = |b: u64| Seq::<char>::empty();
    let pow = |s: i32, e: i32| 0u64;
    let m = metric_of_parts(series, data, metadata, total);
    law_metric_comes_apart(series, data, metadata, total, pow, text);
    assert(attrs_shown(shown, m.resource_attrs, text));
    assert(attrs_shown(shown, m.dp_attrs[0], text));
    assert(m.tags_shown(shown, text));
    assert(!(m.metric.data matches Some(DataView::ExponentialHistogram(_))));
    let (low, high) = choose|low: spec_fn(i32, i32) -> u64, high: spec_fn(i32, i32) -> u64|
        data_back.value == #[trigger] m.signed_value(low, high) && m.is_scaled(power, low, high);
    assert(m.signed_value(low, high) == m.signed_value(pow, pow));
}

} // verus!
