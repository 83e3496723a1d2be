//! What holds of metrics that are handed to scripts as tables: which fields a table has, and what stands
//! in each of them.
use vstd::prelude::*;

use crate::any_value::AnyView;
use crate::keyed::{ordered, value_of};
use crate::listed_laws::{held, lemma_none, lemma_put, one_if};
use crate::lua_table::{
    and_field, lua_counts, lua_data, lua_doubles, lua_tag, lua_tags, lua_texts, tag_given,
    tags_given, total_count, with_beyond, LuaFields, LuaTag, LuaView,
};
use crate::map_laws::law_read_after_write;
use crate::metadata::MetadataView;
use crate::metric_kind::{MetricKind, Sample};
use crate::metric_tags::tag_text;
use crate::otel_metric::{MetricEventView, Seen};
use crate::target_metric::kind_name;

verus! {

/// The values that stand under a name in a table; none in any other value.
pub open spec fn in_table(v: LuaView, name: Seq<char>) -> Seq<LuaView> {
    match v {
        LuaView::Table(m) => held(m, name),
        _ => Seq::empty(),
    }
}

/// Whether there is one value: the sequence of some doubles.
pub open spec fn is_doubles(found: Seq<LuaView>, bits: Seq<u64>) -> bool {
    found.len() == 1 && (found[0] matches LuaView::Sequence(a) && a.len() == bits.len() && forall|i: int|
        0 <= i < a.len() ==> #[trigger] a[i] == LuaView::Double(bits[i]))
}

/// Whether there is one value: the sequence of some counts.
pub open spec fn is_counts(found: Seq<LuaView>, counts: Seq<u64>) -> bool {
    found.len() == 1 && (found[0] matches LuaView::Sequence(a) && a.len() == counts.len() && forall|
        i: int,
    |
        0 <= i < a.len() ==> #[trigger] a[i] == LuaView::Count(counts[i]))
}

proof fn lemma_data_names()
    ensures
        "value"@.len() == 5 && "value"@[0] == 'v',
        "values"@.len() == 6 && "values"@[0] == 'v',
        "buckets"@.len() == 7,
        "counts"@.len() == 6 && "counts"@[0] == 'c',
        "count"@.len() == 5 && "count"@[0] == 'c',
        "sum"@.len() == 3,
        "quantiles"@.len() == 9,
        "scale"@.len() == 5 && "scale"@[0] == 's',
        "zero_count"@.len() == 10,
{
    reveal_strlit("value");
    reveal_strlit("values");
    reveal_strlit("buckets");
    reveal_strlit("counts");
    reveal_strlit("count");
    reveal_strlit("sum");
    reveal_strlit("quantiles");
    reveal_strlit("scale");
    reveal_strlit("zero_count");
}

proof fn lemma_four(
    a: Seq<char>,
    x: LuaView,
    b: Seq<char>,
    y: LuaView,
    c: Seq<char>,
    z: LuaView,
    d: Seq<char>,
    w: LuaView,
)
    requires
        a != b && a != c && a != d && b != c && b != d && c != d,
    ensures
        ({
            let v = LuaView::Table(seq![(a, x), (b, y), (c, z), (d, w)]);
            &&& in_table(v, a) == seq![x]
            &&& in_table(v, b) == seq![y]
            &&& in_table(v, c) == seq![z]
            &&& in_table(v, d) == seq![w]
        }),
{
    lemma_none::<LuaView>();
    let none = Seq::<(Seq<char>, LuaView)>::empty();
    lemma_put(none, a, x);
    let m1 = none.push((a, x));
    lemma_put(m1, b, y);
    let m2 = m1.push((b, y));
    lemma_put(m2, c, z);
    let m3 = m2.push((c, z));
    lemma_put(m3, d, w);
    assert(seq![(a, x), (b, y), (c, z), (d, w)] =~= m3.push((d, w)));
}

/// The data of a metric stand in a table under the name of their type: a number as a double, a set as
/// its texts, a histogram with its bounds, its counts, its count and its sum, a summary with its quantiles,
/// the values at them, its count and its sum, and a histogram with exponential bounds with its scale, its
/// count, its sum and the count of zeros.
pub proof fn law_data_in_table(seen: Seen)
    ensures
        match seen {
            Seen::Sum { value } => lua_data(seen).0 == "counter"@ && in_table(
                lua_data(seen).1,
                "value"@,
            ) == seq![LuaView::Double(value)],
            Seen::Gauge { value } => lua_data(seen).0 == "gauge"@ && in_table(
                lua_data(seen).1,
                "value"@,
            ) == seq![LuaView::Double(value)],
            Seen::SetOf { values } => {
                let found = in_table(lua_data(seen).1, "values"@);
                &&& lua_data(seen).0 == "set"@
                &&& found.len() == 1 && (found[0] matches LuaView::Sequence(a) && a.len()
                    == values.len() && forall|i: int|
                    0 <= i < a.len() ==> #[trigger] a[i] == LuaView::Text(values[i]))
            },
            Seen::Histogram { bounds, counts, count, sum } => {
                &&& lua_data(seen).0 == "aggregated_histogram"@
                &&& is_doubles(in_table(lua_data(seen).1, "buckets"@), bounds)
                &&& is_counts(
                    in_table(lua_data(seen).1, "counts"@),
                    if counts.len() > 0 && counts.len() == bounds.len() {
                        counts.push(0)
                    } else {
                        counts
                    },
                )
                &&& in_table(lua_data(seen).1, "count"@) == seq![LuaView::Count(count)]
                &&& in_table(lua_data(seen).1, "sum"@) == seq![LuaView::Double(sum)]
            },
            Seen::Summary { quantiles, count, sum } => {
                &&& lua_data(seen).0 == "aggregated_summary"@
                &&& is_doubles(
                    in_table(lua_data(seen).1, "quantiles"@),
                    Seq::new(quantiles.len(), |i: int| quantiles[i].quantile),
                )
                &&& is_doubles(
                    in_table(lua_data(seen).1, "values"@),
                    Seq::new(quantiles.len(), |i: int| quantiles[i].value),
                )
                &&& in_table(lua_data(seen).1, "count"@) == seq![LuaView::Count(count)]
                &&& in_table(lua_data(seen).1, "sum"@) == seq![LuaView::Double(sum)]
            },
            Seen::ExponentialHistogram { scale, count, sum, zero_count, .. } => {
                &&& lua_data(seen).0 == "exponential_histogram"@
                &&& in_table(lua_data(seen).1, "scale"@) == seq![LuaView::Integer(scale)]
                &&& in_table(lua_data(seen).1, "count"@) == seq![LuaView::Count(count)]
                &&& in_table(lua_data(seen).1, "sum"@) == seq![LuaView::Double(sum)]
                &&& in_table(lua_data(seen).1, "zero_count"@) == seq![LuaView::Count(zero_count)]
            },
        },
{
    lemma_data_names();
    lemma_none::<LuaView>();
    let none = Seq::<(Seq<char>, LuaView)>::empty();
    match seen {
        Seen::Sum { value } => {
            lemma_put(none, "value"@, LuaView::Double(value));
        },
        Seen::Gauge { value } => {
            lemma_put(none, "value"@, LuaView::Double(value));
        },
        Seen::SetOf { values } => {
            lemma_put(none, "values"@, lua_texts(values));
        },
        Seen::Histogram { bounds, counts, count, sum } => {
            lemma_four(
                "buckets"@,
                lua_doubles(bounds),
                "counts"@,
                lua_counts(with_beyond(bounds, counts)),
                "count"@,
                LuaView::Count(count),
                "sum"@,
                LuaView::Double(sum),
            );
        },
        Seen::Summary { quantiles, count, sum } => {
            lemma_four(
                "quantiles"@,
                lua_doubles(Seq::new(quantiles.len(), |i: int| quantiles[i].quantile)),
                "values"@,
                lua_doubles(Seq::new(quantiles.len(), |i: int| quantiles[i].value)),
                "count"@,
                LuaView::Count(count),
                "sum"@,
                LuaView::Double(sum),
            );
        },
        Seen::ExponentialHistogram { scale, count, sum, zero_count, .. } => {
            lemma_four(
                "scale"@,
                LuaView::Integer(scale),
                "count"@,
                LuaView::Count(count),
                "sum"@,
                LuaView::Double(sum),
                "zero_count"@,
                LuaView::Count(zero_count),
            );
        },
    }
}

proof fn lemma_table_names()
    ensures
        "name"@.len() == 4 && "name"@[0] == 'n',
        "namespace"@.len() == 9 && "namespace"@[0] == 'n',
        "timestamp"@.len() == 9 && "timestamp"@[0] == 't',
        "interval_ms"@.len() == 11,
        "tags"@.len() == 4 && "tags"@[0] == 't',
        "kind"@.len() == 4 && "kind"@[0] == 'k',
        "counter"@.len() == 7,
        "gauge"@.len() == 5,
        "set"@.len() == 3,
        "aggregated_histogram"@.len() == 20,
        "aggregated_summary"@.len() == 18,
        "exponential_histogram"@.len() == 21,
{
    reveal_strlit("name");
    reveal_strlit("namespace");
    reveal_strlit("timestamp");
    reveal_strlit("interval_ms");
    reveal_strlit("tags");
    reveal_strlit("kind");
    reveal_strlit("counter");
    reveal_strlit("gauge");
    reveal_strlit("set");
    reveal_strlit("aggregated_histogram");
    reveal_strlit("aggregated_summary");
    reveal_strlit("exponential_histogram");
}

/// The table of a metric has its name, its namespace, its time and its interval where it has them, its
/// tags unless it has none, its kind in words, and its data under the name of their type.
#[verifier::rlimit(40)]
pub proof fn law_metric_in_table(m: MetricEventView, multi: bool, text: spec_fn(u64) -> Seq<char>)
    ensures
        ({
            let v = LuaView::Table(m.lua(multi, text));
            &&& in_table(v, "name"@) == seq![LuaView::Text(m.event.metric.name)]
            &&& in_table(v, "namespace"@) == match m.event.namespace() {
                Some(ns) => seq![LuaView::Text(ns)],
                None => Seq::empty(),
            }
            &&& in_table(v, "timestamp"@) == match m.event.timestamp() {
                Some(t) => seq![LuaView::Instant(t)],
                None => Seq::empty(),
            }
            &&& in_table(v, "interval_ms"@) == match m.event.interval_ms() {
                Some(ms) => seq![LuaView::Count(ms as u64)],
                None => Seq::empty(),
            }
            &&& in_table(v, "tags"@) == one_if(
                m.event.dp_attrs.len() > 0 && m.event.dp_attrs[0].len() > 0,
                lua_tags(m.event.dp_attrs[0], multi, text),
            )
            &&& in_table(v, "kind"@) == seq![
                LuaView::Text(
                    match m.kind() {
                        MetricKind::Absolute => "absolute"@,
                        MetricKind::Incremental => "incremental"@,
                    },
                ),
            ]
            &&& in_table(v, lua_data(m.seen()).0) == seq![lua_data(m.seen()).1]
        }),
{
    lemma_table_names();
    lemma_none::<LuaView>();
    law_data_in_table(m.seen());
    let none = Seq::<(Seq<char>, LuaView)>::empty();
    let name = LuaView::Text(m.event.metric.name);
    lemma_put(none, "name"@, name);
    let m1 = none.push(("name"@, name));
    let ns = match m.event.namespace() {
        Some(ns) => Some(LuaView::Text(ns)),
        None => None,
    };
    let m2 = and_field(m1, "namespace"@, ns);
    if let Some(x) = ns {
        lemma_put(m1, "namespace"@, x);
    }
    let time = match m.event.timestamp() {
        Some(t) => Some(LuaView::Instant(t)),
        None => None,
    };
    let m3 = and_field(m2, "timestamp"@, time);
    if let Some(x) = time {
        lemma_put(m2, "timestamp"@, x);
    }
    let interval = match m.event.interval_ms() {
        Some(ms) => Some(LuaView::Count(ms as u64)),
        None => None,
    };
    let m4 = and_field(m3, "interval_ms"@, interval);
    if let Some(x) = interval {
        lemma_put(m3, "interval_ms"@, x);
    }
    let tags = lua_tags(m.event.first_attrs(), multi, text);
    let there = m.event.first_attrs().len() > 0;
    let m5 = and_field(
        m4,
        "tags"@,
        if there {
            Some(tags)
        } else {
            None
        },
    );
    lemma_put(m4, "tags"@, tags);
    let kind = LuaView::Text(kind_name(m.kind()));
    lemma_put(m5, "kind"@, kind);
    let m6 = m5.push(("kind"@, kind));
    let (key, data) = lua_data(m.seen());
    lemma_put(m6, key, data);
    assert(m.lua(multi, text) == m6.push((key, data)));
}

/// Each tag stands in the table of tags under its name. Where a tag may have several values it is the
/// sequence of their texts, in order; else the only text, or of a list the last one.
pub proof fn law_tags_in_table(
    attrs: Seq<(Seq<char>, AnyView)>,
    multi: bool,
    text: spec_fn(u64) -> Seq<char>,
    i: int,
)
    requires
        0 <= i < attrs.len(),
    ensures
        lua_tags(attrs, multi, text) matches LuaView::Table(m) && m.len() == attrs.len() && m[i].0
            == attrs[i].0 && {
            let v = attrs[i].1;
            &&& !multi && !(v is Array) && !(v is Empty) ==> m[i].1 == LuaView::Text(tag_text(v, text))
            &&& !multi && v is Empty ==> m[i].1 == LuaView::Text(Seq::empty())
            &&& multi && !(v is Array) && !(v is Empty) ==> m[i].1 == LuaView::Sequence(
                seq![LuaView::Text(tag_text(v, text))],
            )
            &&& multi ==> (v matches AnyView::Array(items) ==> (m[i].1 matches LuaView::Sequence(s)
                && s.len() == items.len() && forall|j: int|
                0 <= j < s.len() ==> #[trigger] s[j] == LuaView::Text(
                    if items[j] is Empty {
                        Seq::empty()
                    } else {
                        tag_text(items[j], text)
                    },
                )))
            &&& !multi ==> (v matches AnyView::Array(items) ==> (items.len() > 0 ==> (
            items.last() matches AnyView::Str(s) ==> m[i].1 == LuaView::Text(s))))
        },
{
    let v = attrs[i].1;
    if multi && !(v is Array) && !(v is Empty) {
        assert(lua_tag(v, multi, text)->Sequence_0 =~= seq![LuaView::Text(tag_text(v, text))]);
    }
}

/// Tags that a table gives are attributes under their names: a text as a text, a list as a list of texts.
/// Of two of one name the later one counts, and one that is nil counts for nothing.
pub proof fn law_tags_from_table(tags: Seq<(String, LuaTag)>, i: int)
    requires
        0 <= i < tags.len(),
        forall|j: int|
            i < j < tags.len() ==> (#[trigger] tags[j]).0@ != tags[i].0@ || tags[j].1 is Nil,
    ensures
        ordered(tags_given(tags)),
        match tags[i].1 {
            LuaTag::Text(s) => value_of(tags_given(tags), tags[i].0@) == Some(AnyView::Str(s@)),
            LuaTag::Other(s) => value_of(tags_given(tags), tags[i].0@) == Some(AnyView::Str(s@)),
            LuaTag::List(texts) => value_of(tags_given(tags), tags[i].0@) matches Some(
                AnyView::Array(items),
            ) && items.len() == texts@.len() && forall|k: int|
                0 <= k < items.len() ==> #[trigger] items[k] == AnyView::Str(texts@[k]@),
            LuaTag::Nil => true,
        },
    decreases tags.len(),
{
    let before = tags.drop_last();
    lemma_tags_ordered(before);
    let last = tags.last();
    if let Some(v) = tag_given(last.1) {
        law_read_after_write(tags_given(before), last.0@, v);
    }
    if i < before.len() {
        assert forall|j: int| i < j < before.len() implies (#[trigger] before[j]).0@ != before[i].0@
            || before[j].1 is Nil by {
            assert(before[j] == tags[j]);
        }
        law_tags_from_table(before, i);
        assert(tags[tags.len() - 1].0@ != tags[i].0@ || tags[tags.len() - 1].1 is Nil);
    }
}

proof fn lemma_tags_ordered(tags: Seq<(String, LuaTag)>)
    ensures
        ordered(tags_given(tags)),
    decreases tags.len(),
{
    if tags.len() > 0 {
        lemma_tags_ordered(tags.drop_last());
        if let Some(v) = tag_given(tags.last().1) {
            law_read_after_write(tags_given(tags.drop_last()), tags.last().0@, v);
        }
    }
}

/// The metric that a table gives is the first of a counter, a gauge, a set, a distribution, a histogram and
/// a summary that the table has, with the values that stand there, the name, and the kind that is given,
/// which is absolute where none is.
pub proof fn law_metric_from_table(
    f: LuaFields,
    metadata: MetadataView,
    total: spec_fn(Seq<Sample>) -> u64,
)
    requires
        f.fits(),
    ensures
        f.value_given(metadata, total) matches Some(m) ==> m.event.metric.name == f.name@,
        f.counter matches Some(v) ==> (f.value_given(metadata, total) matches Some(m) && m.seen() == (
        Seen::Sum { value: v }) && m.kind() == f.kind_given()),
        f.counter is None ==> (f.gauge matches Some(v) ==> (f.value_given(metadata, total) matches Some(
            m,
        ) && m.seen() == (Seen::Gauge { value: v }) && m.kind() == f.kind_given())),
        f.counter is None && f.gauge is None ==> (f.set matches Some(texts) ==> (f.value_given(
            metadata,
            total,
        ) matches Some(m) && m.seen() is SetOf && m.kind() == f.kind_given())),
        f.counter is None && f.gauge is None && f.set is None ==> (f.distribution matches Some(d)
            ==> (f.value_given(metadata, total) matches Some(m) && m.kind() == f.kind_given() && (
        m.seen() matches Seen::Histogram { bounds, counts, .. } && counts.len() == bounds.len() && forall|
            i: int,
        |
            0 <= i < bounds.len() ==> #[trigger] bounds[i] == d.0@[i] && counts[i] == d.1@[i]))),
        f.counter is None && f.gauge is None && f.set is None && f.distribution is None ==> (
        f.aggregated_histogram matches Some(h) ==> (f.value_given(metadata, total) matches Some(m)
            && m.kind() == f.kind_given() && (m.seen() matches Seen::Histogram {
            bounds,
            counts,
            count,
            sum,
        } && sum == h.2 && count == total_count(h.1@) && bounds.len() == counts.len() && forall|i: int|
            0 <= i < bounds.len() ==> #[trigger] bounds[i] == h.0@[i] && counts[i] == h.1@[i]))),
        f.counter is None && f.gauge is None && f.set is None && f.distribution is None
            && f.aggregated_histogram is None ==> (f.aggregated_summary matches Some(s) ==> (
        f.value_given(metadata, total) matches Some(m) && (m.seen() matches Seen::Summary {
            quantiles,
            count,
            sum,
        } && count == s.2 && sum == s.3 && forall|i: int|
            0 <= i < quantiles.len() ==> (#[trigger] quantiles[i]).quantile == s.0@[i]
                && quantiles[i].value == s.1@[i]))),
        f.kind matches Some(k) ==> f.kind_given() == k,
        f.kind is None ==> f.kind_given() is Absolute,
{
}

} // verus!
