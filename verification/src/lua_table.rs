//! Metrics as tables of a scripting language, and the metrics that such tables give.
use vstd::prelude::*;

use crate::any_value::{
    lemma_any_array_view, string_value, values_view, AnyValue, AnyView, ArrayValue, OtelValueKind,
};
use crate::attributes::OtelAttributes;
use crate::double::double_of_nat;
use crate::keyed::{views, with_entry};
use crate::metadata::MetadataView;
use crate::metric::OtelMetricView;
use crate::metric_extra::unless_empty;
use crate::metric_kind::{
    total_rate, zip_buckets, zip_quantiles, zip_samples, MetricKind, Quantile, Sample,
};
use crate::metric_new::{
    counter_data, counts_of, double_point, histogram_data, limits_of, named, plain_histogram,
    quantile_values, rates_of, summary_data, total_drawn, total_of, values_of,
};
use crate::metric_ops::{find_last_text, nanos_or_zero, single_of};
use crate::metric_tags::{
    are_spelled, attrs_shown, is_spelled, is_spelled_out, no_text, otel_value_to_tag_string,
    tag_text, top_shown, value_shown,
};
use crate::otel_metric::{keys_of, plain, MetricEventView, MetricView, OtelMetric, Seen};
use crate::otlp_metric::SummaryDataPointView;
use crate::target_metric::kind_name;
use crate::text::str_eq;
use crate::time::Timestamp;

verus! {

/// A value of the scripting language, as far as metrics need it. Doubles are held as the bits of
/// their IEEE 754 representation.
#[derive(Debug, PartialEq)]
pub enum LuaData {
    Text(String),
    Double(u64),
    Count(u64),
    Integer(i32),
    Instant(Timestamp),
    /// A table with the places from one on.
    Sequence(Vec<LuaData>),
    /// A table with names.
    Table(Vec<(String, LuaData)>),
}

pub enum LuaView {
    Text(Seq<char>),
    Double(u64),
    Count(u64),
    Integer(i32),
    Instant(Timestamp),
    Sequence(Seq<LuaView>),
    Table(Seq<(Seq<char>, LuaView)>),
}

impl View for LuaData {
    type V = LuaView;

    open spec fn view(&self) -> LuaView
        decreases self,
    {
        match self {
            LuaData::Text(s) => LuaView::Text(s@),
            LuaData::Double(d) => LuaView::Double(*d),
            LuaData::Count(n) => LuaView::Count(*n),
            LuaData::Integer(i) => LuaView::Integer(*i),
            LuaData::Instant(t) => LuaView::Instant(*t),
            LuaData::Sequence(a) => LuaView::Sequence(
                Seq::new(
                    a@.len(),
                    |i: int|
                        if 0 <= i < a@.len() {
                            a@[i]@
                        } else {
                            arbitrary()
                        },
                ),
            ),
            LuaData::Table(m) => LuaView::Table(
                Seq::new(
                    m@.len(),
                    |i: int|
                        if 0 <= i < m@.len() {
                            (m@[i].0@, m@[i].1@)
                        } else {
                            arbitrary()
                        },
                ),
            ),
        }
    }
}

/// The values of a sequence.
pub open spec fn lua_items(a: Seq<LuaData>) -> Seq<LuaView> {
    Seq::new(a.len(), |i: int| a[i]@)
}

/// The fields of a table.
pub open spec fn lua_fields(m: Seq<(String, LuaData)>) -> Seq<(Seq<char>, LuaView)> {
    Seq::new(m.len(), |i: int| (m[i].0@, m[i].1@))
}

fn sequence(a: Vec<LuaData>) -> (r: LuaData)
    ensures
        r@ == LuaView::Sequence(lua_items(a@)),
{
    proof {
        reveal_with_fuel(<LuaData as View>::view, 2);
        assert(LuaData::Sequence(a)@->Sequence_0 =~= lua_items(a@));
    }
    LuaData::Sequence(a)
}

fn table(m: Vec<(String, LuaData)>) -> (r: LuaData)
    ensures
        r@ == LuaView::Table(lua_fields(m@)),
{
    proof {
        reveal_with_fuel(<LuaData as View>::view, 2);
        assert(LuaData::Table(m)@->Table_0 =~= lua_fields(m@));
    }
    LuaData::Table(m)
}

fn raw_set(m: &mut Vec<(String, LuaData)>, key: &str, v: LuaData)
    ensures
        lua_fields(final(m)@) == lua_fields(old(m)@).push((key@, v@)),
{
    m.push((key.to_owned(), v));
    assert(lua_fields(m@) =~= lua_fields(old(m)@).push((key@, v@)));
}

fn empty_table() -> (r: Vec<(String, LuaData)>)
    ensures
        lua_fields(r@) == Seq::<(Seq<char>, LuaView)>::empty(),
{
    let r: Vec<(String, LuaData)> = Vec::new();
    assert(lua_fields(r@) =~= Seq::empty());
    r
}

/// The text that an attribute value has, empty where it has none.
fn text_of<F: Fn(u64) -> String>(v: &AnyValue, shown: &F) -> (r: String)
    requires
        forall|b: u64| call_requires(*shown, (b,)),
    ensures
        forall|text: spec_fn(u64) -> Seq<char>| #[trigger]
            top_shown(*shown, v@, text) ==> r@ == text_or_none(v@, text),
        exists|spelled: AnyView|
            r@ == #[trigger] text_or_none(spelled, no_text()) && is_spelled(*shown, v@, spelled),
{
    match &v.value {
        Some(kind) => {
            let words = otel_value_to_tag_string(kind, shown);
            proof {
                let spelled = if v@ is Double {
                    AnyView::Str(words@)
                } else {
                    v@
                };
                assert(words@ == text_or_none(spelled, no_text()));
            }
            words
        },
        None => {
            assert(text_or_none(v@, no_text()) == Seq::<char>::empty());
            String::new()
        },
    }
}

/// Whether this is an attribute value, with texts that `shown` may show in place of doubles in the
/// value of a tag.
pub open spec fn is_tag_spelled<F: Fn(u64) -> String>(
    shown: F,
    multi: bool,
    v: AnyView,
    r: AnyView,
) -> bool {
    if multi {
        is_spelled_out(shown, v, r)
    } else {
        is_spelled(shown, v, r)
    }
}

/// Whether these are attributes, with texts that `shown` may show in place of doubles in tags.
pub open spec fn are_tags_spelled<F: Fn(u64) -> String>(
    shown: F,
    multi: bool,
    attrs: Seq<(Seq<char>, AnyView)>,
    r: Seq<(Seq<char>, AnyView)>,
) -> bool {
    &&& r.len() == attrs.len()
    &&& forall|i: int|
        0 <= i < attrs.len() ==> (#[trigger] r[i]).0 == attrs[i].0 && is_tag_spelled(
            shown,
            multi,
            attrs[i].1,
            r[i].1,
        )
}

/// The text that an attribute value has, empty where it has none.
pub open spec fn text_or_none(v: AnyView, text: spec_fn(u64) -> Seq<char>) -> Seq<char> {
    if v is Empty {
        Seq::empty()
    } else {
        tag_text(v, text)
    }
}

/// The values of a tag: those of a list, or the only one.
pub open spec fn tag_values(v: AnyView) -> Seq<AnyView> {
    match v {
        AnyView::Array(items) => items,
        _ => seq![v],
    }
}

/// The value of a tag in a table: the sequence of its texts where a tag may have several, and
/// otherwise its only or its last text.
pub open spec fn lua_tag(v: AnyView, multi: bool, text: spec_fn(u64) -> Seq<char>) -> LuaView {
    if multi {
        LuaView::Sequence(
            Seq::new(
                tag_values(v).len(),
                |i: int| LuaView::Text(text_or_none(tag_values(v)[i], text)),
            ),
        )
    } else {
        LuaView::Text(text_or_none(single_of(v), text))
    }
}

fn tag_to_lua<F: Fn(u64) -> String>(v: &AnyValue, multi: bool, shown: &F) -> (r: LuaData)
    requires
        forall|b: u64| call_requires(*shown, (b,)),
    ensures
        forall|text: spec_fn(u64) -> Seq<char>| #[trigger]
            value_shown(*shown, v@, text) ==> r@ == lua_tag(v@, multi, text),
        exists|spelled: AnyView|
            r@ == #[trigger] lua_tag(spelled, multi, no_text()) && is_tag_spelled(
                *shown,
                multi,
                v@,
                spelled,
            ),
{
    if !multi {
        if let Some(OtelValueKind::ArrayValue(a)) = &v.value {
            proof {
                lemma_any_array_view(*a);
            }
            if let Some(s) = find_last_text(&a.values) {
                let r = LuaData::Text(s.clone());
                assert(r@ == lua_tag(v@, multi, no_text()));
                return r;
            }
        }
        let words = text_of(v, shown);
        proof {
            let spelled = choose|spelled: AnyView|
                words@ == #[trigger] text_or_none(spelled, no_text()) && is_spelled(
                    *shown,
                    v@,
                    spelled,
                );
            assert(LuaView::Text(words@) == lua_tag(spelled, multi, no_text()));
        }
        return LuaData::Text(words);
    }
    let mut items: Vec<LuaData> = Vec::new();
    if let Some(OtelValueKind::ArrayValue(a)) = &v.value {
        proof {
            lemma_any_array_view(*a);
        }
        let ghost mut spelled = Seq::<AnyView>::empty();
        let mut i: usize = 0;
        while i < a.values.len()
            invariant
                spelled.len() == i,
                forall|j: int|
                    0 <= j < i ==> is_spelled(*shown, v@->Array_0[j], #[trigger] spelled[j])
                        && items@[j]@ == LuaView::Text(text_or_none(spelled[j], no_text())),
                i <= a.values@.len(),
                items@.len() == i,
                v@ matches AnyView::Array(all) && all.len() == a.values@.len(),
                forall|j: int|
                    0 <= j < a.values@.len() ==> #[trigger] v@->Array_0[j] == a.values@[j]@,
                forall|b: u64| call_requires(*shown, (b,)),
                forall|text: spec_fn(u64) -> Seq<char>, j: int|
                    #![trigger value_shown(*shown, v@, text), items@[j]]
                    value_shown(*shown, v@, text) && 0 <= j < i ==> items@[j]@ == LuaView::Text(
                        text_or_none(a.values@[j]@, text),
                    ),
            decreases a.values@.len() - i,
        {
            assert(v@->Array_0[i as int] == a.values@[i as int]@);
            let words = text_of(&a.values[i], shown);
            proof {
                let one = choose|one: AnyView|
                    words@ == #[trigger] text_or_none(one, no_text()) && is_spelled(
                        *shown,
                        a.values@[i as int]@,
                        one,
                    );
                spelled = spelled.push(one);
            }
            items.push(LuaData::Text(words));
            i = i + 1;
        }
        proof {
            let list = AnyView::Array(spelled);
            assert(are_spelled(*shown, v@->Array_0, spelled));
            assert(lua_items(items@) =~= lua_tag(list, multi, no_text())->Sequence_0);
            assert(LuaView::Sequence(lua_items(items@)) == lua_tag(list, multi, no_text()));
        }
        assert forall|text: spec_fn(u64) -> Seq<char>| #[trigger] value_shown(
            *shown,
            v@,
            text,
        ) implies LuaView::Sequence(lua_items(items@)) == lua_tag(v@, multi, text) by {
            assert(lua_items(items@) =~= lua_tag(v@, multi, text)->Sequence_0);
        }
        return sequence(items);
    }
    let words = text_of(v, shown);
    items.push(LuaData::Text(words));
    proof {
        let spelled = choose|spelled: AnyView|
            words@ == #[trigger] text_or_none(spelled, no_text()) && is_spelled(
                *shown,
                v@,
                spelled,
            );
        assert(lua_items(items@) =~= lua_tag(spelled, multi, no_text())->Sequence_0);
        assert(LuaView::Sequence(lua_items(items@)) == lua_tag(spelled, multi, no_text()));
    }
    assert forall|text: spec_fn(u64) -> Seq<char>| #[trigger] value_shown(
        *shown,
        v@,
        text,
    ) implies LuaView::Sequence(lua_items(items@)) == lua_tag(v@, multi, text) by {
        assert(lua_items(items@) =~= lua_tag(v@, multi, text)->Sequence_0);
    }
    sequence(items)
}

/// The table of tags.
pub open spec fn lua_tags(
    attrs: Seq<(Seq<char>, AnyView)>,
    multi: bool,
    text: spec_fn(u64) -> Seq<char>,
) -> LuaView {
    LuaView::Table(
        Seq::new(attrs.len(), |i: int| (attrs[i].0, lua_tag(attrs[i].1, multi, text))),
    )
}

fn tags_to_lua<F: Fn(u64) -> String>(attrs: &OtelAttributes, multi: bool, shown: &F) -> (r: LuaData)
    requires
        forall|b: u64| call_requires(*shown, (b,)),
    ensures
        forall|text: spec_fn(u64) -> Seq<char>| #[trigger]
            attrs_shown(*shown, attrs@, text) ==> r@ == lua_tags(attrs@, multi, text),
        exists|spelled: Seq<(Seq<char>, AnyView)>|
            r@ == #[trigger] lua_tags(spelled, multi, no_text()) && are_tags_spelled(
                *shown,
                multi,
                attrs@,
                spelled,
            ),
{
    let ghost mut spelled = Seq::<(Seq<char>, AnyView)>::empty();
    let mut m: Vec<(String, LuaData)> = Vec::new();
    let mut i: usize = 0;
    while i < attrs.inner.entries.len()
        invariant
            i <= attrs.inner.entries@.len(),
            m@.len() == i,
            spelled.len() == i,
            forall|j: int|
                0 <= j < i ==> (#[trigger] spelled[j]).0 == attrs@[j].0 && is_tag_spelled(
                    *shown,
                    multi,
                    attrs@[j].1,
                    spelled[j].1,
                ) && m@[j].0@ == attrs@[j].0 && m@[j].1@ == lua_tag(spelled[j].1, multi, no_text()),
            forall|b: u64| call_requires(*shown, (b,)),
            forall|text: spec_fn(u64) -> Seq<char>, j: int|
                #![trigger attrs_shown(*shown, attrs@, text), m@[j]]
                attrs_shown(*shown, attrs@, text) && 0 <= j < i ==> m@[j].0@ == attrs@[j].0
                    && m@[j].1@ == lua_tag(
                    attrs@[j].1,
                    multi,
                    text,
                ),
        decreases attrs.inner.entries@.len() - i,
    {
        assert(attrs@[i as int].1 == attrs.inner.entries@[i as int].1@);
        let v = tag_to_lua(&attrs.inner.entries[i].1, multi, shown);
        proof {
            let one = choose|one: AnyView|
                v@ == #[trigger] lua_tag(one, multi, no_text()) && is_tag_spelled(
                    *shown,
                    multi,
                    attrs@[i as int].1,
                    one,
                );
            spelled = spelled.push((attrs@[i as int].0, one));
        }
        m.push((attrs.inner.entries[i].0.clone(), v));
        i = i + 1;
    }
    assert forall|text: spec_fn(u64) -> Seq<char>| #[trigger] attrs_shown(
        *shown,
        attrs@,
        text,
    ) implies LuaView::Table(lua_fields(m@)) == lua_tags(attrs@, multi, text) by {
        assert(lua_fields(m@) =~= lua_tags(attrs@, multi, text)->Table_0);
    }
    assert(lua_fields(m@) =~= lua_tags(spelled, multi, no_text())->Table_0);
    assert(LuaView::Table(lua_fields(m@)) == lua_tags(spelled, multi, no_text()));
    table(m)
}

/// The sequence of doubles.
pub open spec fn lua_doubles(bits: Seq<u64>) -> LuaView {
    LuaView::Sequence(Seq::new(bits.len(), |i: int| LuaView::Double(bits[i])))
}

fn doubles(bits: &[u64]) -> (r: LuaData)
    ensures
        r@ == lua_doubles(bits@),
{
    let mut items: Vec<LuaData> = Vec::new();
    let mut i: usize = 0;
    while i < bits.len()
        invariant
            i <= bits@.len(),
            items@.len() == i,
            forall|j: int| 0 <= j < i ==> (#[trigger] items@[j])@ == LuaView::Double(bits@[j]),
        decreases bits@.len() - i,
    {
        items.push(LuaData::Double(bits[i]));
        i = i + 1;
    }
    assert(lua_items(items@) =~= lua_doubles(bits@)->Sequence_0);
    sequence(items)
}

/// The counts of buckets with one for what lies beyond the last bound, zero where the metric has
/// none.
pub open spec fn with_beyond(bounds: Seq<u64>, counts: Seq<u64>) -> Seq<u64> {
    if counts.len() > 0 && counts.len() == bounds.len() {
        counts.push(0)
    } else {
        counts
    }
}

/// The sequence of counts.
pub open spec fn lua_counts(counts: Seq<u64>) -> LuaView {
    LuaView::Sequence(Seq::new(counts.len(), |i: int| LuaView::Count(counts[i])))
}

fn counts_beyond(bounds: &[u64], counts: &[u64]) -> (r: LuaData)
    ensures
        r@ == lua_counts(with_beyond(bounds@, counts@)),
{
    let mut items: Vec<LuaData> = Vec::new();
    let mut i: usize = 0;
    while i < counts.len()
        invariant
            i <= counts@.len(),
            items@.len() == i,
            forall|j: int| 0 <= j < i ==> (#[trigger] items@[j])@ == LuaView::Count(counts@[j]),
        decreases counts@.len() - i,
    {
        items.push(LuaData::Count(counts[i]));
        i = i + 1;
    }
    if counts.len() > 0 && counts.len() == bounds.len() {
        items.push(LuaData::Count(0));
    }
    assert(lua_items(items@) =~= lua_counts(with_beyond(bounds@, counts@))->Sequence_0);
    sequence(items)
}

/// The sequence of texts.
pub open spec fn lua_texts(texts: Seq<Seq<char>>) -> LuaView {
    LuaView::Sequence(Seq::new(texts.len(), |i: int| LuaView::Text(texts[i])))
}

fn texts_to_lua(texts: &Vec<String>) -> (r: LuaData)
    ensures
        r@ == lua_texts(views(texts@)),
{
    let mut items: Vec<LuaData> = Vec::new();
    let mut i: usize = 0;
    while i < texts.len()
        invariant
            i <= texts@.len(),
            items@.len() == i,
            forall|j: int| 0 <= j < i ==> (#[trigger] items@[j])@ == LuaView::Text(texts@[j]@),
        decreases texts@.len() - i,
    {
        items.push(LuaData::Text(texts[i].clone()));
        i = i + 1;
    }
    assert(lua_items(items@) =~= lua_texts(views(texts@))->Sequence_0);
    sequence(items)
}

/// The field that the data of a metric are: a table under the name of their type.
pub open spec fn lua_data(seen: Seen) -> (Seq<char>, LuaView) {
    match seen {
        Seen::Sum { value } => (
            "counter"@,
            LuaView::Table(seq![("value"@, LuaView::Double(value))]),
        ),
        Seen::Gauge { value } => (
            "gauge"@,
            LuaView::Table(seq![("value"@, LuaView::Double(value))]),
        ),
        Seen::SetOf { values } => ("set"@, LuaView::Table(seq![("values"@, lua_texts(values))])),
        Seen::Histogram { bounds, counts, count, sum } => (
            "aggregated_histogram"@,
            LuaView::Table(
                seq![
                    ("buckets"@, lua_doubles(bounds)),
                    ("counts"@, lua_counts(with_beyond(bounds, counts))),
                    ("count"@, LuaView::Count(count)),
                    ("sum"@, LuaView::Double(sum)),
                ],
            ),
        ),
        Seen::Summary { quantiles, count, sum } => (
            "aggregated_summary"@,
            LuaView::Table(
                seq![
                    (
                        "quantiles"@,
                        lua_doubles(Seq::new(quantiles.len(), |i: int| quantiles[i].quantile)),
                    ),
                    (
                        "values"@,
                        lua_doubles(Seq::new(quantiles.len(), |i: int| quantiles[i].value)),
                    ),
                    ("count"@, LuaView::Count(count)),
                    ("sum"@, LuaView::Double(sum)),
                ],
            ),
        ),
        Seen::ExponentialHistogram { scale, count, sum, zero_count, .. } => (
            "exponential_histogram"@,
            LuaView::Table(
                seq![
                    ("scale"@, LuaView::Integer(scale)),
                    ("count"@, LuaView::Count(count)),
                    ("sum"@, LuaView::Double(sum)),
                    ("zero_count"@, LuaView::Count(zero_count)),
                ],
            ),
        ),
    }
}

fn put_data(m: &mut Vec<(String, LuaData)>, view: MetricView<'_>)
    ensures
        lua_fields(final(m)@) == lua_fields(old(m)@).push(lua_data(view.seen())),
{
    let mut inner = empty_table();
    let ghost expected = lua_data(view.seen()).1->Table_0;
    match view {
        MetricView::Sum { value } => {
            raw_set(&mut inner, "value", LuaData::Double(value));
            assert(lua_fields(inner@) =~= expected);
            raw_set(m, "counter", table(inner));
        },
        MetricView::Gauge { value } => {
            raw_set(&mut inner, "value", LuaData::Double(value));
            assert(lua_fields(inner@) =~= expected);
            raw_set(m, "gauge", table(inner));
        },
        MetricView::SetOf { values } => {
            raw_set(&mut inner, "values", texts_to_lua(&values));
            assert(lua_fields(inner@) =~= expected);
            raw_set(m, "set", table(inner));
        },
        MetricView::Histogram { bounds, counts, count, sum } => {
            raw_set(&mut inner, "buckets", doubles(bounds));
            raw_set(&mut inner, "counts", counts_beyond(bounds, counts));
            raw_set(&mut inner, "count", LuaData::Count(count));
            raw_set(&mut inner, "sum", LuaData::Double(sum));
            assert(lua_fields(inner@) =~= expected);
            raw_set(m, "aggregated_histogram", table(inner));
        },
        MetricView::Summary { quantiles, count, sum } => {
            let ghost all = views(quantiles@);
            let mut at: Vec<u64> = Vec::new();
            let mut values: Vec<u64> = Vec::new();
            let mut i: usize = 0;
            while i < quantiles.len()
                invariant
                    i <= quantiles@.len(),
                    all == views(quantiles@),
                    at@.len() == i,
                    values@.len() == i,
                    forall|j: int| 0 <= j < i ==> #[trigger] at@[j] == all[j].quantile,
                    forall|j: int| 0 <= j < i ==> #[trigger] values@[j] == all[j].value,
                decreases quantiles@.len() - i,
            {
                at.push(quantiles[i].quantile);
                values.push(quantiles[i].value);
                i = i + 1;
            }
            assert(at@ =~= Seq::new(all.len(), |i: int| all[i].quantile));
            assert(values@ =~= Seq::new(all.len(), |i: int| all[i].value));
            raw_set(&mut inner, "quantiles", doubles(at.as_slice()));
            raw_set(&mut inner, "values", doubles(values.as_slice()));
            raw_set(&mut inner, "count", LuaData::Count(count));
            raw_set(&mut inner, "sum", LuaData::Double(sum));
            assert(lua_fields(inner@) =~= expected);
            raw_set(m, "aggregated_summary", table(inner));
        },
        MetricView::ExponentialHistogram { scale, count, sum, zero_count, .. } => {
            raw_set(&mut inner, "scale", LuaData::Integer(scale));
            raw_set(&mut inner, "count", LuaData::Count(count));
            raw_set(&mut inner, "sum", LuaData::Double(sum));
            raw_set(&mut inner, "zero_count", LuaData::Count(zero_count));
            assert(lua_fields(inner@) =~= expected);
            raw_set(m, "exponential_histogram", table(inner));
        },
    }
}

/// The fields with one more, where there is one.
pub open spec fn and_field(m: Seq<(Seq<char>, LuaView)>, key: Seq<char>, v: Option<LuaView>) -> Seq<
    (Seq<char>, LuaView),
> {
    match v {
        Some(v) => m.push((key, v)),
        None => m,
    }
}

impl MetricEventView {
    /// The fields of the table that the metric is.
    pub open spec fn lua(&self, multi: bool, text: spec_fn(u64) -> Seq<char>) -> Seq<
        (Seq<char>, LuaView),
    > {
        self.lua_with(lua_tags(self.event.first_attrs(), multi, text))
    }

    /// The fields of the table that the metric is, with a table of its tags.
    pub open spec fn lua_with(&self, tags: LuaView) -> Seq<(Seq<char>, LuaView)> {
        let m = seq![("name"@, LuaView::Text(self.event.metric.name))];
        let m = and_field(
            m,
            "namespace"@,
            match self.event.namespace() {
                Some(ns) => Some(LuaView::Text(ns)),
                None => None,
            },
        );
        let m = and_field(
            m,
            "timestamp"@,
            match self.event.timestamp() {
                Some(t) => Some(LuaView::Instant(t)),
                None => None,
            },
        );
        let m = and_field(
            m,
            "interval_ms"@,
            match self.event.interval_ms() {
                Some(ms) => Some(LuaView::Count(ms as u64)),
                None => None,
            },
        );
        let m = and_field(
            m,
            "tags"@,
            match unless_empty(self.event.first_attrs()) {
                Some(_) => Some(tags),
                None => None,
            },
        );
        let m = m.push(("kind"@, LuaView::Text(kind_name(self.kind()))));
        m.push(lua_data(self.seen()))
    }
}

/// A metric that is handed to a script.
#[derive(Debug)]
pub struct LuaMetric {
    pub otel: OtelMetric,
    /// Whether each tag is a sequence of texts.
    pub multi_value_tags: bool,
}

impl LuaMetric {
    /// The table that the metric is. `shown` gives the text of a double.
    pub fn to_table<F: Fn(u64) -> String>(&self, shown: F) -> (r: LuaData)
        requires
            forall|b: u64| call_requires(shown, (b,)),
        ensures
            forall|text: spec_fn(u64) -> Seq<char>| #[trigger]
                attrs_shown(shown, self.otel@.event.first_attrs(), text) ==> r@ == LuaView::Table(
                    self.otel@.lua(self.multi_value_tags, text),
                ),
            exists|spelled: Seq<(Seq<char>, AnyView)>|
                r@ == LuaView::Table(
                    self.otel@.lua_with(
                        #[trigger] lua_tags(spelled, self.multi_value_tags, no_text()),
                    ),
                ) && are_tags_spelled(
                    shown,
                    self.multi_value_tags,
                    self.otel@.event.first_attrs(),
                    spelled,
                ),
    {
        let ghost mut spelled = Seq::<(Seq<char>, AnyView)>::empty();
        let otel = &self.otel;
        let mut m = empty_table();
        raw_set(&mut m, "name", LuaData::Text(otel.event.name().to_owned()));
        assert(lua_fields(m@) =~= seq![("name"@, LuaView::Text(otel@.event.metric.name))]);
        if let Some(ns) = otel.event.namespace() {
            raw_set(&mut m, "namespace", LuaData::Text(ns.to_owned()));
        }
        if let Some(ts) = otel.event.timestamp() {
            raw_set(&mut m, "timestamp", LuaData::Instant(ts));
        }
        if let Some(i) = otel.event.interval_ms() {
            raw_set(&mut m, "interval_ms", LuaData::Count(i as u64));
        }
        if let Some(attrs) = otel.tags() {
            let table = tags_to_lua(&attrs, self.multi_value_tags, &shown);
            proof {
                spelled = choose|spelled: Seq<(Seq<char>, AnyView)>|
                    table@ == #[trigger] lua_tags(spelled, self.multi_value_tags, no_text())
                        && are_tags_spelled(shown, self.multi_value_tags, attrs@, spelled);
            }
            raw_set(&mut m, "tags", table);
        }
        let kind = match otel.kind() {
            MetricKind::Absolute => "absolute",
            MetricKind::Incremental => "incremental",
        };
        raw_set(&mut m, "kind", LuaData::Text(kind.to_owned()));
        put_data(&mut m, otel.view_data());
        assert(lua_fields(m@) == otel@.lua_with(
            lua_tags(spelled, self.multi_value_tags, no_text()),
        ));
        table(m)
    }
}

/// A tag in a table.
#[derive(Debug)]
pub enum LuaTag {
    Text(String),
    List(Vec<String>),
    Nil,
    /// Any other value, with its text.
    Other(String),
}

/// The attribute value that a tag in a table gives.
pub open spec fn tag_given(tag: LuaTag) -> Option<AnyView> {
    match tag {
        LuaTag::Text(s) => Some(AnyView::Str(s@)),
        LuaTag::List(texts) => Some(
            AnyView::Array(Seq::new(texts@.len(), |i: int| AnyView::Str(texts@[i]@))),
        ),
        LuaTag::Nil => None,
        LuaTag::Other(s) => Some(AnyView::Str(s@)),
    }
}

/// The attributes that tags in a table give.
pub open spec fn tags_given(tags: Seq<(String, LuaTag)>) -> Seq<(Seq<char>, AnyView)>
    decreases tags.len(),
{
    if tags.len() == 0 {
        Seq::empty()
    } else {
        let before = tags_given(tags.drop_last());
        match tag_given(tags.last().1) {
            Some(v) => with_entry(before, tags.last().0@, v),
            None => before,
        }
    }
}

fn list_value(texts: &Vec<String>) -> (r: AnyValue)
    ensures
        r@ == AnyView::Array(Seq::new(texts@.len(), |i: int| AnyView::Str(texts@[i]@))),
{
    let mut values: Vec<AnyValue> = Vec::new();
    let mut i: usize = 0;
    while i < texts.len()
        invariant
            i <= texts@.len(),
            values@.len() == i,
            forall|j: int| 0 <= j < i ==> (#[trigger] values@[j])@ == AnyView::Str(texts@[j]@),
        decreases texts@.len() - i,
    {
        values.push(string_value(texts[i].as_str()));
        i = i + 1;
    }
    let a = ArrayValue { values };
    proof {
        lemma_any_array_view(a);
        assert(values_view(a.values@) =~= Seq::new(
            texts@.len(),
            |i: int| AnyView::Str(texts@[i]@),
        ));
    }
    AnyValue { value: Some(OtelValueKind::ArrayValue(a)) }
}

/// The attributes that tags in a table give.
pub fn attributes_from_lua(tags: &Vec<(String, LuaTag)>) -> (r: OtelAttributes)
    ensures
        r@ == tags_given(tags@),
{
    let mut attrs = OtelAttributes::new();
    let ghost all = tags@;
    assert(all.take(0) =~= Seq::empty());
    let mut i: usize = 0;
    while i < tags.len()
        invariant
            i <= tags@.len(),
            all == tags@,
            attrs@ == tags_given(all.take(i as int)),
        decreases tags@.len() - i,
    {
        assert(all.take(i + 1).drop_last() =~= all.take(i as int));
        match &tags[i].1 {
            LuaTag::Text(s) | LuaTag::Other(s) => {
                attrs.insert(tags[i].0.clone(), string_value(s.as_str()));
            },
            LuaTag::List(texts) => {
                attrs.insert(tags[i].0.clone(), list_value(texts));
            },
            LuaTag::Nil => {},
        }
        i = i + 1;
    }
    assert(all.take(i as int) =~= all);
    attrs
}

/// The kind of metric that a text names.
pub fn kind_from_lua(text: Option<&str>) -> (r: Result<MetricKind, LuaMetricError>)
    ensures
        match r {
            Ok(kind) => text is Some && text->0@ == kind_name(kind),
            Err(e) => e == LuaMetricError::Kind && (text is None || (text->0@ != "absolute"@
                && text->0@ != "incremental"@)),
        },
{
    match text {
        Some(s) => if str_eq(s, "absolute") {
            Ok(MetricKind::Absolute)
        } else if str_eq(s, "incremental") {
            Ok(MetricKind::Incremental)
        } else {
            Err(LuaMetricError::Kind)
        },
        None => Err(LuaMetricError::Kind),
    }
}

/// The fields of a table that is to become a metric.
#[derive(Debug)]
pub struct LuaFields {
    pub name: String,
    pub timestamp: Option<Timestamp>,
    pub interval_ms: Option<u32>,
    pub namespace: Option<String>,
    pub tags: Option<Vec<(String, LuaTag)>>,
    pub kind: Option<MetricKind>,
    pub counter: Option<u64>,
    pub gauge: Option<u64>,
    pub set: Option<Vec<String>>,
    /// The values and how often each was measured.
    pub distribution: Option<(Vec<u64>, Vec<u32>)>,
    /// The bounds, the counts and the sum.
    pub aggregated_histogram: Option<(Vec<u64>, Vec<u64>, u64)>,
    /// The quantiles, their values, the count and the sum.
    pub aggregated_summary: Option<(Vec<u64>, Vec<u64>, u64, u64)>,
}

/// Why a value of a script is no metric.
#[derive(Clone, Copy, Debug, PartialEq, Eq, Structural)]
pub enum LuaMetricError {
    Kind,
    NotATable,
    NoValue,
    NoTags,
}

impl LuaMetricError {
    pub fn text(&self) -> (r: &'static str)
        ensures
            r@ == match self {
                LuaMetricError::Kind =>
                    "Metric kind should be either \"incremental\" or \"absolute\""@,
                LuaMetricError::NotATable => "Metric should be a Lua table"@,
                LuaMetricError::NoValue =>
                    "Cannot find metric value, expected presence one of \"counter\", \"gauge\", \"set\", \"distribution\", \"aggregated_histogram\", \"aggregated_summary\""@,
                LuaMetricError::NoTags => "Expected a table for metric tags"@,
            },
    {
        match self {
            LuaMetricError::Kind => "Metric kind should be either \"incremental\" or \"absolute\"",
            LuaMetricError::NotATable => "Metric should be a Lua table",
            LuaMetricError::NoValue =>
                "Cannot find metric value, expected presence one of \"counter\", \"gauge\", \"set\", \"distribution\", \"aggregated_histogram\", \"aggregated_summary\"",
            LuaMetricError::NoTags => "Expected a table for metric tags",
        }
    }
}

/// The number of items that two lists have in common.
pub open spec fn shorter(a: nat, b: nat) -> nat {
    if a < b {
        a
    } else {
        b
    }
}

/// The samples that values and rates give, as far as there are both.
pub open spec fn zipped_samples(values: Seq<u64>, rates: Seq<u32>) -> Seq<Sample> {
    Seq::new(
        shorter(values.len(), rates.len()),
        |i: int| Sample { value: values[i], rate: rates[i] },
    )
}

/// The quantiles that positions and values give, as far as there are both.
pub open spec fn zipped_quantiles(quantiles: Seq<u64>, values: Seq<u64>) -> Seq<Quantile> {
    Seq::new(
        shorter(quantiles.len(), values.len()),
        |i: int| Quantile { quantile: quantiles[i], value: values[i] },
    )
}

/// The sum of counts.
pub open spec fn total_count(counts: Seq<u64>) -> nat
    decreases counts.len(),
{
    if counts.len() == 0 {
        0
    } else {
        total_count(counts.drop_last()) + counts.last() as nat
    }
}

proof fn lemma_total_count(counts: Seq<u64>, i: int)
    requires
        0 <= i < counts.len(),
    ensures
        total_count(counts.take(i + 1)) == total_count(counts.take(i)) + counts[i],
        total_count(counts.take(i + 1)) <= total_count(counts),
    decreases counts.len(),
{
    assert(counts.take(i + 1).drop_last() =~= counts.take(i));
    if i + 1 < counts.len() {
        lemma_total_count(counts.drop_last(), i);
        assert(counts.drop_last().take(i + 1) =~= counts.take(i + 1));
    } else {
        assert(counts.take(i + 1) =~= counts);
    }
}

fn count_all(counts: &Vec<u64>) -> (r: u64)
    requires
        total_count(counts@) <= u64::MAX,
    ensures
        r == total_count(counts@),
{
    let mut sum: u64 = 0;
    let mut i: usize = 0;
    assert(counts@.take(0) =~= Seq::empty());
    while i < counts.len()
        invariant
            i <= counts@.len(),
            sum == total_count(counts@.take(i as int)),
            total_count(counts@) <= u64::MAX,
        decreases counts@.len() - i,
    {
        proof {
            lemma_total_count(counts@, i as int);
        }
        sum = sum + counts[i];
        i = i + 1;
    }
    assert(counts@.take(i as int) =~= counts@);
    sum
}

proof fn lemma_attrs_keep_metadata(e: OtelMetricView, attrs: Seq<(Seq<char>, AnyView)>)
    ensures
        e.with_attrs(attrs).metadata == e.metadata,
    decreases attrs.len(),
{
    if attrs.len() > 0 {
        lemma_attrs_keep_metadata(e, attrs.drop_last());
    }
}

impl LuaFields {
    /// The kind of the metric, absolute where it is not given.
    pub open spec fn kind_given(&self) -> MetricKind {
        match self.kind {
            Some(k) => k,
            None => MetricKind::Absolute,
        }
    }

    /// Whether the counts that are to be summed up can be.
    pub open spec fn fits(&self) -> bool {
        &&& match self.distribution {
            Some(d) => total_rate(zipped_samples(d.0@, d.1@)) <= u32::MAX,
            None => true,
        }
        &&& match self.aggregated_histogram {
            Some(h) => total_count(h.1@) <= u64::MAX,
            None => true,
        }
    }

    /// The metric with only a name and a value: the first of those that are given.
    pub open spec fn value_given(
        &self,
        metadata: MetadataView,
        total: spec_fn(Seq<Sample>) -> u64,
    ) -> Option<MetricEventView> {
        let kind = self.kind_given();
        let name = self.name@;
        if let Some(value) = self.counter {
            Some(
                plain(
                    OtelMetricView::of_metric(
                        named(name, counter_data(kind.as_temporality(), double_point(value))),
                        metadata,
                    ),
                ),
            )
        } else if let Some(value) = self.gauge {
            let gauge = plain(OtelMetricView::of_gauge(name, value, metadata));
            Some(
                match kind {
                    MetricKind::Absolute => gauge,
                    MetricKind::Incremental => MetricEventView {
                        kind_override: Some(MetricKind::Incremental),
                        ..gauge
                    },
                },
            )
        } else if let Some(values) = self.set {
            Some(
                MetricEventView {
                    event: OtelMetricView::of_gauge(
                        name,
                        double_of_nat(keys_of(views(values@)).len()) as u64,
                        metadata,
                    ),
                    set_values: Some(keys_of(views(values@))),
                    kind_override: Some(kind),
                },
            )
        } else if let Some(d) = self.distribution {
            let samples = zipped_samples(d.0@, d.1@);
            Some(
                plain(
                    OtelMetricView::of_metric(
                        named(
                            name,
                            histogram_data(
                                kind.as_temporality(),
                                plain_histogram(
                                    total_rate(samples) as u64,
                                    total(samples),
                                    rates_of(samples),
                                    values_of(samples),
                                ),
                            ),
                        ),
                        metadata,
                    ),
                ),
            )
        } else if let Some(h) = self.aggregated_histogram {
            let n = shorter(h.0@.len(), h.1@.len()) as int;
            Some(
                plain(
                    OtelMetricView::of_metric(
                        named(
                            name,
                            histogram_data(
                                kind.as_temporality(),
                                plain_histogram(
                                    total_count(h.1@) as u64,
                                    h.2,
                                    h.1@.take(n),
                                    h.0@.take(n),
                                ),
                            ),
                        ),
                        metadata,
                    ),
                ),
            )
        } else if let Some(s) = self.aggregated_summary {
            Some(
                plain(
                    OtelMetricView::of_metric(
                        named(
                            name,
                            summary_data(
                                SummaryDataPointView {
                                    count: s.2,
                                    sum: s.3,
                                    quantile_values: quantile_values(zipped_quantiles(s.0@, s.1@)),
                                    ..SummaryDataPointView::default_view()
                                },
                            ),
                        ),
                        metadata,
                    ),
                ),
            )
        } else {
            None
        }
    }

    /// A metric with the namespace, the tags and the times that are given.
    pub open spec fn completed(&self, m: MetricEventView) -> MetricEventView {
        let e = match self.namespace {
            Some(ns) => m.event.with_resource_attribute("metric.namespace"@, AnyView::Str(ns@)),
            None => m.event,
        };
        let e = match self.tags {
            Some(t) => e.with_attrs(tags_given(t@)),
            None => e,
        };
        let e = e.at(nanos_or_zero(self.timestamp));
        MetricEventView {
            event: match (self.interval_ms, e.metric.data) {
                (Some(ms), Some(d)) => if ms == 0 {
                    e
                } else {
                    e.with_data(d.started((ms * 1_000_000) as u64))
                },
                _ => e,
            },
            ..m
        }
    }

    /// Whether `sum` may give what `total` says of the samples, where they are the value.
    pub open spec fn is_summed<F: Fn(&Vec<Sample>) -> u64>(
        &self,
        sum: F,
        total: spec_fn(Seq<Sample>) -> u64,
    ) -> bool {
        self.counter is None && self.gauge is None && self.set is None ==> (
        self.distribution matches Some(d) ==> total_drawn(
            sum,
            zipped_samples(d.0@, d.1@),
            total,
        ))
    }

    fn value_metric<F: Fn(&Vec<Sample>) -> u64>(&self, sum: F) -> (r: Option<OtelMetric>)
        requires
            self.fits(),
            forall|s: &Vec<Sample>| call_requires(sum, (s,)),
        ensures
            r is None <==> (self.counter is None && self.gauge is None && self.set is None
                && self.distribution is None && self.aggregated_histogram is None
                && self.aggregated_summary is None),
            r matches Some(m) ==> m@.event.metadata.is_default(),
            r matches Some(m) ==> exists|total: spec_fn(Seq<Sample>) -> u64| #[trigger]
                self.value_given(m@.event.metadata, total) == Some(m@) && self.is_summed(sum, total),
    {
        let ghost mut drawn: u64 = 0;
        let name = self.name.clone();
        let kind = match self.kind {
            Some(k) => k,
            None => MetricKind::Absolute,
        };
        let r = if let Some(value) = self.counter {
            Some(OtelMetric::new_counter(name, kind, value))
        } else if let Some(value) = self.gauge {
            Some(
                match kind {
                    MetricKind::Absolute => OtelMetric::new_gauge(name, value),
                    MetricKind::Incremental => OtelMetric::new_gauge_delta(name, value),
                },
            )
        } else if let Some(values) = &self.set {
            Some(OtelMetric::new_set_from_values(name, kind, values))
        } else if let Some(d) = &self.distribution {
            let samples = zip_samples(&d.0, &d.1);
            assert(samples@ =~= zipped_samples(d.0@, d.1@));
            let m = OtelMetric::new_histogram_from_samples(name, kind, &samples, sum);
            proof {
                drawn = choose|total: u64|
                    #[trigger] call_ensures(sum, (&samples,), total) && m@.event
                        == OtelMetricView::of_samples(
                        self.name@,
                        kind,
                        samples@,
                        total,
                        m@.event.metadata,
                    );
                assert(call_ensures(sum, (&samples,), total_of(drawn)(samples@)));
            }
            Some(m)
        } else if let Some(h) = &self.aggregated_histogram {
            let buckets = zip_buckets(&h.0, &h.1);
            let ghost n = shorter(h.0@.len(), h.1@.len()) as int;
            assert(counts_of(buckets@) =~= h.1@.take(n));
            assert(limits_of(buckets@) =~= h.0@.take(n));
            let count = count_all(&h.1);
            Some(OtelMetric::new_histogram(name, kind, &buckets, count, h.2))
        } else if let Some(s) = &self.aggregated_summary {
            let quantiles = zip_quantiles(&s.0, &s.1);
            assert(quantiles@ =~= zipped_quantiles(s.0@, s.1@));
            Some(OtelMetric::new_summary(name, &quantiles, s.2, s.3))
        } else {
            None
        };
        assert(r matches Some(m) ==> self.value_given(m@.event.metadata, total_of(drawn)) == Some(
            m@,
        ));
        r
    }

    /// The metric that the fields give. `sum` sums up the values of samples, each as often as it was
    /// measured.
    pub fn into_metric<F: Fn(&Vec<Sample>) -> u64>(&self, sum: F) -> (r: Result<
        OtelMetric,
        LuaMetricError,
    >)
        requires
            self.fits(),
            forall|s: &Vec<Sample>| call_requires(sum, (s,)),
        ensures
            r is Err <==> (self.counter is None && self.gauge is None && self.set is None
                && self.distribution is None && self.aggregated_histogram is None
                && self.aggregated_summary is None),
            r matches Err(e) ==> e == LuaMetricError::NoValue,
            r matches Ok(m) ==> m@.event.metadata.is_default() && exists|
                total: spec_fn(Seq<Sample>) -> u64,
            |
                m@ == self.completed((#[trigger] self.value_given(m@.event.metadata, total))->0)
                    && self.is_summed(sum, total),
    {
        match self.value_metric(sum) {
            Some(m) => {
                let namespace = match &self.namespace {
                    Some(ns) => Some(ns.as_str()),
                    None => None,
                };
                let tags = match &self.tags {
                    Some(t) => Some(attributes_from_lua(t)),
                    None => None,
                };
                let interval = match self.interval_ms {
                    Some(ms) => if ms == 0 {
                        None
                    } else {
                        Some(ms)
                    },
                    None => None,
                };
                let m = m.with_namespace(namespace);
                proof {
                    if tags is Some {
                        lemma_attrs_keep_metadata(m@.event, tags->0@);
                    }
                }
                Ok(
                    m.with_tags(tags).with_timestamp(
                        self.timestamp,
                    ).with_interval_ms(interval),
                )
            },
            None => Err(LuaMetricError::NoValue),
        }
    }
}

} // verus!
