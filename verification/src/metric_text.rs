//! Metrics in words.
use vstd::prelude::*;

use crate::any_value::{lemma_any_array_view, AnyValue, AnyView, OtelValueKind};
use crate::attributes::OtelAttributes;
use crate::keyed::{opt_view, views};
use crate::metric::{OtelMetric, OtelMetricView};
use crate::metric_data::{MetricValue, MetricValueView};
use crate::metric_kind::MetricKind;
use crate::metric_ops::{find_last_text, single_of};
use crate::metric_tags::{otel_value_to_tag_string, tag_text, top_drawn, MetricTags, TagValue};
use crate::otel_metric::{seen_drawn, seen_text};
use crate::series::{tags_or_none, MetricIdentity};
use crate::text::{joined_text, quoted, quoted_text};
use crate::time::{instant_words, Timestamp};

verus! {

/// A tag in words: its name, and its value behind an equals sign.
pub open spec fn tag_words(tag: (Seq<char>, Option<Seq<char>>)) -> Seq<char> {
    match tag.1 {
        Some(value) => tag.0 + "="@ + value,
        None => tag.0,
    }
}

/// Tags in words, with commas between them.
pub open spec fn tags_words(tags: Seq<(Seq<char>, Option<Seq<char>>)>) -> Seq<char>
    decreases tags.len(),
{
    if tags.len() == 0 {
        Seq::empty()
    } else if tags.len() == 1 {
        tag_words(tags[0])
    } else {
        tags_words(tags.drop_last()) + ","@ + tag_words(tags.last())
    }
}

/// What tells a metric apart, in words: the namespace, the name, and the tags in braces.
pub open spec fn identity_words(
    namespace: Option<Seq<char>>,
    name: Seq<char>,
    tags: Seq<(Seq<char>, Option<Seq<char>>)>,
) -> Seq<char> {
    let full_name = match namespace {
        Some(ns) => ns + "_"@ + name,
        None => name,
    };
    full_name + "{"@ + tags_words(tags) + "}"@
}

/// The time of a metric in words.
pub open spec fn time_words(t: Option<Timestamp>) -> Option<Seq<char>> {
    match t {
        Some(t) => Some(instant_words(t.spec_secs(), t.spec_nanos())),
        None => None,
    }
}

/// A metric in words: its time, what tells it apart, the sign of its kind, and its value.
pub open spec fn metric_words(
    time: Option<Seq<char>>,
    identity: Seq<char>,
    kind: MetricKind,
    value: Seq<char>,
) -> Seq<char> {
    let start = match time {
        Some(t) => t + " "@ + identity,
        None => identity,
    };
    start + (if kind == MetricKind::Absolute {
        " = "@
    } else {
        " + "@
    }) + value
}

/// The single value of a tag in quotes, where `text` is the text of a double. A bare tag has none, a
/// list gives its last text.
pub open spec fn single_words(v: AnyView, text: spec_fn(u64) -> Seq<char>) -> Option<Seq<char>> {
    if v is Empty {
        None
    } else {
        Some(quoted(tag_text(single_of(v), text)))
    }
}

/// Whether this is a tag with its single value, where `shown` shows a double.
pub open spec fn is_single_tag<F: Fn(u64) -> String>(
    shown: F,
    tag: (Seq<char>, AnyView),
    words: (Seq<char>, Option<Seq<char>>),
) -> bool {
    &&& words.0 == tag.0
    &&& exists|text: spec_fn(u64) -> Seq<char>|
        words.1 == #[trigger] single_words(tag.1, text) && top_drawn(shown, single_of(tag.1), text)
}

/// Whether these are the tags that attributes are, each with its single value, where `shown` shows a
/// double.
pub open spec fn are_single_tags<F: Fn(u64) -> String>(
    shown: F,
    attrs: Seq<(Seq<char>, AnyView)>,
    words: Seq<(Seq<char>, Option<Seq<char>>)>,
) -> bool {
    &&& words.len() == attrs.len()
    &&& forall|i: int|
        0 <= i < attrs.len() ==> is_single_tag(shown, attrs[i], #[trigger] words[i])
}

/// The last text among the values of a tag.
pub open spec fn last_value(values: Seq<Option<Seq<char>>>) -> Option<Seq<char>>
    decreases values.len(),
{
    if values.len() == 0 {
        None
    } else {
        match values.last() {
            Some(s) => Some(s),
            None => last_value(values.drop_last()),
        }
    }
}

/// The tags that have a text, each with its last one in quotes.
pub open spec fn single_values(tags: Seq<(Seq<char>, Seq<Option<Seq<char>>>)>) -> Seq<
    (Seq<char>, Option<Seq<char>>),
>
    decreases tags.len(),
{
    if tags.len() == 0 {
        Seq::empty()
    } else {
        let before = single_values(tags.drop_last());
        match last_value(tags.last().1) {
            Some(s) => before.push((tags.last().0, Some(quoted(s)))),
            None => before,
        }
    }
}

/// Whether this is the value of a metric, where `power` gives the bound for a scale and an exponent.
pub open spec fn is_metric_value<G: Fn(i32, i32) -> u64>(
    m: OtelMetricView,
    power: G,
    value: MetricValueView,
) -> bool {
    exists|low: spec_fn(i32, i32) -> u64, high: spec_fn(i32, i32) -> u64|
        value == #[trigger] m.signed_value(low, high) && m.is_scaled(power, low, high)
}

/// The tags, none where they are missing.
pub open spec fn or_no_tags(tags: Option<Seq<(Seq<char>, Seq<Option<Seq<char>>>)>>) -> Seq<
    (Seq<char>, Seq<Option<Seq<char>>>),
> {
    match tags {
        Some(t) => t,
        None => Seq::empty(),
    }
}

fn with_tag(words: String, first: bool, key: &str, value: &Option<String>) -> (r: String)
    ensures
        r@ == if first {
            tag_words((key@, opt_view(*value)))
        } else {
            words@ + ","@ + tag_words((key@, opt_view(*value)))
        },
{
    let tag = match value {
        Some(v) => joined_text(joined_text(key, "=").as_str(), v.as_str()),
        None => key.to_owned(),
    };
    if first {
        tag
    } else {
        joined_text(joined_text(words.as_str(), ",").as_str(), tag.as_str())
    }
}

fn single_text<F: Fn(u64) -> String>(v: &AnyValue, shown: &F) -> (r: Option<String>)
    requires
        forall|b: u64| call_requires(*shown, (b,)),
    ensures
        exists|text: spec_fn(u64) -> Seq<char>|
            opt_view(r) == #[trigger] single_words(v@, text) && top_drawn(
                *shown,
                single_of(v@),
                text,
            ),
{
    let ghost any = |b: u64| Seq::<char>::empty();
    match &v.value {
        Some(OtelValueKind::ArrayValue(a)) => {
            proof {
                lemma_any_array_view(*a);
            }
            let r = match find_last_text(&a.values) {
                Some(s) => Some(quoted_text(s.as_str())),
                None => Some(quoted_text("<array>")),
            };
            assert(opt_view(r) == single_words(v@, any));
            r
        },
        Some(kind) => {
            let s = otel_value_to_tag_string(kind, shown);
            let r = Some(quoted_text(s.as_str()));
            proof {
                let text = choose|text: spec_fn(u64) -> Seq<char>|
                    s@ == #[trigger] tag_text((AnyValue { value: Some(*kind) })@, text) && top_drawn(
                        *shown,
                        (AnyValue { value: Some(*kind) })@,
                        text,
                    );
                assert(opt_view(r) == single_words(v@, text));
            }
            r
        },
        None => {
            assert(single_words(v@, any) is None);
            None
        },
    }
}

fn attrs_text<F: Fn(u64) -> String>(attrs: &OtelAttributes, shown: &F) -> (r: String)
    requires
        forall|b: u64| call_requires(*shown, (b,)),
    ensures
        exists|words: Seq<(Seq<char>, Option<Seq<char>>)>|
            r@ == #[trigger] tags_words(words) && are_single_tags(*shown, attrs@, words),
{
    let ghost mut words = Seq::<(Seq<char>, Option<Seq<char>>)>::empty();
    let mut r = String::new();
    let mut i: usize = 0;
    while i < attrs.inner.entries.len()
        invariant
            i <= attrs.inner.entries@.len(),
            words.len() == i,
            r@ == tags_words(words),
            forall|b: u64| call_requires(*shown, (b,)),
            forall|j: int| 0 <= j < i ==> is_single_tag(*shown, attrs@[j], #[trigger] words[j]),
        decreases attrs.inner.entries@.len() - i,
    {
        let value = single_text(&attrs.inner.entries[i].1, shown);
        let key: &str = attrs.inner.entries[i].0.as_str();
        let ghost before = words;
        r = with_tag(r, i == 0, key, &value);
        proof {
            words = words.push((key@, opt_view(value)));
            assert(words.drop_last() =~= before);
            assert(is_single_tag(*shown, attrs@[i as int], words[i as int]));
        }
        i = i + 1;
    }
    assert(r@ == tags_words(words));
    r
}

fn last_tag_text(values: &Vec<TagValue>) -> (r: Option<&String>)
    ensures
        match r {
            Some(s) => last_value(views(values@)) == Some(s@),
            None => last_value(views(values@)) is None,
        },
{
    let ghost all = views(values@);
    let mut n: usize = values.len();
    assert(all.take(n as int) =~= all);
    while n > 0
        invariant
            n <= values@.len(),
            all == views(values@),
            last_value(all) == last_value(all.take(n as int)),
        decreases n,
    {
        assert(all.take(n as int).drop_last() =~= all.take(n - 1));
        assert(all.take(n as int).last() == values@[n - 1]@);
        if let TagValue::Value(s) = &values[n - 1] {
            return Some(s);
        }
        n = n - 1;
    }
    None
}

fn metric_tags_text(tags: &MetricTags) -> (r: String)
    ensures
        r@ == tags_words(single_values(tags@)),
{
    let ghost all = tags@;
    let mut r = String::new();
    let mut first = true;
    let mut i: usize = 0;
    assert(all.take(0) =~= Seq::empty());
    while i < tags.tags.entries.len()
        invariant
            i <= tags.tags.entries@.len(),
            all == tags@,
            first == (single_values(all.take(i as int)).len() == 0),
            r@ == tags_words(single_values(all.take(i as int))),
        decreases tags.tags.entries@.len() - i,
    {
        assert(all.take(i + 1).drop_last() =~= all.take(i as int));
        let ghost before = single_values(all.take(i as int));
        if let Some(s) = last_tag_text(&tags.tags.entries[i].1.values) {
            let value = Some(quoted_text(s.as_str()));
            r = with_tag(r, first, tags.tags.entries[i].0.as_str(), &value);
            first = false;
            assert(single_values(all.take(i + 1)).drop_last() =~= before);
        }
        i = i + 1;
    }
    assert(all.take(i as int) =~= all);
    r
}

fn identity_text(namespace: Option<&str>, name: &str, tags: &str) -> (r: String)
    ensures
        r@ == (match namespace {
            Some(ns) => ns@ + "_"@ + name@,
            None => name@,
        }) + "{"@ + tags@ + "}"@,
{
    let full_name = match namespace {
        Some(ns) => joined_text(joined_text(ns, "_").as_str(), name),
        None => name.to_owned(),
    };
    let opened = joined_text(full_name.as_str(), "{");
    let filled = joined_text(opened.as_str(), tags);
    joined_text(filled.as_str(), "}")
}

fn metric_text(time: Option<Timestamp>, identity: &str, kind: MetricKind, value: &str) -> (r: String)
    ensures
        r@ == metric_words(time_words(time), identity@, kind, value@),
{
    let start = match time {
        Some(t) => joined_text(joined_text(t.words().as_str(), " ").as_str(), identity),
        None => identity.to_owned(),
    };
    let sign = match kind {
        MetricKind::Absolute => " = ",
        MetricKind::Incremental => " + ",
    };
    joined_text(joined_text(start.as_str(), sign).as_str(), value)
}

impl MetricIdentity {
    /// The identity in words: the namespace, the name, and each tag with its single value. `shown`
    /// shows a double.
    pub fn text<F: Fn(u64) -> String>(&self, shown: F) -> (r: String)
        requires
            forall|b: u64| call_requires(shown, (b,)),
        ensures
            exists|words: Seq<(Seq<char>, Option<Seq<char>>)>|
                r@ == #[trigger] identity_words(self@.namespace, self@.name, words)
                    && are_single_tags(shown, tags_or_none(self@.tags), words),
    {
        let namespace = match &self.namespace {
            Some(ns) => Some(ns.as_str()),
            None => None,
        };
        let none = OtelAttributes::new();
        let attrs = match &self.tags {
            Some(t) => t,
            None => &none,
        };
        let tags = attrs_text(attrs, &shown);
        let r = identity_text(namespace, self.name.as_str(), tags.as_str());
        proof {
            let words = choose|words: Seq<(Seq<char>, Option<Seq<char>>)>|
                tags@ == #[trigger] tags_words(words) && are_single_tags(shown, attrs@, words);
            assert(r@ == identity_words(self@.namespace, self@.name, words));
        }
        r
    }
}

impl OtelMetric {
    /// The metric in words: `TIMESTAMP NAMESPACE_NAME{TAGS} KIND VALUE`. `shown` shows a double,
    /// `power` gives the bound for a scale and an exponent, and `show` shows a metric value.
    pub fn text<F: Fn(u64) -> String, G: Fn(i32, i32) -> u64, H: Fn(&MetricValue) -> String>(
        &self,
        shown: F,
        power: G,
        show: H,
    ) -> (r: String)
        requires
            forall|b: u64| call_requires(shown, (b,)),
            forall|s: i32, e: i32| call_requires(power, (s, e)),
            forall|v: &MetricValue| call_requires(show, (v,)),
            self@.has_bounds(),
        ensures
            exists|
                tags: Option<Seq<(Seq<char>, Seq<Option<Seq<char>>>)>>,
                value: &MetricValue,
                words: String,
            |
                #[trigger] self@.are_tags(shown, tags) && is_metric_value(
                    self@,
                    power,
                    value@,
                ) && #[trigger] call_ensures(show, (value,), words) && r@ == metric_words(
                    time_words(self@.timestamp()),
                    identity_words(
                        self@.namespace(),
                        self@.metric.name,
                        single_values(or_no_tags(tags)),
                    ),
                    self@.kind(),
                    words@,
                ),
    {
        let tags = self.tags(shown);
        let list = match &tags {
            Some(t) => metric_tags_text(t),
            None => String::new(),
        };
        let (kind, value, timestamp) = self.extract_metric_data(power);
        let identity = identity_text(self.namespace(), self.name(), list.as_str());
        let words = show(&value);
        assert(self@.are_tags(shown, opt_view(tags)));
        assert(call_ensures(show, (&value,), words));
        metric_text(timestamp, identity.as_str(), kind, words.as_str())
    }
}

impl crate::otel_metric::OtelMetric {
    /// The metric in words: `TIMESTAMP NAMESPACE_NAME{TAGS} KIND VALUE`. `shown` shows a double.
    pub fn text<F: Fn(u64) -> String + Copy>(&self, shown: F) -> (r: String)
        requires
            forall|b: u64| call_requires(shown, (b,)),
        ensures
            exists|
                words: Seq<(Seq<char>, Option<Seq<char>>)>,
                text: spec_fn(u64) -> Seq<char>,
            |
                #[trigger] are_single_tags(shown, self@.event.first_attrs(), words) && r@
                    == metric_words(
                    time_words(self@.event.timestamp()),
                    identity_words(self@.event.namespace(), self@.event.metric.name, words),
                    self@.kind(),
                    #[trigger] seen_text(self@.seen(), text),
                ) && seen_drawn(shown, self@.seen(), text),
    {
        let none = OtelAttributes::new();
        let tags = self.tags();
        let attrs = match &tags {
            Some(t) => t,
            None => &none,
        };
        assert(attrs@ =~= self@.event.first_attrs());
        let list = attrs_text(attrs, &shown);
        let identity = identity_text(self.namespace(), self.name(), list.as_str());
        let value = self.view_data().text(shown);
        let r = metric_text(self.timestamp(), identity.as_str(), self.kind(), value.as_str());
        proof {
            let words = choose|words: Seq<(Seq<char>, Option<Seq<char>>)>|
                list@ == #[trigger] tags_words(words) && are_single_tags(shown, attrs@, words);
            let text = choose|text: spec_fn(u64) -> Seq<char>|
                value@ == #[trigger] seen_text(self@.seen(), text) && seen_drawn(
                    shown,
                    self@.seen(),
                    text,
                );
            assert(are_single_tags(shown, self@.event.first_attrs(), words));
            assert(value@ == seen_text(self@.seen(), text));
        }
        r
    }
}

} // verus!
