//! The tags of a metric event, the series that it belongs to, and how it is changed.
use vstd::prelude::*;

use crate::any_value::{
    lemma_any_array_view, string_value, values_view, AnyValue, AnyView, OtelValueKind,
};
use crate::attributes::OtelAttributes;
use crate::double::double_from_i64;
use crate::keyed::{opt_view, value_of, views, with_entry};
use crate::map_laws::lemma_found_entry;
use crate::metadata::EventMetadata;
use crate::metric::{points_with, points_without, OtelMetric, OtelMetricView};
use crate::metric_data::{
    MetricData, MetricDataView, MetricName, MetricSeries, MetricSeriesView, MetricTime,
};
use crate::metric_kind::{CUMULATIVE, DELTA, MetricKind};
use crate::metric_read::{first_text, instant_from, number_as_double, scales};
use crate::metric_tags::{
    any_from_tag_values, are_spelled, attrs_shown, is_spelled, is_spelled_out, no_text,
    otel_value_to_tag_string, tag_set_to_any, tag_text, tags_with, top_drawn, value_shown,
    values_collected, values_shown, MetricTags, TagValue,
};
use crate::otlp::{InstrumentationScope, ScopeView};
use crate::otlp_metric::{
    Data, DataView, ExponentialHistogramView, GaugeView, HistogramView, MetricMessageView,
    NumberDataPoint, NumberDataPointView, NumberValue, SumView,
};
use crate::text::{begins_with, joined_text, str_eq, strip_text};
use crate::time::{epoch_nanos, to_u64, wrap_u64, Timestamp};

verus! {

/// The tags after those of the attributes of a resource were added: each under its name after
/// `resource.`, but for the one that names the namespace.
pub open spec fn resource_tags(
    tags: Seq<(Seq<char>, Seq<Option<Seq<char>>>)>,
    attrs: Seq<(Seq<char>, AnyView)>,
    text: spec_fn(u64) -> Seq<char>,
) -> Seq<(Seq<char>, Seq<Option<Seq<char>>>)>
    decreases attrs.len(),
{
    if attrs.len() == 0 {
        tags
    } else {
        let before = resource_tags(tags, attrs.drop_last(), text);
        let (key, v) = attrs.last();
        if key == "metric.namespace"@ || v is Empty {
            before
        } else {
            tags_with(before, "resource."@ + key, Some(tag_text(v, text)))
        }
    }
}

/// The tags after the name and the version of a scope were added.
pub open spec fn scope_tags(
    tags: Seq<(Seq<char>, Seq<Option<Seq<char>>>)>,
    scope: Option<ScopeView>,
) -> Seq<(Seq<char>, Seq<Option<Seq<char>>>)> {
    match scope {
        Some(s) => {
            let named = if s.name.len() == 0 {
                tags
            } else {
                tags_with(tags, "scope.name"@, Some(s.name))
            };
            if s.version.len() == 0 {
                named
            } else {
                tags_with(named, "scope.version"@, Some(s.version))
            }
        },
        None => tags,
    }
}

/// The values of a tag that a list of attribute values gives.
pub open spec fn listed_tags(values: Seq<AnyView>, text: spec_fn(u64) -> Seq<char>) -> Seq<
    Option<Seq<char>>,
> {
    Seq::new(
        values.len(),
        |i: int|
            if values[i] is Empty {
                None
            } else {
                Some(tag_text(values[i], text))
            },
    )
}

/// The tags, or nothing where there are none.
pub open spec fn or_none(tags: Seq<(Seq<char>, Seq<Option<Seq<char>>>)>) -> Option<
    Seq<(Seq<char>, Seq<Option<Seq<char>>>)>,
> {
    if tags.len() == 0 {
        None
    } else {
        Some(tags)
    }
}

/// The tags after one of an attribute was added: a list gives several values, an empty value a bare
/// tag.
pub open spec fn tags_with_attribute(
    tags: Seq<(Seq<char>, Seq<Option<Seq<char>>>)>,
    key: Seq<char>,
    v: AnyView,
    text: spec_fn(u64) -> Seq<char>,
) -> Seq<(Seq<char>, Seq<Option<Seq<char>>>)> {
    match v {
        AnyView::Empty => with_entry(tags, key, seq![None]),
        AnyView::Array(a) => with_entry(tags, key, values_collected(listed_tags(a, text))),
        _ => tags_with(tags, key, Some(tag_text(v, text))),
    }
}

/// The tags after those of the attributes of a data point were added, but for the ones that begin
/// with `vector.`.
pub open spec fn point_tags(
    tags: Seq<(Seq<char>, Seq<Option<Seq<char>>>)>,
    attrs: Seq<(Seq<char>, AnyView)>,
    text: spec_fn(u64) -> Seq<char>,
) -> Seq<(Seq<char>, Seq<Option<Seq<char>>>)>
    decreases attrs.len(),
{
    if attrs.len() == 0 {
        tags
    } else {
        let before = point_tags(tags, attrs.drop_last(), text);
        let (key, v) = attrs.last();
        if begins_with(key, "vector."@) {
            before
        } else {
            tags_with_attribute(before, key, v, text)
        }
    }
}

/// Whether these are the attributes of a resource, with texts that `shown` may show in place of
/// doubles that become tags.
pub open spec fn resource_spelled<F: Fn(u64) -> String>(
    shown: F,
    attrs: Seq<(Seq<char>, AnyView)>,
    r: Seq<(Seq<char>, AnyView)>,
) -> bool {
    &&& r.len() == attrs.len()
    &&& forall|i: int|
        0 <= i < attrs.len() ==> (#[trigger] r[i]).0 == attrs[i].0 && if attrs[i].0
            == "metric.namespace"@ {
            r[i].1 == attrs[i].1
        } else {
            is_spelled(shown, attrs[i].1, r[i].1)
        }
}

/// Whether these are the attributes of a data point, with texts that `shown` may show in place of
/// doubles that become tags.
pub open spec fn point_spelled<F: Fn(u64) -> String>(
    shown: F,
    attrs: Seq<(Seq<char>, AnyView)>,
    r: Seq<(Seq<char>, AnyView)>,
) -> bool {
    &&& r.len() == attrs.len()
    &&& forall|i: int|
        0 <= i < attrs.len() ==> (#[trigger] r[i]).0 == attrs[i].0 && if begins_with(
            attrs[i].0,
            "vector."@,
        ) {
            r[i].1 == attrs[i].1
        } else {
            is_spelled_out(shown, attrs[i].1, r[i].1)
        }
}

/// The tags that the attributes of a resource, a scope, and the attributes of a data point give.
pub open spec fn tags_from(
    resource_attrs: Seq<(Seq<char>, AnyView)>,
    scope: Option<ScopeView>,
    point_attrs: Seq<(Seq<char>, AnyView)>,
    text: spec_fn(u64) -> Seq<char>,
) -> Seq<(Seq<char>, Seq<Option<Seq<char>>>)> {
    point_tags(scope_tags(resource_tags(Seq::empty(), resource_attrs, text), scope), point_attrs, text)
}

impl OtelMetricView {
    /// Whether these are the tags of the metric, with texts that `shown` may show for doubles.
    pub open spec fn are_tags<F: Fn(u64) -> String>(
        &self,
        shown: F,
        tags: Option<Seq<(Seq<char>, Seq<Option<Seq<char>>>)>>,
    ) -> bool {
        &&& exists|of_resource: Seq<(Seq<char>, AnyView)>, of_point: Seq<(Seq<char>, AnyView)>|
            or_none(#[trigger] tags_from(of_resource, self.scope, of_point, no_text())) == tags
                && resource_spelled(shown, self.resource_attrs, of_resource) && point_spelled(
                shown,
                self.first_point(),
                of_point,
            )
        &&& forall|text: spec_fn(u64) -> Seq<char>| #[trigger]
            self.tags_shown(shown, text) ==> tags == self.tags(text)
    }

    /// The attributes of the first data point, none where there is none.
    pub open spec fn first_point(&self) -> Seq<(Seq<char>, AnyView)> {
        if self.dp_attrs.len() == 0 {
            Seq::empty()
        } else {
            self.dp_attrs[0]
        }
    }

    /// The tags of the metric: those of the attributes of its resource, of its scope, and of the
    /// attributes of its first data point. `text` is the text of a double.
    pub open spec fn all_tags(&self, text: spec_fn(u64) -> Seq<char>) -> Seq<
        (Seq<char>, Seq<Option<Seq<char>>>),
    > {
        let tags = scope_tags(resource_tags(Seq::empty(), self.resource_attrs, text), self.scope);
        if self.dp_attrs.len() == 0 {
            tags
        } else {
            point_tags(tags, self.dp_attrs[0], text)
        }
    }

    /// Whether `shown` shows each double that becomes a tag as `text` says.
    pub open spec fn tags_shown<F: Fn(u64) -> String>(
        &self,
        shown: F,
        text: spec_fn(u64) -> Seq<char>,
    ) -> bool {
        &&& attrs_shown(shown, self.resource_attrs, text)
        &&& self.dp_attrs.len() > 0 ==> attrs_shown(shown, self.dp_attrs[0], text)
    }

    /// The tags of the metric, or nothing where it has none.
    pub open spec fn tags(&self, text: spec_fn(u64) -> Seq<char>) -> Option<
        Seq<(Seq<char>, Seq<Option<Seq<char>>>)>,
    > {
        if self.all_tags(text).len() == 0 {
            None
        } else {
            Some(self.all_tags(text))
        }
    }

    /// The value of a tag: of the attribute of the first data point, or else of the attribute of
    /// the resource, or else of the scope.
    pub open spec fn tag_value(&self, key: Seq<char>, text: spec_fn(u64) -> Seq<char>) -> Option<
        Seq<char>,
    > {
        let of_point = if self.dp_attrs.len() == 0 {
            None
        } else {
            value_of(self.dp_attrs[0], key)
        };
        let of_resource = if begins_with(key, "resource."@) {
            value_of(self.resource_attrs, key.skip("resource."@.len() as int))
        } else {
            None
        };
        if of_point is Some && !(of_point->0 is Empty) {
            Some(tag_text(of_point->0, text))
        } else if of_resource is Some && !(of_resource->0 is Empty) {
            Some(tag_text(of_resource->0, text))
        } else {
            match self.scope {
                Some(s) => if key == "scope.name"@ && s.name.len() > 0 {
                    Some(s.name)
                } else if key == "scope.version"@ && s.version.len() > 0 {
                    Some(s.version)
                } else {
                    None
                },
                None => None,
            }
        }
    }

    /// The attribute value that is the value of a tag.
    pub open spec fn tag_found(&self, key: Seq<char>) -> Option<AnyView> {
        let of_point = value_of(self.first_point(), key);
        let of_resource = if begins_with(key, "resource."@) {
            value_of(self.resource_attrs, key.skip("resource."@.len() as int))
        } else {
            None
        };
        if of_point is Some && !(of_point->0 is Empty) {
            of_point
        } else {
            of_resource
        }
    }

    /// Whether `shown` may show the value of a tag that is a double as `text` says.
    pub open spec fn tag_drawn<F: Fn(u64) -> String>(
        &self,
        shown: F,
        key: Seq<char>,
        text: spec_fn(u64) -> Seq<char>,
    ) -> bool {
        self.tag_found(key) matches Some(v) ==> top_drawn(shown, v, text)
    }

    /// What tells the metric apart from others.
    pub open spec fn series(&self, text: spec_fn(u64) -> Seq<char>) -> MetricSeriesView {
        MetricSeriesView {
            name: self.metric.name,
            namespace: self.namespace(),
            tags: self.tags(text),
        }
    }

    /// The metric value, with its kind and its time.
    pub open spec fn data(&self, pow: spec_fn(i32, i32) -> u64) -> MetricDataView {
        MetricDataView {
            timestamp: self.timestamp(),
            interval_ms: self.interval_ms(),
            kind: self.kind(),
            value: self.value(pow),
        }
    }
}

/// Whether these are the series and the data of a metric, where `shown` shows a double and `power`
/// gives the bound for a scale and an exponent.
pub open spec fn is_metric_parts<F: Fn(u64) -> String, G: Fn(i32, i32) -> u64>(
    m: OtelMetricView,
    shown: F,
    power: G,
    series: MetricSeriesView,
    data: MetricDataView,
) -> bool {
    &&& series.name == m.metric.name
    &&& series.namespace == m.namespace()
    &&& m.are_tags(shown, series.tags)
    &&& data.timestamp == m.timestamp()
    &&& data.interval_ms == m.interval_ms()
    &&& data.kind == m.kind()
    &&& exists|low: spec_fn(i32, i32) -> u64, high: spec_fn(i32, i32) -> u64|
        data.value == #[trigger] m.signed_value(low, high) && m.is_scaled(power, low, high)
    &&& forall|pow: spec_fn(i32, i32) -> u64| #[trigger] scales(power, pow) ==> data == m.data(pow)
}

/// An attribute value, or its text where it is a double.
spec fn spelled_as(v: AnyView, words: Seq<char>) -> AnyView {
    if v is Double {
        AnyView::Str(words)
    } else {
        v
    }
}

fn add_resource_tags<F: Fn(u64) -> String>(
    tags: &mut MetricTags,
    attrs: &OtelAttributes,
    shown: &F,
)
    requires
        forall|b: u64| call_requires(*shown, (b,)),
    ensures
        forall|text: spec_fn(u64) -> Seq<char>| #[trigger]
            attrs_shown(*shown, attrs@, text) ==> final(tags)@ == resource_tags(
                old(tags)@,
                attrs@,
                text,
            ),
        exists|spelled: Seq<(Seq<char>, AnyView)>|
            final(tags)@ == #[trigger] resource_tags(old(tags)@, spelled, no_text())
                && resource_spelled(*shown, attrs@, spelled),
{
    let ghost mut spelled = Seq::<(Seq<char>, AnyView)>::empty();
    let ghost before = tags@;
    let ghost all = attrs@;
    assert(all.take(0) =~= Seq::empty());
    let mut i: usize = 0;
    while i < attrs.inner.entries.len()
        invariant
            i <= attrs.inner.entries@.len(),
            all == attrs@,
            forall|b: u64| call_requires(*shown, (b,)),
            forall|text: spec_fn(u64) -> Seq<char>| #[trigger]
                attrs_shown(*shown, all, text) ==> tags@ == resource_tags(
                    before,
                    all.take(i as int),
                    text,
                ),
            spelled.len() == i,
            tags@ == resource_tags(before, spelled, no_text()),
            resource_spelled(*shown, all.take(i as int), spelled),
        decreases attrs.inner.entries@.len() - i,
    {
        let ghost was = spelled;
        let ghost mut spell = attrs.inner.entries@[i as int].1@;
        assert(all.take(i + 1).drop_last() =~= all.take(i as int));
        let key: &str = attrs.inner.entries[i].0.as_str();
        let value = &attrs.inner.entries[i].1;
        if !str_eq(key, "metric.namespace") {
            if let Some(v) = &value.value {
                assert(value@ == all[i as int].1);
                let words = otel_value_to_tag_string(v, shown);
                proof {
                    spell = spelled_as(value@, words@);
                }
                tags.insert(joined_text("resource.", key), TagValue::Value(words));
            }
        }
        proof {
            spelled = was.push((all[i as int].0, spell));
            assert(spelled.drop_last() =~= was);
            let done = all.take(i + 1);
            assert forall|j: int| 0 <= j < done.len() implies (#[trigger] spelled[j]).0 == done[j].0
                && if done[j].0 == "metric.namespace"@ {
                spelled[j].1 == done[j].1
            } else {
                is_spelled(*shown, done[j].1, spelled[j].1)
            } by {
                if j < i {
                    assert(was[j].0 == all.take(i as int)[j].0);
                }
            }
        }
        i = i + 1;
    }
    assert(all.take(i as int) =~= all);
    assert(tags@ == resource_tags(before, spelled, no_text()));
}

fn add_scope_tags(tags: &mut MetricTags, scope: &Option<InstrumentationScope>)
    ensures
        final(tags)@ == scope_tags(old(tags)@, opt_view(*scope)),
{
    if let Some(s) = scope {
        if !s.name.as_str().is_empty() {
            tags.insert("scope.name".to_string(), TagValue::Value(s.name.clone()));
        }
        if !s.version.as_str().is_empty() {
            tags.insert("scope.version".to_string(), TagValue::Value(s.version.clone()));
        }
    }
}

/// The values of a tag that a list of attribute values gives.
fn list_tags<F: Fn(u64) -> String>(values: &Vec<AnyValue>, shown: &F) -> (r: Vec<TagValue>)
    requires
        forall|b: u64| call_requires(*shown, (b,)),
    ensures
        forall|text: spec_fn(u64) -> Seq<char>| #[trigger]
            values_shown(*shown, values_view(values@), text) ==> views(r@) == listed_tags(
                values_view(values@),
                text,
            ),
        exists|spelled: Seq<AnyView>|
            views(r@) == #[trigger] listed_tags(spelled, no_text()) && are_spelled(
                *shown,
                values_view(values@),
                spelled,
            ),
{
    let ghost mut spelled = Seq::<AnyView>::empty();
    let ghost all = values_view(values@);
    let mut r: Vec<TagValue> = Vec::new();
    let mut i: usize = 0;
    while i < values.len()
        invariant
            i <= values@.len(),
            all == values_view(values@),
            r@.len() == i,
            forall|b: u64| call_requires(*shown, (b,)),
            forall|text: spec_fn(u64) -> Seq<char>, j: int|
                0 <= j < i && #[trigger] values_shown(*shown, all, text) ==> (#[trigger] r@[j])@
                    == listed_tags(all, text)[j],
            spelled.len() == i,
            forall|j: int|
                0 <= j < i ==> is_spelled(*shown, all[j], #[trigger] spelled[j]) && r@[j]@
                    == listed_tags(spelled, no_text())[j],
        decreases values@.len() - i,
    {
        let ghost was = spelled;
        let ghost mut spell = values@[i as int]@;
        assert(all[i as int] == values@[i as int]@);
        match &values[i].value {
            Some(v) => {
                assert(all[i as int] == (AnyValue { value: Some(*v) })@);
                let words = otel_value_to_tag_string(v, shown);
                proof {
                    spell = spelled_as(spell, words@);
                }
                r.push(TagValue::Value(words));
            },
            None => {
                r.push(TagValue::Bare);
            },
        }
        proof {
            spelled = was.push(spell);
            assert forall|j: int| 0 <= j < i + 1 implies is_spelled(
                *shown,
                all[j],
                #[trigger] spelled[j],
            ) && r@[j]@ == listed_tags(spelled, no_text())[j] by {
                if j < i {
                    assert(spelled[j] == was[j]);
                    assert(is_spelled(*shown, all[j], was[j]) && r@[j]@ == listed_tags(
                        was,
                        no_text(),
                    )[j]);
                }
            }
        }
        i = i + 1;
    }
    proof {
        assert(views(r@) =~= listed_tags(spelled, no_text()));
        assert forall|text: spec_fn(u64) -> Seq<char>| #[trigger] values_shown(
            *shown,
            all,
            text,
        ) implies views(r@) == listed_tags(all, text) by {
            assert(views(r@) =~= listed_tags(all, text));
        }
    }
    r
}

/// Insert an attribute as a metric tag, handling array values as multi-value tags.
/// Empty values are treated as bare tags.
fn insert_otel_attr_as_tag_from_any_value<F: Fn(u64) -> String>(
    tags: &mut MetricTags,
    key: &str,
    av: &AnyValue,
    shown: &F,
)
    requires
        forall|b: u64| call_requires(*shown, (b,)),
    ensures
        forall|text: spec_fn(u64) -> Seq<char>| #[trigger]
            value_shown(*shown, av@, text) ==> final(tags)@ == tags_with_attribute(
                old(tags)@,
                key@,
                av@,
                text,
            ),
        exists|spelled: AnyView|
            final(tags)@ == #[trigger] tags_with_attribute(old(tags)@, key@, spelled, no_text())
                && is_spelled_out(*shown, av@, spelled),
{
    let ghost before = tags@;
    match &av.value {
        Some(OtelValueKind::ArrayValue(arr)) => {
            proof {
                lemma_any_array_view(*arr);
            }
            let list = list_tags(&arr.values, shown);
            tags.set_multi_value(key.to_owned(), list);
            proof {
                let spelled = choose|spelled: Seq<AnyView>|
                    views(list@) == #[trigger] listed_tags(spelled, no_text()) && are_spelled(
                        *shown,
                        values_view(arr.values@),
                        spelled,
                    );
                assert(tags@ == tags_with_attribute(
                    before,
                    key@,
                    AnyView::Array(spelled),
                    no_text(),
                ));
            }
        },
        Some(v) => {
            let words = otel_value_to_tag_string(v, shown);
            let ghost spelled = spelled_as(av@, words@);
            tags.insert(key.to_owned(), TagValue::Value(words));
            assert(tags@ == tags_with_attribute(before, key@, spelled, no_text()));
        },
        None => {
            tags.replace(key.to_owned(), TagValue::Bare);
            assert(tags@ == tags_with_attribute(before, key@, av@, no_text()));
        },
    }
}

fn add_point_tags<F: Fn(u64) -> String>(tags: &mut MetricTags, attrs: &OtelAttributes, shown: &F)
    requires
        forall|b: u64| call_requires(*shown, (b,)),
    ensures
        forall|text: spec_fn(u64) -> Seq<char>| #[trigger]
            attrs_shown(*shown, attrs@, text) ==> final(tags)@ == point_tags(
                old(tags)@,
                attrs@,
                text,
            ),
        exists|spelled: Seq<(Seq<char>, AnyView)>|
            final(tags)@ == #[trigger] point_tags(old(tags)@, spelled, no_text()) && point_spelled(
                *shown,
                attrs@,
                spelled,
            ),
{
    let ghost mut spelled = Seq::<(Seq<char>, AnyView)>::empty();
    let ghost before = tags@;
    let ghost all = attrs@;
    assert(all.take(0) =~= Seq::empty());
    let mut i: usize = 0;
    while i < attrs.inner.entries.len()
        invariant
            i <= attrs.inner.entries@.len(),
            all == attrs@,
            forall|b: u64| call_requires(*shown, (b,)),
            forall|text: spec_fn(u64) -> Seq<char>| #[trigger]
                attrs_shown(*shown, all, text) ==> tags@ == point_tags(
                    before,
                    all.take(i as int),
                    text,
                ),
            spelled.len() == i,
            tags@ == point_tags(before, spelled, no_text()),
            point_spelled(*shown, all.take(i as int), spelled),
        decreases attrs.inner.entries@.len() - i,
    {
        let ghost was = spelled;
        let ghost had = tags@;
        let ghost mut spell = attrs.inner.entries@[i as int].1@;
        assert(all.take(i + 1).drop_last() =~= all.take(i as int));
        let key: &str = attrs.inner.entries[i].0.as_str();
        if strip_text(key, "vector.").is_none() {
            insert_otel_attr_as_tag_from_any_value(
                tags,
                key,
                &attrs.inner.entries[i].1,
                shown,
            );
            proof {
                spell = choose|v: AnyView|
                    tags@ == #[trigger] tags_with_attribute(had, key@, v, no_text())
                        && is_spelled_out(*shown, all[i as int].1, v);
            }
        }
        proof {
            spelled = was.push((all[i as int].0, spell));
            assert(spelled.drop_last() =~= was);
            let done = all.take(i + 1);
            assert forall|j: int| 0 <= j < done.len() implies (#[trigger] spelled[j]).0 == done[j].0
                && if begins_with(done[j].0, "vector."@) {
                spelled[j].1 == done[j].1
            } else {
                is_spelled_out(*shown, done[j].1, spelled[j].1)
            } by {
                if j < i {
                    assert(was[j].0 == all.take(i as int)[j].0);
                }
            }
        }
        i = i + 1;
    }
    assert(all.take(i as int) =~= all);
    assert(tags@ == point_tags(before, spelled, no_text()));
}

impl OtelMetric {
    /// Build the tags from data point, resource, and scope attributes. `shown` shows a double.
    ///
    /// Returns `None` if there are no tags at all.
    pub fn tags<F: Fn(u64) -> String>(&self, shown: F) -> (r: Option<MetricTags>)
        requires
            forall|b: u64| call_requires(shown, (b,)),
        ensures
            self@.are_tags(shown, opt_view(r)),
    {
        let ghost none = Seq::<(Seq<char>, Seq<Option<Seq<char>>>)>::empty();
        let ghost mut of_point = Seq::<(Seq<char>, AnyView)>::empty();
        let mut tags = MetricTags::default();
        add_resource_tags(&mut tags, &self.resource_attrs, &shown);
        let ghost of_resource = choose|spelled: Seq<(Seq<char>, AnyView)>|
            tags@ == #[trigger] resource_tags(none, spelled, no_text()) && resource_spelled(
                shown,
                self@.resource_attrs,
                spelled,
            );
        add_scope_tags(&mut tags, &self.scope);
        let ghost had = tags@;
        if self.dp_attrs.len() > 0 {
            add_point_tags(&mut tags, &self.dp_attrs[0], &shown);
            proof {
                of_point = choose|spelled: Seq<(Seq<char>, AnyView)>|
                    tags@ == #[trigger] point_tags(had, spelled, no_text()) && point_spelled(
                        shown,
                        self@.dp_attrs[0],
                        spelled,
                    );
            }
        }
        assert(tags@ == tags_from(of_resource, self@.scope, of_point, no_text()));
        if tags.is_empty() {
            None
        } else {
            Some(tags)
        }
    }

    /// Get the value of a tag. `shown` shows a double.
    pub fn tag_value<F: Fn(u64) -> String>(&self, key: &str, shown: F) -> (r: Option<String>)
        requires
            forall|b: u64| call_requires(shown, (b,)),
        ensures
            forall|text: spec_fn(u64) -> Seq<char>| #[trigger]
                self@.tags_shown(shown, text) ==> opt_view(r) == self@.tag_value(key@, text),
            exists|text: spec_fn(u64) -> Seq<char>|
                opt_view(r) == #[trigger] self@.tag_value(key@, text) && self@.tag_drawn(
                    shown,
                    key@,
                    text,
                ),
    {
        if self.dp_attrs.len() > 0 {
            if let Some(av) = self.dp_attrs[0].get(key) {
                proof {
                    lemma_found_entry(self@.dp_attrs[0], key@);
                }
                if let Some(v) = &av.value {
                    let words = otel_value_to_tag_string(v, &shown);
                    proof {
                        let text = choose|text: spec_fn(u64) -> Seq<char>|
                            words@ == #[trigger] tag_text((AnyValue { value: Some(*v) })@, text)
                                && top_drawn(shown, (AnyValue { value: Some(*v) })@, text);
                        assert(Some(words@) == self@.tag_value(key@, text));
                    }
                    return Some(words);
                }
            }
        }
        if let Some(stripped) = strip_text(key, "resource.") {
            if let Some(av) = self.resource_attrs.get(stripped) {
                proof {
                    lemma_found_entry(self@.resource_attrs, stripped@);
                }
                if let Some(v) = &av.value {
                    let words = otel_value_to_tag_string(v, &shown);
                    proof {
                        let text = choose|text: spec_fn(u64) -> Seq<char>|
                            words@ == #[trigger] tag_text((AnyValue { value: Some(*v) })@, text)
                                && top_drawn(shown, (AnyValue { value: Some(*v) })@, text);
                        assert(Some(words@) == self@.tag_value(key@, text));
                    }
                    return Some(words);
                }
            }
        }
        assert(self@.tag_drawn(shown, key@, no_text()));
        if let Some(scope) = &self.scope {
            if str_eq(key, "scope.name") && !scope.name.as_str().is_empty() {
                return Some(scope.name.clone());
            }
            if str_eq(key, "scope.version") && !scope.version.as_str().is_empty() {
                return Some(scope.version.clone());
            }
        }
        None
    }

    /// Check whether a tag with the given name matches the given value. `shown` shows a double.
    pub fn tag_matches<F: Fn(u64) -> String>(&self, name: &str, value: &str, shown: F) -> (r: bool)
        requires
            forall|b: u64| call_requires(shown, (b,)),
        ensures
            forall|text: spec_fn(u64) -> Seq<char>| #[trigger]
                self@.tags_shown(shown, text) ==> r == (self@.tag_value(name@, text) == Some(
                    value@,
                )),
            exists|text: spec_fn(u64) -> Seq<char>|
                r == (#[trigger] self@.tag_value(name@, text) == Some(value@)) && self@.tag_drawn(
                    shown,
                    name@,
                    text,
                ),
    {
        match self.tag_value(name, shown) {
            Some(v) => str_eq(v.as_str(), value),
            None => false,
        }
    }

    /// The name, the namespace and the tags of this metric.
    /// This is the grouping key used by aggregation and normalization. `shown` shows a double.
    pub fn metric_series<F: Fn(u64) -> String>(&self, shown: F) -> (r: MetricSeries)
        requires
            forall|b: u64| call_requires(shown, (b,)),
        ensures
            r@.name == self@.metric.name,
            r@.namespace == self@.namespace(),
            self@.are_tags(shown, r@.tags),
    {
        MetricSeries {
            name: MetricName {
                name: self.metric.name.clone(),
                namespace: match self.namespace() {
                    Some(ns) => Some(ns.to_owned()),
                    None => None,
                },
            },
            tags: self.tags(shown),
        }
    }

    /// Decompose this metric into its parts. `shown` shows a double, `power` gives the bound for a
    /// scale and an exponent.
    pub fn into_metric_parts<F: Fn(u64) -> String, G: Fn(i32, i32) -> u64>(
        self,
        shown: F,
        power: G,
    ) -> (r: (MetricSeries, MetricData, EventMetadata))
        requires
            forall|b: u64| call_requires(shown, (b,)),
            forall|s: i32, e: i32| call_requires(power, (s, e)),
            self@.has_bounds(),
        ensures
            is_metric_parts(self@, shown, power, r.0@, r.1@),
            r.2@ == self@.metadata,
    {
        let series = self.metric_series(shown);
        let (kind, value, timestamp) = self.extract_metric_data(power);
        let data = MetricData {
            time: MetricTime { timestamp, interval_ms: self.interval_ms() },
            kind,
            value,
        };
        (series, data, self.metadata)
    }
}

/// The attribute value reduced to one text: of a list the last text in it.
pub open spec fn single_of(v: AnyView) -> AnyView {
    match v {
        AnyView::Array(a) => match last_text(a) {
            Some(s) => AnyView::Str(s),
            None => v,
        },
        _ => v,
    }
}

/// The last text in a list.
pub open spec fn last_text(values: Seq<AnyView>) -> Option<Seq<char>>
    decreases values.len(),
{
    if values.len() == 0 {
        None
    } else {
        match values.last() {
            AnyView::Str(s) => Some(s),
            _ => last_text(values.drop_last()),
        }
    }
}

/// The attributes, each reduced to one text.
pub open spec fn singles(attrs: Seq<(Seq<char>, AnyView)>) -> Seq<(Seq<char>, AnyView)> {
    Seq::new(attrs.len(), |i: int| (attrs[i].0, single_of(attrs[i].1)))
}

pub fn find_last_text(values: &Vec<AnyValue>) -> (r: Option<&String>)
    ensures
        match r {
            Some(s) => last_text(values_view(values@)) == Some(s@),
            None => last_text(values_view(values@)) is None,
        },
{
    let ghost all = values_view(values@);
    let mut n: usize = values.len();
    assert(all.take(n as int) =~= all);
    while n > 0
        invariant
            n <= values@.len(),
            all == values_view(values@),
            last_text(all) == last_text(all.take(n as int)),
        decreases n,
    {
        assert(all.take(n as int).drop_last() =~= all.take(n - 1));
        assert(all.take(n as int).last() == values@[n - 1]@);
        if let Some(OtelValueKind::StringValue(s)) = &values[n - 1].value {
            return Some(s);
        }
        n = n - 1;
    }
    None
}

fn reduce_to_singles(attrs: &mut OtelAttributes)
    ensures
        final(attrs)@ == singles(old(attrs)@),
{
    let ghost before = attrs@;
    let mut i: usize = 0;
    while i < attrs.inner.entries.len()
        invariant
            i <= attrs.inner.entries@.len(),
            before == old(attrs)@,
            attrs.inner.entries@.len() == before.len(),
            forall|j: int| 0 <= j < i ==> (#[trigger] attrs@[j]) == singles(before)[j],
            forall|j: int| i <= j < before.len() ==> (#[trigger] attrs@[j]) == before[j],
        decreases attrs.inner.entries@.len() - i,
    {
        let ghost was = attrs@;
        assert(was[i as int] == before[i as int]);
        let found = match &attrs.inner.entries[i].1.value {
            Some(OtelValueKind::ArrayValue(arr)) => {
                proof {
                    lemma_any_array_view(*arr);
                }
                match find_last_text(&arr.values) {
                    Some(s) => Some(s.clone()),
                    None => None,
                }
            },
            _ => None,
        };
        if let Some(s) = found {
            attrs.inner.entries[i].1 = AnyValue { value: Some(OtelValueKind::StringValue(s)) };
        }
        assert forall|j: int| 0 <= j < before.len() && j != i implies (#[trigger] attrs@[j])
            == was[j] by {}
        assert(attrs@[i as int] == singles(before)[i as int]);
        i = i + 1;
    }
    assert(attrs@ =~= singles(before));
}

impl OtelMetric {
    /// Reduces each attribute of the data points that is a list to the last text in it.
    pub fn reduce_tags_to_single(&mut self)
        ensures
            final(self)@ == (OtelMetricView {
                dp_attrs: Seq::new(
                    old(self)@.dp_attrs.len(),
                    |i: int| singles(old(self)@.dp_attrs[i]),
                ),
                ..old(self)@
            }),
    {
        let ghost before = self@.dp_attrs;
        let ghost expected = Seq::new(before.len(), |i: int| singles(before[i]));
        let mut i: usize = 0;
        while i < self.dp_attrs.len()
            invariant
                i <= self.dp_attrs@.len(),
                before == old(self)@.dp_attrs,
                self.dp_attrs@.len() == before.len(),
                self.metric == old(self).metric,
                self.resource == old(self).resource,
                self.resource_attrs == old(self).resource_attrs,
                self.scope == old(self).scope,
                self.scope_attrs == old(self).scope_attrs,
                self.metadata == old(self).metadata,
                forall|j: int| 0 <= j < i ==> (#[trigger] self.dp_attrs@[j])@ == singles(before[j]),
                forall|j: int|
                    i <= j < before.len() ==> (#[trigger] self.dp_attrs@[j])@ == before[j],
            decreases self.dp_attrs@.len() - i,
        {
            reduce_to_singles(&mut self.dp_attrs[i]);
            i = i + 1;
        }
        assert(self@.dp_attrs =~= expected);
    }
}

impl DataView {
    /// The data with an aggregation temporality, where it has a place for one.
    pub open spec fn with_temporality(self, temporality: i32) -> DataView {
        match self {
            DataView::Sum(s) => DataView::Sum(
                SumView { aggregation_temporality: temporality, ..s },
            ),
            DataView::Histogram(h) => DataView::Histogram(
                HistogramView { aggregation_temporality: temporality, ..h },
            ),
            DataView::ExponentialHistogram(e) => DataView::ExponentialHistogram(
                ExponentialHistogramView { aggregation_temporality: temporality, ..e },
            ),
            _ => self,
        }
    }

    /// The aggregation temporality, where there is a place for one.
    pub open spec fn temporality(&self) -> Option<i32> {
        match self {
            DataView::Sum(s) => Some(s.aggregation_temporality),
            DataView::Histogram(h) => Some(h.aggregation_temporality),
            DataView::ExponentialHistogram(e) => Some(e.aggregation_temporality),
            _ => None,
        }
    }

    /// The data points, where they are numbers.
    pub open spec fn numbers(&self) -> Option<Seq<NumberDataPointView>> {
        match self {
            DataView::Sum(s) => Some(s.data_points),
            DataView::Gauge(g) => Some(g.data_points),
            _ => None,
        }
    }

    /// The data with other data points, where they are numbers.
    pub open spec fn with_numbers(self, points: Seq<NumberDataPointView>) -> DataView {
        match self {
            DataView::Sum(s) => DataView::Sum(SumView { data_points: points, ..s }),
            DataView::Gauge(g) => DataView::Gauge(GaugeView { data_points: points }),
            _ => self,
        }
    }
}

impl OtelMetricView {
    /// The event with other data, where it has any.
    pub open spec fn with_data(self, data: DataView) -> OtelMetricView {
        OtelMetricView { metric: MetricMessageView { data: Some(data), ..self.metric }, ..self }
    }

    /// The event with the same time for each data point.
    pub open spec fn at(self, nanos: u64) -> OtelMetricView {
        match self.metric.data {
            Some(d) => self.with_data(d.at(nanos)),
            None => self,
        }
    }

    /// The aggregation temporality, where there is a place for one.
    pub open spec fn temporality(&self) -> Option<i32> {
        match self.metric.data {
            Some(d) => d.temporality(),
            None => None,
        }
    }

    /// The event with tags as attributes of its data points.
    pub open spec fn with_tags(self, tags: Seq<(Seq<char>, Seq<Option<Seq<char>>>)>) -> OtelMetricView
        decreases tags.len(),
    {
        if tags.len() == 0 {
            self
        } else {
            let before = self.with_tags(tags.drop_last());
            let (key, values) = tags.last();
            OtelMetricView {
                dp_attrs: points_with(
                    points_without(before.dp_attrs, key),
                    key,
                    any_from_tag_values(values),
                ),
                ..before
            }
        }
    }
}

/// The time of an instant that may be missing, in nanoseconds since the Unix epoch.
pub open spec fn nanos_or_zero(ts: Option<Timestamp>) -> u64 {
    match ts {
        Some(t) => wrap_u64(epoch_nanos(t) as int),
        None => 0,
    }
}

/// The first number of some data points, as the bits of a double.
pub open spec fn first_double(points: Seq<NumberDataPointView>) -> Option<u64> {
    if points.len() == 0 || points[0].value is None {
        None
    } else {
        Some(number_as_double(points[0].value))
    }
}

fn first_double_of(points: &Vec<NumberDataPoint>) -> (r: Option<u64>)
    ensures
        r == first_double(views(points@)),
{
    if points.len() == 0 {
        return None;
    }
    match points[0].value {
        Some(NumberValue::AsDouble(d)) => Some(d),
        Some(NumberValue::AsInt(i)) => Some(double_from_i64(i)),
        None => None,
    }
}

/// The data points with another number in the first one.
pub open spec fn with_first_double(points: Seq<NumberDataPointView>, value: u64) -> Seq<
    NumberDataPointView,
> {
    if points.len() == 0 {
        points
    } else {
        points.update(
            0,
            NumberDataPointView { value: Some(NumberValue::AsDouble(value)), ..points[0] },
        )
    }
}

fn set_first_double(points: &mut Vec<NumberDataPoint>, value: u64)
    ensures
        views(final(points)@) == with_first_double(views(old(points)@), value),
{
    if points.len() > 0 {
        points[0].value = Some(NumberValue::AsDouble(value));
    }
    assert(views(points@) =~= with_first_double(views(old(points)@), value));
}

impl OtelMetric {
    /// Set the timestamp on all data points.
    ///
    /// Note: `None` sets `time_unix_nano` to 0, which `timestamp()` reads back
    /// as `None`. A `Some(ts)` at the Unix epoch (1970-01-01T00:00:00Z) also
    /// produces nanos == 0 and will be read back as `None`.
    pub fn set_timestamp(&mut self, ts: Option<Timestamp>)
        ensures
            final(self)@ == old(self)@.at(nanos_or_zero(ts)),
    {
        let nanos: u64 = match ts {
            Some(t) => to_u64(t.nanos_or_zero()),
            None => 0,
        };
        if let Some(data) = &mut self.metric.data {
            data.set_times(nanos);
        }
    }

    /// Set the metric kind, where the data has a place for it.
    pub fn set_kind(&mut self, kind: MetricKind)
        ensures
            final(self)@ == match old(self)@.metric.data {
                Some(d) => old(self)@.with_data(d.with_temporality(kind.as_temporality())),
                None => old(self)@,
            },
    {
        let temporality = kind.temporality();
        match &mut self.metric.data {
            Some(Data::Sum(s)) => {
                s.aggregation_temporality = temporality;
            },
            Some(Data::Histogram(h)) => {
                h.aggregation_temporality = temporality;
            },
            Some(Data::ExponentialHistogram(e)) => {
                e.aggregation_temporality = temporality;
            },
            _ => {},
        }
    }

    /// Set the metric namespace (stored as `metric.namespace` resource attribute).
    pub fn set_namespace(&mut self, namespace: &str)
        ensures
            final(self)@ == old(self)@.with_resource_attribute(
                "metric.namespace"@,
                AnyView::Str(namespace@),
            ),
    {
        self.set_resource_attribute("metric.namespace".to_string(), string_value(namespace));
    }

    /// Builder-style: set the metric namespace (stored as `metric.namespace` resource attribute).
    pub fn with_namespace(self, namespace: Option<&str>) -> (r: Self)
        ensures
            r@ == match namespace {
                Some(ns) => self@.with_resource_attribute(
                    "metric.namespace"@,
                    AnyView::Str(ns@),
                ),
                None => self@,
            },
    {
        let mut m = self;
        if let Some(ns) = namespace {
            m.set_namespace(ns);
        }
        m
    }

    /// Builder-style: set the timestamp on all data points.
    pub fn with_timestamp(self, ts: Option<Timestamp>) -> (r: Self)
        ensures
            r@ == self@.at(nanos_or_zero(ts)),
    {
        let mut m = self;
        m.set_timestamp(ts);
        m
    }

    /// Builder-style: set tags as data point attributes.
    ///
    /// Preserves multi-value tags: each key becomes a single attribute whose
    /// value is a text (single) or a list of texts and empty values (multi).
    pub fn with_tags(self, tags: Option<MetricTags>) -> (r: Self)
        ensures
            r@ == match tags {
                Some(t) => self@.with_tags(t@),
                None => self@,
            },
    {
        let mut m = self;
        if let Some(t) = tags {
            let ghost all = t@;
            assert(all.take(0) =~= Seq::empty());
            let mut i: usize = 0;
            while i < t.tags.entries.len()
                invariant
                    i <= t.tags.entries@.len(),
                    all == t@,
                    m@ == self@.with_tags(all.take(i as int)),
                decreases t.tags.entries@.len() - i,
            {
                assert(all.take(i + 1).drop_last() =~= all.take(i as int));
                let key: &str = t.tags.entries[i].0.as_str();
                m.remove_data_point_attribute(key);
                m.set_data_point_attribute(
                    key.to_owned(),
                    tag_set_to_any(&t.tags.entries[i].1),
                );
                i = i + 1;
            }
            assert(all.take(i as int) =~= all);
        }
        m
    }

    pub fn with_metadata(self, metadata: EventMetadata) -> (r: Self)
        ensures
            r@ == (OtelMetricView { metadata: metadata@, ..self@ }),
    {
        let mut m = self;
        m.metadata = metadata;
        m
    }

    /// Set the first data point value (Sum or Gauge only), given by its bits.
    pub fn set_first_value(&mut self, val: u64)
        ensures
            final(self)@ == match old(self)@.metric.data {
                Some(d) => match d.numbers() {
                    Some(points) => old(self)@.with_data(
                        d.with_numbers(with_first_double(points, val)),
                    ),
                    None => old(self)@,
                },
                None => old(self)@,
            },
    {
        match &mut self.metric.data {
            Some(Data::Sum(s)) => set_first_double(&mut s.data_points, val),
            Some(Data::Gauge(g)) => set_first_double(&mut g.data_points, val),
            _ => {},
        }
    }

    /// Get the first data point value as the bits of a double, if this is a Sum or Gauge.
    pub fn first_value_as_f64(&self) -> (r: Option<u64>)
        ensures
            r == match self@.metric.data {
                Some(d) => match d.numbers() {
                    Some(points) => first_double(points),
                    None => None,
                },
                None => None,
            },
    {
        match &self.metric.data {
            Some(Data::Sum(s)) => first_double_of(&s.data_points),
            Some(Data::Gauge(g)) => first_double_of(&g.data_points),
            _ => None,
        }
    }

    fn exec_temporality(&self) -> (r: Option<i32>)
        ensures
            r == self@.temporality(),
    {
        match &self.metric.data {
            Some(Data::Sum(s)) => Some(s.aggregation_temporality),
            Some(Data::Histogram(h)) => Some(h.aggregation_temporality),
            Some(Data::ExponentialHistogram(e)) => Some(e.aggregation_temporality),
            _ => None,
        }
    }

    /// Check if this metric is a delta (incremental) type.
    /// Only Sum, Histogram, and ExponentialHistogram have an aggregation temporality.
    /// Gauge and Summary are point-in-time and neither delta nor cumulative.
    pub fn is_delta(&self) -> (r: bool)
        ensures
            r == (self@.temporality() == Some(DELTA)),
    {
        match self.exec_temporality() {
            Some(t) => t == DELTA,
            None => false,
        }
    }

    /// Check if this metric is cumulative. Gauge and Summary have no temporality
    /// and return `false`.
    pub fn is_cumulative(&self) -> (r: bool)
        ensures
            r == (self@.temporality() == Some(CUMULATIVE)),
    {
        match self.exec_temporality() {
            Some(t) => t == CUMULATIVE,
            None => false,
        }
    }

    /// Check if this metric type carries an aggregation temporality field.
    /// Sum, Histogram, and ExponentialHistogram have temporality.
    /// Gauge and Summary do not.
    pub fn has_temporality(&self) -> (r: bool)
        ensures
            r == (self@.temporality() is Some),
    {
        self.exec_temporality().is_some()
    }

    /// Check if this metric is a Gauge type.
    pub fn is_gauge(&self) -> (r: bool)
        ensures
            r == (self@.metric.data matches Some(DataView::Gauge(_))),
    {
        match &self.metric.data {
            Some(Data::Gauge(_)) => true,
            _ => false,
        }
    }

    /// Check if this metric is a Sum type.
    pub fn is_sum(&self) -> (r: bool)
        ensures
            r == (self@.metric.data matches Some(DataView::Sum(_))),
    {
        match &self.metric.data {
            Some(Data::Sum(_)) => true,
            _ => false,
        }
    }

    /// Check if this metric is a Set (stored as Gauge with vector.metric_type=set attribute).
    pub fn is_set(&self) -> (r: bool)
        ensures
            r == (first_text(self@.dp_attrs, "vector.metric_type"@) == Some("set"@)),
    {
        self.dp_has_str("vector.metric_type", "set")
    }

    /// Check if this metric is a Distribution (stored as Histogram with
    /// vector.metric_type=distribution attribute).
    pub fn is_distribution(&self) -> (r: bool)
        ensures
            r == (first_text(self@.dp_attrs, "vector.metric_type"@) == Some("distribution"@)),
    {
        self.dp_has_str("vector.metric_type", "distribution")
    }
}

/// After the kind was set, a metric that has a place for it is of that kind, and one that has none is
/// as it was.
pub proof fn law_kind_is_kept(m: OtelMetricView, kind: MetricKind)
    requires
        m.metric.data is Some,
    ensures
        ({
            let after = m.with_data(m.metric.data->0.with_temporality(kind.as_temporality()));
            if m.temporality() is Some {
                after.kind() == kind
            } else {
                after == m
            }
        }),
{
}

/// The time that is set on a metric with data points is the time that it has, to the nanosecond; a
/// time of zero counts as none.
pub proof fn law_time_is_kept(m: OtelMetricView, nanos: u64)
    requires
        m.metric.data matches Some(d) && d.first_times() is Some,
    ensures
        m.at(nanos).timestamp() == instant_from(nanos),
{
}

} // verus!
