//! Metric events.
use vstd::prelude::*;

use crate::any_value::{AnyValue, AnyView, OtelValueKind};
use crate::attributes::{attrs_from_kvs, OtelAttributes};
use crate::canonical::{full_resource, full_scope, resource_to_proto, scope_to_proto};
use crate::keyed::{opt_view, value_of, views, with_entry, without_entry};
use crate::log::{
    join_resource, join_scope, opt_resource_stripped, opt_scope_stripped, resource_attrs_of,
    resource_joined, resource_stripped, scope_attrs_carried, scope_joined, scope_stripped,
    split_opt_resource, split_opt_scope, split_resource, split_scope,
};
use crate::metadata::{EventMetadata, MetadataView};
use crate::otlp::{InstrumentationScope, Resource, ResourceView, ScopeView};
use crate::otlp_metric::{Metric, MetricMessageView};
use crate::points::{gathered_attributes, listed_attributes};

verus! {

/// A metric event: the metric, the resource and the scope, each with its attributes apart from it,
/// and the metadata. The attributes of a metric are those of its data points.
#[derive(Debug, PartialEq)]
pub struct OtelMetric {
    pub metric: Metric,
    pub dp_attrs: Vec<OtelAttributes>,
    pub resource: Option<Resource>,
    pub resource_attrs: OtelAttributes,
    pub scope: Option<InstrumentationScope>,
    pub scope_attrs: OtelAttributes,
    pub metadata: EventMetadata,
}

#[verifier::ext_equal]
pub struct OtelMetricView {
    pub metric: MetricMessageView,
    pub dp_attrs: Seq<Seq<(Seq<char>, AnyView)>>,
    pub resource: Option<ResourceView>,
    pub resource_attrs: Seq<(Seq<char>, AnyView)>,
    pub scope: Option<ScopeView>,
    pub scope_attrs: Seq<(Seq<char>, AnyView)>,
    pub metadata: MetadataView,
}

impl View for OtelMetric {
    type V = OtelMetricView;

    open spec fn view(&self) -> OtelMetricView {
        OtelMetricView {
            metric: self.metric@,
            dp_attrs: views(self.dp_attrs@),
            resource: opt_view(self.resource),
            resource_attrs: self.resource_attrs@,
            scope: opt_view(self.scope),
            scope_attrs: self.scope_attrs@,
            metadata: self.metadata@,
        }
    }
}

impl Clone for OtelMetric {
    fn clone(&self) -> (r: Self)
        ensures
            r@ == self@,
    {
        let r = OtelMetric {
            metric: self.metric.clone(),
            dp_attrs: self.dp_attrs.clone(),
            resource: match &self.resource {
                Some(r) => Some(r.clone()),
                None => None,
            },
            resource_attrs: self.resource_attrs.clone(),
            scope: match &self.scope {
                Some(s) => Some(s.clone()),
                None => None,
            },
            scope_attrs: self.scope_attrs.clone(),
            metadata: self.metadata.clone(),
        };
        assert(views(r.dp_attrs@) =~= views(self.dp_attrs@));
        r
    }
}

impl MetricMessageView {
    /// The attributes of each data point.
    pub open spec fn point_attributes(&self) -> Seq<Seq<(Seq<char>, Option<AnyView>)>> {
        match self.data {
            Some(d) => d.point_attributes(),
            None => Seq::empty(),
        }
    }

    /// The metric without the attributes of its data points.
    pub open spec fn without_point_attributes(self) -> MetricMessageView {
        MetricMessageView {
            data: match self.data {
                Some(d) => Some(d.without_point_attributes()),
                None => None,
            },
            ..self
        }
    }

    /// The metric with these attributes of its data points.
    pub open spec fn with_point_attributes(
        self,
        attrs: Seq<Seq<(Seq<char>, AnyView)>>,
    ) -> MetricMessageView {
        MetricMessageView {
            data: match self.data {
                Some(d) => Some(d.with_point_attributes(listed_attributes(attrs))),
                None => None,
            },
            ..self
        }
    }
}

/// Takes the attributes out of the data points of a metric.
pub fn extract_dp_attrs(metric: &mut Metric) -> (r: Vec<OtelAttributes>)
    ensures
        views(r@) == gathered_attributes(old(metric)@.point_attributes()),
        final(metric)@ == old(metric)@.without_point_attributes(),
        forall|i: int| 0 <= i < r@.len() ==> (#[trigger] r@[i]).wf(),
{
    match &mut metric.data {
        Some(data) => data.take_point_attributes(),
        None => {
            let none: Vec<OtelAttributes> = Vec::new();
            assert(views(none@) =~= gathered_attributes(Seq::empty()));
            none
        },
    }
}

/// Gives the data points of a metric their attributes back.
pub fn populate_dp_attrs(metric: &mut Metric, dp_attrs: &Vec<OtelAttributes>)
    ensures
        final(metric)@ == old(metric)@.with_point_attributes(views(dp_attrs@)),
{
    match &mut metric.data {
        Some(data) => {
            data.give_point_attributes(dp_attrs);
        },
        None => {},
    }
}

/// The attributes of each data point with one of them set.
pub open spec fn points_with(
    attrs: Seq<Seq<(Seq<char>, AnyView)>>,
    key: Seq<char>,
    v: AnyView,
) -> Seq<Seq<(Seq<char>, AnyView)>> {
    Seq::new(attrs.len(), |i: int| with_entry(attrs[i], key, v))
}

/// The attributes of each data point without one of them.
pub open spec fn points_without(attrs: Seq<Seq<(Seq<char>, AnyView)>>, key: Seq<char>) -> Seq<
    Seq<(Seq<char>, AnyView)>,
> {
    Seq::new(attrs.len(), |i: int| without_entry(attrs[i], key))
}

/// The first value that an attribute has in the data points.
pub open spec fn first_value(attrs: Seq<Seq<(Seq<char>, AnyView)>>, key: Seq<char>) -> Option<AnyView>
    decreases attrs.len(),
{
    if attrs.len() == 0 {
        None
    } else {
        match first_value(attrs.drop_last(), key) {
            Some(v) => Some(v),
            None => value_of(attrs.last(), key),
        }
    }
}

impl OtelMetricView {
    /// The metric event from a metric, a resource and a scope, whose attributes come apart from them.
    pub open spec fn of_parts(
        metric: MetricMessageView,
        resource: Option<ResourceView>,
        scope: Option<ScopeView>,
        metadata: MetadataView,
    ) -> OtelMetricView {
        OtelMetricView {
            metric: metric.without_point_attributes(),
            dp_attrs: gathered_attributes(metric.point_attributes()),
            resource: opt_resource_stripped(resource),
            resource_attrs: resource_attrs_of(resource),
            scope: opt_scope_stripped(scope),
            scope_attrs: scope_attrs_carried(scope),
            metadata,
        }
    }

    /// A metric event with only a metric and metadata.
    pub open spec fn of_metric(metric: MetricMessageView, metadata: MetadataView) -> OtelMetricView {
        OtelMetricView {
            metric: metric.without_point_attributes(),
            dp_attrs: gathered_attributes(metric.point_attributes()),
            resource: None,
            resource_attrs: Seq::empty(),
            scope: None,
            scope_attrs: Seq::empty(),
            metadata,
        }
    }

    /// The event with an attribute of its resource set.
    pub open spec fn with_resource_attribute(self, key: Seq<char>, v: AnyView) -> OtelMetricView {
        OtelMetricView {
            resource_attrs: with_entry(self.resource_attrs, key, v),
            ..self.with_some_resource()
        }
    }

    /// The event with an attribute of its data points set.
    pub open spec fn with_point_attribute(self, key: Seq<char>, v: AnyView) -> OtelMetricView {
        OtelMetricView { dp_attrs: points_with(self.dp_attrs, key, v), ..self }
    }
    /// The event with a resource, an empty one where it had none.
    pub open spec fn with_some_resource(self) -> OtelMetricView {
        OtelMetricView {
            resource: match self.resource {
                Some(r) => Some(r),
                None => Some(ResourceView::default_view()),
            },
            ..self
        }
    }
}

/// Sets an attribute of each data point.
pub fn set_points(dp_attrs: &mut Vec<OtelAttributes>, key: &str, value: &AnyValue)
    ensures
        views(final(dp_attrs)@) == points_with(views(old(dp_attrs)@), key@, value@),
{
    let ghost before = views(dp_attrs@);
    let mut i: usize = 0;
    while i < dp_attrs.len()
        invariant
            i <= dp_attrs@.len(),
            dp_attrs@.len() == old(dp_attrs)@.len(),
            before == views(old(dp_attrs)@),
            forall|j: int|
                0 <= j < i ==> (#[trigger] dp_attrs@[j])@ == with_entry(before[j], key@, value@),
            forall|j: int| i <= j < dp_attrs@.len() ==> #[trigger] dp_attrs@[j] == old(dp_attrs)@[j],
        decreases dp_attrs@.len() - i,
    {
        assert(before[i as int] == dp_attrs@[i as int]@);
        dp_attrs[i].insert(key.to_owned(), value.clone());
        i = i + 1;
    }
    assert(views(dp_attrs@) =~= points_with(before, key@, value@));
}

/// Removes an attribute of each data point, and gives the first value that it had.
pub fn remove_points(dp_attrs: &mut Vec<OtelAttributes>, key: &str) -> (r: Option<AnyValue>)
    ensures
        views(final(dp_attrs)@) == points_without(views(old(dp_attrs)@), key@),
        opt_view(r) == first_value(views(old(dp_attrs)@), key@),
{
    let ghost before = views(dp_attrs@);
    let mut removed: Option<AnyValue> = None;
    let mut i: usize = 0;
    assert(before.take(0) =~= Seq::empty());
    while i < dp_attrs.len()
        invariant
            i <= dp_attrs@.len(),
            dp_attrs@.len() == old(dp_attrs)@.len(),
            before == views(old(dp_attrs)@),
            opt_view(removed) == first_value(before.take(i as int), key@),
            forall|j: int|
                0 <= j < i ==> (#[trigger] dp_attrs@[j])@ == without_entry(before[j], key@),
            forall|j: int| i <= j < dp_attrs@.len() ==> #[trigger] dp_attrs@[j] == old(dp_attrs)@[j],
        decreases dp_attrs@.len() - i,
    {
        assert(before[i as int] == dp_attrs@[i as int]@);
        assert(before.take(i + 1).drop_last() =~= before.take(i as int));
        let here = dp_attrs[i].remove(key);
        if removed.is_none() {
            removed = here;
        }
        i = i + 1;
    }
    assert(before.take(i as int) =~= before);
    assert(views(dp_attrs@) =~= points_without(before, key@));
    removed
}

impl OtelMetric {
    /// A metric event with a metric.
    pub fn new(metric: Metric) -> (r: Self)
        ensures
            r@ == OtelMetricView::of_metric(metric@, r@.metadata),
            r@.metadata.is_default(),
    {
        OtelMetric::from_parts(metric, None, None, EventMetadata::default())
    }

    /// A metric event with a metric, a resource, a scope and metadata.
    pub fn from_parts(
        metric: Metric,
        resource: Option<Resource>,
        scope: Option<InstrumentationScope>,
        metadata: EventMetadata,
    ) -> (r: Self)
        ensures
            r@ == OtelMetricView::of_parts(metric@, opt_view(resource), opt_view(scope), metadata@),
    {
        let mut metric = metric;
        let dp_attrs = extract_dp_attrs(&mut metric);
        let (resource, resource_attrs) = split_opt_resource(resource);
        let (scope, scope_attrs) = split_opt_scope(scope);
        OtelMetric {
            metric,
            dp_attrs,
            resource,
            resource_attrs,
            scope,
            scope_attrs,
            metadata,
        }
    }

    /// The metric, the resource and the scope, each with its attributes, and the metadata.
    pub fn into_parts(self) -> (r: (
        Metric,
        Option<Resource>,
        Option<InstrumentationScope>,
        EventMetadata,
    ))
        ensures
            r.0@ == self@.metric.with_point_attributes(self@.dp_attrs),
            opt_view(r.1) == resource_joined(self@.resource, self@.resource_attrs),
            opt_view(r.2) == scope_joined(self@.scope, self@.scope_attrs),
            r.3@ == self@.metadata,
    {
        let mut metric = self.metric;
        populate_dp_attrs(&mut metric, &self.dp_attrs);
        let resource = join_resource(self.resource, &self.resource_attrs);
        let scope = join_scope(self.scope, &self.scope_attrs);
        (metric, resource, scope, self.metadata)
    }

    /// The metric with the attributes of its data points.
    pub fn metric_proto(&self) -> (r: Metric)
        ensures
            r@ == self@.metric.with_point_attributes(self@.dp_attrs),
    {
        let mut m = self.metric.clone();
        populate_dp_attrs(&mut m, &self.dp_attrs);
        m
    }

    pub fn metric(&self) -> (r: &Metric)
        ensures
            r@ == self@.metric,
    {
        &self.metric
    }

    pub fn metric_mut(&mut self) -> (r: &mut Metric)
        ensures
            (*r)@ == old(self)@.metric,
            final(self)@ == (OtelMetricView { metric: (*final(r))@, ..old(self)@ }),
    {
        &mut self.metric
    }

    pub fn name(&self) -> (r: &str)
        ensures
            r@ == self@.metric.name,
    {
        self.metric.name.as_str()
    }

    pub fn description(&self) -> (r: &str)
        ensures
            r@ == self@.metric.description,
    {
        self.metric.description.as_str()
    }

    pub fn unit(&self) -> (r: &str)
        ensures
            r@ == self@.metric.unit,
    {
        self.metric.unit.as_str()
    }

    /// The attributes of the first data point.
    pub fn first_dp_attrs(&self) -> (r: Option<&OtelAttributes>)
        ensures
            opt_view(r) == if self@.dp_attrs.len() == 0 {
                None
            } else {
                Some(self@.dp_attrs[0])
            },
    {
        if self.dp_attrs.len() == 0 {
            None
        } else {
            Some(&self.dp_attrs[0])
        }
    }

    /// Sets an attribute of each data point.
    pub fn set_data_point_attribute(&mut self, key: String, value: AnyValue)
        ensures
            final(self)@ == old(self)@.with_point_attribute(key@, value@),
    {
        set_points(&mut self.dp_attrs, key.as_str(), &value);
    }

    /// Removes an attribute of each data point, and gives the first value that it had.
    pub fn remove_data_point_attribute(&mut self, key: &str) -> (r: Option<AnyValue>)
        ensures
            final(self)@ == (OtelMetricView {
                dp_attrs: points_without(old(self)@.dp_attrs, key@),
                ..old(self)@
            }),
            opt_view(r) == first_value(old(self)@.dp_attrs, key@),
    {
        remove_points(&mut self.dp_attrs, key)
    }

    /// Replace a tag: remove existing attribute, and set the new value.
    pub fn replace_tag(&mut self, key: String, value: String)
        ensures
            final(self)@ == (OtelMetricView {
                dp_attrs: points_with(
                    points_without(old(self)@.dp_attrs, key@),
                    key@,
                    AnyView::Str(value@),
                ),
                ..old(self)@
            }),
    {
        self.remove_data_point_attribute(key.as_str());
        self.set_data_point_attribute(
            key,
            AnyValue { value: Some(OtelValueKind::StringValue(value)) },
        );
    }

    pub fn resource(&self) -> (r: Option<&Resource>)
        ensures
            opt_view(r) == self@.resource,
    {
        self.resource.as_ref()
    }

    /// The resource with its attributes, or nothing where there is neither.
    pub fn resource_proto(&self) -> (r: Option<Resource>)
        ensures
            opt_view(r) == full_resource(self@.resource, self@.resource_attrs),
    {
        resource_to_proto(self.resource.as_ref(), &self.resource_attrs)
    }

    /// The scope with its attributes, or nothing where there is neither.
    pub fn scope_proto(&self) -> (r: Option<InstrumentationScope>)
        ensures
            opt_view(r) == full_scope(self@.scope, self@.scope_attrs),
    {
        scope_to_proto(self.scope.as_ref(), &self.scope_attrs)
    }

    pub fn set_resource(&mut self, resource: Resource)
        ensures
            final(self)@ == (OtelMetricView {
                resource: Some(resource_stripped(resource@)),
                resource_attrs: attrs_from_kvs(resource@.attributes),
                ..old(self)@
            }),
    {
        let (rest, attrs) = split_resource(resource);
        self.resource_attrs = attrs;
        self.resource = Some(rest);
    }

    pub fn scope(&self) -> (r: Option<&InstrumentationScope>)
        ensures
            opt_view(r) == self@.scope,
    {
        self.scope.as_ref()
    }

    pub fn set_scope(&mut self, scope: InstrumentationScope)
        ensures
            final(self)@ == (OtelMetricView {
                scope: Some(scope_stripped(scope@)),
                scope_attrs: attrs_from_kvs(scope@.attributes),
                ..old(self)@
            }),
    {
        let (rest, attrs) = split_scope(scope);
        self.scope_attrs = attrs;
        self.scope = Some(rest);
    }

    pub fn metadata(&self) -> (r: &EventMetadata)
        ensures
            r@ == self@.metadata,
    {
        &self.metadata
    }

    pub fn metadata_mut(&mut self) -> (r: &mut EventMetadata)
        ensures
            (*r)@ == old(self)@.metadata,
            final(self)@ == (OtelMetricView { metadata: (*final(r))@, ..old(self)@ }),
    {
        &mut self.metadata
    }

    pub fn resource_attribute(&self, key: &str) -> (r: Option<&AnyValue>)
        ensures
            opt_view(r) == value_of(self@.resource_attrs, key@),
    {
        self.resource_attrs.get(key)
    }

    pub fn resource_attrs(&self) -> (r: &OtelAttributes)
        ensures
            r@ == self@.resource_attrs,
    {
        &self.resource_attrs
    }

    pub fn scope_attrs(&self) -> (r: &OtelAttributes)
        ensures
            r@ == self@.scope_attrs,
    {
        &self.scope_attrs
    }

    pub fn set_resource_attribute(&mut self, key: String, value: AnyValue)
        ensures
            final(self)@ == old(self)@.with_resource_attribute(key@, value@),
    {
        if self.resource.is_none() {
            self.resource = Some(Resource::default());
        }
        self.resource_attrs.insert(key, value);
    }
}

} // verus!
