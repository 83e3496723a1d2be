//! What holds of the parts of events: an event that is taken apart can be put together again.
use vstd::prelude::*;

use crate::any_value::AnyView;
use crate::attributes::kvs_from_attrs;
use crate::keyed::ordered;
use crate::log::{
    opt_resource_stripped, opt_scope_stripped, resource_attrs_of, resource_joined,
    scope_attrs_carried, scope_joined, OtelLogView,
};
use crate::metric::OtelMetricView;
use crate::otlp::{LogRecordView, ResourceView, ScopeView};
use crate::otlp_metric::{DataView, MetricMessageView};
use crate::otlp_span::SpanView;
use crate::points::{gathered_attributes, listed_attributes, no_attributes};
use crate::span::OtelSpanView;
use crate::value_laws::law_key_values_round_trip;

verus! {

/// Whether the attributes of a resource stand apart from it, and there are none where there is no
/// resource.
pub open spec fn resource_stands_apart(
    resource: Option<ResourceView>,
    attrs: Seq<(Seq<char>, AnyView)>,
) -> bool {
    match resource {
        Some(r) => r.attributes.len() == 0 && ordered(attrs),
        None => attrs.len() == 0,
    }
}

/// Whether the attributes of a scope stand apart from it, and there are none where there is no scope.
pub open spec fn scope_stands_apart(
    scope: Option<ScopeView>,
    attrs: Seq<(Seq<char>, AnyView)>,
) -> bool {
    match scope {
        Some(s) => s.attributes.len() == 0 && ordered(attrs),
        None => attrs.len() == 0,
    }
}

proof fn lemma_resource_and_scope(
    resource: Option<ResourceView>,
    resource_attrs: Seq<(Seq<char>, AnyView)>,
    scope: Option<ScopeView>,
    scope_attrs: Seq<(Seq<char>, AnyView)>,
)
    requires
        resource_stands_apart(resource, resource_attrs),
        scope_stands_apart(scope, scope_attrs),
    ensures
        opt_resource_stripped(resource_joined(resource, resource_attrs)) == resource,
        resource_attrs_of(resource_joined(resource, resource_attrs)) == resource_attrs,
        opt_scope_stripped(scope_joined(scope, scope_attrs)) == scope,
        scope_attrs_carried(scope_joined(scope, scope_attrs)) == scope_attrs,
{
    match resource {
        Some(r) => {
            law_key_values_round_trip(resource_attrs);
            assert(r.attributes =~= Seq::empty());
        },
        None => {
            assert(resource_attrs =~= Seq::empty());
        },
    }
    match scope {
        Some(s) => {
            law_key_values_round_trip(scope_attrs);
            assert(s.attributes =~= Seq::empty());
        },
        None => {
            assert(scope_attrs =~= Seq::empty());
        },
    }
}

/// A log event that is taken apart and put together again is the same, if no attributes of a resource
/// or a scope stand without one.
pub proof fn law_log_parts_round_trip(log: OtelLogView)
    requires
        ordered(log.record_attrs),
        log.record.attributes.len() == 0,
        resource_stands_apart(log.resource, log.resource_attrs),
        scope_stands_apart(log.scope, log.scope_attrs),
    ensures
        OtelLogView::of_parts(
            LogRecordView { attributes: kvs_from_attrs(log.record_attrs), ..log.record },
            resource_joined(log.resource, log.resource_attrs),
            scope_joined(log.scope, log.scope_attrs),
            log.metadata,
        ) == log,
{
    law_key_values_round_trip(log.record_attrs);
    lemma_resource_and_scope(log.resource, log.resource_attrs, log.scope, log.scope_attrs);
    assert(log.record.attributes =~= Seq::empty());
}

/// A span event that is taken apart and put together again is the same, if no attributes of a
/// resource or a scope stand without one.
pub proof fn law_span_parts_round_trip(span: OtelSpanView)
    requires
        ordered(span.span_attrs),
        span.span.attributes.len() == 0,
        resource_stands_apart(span.resource, span.resource_attrs),
        scope_stands_apart(span.scope, span.scope_attrs),
    ensures
        OtelSpanView::of_parts(
            SpanView { attributes: kvs_from_attrs(span.span_attrs), ..span.span },
            resource_joined(span.resource, span.resource_attrs),
            scope_joined(span.scope, span.scope_attrs),
            span.metadata,
        ) == span,
{
    law_key_values_round_trip(span.span_attrs);
    lemma_resource_and_scope(span.resource, span.resource_attrs, span.scope, span.scope_attrs);
    assert(span.span.attributes =~= Seq::empty());
}

/// Whether the attributes of the data points of a metric stand apart from them, and there is one list
/// for each data point.
pub open spec fn points_stand_apart(
    metric: MetricMessageView,
    attrs: Seq<Seq<(Seq<char>, AnyView)>>,
) -> bool {
    let inside = metric.point_attributes();
    &&& inside.len() == attrs.len()
    &&& forall|i: int| 0 <= i < inside.len() ==> (#[trigger] inside[i]).len() == 0
    &&& forall|i: int| 0 <= i < attrs.len() ==> ordered(#[trigger] attrs[i])
}

proof fn lemma_data_points(d: DataView, kvs: Seq<Seq<(Seq<char>, Option<AnyView>)>>)
    requires
        d.point_attributes().len() == kvs.len(),
        forall|i: int| 0 <= i < kvs.len() ==> (#[trigger] d.point_attributes()[i]).len() == 0,
    ensures
        d.with_point_attributes(kvs).point_attributes() == kvs,
        d.with_point_attributes(kvs).without_point_attributes() == d,
{
    let given = d.with_point_attributes(kvs);
    let inside = d.point_attributes();
    assert(given.point_attributes() =~= kvs);
    let none = no_attributes(kvs.len());
    let back = given.without_point_attributes();
    match d {
        DataView::Gauge(g) => {
            let p = back->Gauge_0.data_points;
            assert forall|i: int| 0 <= i < p.len() implies p[i] == g.data_points[i] by {
                assert(inside[i].len() == 0);
                assert(inside[i] =~= none[i]);
            }
            assert(p =~= g.data_points);
        },
        DataView::Sum(s) => {
            let p = back->Sum_0.data_points;
            assert forall|i: int| 0 <= i < p.len() implies p[i] == s.data_points[i] by {
                assert(inside[i].len() == 0);
                assert(inside[i] =~= none[i]);
            }
            assert(p =~= s.data_points);
        },
        DataView::Histogram(h) => {
            let p = back->Histogram_0.data_points;
            assert forall|i: int| 0 <= i < p.len() implies p[i] == h.data_points[i] by {
                assert(inside[i].len() == 0);
                assert(inside[i] =~= none[i]);
            }
            assert(p =~= h.data_points);
        },
        DataView::ExponentialHistogram(e) => {
            let p = back->ExponentialHistogram_0.data_points;
            assert forall|i: int| 0 <= i < p.len() implies p[i] == e.data_points[i] by {
                assert(inside[i].len() == 0);
                assert(inside[i] =~= none[i]);
            }
            assert(p =~= e.data_points);
        },
        DataView::Summary(s) => {
            let p = back->Summary_0.data_points;
            assert forall|i: int| 0 <= i < p.len() implies p[i] == s.data_points[i] by {
                assert(inside[i].len() == 0);
                assert(inside[i] =~= none[i]);
            }
            assert(p =~= s.data_points);
        },
    }
}

/// A metric event that is taken apart and put together again is the same, if no attributes of a
/// resource or a scope stand without one and each data point has its attributes.
pub proof fn law_metric_parts_round_trip(m: OtelMetricView)
    requires
        points_stand_apart(m.metric, m.dp_attrs),
        resource_stands_apart(m.resource, m.resource_attrs),
        scope_stands_apart(m.scope, m.scope_attrs),
    ensures
        OtelMetricView::of_parts(
            m.metric.with_point_attributes(m.dp_attrs),
            resource_joined(m.resource, m.resource_attrs),
            scope_joined(m.scope, m.scope_attrs),
            m.metadata,
        ) == m,
{
    lemma_resource_and_scope(m.resource, m.resource_attrs, m.scope, m.scope_attrs);
    let kvs = listed_attributes(m.dp_attrs);
    let full = m.metric.with_point_attributes(m.dp_attrs);
    if let Some(d) = m.metric.data {
        assert forall|i: int| 0 <= i < kvs.len() implies (#[trigger] d.point_attributes()[i]).len()
            == 0 by {
            assert(m.metric.point_attributes()[i].len() == 0);
        }
        lemma_data_points(d, kvs);
        assert forall|i: int| 0 <= i < kvs.len() implies gathered_attributes(kvs)[i]
            == m.dp_attrs[i] by {
            law_key_values_round_trip(m.dp_attrs[i]);
        }
        assert(gathered_attributes(kvs) =~= m.dp_attrs);
    } else {
        assert(gathered_attributes(full.point_attributes()) =~= m.dp_attrs);
    }
}

} // verus!
