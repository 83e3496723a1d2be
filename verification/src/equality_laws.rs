//! What holds of events that count as equal: which parts of them are, and that nothing else is compared.
//! A double counts as equal to itself unless it is a NaN, and the two zeros count as equal; the laws
//! speak of events without these three.
use vstd::prelude::*;

use crate::any_value::AnyView;
use crate::attributes::OtelAttributes;
use crate::double::{nan, same};
use crate::equality::{same_any, same_attrs, same_kvs, same_opt, same_resource, same_scope};
use crate::log::OtelLogView;
use crate::metric::OtelMetricView;
use crate::otlp::{LogRecordView, ResourceView, ScopeView};
use crate::otlp_metric::{
    Data, DataView, Exemplar, ExemplarView, ExponentialHistogramDataPoint,
    ExponentialHistogramDataPointView, HistogramDataPoint, HistogramDataPointView, NumberDataPoint,
    NumberDataPointView, NumberValue, SummaryDataPoint, SummaryDataPointView, ValueAtQuantile,
    ValueAtQuantileView,
};
use crate::otlp_span::{SpanEvent, SpanEventView, SpanLink, SpanLinkView, SpanView};
use crate::same_data::{same_doubles, same_list, same_number, same_opt_double, SameData};
use crate::span::OtelSpanView;

verus! {

/// Whether a double is equal to no other one and to itself: it is no NaN and not the negative zero.
pub open spec fn exact(d: u64) -> bool {
    !nan(d) && d != 0x8000_0000_0000_0000
}

/// Whether an optional double is exact.
pub open spec fn exact_opt(d: Option<u64>) -> bool {
    d matches Some(d) ==> exact(d)
}

/// Whether all of some doubles are exact.
pub open spec fn exact_all(bits: Seq<u64>) -> bool {
    forall|i: int| 0 <= i < bits.len() ==> exact(#[trigger] bits[i])
}

/// Whether all doubles in an attribute value are exact.
pub open spec fn exact_any(a: AnyView) -> bool
    decreases a,
{
    match a {
        AnyView::Double(d) => exact(d),
        AnyView::Array(items) => forall|i: int|
            0 <= i < items.len() ==> exact_any(#[trigger] items[i]),
        AnyView::Kvlist(kvs) => forall|i: int|
            0 <= i < kvs.len() ==> match (#[trigger] kvs[i]).1 {
                Some(v) => exact_any(v),
                None => true,
            },
        _ => true,
    }
}

/// Whether all doubles in named attributes are exact.
pub open spec fn exact_kvs(kvs: Seq<(Seq<char>, Option<AnyView>)>) -> bool {
    forall|i: int|
        0 <= i < kvs.len() ==> ((#[trigger] kvs[i]).1 matches Some(v) ==> exact_any(v))
}

/// Whether all doubles in attributes are exact.
pub open spec fn exact_attrs(attrs: Seq<(Seq<char>, AnyView)>) -> bool {
    forall|i: int| 0 <= i < attrs.len() ==> exact_any((#[trigger] attrs[i]).1)
}

/// Whether all doubles in the attributes of a resource are exact.
pub open spec fn exact_resource(r: Option<ResourceView>) -> bool {
    r matches Some(r) ==> exact_kvs(r.attributes)
}

/// Whether all doubles in the attributes of a scope are exact.
pub open spec fn exact_scope(s: Option<ScopeView>) -> bool {
    s matches Some(s) ==> exact_kvs(s.attributes)
}

proof fn lemma_same(a: u64, b: u64)
    requires
        exact(a),
        exact(b),
    ensures
        same(a, b) <==> a == b,
{
}

/// Attribute values without a NaN or a negative zero count as equal exactly where they are the same.
pub proof fn law_equal_values(a: AnyView, b: AnyView)
    requires
        exact_any(a),
        exact_any(b),
    ensures
        same_any(a, b) <==> a == b,
    decreases a,
{
    match (a, b) {
        (AnyView::Double(x), AnyView::Double(y)) => {
            lemma_same(x, y);
        },
        (AnyView::Array(x), AnyView::Array(y)) => {
            reveal_with_fuel(same_any, 2);
            reveal_with_fuel(exact_any, 2);
            if x.len() == y.len() {
                assert forall|i: int| 0 <= i < x.len() implies same_any(#[trigger] x[i], y[i]) == (x[i]
                    == y[i]) by {
                    assert(exact_any(x[i]) && exact_any(y[i]));
                    law_equal_values(x[i], y[i]);
                }
                if same_any(a, b) {
                    assert forall|i: int| 0 <= i < x.len() implies x[i] == y[i] by {
                        assert(same_any(x[i], y[i]));
                    }
                    assert(x =~= y);
                }
            }
        },
        (AnyView::Kvlist(x), AnyView::Kvlist(y)) => {
            reveal_with_fuel(same_any, 2);
            reveal_with_fuel(exact_any, 2);
            if x.len() == y.len() {
                assert forall|i: int| 0 <= i < x.len() && x[i].1 is Some && y[i].1 is Some implies same_any(
                    (#[trigger] x[i]).1->0,
                    y[i].1->0,
                ) == (x[i].1 == y[i].1) by {
                    assert(exact_any(x[i].1->0));
                    assert(y[i].1 is Some && exact_any(y[i].1->0));
                    law_equal_values(x[i].1->0, y[i].1->0);
                }
                if same_any(a, b) {
                    assert forall|i: int| 0 <= i < x.len() implies x[i] == y[i] by {
                        assert(x[i].0 == y[i].0);
                    }
                    assert(x =~= y);
                }
            }
        },
        _ => {},
    }
}

proof fn lemma_opt(a: Option<AnyView>, b: Option<AnyView>)
    requires
        a matches Some(v) ==> exact_any(v),
        b matches Some(v) ==> exact_any(v),
    ensures
        same_opt(a, b) <==> a == b,
{
    if a is Some && b is Some {
        law_equal_values(a->0, b->0);
    }
}

proof fn lemma_kvs(s: Seq<(Seq<char>, Option<AnyView>)>, t: Seq<(Seq<char>, Option<AnyView>)>)
    requires
        exact_kvs(s),
        exact_kvs(t),
    ensures
        same_kvs(s, t) <==> s == t,
{
    if s.len() == t.len() {
        assert forall|i: int| 0 <= i < s.len() implies same_opt((#[trigger] s[i]).1, t[i].1) == (s[i].1
            == t[i].1) by {
            assert(t[i].1 matches Some(v) ==> exact_any(v));
            lemma_opt(s[i].1, t[i].1);
        }
        if same_kvs(s, t) {
            assert forall|i: int| 0 <= i < s.len() implies s[i] == t[i] by {
                assert(s[i].0 == t[i].0 && same_opt(s[i].1, t[i].1));
            }
            assert(s =~= t);
        }
    }
}

proof fn lemma_attrs(s: Seq<(Seq<char>, AnyView)>, t: Seq<(Seq<char>, AnyView)>)
    requires
        exact_attrs(s),
        exact_attrs(t),
    ensures
        same_attrs(s, t) <==> s == t,
{
    if s.len() == t.len() {
        assert forall|i: int| 0 <= i < s.len() implies same_any((#[trigger] s[i]).1, t[i].1) == (s[i].1
            == t[i].1) by {
            assert(exact_any(t[i].1));
            law_equal_values(s[i].1, t[i].1);
        }
        if same_attrs(s, t) {
            assert forall|i: int| 0 <= i < s.len() implies s[i] == t[i] by {
                assert(s[i].0 == t[i].0 && same_any(s[i].1, t[i].1));
            }
            assert(s =~= t);
        }
    }
}

proof fn lemma_resource(a: Option<ResourceView>, b: Option<ResourceView>)
    requires
        exact_resource(a),
        exact_resource(b),
    ensures
        same_resource(a, b) <==> a == b,
{
    if a is Some && b is Some {
        lemma_kvs(a->0.attributes, b->0.attributes);
    }
}

proof fn lemma_scope(a: Option<ScopeView>, b: Option<ScopeView>)
    requires
        exact_scope(a),
        exact_scope(b),
    ensures
        same_scope(a, b) <==> a == b,
{
    if a is Some && b is Some {
        lemma_kvs(a->0.attributes, b->0.attributes);
    }
}

impl OtelLogView {
    /// Whether all doubles in the event are exact.
    pub open spec fn is_exact(&self) -> bool {
        &&& self.record.body matches Some(b) ==> exact_any(b)
        &&& exact_attrs(self.record_attrs)
        &&& exact_resource(self.resource)
        &&& exact_attrs(self.resource_attrs)
        &&& exact_scope(self.scope)
        &&& exact_attrs(self.scope_attrs)
    }
}

/// Two log events hold the same data exactly where all of them is the same but for when they were
/// observed, for their metadata, and for attributes that were left in the record itself.
pub proof fn law_equal_logs(a: OtelLogView, b: OtelLogView)
    requires
        a.is_exact(),
        b.is_exact(),
    ensures
        a.same_data(&b) <==> b == (OtelLogView {
            record: LogRecordView {
                observed_time_unix_nano: b.record.observed_time_unix_nano,
                attributes: b.record.attributes,
                ..a.record
            },
            metadata: b.metadata,
            ..a
        }),
{
    lemma_opt(a.record.body, b.record.body);
    lemma_attrs(a.record_attrs, b.record_attrs);
    lemma_resource(a.resource, b.resource);
    lemma_attrs(a.resource_attrs, b.resource_attrs);
    lemma_scope(a.scope, b.scope);
    lemma_attrs(a.scope_attrs, b.scope_attrs);
}

/// Whether all doubles in a span are exact.
pub open spec fn exact_span(s: SpanView) -> bool {
    &&& exact_kvs(s.attributes)
    &&& forall|i: int| 0 <= i < s.events.len() ==> exact_kvs((#[trigger] s.events[i]).attributes)
    &&& forall|i: int| 0 <= i < s.links.len() ==> exact_kvs((#[trigger] s.links[i]).attributes)
}

proof fn lemma_events(a: Seq<SpanEventView>, b: Seq<SpanEventView>)
    requires
        forall|i: int| 0 <= i < a.len() ==> exact_kvs((#[trigger] a[i]).attributes),
        forall|i: int| 0 <= i < b.len() ==> exact_kvs((#[trigger] b[i]).attributes),
    ensures
        same_list::<SpanEvent>(a, b) <==> a == b,
{
    if a.len() == b.len() {
        assert forall|i: int| 0 <= i < a.len() implies SpanEvent::same_data(#[trigger] a[i], b[i]) == (
        a[i] == b[i]) by {
            assert(exact_kvs(b[i].attributes));
            lemma_kvs(a[i].attributes, b[i].attributes);
        }
        if same_list::<SpanEvent>(a, b) {
            assert(a =~= b);
        }
    }
}

proof fn lemma_links(a: Seq<SpanLinkView>, b: Seq<SpanLinkView>)
    requires
        forall|i: int| 0 <= i < a.len() ==> exact_kvs((#[trigger] a[i]).attributes),
        forall|i: int| 0 <= i < b.len() ==> exact_kvs((#[trigger] b[i]).attributes),
    ensures
        same_list::<SpanLink>(a, b) <==> a == b,
{
    if a.len() == b.len() {
        assert forall|i: int| 0 <= i < a.len() implies SpanLink::same_data(#[trigger] a[i], b[i]) == (a[i]
            == b[i]) by {
            assert(exact_kvs(b[i].attributes));
            lemma_kvs(a[i].attributes, b[i].attributes);
        }
        if same_list::<SpanLink>(a, b) {
            assert(a =~= b);
        }
    }
}

/// Two span events hold the same data exactly where all of them but their metadata is the same.
pub proof fn law_equal_spans(a: OtelSpanView, b: OtelSpanView)
    requires
        exact_span(a.span),
        exact_span(b.span),
        exact_attrs(a.span_attrs),
        exact_attrs(b.span_attrs),
        exact_resource(a.resource),
        exact_resource(b.resource),
        exact_attrs(a.resource_attrs),
        exact_attrs(b.resource_attrs),
        exact_scope(a.scope),
        exact_scope(b.scope),
        exact_attrs(a.scope_attrs),
        exact_attrs(b.scope_attrs),
    ensures
        a.same_data(&b) <==> b == (OtelSpanView { metadata: b.metadata, ..a }),
{
    lemma_kvs(a.span.attributes, b.span.attributes);
    lemma_events(a.span.events, b.span.events);
    lemma_links(a.span.links, b.span.links);
    lemma_attrs(a.span_attrs, b.span_attrs);
    lemma_resource(a.resource, b.resource);
    lemma_attrs(a.resource_attrs, b.resource_attrs);
    lemma_scope(a.scope, b.scope);
    lemma_attrs(a.scope_attrs, b.scope_attrs);
}

/// Whether a number is exact where it is a double.
pub open spec fn exact_number(v: Option<NumberValue>) -> bool {
    v matches Some(NumberValue::AsDouble(d)) ==> exact(d)
}

/// Whether all doubles in exemplars are exact.
pub open spec fn exact_exemplars(e: Seq<ExemplarView>) -> bool {
    forall|i: int|
        0 <= i < e.len() ==> exact_kvs((#[trigger] e[i]).filtered_attributes) && exact_number(
            e[i].value,
        )
}

/// Whether all doubles in data points of a sum or a gauge are exact.
pub open spec fn exact_numbers(p: Seq<NumberDataPointView>) -> bool {
    forall|i: int|
        0 <= i < p.len() ==> exact_kvs((#[trigger] p[i]).attributes) && exact_number(p[i].value)
            && exact_exemplars(p[i].exemplars)
}

/// Whether all doubles in data points of a histogram are exact.
pub open spec fn exact_histograms(p: Seq<HistogramDataPointView>) -> bool {
    forall|i: int|
        0 <= i < p.len() ==> exact_kvs((#[trigger] p[i]).attributes) && exact_opt(p[i].sum)
            && exact_all(p[i].explicit_bounds) && exact_exemplars(p[i].exemplars) && exact_opt(p[i].min)
            && exact_opt(p[i].max)
}

/// Whether all doubles in data points of a histogram with exponential bounds are exact.
pub open spec fn exact_exponentials(p: Seq<ExponentialHistogramDataPointView>) -> bool {
    forall|i: int|
        0 <= i < p.len() ==> exact_kvs((#[trigger] p[i]).attributes) && exact_opt(p[i].sum)
            && exact_exemplars(p[i].exemplars) && exact_opt(p[i].min) && exact_opt(p[i].max) && exact(
            p[i].zero_threshold,
        )
}

/// Whether all doubles in values at quantiles are exact.
pub open spec fn exact_quantiles(q: Seq<ValueAtQuantileView>) -> bool {
    forall|i: int| 0 <= i < q.len() ==> exact((#[trigger] q[i]).quantile) && exact(q[i].value)
}

/// Whether all doubles in data points of a summary are exact.
pub open spec fn exact_summaries(p: Seq<SummaryDataPointView>) -> bool {
    forall|i: int|
        0 <= i < p.len() ==> exact_kvs((#[trigger] p[i]).attributes) && exact(p[i].sum)
            && exact_quantiles(p[i].quantile_values)
}

/// Whether all doubles in the data of a metric are exact.
pub open spec fn exact_data(d: DataView) -> bool {
    match d {
        DataView::Gauge(x) => exact_numbers(x.data_points),
        DataView::Sum(x) => exact_numbers(x.data_points),
        DataView::Histogram(x) => exact_histograms(x.data_points),
        DataView::ExponentialHistogram(x) => exact_exponentials(x.data_points),
        DataView::Summary(x) => exact_summaries(x.data_points),
    }
}

proof fn lemma_exemplars(a: Seq<ExemplarView>, b: Seq<ExemplarView>)
    requires
        exact_exemplars(a),
        exact_exemplars(b),
    ensures
        same_list::<Exemplar>(a, b) <==> a == b,
{
    if a.len() == b.len() {
        assert forall|i: int| 0 <= i < a.len() implies Exemplar::same_data(#[trigger] a[i], b[i]) == (a[i]
            == b[i]) by {
            assert(exact_kvs(b[i].filtered_attributes) && exact_number(b[i].value));
            lemma_kvs(a[i].filtered_attributes, b[i].filtered_attributes);
        }
        if same_list::<Exemplar>(a, b) {
            assert(a =~= b);
        }
    }
}

proof fn lemma_doubles(a: Seq<u64>, b: Seq<u64>)
    requires
        exact_all(a),
        exact_all(b),
    ensures
        same_doubles(a, b) <==> a == b,
{
    if a.len() == b.len() {
        assert forall|i: int| 0 <= i < a.len() implies same(#[trigger] a[i], b[i]) == (a[i] == b[i]) by {
            assert(exact(b[i]));
        }
        if same_doubles(a, b) {
            assert(a =~= b);
        }
    }
}

proof fn lemma_numbers(a: Seq<NumberDataPointView>, b: Seq<NumberDataPointView>)
    requires
        exact_numbers(a),
        exact_numbers(b),
    ensures
        same_list::<NumberDataPoint>(a, b) <==> a == b,
{
    if a.len() == b.len() {
        assert forall|i: int| 0 <= i < a.len() implies NumberDataPoint::same_data(
            #[trigger] a[i],
            b[i],
        ) == (a[i] == b[i]) by {
            assert(exact_kvs(b[i].attributes));
            lemma_kvs(a[i].attributes, b[i].attributes);
            lemma_exemplars(a[i].exemplars, b[i].exemplars);
        }
        if same_list::<NumberDataPoint>(a, b) {
            assert(a =~= b);
        }
    }
}

proof fn lemma_histograms(a: Seq<HistogramDataPointView>, b: Seq<HistogramDataPointView>)
    requires
        exact_histograms(a),
        exact_histograms(b),
    ensures
        same_list::<HistogramDataPoint>(a, b) <==> a == b,
{
    if a.len() == b.len() {
        assert forall|i: int| 0 <= i < a.len() implies HistogramDataPoint::same_data(
            #[trigger] a[i],
            b[i],
        ) == (a[i] == b[i]) by {
            assert(exact_kvs(b[i].attributes));
            lemma_kvs(a[i].attributes, b[i].attributes);
            lemma_exemplars(a[i].exemplars, b[i].exemplars);
            lemma_doubles(a[i].explicit_bounds, b[i].explicit_bounds);
        }
        if same_list::<HistogramDataPoint>(a, b) {
            assert(a =~= b);
        }
    }
}

proof fn lemma_exponentials(
    a: Seq<ExponentialHistogramDataPointView>,
    b: Seq<ExponentialHistogramDataPointView>,
)
    requires
        exact_exponentials(a),
        exact_exponentials(b),
    ensures
        same_list::<ExponentialHistogramDataPoint>(a, b) <==> a == b,
{
    if a.len() == b.len() {
        assert forall|i: int| 0 <= i < a.len() implies ExponentialHistogramDataPoint::same_data(
            #[trigger] a[i],
            b[i],
        ) == (a[i] == b[i]) by {
            assert(exact_kvs(b[i].attributes));
            lemma_kvs(a[i].attributes, b[i].attributes);
            lemma_exemplars(a[i].exemplars, b[i].exemplars);
        }
        if same_list::<ExponentialHistogramDataPoint>(a, b) {
            assert(a =~= b);
        }
    }
}

proof fn lemma_summaries(a: Seq<SummaryDataPointView>, b: Seq<SummaryDataPointView>)
    requires
        exact_summaries(a),
        exact_summaries(b),
    ensures
        same_list::<SummaryDataPoint>(a, b) <==> a == b,
{
    if a.len() == b.len() {
        assert forall|i: int| 0 <= i < a.len() implies SummaryDataPoint::same_data(
            #[trigger] a[i],
            b[i],
        ) == (a[i] == b[i]) by {
            assert(exact_kvs(b[i].attributes));
            lemma_kvs(a[i].attributes, b[i].attributes);
            let (x, y) = (a[i].quantile_values, b[i].quantile_values);
            if x.len() == y.len() {
                assert forall|j: int| 0 <= j < x.len() implies ValueAtQuantile::same_data(
                    #[trigger] x[j],
                    y[j],
                ) == (x[j] == y[j]) by {
                    assert(exact(y[j].quantile) && exact(y[j].value));
                }
                if same_list::<ValueAtQuantile>(x, y) {
                    assert(x =~= y);
                }
            }
        }
        if same_list::<SummaryDataPoint>(a, b) {
            assert(a =~= b);
        }
    }
}

proof fn lemma_data(a: DataView, b: DataView)
    requires
        exact_data(a),
        exact_data(b),
    ensures
        Data::same_data(a, b) <==> a == b,
{
    match (a, b) {
        (DataView::Gauge(x), DataView::Gauge(y)) => {
            lemma_numbers(x.data_points, y.data_points);
        },
        (DataView::Sum(x), DataView::Sum(y)) => {
            lemma_numbers(x.data_points, y.data_points);
        },
        (DataView::Histogram(x), DataView::Histogram(y)) => {
            lemma_histograms(x.data_points, y.data_points);
        },
        (DataView::ExponentialHistogram(x), DataView::ExponentialHistogram(y)) => {
            lemma_exponentials(x.data_points, y.data_points);
        },
        (DataView::Summary(x), DataView::Summary(y)) => {
            lemma_summaries(x.data_points, y.data_points);
        },
        _ => {},
    }
}

impl OtelMetricView {
    /// Whether all doubles in the event are exact.
    pub open spec fn is_exact(&self) -> bool {
        &&& exact_kvs(self.metric.metadata)
        &&& self.metric.data matches Some(d) ==> exact_data(d)
        &&& forall|i: int| 0 <= i < self.dp_attrs.len() ==> exact_attrs(#[trigger] self.dp_attrs[i])
        &&& exact_resource(self.resource)
        &&& exact_attrs(self.resource_attrs)
        &&& exact_scope(self.scope)
        &&& exact_attrs(self.scope_attrs)
    }
}

/// Two metric events hold the same data exactly where all of them but their metadata is the same.
pub proof fn law_equal_metrics(a: OtelMetricView, b: OtelMetricView)
    requires
        a.is_exact(),
        b.is_exact(),
    ensures
        a.same_data(&b) <==> b == (OtelMetricView { metadata: b.metadata, ..a }),
{
    lemma_kvs(a.metric.metadata, b.metric.metadata);
    if a.metric.data is Some && b.metric.data is Some {
        lemma_data(a.metric.data->0, b.metric.data->0);
    }
    let (x, y) = (a.dp_attrs, b.dp_attrs);
    if x.len() == y.len() {
        assert forall|i: int| 0 <= i < x.len() implies OtelAttributes::same_data(#[trigger] x[i], y[i])
            == (x[i] == y[i]) by {
            assert(exact_attrs(y[i]));
            lemma_attrs(x[i], y[i]);
        }
        if same_list::<OtelAttributes>(x, y) {
            assert(x =~= y);
        }
    }
    lemma_resource(a.resource, b.resource);
    lemma_attrs(a.resource_attrs, b.resource_attrs);
    lemma_scope(a.scope, b.scope);
    lemma_attrs(a.scope_attrs, b.scope_attrs);
}

/// Doubles count as equal where they are the same number: no NaN does, not even to itself, and the two
/// zeros do.
pub proof fn law_equal_doubles(a: u64, b: u64)
    ensures
        same_any(AnyView::Double(a), AnyView::Double(b)) == same_number(
            Some(NumberValue::AsDouble(a)),
            Some(NumberValue::AsDouble(b)),
        ),
        same_any(AnyView::Double(a), AnyView::Double(b)) == same_opt_double(Some(a), Some(b)),
        nan(a) ==> !same_any(AnyView::Double(a), AnyView::Double(b)),
        same_any(AnyView::Double(0), AnyView::Double(0x8000_0000_0000_0000)),
        exact(a) && exact(b) ==> (same_any(AnyView::Double(a), AnyView::Double(b)) <==> a == b),
{
}

} // verus!
