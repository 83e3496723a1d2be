//! When the data of spans and metrics count as equal. Doubles are equal as numbers.
use vstd::prelude::*;

use crate::any_value::AnyView;
use crate::attributes::OtelAttributes;
use crate::double::{is_same, same};
use crate::equality::{
    attrs_eq, bytes_eq, kvs_eq, resource_eq, same_attrs, same_kvs, same_resource, same_scope,
    scope_eq,
};
use crate::keyed::{opt_view, views};
use crate::metric::{OtelMetric, OtelMetricView};
use crate::otlp_metric::{
    Buckets, BucketsView, Data, DataView, Exemplar, ExemplarView, ExponentialHistogramDataPoint,
    ExponentialHistogramDataPointView, HistogramDataPoint, HistogramDataPointView, Metric,
    MetricMessageView, NumberDataPoint, NumberDataPointView, NumberValue, SummaryDataPoint,
    SummaryDataPointView, ValueAtQuantile, ValueAtQuantileView,
};
use crate::otlp_span::{
    Span, SpanEvent, SpanEventView, SpanLink, SpanLinkView, SpanView, Status, StatusView,
};
use crate::span::{OtelSpan, OtelSpanView};
use crate::text::str_eq;

verus! {

/// A message that can be compared with another one.
pub trait SameData: View + Sized {
    /// Whether two messages are equal.
    spec fn same_data(a: Self::V, b: Self::V) -> bool;

    fn is_same_data(&self, other: &Self) -> (r: bool)
        ensures
            r == Self::same_data(self@, other@),
    ;
}

/// Whether two lists of messages are equal.
pub open spec fn same_list<T: SameData>(a: Seq<T::V>, b: Seq<T::V>) -> bool {
    a.len() == b.len() && forall|i: int|
        #![trigger a[i]]
        0 <= i < a.len() ==> T::same_data(a[i], b[i])
}

fn list_eq<T: SameData>(a: &Vec<T>, b: &Vec<T>) -> (r: bool)
    ensures
        r == same_list::<T>(views(a@), views(b@)),
{
    let ghost av = views(a@);
    let ghost bv = views(b@);
    if a.len() != b.len() {
        return false;
    }
    let mut i: usize = 0;
    while i < a.len()
        invariant
            i <= a@.len(),
            a@.len() == b@.len(),
            av == views(a@),
            bv == views(b@),
            forall|j: int| #![trigger av[j]] 0 <= j < i ==> T::same_data(av[j], bv[j]),
        decreases a@.len() - i,
    {
        if !a[i].is_same_data(&b[i]) {
            assert(!T::same_data(av[i as int], bv[i as int]));
            return false;
        }
        i = i + 1;
    }
    true
}

/// Whether two optional messages are equal.
pub open spec fn same_option<T: SameData>(a: Option<T::V>, b: Option<T::V>) -> bool {
    match (a, b) {
        (Some(x), Some(y)) => T::same_data(x, y),
        (None, None) => true,
        _ => false,
    }
}

fn option_eq<T: SameData>(a: &Option<T>, b: &Option<T>) -> (r: bool)
    ensures
        r == same_option::<T>(opt_view(*a), opt_view(*b)),
{
    match (a, b) {
        (Some(x), Some(y)) => x.is_same_data(y),
        (None, None) => true,
        _ => false,
    }
}

/// Whether two numbers are equal.
pub open spec fn same_number(a: Option<NumberValue>, b: Option<NumberValue>) -> bool {
    match (a, b) {
        (Some(NumberValue::AsDouble(x)), Some(NumberValue::AsDouble(y))) => same(x, y),
        (Some(NumberValue::AsInt(x)), Some(NumberValue::AsInt(y))) => x == y,
        (None, None) => true,
        _ => false,
    }
}

fn number_eq(a: &Option<NumberValue>, b: &Option<NumberValue>) -> (r: bool)
    ensures
        r == same_number(*a, *b),
{
    match (a, b) {
        (Some(NumberValue::AsDouble(x)), Some(NumberValue::AsDouble(y))) => is_same(*x, *y),
        (Some(NumberValue::AsInt(x)), Some(NumberValue::AsInt(y))) => *x == *y,
        (None, None) => true,
        _ => false,
    }
}

/// Whether two optional doubles are equal.
pub open spec fn same_opt_double(a: Option<u64>, b: Option<u64>) -> bool {
    match (a, b) {
        (Some(x), Some(y)) => same(x, y),
        (None, None) => true,
        _ => false,
    }
}

fn opt_double_eq(a: &Option<u64>, b: &Option<u64>) -> (r: bool)
    ensures
        r == same_opt_double(*a, *b),
{
    match (a, b) {
        (Some(x), Some(y)) => is_same(*x, *y),
        (None, None) => true,
        _ => false,
    }
}

/// Whether two lists of doubles are equal.
pub open spec fn same_doubles(a: Seq<u64>, b: Seq<u64>) -> bool {
    a.len() == b.len() && forall|i: int| 0 <= i < a.len() ==> same(#[trigger] a[i], b[i])
}

fn doubles_eq(a: &Vec<u64>, b: &Vec<u64>) -> (r: bool)
    ensures
        r == same_doubles(a@, b@),
{
    if a.len() != b.len() {
        return false;
    }
    let mut i: usize = 0;
    while i < a.len()
        invariant
            i <= a@.len(),
            a@.len() == b@.len(),
            forall|j: int| 0 <= j < i ==> same(#[trigger] a@[j], b@[j]),
        decreases a@.len() - i,
    {
        if !is_same(a[i], b[i]) {
            return false;
        }
        i = i + 1;
    }
    true
}

fn words_eq(a: &Vec<u64>, b: &Vec<u64>) -> (r: bool)
    ensures
        r == (a@ == b@),
{
    if a.len() != b.len() {
        return false;
    }
    let mut i: usize = 0;
    while i < a.len()
        invariant
            i <= a@.len(),
            a@.len() == b@.len(),
            forall|j: int| 0 <= j < i ==> #[trigger] a@[j] == b@[j],
        decreases a@.len() - i,
    {
        if a[i] != b[i] {
            return false;
        }
        i = i + 1;
    }
    assert(a@ =~= b@);
    true
}

impl SameData for SpanEvent {
    open spec fn same_data(a: SpanEventView, b: SpanEventView) -> bool {
        &&& a.time_unix_nano == b.time_unix_nano
        &&& a.name == b.name
        &&& same_kvs(a.attributes, b.attributes)
        &&& a.dropped_attributes_count == b.dropped_attributes_count
    }

    fn is_same_data(&self, other: &Self) -> (r: bool) {
        self.time_unix_nano == other.time_unix_nano
            && str_eq(self.name.as_str(), other.name.as_str())
            && kvs_eq(&self.attributes, &other.attributes)
            && self.dropped_attributes_count == other.dropped_attributes_count
    }
}

impl SameData for SpanLink {
    open spec fn same_data(a: SpanLinkView, b: SpanLinkView) -> bool {
        &&& a.trace_id == b.trace_id
        &&& a.span_id == b.span_id
        &&& a.trace_state == b.trace_state
        &&& same_kvs(a.attributes, b.attributes)
        &&& a.dropped_attributes_count == b.dropped_attributes_count
        &&& a.flags == b.flags
    }

    fn is_same_data(&self, other: &Self) -> (r: bool) {
        bytes_eq(&self.trace_id, &other.trace_id)
            && bytes_eq(&self.span_id, &other.span_id)
            && str_eq(self.trace_state.as_str(), other.trace_state.as_str())
            && kvs_eq(&self.attributes, &other.attributes)
            && self.dropped_attributes_count == other.dropped_attributes_count
            && self.flags == other.flags
    }
}

impl SameData for Status {
    open spec fn same_data(a: StatusView, b: StatusView) -> bool {
        &&& a.message == b.message
        &&& a.code == b.code
    }

    fn is_same_data(&self, other: &Self) -> (r: bool) {
        str_eq(self.message.as_str(), other.message.as_str())
            && self.code == other.code
    }
}

impl SameData for Span {
    open spec fn same_data(a: SpanView, b: SpanView) -> bool {
        &&& a.trace_id == b.trace_id
        &&& a.span_id == b.span_id
        &&& a.trace_state == b.trace_state
        &&& a.parent_span_id == b.parent_span_id
        &&& a.flags == b.flags
        &&& a.name == b.name
        &&& a.kind == b.kind
        &&& a.start_time_unix_nano == b.start_time_unix_nano
        &&& a.end_time_unix_nano == b.end_time_unix_nano
        &&& same_kvs(a.attributes, b.attributes)
        &&& a.dropped_attributes_count == b.dropped_attributes_count
        &&& same_list::<SpanEvent>(a.events, b.events)
        &&& a.dropped_events_count == b.dropped_events_count
        &&& same_list::<SpanLink>(a.links, b.links)
        &&& a.dropped_links_count == b.dropped_links_count
        &&& same_option::<Status>(a.status, b.status)
    }

    fn is_same_data(&self, other: &Self) -> (r: bool) {
        bytes_eq(&self.trace_id, &other.trace_id)
            && bytes_eq(&self.span_id, &other.span_id)
            && str_eq(self.trace_state.as_str(), other.trace_state.as_str())
            && bytes_eq(&self.parent_span_id, &other.parent_span_id)
            && self.flags == other.flags
            && str_eq(self.name.as_str(), other.name.as_str())
            && self.kind == other.kind
            && self.start_time_unix_nano == other.start_time_unix_nano
            && self.end_time_unix_nano == other.end_time_unix_nano
            && kvs_eq(&self.attributes, &other.attributes)
            && self.dropped_attributes_count == other.dropped_attributes_count
            && list_eq(&self.events, &other.events)
            && self.dropped_events_count == other.dropped_events_count
            && list_eq(&self.links, &other.links)
            && self.dropped_links_count == other.dropped_links_count
            && option_eq(&self.status, &other.status)
    }
}

impl SameData for Exemplar {
    open spec fn same_data(a: ExemplarView, b: ExemplarView) -> bool {
        &&& same_kvs(a.filtered_attributes, b.filtered_attributes)
        &&& a.time_unix_nano == b.time_unix_nano
        &&& a.span_id == b.span_id
        &&& a.trace_id == b.trace_id
        &&& same_number(a.value, b.value)
    }

    fn is_same_data(&self, other: &Self) -> (r: bool) {
        kvs_eq(&self.filtered_attributes, &other.filtered_attributes)
            && self.time_unix_nano == other.time_unix_nano
            && bytes_eq(&self.span_id, &other.span_id)
            && bytes_eq(&self.trace_id, &other.trace_id)
            && number_eq(&self.value, &other.value)
    }
}

impl SameData for NumberDataPoint {
    open spec fn same_data(a: NumberDataPointView, b: NumberDataPointView) -> bool {
        &&& same_kvs(a.attributes, b.attributes)
        &&& a.start_time_unix_nano == b.start_time_unix_nano
        &&& a.time_unix_nano == b.time_unix_nano
        &&& same_list::<Exemplar>(a.exemplars, b.exemplars)
        &&& a.flags == b.flags
        &&& same_number(a.value, b.value)
    }

    fn is_same_data(&self, other: &Self) -> (r: bool) {
        kvs_eq(&self.attributes, &other.attributes)
            && self.start_time_unix_nano == other.start_time_unix_nano
            && self.time_unix_nano == other.time_unix_nano
            && list_eq(&self.exemplars, &other.exemplars)
            && self.flags == other.flags
            && number_eq(&self.value, &other.value)
    }
}

impl SameData for HistogramDataPoint {
    open spec fn same_data(a: HistogramDataPointView, b: HistogramDataPointView) -> bool {
        &&& same_kvs(a.attributes, b.attributes)
        &&& a.start_time_unix_nano == b.start_time_unix_nano
        &&& a.time_unix_nano == b.time_unix_nano
        &&& a.count == b.count
        &&& same_opt_double(a.sum, b.sum)
        &&& a.bucket_counts == b.bucket_counts
        &&& same_doubles(a.explicit_bounds, b.explicit_bounds)
        &&& same_list::<Exemplar>(a.exemplars, b.exemplars)
        &&& a.flags == b.flags
        &&& same_opt_double(a.min, b.min)
        &&& same_opt_double(a.max, b.max)
    }

    fn is_same_data(&self, other: &Self) -> (r: bool) {
        kvs_eq(&self.attributes, &other.attributes)
            && self.start_time_unix_nano == other.start_time_unix_nano
            && self.time_unix_nano == other.time_unix_nano
            && self.count == other.count
            && opt_double_eq(&self.sum, &other.sum)
            && words_eq(&self.bucket_counts, &other.bucket_counts)
            && doubles_eq(&self.explicit_bounds, &other.explicit_bounds)
            && list_eq(&self.exemplars, &other.exemplars)
            && self.flags == other.flags
            && opt_double_eq(&self.min, &other.min)
            && opt_double_eq(&self.max, &other.max)
    }
}

impl SameData for Buckets {
    open spec fn same_data(a: BucketsView, b: BucketsView) -> bool {
        &&& a.offset == b.offset
        &&& a.bucket_counts == b.bucket_counts
    }

    fn is_same_data(&self, other: &Self) -> (r: bool) {
        self.offset == other.offset
            && words_eq(&self.bucket_counts, &other.bucket_counts)
    }
}

impl SameData for ExponentialHistogramDataPoint {
    open spec fn same_data(a: ExponentialHistogramDataPointView, b: ExponentialHistogramDataPointView) -> bool {
        &&& same_kvs(a.attributes, b.attributes)
        &&& a.start_time_unix_nano == b.start_time_unix_nano
        &&& a.time_unix_nano == b.time_unix_nano
        &&& a.count == b.count
        &&& same_opt_double(a.sum, b.sum)
        &&& a.scale == b.scale
        &&& a.zero_count == b.zero_count
        &&& same_option::<Buckets>(a.positive, b.positive)
        &&& same_option::<Buckets>(a.negative, b.negative)
        &&& a.flags == b.flags
        &&& same_list::<Exemplar>(a.exemplars, b.exemplars)
        &&& same_opt_double(a.min, b.min)
        &&& same_opt_double(a.max, b.max)
        &&& same(a.zero_threshold, b.zero_threshold)
    }

    fn is_same_data(&self, other: &Self) -> (r: bool) {
        kvs_eq(&self.attributes, &other.attributes)
            && self.start_time_unix_nano == other.start_time_unix_nano
            && self.time_unix_nano == other.time_unix_nano
            && self.count == other.count
            && opt_double_eq(&self.sum, &other.sum)
            && self.scale == other.scale
            && self.zero_count == other.zero_count
            && option_eq(&self.positive, &other.positive)
            && option_eq(&self.negative, &other.negative)
            && self.flags == other.flags
            && list_eq(&self.exemplars, &other.exemplars)
            && opt_double_eq(&self.min, &other.min)
            && opt_double_eq(&self.max, &other.max)
            && is_same(self.zero_threshold, other.zero_threshold)
    }
}

impl SameData for ValueAtQuantile {
    open spec fn same_data(a: ValueAtQuantileView, b: ValueAtQuantileView) -> bool {
        &&& same(a.quantile, b.quantile)
        &&& same(a.value, b.value)
    }

    fn is_same_data(&self, other: &Self) -> (r: bool) {
        is_same(self.quantile, other.quantile)
            && is_same(self.value, other.value)
    }
}

impl SameData for SummaryDataPoint {
    open spec fn same_data(a: SummaryDataPointView, b: SummaryDataPointView) -> bool {
        &&& same_kvs(a.attributes, b.attributes)
        &&& a.start_time_unix_nano == b.start_time_unix_nano
        &&& a.time_unix_nano == b.time_unix_nano
        &&& a.count == b.count
        &&& same(a.sum, b.sum)
        &&& same_list::<ValueAtQuantile>(a.quantile_values, b.quantile_values)
        &&& a.flags == b.flags
    }

    fn is_same_data(&self, other: &Self) -> (r: bool) {
        kvs_eq(&self.attributes, &other.attributes)
            && self.start_time_unix_nano == other.start_time_unix_nano
            && self.time_unix_nano == other.time_unix_nano
            && self.count == other.count
            && is_same(self.sum, other.sum)
            && list_eq(&self.quantile_values, &other.quantile_values)
            && self.flags == other.flags
    }
}

impl SameData for Data {
    open spec fn same_data(a: DataView, b: DataView) -> bool {
        match (a, b) {
            (DataView::Gauge(x), DataView::Gauge(y)) => same_list::<NumberDataPoint>(
                x.data_points,
                y.data_points,
            ),
            (DataView::Sum(x), DataView::Sum(y)) => {
                &&& same_list::<NumberDataPoint>(x.data_points, y.data_points)
                &&& x.aggregation_temporality == y.aggregation_temporality
                &&& x.is_monotonic == y.is_monotonic
            },
            (DataView::Histogram(x), DataView::Histogram(y)) => {
                &&& same_list::<HistogramDataPoint>(x.data_points, y.data_points)
                &&& x.aggregation_temporality == y.aggregation_temporality
            },
            (DataView::ExponentialHistogram(x), DataView::ExponentialHistogram(y)) => {
                &&& same_list::<ExponentialHistogramDataPoint>(x.data_points, y.data_points)
                &&& x.aggregation_temporality == y.aggregation_temporality
            },
            (DataView::Summary(x), DataView::Summary(y)) => same_list::<SummaryDataPoint>(
                x.data_points,
                y.data_points,
            ),
            _ => false,
        }
    }

    fn is_same_data(&self, other: &Self) -> (r: bool) {
        match (self, other) {
            (Data::Gauge(x), Data::Gauge(y)) => list_eq(&x.data_points, &y.data_points),
            (Data::Sum(x), Data::Sum(y)) => list_eq(&x.data_points, &y.data_points)
                && x.aggregation_temporality == y.aggregation_temporality && x.is_monotonic
                == y.is_monotonic,
            (Data::Histogram(x), Data::Histogram(y)) => list_eq(&x.data_points, &y.data_points)
                && x.aggregation_temporality == y.aggregation_temporality,
            (Data::ExponentialHistogram(x), Data::ExponentialHistogram(y)) => list_eq(
                &x.data_points,
                &y.data_points,
            ) && x.aggregation_temporality == y.aggregation_temporality,
            (Data::Summary(x), Data::Summary(y)) => list_eq(&x.data_points, &y.data_points),
            _ => false,
        }
    }
}

impl SameData for Metric {
    open spec fn same_data(a: MetricMessageView, b: MetricMessageView) -> bool {
        &&& a.name == b.name
        &&& a.description == b.description
        &&& a.unit == b.unit
        &&& same_kvs(a.metadata, b.metadata)
        &&& same_option::<Data>(a.data, b.data)
    }

    fn is_same_data(&self, other: &Self) -> (r: bool) {
        str_eq(self.name.as_str(), other.name.as_str()) && str_eq(
            self.description.as_str(),
            other.description.as_str(),
        ) && str_eq(self.unit.as_str(), other.unit.as_str()) && kvs_eq(
            &self.metadata,
            &other.metadata,
        ) && option_eq(&self.data, &other.data)
    }
}

impl SameData for OtelAttributes {
    open spec fn same_data(
        a: Seq<(Seq<char>, AnyView)>,
        b: Seq<(Seq<char>, AnyView)>,
    ) -> bool {
        same_attrs(a, b)
    }

    fn is_same_data(&self, other: &Self) -> (r: bool) {
        attrs_eq(self, other)
    }
}

impl OtelSpanView {
    /// Whether two span events hold the same data.
    pub open spec fn same_data(&self, other: &OtelSpanView) -> bool {
        &&& Span::same_data(self.span, other.span)
        &&& same_attrs(self.span_attrs, other.span_attrs)
        &&& same_resource(self.resource, other.resource)
        &&& same_attrs(self.resource_attrs, other.resource_attrs)
        &&& same_scope(self.scope, other.scope)
        &&& same_attrs(self.scope_attrs, other.scope_attrs)
    }
}

impl OtelSpan {
    /// Whether two span events hold the same data.
    pub fn event_data_eq(&self, other: &OtelSpan) -> (r: bool)
        ensures
            r == self@.same_data(&other@),
    {
        self.span.is_same_data(&other.span) && attrs_eq(&self.span_attrs, &other.span_attrs)
            && resource_eq(&self.resource, &other.resource) && attrs_eq(
            &self.resource_attrs,
            &other.resource_attrs,
        ) && scope_eq(&self.scope, &other.scope) && attrs_eq(&self.scope_attrs, &other.scope_attrs)
    }
}

impl OtelMetricView {
    /// Whether two metric events hold the same data.
    pub open spec fn same_data(&self, other: &OtelMetricView) -> bool {
        &&& Metric::same_data(self.metric, other.metric)
        &&& same_list::<OtelAttributes>(self.dp_attrs, other.dp_attrs)
        &&& same_resource(self.resource, other.resource)
        &&& same_attrs(self.resource_attrs, other.resource_attrs)
        &&& same_scope(self.scope, other.scope)
        &&& same_attrs(self.scope_attrs, other.scope_attrs)
    }
}

impl OtelMetric {
    /// Whether two metric events hold the same data.
    pub fn event_data_eq(&self, other: &OtelMetric) -> (r: bool)
        ensures
            r == self@.same_data(&other@),
    {
        self.metric.is_same_data(&other.metric) && list_eq(&self.dp_attrs, &other.dp_attrs)
            && resource_eq(&self.resource, &other.resource) && attrs_eq(
            &self.resource_attrs,
            &other.resource_attrs,
        ) && scope_eq(&self.scope, &other.scope) && attrs_eq(&self.scope_attrs, &other.scope_attrs)
    }
}

} // verus!
