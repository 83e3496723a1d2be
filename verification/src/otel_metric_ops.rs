//! What a metric event with the values of a set does as one without them does.
use vstd::prelude::*;

use crate::any_value::{AnyValue, AnyView};
use crate::attributes::{attrs_from_kvs, attrs_overlaid, OtelAttributes};
use crate::canonical::{full_resource, full_scope};
use crate::double::double_of_nat;
use crate::event_tags::{TaggedEventsSent, Tags};
use crate::json::{Json, JsonView};
use crate::keyed::{opt_view, value_of, views};
use crate::log::{resource_joined, resource_stripped, scope_joined, scope_stripped, split_resource};
use crate::log_value::overlay;
use crate::metadata::EventMetadata;
use crate::metric::{first_value, points_with, points_without, OtelMetricView};
use crate::metric_convert::is_converted;
use crate::metric_extra::{
    exponential_event, flattened, is_step_count, prefixed, single_point, steps_drawn, unless_empty,
    with_scope,
};
use crate::metric_kind::{total_rate, Bucket, CUMULATIVE, DELTA, MetricKind, Quantile, Sample};
use crate::metric_math::data_zeroed;
use crate::metric_new::{
    counter_data, counts_of, double_point, histogram_data, limits_of, named, plain_histogram,
    quantile_values, summary_data,
};
use crate::metric_ops::{first_double, nanos_or_zero, singles, with_first_double};
use crate::metric_read::sum_or_zero;
use crate::otel_metric::{plain, MetricEventView, OtelMetric};
use crate::otlp::{InstrumentationScope, Resource};
use crate::otlp_metric::{
    Buckets, DataView, ExponentialHistogramDataPointView, Metric, MetricMessageView,
    SummaryDataPointView,
};
use crate::time::Timestamp;

verus! {

impl OtelMetric {
    /// Convenience constructor for a counter metric.
    pub fn new_counter(name: String, kind: MetricKind, value: u64) -> (r: Self)
        ensures
            r@.event == OtelMetricView::of_metric(
                named(name@, counter_data(kind.as_temporality(), double_point(value))),
                r@.event.metadata,
            ),
            r@.event.metadata.is_default(),
            r@ == plain(r@.event),
    {
        Self::from_event(crate::metric::OtelMetric::new_counter(name, kind, value))
    }

    /// Convenience constructor for an aggregated histogram metric.
    pub fn new_histogram(
        name: String,
        kind: MetricKind,
        buckets: &Vec<Bucket>,
        count: u64,
        sum: u64,
    ) -> (r: Self)
        ensures
            r@.event == OtelMetricView::of_metric(
                named(
                    name@,
                    histogram_data(
                        kind.as_temporality(),
                        plain_histogram(count, sum, counts_of(buckets@), limits_of(buckets@)),
                    ),
                ),
                r@.event.metadata,
            ),
            r@.event.metadata.is_default(),
            r@ == plain(r@.event),
    {
        Self::from_event(crate::metric::OtelMetric::new_histogram(name, kind, buckets, count, sum))
    }

    /// Convenience constructor for an aggregated summary metric.
    pub fn new_summary(name: String, quantiles: &Vec<Quantile>, count: u64, sum: u64) -> (r: Self)
        ensures
            r@.event == OtelMetricView::of_metric(
                named(
                    name@,
                    summary_data(
                        SummaryDataPointView {
                            count,
                            sum,
                            quantile_values: quantile_values(quantiles@),
                            ..SummaryDataPointView::default_view()
                        },
                    ),
                ),
                r@.event.metadata,
            ),
            r@.event.metadata.is_default(),
            r@ == plain(r@.event),
    {
        Self::from_event(crate::metric::OtelMetric::new_summary(name, quantiles, count, sum))
    }

    /// Convenience constructor for a set metric.
    /// There is no native set type; represented as a Gauge whose value
    /// is the cardinality (number of unique values).
    pub fn new_set(name: String, cardinality: usize) -> (r: Self)
        ensures
            r@.event == OtelMetricView::of_gauge(
                name@,
                double_of_nat(cardinality as nat) as u64,
                r@.event.metadata,
            ),
            r@.event.metadata.is_default(),
            r@ == plain(r@.event),
    {
        Self::from_event(crate::metric::OtelMetric::new_set(name, cardinality))
    }

    /// Convenience constructor for a histogram whose bounds grow exponentially.
    pub fn new_exponential_histogram(
        name: String,
        scale: i32,
        count: u64,
        sum: u64,
        zero_count: u64,
        positive: Buckets,
        negative: Buckets,
        min: Option<u64>,
        max: Option<u64>,
    ) -> (r: Self)
        ensures
            r@.event == exponential_event(
                name@,
                ExponentialHistogramDataPointView {
                    count,
                    sum: Some(sum),
                    scale,
                    zero_count,
                    positive: Some(positive@),
                    negative: Some(negative@),
                    min: Some(sum_or_zero(min)),
                    max: Some(sum_or_zero(max)),
                    ..ExponentialHistogramDataPointView::default_view()
                },
                r@.event.metadata,
            ),
            r@.event.metadata.is_default(),
            r@ == plain(r@.event),
    {
        Self::from_event(
            crate::metric::OtelMetric::new_exponential_histogram(
                name,
                scale,
                count,
                sum,
                zero_count,
                positive,
                negative,
                min,
                max,
            ),
        )
    }

    /// Convenience constructor for a histogram whose bounds grow exponentially that counts one value.
    /// `log` gives how many steps of the scale a fraction lies above one half.
    pub fn new_exponential_histogram_single<F: Fn(u64) -> i32>(name: String, value: u64, log: F) -> (r:
        Self)
        requires
            is_step_count(log),
        ensures
            exists|steps: spec_fn(u64) -> int|
                r@.event == exponential_event(
                    name@,
                    #[trigger] single_point(value, steps),
                    r@.event.metadata,
                ) && steps_drawn(log, value, steps),
            r@.event.metadata.is_default(),
            r@ == plain(r@.event),
    {
        Self::from_event(
            crate::metric::OtelMetric::new_exponential_histogram_single(name, value, log),
        )
    }

    /// Convenience constructor for a histogram with a bucket for each sample. `sum` sums up the
    /// values of samples, each as often as it was measured.
    pub fn new_histogram_from_samples<F: Fn(&Vec<Sample>) -> u64>(
        name: String,
        kind: MetricKind,
        samples: &Vec<Sample>,
        sum: F,
    ) -> (r: Self)
        requires
            total_rate(samples@) <= u32::MAX,
            call_requires(sum, (samples,)),
        ensures
            exists|total: u64|
                #[trigger] call_ensures(sum, (samples,), total) && r@.event
                    == OtelMetricView::of_samples(
                    name@,
                    kind,
                    samples@,
                    total,
                    r@.event.metadata,
                ),
            r@.event.metadata.is_default(),
            r@ == plain(r@.event),
    {
        Self::from_event(
            crate::metric::OtelMetric::new_histogram_from_samples(name, kind, samples, sum),
        )
    }

    /// A metric event with a metric, a resource, a scope and metadata.
    pub fn from_parts(
        metric: Metric,
        resource: Option<Resource>,
        scope: Option<InstrumentationScope>,
        metadata: EventMetadata,
    ) -> (r: Self)
        ensures
            r@.event == OtelMetricView::of_parts(metric@, opt_view(resource), opt_view(scope), metadata@),
            r@ == plain(r@.event),
    {
        Self::from_event(crate::metric::OtelMetric::from_parts(metric, resource, scope, metadata))
    }

    /// The metric, the resource and the scope, each with its attributes, and the metadata.
    pub fn into_parts(self) -> (r: (
        Metric,
        Option<Resource>,
        Option<InstrumentationScope>,
        EventMetadata,
    ))
        ensures
            r.0@ == self@.event.metric.with_point_attributes(self@.event.dp_attrs),
            opt_view(r.1) == resource_joined(self@.event.resource, self@.event.resource_attrs),
            opt_view(r.2) == scope_joined(self@.event.scope, self@.event.scope_attrs),
            r.3@ == self@.event.metadata,
    {
        self.event.into_parts()
    }

    /// The metric with the attributes of its data points.
    pub fn metric_proto(&self) -> (r: Metric)
        ensures
            r@ == self@.event.metric.with_point_attributes(self@.event.dp_attrs),
    {
        self.event.metric_proto()
    }

    /// The message of the metric, without the attributes of its data points.
    pub fn metric(&self) -> (r: &Metric)
        ensures
            r@ == self@.event.metric,
    {
        self.event.metric()
    }

    /// The message of the metric, to change it.
    pub fn metric_mut(&mut self) -> (r: &mut Metric)
        ensures
            (*r)@ == old(self)@.event.metric,
            final(self)@.event == (OtelMetricView { metric: (*final(r))@, ..old(self)@.event }),
            final(self)@ == (MetricEventView { event: final(self)@.event, ..old(self)@ }),
    {
        self.event.metric_mut()
    }

    /// The resource, without its attributes.
    pub fn resource(&self) -> (r: Option<&Resource>)
        ensures
            opt_view(r) == self@.event.resource,
    {
        self.event.resource()
    }

    /// The resource with its attributes, or nothing where there is neither.
    pub fn resource_proto(&self) -> (r: Option<Resource>)
        ensures
            opt_view(r) == full_resource(self@.event.resource, self@.event.resource_attrs),
    {
        self.event.resource_proto()
    }

    /// The scope with its attributes, or nothing where there is neither.
    pub fn scope_proto(&self) -> (r: Option<InstrumentationScope>)
        ensures
            opt_view(r) == full_scope(self@.event.scope, self@.event.scope_attrs),
    {
        self.event.scope_proto()
    }

    /// The attributes of the resource.
    pub fn resource_attrs(&self) -> (r: &OtelAttributes)
        ensures
            r@ == self@.event.resource_attrs,
    {
        self.event.resource_attrs()
    }

    /// The attributes of the scope.
    pub fn scope_attrs(&self) -> (r: &OtelAttributes)
        ensures
            r@ == self@.event.scope_attrs,
    {
        self.event.scope_attrs()
    }

    /// The scope, without its attributes.
    pub fn scope(&self) -> (r: Option<&InstrumentationScope>)
        ensures
            opt_view(r) == self@.event.scope,
    {
        self.event.scope()
    }

    /// Sets the scope.
    pub fn set_scope(&mut self, scope: InstrumentationScope)
        ensures
            final(self)@.event == (OtelMetricView {
                scope: Some(scope_stripped(scope@)),
                scope_attrs: attrs_from_kvs(scope@.attributes),
                ..old(self)@.event
            }),
            final(self)@ == (MetricEventView { event: final(self)@.event, ..old(self)@ }),
    {
        self.event.set_scope(scope);
    }

    /// The metadata of the event.
    pub fn metadata(&self) -> (r: &EventMetadata)
        ensures
            r@ == self@.event.metadata,
    {
        self.event.metadata()
    }

    /// The metadata of the event, to change it.
    pub fn metadata_mut(&mut self) -> (r: &mut EventMetadata)
        ensures
            (*r)@ == old(self)@.event.metadata,
            final(self)@.event == (OtelMetricView { metadata: (*final(r))@, ..old(self)@.event }),
            final(self)@ == (MetricEventView { event: final(self)@.event, ..old(self)@ }),
    {
        self.event.metadata_mut()
    }

    /// What the metric is about.
    pub fn description(&self) -> (r: &str)
        ensures
            r@ == self@.event.metric.description,
    {
        self.event.description()
    }

    /// The unit of the metric.
    pub fn unit(&self) -> (r: &str)
        ensures
            r@ == self@.event.metric.unit,
    {
        self.event.unit()
    }

    /// Builder-style: set the unit.
    pub fn with_unit(self, unit: String) -> (r: Self)
        ensures
            r@.event == (OtelMetricView {
                metric: MetricMessageView { unit: unit@, ..self@.event.metric },
                ..self@.event
            }),
            r@ == (MetricEventView { event: r@.event, ..self@ }),
    {
        OtelMetric {
            event: self.event.with_unit(unit),
            set_values: self.set_values,
            kind_override: self.kind_override,
        }
    }

    /// The attributes of the first data point.
    pub fn first_dp_attrs(&self) -> (r: Option<&OtelAttributes>)
        ensures
            opt_view(r) == if self@.event.dp_attrs.len() == 0 {
                None
            } else {
                Some(self@.event.dp_attrs[0])
            },
    {
        self.event.first_dp_attrs()
    }

    /// Sets an attribute of each data point.
    pub fn set_data_point_attribute(&mut self, key: String, value: AnyValue)
        ensures
            final(self)@.event == old(self)@.event.with_point_attribute(key@, value@),
            final(self)@ == (MetricEventView { event: final(self)@.event, ..old(self)@ }),
    {
        self.event.set_data_point_attribute(key, value);
    }

    /// Copies attributes of the resource to the data points.
    pub fn flatten_resource_to_tags(&mut self, keys: &Vec<String>)
        ensures
            final(self)@.event == flattened(old(self)@.event, views(keys@)),
            final(self)@ == (MetricEventView { event: final(self)@.event, ..old(self)@ }),
    {
        self.event.flatten_resource_to_tags(keys);
    }

    /// Reduces each attribute of the data points that is a list to the last text in it.
    pub fn reduce_tags_to_single(&mut self)
        ensures
            final(self)@.event == (OtelMetricView {
                dp_attrs: Seq::new(
                    old(self)@.event.dp_attrs.len(),
                    |i: int| singles(old(self)@.event.dp_attrs[i]),
                ),
                ..old(self)@.event
            }),
            final(self)@ == (MetricEventView { event: final(self)@.event, ..old(self)@ }),
    {
        self.event.reduce_tags_to_single();
    }

    /// Removes an attribute of each data point, and gives the first value that it had.
    pub fn remove_data_point_attribute(&mut self, key: &str) -> (r: Option<AnyValue>)
        ensures
            final(self)@.event == (OtelMetricView {
                dp_attrs: points_without(old(self)@.event.dp_attrs, key@),
                ..old(self)@.event
            }),
            opt_view(r) == first_value(old(self)@.event.dp_attrs, key@),
            final(self)@ == (MetricEventView { event: final(self)@.event, ..old(self)@ }),
    {
        self.event.remove_data_point_attribute(key)
    }

    /// Replace a tag: remove existing attribute, and set the new value.
    pub fn replace_tag(&mut self, key: String, value: String)
        ensures
            final(self)@.event == (OtelMetricView {
                dp_attrs: points_with(
                    points_without(old(self)@.event.dp_attrs, key@),
                    key@,
                    AnyView::Str(value@),
                ),
                ..old(self)@.event
            }),
            final(self)@ == (MetricEventView { event: final(self)@.event, ..old(self)@ }),
    {
        self.event.replace_tag(key, value);
    }

    /// An attribute of the resource.
    pub fn resource_attribute(&self, key: &str) -> (r: Option<&AnyValue>)
        ensures
            opt_view(r) == value_of(self@.event.resource_attrs, key@),
    {
        self.event.resource_attribute(key)
    }

    /// Sets an attribute of the resource, making a resource where there is none.
    pub fn set_resource_attribute(&mut self, key: String, value: AnyValue)
        ensures
            final(self)@.event == old(self)@.event.with_resource_attribute(key@, value@),
            final(self)@ == (MetricEventView { event: final(self)@.event, ..old(self)@ }),
    {
        self.event.set_resource_attribute(key, value);
    }

    /// Get the metric timestamp from the first data point.
    pub fn timestamp(&self) -> (r: Option<Timestamp>)
        ensures
            r == self@.event.timestamp(),
    {
        self.event.timestamp()
    }

    /// Get the interval between start_time and end_time in milliseconds.
    pub fn interval_ms(&self) -> (r: Option<u32>)
        ensures
            r == self@.event.interval_ms(),
    {
        self.event.interval_ms()
    }

    /// Set the timestamp on all data points.
    ///
    /// Note: `None` sets `time_unix_nano` to 0, which `timestamp()` reads back
    /// as `None`. A `Some(ts)` at the Unix epoch (1970-01-01T00:00:00Z) also
    /// produces nanos == 0 and will be read back as `None`.
    pub fn set_timestamp(&mut self, ts: Option<Timestamp>)
        ensures
            final(self)@.event == old(self)@.event.at(nanos_or_zero(ts)),
            final(self)@ == (MetricEventView { event: final(self)@.event, ..old(self)@ }),
    {
        self.event.set_timestamp(ts);
    }

    /// Set the metric namespace (stored as `metric.namespace` resource attribute).
    pub fn set_namespace(&mut self, namespace: &str)
        ensures
            final(self)@.event == old(self)@.event.with_resource_attribute(
                "metric.namespace"@,
                AnyView::Str(namespace@),
            ),
            final(self)@ == (MetricEventView { event: final(self)@.event, ..old(self)@ }),
    {
        self.event.set_namespace(namespace);
    }

    /// Builder-style: set the metadata.
    pub fn with_metadata(self, metadata: EventMetadata) -> (r: Self)
        ensures
            r@.event == (OtelMetricView { metadata: metadata@, ..self@.event }),
            r@ == (MetricEventView { event: r@.event, ..self@ }),
    {
        OtelMetric {
            event: self.event.with_metadata(metadata),
            set_values: self.set_values,
            kind_override: self.kind_override,
        }
    }

    /// The attributes of the resource, of the scope and of the first data point together, or nothing
    /// where there are none.
    pub fn all_tags_including_resource(&self) -> (r: Option<OtelAttributes>)
        ensures
            opt_view(r) == unless_empty(
                attrs_overlaid(
                    with_scope(prefixed(self@.event.resource_attrs), self@.event.scope),
                    self@.event.first_attrs(),
                ),
            ),
    {
        self.event.all_tags_including_resource()
    }

    /// Get the metric namespace from the `metric.namespace` resource attribute.
    pub fn namespace(&self) -> (r: Option<&str>)
        ensures
            match r {
                Some(s) => self@.event.namespace() == Some(s@),
                None => self@.event.namespace() is None,
            },
    {
        self.event.namespace()
    }

    /// Get the value of a tag. `shown` shows a double.
    pub fn tag_value<F: Fn(u64) -> String>(&self, key: &str, shown: F) -> (r: Option<String>)
        requires
            forall|b: u64| call_requires(shown, (b,)),
        ensures
            forall|text: spec_fn(u64) -> Seq<char>| #[trigger]
                self@.event.tags_shown(shown, text) ==> opt_view(r) == self@.event.tag_value(
                    key@,
                    text,
                ),
            exists|text: spec_fn(u64) -> Seq<char>|
                opt_view(r) == #[trigger] self@.event.tag_value(key@, text)
                    && self@.event.tag_drawn(shown, key@, text),
    {
        self.event.tag_value(key, shown)
    }

    /// Check whether a tag with the given name matches the given value. `shown` shows a double.
    pub fn tag_matches<F: Fn(u64) -> String>(&self, name: &str, value: &str, shown: F) -> (r: bool)
        requires
            forall|b: u64| call_requires(shown, (b,)),
        ensures
            forall|text: spec_fn(u64) -> Seq<char>| #[trigger]
                self@.event.tags_shown(shown, text) ==> r == (self@.event.tag_value(name@, text)
                    == Some(value@)),
            exists|text: spec_fn(u64) -> Seq<char>|
                r == (#[trigger] self@.event.tag_value(name@, text) == Some(value@))
                    && self@.event.tag_drawn(shown, name@, text),
    {
        self.event.tag_matches(name, value, shown)
    }

    /// Zero out all data point values in this metric.
    pub fn zero(&mut self)
        ensures
            final(self)@.event == match old(self)@.event.metric.data {
                Some(d) => old(self)@.event.with_opt_data(Some(data_zeroed(d))),
                None => old(self)@.event,
            },
            final(self)@ == (MetricEventView { event: final(self)@.event, ..old(self)@ }),
    {
        self.event.zero();
    }

    /// Set the first data point value (Sum or Gauge only), given by its bits.
    pub fn set_first_value(&mut self, val: u64)
        ensures
            final(self)@.event == match old(self)@.event.metric.data {
                Some(d) => match d.numbers() {
                    Some(points) => old(self)@.event.with_data(
                        d.with_numbers(with_first_double(points, val)),
                    ),
                    None => old(self)@.event,
                },
                None => old(self)@.event,
            },
            final(self)@ == (MetricEventView { event: final(self)@.event, ..old(self)@ }),
    {
        self.event.set_first_value(val);
    }

    /// Get the first data point value as the bits of a double, if this is a Sum or Gauge.
    pub fn first_value_as_f64(&self) -> (r: Option<u64>)
        ensures
            r == match self@.event.metric.data {
                Some(d) => match d.numbers() {
                    Some(points) => first_double(points),
                    None => None,
                },
                None => None,
            },
    {
        self.event.first_value_as_f64()
    }

    /// Check if this metric is a delta (incremental) type.
    /// Only Sum, Histogram, and ExponentialHistogram have an aggregation temporality.
    /// Gauge and Summary are point-in-time and neither delta nor cumulative.
    pub fn is_delta(&self) -> (r: bool)
        ensures
            r == (self@.event.temporality() == Some(DELTA)),
    {
        self.event.is_delta()
    }

    /// Check if this metric is cumulative. Gauge and Summary have no temporality
    /// and return `false`.
    pub fn is_cumulative(&self) -> (r: bool)
        ensures
            r == (self@.event.temporality() == Some(CUMULATIVE)),
    {
        self.event.is_cumulative()
    }

    /// Check if this metric type carries an aggregation temporality field.
    /// Sum, Histogram, and ExponentialHistogram have temporality.
    /// Gauge and Summary do not.
    pub fn has_temporality(&self) -> (r: bool)
        ensures
            r == (self@.event.temporality() is Some),
    {
        self.event.has_temporality()
    }

    /// Check if this metric is a Gauge type.
    pub fn is_gauge(&self) -> (r: bool)
        ensures
            r == (self@.event.metric.data matches Some(DataView::Gauge(_))),
    {
        self.event.is_gauge()
    }

    /// Check if this metric is a Sum type.
    pub fn is_sum(&self) -> (r: bool)
        ensures
            r == (self@.event.metric.data matches Some(DataView::Sum(_))),
    {
        self.event.is_sum()
    }

    /// If this metric is an ExponentialHistogram, convert it in-place to an
    /// explicit-bounds Histogram using the given target bucket boundaries.
    /// Returns true if conversion happened, false if the metric was not an
    /// ExponentialHistogram. `midpoint` gives, for a scale and an exponent, the middle of the bucket
    /// that lies between the bounds for the exponent and for the next one.
    pub fn convert_exponential_to_histogram<F: Fn(i32, i32) -> u64>(
        &mut self,
        target_bounds: &Vec<u64>,
        midpoint: F,
    ) -> (r: bool)
        requires
            target_bounds@.len() < usize::MAX,
            old(self)@.event.is_convertible(),
            forall|s: i32, e: i32| call_requires(midpoint, (s, e)),
        ensures
            r == (old(self)@.event.metric.data matches Some(DataView::ExponentialHistogram(_))),
            !r ==> final(self)@.event == old(self)@.event,
            old(self)@.event.metric.data matches Some(DataView::ExponentialHistogram(e)) ==> {
                &&& final(self)@.event == old(self)@.event.with_opt_data(final(self)@.event.metric.data)
                &&& final(self)@.event.metric.data matches Some(DataView::Histogram(h))
                &&& h.aggregation_temporality == e.aggregation_temporality
                &&& e.data_points.len() == 0 ==> h.data_points.len() == 0
                &&& e.data_points.len() > 0 ==> h.data_points.len() == 1 && is_converted(
                    e.data_points[0],
                    target_bounds@,
                    midpoint,
                    h.data_points[0],
                )
            },
            final(self)@ == (MetricEventView { event: final(self)@.event, ..old(self)@ }),
    {
        self.event.convert_exponential_to_histogram(target_bounds, midpoint)
    }

    /// Convert this metric to a list of key-value pairs suitable for use as
    /// the body of a log event. Includes name, description, unit, and data (sum/gauge/
    /// histogram/summary/exponentialHistogram). Does NOT include resource/scope
    /// — those should be transferred directly to the log event.
    pub fn to_log_body(&self) -> (r: AnyValue)
        ensures
            r@ == self@.event.metric.with_point_attributes(self@.event.dp_attrs).body(),
    {
        self.event.to_log_body()
    }

    /// The event as a JSON object.
    pub fn to_json(&self) -> (r: Json)
        ensures
            r@ == JsonView::Object(self@.event.json_fields()),
    {
        self.event.to_json()
    }

    /// Whether two metric events hold the same data.
    pub fn event_data_eq(&self, other: &OtelMetric) -> (r: bool)
        ensures
            r == self@.event.same_data(&other@.event),
    {
        self.event.event_data_eq(&other.event)
    }

    /// Sets the resource. The attributes that the resource had stay as they were, and those of the
    /// new one come beside them.
    pub fn set_resource(&mut self, resource: Resource)
        ensures
            final(self)@ == (MetricEventView {
                event: OtelMetricView {
                    resource: Some(resource_stripped(resource@)),
                    resource_attrs: attrs_overlaid(
                        attrs_from_kvs(resource@.attributes),
                        old(self)@.event.resource_attrs,
                    ),
                    ..old(self)@.event
                },
                ..old(self)@
            }),
    {
        let (rest, attrs) = split_resource(resource);
        let mut attrs = attrs;
        overlay(&mut attrs, self.event.resource_attrs.clone());
        self.event.resource_attrs = attrs;
        self.event.resource = Some(rest);
    }

    /// The tags by which the metric is counted.
    pub fn get_tags(&self, tags: Tags) -> (r: TaggedEventsSent)
        ensures
            r@ == self@.event.event_tags(tags),
    {
        self.event.get_tags(tags)
    }
}

} // verus!
