//! Metric events: more ways to make them and to read their attributes.
use vstd::prelude::*;

use crate::any_value::{string_value, AnyView};
use crate::attributes::{attrs_overlaid, OtelAttributes};
use crate::double::{is_less, is_same, less, magnitude, same};
use crate::keyed::{opt_view, value_of, views, with_entry};
use crate::log_value::overlay;
use crate::metadata::MetadataView;
use crate::metric::{points_with, points_without, set_points, OtelMetric, OtelMetricView};
use crate::metric_kind::{sum_rates, total_rate, Bucket, DELTA, MetricKind, Sample};
use crate::metric_new::{counts_of, limits_of, named, rates_of, values_of};
use crate::metric_read::sum_or_zero;
use crate::otlp::ScopeView;
use crate::otlp_metric::{
    Buckets, BucketsView, Data, DataView, ExponentialHistogram, ExponentialHistogramDataPoint,
    ExponentialHistogramDataPointView, ExponentialHistogramView, Metric, MetricMessageView,
};
use crate::series::{IdentityView, MetricIdentity};
use crate::text::{joined_text, str_eq};

verus! {

/// The event with a histogram whose bounds grow exponentially.
pub open spec fn exponential_event(
    name: Seq<char>,
    point: ExponentialHistogramDataPointView,
    metadata: MetadataView,
) -> OtelMetricView {
    OtelMetricView::of_metric(
        named(
            name,
            DataView::ExponentialHistogram(
                ExponentialHistogramView { data_points: seq![point], aggregation_temporality: DELTA },
            ),
        ),
        metadata,
    )
}

fn exponential_metric(name: String, point: ExponentialHistogramDataPoint) -> (r: OtelMetric)
    ensures
        r@ == exponential_event(name@, point@, r@.metadata),
        r@.metadata.is_default(),
{
    let data = ExponentialHistogram { data_points: vec![point], aggregation_temporality: DELTA };
    assert(views(data.data_points@) =~= seq![point@]);
    OtelMetric::new(
        Metric { name, data: Some(Data::ExponentialHistogram(data)), ..Metric::default() },
    )
}

/// Whether a double without a sign is neither zero nor infinite nor a NaN.
pub open spec fn is_ordinary(bits: u64) -> bool {
    0 < bits < 0x7ff0_0000_0000_0000
}

/// The exponent of a double without a sign, where it is written as a fraction from one half on, below
/// one, times a power of two; zero where it cannot be.
pub open spec fn exponent_of(bits: u64) -> int {
    if is_ordinary(bits) {
        (bits / 0x10_0000_0000_0000) as int - 1022
    } else {
        0
    }
}

/// The bits of the fraction of a double without a sign, where it is written as a fraction from one
/// half on, below one, times a power of two; those of the double where it cannot be.
pub open spec fn fraction_of(bits: u64) -> u64 {
    if is_ordinary(bits) {
        (bits % 0x10_0000_0000_0000 + 0x3fe0_0000_0000_0000) as u64
    } else {
        bits
    }
}

/// The index of the bucket that a double without a sign belongs into, at the scale 20. `steps` is how
/// many steps of the scale a fraction lies above one half.
pub open spec fn bucket_index(bits: u64, steps: spec_fn(u64) -> int) -> int {
    if fraction_of(bits) == 0x3fe0_0000_0000_0000 {
        (exponent_of(bits) - 1) * 0x10_0000 - 1
    } else {
        exponent_of(bits) * 0x10_0000 + steps(fraction_of(bits)) - 1
    }
}

/// Whether `log` may give what `steps` says of the fraction of a double without a sign, where it is
/// asked for it.
pub open spec fn index_drawn<F: Fn(u64) -> i32>(log: F, bits: u64, steps: spec_fn(u64) -> int) -> bool {
    fraction_of(bits) != 0x3fe0_0000_0000_0000 ==> exists|r: i32| #[trigger]
        call_ensures(log, (fraction_of(bits),), r) && r == steps(fraction_of(bits))
}

/// Whether `log` may give what `steps` says of the fraction of a double that is counted, where it is
/// asked for it.
pub open spec fn steps_drawn<F: Fn(u64) -> i32>(log: F, value: u64, steps: spec_fn(u64) -> int) -> bool {
    !same(value, 0) ==> index_drawn(log, magnitude(value), steps)
}

/// Whether `log` gives a number of steps: none is negative, and a fraction lies no more than the
/// steps of one power of two above one half.
pub open spec fn is_step_count<F: Fn(u64) -> i32>(log: F) -> bool {
    &&& forall|b: u64| call_requires(log, (b,))
    &&& forall|b: u64, r: i32| #[trigger]
        call_ensures(log, (b,), r) ==> 0 <= r && (b < 0x3ff0_0000_0000_0000 ==> r <= 0x10_0000)
}

/// The data point that counts one value.
pub open spec fn single_point(value: u64, steps: spec_fn(u64) -> int) -> ExponentialHistogramDataPointView {
    let zero = same(value, 0);
    let bucket = BucketsView {
        offset: bucket_index(magnitude(value), steps) as i32,
        bucket_counts: seq![1u64],
    };
    let none = BucketsView::default_view();
    ExponentialHistogramDataPointView {
        count: 1,
        sum: Some(value),
        scale: 20,
        zero_count: if zero {
            1
        } else {
            0
        },
        positive: Some(
            if !zero && less(0, value) {
                bucket
            } else {
                none
            },
        ),
        negative: Some(
            if !zero && !less(0, value) {
                bucket
            } else {
                none
            },
        ),
        min: Some(value),
        max: Some(value),
        ..ExponentialHistogramDataPointView::default_view()
    }
}

/// The index of the bucket that a double without a sign belongs into, at the scale 20.
fn find_index<F: Fn(u64) -> i32>(bits: u64, log: F) -> (r: i32)
    requires
        is_step_count(log),
        bits < 0x8000_0000_0000_0000,
    ensures
        exists|steps: spec_fn(u64) -> int|
            r == #[trigger] bucket_index(bits, steps) && index_drawn(log, bits, steps),
{
    let ordinary = 0 < bits && bits < 0x7ff0_0000_0000_0000;
    let exponent: i32 = if ordinary {
        (bits / 0x10_0000_0000_0000) as i32 - 1022
    } else {
        0
    };
    let fraction: u64 = if ordinary {
        bits % 0x10_0000_0000_0000 + 0x3fe0_0000_0000_0000
    } else {
        bits
    };
    assert(-1022 <= exponent <= 1024);
    if fraction == 0x3fe0_0000_0000_0000 {
        let r: i32 = (exponent - 1) * 0x10_0000 - 1;
        assert(r == bucket_index(bits, |b: u64| 0));
        r
    } else {
        let steps = log(fraction);
        let r: i32 = exponent * 0x10_0000 - 1 + steps;
        assert(call_ensures(log, (fraction,), steps));
        assert(r == bucket_index(bits, |b: u64| steps as int));
        r
    }
}

/// The event after attributes of its resource were copied to its data points.
pub open spec fn flattened(m: OtelMetricView, keys: Seq<Seq<char>>) -> OtelMetricView
    decreases keys.len(),
{
    if keys.len() == 0 {
        m
    } else {
        let before = flattened(m, keys.drop_last());
        match value_of(m.resource_attrs, keys.last()) {
            Some(v) => before.with_point_attribute(keys.last(), v),
            None => before,
        }
    }
}

/// The attributes of a resource, each under its name after `resource.`, but for the one that names
/// the namespace and for the empty ones.
pub open spec fn prefixed(attrs: Seq<(Seq<char>, AnyView)>) -> Seq<(Seq<char>, AnyView)>
    decreases attrs.len(),
{
    if attrs.len() == 0 {
        Seq::empty()
    } else {
        let before = prefixed(attrs.drop_last());
        let (key, v) = attrs.last();
        if key == "metric.namespace"@ || v is Empty {
            before
        } else {
            with_entry(before, "resource."@ + key, v)
        }
    }
}

/// The attributes with the name and the version of a scope.
pub open spec fn with_scope(attrs: Seq<(Seq<char>, AnyView)>, scope: Option<ScopeView>) -> Seq<
    (Seq<char>, AnyView),
> {
    match scope {
        Some(s) => {
            let named = if s.name.len() == 0 {
                attrs
            } else {
                with_entry(attrs, "scope.name"@, AnyView::Str(s.name))
            };
            if s.version.len() == 0 {
                named
            } else {
                with_entry(named, "scope.version"@, AnyView::Str(s.version))
            }
        },
        None => attrs,
    }
}

/// The attributes, or nothing where there are none.
pub open spec fn unless_empty(attrs: Seq<(Seq<char>, AnyView)>) -> Option<
    Seq<(Seq<char>, AnyView)>,
> {
    if attrs.len() == 0 {
        None
    } else {
        Some(attrs)
    }
}

fn as_option(attrs: OtelAttributes) -> (r: Option<OtelAttributes>)
    ensures
        opt_view(r) == unless_empty(attrs@),
{
    if attrs.is_empty() {
        None
    } else {
        Some(attrs)
    }
}

impl OtelMetricView {
    /// The attributes of the first data point.
    pub open spec fn first_attrs(&self) -> Seq<(Seq<char>, AnyView)> {
        if self.dp_attrs.len() == 0 {
            Seq::empty()
        } else {
            self.dp_attrs[0]
        }
    }

    /// The event with attributes set on its data points.
    pub open spec fn with_attrs(self, attrs: Seq<(Seq<char>, AnyView)>) -> OtelMetricView
        decreases attrs.len(),
    {
        if attrs.len() == 0 {
            self
        } else {
            let before = self.with_attrs(attrs.drop_last());
            let (key, v) = attrs.last();
            OtelMetricView {
                dp_attrs: points_with(points_without(before.dp_attrs, key), key, v),
                ..before
            }
        }
    }
}

impl OtelMetric {
    /// Convenience constructor for a histogram whose bounds grow exponentially.
    pub fn new_exponential_histogram(
        name: String,
        scale: i32,
        count: u64,
        sum: u64,
        zero_count: u64,
        positive: Buckets,
        negative: Buckets,
        min: Option<u64>,
        max: Option<u64>,
    ) -> (r: Self)
        ensures
            r@ == exponential_event(
                name@,
                ExponentialHistogramDataPointView {
                    count,
                    sum: Some(sum),
                    scale,
                    zero_count,
                    positive: Some(positive@),
                    negative: Some(negative@),
                    min: Some(sum_or_zero(min)),
                    max: Some(sum_or_zero(max)),
                    ..ExponentialHistogramDataPointView::default_view()
                },
                r@.metadata,
            ),
            r@.metadata.is_default(),
    {
        exponential_metric(
            name,
            ExponentialHistogramDataPoint {
                count,
                sum: Some(sum),
                scale,
                zero_count,
                positive: Some(positive),
                negative: Some(negative),
                min: Some(min.unwrap_or(0)),
                max: Some(max.unwrap_or(0)),
                ..ExponentialHistogramDataPoint::default()
            },
        )
    }

    /// Convenience constructor for a histogram whose bounds grow exponentially that counts one value.
    /// `log` gives how many steps of the scale a fraction lies above one half.
    pub fn new_exponential_histogram_single<F: Fn(u64) -> i32>(name: String, value: u64, log: F) -> (r:
        Self)
        requires
            is_step_count(log),
        ensures
            exists|steps: spec_fn(u64) -> int|
                r@ == exponential_event(
                    name@,
                    #[trigger] single_point(value, steps),
                    r@.metadata,
                ) && steps_drawn(log, value, steps),
            r@.metadata.is_default(),
    {
        let ghost mut steps = |b: u64| 0int;
        let mut positive = Buckets::default();
        let mut negative = Buckets::default();
        let mut zero_count: u64 = 0;
        if is_same(value, 0) {
            zero_count = 1;
        } else {
            let index = find_index(value % 0x8000_0000_0000_0000, log);
            proof {
                steps = choose|steps: spec_fn(u64) -> int|
                    index == #[trigger] bucket_index(magnitude(value), steps) && index_drawn(
                        log,
                        magnitude(value),
                        steps,
                    );
            }
            let bucket = Buckets { offset: index, bucket_counts: vec![1] };
            assert(bucket@.bucket_counts =~= seq![1u64]);
            if is_less(0, value) {
                positive = bucket;
            } else {
                negative = bucket;
            }
        }
        let ghost given = name@;
        let r = exponential_metric(
            name,
            ExponentialHistogramDataPoint {
                count: 1,
                sum: Some(value),
                scale: 20,
                zero_count,
                positive: Some(positive),
                negative: Some(negative),
                min: Some(value),
                max: Some(value),
                ..ExponentialHistogramDataPoint::default()
            },
        );
        assert(r@ == exponential_event(given, single_point(value, steps), r@.metadata));
        r
    }

    /// Convenience constructor for a histogram with a bucket for each sample. `sum` sums up the
    /// values of samples, each as often as it was measured.
    pub fn new_histogram_from_samples<F: Fn(&Vec<Sample>) -> u64>(
        name: String,
        kind: MetricKind,
        samples: &Vec<Sample>,
        sum: F,
    ) -> (r: Self)
        requires
            total_rate(samples@) <= u32::MAX,
            call_requires(sum, (samples,)),
        ensures
            exists|total: u64|
                #[trigger] call_ensures(sum, (samples,), total) && r@ == OtelMetricView::of_samples(
                    name@,
                    kind,
                    samples@,
                    total,
                    r@.metadata,
                ),
            r@.metadata.is_default(),
    {
        let mut buckets: Vec<Bucket> = Vec::new();
        let mut i: usize = 0;
        while i < samples.len()
            invariant
                i <= samples@.len(),
                buckets@.len() == i,
                forall|j: int|
                    0 <= j < i ==> #[trigger] buckets@[j] == (Bucket {
                        upper_limit: samples@[j].value,
                        count: samples@[j].rate as u64,
                    }),
            decreases samples@.len() - i,
        {
            buckets.push(Bucket { upper_limit: samples[i].value, count: samples[i].rate as u64 });
            i = i + 1;
        }
        assert(counts_of(buckets@) =~= rates_of(samples@));
        assert(limits_of(buckets@) =~= values_of(samples@));
        let count = sum_rates(samples);
        let total = sum(samples);
        assert(call_ensures(sum, (samples,), total));
        OtelMetric::new_histogram(name, kind, &buckets, count, total)
    }

    pub fn with_unit(self, unit: String) -> (r: Self)
        ensures
            r@ == (OtelMetricView {
                metric: MetricMessageView { unit: unit@, ..self@.metric },
                ..self@
            }),
    {
        let mut m = self;
        m.metric.unit = unit;
        m
    }

    /// Copies attributes of the resource to the data points.
    pub fn flatten_resource_to_tags(&mut self, keys: &Vec<String>)
        ensures
            final(self)@ == flattened(old(self)@, views(keys@)),
    {
        let ghost all = views(keys@);
        assert(all.take(0) =~= Seq::empty());
        let mut i: usize = 0;
        while i < keys.len()
            invariant
                i <= keys@.len(),
                all == views(keys@),
                self@ == flattened(old(self)@, all.take(i as int)),
                self.resource_attrs == old(self).resource_attrs,
            decreases keys@.len() - i,
        {
            assert(all.take(i + 1).drop_last() =~= all.take(i as int));
            let found = match self.resource_attrs.get(keys[i].as_str()) {
                Some(v) => Some(v.clone()),
                None => None,
            };
            if let Some(v) = found {
                set_points(&mut self.dp_attrs, keys[i].as_str(), &v);
            }
            i = i + 1;
        }
        assert(all.take(i as int) =~= all);
    }

    /// Builder-style: set interval_ms by adjusting start_time_unix_nano relative to time_unix_nano.
    pub fn with_interval_ms(self, interval: Option<u32>) -> (r: Self)
        ensures
            r@ == match (interval, self@.metric.data) {
                (Some(ms), Some(d)) => self@.with_data(d.started((ms * 1_000_000) as u64)),
                _ => self@,
            },
    {
        let mut m = self;
        if let Some(ms) = interval {
            if let Some(data) = &mut m.metric.data {
                data.set_start(ms as u64 * 1_000_000);
            }
        }
        m
    }

    /// Builder-style: set attributes of the data points.
    pub fn with_attributes(self, tags: Option<OtelAttributes>) -> (r: Self)
        ensures
            r@ == match tags {
                Some(t) => self@.with_attrs(t@),
                None => self@,
            },
    {
        let mut m = self;
        if let Some(tags) = tags {
            let ghost all = tags@;
            assert(all.take(0) =~= Seq::empty());
            let mut i: usize = 0;
            while i < tags.inner.entries.len()
                invariant
                    i <= tags.inner.entries@.len(),
                    all == tags@,
                    m@ == self@.with_attrs(all.take(i as int)),
                decreases tags.inner.entries@.len() - i,
            {
                assert(all.take(i + 1).drop_last() =~= all.take(i as int));
                let key: &str = tags.inner.entries[i].0.as_str();
                m.remove_data_point_attribute(key);
                m.set_data_point_attribute(key.to_owned(), tags.inner.entries[i].1.clone());
                i = i + 1;
            }
            assert(all.take(i as int) =~= all);
        }
        m
    }

    /// The attributes of the first data point, or nothing where there are none.
    pub fn data_point_tags(&self) -> (r: Option<OtelAttributes>)
        ensures
            opt_view(r) == unless_empty(self@.first_attrs()),
    {
        if self.dp_attrs.len() == 0 {
            None
        } else {
            as_option(self.dp_attrs[0].clone())
        }
    }

    /// The attributes of the resource, of the scope and of the first data point together, or nothing
    /// where there are none.
    pub fn all_tags_including_resource(&self) -> (r: Option<OtelAttributes>)
        ensures
            opt_view(r) == unless_empty(
                attrs_overlaid(
                    with_scope(prefixed(self@.resource_attrs), self@.scope),
                    self@.first_attrs(),
                ),
            ),
    {
        let mut attrs = OtelAttributes::new();
        let ghost all = self@.resource_attrs;
        assert(all.take(0) =~= Seq::empty());
        let mut i: usize = 0;
        while i < self.resource_attrs.inner.entries.len()
            invariant
                i <= self.resource_attrs.inner.entries@.len(),
                all == self@.resource_attrs,
                attrs@ == prefixed(all.take(i as int)),
            decreases self.resource_attrs.inner.entries@.len() - i,
        {
            assert(all.take(i + 1).drop_last() =~= all.take(i as int));
            let key: &str = self.resource_attrs.inner.entries[i].0.as_str();
            let value = &self.resource_attrs.inner.entries[i].1;
            if !str_eq(key, "metric.namespace") && value.value.is_some() {
                attrs.insert(joined_text("resource.", key), value.clone());
            }
            i = i + 1;
        }
        assert(all.take(i as int) =~= all);
        if let Some(scope) = &self.scope {
            if !scope.name.as_str().is_empty() {
                attrs.insert("scope.name".to_string(), string_value(scope.name.as_str()));
            }
            if !scope.version.as_str().is_empty() {
                attrs.insert("scope.version".to_string(), string_value(scope.version.as_str()));
            }
        }
        if self.dp_attrs.len() > 0 {
            overlay(&mut attrs, self.dp_attrs[0].clone());
        }
        as_option(attrs)
    }

    /// The name, the namespace and the attributes of the first data point of this metric.
    pub fn metric_identity(&self) -> (r: MetricIdentity)
        ensures
            r@ == (IdentityView {
                name: self@.metric.name,
                namespace: self@.namespace(),
                tags: unless_empty(self@.first_attrs()),
            }),
    {
        MetricIdentity {
            name: self.metric.name.clone(),
            namespace: match self.namespace() {
                Some(ns) => Some(ns.to_owned()),
                None => None,
            },
            tags: self.data_point_tags(),
        }
    }
}

} // verus!
