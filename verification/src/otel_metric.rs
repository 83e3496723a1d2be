//! Metric events that keep the values of a set and the kind of a gauge beside the message.
use vstd::prelude::*;

use crate::any_value::AnyView;
use crate::attributes::OtelAttributes;
use crate::double::{double_from_u64, double_of_nat};
use crate::keyed::{opt_view, views, with_entry, without_entry, KeyedMap};
use crate::metric::OtelMetricView;
use crate::metric_extra::unless_empty;
use crate::metric_kind::MetricKind;
use crate::metric_math::{
    add_fits, can_add, can_subtract, computes, data_added, data_is_added, data_is_subtracted,
    data_subtracted, subtract_fits,
};
use crate::metric_ops::{nanos_or_zero, with_first_double};
use crate::metric_read::{first_number, first_number_of, kind_of, sum_or_zero};
use crate::otlp_metric::{
    Buckets, BucketsView, Data, DataView, ExponentialHistogram, ExponentialHistogramDataPointView,
    Histogram, HistogramDataPointView, Metric, SummaryDataPointView, ValueAtQuantile,
    ValueAtQuantileView,
};
use crate::series::{IdentityView, MetricIdentity};
use crate::text::{decimal, i64_text, joined_text, signed_decimal, u64_text};
use crate::time::Timestamp;

verus! {

/// A metric event, with the values of the set where it is one, and with the kind of a metric whose
/// message has no place for it.
#[derive(Debug, PartialEq)]
pub struct OtelMetric {
    pub event: crate::metric::OtelMetric,
    pub set_values: Option<KeyedMap<bool>>,
    pub kind_override: Option<MetricKind>,
}

#[verifier::ext_equal]
pub struct MetricEventView {
    pub event: OtelMetricView,
    pub set_values: Option<Seq<(Seq<char>, bool)>>,
    pub kind_override: Option<MetricKind>,
}

impl View for OtelMetric {
    type V = MetricEventView;

    open spec fn view(&self) -> MetricEventView {
        MetricEventView {
            event: self.event@,
            set_values: opt_view(self.set_values),
            kind_override: self.kind_override,
        }
    }
}

/// The texts of a list, as the keys of a map.
pub open spec fn keys_of(texts: Seq<Seq<char>>) -> Seq<(Seq<char>, bool)>
    decreases texts.len(),
{
    if texts.len() == 0 {
        Seq::empty()
    } else {
        with_entry(keys_of(texts.drop_last()), texts.last(), true)
    }
}

/// The keys of a set after those of another one were added.
pub open spec fn keys_united(s: Seq<(Seq<char>, bool)>, t: Seq<(Seq<char>, bool)>) -> Seq<
    (Seq<char>, bool),
>
    decreases t.len(),
{
    if t.len() == 0 {
        s
    } else {
        with_entry(keys_united(s, t.drop_last()), t.last().0, true)
    }
}

/// The keys of a set after those of another one were removed.
pub open spec fn keys_reduced(s: Seq<(Seq<char>, bool)>, t: Seq<(Seq<char>, bool)>) -> Seq<
    (Seq<char>, bool),
>
    decreases t.len(),
{
    if t.len() == 0 {
        s
    } else {
        without_entry(keys_reduced(s, t.drop_last()), t.last().0)
    }
}

/// The view of a metric that has no values of a set and no kind of its own.
pub open spec fn plain(event: OtelMetricView) -> MetricEventView {
    MetricEventView { event, set_values: None, kind_override: None }
}

impl MetricEventView {
    /// The kind of the metric.
    pub open spec fn kind(&self) -> MetricKind {
        match self.event.metric.data {
            Some(DataView::Sum(s)) => kind_of(s.aggregation_temporality),
            Some(DataView::Histogram(h)) => kind_of(h.aggregation_temporality),
            Some(DataView::ExponentialHistogram(e)) => kind_of(e.aggregation_temporality),
            Some(_) => match self.kind_override {
                Some(kind) => kind,
                None => MetricKind::Absolute,
            },
            None => MetricKind::Absolute,
        }
    }

    /// The metric with the values of its set, and as the number of its gauge how many they are.
    pub open spec fn with_set(self, keys: Seq<(Seq<char>, bool)>) -> MetricEventView {
        MetricEventView {
            set_values: Some(keys),
            event: match self.event.metric.data {
                Some(DataView::Gauge(g)) => self.event.with_data(
                    DataView::Gauge(g).with_numbers(
                        with_first_double(g.data_points, double_of_nat(keys.len()) as u64),
                    ),
                ),
                _ => self.event,
            },
            ..self
        }
    }
}

/// What the data of a metric is, borrowed from it as far as possible.
#[derive(Debug)]
pub enum MetricView<'a> {
    Sum { value: u64 },
    Gauge { value: u64 },
    SetOf { values: Vec<String> },
    Histogram { bounds: &'a [u64], counts: &'a [u64], count: u64, sum: u64 },
    Summary { quantiles: &'a [ValueAtQuantile], count: u64, sum: u64 },
    ExponentialHistogram {
        scale: i32,
        count: u64,
        sum: u64,
        zero_count: u64,
        positive: Option<&'a Buckets>,
        negative: Option<&'a Buckets>,
        min: Option<u64>,
        max: Option<u64>,
    },
}

/// What the data of a metric is.
pub enum Seen {
    Sum { value: u64 },
    Gauge { value: u64 },
    SetOf { values: Seq<Seq<char>> },
    Histogram { bounds: Seq<u64>, counts: Seq<u64>, count: u64, sum: u64 },
    Summary { quantiles: Seq<ValueAtQuantileView>, count: u64, sum: u64 },
    ExponentialHistogram {
        scale: i32,
        count: u64,
        sum: u64,
        zero_count: u64,
        positive: Option<BucketsView>,
        negative: Option<BucketsView>,
        min: Option<u64>,
        max: Option<u64>,
    },
}

impl<'a> MetricView<'a> {
    pub open spec fn seen(&self) -> Seen {
        match self {
            MetricView::Sum { value } => Seen::Sum { value: *value },
            MetricView::Gauge { value } => Seen::Gauge { value: *value },
            MetricView::SetOf { values } => Seen::SetOf { values: views(values@) },
            MetricView::Histogram { bounds, counts, count, sum } => Seen::Histogram {
                bounds: bounds@,
                counts: counts@,
                count: *count,
                sum: *sum,
            },
            MetricView::Summary { quantiles, count, sum } => Seen::Summary {
                quantiles: views(quantiles@),
                count: *count,
                sum: *sum,
            },
            MetricView::ExponentialHistogram {
                scale,
                count,
                sum,
                zero_count,
                positive,
                negative,
                min,
                max,
            } => Seen::ExponentialHistogram {
                scale: *scale,
                count: *count,
                sum: *sum,
                zero_count: *zero_count,
                positive: opt_view(*positive),
                negative: opt_view(*negative),
                min: *min,
                max: *max,
            },
        }
    }

    /// The name for the kind of data.
    pub fn as_name(&self) -> (r: &'static str)
        ensures
            r@ == match self.seen() {
                Seen::Sum { .. } => "counter"@,
                Seen::Gauge { .. } => "gauge"@,
                Seen::SetOf { .. } => "set"@,
                Seen::Histogram { .. } => "histogram"@,
                Seen::Summary { .. } => "summary"@,
                Seen::ExponentialHistogram { .. } => "exponential histogram"@,
            },
    {
        match self {
            MetricView::Sum { .. } => "counter",
            MetricView::Gauge { .. } => "gauge",
            MetricView::SetOf { .. } => "set",
            MetricView::Histogram { .. } => "histogram",
            MetricView::Summary { .. } => "summary",
            MetricView::ExponentialHistogram { .. } => "exponential histogram",
        }
    }
}

impl MetricEventView {
    /// What the data of the metric is: that of its first data point.
    pub open spec fn seen(&self) -> Seen {
        match self.event.metric.data {
            Some(DataView::Sum(s)) => if s.is_monotonic {
                Seen::Sum { value: first_number(s.data_points) }
            } else {
                Seen::Gauge { value: first_number(s.data_points) }
            },
            Some(DataView::Gauge(g)) => match self.set_values {
                Some(keys) => Seen::SetOf { values: Seq::new(keys.len(), |i: int| keys[i].0) },
                None => Seen::Gauge { value: first_number(g.data_points) },
            },
            Some(DataView::Histogram(h)) => {
                let p = if h.data_points.len() == 0 {
                    HistogramDataPointView::default_view()
                } else {
                    h.data_points[0]
                };
                Seen::Histogram {
                    bounds: p.explicit_bounds,
                    counts: p.bucket_counts,
                    count: p.count,
                    sum: sum_or_zero(p.sum),
                }
            },
            Some(DataView::Summary(s)) => {
                let p = if s.data_points.len() == 0 {
                    SummaryDataPointView::default_view()
                } else {
                    s.data_points[0]
                };
                Seen::Summary { quantiles: p.quantile_values, count: p.count, sum: p.sum }
            },
            Some(DataView::ExponentialHistogram(e)) => {
                let p = if e.data_points.len() == 0 {
                    ExponentialHistogramDataPointView::default_view()
                } else {
                    e.data_points[0]
                };
                Seen::ExponentialHistogram {
                    scale: p.scale,
                    count: p.count,
                    sum: sum_or_zero(p.sum),
                    zero_count: p.zero_count,
                    positive: p.positive,
                    negative: p.negative,
                    min: p.min,
                    max: p.max,
                }
            },
            None => Seen::Gauge { value: 0 },
        }
    }
}

pub fn key_list(keys: &KeyedMap<bool>) -> (r: Vec<String>)
    ensures
        views(r@) == Seq::new(keys@.len(), |i: int| keys@[i].0),
{
    let mut r: Vec<String> = Vec::new();
    let mut i: usize = 0;
    while i < keys.entries.len()
        invariant
            i <= keys.entries@.len(),
            r@.len() == i,
            forall|j: int| 0 <= j < i ==> (#[trigger] r@[j])@ == keys@[j].0,
        decreases keys.entries@.len() - i,
    {
        r.push(keys.entries[i].0.clone());
        i = i + 1;
    }
    assert(views(r@) =~= Seq::new(keys@.len(), |i: int| keys@[i].0));
    r
}

pub fn collect_keys(texts: &Vec<String>) -> (r: KeyedMap<bool>)
    ensures
        r@ == keys_of(views(texts@)),
{
    let mut keys: KeyedMap<bool> = KeyedMap::new();
    let ghost all = views(texts@);
    assert(all.take(0) =~= Seq::empty());
    let mut i: usize = 0;
    while i < texts.len()
        invariant
            i <= texts@.len(),
            all == views(texts@),
            keys@ == keys_of(all.take(i as int)),
        decreases texts@.len() - i,
    {
        assert(all.take(i + 1).drop_last() =~= all.take(i as int));
        keys.insert(texts[i].clone(), true);
        i = i + 1;
    }
    assert(all.take(i as int) =~= all);
    keys
}

fn unite_keys(keys: &mut KeyedMap<bool>, others: &KeyedMap<bool>)
    ensures
        final(keys)@ == keys_united(old(keys)@, others@),
{
    let ghost before = keys@;
    let ghost all = others@;
    assert(all.take(0) =~= Seq::empty());
    let mut i: usize = 0;
    while i < others.entries.len()
        invariant
            i <= others.entries@.len(),
            all == others@,
            keys@ == keys_united(before, all.take(i as int)),
        decreases others.entries@.len() - i,
    {
        assert(all.take(i + 1).drop_last() =~= all.take(i as int));
        keys.insert(others.entries[i].0.clone(), true);
        i = i + 1;
    }
    assert(all.take(i as int) =~= all);
}

fn reduce_keys(keys: &mut KeyedMap<bool>, others: &KeyedMap<bool>)
    ensures
        final(keys)@ == keys_reduced(old(keys)@, others@),
{
    let ghost before = keys@;
    let ghost all = others@;
    assert(all.take(0) =~= Seq::empty());
    let mut i: usize = 0;
    while i < others.entries.len()
        invariant
            i <= others.entries@.len(),
            all == others@,
            keys@ == keys_reduced(before, all.take(i as int)),
        decreases others.entries@.len() - i,
    {
        assert(all.take(i + 1).drop_last() =~= all.take(i as int));
        keys.remove(others.entries[i].0.as_str());
        i = i + 1;
    }
    assert(all.take(i as int) =~= all);
}

impl OtelMetric {
    /// A metric event with a metric.
    pub fn new(metric: Metric) -> (r: Self)
        ensures
            r@ == plain(OtelMetricView::of_metric(metric@, r@.event.metadata)),
            r@.event.metadata.is_default(),
    {
        OtelMetric {
            event: crate::metric::OtelMetric::new(metric),
            set_values: None,
            kind_override: None,
        }
    }

    /// A metric event with a metric, a resource, a scope and metadata, none of which says what the
    /// values of a set are.
    pub fn from_event(event: crate::metric::OtelMetric) -> (r: Self)
        ensures
            r@ == plain(event@),
    {
        OtelMetric { event, set_values: None, kind_override: None }
    }

    /// Convenience constructor for a gauge metric.
    pub fn new_gauge(name: String, value: u64) -> (r: Self)
        ensures
            r@ == plain(OtelMetricView::of_gauge(name@, value, r@.event.metadata)),
            r@.event.metadata.is_default(),
    {
        OtelMetric::from_event(crate::metric::OtelMetric::new_gauge(name, value))
    }

    /// Convenience constructor for a set metric with its values.
    /// Represented as a Gauge with cardinality as the numeric value.
    pub fn new_set_from_values(name: String, kind: MetricKind, values: &Vec<String>) -> (r: Self)
        ensures
            r@ == (MetricEventView {
                event: OtelMetricView::of_gauge(
                    name@,
                    double_of_nat(keys_of(views(values@)).len()) as u64,
                    r@.event.metadata,
                ),
                set_values: Some(keys_of(views(values@))),
                kind_override: Some(kind),
            }),
            r@.event.metadata.is_default(),
    {
        let keys = collect_keys(values);
        let mut m = OtelMetric::new_gauge(name, double_from_u64(keys.len() as u64));
        m.set_values = Some(keys);
        m.kind_override = Some(kind);
        m
    }

    /// Convenience constructor for a delta/signed gauge (e.g. statsd +/-).
    pub fn new_gauge_delta(name: String, value: u64) -> (r: Self)
        ensures
            r@ == (MetricEventView {
                kind_override: Some(MetricKind::Incremental),
                ..plain(OtelMetricView::of_gauge(name@, value, r@.event.metadata))
            }),
            r@.event.metadata.is_default(),
    {
        let mut m = OtelMetric::new_gauge(name, value);
        m.kind_override = Some(MetricKind::Incremental);
        m
    }

    /// Check if this metric is a Set (stored as Gauge with its values beside it).
    pub fn is_set(&self) -> (r: bool)
        ensures
            r == (self@.set_values is Some),
    {
        self.set_values.is_some()
    }

    /// Get the metric kind, from beside the message where that has no place for it.
    pub fn kind(&self) -> (r: MetricKind)
        ensures
            r == self@.kind(),
    {
        match &self.event.metric.data {
            Some(Data::Gauge(_)) | Some(Data::Summary(_)) => match self.kind_override {
                Some(kind) => kind,
                None => MetricKind::Absolute,
            },
            _ => self.event.kind(),
        }
    }

    /// Set the metric kind, beside the message where that has no place for it.
    pub fn set_kind(&mut self, kind: MetricKind)
        ensures
            final(self)@ == match old(self)@.event.metric.data {
                Some(d) => if d.temporality() is Some {
                    MetricEventView {
                        event: old(self)@.event.with_data(
                            d.with_temporality(kind.as_temporality()),
                        ),
                        ..old(self)@
                    }
                } else {
                    MetricEventView { kind_override: Some(kind), ..old(self)@ }
                },
                None => old(self)@,
            },
    {
        self.event.set_kind(kind);
        match &self.event.metric.data {
            Some(Data::Gauge(_)) => {
                self.kind_override = Some(kind);
            },
            Some(Data::Summary(_)) => {
                self.kind_override = Some(kind);
            },
            _ => {},
        }
    }

    /// Notes how many values the set has as the number of the gauge.
    fn note_cardinality(&mut self, cardinality: usize)
        ensures
            final(self)@ == (MetricEventView {
                event: match old(self)@.event.metric.data {
                    Some(DataView::Gauge(g)) => old(self)@.event.with_data(
                        DataView::Gauge(g).with_numbers(
                            with_first_double(
                                g.data_points,
                                double_of_nat(cardinality as nat) as u64,
                            ),
                        ),
                    ),
                    _ => old(self)@.event,
                },
                ..old(self)@
            }),
    {
        if self.event.is_gauge() {
            self.event.set_first_value(double_from_u64(cardinality as u64));
        }
    }

    /// Merge set values from `other` into this set metric.
    /// Unions the values and updates the gauge cardinality.
    fn merge_set_values(&mut self, other: &OtelMetric)
        ensures
            final(self)@ == match (old(self)@.set_values, other@.set_values) {
                (Some(s), Some(o)) => old(self)@.with_set(keys_united(s, o)),
                _ => old(self)@,
            },
    {
        let cardinality: Option<usize> = match (&mut self.set_values, &other.set_values) {
            (Some(keys), Some(others)) => {
                unite_keys(keys, others);
                Some(keys.len())
            },
            _ => None,
        };
        if let Some(n) = cardinality {
            self.note_cardinality(n);
        }
    }

    /// Removes the set values of `other` from this set metric, and updates the gauge cardinality.
    fn subtract_set_values(&mut self, other: &OtelMetric)
        ensures
            final(self)@ == match (old(self)@.set_values, other@.set_values) {
                (Some(s), Some(o)) => old(self)@.with_set(keys_reduced(s, o)),
                _ => old(self)@,
            },
    {
        let cardinality: Option<usize> = match (&mut self.set_values, &other.set_values) {
            (Some(keys), Some(others)) => {
                reduce_keys(keys, others);
                Some(keys.len())
            },
            _ => None,
        };
        if let Some(n) = cardinality {
            self.note_cardinality(n);
        }
    }

    /// Add the data from `other` to this metric: sets are united, other data is added. `plus` adds
    /// two doubles.
    ///
    /// Both metrics must have the same data type (Sum+Sum, Gauge+Gauge, etc.).
    /// For Histogram, bucket layouts (explicit_bounds) must match.
    /// Returns `false` if the types are incompatible.
    #[must_use]
    pub fn add<F: Fn(u64, u64) -> u64>(&mut self, other: &OtelMetric, plus: F) -> (r: bool)
        requires
            forall|a: u64, b: u64| call_requires(plus, (a, b)),
            old(self)@.set_values is Some && other@.set_values is Some || add_fits(
                old(self)@.event.metric.data,
                other@.event.metric.data,
            ),
        ensures
            match (old(self)@.set_values, other@.set_values) {
                (Some(s), Some(o)) => r && final(self)@ == old(self)@.with_set(keys_united(s, o)),
                _ => {
                    &&& r == can_add(old(self)@.event.metric.data, other@.event.metric.data)
                    &&& final(self)@ == (MetricEventView {
                        event: old(self)@.event.with_opt_data(final(self)@.event.metric.data),
                        ..old(self)@
                    })
                    &&& data_is_added(
                        plus,
                        old(self)@.event.metric.data,
                        other@.event.metric.data,
                        final(self)@.event.metric.data,
                    )
                    &&& forall|f: spec_fn(u64, u64) -> u64| #[trigger]
                        computes(plus, f) ==> final(self)@ == (MetricEventView {
                            event: old(self)@.event.with_opt_data(
                                data_added(
                                    old(self)@.event.metric.data,
                                    other@.event.metric.data,
                                    f,
                                ),
                            ),
                            ..old(self)@
                        })
                },
            },
    {
        if self.is_set() && other.is_set() {
            self.merge_set_values(other);
            return true;
        }
        self.event.add(&other.event, plus)
    }

    /// Subtract the data of `other` from this metric: from a set its values are removed, other data
    /// is subtracted. `minus` subtracts two doubles.
    ///
    /// Both metrics must have the same data type. For counters (Sum),
    /// this is monotonic: returns `false` if subtraction would go negative.
    #[must_use]
    pub fn subtract<F: Fn(u64, u64) -> u64>(&mut self, other: &OtelMetric, minus: F) -> (r: bool)
        requires
            forall|a: u64, b: u64| call_requires(minus, (a, b)),
            old(self)@.set_values is Some || other@.set_values is Some || subtract_fits(
                old(self)@.event.metric.data,
                other@.event.metric.data,
            ),
        ensures
            match (old(self)@.set_values, other@.set_values) {
                (Some(s), Some(o)) => r && final(self)@ == old(self)@.with_set(keys_reduced(s, o)),
                (None, None) => {
                    &&& r == can_subtract(old(self)@.event.metric.data, other@.event.metric.data)
                    &&& final(self)@ == (MetricEventView {
                        event: old(self)@.event.with_opt_data(final(self)@.event.metric.data),
                        ..old(self)@
                    })
                    &&& data_is_subtracted(
                        minus,
                        old(self)@.event.metric.data,
                        other@.event.metric.data,
                        final(self)@.event.metric.data,
                    )
                    &&& forall|f: spec_fn(u64, u64) -> u64| #[trigger]
                        computes(minus, f) ==> final(self)@ == (MetricEventView {
                            event: old(self)@.event.with_opt_data(
                                data_subtracted(
                                    old(self)@.event.metric.data,
                                    other@.event.metric.data,
                                    f,
                                ),
                            ),
                            ..old(self)@
                        })
                },
                _ => !r && final(self)@ == old(self)@,
            },
    {
        if self.is_set() && other.is_set() {
            self.subtract_set_values(other);
            return true;
        }
        if self.is_set() || other.is_set() {
            return false;
        }
        self.event.subtract(&other.event, minus)
    }

    /// Returns a view of this metric's data, borrowing from the message where possible.
    pub fn view_data(&self) -> (r: MetricView<'_>)
        ensures
            r.seen() == self@.seen(),
    {
        match &self.event.metric.data {
            Some(Data::Sum(s)) => {
                let value = first_number_of(&s.data_points);
                if s.is_monotonic {
                    MetricView::Sum { value }
                } else {
                    MetricView::Gauge { value }
                }
            },
            Some(Data::Gauge(g)) => match &self.set_values {
                Some(keys) => MetricView::SetOf { values: key_list(keys) },
                None => MetricView::Gauge {
                    value: first_number_of(&g.data_points),
                },
            },
            Some(Data::Histogram(h)) => if h.data_points.len() == 0 {
                let r = MetricView::Histogram { bounds: &[], counts: &[], count: 0, sum: 0 };
                assert(r.seen()->Histogram_bounds =~= Seq::empty());
                assert(r.seen()->Histogram_counts =~= Seq::empty());
                r
            } else {
                MetricView::Histogram {
                    bounds: h.data_points[0].explicit_bounds.as_slice(),
                    counts: h.data_points[0].bucket_counts.as_slice(),
                    count: h.data_points[0].count,
                    sum: h.data_points[0].sum.unwrap_or(0),
                }
            },
            Some(Data::Summary(s)) => if s.data_points.len() == 0 {
                let r = MetricView::Summary { quantiles: &[], count: 0, sum: 0 };
                assert(r.seen()->Summary_quantiles =~= Seq::empty());
                r
            } else {
                MetricView::Summary {
                    quantiles: s.data_points[0].quantile_values.as_slice(),
                    count: s.data_points[0].count,
                    sum: s.data_points[0].sum,
                }
            },
            Some(Data::ExponentialHistogram(e)) => if e.data_points.len() == 0 {
                MetricView::ExponentialHistogram {
                    scale: 0,
                    count: 0,
                    sum: 0,
                    zero_count: 0,
                    positive: None,
                    negative: None,
                    min: None,
                    max: None,
                }
            } else {
                MetricView::ExponentialHistogram {
                    scale: e.data_points[0].scale,
                    count: e.data_points[0].count,
                    sum: e.data_points[0].sum.unwrap_or(0),
                    zero_count: e.data_points[0].zero_count,
                    positive: e.data_points[0].positive.as_ref(),
                    negative: e.data_points[0].negative.as_ref(),
                    min: e.data_points[0].min,
                    max: e.data_points[0].max,
                }
            },
            None => MetricView::Gauge { value: 0 },
        }
    }
}

/// The text about the data of a metric, where `text` is the text of a double.
pub open spec fn seen_text(seen: Seen, text: spec_fn(u64) -> Seq<char>) -> Seq<char> {
    match seen {
        Seen::Sum { value } => "counter: "@ + text(value),
        Seen::Gauge { value } => "gauge: "@ + text(value),
        Seen::SetOf { values } => "set: "@ + decimal(values.len()) + " values"@,
        Seen::Histogram { bounds, count, sum, .. } => "histogram: "@ + decimal(bounds.len())
            + " buckets, count="@ + decimal(count as nat) + ", sum="@ + text(sum),
        Seen::Summary { quantiles, count, sum } => "summary: "@ + decimal(quantiles.len())
            + " quantiles, count="@ + decimal(count as nat) + ", sum="@ + text(sum),
        Seen::ExponentialHistogram { scale, count, sum, .. } => "exponential histogram: scale="@
            + signed_decimal(scale as int) + ", count="@ + decimal(count as nat) + ", sum="@ + text(
            sum,
        ),
    }
}

/// The double among the data that is shown, where there is one.
pub open spec fn seen_double(seen: Seen) -> Option<u64> {
    match seen {
        Seen::Sum { value } => Some(value),
        Seen::Gauge { value } => Some(value),
        Seen::SetOf { .. } => None,
        Seen::Histogram { sum, .. } => Some(sum),
        Seen::Summary { sum, .. } => Some(sum),
        Seen::ExponentialHistogram { sum, .. } => Some(sum),
    }
}

/// Whether `shown` may show the double among the data as `text` says, where there is one.
pub open spec fn seen_drawn<F: Fn(u64) -> String>(
    shown: F,
    seen: Seen,
    text: spec_fn(u64) -> Seq<char>,
) -> bool {
    seen_double(seen) matches Some(d) ==> exists|s: String| #[trigger]
        call_ensures(shown, (d,), s) && s@ == text(d)
}

/// Five texts, one after the other.
fn joined_five(a: &str, b: &str, c: &str, d: &str, e: &str) -> (r: String)
    ensures
        r@ == a@ + b@ + c@ + d@ + e@,
{
    let ab = joined_text(a, b);
    let abc = joined_text(ab.as_str(), c);
    let abcd = joined_text(abc.as_str(), d);
    joined_text(abcd.as_str(), e)
}

impl<'a> MetricView<'a> {
    /// The data in words, where `shown` gives the text of a double.
    pub fn text<F: Fn(u64) -> String>(&self, shown: F) -> (r: String)
        requires
            forall|b: u64| call_requires(shown, (b,)),
        ensures
            exists|text: spec_fn(u64) -> Seq<char>|
                r@ == #[trigger] seen_text(self.seen(), text) && seen_drawn(
                    shown,
                    self.seen(),
                    text,
                ),
    {
        let double = match self {
            MetricView::Sum { value } => shown(*value),
            MetricView::Gauge { value } => shown(*value),
            MetricView::SetOf { .. } => String::new(),
            MetricView::Histogram { sum, .. } => shown(*sum),
            MetricView::Summary { sum, .. } => shown(*sum),
            MetricView::ExponentialHistogram { sum, .. } => shown(*sum),
        };
        let ghost text = |b: u64| double@;
        assert(seen_drawn(shown, self.seen(), text)) by {
            if let Some(d) = seen_double(self.seen()) {
                assert(call_ensures(shown, (d,), double));
            }
        }
        let r = match self {
            MetricView::Sum { value } => joined_text("counter: ", double.as_str()),
            MetricView::Gauge { value } => joined_text("gauge: ", double.as_str()),
            MetricView::SetOf { values } => {
                let n = u64_text(values.len() as u64);
                joined_text(joined_text("set: ", n.as_str()).as_str(), " values")
            },
            MetricView::Histogram { bounds, count, sum, .. } => {
                let n = u64_text(bounds.len() as u64);
                let start = joined_five(
                    "histogram: ",
                    n.as_str(),
                    " buckets, count=",
                    u64_text(*count).as_str(),
                    ", sum=",
                );
                joined_text(start.as_str(), double.as_str())
            },
            MetricView::Summary { quantiles, count, sum } => {
                let n = u64_text(quantiles.len() as u64);
                let start = joined_five(
                    "summary: ",
                    n.as_str(),
                    " quantiles, count=",
                    u64_text(*count).as_str(),
                    ", sum=",
                );
                joined_text(start.as_str(), double.as_str())
            },
            MetricView::ExponentialHistogram { scale, count, sum, .. } => {
                let start = joined_five(
                    "exponential histogram: scale=",
                    i64_text(*scale as i64).as_str(),
                    ", count=",
                    u64_text(*count).as_str(),
                    ", sum=",
                );
                joined_text(start.as_str(), double.as_str())
            },
        };
        assert(r@ == seen_text(self.seen(), text));
        r
    }
}

impl OtelMetric {
    pub fn name(&self) -> (r: &str)
        ensures
            r@ == self@.event.metric.name,
    {
        self.event.name()
    }

    /// Builder-style: set the metric namespace (stored as `metric.namespace` resource attribute).
    pub fn with_namespace(self, namespace: Option<&str>) -> (r: Self)
        ensures
            r@ == (MetricEventView {
                event: match namespace {
                    Some(ns) => self@.event.with_resource_attribute(
                        "metric.namespace"@,
                        AnyView::Str(ns@),
                    ),
                    None => self@.event,
                },
                ..self@
            }),
    {
        OtelMetric {
            event: self.event.with_namespace(namespace),
            set_values: self.set_values,
            kind_override: self.kind_override,
        }
    }

    /// Builder-style: set the timestamp on all data points.
    pub fn with_timestamp(self, ts: Option<Timestamp>) -> (r: Self)
        ensures
            r@ == (MetricEventView { event: self@.event.at(nanos_or_zero(ts)), ..self@ }),
    {
        OtelMetric {
            event: self.event.with_timestamp(ts),
            set_values: self.set_values,
            kind_override: self.kind_override,
        }
    }

    /// Builder-style: set interval_ms by adjusting start_time_unix_nano relative to time_unix_nano.
    pub fn with_interval_ms(self, interval: Option<u32>) -> (r: Self)
        ensures
            r@ == (MetricEventView {
                event: match (interval, self@.event.metric.data) {
                    (Some(ms), Some(d)) => self@.event.with_data(
                        d.started((ms * 1_000_000) as u64),
                    ),
                    _ => self@.event,
                },
                ..self@
            }),
    {
        OtelMetric {
            event: self.event.with_interval_ms(interval),
            set_values: self.set_values,
            kind_override: self.kind_override,
        }
    }

    /// Builder-style: set attributes of the data points.
    pub fn with_tags(self, tags: Option<OtelAttributes>) -> (r: Self)
        ensures
            r@ == (MetricEventView {
                event: match tags {
                    Some(t) => self@.event.with_attrs(t@),
                    None => self@.event,
                },
                ..self@
            }),
    {
        OtelMetric {
            event: self.event.with_attributes(tags),
            set_values: self.set_values,
            kind_override: self.kind_override,
        }
    }

    /// The attributes of the first data point, or nothing where there are none.
    pub fn tags(&self) -> (r: Option<OtelAttributes>)
        ensures
            opt_view(r) == unless_empty(self@.event.first_attrs()),
    {
        self.event.data_point_tags()
    }

    /// The name, the namespace and the attributes of the first data point of this metric.
    pub fn metric_series(&self) -> (r: MetricIdentity)
        ensures
            r@ == (IdentityView {
                name: self@.event.metric.name,
                namespace: self@.event.namespace(),
                tags: unless_empty(self@.event.first_attrs()),
            }),
    {
        self.event.metric_identity()
    }
}

/// After a kind was set, the metric is of that kind, whatever its data is.
pub proof fn law_kind_can_be_set(before: MetricEventView, after: MetricEventView, kind: MetricKind)
    requires
        before.event.metric.data is Some,
        after == match before.event.metric.data {
            Some(d) => if d.temporality() is Some {
                MetricEventView {
                    event: before.event.with_data(d.with_temporality(kind.as_temporality())),
                    ..before
                }
            } else {
                MetricEventView { kind_override: Some(kind), ..before }
            },
            None => before,
        },
    ensures
        after.kind() == kind,
{
}

} // verus!
