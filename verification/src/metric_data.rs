//! Metric values apart from the messages in which they are exchanged.
use vstd::prelude::*;

use crate::keyed::{opt_view, views};
use crate::metric_kind::{Bucket, MetricKind, Quantile, Sample, StatisticKind};
use crate::metric_tags::MetricTags;
use crate::time::Timestamp;

verus! {

/// The value of a metric. The doubles in it are held as the bits of their IEEE 754 representation.
#[derive(Debug, PartialEq)]
pub enum MetricValue {
    /// A counter: how much was counted.
    Counter { value: u64 },
    /// A gauge: what was measured.
    Gauge { value: u64 },
    /// A set: the values that occurred, in order, none of them twice.
    SetOf { values: Vec<String> },
    /// A distribution: the values that were measured.
    Distribution { samples: Vec<Sample>, statistic: StatisticKind },
    /// A histogram.
    AggregatedHistogram { buckets: Vec<Bucket>, count: u64, sum: u64 },
    /// A summary.
    AggregatedSummary { quantiles: Vec<Quantile>, count: u64, sum: u64 },
}

pub enum MetricValueView {
    Counter { value: u64 },
    Gauge { value: u64 },
    SetOf { values: Seq<Seq<char>> },
    Distribution { samples: Seq<Sample>, statistic: StatisticKind },
    AggregatedHistogram { buckets: Seq<Bucket>, count: u64, sum: u64 },
    AggregatedSummary { quantiles: Seq<Quantile>, count: u64, sum: u64 },
}

impl View for MetricValue {
    type V = MetricValueView;

    open spec fn view(&self) -> MetricValueView {
        match self {
            MetricValue::Counter { value } => MetricValueView::Counter { value: *value },
            MetricValue::Gauge { value } => MetricValueView::Gauge { value: *value },
            MetricValue::SetOf { values } => MetricValueView::SetOf { values: views(values@) },
            MetricValue::Distribution { samples, statistic } => MetricValueView::Distribution {
                samples: samples@,
                statistic: *statistic,
            },
            MetricValue::AggregatedHistogram { buckets, count, sum } =>
                MetricValueView::AggregatedHistogram {
                buckets: buckets@,
                count: *count,
                sum: *sum,
            },
            MetricValue::AggregatedSummary { quantiles, count, sum } =>
                MetricValueView::AggregatedSummary {
                quantiles: quantiles@,
                count: *count,
                sum: *sum,
            },
        }
    }
}

/// The name of a metric.
#[derive(Debug, PartialEq)]
pub struct MetricName {
    pub name: String,
    pub namespace: Option<String>,
}

/// What tells metrics apart: the name and the tags.
#[derive(Debug, PartialEq)]
pub struct MetricSeries {
    pub name: MetricName,
    pub tags: Option<MetricTags>,
}

#[verifier::ext_equal]
pub struct MetricSeriesView {
    pub name: Seq<char>,
    pub namespace: Option<Seq<char>>,
    pub tags: Option<Seq<(Seq<char>, Seq<Option<Seq<char>>>)>>,
}

impl View for MetricSeries {
    type V = MetricSeriesView;

    open spec fn view(&self) -> MetricSeriesView {
        MetricSeriesView {
            name: self.name.name@,
            namespace: opt_view(self.name.namespace),
            tags: opt_view(self.tags),
        }
    }
}

/// When a metric was taken, and over how many milliseconds, which are never zero.
#[derive(Debug, PartialEq)]
pub struct MetricTime {
    pub timestamp: Option<Timestamp>,
    pub interval_ms: Option<u32>,
}

/// A metric value, with its kind and its time.
#[derive(Debug, PartialEq)]
pub struct MetricData {
    pub time: MetricTime,
    pub kind: MetricKind,
    pub value: MetricValue,
}

pub struct MetricDataView {
    pub timestamp: Option<Timestamp>,
    pub interval_ms: Option<u32>,
    pub kind: MetricKind,
    pub value: MetricValueView,
}

impl View for MetricData {
    type V = MetricDataView;

    open spec fn view(&self) -> MetricDataView {
        MetricDataView {
            timestamp: self.time.timestamp,
            interval_ms: self.time.interval_ms,
            kind: self.kind,
            value: self.value@,
        }
    }
}

} // verus!
