//! The messages in which metrics are exchanged. Doubles are held as the bits of their IEEE 754
//! representation.
use vstd::prelude::*;

use crate::any_value::{clone_key_values, kvs_view, AnyView, KeyValue};
use crate::keyed::{opt_view, views};
use crate::text::copy_bytes;

verus! {

/// The value of a data point or of an example: a double or an integer.
#[derive(Clone, Copy, Debug, PartialEq, Eq)]
pub enum NumberValue {
    AsDouble(u64),
    AsInt(i64),
}

/// A copy of a list of words.
pub fn copy_words(words: &Vec<u64>) -> (r: Vec<u64>)
    ensures
        r@ == words@,
{
    let mut r: Vec<u64> = Vec::new();
    let mut i: usize = 0;
    while i < words.len()
        invariant
            i <= words@.len(),
            r@ == words@.take(i as int),
        decreases words@.len() - i,
    {
        r.push(words[i]);
        assert(words@.take(i + 1) =~= words@.take(i as int).push(words@[i as int]));
        i = i + 1;
    }
    assert(words@.take(i as int) =~= words@);
    r
}

/// An example of what was measured.
#[derive(Debug, PartialEq)]
pub struct Exemplar {
    pub filtered_attributes: Vec<KeyValue>,
    pub time_unix_nano: u64,
    pub span_id: Vec<u8>,
    pub trace_id: Vec<u8>,
    pub value: Option<NumberValue>,
}

#[verifier::ext_equal]
pub struct ExemplarView {
    pub filtered_attributes: Seq<(Seq<char>, Option<AnyView>)>,
    pub time_unix_nano: u64,
    pub span_id: Seq<u8>,
    pub trace_id: Seq<u8>,
    pub value: Option<NumberValue>,
}

impl View for Exemplar {
    type V = ExemplarView;

    open spec fn view(&self) -> ExemplarView {
        ExemplarView {
            filtered_attributes: kvs_view(self.filtered_attributes@),
            time_unix_nano: self.time_unix_nano,
            span_id: self.span_id@,
            trace_id: self.trace_id@,
            value: self.value,
        }
    }
}

impl ExemplarView {
    /// The one in which nothing is set.
    pub open spec fn default_view() -> ExemplarView {
        ExemplarView {
            filtered_attributes: Seq::empty(),
            time_unix_nano: 0,
            span_id: Seq::empty(),
            trace_id: Seq::empty(),
            value: None,
        }
    }
}

impl Clone for Exemplar {
    fn clone(&self) -> (r: Self)
        ensures
            r@ == self@,
    {
        let r = Exemplar {
            filtered_attributes: clone_key_values(&self.filtered_attributes),
            time_unix_nano: self.time_unix_nano,
            span_id: copy_bytes(&self.span_id),
            trace_id: copy_bytes(&self.trace_id),
            value: self.value,
        };
        r
    }
}

impl Default for Exemplar {
    fn default() -> (r: Self)
        ensures
            r@ == ExemplarView::default_view(),
    {
        let r = Exemplar {
            filtered_attributes: Vec::new(),
            time_unix_nano: 0,
            span_id: Vec::new(),
            trace_id: Vec::new(),
            value: None,
        };
        assert(r@ =~= ExemplarView::default_view());
        r
    }
}

/// A number that was measured.
#[derive(Debug, PartialEq)]
pub struct NumberDataPoint {
    pub attributes: Vec<KeyValue>,
    pub start_time_unix_nano: u64,
    pub time_unix_nano: u64,
    pub exemplars: Vec<Exemplar>,
    pub flags: u32,
    pub value: Option<NumberValue>,
}

#[verifier::ext_equal]
pub struct NumberDataPointView {
    pub attributes: Seq<(Seq<char>, Option<AnyView>)>,
    pub start_time_unix_nano: u64,
    pub time_unix_nano: u64,
    pub exemplars: Seq<ExemplarView>,
    pub flags: u32,
    pub value: Option<NumberValue>,
}

impl View for NumberDataPoint {
    type V = NumberDataPointView;

    open spec fn view(&self) -> NumberDataPointView {
        NumberDataPointView {
            attributes: kvs_view(self.attributes@),
            start_time_unix_nano: self.start_time_unix_nano,
            time_unix_nano: self.time_unix_nano,
            exemplars: views(self.exemplars@),
            flags: self.flags,
            value: self.value,
        }
    }
}

impl NumberDataPointView {
    /// The one in which nothing is set.
    pub open spec fn default_view() -> NumberDataPointView {
        NumberDataPointView {
            attributes: Seq::empty(),
            start_time_unix_nano: 0,
            time_unix_nano: 0,
            exemplars: Seq::empty(),
            flags: 0,
            value: None,
        }
    }
}

impl Clone for NumberDataPoint {
    fn clone(&self) -> (r: Self)
        ensures
            r@ == self@,
    {
        let r = NumberDataPoint {
            attributes: clone_key_values(&self.attributes),
            start_time_unix_nano: self.start_time_unix_nano,
            time_unix_nano: self.time_unix_nano,
            exemplars: self.exemplars.clone(),
            flags: self.flags,
            value: self.value,
        };
        assert(views(r.exemplars@) =~= views(self.exemplars@));
        r
    }
}

impl Default for NumberDataPoint {
    fn default() -> (r: Self)
        ensures
            r@ == NumberDataPointView::default_view(),
    {
        let r = NumberDataPoint {
            attributes: Vec::new(),
            start_time_unix_nano: 0,
            time_unix_nano: 0,
            exemplars: Vec::new(),
            flags: 0,
            value: None,
        };
        assert(r@ =~= NumberDataPointView::default_view());
        r
    }
}

/// How measurements were spread over buckets with explicit bounds.
#[derive(Debug, PartialEq)]
pub struct HistogramDataPoint {
    pub attributes: Vec<KeyValue>,
    pub start_time_unix_nano: u64,
    pub time_unix_nano: u64,
    pub count: u64,
    pub sum: Option<u64>,
    pub bucket_counts: Vec<u64>,
    pub explicit_bounds: Vec<u64>,
    pub exemplars: Vec<Exemplar>,
    pub flags: u32,
    pub min: Option<u64>,
    pub max: Option<u64>,
}

#[verifier::ext_equal]
pub struct HistogramDataPointView {
    pub attributes: Seq<(Seq<char>, Option<AnyView>)>,
    pub start_time_unix_nano: u64,
    pub time_unix_nano: u64,
    pub count: u64,
    pub sum: Option<u64>,
    pub bucket_counts: Seq<u64>,
    pub explicit_bounds: Seq<u64>,
    pub exemplars: Seq<ExemplarView>,
    pub flags: u32,
    pub min: Option<u64>,
    pub max: Option<u64>,
}

impl View for HistogramDataPoint {
    type V = HistogramDataPointView;

    open spec fn view(&self) -> HistogramDataPointView {
        HistogramDataPointView {
            attributes: kvs_view(self.attributes@),
            start_time_unix_nano: self.start_time_unix_nano,
            time_unix_nano: self.time_unix_nano,
            count: self.count,
            sum: self.sum,
            bucket_counts: self.bucket_counts@,
            explicit_bounds: self.explicit_bounds@,
            exemplars: views(self.exemplars@),
            flags: self.flags,
            min: self.min,
            max: self.max,
        }
    }
}

impl HistogramDataPointView {
    /// The one in which nothing is set.
    pub open spec fn default_view() -> HistogramDataPointView {
        HistogramDataPointView {
            attributes: Seq::empty(),
            start_time_unix_nano: 0,
            time_unix_nano: 0,
            count: 0,
            sum: None,
            bucket_counts: Seq::empty(),
            explicit_bounds: Seq::empty(),
            exemplars: Seq::empty(),
            flags: 0,
            min: None,
            max: None,
        }
    }
}

impl Clone for HistogramDataPoint {
    fn clone(&self) -> (r: Self)
        ensures
            r@ == self@,
    {
        let r = HistogramDataPoint {
            attributes: clone_key_values(&self.attributes),
            start_time_unix_nano: self.start_time_unix_nano,
            time_unix_nano: self.time_unix_nano,
            count: self.count,
            sum: self.sum,
            bucket_counts: copy_words(&self.bucket_counts),
            explicit_bounds: copy_words(&self.explicit_bounds),
            exemplars: self.exemplars.clone(),
            flags: self.flags,
            min: self.min,
            max: self.max,
        };
        assert(views(r.exemplars@) =~= views(self.exemplars@));
        r
    }
}

impl Default for HistogramDataPoint {
    fn default() -> (r: Self)
        ensures
            r@ == HistogramDataPointView::default_view(),
    {
        let r = HistogramDataPoint {
            attributes: Vec::new(),
            start_time_unix_nano: 0,
            time_unix_nano: 0,
            count: 0,
            sum: None,
            bucket_counts: Vec::new(),
            explicit_bounds: Vec::new(),
            exemplars: Vec::new(),
            flags: 0,
            min: None,
            max: None,
        };
        assert(r@ =~= HistogramDataPointView::default_view());
        r
    }
}

/// The counts of buckets whose bounds grow exponentially, from an offset on.
#[derive(Debug, PartialEq)]
pub struct Buckets {
    pub offset: i32,
    pub bucket_counts: Vec<u64>,
}

#[verifier::ext_equal]
pub struct BucketsView {
    pub offset: i32,
    pub bucket_counts: Seq<u64>,
}

impl View for Buckets {
    type V = BucketsView;

    open spec fn view(&self) -> BucketsView {
        BucketsView {
            offset: self.offset,
            bucket_counts: self.bucket_counts@,
        }
    }
}

impl BucketsView {
    /// The one in which nothing is set.
    pub open spec fn default_view() -> BucketsView {
        BucketsView {
            offset: 0,
            bucket_counts: Seq::empty(),
        }
    }
}

impl Clone for Buckets {
    fn clone(&self) -> (r: Self)
        ensures
            r@ == self@,
    {
        let r = Buckets {
            offset: self.offset,
            bucket_counts: copy_words(&self.bucket_counts),
        };
        r
    }
}

impl Default for Buckets {
    fn default() -> (r: Self)
        ensures
            r@ == BucketsView::default_view(),
    {
        let r = Buckets {
            offset: 0,
            bucket_counts: Vec::new(),
        };
        assert(r@ =~= BucketsView::default_view());
        r
    }
}

/// How measurements were spread over buckets whose bounds grow exponentially.
#[derive(Debug, PartialEq)]
pub struct ExponentialHistogramDataPoint {
    pub attributes: Vec<KeyValue>,
    pub start_time_unix_nano: u64,
    pub time_unix_nano: u64,
    pub count: u64,
    pub sum: Option<u64>,
    pub scale: i32,
    pub zero_count: u64,
    pub positive: Option<Buckets>,
    pub negative: Option<Buckets>,
    pub flags: u32,
    pub exemplars: Vec<Exemplar>,
    pub min: Option<u64>,
    pub max: Option<u64>,
    pub zero_threshold: u64,
}

#[verifier::ext_equal]
pub struct ExponentialHistogramDataPointView {
    pub attributes: Seq<(Seq<char>, Option<AnyView>)>,
    pub start_time_unix_nano: u64,
    pub time_unix_nano: u64,
    pub count: u64,
    pub sum: Option<u64>,
    pub scale: i32,
    pub zero_count: u64,
    pub positive: Option<BucketsView>,
    pub negative: Option<BucketsView>,
    pub flags: u32,
    pub exemplars: Seq<ExemplarView>,
    pub min: Option<u64>,
    pub max: Option<u64>,
    pub zero_threshold: u64,
}

impl View for ExponentialHistogramDataPoint {
    type V = ExponentialHistogramDataPointView;

    open spec fn view(&self) -> ExponentialHistogramDataPointView {
        ExponentialHistogramDataPointView {
            attributes: kvs_view(self.attributes@),
            start_time_unix_nano: self.start_time_unix_nano,
            time_unix_nano: self.time_unix_nano,
            count: self.count,
            sum: self.sum,
            scale: self.scale,
            zero_count: self.zero_count,
            positive: opt_view(self.positive),
            negative: opt_view(self.negative),
            flags: self.flags,
            exemplars: views(self.exemplars@),
            min: self.min,
            max: self.max,
            zero_threshold: self.zero_threshold,
        }
    }
}

impl ExponentialHistogramDataPointView {
    /// The one in which nothing is set.
    pub open spec fn default_view() -> ExponentialHistogramDataPointView {
        ExponentialHistogramDataPointView {
            attributes: Seq::empty(),
            start_time_unix_nano: 0,
            time_unix_nano: 0,
            count: 0,
            sum: None,
            scale: 0,
            zero_count: 0,
            positive: None,
            negative: None,
            flags: 0,
            exemplars: Seq::empty(),
            min: None,
            max: None,
            zero_threshold: 0,
        }
    }
}

impl Clone for ExponentialHistogramDataPoint {
    fn clone(&self) -> (r: Self)
        ensures
            r@ == self@,
    {
        let r = ExponentialHistogramDataPoint {
            attributes: clone_key_values(&self.attributes),
            start_time_unix_nano: self.start_time_unix_nano,
            time_unix_nano: self.time_unix_nano,
            count: self.count,
            sum: self.sum,
            scale: self.scale,
            zero_count: self.zero_count,
            positive: match &self.positive {
                Some(x) => Some(x.clone()),
                None => None,
            },
            negative: match &self.negative {
                Some(x) => Some(x.clone()),
                None => None,
            },
            flags: self.flags,
            exemplars: self.exemplars.clone(),
            min: self.min,
            max: self.max,
            zero_threshold: self.zero_threshold,
        };
        assert(views(r.exemplars@) =~= views(self.exemplars@));
        r
    }
}

impl Default for ExponentialHistogramDataPoint {
    fn default() -> (r: Self)
        ensures
            r@ == ExponentialHistogramDataPointView::default_view(),
    {
        let r = ExponentialHistogramDataPoint {
            attributes: Vec::new(),
            start_time_unix_nano: 0,
            time_unix_nano: 0,
            count: 0,
            sum: None,
            scale: 0,
            zero_count: 0,
            positive: None,
            negative: None,
            flags: 0,
            exemplars: Vec::new(),
            min: None,
            max: None,
            zero_threshold: 0,
        };
        assert(r@ =~= ExponentialHistogramDataPointView::default_view());
        r
    }
}

/// The value at a quantile.
#[derive(Debug, PartialEq)]
pub struct ValueAtQuantile {
    pub quantile: u64,
    pub value: u64,
}

#[verifier::ext_equal]
pub struct ValueAtQuantileView {
    pub quantile: u64,
    pub value: u64,
}

impl View for ValueAtQuantile {
    type V = ValueAtQuantileView;

    open spec fn view(&self) -> ValueAtQuantileView {
        ValueAtQuantileView {
            quantile: self.quantile,
            value: self.value,
        }
    }
}

impl ValueAtQuantileView {
    /// The one in which nothing is set.
    pub open spec fn default_view() -> ValueAtQuantileView {
        ValueAtQuantileView {
            quantile: 0,
            value: 0,
        }
    }
}

impl Clone for ValueAtQuantile {
    fn clone(&self) -> (r: Self)
        ensures
            r@ == self@,
    {
        let r = ValueAtQuantile {
            quantile: self.quantile,
            value: self.value,
        };
        r
    }
}

impl Default for ValueAtQuantile {
    fn default() -> (r: Self)
        ensures
            r@ == ValueAtQuantileView::default_view(),
    {
        let r = ValueAtQuantile {
            quantile: 0,
            value: 0,
        };
        assert(r@ =~= ValueAtQuantileView::default_view());
        r
    }
}

/// The quantiles of measurements.
#[derive(Debug, PartialEq)]
pub struct SummaryDataPoint {
    pub attributes: Vec<KeyValue>,
    pub start_time_unix_nano: u64,
    pub time_unix_nano: u64,
    pub count: u64,
    pub sum: u64,
    pub quantile_values: Vec<ValueAtQuantile>,
    pub flags: u32,
}

#[verifier::ext_equal]
pub struct SummaryDataPointView {
    pub attributes: Seq<(Seq<char>, Option<AnyView>)>,
    pub start_time_unix_nano: u64,
    pub time_unix_nano: u64,
    pub count: u64,
    pub sum: u64,
    pub quantile_values: Seq<ValueAtQuantileView>,
    pub flags: u32,
}

impl View for SummaryDataPoint {
    type V = SummaryDataPointView;

    open spec fn view(&self) -> SummaryDataPointView {
        SummaryDataPointView {
            attributes: kvs_view(self.attributes@),
            start_time_unix_nano: self.start_time_unix_nano,
            time_unix_nano: self.time_unix_nano,
            count: self.count,
            sum: self.sum,
            quantile_values: views(self.quantile_values@),
            flags: self.flags,
        }
    }
}

impl SummaryDataPointView {
    /// The one in which nothing is set.
    pub open spec fn default_view() -> SummaryDataPointView {
        SummaryDataPointView {
            attributes: Seq::empty(),
            start_time_unix_nano: 0,
            time_unix_nano: 0,
            count: 0,
            sum: 0,
            quantile_values: Seq::empty(),
            flags: 0,
        }
    }
}

impl Clone for SummaryDataPoint {
    fn clone(&self) -> (r: Self)
        ensures
            r@ == self@,
    {
        let r = SummaryDataPoint {
            attributes: clone_key_values(&self.attributes),
            start_time_unix_nano: self.start_time_unix_nano,
            time_unix_nano: self.time_unix_nano,
            count: self.count,
            sum: self.sum,
            quantile_values: self.quantile_values.clone(),
            flags: self.flags,
        };
        assert(views(r.quantile_values@) =~= views(self.quantile_values@));
        r
    }
}

impl Default for SummaryDataPoint {
    fn default() -> (r: Self)
        ensures
            r@ == SummaryDataPointView::default_view(),
    {
        let r = SummaryDataPoint {
            attributes: Vec::new(),
            start_time_unix_nano: 0,
            time_unix_nano: 0,
            count: 0,
            sum: 0,
            quantile_values: Vec::new(),
            flags: 0,
        };
        assert(r@ =~= SummaryDataPointView::default_view());
        r
    }
}

/// Numbers that were measured.
#[derive(Debug, PartialEq)]
pub struct Gauge {
    pub data_points: Vec<NumberDataPoint>,
}

#[verifier::ext_equal]
pub struct GaugeView {
    pub data_points: Seq<NumberDataPointView>,
}

impl View for Gauge {
    type V = GaugeView;

    open spec fn view(&self) -> GaugeView {
        GaugeView {
            data_points: views(self.data_points@),
        }
    }
}

impl GaugeView {
    /// The one in which nothing is set.
    pub open spec fn default_view() -> GaugeView {
        GaugeView {
            data_points: Seq::empty(),
        }
    }
}

impl Clone for Gauge {
    fn clone(&self) -> (r: Self)
        ensures
            r@ == self@,
    {
        let r = Gauge {
            data_points: self.data_points.clone(),
        };
        assert(views(r.data_points@) =~= views(self.data_points@));
        r
    }
}

impl Default for Gauge {
    fn default() -> (r: Self)
        ensures
            r@ == GaugeView::default_view(),
    {
        let r = Gauge {
            data_points: Vec::new(),
        };
        assert(r@ =~= GaugeView::default_view());
        r
    }
}

/// Numbers that were added up.
#[derive(Debug, PartialEq)]
pub struct Sum {
    pub data_points: Vec<NumberDataPoint>,
    pub aggregation_temporality: i32,
    pub is_monotonic: bool,
}

#[verifier::ext_equal]
pub struct SumView {
    pub data_points: Seq<NumberDataPointView>,
    pub aggregation_temporality: i32,
    pub is_monotonic: bool,
}

impl View for Sum {
    type V = SumView;

    open spec fn view(&self) -> SumView {
        SumView {
            data_points: views(self.data_points@),
            aggregation_temporality: self.aggregation_temporality,
            is_monotonic: self.is_monotonic,
        }
    }
}

impl SumView {
    /// The one in which nothing is set.
    pub open spec fn default_view() -> SumView {
        SumView {
            data_points: Seq::empty(),
            aggregation_temporality: 0,
            is_monotonic: false,
        }
    }
}

impl Clone for Sum {
    fn clone(&self) -> (r: Self)
        ensures
            r@ == self@,
    {
        let r = Sum {
            data_points: self.data_points.clone(),
            aggregation_temporality: self.aggregation_temporality,
            is_monotonic: self.is_monotonic,
        };
        assert(views(r.data_points@) =~= views(self.data_points@));
        r
    }
}

impl Default for Sum {
    fn default() -> (r: Self)
        ensures
            r@ == SumView::default_view(),
    {
        let r = Sum {
            data_points: Vec::new(),
            aggregation_temporality: 0,
            is_monotonic: false,
        };
        assert(r@ =~= SumView::default_view());
        r
    }
}

/// Histograms with explicit bounds.
#[derive(Debug, PartialEq)]
pub struct Histogram {
    pub data_points: Vec<HistogramDataPoint>,
    pub aggregation_temporality: i32,
}

#[verifier::ext_equal]
pub struct HistogramView {
    pub data_points: Seq<HistogramDataPointView>,
    pub aggregation_temporality: i32,
}

impl View for Histogram {
    type V = HistogramView;

    open spec fn view(&self) -> HistogramView {
        HistogramView {
            data_points: views(self.data_points@),
            aggregation_temporality: self.aggregation_temporality,
        }
    }
}

impl HistogramView {
    /// The one in which nothing is set.
    pub open spec fn default_view() -> HistogramView {
        HistogramView {
            data_points: Seq::empty(),
            aggregation_temporality: 0,
        }
    }
}

impl Clone for Histogram {
    fn clone(&self) -> (r: Self)
        ensures
            r@ == self@,
    {
        let r = Histogram {
            data_points: self.data_points.clone(),
            aggregation_temporality: self.aggregation_temporality,
        };
        assert(views(r.data_points@) =~= views(self.data_points@));
        r
    }
}

impl Default for Histogram {
    fn default() -> (r: Self)
        ensures
            r@ == HistogramView::default_view(),
    {
        let r = Histogram {
            data_points: Vec::new(),
            aggregation_temporality: 0,
        };
        assert(r@ =~= HistogramView::default_view());
        r
    }
}

/// Histograms whose bounds grow exponentially.
#[derive(Debug, PartialEq)]
pub struct ExponentialHistogram {
    pub data_points: Vec<ExponentialHistogramDataPoint>,
    pub aggregation_temporality: i32,
}

#[verifier::ext_equal]
pub struct ExponentialHistogramView {
    pub data_points: Seq<ExponentialHistogramDataPointView>,
    pub aggregation_temporality: i32,
}

impl View for ExponentialHistogram {
    type V = ExponentialHistogramView;

    open spec fn view(&self) -> ExponentialHistogramView {
        ExponentialHistogramView {
            data_points: views(self.data_points@),
            aggregation_temporality: self.aggregation_temporality,
        }
    }
}

impl ExponentialHistogramView {
    /// The one in which nothing is set.
    pub open spec fn default_view() -> ExponentialHistogramView {
        ExponentialHistogramView {
            data_points: Seq::empty(),
            aggregation_temporality: 0,
        }
    }
}

impl Clone for ExponentialHistogram {
    fn clone(&self) -> (r: Self)
        ensures
            r@ == self@,
    {
        let r = ExponentialHistogram {
            data_points: self.data_points.clone(),
            aggregation_temporality: self.aggregation_temporality,
        };
        assert(views(r.data_points@) =~= views(self.data_points@));
        r
    }
}

impl Default for ExponentialHistogram {
    fn default() -> (r: Self)
        ensures
            r@ == ExponentialHistogramView::default_view(),
    {
        let r = ExponentialHistogram {
            data_points: Vec::new(),
            aggregation_temporality: 0,
        };
        assert(r@ =~= ExponentialHistogramView::default_view());
        r
    }
}

/// Summaries.
#[derive(Debug, PartialEq)]
pub struct Summary {
    pub data_points: Vec<SummaryDataPoint>,
}

#[verifier::ext_equal]
pub struct SummaryView {
    pub data_points: Seq<SummaryDataPointView>,
}

impl View for Summary {
    type V = SummaryView;

    open spec fn view(&self) -> SummaryView {
        SummaryView {
            data_points: views(self.data_points@),
        }
    }
}

impl SummaryView {
    /// The one in which nothing is set.
    pub open spec fn default_view() -> SummaryView {
        SummaryView {
            data_points: Seq::empty(),
        }
    }
}

impl Clone for Summary {
    fn clone(&self) -> (r: Self)
        ensures
            r@ == self@,
    {
        let r = Summary {
            data_points: self.data_points.clone(),
        };
        assert(views(r.data_points@) =~= views(self.data_points@));
        r
    }
}

impl Default for Summary {
    fn default() -> (r: Self)
        ensures
            r@ == SummaryView::default_view(),
    {
        let r = Summary {
            data_points: Vec::new(),
        };
        assert(r@ =~= SummaryView::default_view());
        r
    }
}

/// The data of a metric.
#[derive(Debug, PartialEq)]
pub enum Data {
    Gauge(Gauge),
    Sum(Sum),
    Histogram(Histogram),
    ExponentialHistogram(ExponentialHistogram),
    Summary(Summary),
}

pub enum DataView {
    Gauge(GaugeView),
    Sum(SumView),
    Histogram(HistogramView),
    ExponentialHistogram(ExponentialHistogramView),
    Summary(SummaryView),
}

impl View for Data {
    type V = DataView;

    open spec fn view(&self) -> DataView {
        match self {
            Data::Gauge(g) => DataView::Gauge(g@),
            Data::Sum(s) => DataView::Sum(s@),
            Data::Histogram(h) => DataView::Histogram(h@),
            Data::ExponentialHistogram(e) => DataView::ExponentialHistogram(e@),
            Data::Summary(s) => DataView::Summary(s@),
        }
    }
}

impl Clone for Data {
    fn clone(&self) -> (r: Self)
        ensures
            r@ == self@,
    {
        match self {
            Data::Gauge(g) => Data::Gauge(g.clone()),
            Data::Sum(s) => Data::Sum(s.clone()),
            Data::Histogram(h) => Data::Histogram(h.clone()),
            Data::ExponentialHistogram(e) => Data::ExponentialHistogram(e.clone()),
            Data::Summary(s) => Data::Summary(s.clone()),
        }
    }
}

/// A metric.
#[derive(Debug, PartialEq)]
pub struct Metric {
    pub name: String,
    pub description: String,
    pub unit: String,
    pub metadata: Vec<KeyValue>,
    pub data: Option<Data>,
}

#[verifier::ext_equal]
pub struct MetricMessageView {
    pub name: Seq<char>,
    pub description: Seq<char>,
    pub unit: Seq<char>,
    pub metadata: Seq<(Seq<char>, Option<AnyView>)>,
    pub data: Option<DataView>,
}

impl View for Metric {
    type V = MetricMessageView;

    open spec fn view(&self) -> MetricMessageView {
        MetricMessageView {
            name: self.name@,
            description: self.description@,
            unit: self.unit@,
            metadata: kvs_view(self.metadata@),
            data: opt_view(self.data),
        }
    }
}

impl MetricMessageView {
    /// The one in which nothing is set.
    pub open spec fn default_view() -> MetricMessageView {
        MetricMessageView {
            name: Seq::empty(),
            description: Seq::empty(),
            unit: Seq::empty(),
            metadata: Seq::empty(),
            data: None,
        }
    }
}

impl Clone for Metric {
    fn clone(&self) -> (r: Self)
        ensures
            r@ == self@,
    {
        let r = Metric {
            name: self.name.clone(),
            description: self.description.clone(),
            unit: self.unit.clone(),
            metadata: clone_key_values(&self.metadata),
            data: match &self.data {
                Some(x) => Some(x.clone()),
                None => None,
            },
        };
        r
    }
}

impl Default for Metric {
    fn default() -> (r: Self)
        ensures
            r@ == MetricMessageView::default_view(),
    {
        let r = Metric {
            name: String::new(),
            description: String::new(),
            unit: String::new(),
            metadata: Vec::new(),
            data: None,
        };
        assert(r@ =~= MetricMessageView::default_view());
        r
    }
}

} // verus!
