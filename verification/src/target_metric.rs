//! The value as which a program sees a metric.
use vstd::prelude::*;

use crate::attributes::object_from_attrs;
use crate::canonical::{full_resource, full_scope, put_text, with_text};
use crate::double::{is_nan, nan_to_zero};
use crate::keyed::{views, with_entry, KeyedMap};
use crate::metric::{OtelMetric, OtelMetricView};
use crate::metric_kind::MetricKind;
use crate::otlp_metric::{
    Data, DataView, ExponentialHistogramDataPoint, ExponentialHistogramDataPointView,
    HistogramDataPoint, HistogramDataPointView, NumberDataPoint, NumberDataPointView, NumberValue,
    SummaryDataPoint, SummaryDataPointView,
};
use crate::target_value::{
    object_value, put_int, put_kvs, put_origin, put_str, put_value, with_int, with_kvs, with_origin,
    with_str,
};
use crate::time::{to_i64, wrap_i64};
use crate::value::{array_view, lemma_array_view, Value, ValueView};

verus! {

/// The value as which a double is seen: a NaN is seen as zero.
pub open spec fn double_seen(bits: u64) -> ValueView {
    ValueView::Float(nan_to_zero(bits))
}

fn double_value(bits: u64) -> (r: Value)
    ensures
        r@ == double_seen(bits),
{
    Value::Float(
        if is_nan(bits) {
            0
        } else {
            bits
        },
    )
}

/// The object with a field for a double, where there is one.
pub open spec fn with_double(m: Seq<(Seq<char>, ValueView)>, key: Seq<char>, v: Option<u64>) -> Seq<
    (Seq<char>, ValueView),
> {
    match v {
        Some(bits) => with_entry(m, key, double_seen(bits)),
        None => m,
    }
}

fn put_double(map: &mut KeyedMap<Value>, key: &str, v: Option<u64>)
    ensures
        final(map)@ == with_double(old(map)@, key@, v),
        old(map).wf() ==> final(map).wf(),
{
    if let Some(bits) = v {
        put_value(map, key, double_value(bits));
    }
}

/// The array as which counts are seen.
pub open spec fn counts_seen(counts: Seq<u64>) -> ValueView {
    ValueView::Array(Seq::new(counts.len(), |i: int| ValueView::Integer(wrap_i64(counts[i] as int))))
}

fn counts_value(counts: &Vec<u64>) -> (r: Value)
    ensures
        r@ == counts_seen(counts@),
{
    let mut out: Vec<Value> = Vec::new();
    let mut i: usize = 0;
    while i < counts.len()
        invariant
            i <= counts@.len(),
            out@.len() == i,
            forall|j: int|
                0 <= j < i ==> (#[trigger] out@[j])@ == ValueView::Integer(
                    wrap_i64(counts@[j] as int),
                ),
        decreases counts@.len() - i,
    {
        out.push(Value::Integer(to_i64(counts[i])));
        i = i + 1;
    }
    proof {
        lemma_array_view(out);
        assert(array_view(out@) =~= counts_seen(counts@)->Array_0);
    }
    Value::Array(out)
}

/// The array as which doubles are seen.
pub open spec fn doubles_seen(bits: Seq<u64>) -> ValueView {
    ValueView::Array(Seq::new(bits.len(), |i: int| double_seen(bits[i])))
}

fn doubles_value(bits: &Vec<u64>) -> (r: Value)
    ensures
        r@ == doubles_seen(bits@),
{
    let mut out: Vec<Value> = Vec::new();
    let mut i: usize = 0;
    while i < bits.len()
        invariant
            i <= bits@.len(),
            out@.len() == i,
            forall|j: int| 0 <= j < i ==> (#[trigger] out@[j])@ == double_seen(bits@[j]),
        decreases bits@.len() - i,
    {
        out.push(double_value(bits[i]));
        i = i + 1;
    }
    proof {
        lemma_array_view(out);
        assert(array_view(out@) =~= doubles_seen(bits@)->Array_0);
    }
    Value::Array(out)
}

/// The object as which a data point of a sum or a gauge is seen.
pub open spec fn number_seen(p: NumberDataPointView) -> ValueView {
    let m = with_kvs(Seq::empty(), "attributes"@, p.attributes);
    let m = with_int(m, "time_unix_nano"@, wrap_i64(p.time_unix_nano as int));
    let m = if p.start_time_unix_nano != 0 {
        with_int(m, "start_time_unix_nano"@, wrap_i64(p.start_time_unix_nano as int))
    } else {
        m
    };
    ValueView::Object(
        match p.value {
            Some(NumberValue::AsDouble(d)) => with_entry(m, "value"@, double_seen(d)),
            Some(NumberValue::AsInt(i)) => with_int(m, "value"@, i),
            None => m,
        },
    )
}

fn number_value(p: &NumberDataPoint) -> (r: Value)
    ensures
        r@ == number_seen(p@),
{
    let mut map = KeyedMap::<Value>::new();
    put_kvs(&mut map, "attributes", &p.attributes);
    put_int(&mut map, "time_unix_nano", to_i64(p.time_unix_nano));
    if p.start_time_unix_nano != 0 {
        put_int(&mut map, "start_time_unix_nano", to_i64(p.start_time_unix_nano));
    }
    match p.value {
        Some(NumberValue::AsDouble(d)) => {
            put_value(&mut map, "value", double_value(d));
        },
        Some(NumberValue::AsInt(i)) => {
            put_int(&mut map, "value", i);
        },
        None => {},
    }
    object_value(map)
}

/// The array as which data points of a sum or a gauge are seen.
pub open spec fn numbers_seen(points: Seq<NumberDataPointView>) -> ValueView {
    ValueView::Array(Seq::new(points.len(), |i: int| number_seen(points[i])))
}

/// The array as which data points of a sum or a gauge are seen.
pub fn number_data_points_to_value(points: &Vec<NumberDataPoint>) -> (r: Value)
    ensures
        r@ == numbers_seen(views(points@)),
{
    let mut out: Vec<Value> = Vec::new();
    let mut i: usize = 0;
    while i < points.len()
        invariant
            i <= points@.len(),
            out@.len() == i,
            forall|j: int| 0 <= j < i ==> (#[trigger] out@[j])@ == number_seen(points@[j]@),
        decreases points@.len() - i,
    {
        out.push(number_value(&points[i]));
        i = i + 1;
    }
    proof {
        lemma_array_view(out);
        assert(array_view(out@) =~= numbers_seen(views(points@))->Array_0);
    }
    Value::Array(out)
}

/// The object as which a data point of a histogram is seen.
pub open spec fn histogram_seen(p: HistogramDataPointView) -> ValueView {
    let m = with_kvs(Seq::empty(), "attributes"@, p.attributes);
    let m = with_int(m, "count"@, wrap_i64(p.count as int));
    let m = with_double(m, "sum"@, p.sum);
    let m = with_entry(m, "bucket_counts"@, counts_seen(p.bucket_counts));
    let m = with_entry(m, "explicit_bounds"@, doubles_seen(p.explicit_bounds));
    ValueView::Object(with_int(m, "time_unix_nano"@, wrap_i64(p.time_unix_nano as int)))
}

fn histogram_value(p: &HistogramDataPoint) -> (r: Value)
    ensures
        r@ == histogram_seen(p@),
{
    let mut map = KeyedMap::<Value>::new();
    put_kvs(&mut map, "attributes", &p.attributes);
    put_int(&mut map, "count", to_i64(p.count));
    put_double(&mut map, "sum", p.sum);
    put_value(&mut map, "bucket_counts", counts_value(&p.bucket_counts));
    put_value(&mut map, "explicit_bounds", doubles_value(&p.explicit_bounds));
    put_int(&mut map, "time_unix_nano", to_i64(p.time_unix_nano));
    object_value(map)
}

fn histograms_value(points: &Vec<HistogramDataPoint>) -> (r: Value)
    ensures
        r@ == ValueView::Array(
            Seq::new(points@.len(), |i: int| histogram_seen(views(points@)[i])),
        ),
{
    let mut out: Vec<Value> = Vec::new();
    let mut i: usize = 0;
    while i < points.len()
        invariant
            i <= points@.len(),
            out@.len() == i,
            forall|j: int| 0 <= j < i ==> (#[trigger] out@[j])@ == histogram_seen(points@[j]@),
        decreases points@.len() - i,
    {
        out.push(histogram_value(&points[i]));
        i = i + 1;
    }
    proof {
        lemma_array_view(out);
        assert(array_view(out@) =~= Seq::new(
            points@.len(),
            |i: int| histogram_seen(views(points@)[i]),
        ));
    }
    Value::Array(out)
}

/// The object as which a data point of a histogram with exponential bounds is seen.
pub open spec fn exponential_seen(p: ExponentialHistogramDataPointView) -> ValueView {
    let m = with_kvs(Seq::empty(), "attributes"@, p.attributes);
    let m = with_int(m, "count"@, wrap_i64(p.count as int));
    let m = with_double(m, "sum"@, p.sum);
    let m = with_int(m, "scale"@, p.scale as i64);
    let m = with_int(m, "zero_count"@, wrap_i64(p.zero_count as int));
    ValueView::Object(with_int(m, "time_unix_nano"@, wrap_i64(p.time_unix_nano as int)))
}

fn exponential_value(p: &ExponentialHistogramDataPoint) -> (r: Value)
    ensures
        r@ == exponential_seen(p@),
{
    let mut map = KeyedMap::<Value>::new();
    put_kvs(&mut map, "attributes", &p.attributes);
    put_int(&mut map, "count", to_i64(p.count));
    put_double(&mut map, "sum", p.sum);
    put_int(&mut map, "scale", p.scale as i64);
    put_int(&mut map, "zero_count", to_i64(p.zero_count));
    put_int(&mut map, "time_unix_nano", to_i64(p.time_unix_nano));
    object_value(map)
}

fn exponentials_value(points: &Vec<ExponentialHistogramDataPoint>) -> (r: Value)
    ensures
        r@ == ValueView::Array(
            Seq::new(points@.len(), |i: int| exponential_seen(views(points@)[i])),
        ),
{
    let mut out: Vec<Value> = Vec::new();
    let mut i: usize = 0;
    while i < points.len()
        invariant
            i <= points@.len(),
            out@.len() == i,
            forall|j: int| 0 <= j < i ==> (#[trigger] out@[j])@ == exponential_seen(points@[j]@),
        decreases points@.len() - i,
    {
        out.push(exponential_value(&points[i]));
        i = i + 1;
    }
    proof {
        lemma_array_view(out);
        assert(array_view(out@) =~= Seq::new(
            points@.len(),
            |i: int| exponential_seen(views(points@)[i]),
        ));
    }
    Value::Array(out)
}

/// The object as which a data point of a summary is seen.
pub open spec fn summary_seen(p: SummaryDataPointView) -> ValueView {
    let m = with_kvs(Seq::empty(), "attributes"@, p.attributes);
    let m = with_int(m, "count"@, wrap_i64(p.count as int));
    let m = with_entry(m, "sum"@, double_seen(p.sum));
    ValueView::Object(with_int(m, "time_unix_nano"@, wrap_i64(p.time_unix_nano as int)))
}

fn summary_value(p: &SummaryDataPoint) -> (r: Value)
    ensures
        r@ == summary_seen(p@),
{
    let mut map = KeyedMap::<Value>::new();
    put_kvs(&mut map, "attributes", &p.attributes);
    put_int(&mut map, "count", to_i64(p.count));
    put_value(&mut map, "sum", double_value(p.sum));
    put_int(&mut map, "time_unix_nano", to_i64(p.time_unix_nano));
    object_value(map)
}

fn summaries_value(points: &Vec<SummaryDataPoint>) -> (r: Value)
    ensures
        r@ == ValueView::Array(
            Seq::new(points@.len(), |i: int| summary_seen(views(points@)[i])),
        ),
{
    let mut out: Vec<Value> = Vec::new();
    let mut i: usize = 0;
    while i < points.len()
        invariant
            i <= points@.len(),
            out@.len() == i,
            forall|j: int| 0 <= j < i ==> (#[trigger] out@[j])@ == summary_seen(points@[j]@),
        decreases points@.len() - i,
    {
        out.push(summary_value(&points[i]));
        i = i + 1;
    }
    proof {
        lemma_array_view(out);
        assert(array_view(out@) =~= Seq::new(
            points@.len(),
            |i: int| summary_seen(views(points@)[i]),
        ));
    }
    Value::Array(out)
}

/// The fields as which the data of a metric are seen: their type, and the data under its name.
pub open spec fn data_seen(d: DataView) -> Seq<(Seq<char>, ValueView)> {
    match d {
        DataView::Sum(s) => {
            let m = with_entry(Seq::empty(), "is_monotonic"@, ValueView::Boolean(s.is_monotonic));
            let m = with_int(m, "aggregation_temporality"@, s.aggregation_temporality as i64);
            let m = with_entry(m, "data_points"@, numbers_seen(s.data_points));
            with_entry(with_str(Seq::empty(), "type"@, "sum"@), "sum"@, ValueView::Object(m))
        },
        DataView::Gauge(g) => {
            let m = with_entry(Seq::empty(), "data_points"@, numbers_seen(g.data_points));
            with_entry(with_str(Seq::empty(), "type"@, "gauge"@), "gauge"@, ValueView::Object(m))
        },
        DataView::Histogram(h) => {
            let m = with_int(
                Seq::empty(),
                "aggregation_temporality"@,
                h.aggregation_temporality as i64,
            );
            let m = with_entry(
                m,
                "data_points"@,
                ValueView::Array(
                    Seq::new(h.data_points.len(), |i: int| histogram_seen(h.data_points[i])),
                ),
            );
            with_entry(
                with_str(Seq::empty(), "type"@, "histogram"@),
                "histogram"@,
                ValueView::Object(m),
            )
        },
        DataView::ExponentialHistogram(e) => {
            let m = with_int(
                Seq::empty(),
                "aggregation_temporality"@,
                e.aggregation_temporality as i64,
            );
            let m = with_entry(
                m,
                "data_points"@,
                ValueView::Array(
                    Seq::new(e.data_points.len(), |i: int| exponential_seen(e.data_points[i])),
                ),
            );
            with_entry(
                with_str(Seq::empty(), "type"@, "exponential_histogram"@),
                "exponential_histogram"@,
                ValueView::Object(m),
            )
        },
        DataView::Summary(s) => {
            let m = with_entry(
                Seq::empty(),
                "data_points"@,
                ValueView::Array(
                    Seq::new(s.data_points.len(), |i: int| summary_seen(s.data_points[i])),
                ),
            );
            with_entry(
                with_str(Seq::empty(), "type"@, "summary"@),
                "summary"@,
                ValueView::Object(m),
            )
        },
    }
}

fn data_value(data: &Data) -> (r: Value)
    ensures
        r@ == ValueView::Object(data_seen(data@)),
{
    let mut map = KeyedMap::<Value>::new();
    let mut inner = KeyedMap::<Value>::new();
    match data {
        Data::Sum(s) => {
            put_str(&mut map, "type", "sum");
            put_value(&mut inner, "is_monotonic", Value::Boolean(s.is_monotonic));
            put_int(&mut inner, "aggregation_temporality", s.aggregation_temporality as i64);
            put_value(&mut inner, "data_points", number_data_points_to_value(&s.data_points));
            put_value(&mut map, "sum", object_value(inner));
        },
        Data::Gauge(g) => {
            put_str(&mut map, "type", "gauge");
            put_value(&mut inner, "data_points", number_data_points_to_value(&g.data_points));
            put_value(&mut map, "gauge", object_value(inner));
        },
        Data::Histogram(h) => {
            put_str(&mut map, "type", "histogram");
            put_int(&mut inner, "aggregation_temporality", h.aggregation_temporality as i64);
            put_value(&mut inner, "data_points", histograms_value(&h.data_points));
            put_value(&mut map, "histogram", object_value(inner));
        },
        Data::ExponentialHistogram(e) => {
            put_str(&mut map, "type", "exponential_histogram");
            put_int(&mut inner, "aggregation_temporality", e.aggregation_temporality as i64);
            put_value(&mut inner, "data_points", exponentials_value(&e.data_points));
            put_value(&mut map, "exponential_histogram", object_value(inner));
        },
        Data::Summary(s) => {
            put_str(&mut map, "type", "summary");
            put_value(&mut inner, "data_points", summaries_value(&s.data_points));
            put_value(&mut map, "summary", object_value(inner));
        },
    }
    object_value(map)
}

/// The name of a kind of metric.
pub open spec fn kind_name(kind: MetricKind) -> Seq<char> {
    match kind {
        MetricKind::Absolute => "absolute"@,
        MetricKind::Incremental => "incremental"@,
    }
}

impl OtelMetricView {
    /// The fields as which a program sees the event. `.attributes` are those of the first data
    /// point.
    pub open spec fn seen(&self) -> Seq<(Seq<char>, ValueView)> {
        let m = with_str(Seq::empty(), "name"@, self.metric.name);
        let m = with_text(m, "description"@, self.metric.description);
        let m = with_text(m, "unit"@, self.metric.unit);
        let m = with_origin(
            m,
            full_resource(self.resource, self.resource_attrs),
            full_scope(self.scope, self.scope_attrs),
        );
        let m = if self.dp_attrs.len() > 0 && self.dp_attrs[0].len() > 0 {
            with_entry(m, "attributes"@, ValueView::Object(object_from_attrs(self.dp_attrs[0])))
        } else {
            m
        };
        let m = with_str(m, "kind"@, kind_name(self.kind()));
        let m = match self.namespace() {
            Some(ns) => with_str(m, "namespace"@, ns),
            None => m,
        };
        match self.metric.with_point_attributes(self.dp_attrs).data {
            Some(d) => with_entry(m, "data"@, ValueView::Object(data_seen(d))),
            None => m,
        }
    }
}

/// The value as which a program sees a metric event.
///
/// `.attributes` holds the attributes of the first data point.
pub fn metric_to_value(event: &OtelMetric) -> (r: Value)
    ensures
        r@ == ValueView::Object(event@.seen()),
{
    let mut map = KeyedMap::<Value>::new();
    put_str(&mut map, "name", event.name());
    put_text(&mut map, "description", event.metric.description.as_str());
    put_text(&mut map, "unit", event.metric.unit.as_str());
    put_origin(&mut map, event.resource_proto(), event.scope_proto());
    if let Some(attrs) = event.first_dp_attrs() {
        if !attrs.is_empty() {
            put_value(&mut map, "attributes", object_value(attrs.to_object_map()));
        }
    }
    let kind = match event.kind() {
        MetricKind::Absolute => "absolute",
        MetricKind::Incremental => "incremental",
    };
    put_str(&mut map, "kind", kind);
    if let Some(ns) = event.namespace() {
        put_str(&mut map, "namespace", ns);
    }
    let metric = event.metric_proto();
    if let Some(data) = &metric.data {
        put_value(&mut map, "data", data_value(data));
    }
    object_value(map)
}

} // verus!
