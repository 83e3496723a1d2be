//! What holds of metric events as programs see them: where each part of a metric stands in the value
//! that is shown, and that nothing of it is shown otherwise.
use vstd::prelude::*;
use vstd::utf8::encode_utf8;

use crate::any_value::{object_from_kvs, value_from_any, AnyView};
use crate::attributes::{filled, kvs_from_attrs, object_from_attrs};
use crate::canonical::{full_resource, full_scope, with_text};
use crate::double::nan;
use crate::event::EventView;
use crate::keyed::{ordered, slot_of, value_of, with_entry};
use crate::map_laws::{law_read_after_write, lemma_entry_found, lemma_found_entry};
use crate::metric::OtelMetricView;
use crate::metric_kind::MetricKind;
use crate::otlp_metric::{
    DataView, ExponentialHistogramDataPointView, HistogramDataPointView, NumberDataPointView,
    NumberValue, SummaryDataPointView,
};
use crate::path::{fetched, PathPrefix, SegmentView, TargetPathView};
use crate::target::{
    components, first_steps, place_of, FaultView, MetricPlace, TargetView,
    MAX_OTEL_METRIC_PATH_DEPTH,
};
use crate::target_metric::{
    counts_seen, data_seen, double_seen, doubles_seen, exponential_seen, histogram_seen, kind_name,
    number_seen, numbers_seen, summary_seen, with_double,
};
use crate::target_value::{resource_object, scope_object, with_int, with_kvs, with_str};
use crate::time::wrap_i64;
use crate::value::ValueView;
use crate::value_laws::{fields_of, lemma_object_of_ordered};

verus! {

/// What stands in a field of a value.
pub open spec fn field_of(v: Option<ValueView>, name: Seq<char>) -> Option<ValueView> {
    match v {
        Some(ValueView::Object(m)) => value_of(m, name),
        _ => None,
    }
}

/// What stands at an index of a value.
pub open spec fn item_of(v: Option<ValueView>, i: int) -> Option<ValueView> {
    match v {
        Some(ValueView::Array(a)) => if 0 <= i < a.len() {
            Some(a[i])
        } else {
            None
        },
        _ => None,
    }
}

/// How many items a value has.
pub open spec fn size_of(v: Option<ValueView>) -> nat {
    match v {
        Some(ValueView::Array(a)) => a.len(),
        _ => 0,
    }
}

/// Whether a value is an integer.
pub open spec fn shows_int(v: Option<ValueView>, i: int) -> bool {
    v matches Some(ValueView::Integer(k)) && k == i
}

/// Whether a value is the integer of 64 bits with the bits of a count: the count itself, where that is
/// one.
pub open spec fn shows_count(v: Option<ValueView>, n: u64) -> bool {
    v matches Some(ValueView::Integer(k)) && (k == n || k + 0x1_0000_0000_0000_0000 == n)
}

/// Whether a value is a double; zero stands for a NaN.
pub open spec fn shows_double(v: Option<ValueView>, bits: u64) -> bool {
    v == Some(
        ValueView::Float(
            if nan(bits) {
                0
            } else {
                bits
            },
        ),
    )
}

/// Whether a value is a text.
pub open spec fn shows_text(v: Option<ValueView>, text: Seq<char>) -> bool {
    v == Some(ValueView::Bytes(encode_utf8(text)))
}

/// Whether a value is a list of counts.
pub open spec fn shows_counts(v: Option<ValueView>, counts: Seq<u64>) -> bool {
    &&& v matches Some(ValueView::Array(_))
    &&& size_of(v) == counts.len()
    &&& forall|i: int| 0 <= i < counts.len() ==> shows_count(#[trigger] item_of(v, i), counts[i])
}

/// Whether a value is a list of doubles.
pub open spec fn shows_doubles(v: Option<ValueView>, bits: Seq<u64>) -> bool {
    &&& v matches Some(ValueView::Array(_))
    &&& size_of(v) == bits.len()
    &&& forall|i: int| 0 <= i < bits.len() ==> shows_double(#[trigger] item_of(v, i), bits[i])
}

/// Whether a value is an object of attributes.
pub open spec fn shows_attributes(
    v: Option<ValueView>,
    kvs: Seq<(Seq<char>, Option<AnyView>)>,
) -> bool {
    v == Some(ValueView::Object(object_from_kvs(kvs)))
}

/// A data point of a sum or a gauge is seen with its attributes, its times and its number, and with
/// nothing else. A start that is unknown and a number that is missing are not seen.
pub proof fn law_number_point_is_seen(p: NumberDataPointView)
    ensures
        ({
            let v = Some(number_seen(p));
            &&& shows_attributes(field_of(v, "attributes"@), p.attributes)
            &&& shows_count(field_of(v, "time_unix_nano"@), p.time_unix_nano)
            &&& if p.start_time_unix_nano == 0 {
                field_of(v, "start_time_unix_nano"@) is None
            } else {
                shows_count(field_of(v, "start_time_unix_nano"@), p.start_time_unix_nano)
            }
            &&& match p.value {
                Some(NumberValue::AsDouble(d)) => shows_double(field_of(v, "value"@), d),
                Some(NumberValue::AsInt(i)) => shows_int(field_of(v, "value"@), i as int),
                None => field_of(v, "value"@) is None,
            }
            &&& forall|k: Seq<char>|
                #![trigger field_of(v, k)]
                field_of(v, k) is Some ==> k == "attributes"@ || k == "time_unix_nano"@ || k
                    == "start_time_unix_nano"@ || k == "value"@
        }),
{
    reveal_strlit("attributes");
    reveal_strlit("time_unix_nano");
    reveal_strlit("start_time_unix_nano");
    reveal_strlit("value");
    let none = Seq::<(Seq<char>, ValueView)>::empty();
    law_read_after_write(none, "attributes"@, ValueView::Object(object_from_kvs(p.attributes)));
    let m1 = with_kvs(none, "attributes"@, p.attributes);
    let time = wrap_i64(p.time_unix_nano as int);
    law_read_after_write(m1, "time_unix_nano"@, ValueView::Integer(time));
    let m2 = with_int(m1, "time_unix_nano"@, time);
    let start = wrap_i64(p.start_time_unix_nano as int);
    law_read_after_write(m2, "start_time_unix_nano"@, ValueView::Integer(start));
    let m3 = if p.start_time_unix_nano != 0 {
        with_int(m2, "start_time_unix_nano"@, start)
    } else {
        m2
    };
    match p.value {
        Some(NumberValue::AsDouble(d)) => {
            law_read_after_write(m3, "value"@, double_seen(d));
        },
        Some(NumberValue::AsInt(i)) => {
            law_read_after_write(m3, "value"@, ValueView::Integer(i));
        },
        None => {},
    }
    let v = Some(number_seen(p));
    assert forall|k: Seq<char>| #![trigger field_of(v, k)] field_of(v, k) is Some implies k
        == "attributes"@ || k == "time_unix_nano"@ || k == "start_time_unix_nano"@ || k == "value"@ by {
        assert(value_of(m1, k) == value_of(none, k) || k == "attributes"@);
        assert(value_of(m2, k) == value_of(m1, k) || k == "time_unix_nano"@);
        assert(value_of(m3, k) == value_of(m2, k) || k == "start_time_unix_nano"@);
    }
}

/// A data point of a histogram is seen with its attributes, its count, its sum, the counts and the
/// bounds of its buckets and its time, and with nothing else.
pub proof fn law_histogram_point_is_seen(p: HistogramDataPointView)
    ensures
        ({
            let v = Some(histogram_seen(p));
            &&& shows_attributes(field_of(v, "attributes"@), p.attributes)
            &&& shows_count(field_of(v, "count"@), p.count)
            &&& match p.sum {
                Some(d) => shows_double(field_of(v, "sum"@), d),
                None => field_of(v, "sum"@) is None,
            }
            &&& shows_counts(field_of(v, "bucket_counts"@), p.bucket_counts)
            &&& shows_doubles(field_of(v, "explicit_bounds"@), p.explicit_bounds)
            &&& shows_count(field_of(v, "time_unix_nano"@), p.time_unix_nano)
            &&& forall|k: Seq<char>|
                #![trigger field_of(v, k)]
                field_of(v, k) is Some ==> k == "attributes"@ || k == "count"@ || k == "sum"@ || k
                    == "bucket_counts"@ || k == "explicit_bounds"@ || k == "time_unix_nano"@
        }),
{
    reveal_strlit("attributes");
    reveal_strlit("count");
    reveal_strlit("sum");
    reveal_strlit("bucket_counts");
    reveal_strlit("explicit_bounds");
    reveal_strlit("time_unix_nano");
    let none = Seq::<(Seq<char>, ValueView)>::empty();
    law_read_after_write(none, "attributes"@, ValueView::Object(object_from_kvs(p.attributes)));
    let m1 = with_kvs(none, "attributes"@, p.attributes);
    let count = wrap_i64(p.count as int);
    law_read_after_write(m1, "count"@, ValueView::Integer(count));
    let m2 = with_int(m1, "count"@, count);
    if let Some(d) = p.sum {
        law_read_after_write(m2, "sum"@, double_seen(d));
    }
    let m3 = with_double(m2, "sum"@, p.sum);
    law_read_after_write(m3, "bucket_counts"@, counts_seen(p.bucket_counts));
    let m4 = with_entry(m3, "bucket_counts"@, counts_seen(p.bucket_counts));
    law_read_after_write(m4, "explicit_bounds"@, doubles_seen(p.explicit_bounds));
    let m5 = with_entry(m4, "explicit_bounds"@, doubles_seen(p.explicit_bounds));
    law_read_after_write(
        m5,
        "time_unix_nano"@,
        ValueView::Integer(wrap_i64(p.time_unix_nano as int)),
    );
    let v = Some(histogram_seen(p));
    assert(field_of(v, "bucket_counts"@) == Some(counts_seen(p.bucket_counts)));
    assert(field_of(v, "explicit_bounds"@) == Some(doubles_seen(p.explicit_bounds)));
    assert forall|k: Seq<char>| #![trigger field_of(v, k)] field_of(v, k) is Some implies k
        == "attributes"@ || k == "count"@ || k == "sum"@ || k == "bucket_counts"@ || k
        == "explicit_bounds"@ || k == "time_unix_nano"@ by {
        assert(value_of(m1, k) == value_of(none, k) || k == "attributes"@);
        assert(value_of(m2, k) == value_of(m1, k) || k == "count"@);
        assert(value_of(m3, k) == value_of(m2, k) || k == "sum"@);
        assert(value_of(m4, k) == value_of(m3, k) || k == "bucket_counts"@);
        assert(value_of(m5, k) == value_of(m4, k) || k == "explicit_bounds"@);
    }
}

/// A data point of a histogram with exponential bounds is seen with its attributes, its count, its
/// sum, its scale, the count of zeros and its time, and with nothing else.
pub proof fn law_exponential_point_is_seen(p: ExponentialHistogramDataPointView)
    ensures
        ({
            let v = Some(exponential_seen(p));
            &&& shows_attributes(field_of(v, "attributes"@), p.attributes)
            &&& shows_count(field_of(v, "count"@), p.count)
            &&& match p.sum {
                Some(d) => shows_double(field_of(v, "sum"@), d),
                None => field_of(v, "sum"@) is None,
            }
            &&& shows_int(field_of(v, "scale"@), p.scale as int)
            &&& shows_count(field_of(v, "zero_count"@), p.zero_count)
            &&& shows_count(field_of(v, "time_unix_nano"@), p.time_unix_nano)
            &&& forall|k: Seq<char>|
                #![trigger field_of(v, k)]
                field_of(v, k) is Some ==> k == "attributes"@ || k == "count"@ || k == "sum"@ || k
                    == "scale"@ || k == "zero_count"@ || k == "time_unix_nano"@
        }),
{
    reveal_strlit("attributes");
    reveal_strlit("count");
    reveal_strlit("sum");
    reveal_strlit("scale");
    reveal_strlit("zero_count");
    reveal_strlit("time_unix_nano");
    let none = Seq::<(Seq<char>, ValueView)>::empty();
    law_read_after_write(none, "attributes"@, ValueView::Object(object_from_kvs(p.attributes)));
    let m1 = with_kvs(none, "attributes"@, p.attributes);
    let count = wrap_i64(p.count as int);
    law_read_after_write(m1, "count"@, ValueView::Integer(count));
    let m2 = with_int(m1, "count"@, count);
    if let Some(d) = p.sum {
        law_read_after_write(m2, "sum"@, double_seen(d));
    }
    let m3 = with_double(m2, "sum"@, p.sum);
    law_read_after_write(m3, "scale"@, ValueView::Integer(p.scale as i64));
    let m4 = with_int(m3, "scale"@, p.scale as i64);
    let zeros = wrap_i64(p.zero_count as int);
    law_read_after_write(m4, "zero_count"@, ValueView::Integer(zeros));
    let m5 = with_int(m4, "zero_count"@, zeros);
    law_read_after_write(
        m5,
        "time_unix_nano"@,
        ValueView::Integer(wrap_i64(p.time_unix_nano as int)),
    );
    let v = Some(exponential_seen(p));
    assert forall|k: Seq<char>| #![trigger field_of(v, k)] field_of(v, k) is Some implies k
        == "attributes"@ || k == "count"@ || k == "sum"@ || k == "scale"@ || k == "zero_count"@ || k
        == "time_unix_nano"@ by {
        assert(value_of(m1, k) == value_of(none, k) || k == "attributes"@);
        assert(value_of(m2, k) == value_of(m1, k) || k == "count"@);
        assert(value_of(m3, k) == value_of(m2, k) || k == "sum"@);
        assert(value_of(m4, k) == value_of(m3, k) || k == "scale"@);
        assert(value_of(m5, k) == value_of(m4, k) || k == "zero_count"@);
    }
}

/// A data point of a summary is seen with its attributes, its count, its sum and its time, and with
/// nothing else.
pub proof fn law_summary_point_is_seen(p: SummaryDataPointView)
    ensures
        ({
            let v = Some(summary_seen(p));
            &&& shows_attributes(field_of(v, "attributes"@), p.attributes)
            &&& shows_count(field_of(v, "count"@), p.count)
            &&& shows_double(field_of(v, "sum"@), p.sum)
            &&& shows_count(field_of(v, "time_unix_nano"@), p.time_unix_nano)
            &&& forall|k: Seq<char>|
                #![trigger field_of(v, k)]
                field_of(v, k) is Some ==> k == "attributes"@ || k == "count"@ || k == "sum"@ || k
                    == "time_unix_nano"@
        }),
{
    reveal_strlit("attributes");
    reveal_strlit("count");
    reveal_strlit("sum");
    reveal_strlit("time_unix_nano");
    let none = Seq::<(Seq<char>, ValueView)>::empty();
    law_read_after_write(none, "attributes"@, ValueView::Object(object_from_kvs(p.attributes)));
    let m1 = with_kvs(none, "attributes"@, p.attributes);
    let count = wrap_i64(p.count as int);
    law_read_after_write(m1, "count"@, ValueView::Integer(count));
    let m2 = with_int(m1, "count"@, count);
    law_read_after_write(m2, "sum"@, double_seen(p.sum));
    let m3 = with_entry(m2, "sum"@, double_seen(p.sum));
    law_read_after_write(
        m3,
        "time_unix_nano"@,
        ValueView::Integer(wrap_i64(p.time_unix_nano as int)),
    );
    let v = Some(summary_seen(p));
    assert forall|k: Seq<char>| #![trigger field_of(v, k)] field_of(v, k) is Some implies k
        == "attributes"@ || k == "count"@ || k == "sum"@ || k == "time_unix_nano"@ by {
        assert(value_of(m1, k) == value_of(none, k) || k == "attributes"@);
        assert(value_of(m2, k) == value_of(m1, k) || k == "count"@);
        assert(value_of(m3, k) == value_of(m2, k) || k == "sum"@);
    }
}

/// The name under which data of a type are seen.
pub open spec fn data_name(d: DataView) -> Seq<char> {
    match d {
        DataView::Sum(_) => "sum"@,
        DataView::Gauge(_) => "gauge"@,
        DataView::Histogram(_) => "histogram"@,
        DataView::ExponentialHistogram(_) => "exponential_histogram"@,
        DataView::Summary(_) => "summary"@,
    }
}

/// How many data points there are.
pub open spec fn points_len(d: DataView) -> nat {
    match d {
        DataView::Sum(s) => s.data_points.len(),
        DataView::Gauge(g) => g.data_points.len(),
        DataView::Histogram(h) => h.data_points.len(),
        DataView::ExponentialHistogram(e) => e.data_points.len(),
        DataView::Summary(s) => s.data_points.len(),
    }
}

/// The aggregation temporality, where the type of the data has one.
pub open spec fn temporality_of(d: DataView) -> Option<i32> {
    match d {
        DataView::Sum(s) => Some(s.aggregation_temporality),
        DataView::Histogram(h) => Some(h.aggregation_temporality),
        DataView::ExponentialHistogram(e) => Some(e.aggregation_temporality),
        _ => None,
    }
}

/// The data of a metric are seen under the name of their type, which is seen as well, and under no
/// other name: with all data points, in order, with their aggregation temporality where they have one,
/// and a sum with whether it is monotonic.
pub proof fn law_data_are_seen(d: DataView)
    ensures
        ({
            let v = Some(ValueView::Object(data_seen(d)));
            let inner = field_of(v, data_name(d));
            let points = field_of(inner, "data_points"@);
            &&& shows_text(field_of(v, "type"@), data_name(d))
            &&& points matches Some(ValueView::Array(_))
            &&& size_of(points) == points_len(d)
            &&& forall|i: int|
                0 <= i < points_len(d) ==> #[trigger] item_of(points, i) == match d {
                    DataView::Sum(s) => Some(number_seen(s.data_points[i])),
                    DataView::Gauge(g) => Some(number_seen(g.data_points[i])),
                    DataView::Histogram(h) => Some(histogram_seen(h.data_points[i])),
                    DataView::ExponentialHistogram(e) => Some(exponential_seen(e.data_points[i])),
                    DataView::Summary(s) => Some(summary_seen(s.data_points[i])),
                }
            &&& match temporality_of(d) {
                Some(t) => shows_int(field_of(inner, "aggregation_temporality"@), t as int),
                None => field_of(inner, "aggregation_temporality"@) is None,
            }
            &&& field_of(inner, "is_monotonic"@) == match d {
                DataView::Sum(s) => Some(ValueView::Boolean(s.is_monotonic)),
                _ => None,
            }
            &&& forall|k: Seq<char>|
                #![trigger field_of(v, k)]
                field_of(v, k) is Some ==> k == "type"@ || k == data_name(d)
        }),
{
    reveal_strlit("type");
    reveal_strlit("sum");
    reveal_strlit("gauge");
    reveal_strlit("histogram");
    reveal_strlit("exponential_histogram");
    reveal_strlit("summary");
    reveal_strlit("is_monotonic");
    reveal_strlit("aggregation_temporality");
    reveal_strlit("data_points");
    let none = Seq::<(Seq<char>, ValueView)>::empty();
    let (inner, points) = match d {
        DataView::Sum(s) => {
            law_read_after_write(none, "is_monotonic"@, ValueView::Boolean(s.is_monotonic));
            let m = with_entry(none, "is_monotonic"@, ValueView::Boolean(s.is_monotonic));
            let t = s.aggregation_temporality as i64;
            law_read_after_write(m, "aggregation_temporality"@, ValueView::Integer(t));
            (with_int(m, "aggregation_temporality"@, t), numbers_seen(s.data_points))
        },
        DataView::Gauge(g) => (none, numbers_seen(g.data_points)),
        DataView::Histogram(h) => {
            let t = h.aggregation_temporality as i64;
            law_read_after_write(none, "aggregation_temporality"@, ValueView::Integer(t));
            (
                with_int(none, "aggregation_temporality"@, t),
                ValueView::Array(
                    Seq::new(h.data_points.len(), |i: int| histogram_seen(h.data_points[i])),
                ),
            )
        },
        DataView::ExponentialHistogram(e) => {
            let t = e.aggregation_temporality as i64;
            law_read_after_write(none, "aggregation_temporality"@, ValueView::Integer(t));
            (
                with_int(none, "aggregation_temporality"@, t),
                ValueView::Array(
                    Seq::new(e.data_points.len(), |i: int| exponential_seen(e.data_points[i])),
                ),
            )
        },
        DataView::Summary(s) => (
            none,
            ValueView::Array(Seq::new(s.data_points.len(), |i: int| summary_seen(s.data_points[i]))),
        ),
    };
    law_read_after_write(inner, "data_points"@, points);
    let all = ValueView::Object(with_entry(inner, "data_points"@, points));
    let name = data_name(d);
    law_read_after_write(none, "type"@, ValueView::text(name));
    let m = with_str(none, "type"@, name);
    law_read_after_write(m, name, all);
    assert(data_seen(d) == with_entry(m, name, all));
    let v = Some(ValueView::Object(data_seen(d)));
    assert(field_of(v, name) == Some(all));
    assert(field_of(Some(all), "data_points"@) == Some(points));
    assert forall|k: Seq<char>| #![trigger field_of(v, k)] field_of(v, k) is Some implies k
        == "type"@ || k == name by {
        assert(value_of(m, k) == value_of(none, k) || k == "type"@);
    }
}

proof fn lemma_metric_names()
    ensures
        "name"@.len() == 4,
        "name"@[0] == 'n',
        "description"@.len() == 11,
        "unit"@.len() == 4,
        "unit"@[0] == 'u',
        "resource"@.len() == 8,
        "scope"@.len() == 5,
        "attributes"@.len() == 10,
        "kind"@.len() == 4,
        "kind"@[0] == 'k',
        "namespace"@.len() == 9,
        "data"@.len() == 4,
        "data"@[0] == 'd',
{
    reveal_strlit("name");
    reveal_strlit("description");
    reveal_strlit("unit");
    reveal_strlit("resource");
    reveal_strlit("scope");
    reveal_strlit("attributes");
    reveal_strlit("kind");
    reveal_strlit("namespace");
    reveal_strlit("data");
}

/// A metric is seen with its name, its description and its unit unless they are empty, its resource
/// and its scope where they are there, the attributes of its first data point unless there are none,
/// its kind, its namespace where it has one, and its data where it has some.
#[verifier::rlimit(60)]
pub proof fn law_metric_is_seen(m: OtelMetricView)
    ensures
        ({
            let v = Some(TargetView::of_event(EventView::Metric(m)).root(PathPrefix::Event));
            &&& shows_text(field_of(v, "name"@), m.metric.name)
            &&& if m.metric.description.len() == 0 {
                field_of(v, "description"@) is None
            } else {
                shows_text(field_of(v, "description"@), m.metric.description)
            }
            &&& if m.metric.unit.len() == 0 {
                field_of(v, "unit"@) is None
            } else {
                shows_text(field_of(v, "unit"@), m.metric.unit)
            }
            &&& field_of(v, "resource"@) == match full_resource(m.resource, m.resource_attrs) {
                Some(r) => Some(resource_object(r)),
                None => None,
            }
            &&& field_of(v, "scope"@) == match full_scope(m.scope, m.scope_attrs) {
                Some(s) => Some(scope_object(s)),
                None => None,
            }
            &&& field_of(v, "attributes"@) == if m.dp_attrs.len() > 0 && m.dp_attrs[0].len() > 0 {
                Some(ValueView::Object(object_from_attrs(m.dp_attrs[0])))
            } else {
                None
            }
            &&& shows_text(
                field_of(v, "kind"@),
                match m.kind() {
                    MetricKind::Absolute => "absolute"@,
                    MetricKind::Incremental => "incremental"@,
                },
            )
            &&& match m.namespace() {
                Some(ns) => shows_text(field_of(v, "namespace"@), ns),
                None => field_of(v, "namespace"@) is None,
            }
            &&& field_of(v, "data"@) is Some <==> m.metric.data is Some
            &&& m.metric.with_point_attributes(m.dp_attrs).data matches Some(d) ==> field_of(
                v,
                "data"@,
            ) == Some(ValueView::Object(data_seen(d)))
        }),
{
    lemma_metric_names();
    let none = Seq::<(Seq<char>, ValueView)>::empty();
    law_read_after_write(none, "name"@, ValueView::text(m.metric.name));
    let m1 = with_str(none, "name"@, m.metric.name);
    law_read_after_write(m1, "description"@, ValueView::text(m.metric.description));
    let m2 = with_text(m1, "description"@, m.metric.description);
    law_read_after_write(m2, "unit"@, ValueView::text(m.metric.unit));
    let m3 = with_text(m2, "unit"@, m.metric.unit);
    let m4 = match full_resource(m.resource, m.resource_attrs) {
        Some(r) => {
            law_read_after_write(m3, "resource"@, resource_object(r));
            with_entry(m3, "resource"@, resource_object(r))
        },
        None => m3,
    };
    let m5 = match full_scope(m.scope, m.scope_attrs) {
        Some(s) => {
            law_read_after_write(m4, "scope"@, scope_object(s));
            with_entry(m4, "scope"@, scope_object(s))
        },
        None => m4,
    };
    let m6 = if m.dp_attrs.len() > 0 && m.dp_attrs[0].len() > 0 {
        let attrs = ValueView::Object(object_from_attrs(m.dp_attrs[0]));
        law_read_after_write(m5, "attributes"@, attrs);
        with_entry(m5, "attributes"@, attrs)
    } else {
        m5
    };
    law_read_after_write(m6, "kind"@, ValueView::text(kind_name(m.kind())));
    let m7 = with_str(m6, "kind"@, kind_name(m.kind()));
    let m8 = match m.namespace() {
        Some(ns) => {
            law_read_after_write(m7, "namespace"@, ValueView::text(ns));
            with_str(m7, "namespace"@, ns)
        },
        None => m7,
    };
    if let Some(d) = m.metric.with_point_attributes(m.dp_attrs).data {
        law_read_after_write(m8, "data"@, ValueView::Object(data_seen(d)));
    }
}

/// Each attribute is seen under its name, as the value that it is read as, and under no other name.
pub proof fn law_attributes_are_seen(attrs: Seq<(Seq<char>, AnyView)>, key: Seq<char>)
    requires
        ordered(attrs),
    ensures
        object_from_kvs(kvs_from_attrs(attrs)) == object_from_attrs(attrs),
        value_of(object_from_attrs(attrs), key) == match value_of(attrs, key) {
            Some(a) => Some(value_from_any(a)),
            None => None,
        },
{
    let kvs = kvs_from_attrs(attrs);
    assert(filled(kvs) =~= attrs);
    lemma_object_of_ordered(kvs);
    let seen = object_from_attrs(attrs);
    assert(fields_of(kvs) =~= seen);
    if value_of(attrs, key) is Some {
        lemma_found_entry(attrs, key);
        lemma_entry_found(seen, slot_of(attrs, key));
    } else if value_of(seen, key) is Some {
        lemma_found_entry(seen, key);
        lemma_entry_found(attrs, slot_of(seen, key));
    }
}

/// Whether a data point of a sum or a gauge is seen with its times and its number.
pub open spec fn shows_number_point(v: Option<ValueView>, p: NumberDataPointView) -> bool {
    &&& shows_count(field_of(v, "time_unix_nano"@), p.time_unix_nano)
    &&& p.start_time_unix_nano != 0 ==> shows_count(
        field_of(v, "start_time_unix_nano"@),
        p.start_time_unix_nano,
    )
    &&& match p.value {
        Some(NumberValue::AsDouble(d)) => shows_double(field_of(v, "value"@), d),
        Some(NumberValue::AsInt(i)) => shows_int(field_of(v, "value"@), i as int),
        None => field_of(v, "value"@) is None,
    }
}

/// What a program sees of the data points of a metric.
pub open spec fn points_shown(m: OtelMetricView) -> Option<ValueView> {
    let v = Some(TargetView::of_event(EventView::Metric(m)).root(PathPrefix::Event));
    match m.metric.data {
        Some(d) => field_of(field_of(field_of(v, "data"@), data_name(d)), "data_points"@),
        None => None,
    }
}

/// At `data`, the name of the type, `data_points` and the index of a data point a program sees that data
/// point: a number of a sum or a gauge exactly as it is held, but for a NaN, which is zero; of the
/// others the counts, the sum, the bounds and the time as they are held. There are as many as the metric
/// holds, and each has its own attributes.
#[verifier::rlimit(40)]
pub proof fn law_points_are_seen(m: OtelMetricView, d: DataView, i: int)
    requires
        m.metric.data == Some(d),
        0 <= i < points_len(d),
    ensures
        size_of(points_shown(m)) == points_len(d),
        ({
            let v = item_of(points_shown(m), i);
            &&& match d {
                DataView::Sum(s) => shows_number_point(v, s.data_points[i]),
                DataView::Gauge(g) => shows_number_point(v, g.data_points[i]),
                DataView::Histogram(h) => {
                    let p = h.data_points[i];
                    &&& shows_count(field_of(v, "count"@), p.count)
                    &&& p.sum matches Some(sum) ==> shows_double(field_of(v, "sum"@), sum)
                    &&& shows_counts(field_of(v, "bucket_counts"@), p.bucket_counts)
                    &&& shows_doubles(field_of(v, "explicit_bounds"@), p.explicit_bounds)
                    &&& shows_count(field_of(v, "time_unix_nano"@), p.time_unix_nano)
                },
                DataView::ExponentialHistogram(e) => {
                    let p = e.data_points[i];
                    &&& shows_count(field_of(v, "count"@), p.count)
                    &&& p.sum matches Some(sum) ==> shows_double(field_of(v, "sum"@), sum)
                    &&& shows_int(field_of(v, "scale"@), p.scale as int)
                    &&& shows_count(field_of(v, "zero_count"@), p.zero_count)
                    &&& shows_count(field_of(v, "time_unix_nano"@), p.time_unix_nano)
                },
                DataView::Summary(s) => {
                    let p = s.data_points[i];
                    &&& shows_count(field_of(v, "count"@), p.count)
                    &&& shows_double(field_of(v, "sum"@), p.sum)
                    &&& shows_count(field_of(v, "time_unix_nano"@), p.time_unix_nano)
                },
            }
            &&& i < m.dp_attrs.len() ==> shows_attributes(
                field_of(v, "attributes"@),
                kvs_from_attrs(m.dp_attrs[i]),
            )
        }),
{
    law_metric_is_seen(m);
    let full = m.metric.with_point_attributes(m.dp_attrs).data->0;
    assert(m.metric.with_point_attributes(m.dp_attrs).data == Some(full));
    law_data_are_seen(full);
    assert(data_name(full) == data_name(d));
    assert(points_len(full) == points_len(d));
    let v = item_of(points_shown(m), i);
    match full {
        DataView::Sum(s) => {
            law_number_point_is_seen(s.data_points[i]);
            assert(v == Some(number_seen(s.data_points[i])));
        },
        DataView::Gauge(g) => {
            law_number_point_is_seen(g.data_points[i]);
            assert(v == Some(number_seen(g.data_points[i])));
        },
        DataView::Histogram(h) => {
            law_histogram_point_is_seen(h.data_points[i]);
            assert(v == Some(histogram_seen(h.data_points[i])));
        },
        DataView::ExponentialHistogram(e) => {
            law_exponential_point_is_seen(e.data_points[i]);
            assert(v == Some(exponential_seen(e.data_points[i])));
        },
        DataView::Summary(s) => {
            law_summary_point_is_seen(s.data_points[i]);
            assert(v == Some(summary_seen(s.data_points[i])));
        },
    }
}

/// The data points of a sum or a gauge; none of other data.
pub open spec fn number_points(d: DataView) -> Seq<NumberDataPointView> {
    match d {
        DataView::Sum(s) => s.data_points,
        DataView::Gauge(g) => g.data_points,
        _ => Seq::empty(),
    }
}

/// Two sums, or two gauges, that differ in a number are seen as different values, where neither number
/// is a NaN.
pub proof fn law_numbers_are_told_apart(
    a: OtelMetricView,
    b: OtelMetricView,
    x: DataView,
    y: DataView,
    i: int,
)
    requires
        a.metric.data == Some(x),
        b.metric.data == Some(y),
        data_name(x) == data_name(y),
        0 <= i < number_points(x).len(),
        i < number_points(y).len(),
        number_points(x)[i].value != number_points(y)[i].value,
        !(number_points(x)[i].value matches Some(NumberValue::AsDouble(n)) && nan(n)),
        !(number_points(y)[i].value matches Some(NumberValue::AsDouble(n)) && nan(n)),
    ensures
        TargetView::of_event(EventView::Metric(a)).root(PathPrefix::Event) != TargetView::of_event(
            EventView::Metric(b),
        ).root(PathPrefix::Event),
{
    law_points_are_seen(a, x, i);
    law_points_are_seen(b, y, i);
    if TargetView::of_event(EventView::Metric(a)).root(PathPrefix::Event) == TargetView::of_event(
        EventView::Metric(b),
    ).root(PathPrefix::Event) {
        assert(points_shown(a) == points_shown(b));
    }
}

/// At the path `data` a program reads the data of a metric as they are seen there.
pub proof fn law_data_are_read(m: OtelMetricView)
    ensures
        ({
            let t = TargetView::of_event(EventView::Metric(m));
            let path = TargetPathView {
                prefix: PathPrefix::Event,
                path: seq![SegmentView::Field("data"@)],
            };
            t.read(path, false) == Ok::<Option<ValueView>, FaultView>(
                field_of(Some(t.root(PathPrefix::Event)), "data"@),
            )
        }),
{
    lemma_metric_names();
    let path = seq![SegmentView::Field("data"@)];
    assert(path.drop_first() =~= Seq::empty());
    reveal_with_fuel(fetched, 2);
    let steps = first_steps(path, MAX_OTEL_METRIC_PATH_DEPTH as nat);
    assert(steps =~= path);
    let names = components(path, MAX_OTEL_METRIC_PATH_DEPTH as nat);
    assert(names->0.len() == 1 && names->0[0] == "data"@);
    assert(place_of(names->0) == MetricPlace::Data);
}

} // verus!
