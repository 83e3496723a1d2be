//! What holds of the body of the log event that a metric becomes: which named values it has, and what
//! stands under each name.
use vstd::prelude::*;

use crate::any_value::AnyView;
use crate::listed_laws::{held, lemma_none, lemma_put, one_if};
use crate::metric_body::{
    and, and_if, and_sum, attribute_any, attributes_any, count_any, counts_any, doubles_any,
    exponential_any, histogram_any, number_any, point_start, quantile_any, quantiles_any, side_any,
    summary_any,
};
use crate::otlp_metric::{
    BucketsView, DataView, ExponentialHistogramDataPointView, HistogramDataPointView,
    MetricMessageView, NumberDataPointView, NumberValue, SummaryDataPointView, ValueAtQuantileView,
};
use crate::text::decimal;

verus! {

/// The values that stand under a name in a list of named values; none in any other value.
pub open spec fn named(a: AnyView, name: Seq<char>) -> Seq<Option<AnyView>> {
    match a {
        AnyView::Kvlist(kvs) => held(kvs, name),
        _ => Seq::empty(),
    }
}

/// The text of digits that a count is.
pub open spec fn count_text(n: u64) -> Option<AnyView> {
    Some(AnyView::Str(decimal(n as nat)))
}

/// Whether there is one value: the list of some counts, as texts of digits.
pub open spec fn holds_counts(found: Seq<Option<AnyView>>, counts: Seq<u64>) -> bool {
    found.len() == 1 && (found[0] matches Some(AnyView::Array(a)) && a.len() == counts.len() && forall|
        i: int,
    |
        0 <= i < a.len() ==> Some(#[trigger] a[i]) == count_text(counts[i]))
}

/// Whether there is one value: the list of some doubles.
pub open spec fn holds_doubles(found: Seq<Option<AnyView>>, bits: Seq<u64>) -> bool {
    found.len() == 1 && (found[0] matches Some(AnyView::Array(a)) && a.len() == bits.len() && forall|
        i: int,
    |
        0 <= i < a.len() ==> #[trigger] a[i] == AnyView::Double(bits[i]))
}

/// Whether there is one value: the list of some attributes, each with its name and, where it has one, its
/// value.
pub open spec fn holds_attributes(
    found: Seq<Option<AnyView>>,
    kvs: Seq<(Seq<char>, Option<AnyView>)>,
) -> bool {
    if kvs.len() == 0 {
        found.len() == 0
    } else {
        found.len() == 1 && (found[0] matches Some(AnyView::Array(a)) && a.len() == kvs.len()
            && forall|i: int|
            0 <= i < a.len() ==> #[trigger] named(a[i], "key"@) == seq![Some(AnyView::Str(kvs[i].0))]
                && named(a[i], "value"@) == one_if(kvs[i].1 is Some, kvs[i].1))
    }
}

proof fn lemma_point_names()
    ensures
        "attributes"@.len() == 10,
        "timeUnixNano"@.len() == 12 && "timeUnixNano"@[0] == 't',
        "startTimeUnixNano"@.len() == 17,
        "asDouble"@.len() == 8 && "asDouble"@[0] == 'a',
        "asInt"@.len() == 5 && "asInt"@[0] == 'a',
        "count"@.len() == 5 && "count"@[0] == 'c',
        "sum"@.len() == 3 && "sum"@[0] == 's',
        "bucketCounts"@.len() == 12 && "bucketCounts"@[0] == 'b',
        "explicitBounds"@.len() == 14 && "explicitBounds"@[0] == 'e',
        "quantileValues"@.len() == 14 && "quantileValues"@[0] == 'q',
        "quantile"@.len() == 8 && "quantile"@[0] == 'q',
        "value"@.len() == 5 && "value"@[0] == 'v',
        "key"@.len() == 3 && "key"@[0] == 'k',
        "offset"@.len() == 6,
        "scale"@.len() == 5 && "scale"@[0] == 's',
        "zeroCount"@.len() == 9,
        "positive"@.len() == 8 && "positive"@[0] == 'p',
        "negative"@.len() == 8 && "negative"@[0] == 'n',
{
    reveal_strlit("attributes");
    reveal_strlit("timeUnixNano");
    reveal_strlit("startTimeUnixNano");
    reveal_strlit("asDouble");
    reveal_strlit("asInt");
    reveal_strlit("count");
    reveal_strlit("sum");
    reveal_strlit("bucketCounts");
    reveal_strlit("explicitBounds");
    reveal_strlit("quantileValues");
    reveal_strlit("quantile");
    reveal_strlit("value");
    reveal_strlit("key");
    reveal_strlit("offset");
    reveal_strlit("scale");
    reveal_strlit("zeroCount");
    reveal_strlit("positive");
    reveal_strlit("negative");
}

proof fn lemma_body_names()
    ensures
        "dataPoints"@.len() == 10,
        "aggregationTemporality"@.len() == 22,
        "isMonotonic"@.len() == 11 && "isMonotonic"@[0] == 'i',
        "sum"@.len() == 3,
        "gauge"@.len() == 5,
        "histogram"@.len() == 9,
        "summary"@.len() == 7,
        "exponentialHistogram"@.len() == 20,
        "name"@.len() == 4 && "name"@[0] == 'n',
        "description"@.len() == 11 && "description"@[0] == 'd',
        "unit"@.len() == 4 && "unit"@[0] == 'u',
{
    reveal_strlit("dataPoints");
    reveal_strlit("aggregationTemporality");
    reveal_strlit("isMonotonic");
    reveal_strlit("sum");
    reveal_strlit("gauge");
    reveal_strlit("histogram");
    reveal_strlit("summary");
    reveal_strlit("exponentialHistogram");
    reveal_strlit("name");
    reveal_strlit("description");
    reveal_strlit("unit");
}

proof fn lemma_attribute(kv: (Seq<char>, Option<AnyView>))
    ensures
        named(attribute_any(kv), "key"@) == seq![Some(AnyView::Str(kv.0))],
        named(attribute_any(kv), "value"@) == one_if(kv.1 is Some, kv.1),
{
    lemma_point_names();
    lemma_none::<Option<AnyView>>();
    let none = Seq::<(Seq<char>, Option<AnyView>)>::empty();
    lemma_put(none, "key"@, Some(AnyView::Str(kv.0)));
    let m = and(none, "key"@, AnyView::Str(kv.0));
    lemma_put(m, "value"@, kv.1);
}

proof fn lemma_attributes(kvs: Seq<(Seq<char>, Option<AnyView>)>)
    ensures
        kvs.len() > 0 ==> holds_attributes(seq![Some(attributes_any(kvs))], kvs),
{
    let a = attributes_any(kvs)->Array_0;
    assert forall|i: int| 0 <= i < a.len() implies #[trigger] named(a[i], "key"@) == seq![
        Some(AnyView::Str(kvs[i].0)),
    ] && named(a[i], "value"@) == one_if(kvs[i].1 is Some, kvs[i].1) by {
        lemma_attribute(kvs[i]);
    }
}

/// A data point of a sum or a gauge has its number under the name of its type, its attributes unless
/// there are none, and its time and its start unless they are zero, as digits. It has nothing else.
pub proof fn law_number_point_in_body(p: NumberDataPointView)
    ensures
        ({
            let a = number_any(p);
            &&& named(a, "asDouble"@) == match p.value {
                Some(NumberValue::AsDouble(d)) => seq![Some(AnyView::Double(d))],
                _ => Seq::empty(),
            }
            &&& named(a, "asInt"@) == match p.value {
                Some(NumberValue::AsInt(i)) => seq![Some(AnyView::Int(i))],
                _ => Seq::empty(),
            }
            &&& holds_attributes(named(a, "attributes"@), p.attributes)
            &&& named(a, "timeUnixNano"@) == one_if(
                p.time_unix_nano != 0,
                count_text(p.time_unix_nano),
            )
            &&& named(a, "startTimeUnixNano"@) == one_if(
                p.start_time_unix_nano != 0,
                count_text(p.start_time_unix_nano),
            )
            &&& a is Kvlist
            &&& forall|name: Seq<char>| #[trigger]
                named(a, name).len() > 0 ==> name == "asDouble"@ || name == "asInt"@ || name
                    == "attributes"@ || name == "timeUnixNano"@ || name == "startTimeUnixNano"@
        }),
{
    lemma_point_names();
    lemma_none::<Option<AnyView>>();
    let none = Seq::<(Seq<char>, Option<AnyView>)>::empty();
    let m1 = match p.value {
        Some(NumberValue::AsDouble(d)) => {
            lemma_put(none, "asDouble"@, Some(AnyView::Double(d)));
            and(none, "asDouble"@, AnyView::Double(d))
        },
        Some(NumberValue::AsInt(i)) => {
            lemma_put(none, "asInt"@, Some(AnyView::Int(i)));
            and(none, "asInt"@, AnyView::Int(i))
        },
        None => none,
    };
    lemma_attributes(p.attributes);
    lemma_put(m1, "attributes"@, Some(attributes_any(p.attributes)));
    let m2 = and_if(p.attributes.len() > 0, m1, "attributes"@, attributes_any(p.attributes));
    lemma_put(m2, "timeUnixNano"@, count_text(p.time_unix_nano));
    let m3 = and_if(p.time_unix_nano != 0, m2, "timeUnixNano"@, count_any(p.time_unix_nano));
    lemma_put(m3, "startTimeUnixNano"@, count_text(p.start_time_unix_nano));
}

proof fn lemma_point_start(attributes: Seq<(Seq<char>, Option<AnyView>)>, time: u64, count: u64)
    ensures
        ({
            let m = point_start(attributes, time, count);
            &&& holds_attributes(held(m, "attributes"@), attributes)
            &&& held(m, "timeUnixNano"@) == one_if(time != 0, count_text(time))
            &&& held(m, "count"@) == seq![count_text(count)]
            &&& forall|name: Seq<char>|
                name != "attributes"@ && name != "timeUnixNano"@ && name != "count"@
                    ==> #[trigger] held(m, name) == Seq::<Option<AnyView>>::empty()
        }),
{
    lemma_point_names();
    lemma_none::<Option<AnyView>>();
    let none = Seq::<(Seq<char>, Option<AnyView>)>::empty();
    lemma_attributes(attributes);
    lemma_put(none, "attributes"@, Some(attributes_any(attributes)));
    let m1 = and_if(attributes.len() > 0, none, "attributes"@, attributes_any(attributes));
    lemma_put(m1, "timeUnixNano"@, count_text(time));
    let m2 = and_if(time != 0, m1, "timeUnixNano"@, count_any(time));
    lemma_put(m2, "count"@, count_text(count));
}

/// A data point of a histogram has its attributes unless there are none, its time unless it is zero, its
/// count as digits, its sum where there is one, and the counts and the bounds of its buckets unless there
/// are none. It has nothing else.
pub proof fn law_histogram_point_in_body(p: HistogramDataPointView)
    ensures
        ({
            let a = histogram_any(p);
            &&& holds_attributes(named(a, "attributes"@), p.attributes)
            &&& named(a, "timeUnixNano"@) == one_if(
                p.time_unix_nano != 0,
                count_text(p.time_unix_nano),
            )
            &&& named(a, "count"@) == seq![count_text(p.count)]
            &&& named(a, "sum"@) == match p.sum {
                Some(d) => seq![Some(AnyView::Double(d))],
                None => Seq::empty(),
            }
            &&& if p.bucket_counts.len() == 0 {
                named(a, "bucketCounts"@).len() == 0
            } else {
                holds_counts(named(a, "bucketCounts"@), p.bucket_counts)
            }
            &&& if p.explicit_bounds.len() == 0 {
                named(a, "explicitBounds"@).len() == 0
            } else {
                holds_doubles(named(a, "explicitBounds"@), p.explicit_bounds)
            }
            &&& a is Kvlist
            &&& forall|name: Seq<char>| #[trigger]
                named(a, name).len() > 0 ==> name == "attributes"@ || name == "timeUnixNano"@ || name
                    == "count"@ || name == "sum"@ || name == "bucketCounts"@ || name
                    == "explicitBounds"@
        }),
{
    lemma_point_names();
    lemma_point_start(p.attributes, p.time_unix_nano, p.count);
    let m1 = point_start(p.attributes, p.time_unix_nano, p.count);
    if let Some(d) = p.sum {
        lemma_put(m1, "sum"@, Some(AnyView::Double(d)));
    }
    let m2 = and_sum(m1, p.sum);
    lemma_put(m2, "bucketCounts"@, Some(counts_any(p.bucket_counts)));
    let m3 = and_if(p.bucket_counts.len() > 0, m2, "bucketCounts"@, counts_any(p.bucket_counts));
    lemma_put(m3, "explicitBounds"@, Some(doubles_any(p.explicit_bounds)));
}

proof fn lemma_quantile(q: ValueAtQuantileView)
    ensures
        named(quantile_any(q), "quantile"@) == seq![Some(AnyView::Double(q.quantile))],
        named(quantile_any(q), "value"@) == seq![Some(AnyView::Double(q.value))],
{
    lemma_point_names();
    lemma_none::<Option<AnyView>>();
    let none = Seq::<(Seq<char>, Option<AnyView>)>::empty();
    lemma_put(none, "quantile"@, Some(AnyView::Double(q.quantile)));
    let m = and(none, "quantile"@, AnyView::Double(q.quantile));
    lemma_put(m, "value"@, Some(AnyView::Double(q.value)));
}

/// A data point of a summary has its attributes unless there are none, its time unless it is zero, its
/// count as digits, its sum, and for each quantile, in order, the quantile and the value at it. It has
/// nothing else.
pub proof fn law_summary_point_in_body(p: SummaryDataPointView)
    ensures
        ({
            let a = summary_any(p);
            let quantiles = named(a, "quantileValues"@);
            &&& holds_attributes(named(a, "attributes"@), p.attributes)
            &&& named(a, "timeUnixNano"@) == one_if(
                p.time_unix_nano != 0,
                count_text(p.time_unix_nano),
            )
            &&& named(a, "count"@) == seq![count_text(p.count)]
            &&& named(a, "sum"@) == seq![Some(AnyView::Double(p.sum))]
            &&& quantiles.len() == 1 && (quantiles[0] matches Some(AnyView::Array(q)) && q.len()
                == p.quantile_values.len() && forall|i: int|
                0 <= i < q.len() ==> #[trigger] named(q[i], "quantile"@) == seq![
                    Some(AnyView::Double(p.quantile_values[i].quantile)),
                ] && named(q[i], "value"@) == seq![
                    Some(AnyView::Double(p.quantile_values[i].value)),
                ])
            &&& a is Kvlist
            &&& forall|name: Seq<char>| #[trigger]
                named(a, name).len() > 0 ==> name == "attributes"@ || name == "timeUnixNano"@ || name
                    == "count"@ || name == "sum"@ || name == "quantileValues"@
        }),
{
    lemma_point_names();
    lemma_point_start(p.attributes, p.time_unix_nano, p.count);
    let m1 = point_start(p.attributes, p.time_unix_nano, p.count);
    lemma_put(m1, "sum"@, Some(AnyView::Double(p.sum)));
    let m2 = and(m1, "sum"@, AnyView::Double(p.sum));
    let q = Seq::new(p.quantile_values.len(), |i: int| quantile_any(p.quantile_values[i]));
    lemma_put(m2, "quantileValues"@, Some(quantiles_any(p.quantile_values)));
    assert forall|i: int| 0 <= i < q.len() implies #[trigger] named(q[i], "quantile"@) == seq![
        Some(AnyView::Double(p.quantile_values[i].quantile)),
    ] && named(q[i], "value"@) == seq![Some(AnyView::Double(p.quantile_values[i].value))] by {
        lemma_quantile(p.quantile_values[i]);
    }
    let found = named(summary_any(p), "quantileValues"@);
    assert(found == seq![Some(quantiles_any(p.quantile_values))]);
    assert(found[0] == Some(AnyView::Array(q)));
}

/// Whether there is one value: the offset and the counts of some buckets.
pub open spec fn holds_side(found: Seq<Option<AnyView>>, b: Option<BucketsView>) -> bool {
    match b {
        Some(b) => found.len() == 1 && found[0] is Some && named(found[0]->0, "offset"@) == seq![
            Some(AnyView::Int(b.offset as i64)),
        ] && holds_counts(named(found[0]->0, "bucketCounts"@), b.bucket_counts),
        None => found.len() == 0,
    }
}

proof fn lemma_side(b: BucketsView)
    ensures
        holds_side(seq![Some(side_any(b))], Some(b)),
{
    lemma_point_names();
    lemma_none::<Option<AnyView>>();
    let none = Seq::<(Seq<char>, Option<AnyView>)>::empty();
    lemma_put(none, "offset"@, Some(AnyView::Int(b.offset as i64)));
    let m = and(none, "offset"@, AnyView::Int(b.offset as i64));
    lemma_put(m, "bucketCounts"@, Some(counts_any(b.bucket_counts)));
}

/// A data point of a histogram with exponential bounds has its attributes unless there are none, its time
/// unless it is zero, its count as digits, its sum where there is one, its scale, the count of zeros as
/// digits, and for each sign, where it has buckets, their offset and their counts. It has nothing else.
#[verifier::rlimit(40)]
pub proof fn law_exponential_point_in_body(p: ExponentialHistogramDataPointView)
    ensures
        ({
            let a = exponential_any(p);
            &&& holds_attributes(named(a, "attributes"@), p.attributes)
            &&& named(a, "timeUnixNano"@) == one_if(
                p.time_unix_nano != 0,
                count_text(p.time_unix_nano),
            )
            &&& named(a, "count"@) == seq![count_text(p.count)]
            &&& named(a, "sum"@) == match p.sum {
                Some(d) => seq![Some(AnyView::Double(d))],
                None => Seq::empty(),
            }
            &&& named(a, "scale"@) == seq![Some(AnyView::Int(p.scale as i64))]
            &&& named(a, "zeroCount"@) == seq![count_text(p.zero_count)]
            &&& holds_side(named(a, "positive"@), p.positive)
            &&& holds_side(named(a, "negative"@), p.negative)
            &&& a is Kvlist
            &&& forall|name: Seq<char>| #[trigger]
                named(a, name).len() > 0 ==> name == "attributes"@ || name == "timeUnixNano"@ || name
                    == "count"@ || name == "sum"@ || name == "scale"@ || name == "zeroCount"@ || name
                    == "positive"@ || name == "negative"@
        }),
{
    lemma_point_names();
    lemma_point_start(p.attributes, p.time_unix_nano, p.count);
    let m1 = point_start(p.attributes, p.time_unix_nano, p.count);
    if let Some(d) = p.sum {
        lemma_put(m1, "sum"@, Some(AnyView::Double(d)));
    }
    let m2 = and_sum(m1, p.sum);
    lemma_put(m2, "scale"@, Some(AnyView::Int(p.scale as i64)));
    let m3 = and(m2, "scale"@, AnyView::Int(p.scale as i64));
    lemma_put(m3, "zeroCount"@, count_text(p.zero_count));
    let m4 = and(m3, "zeroCount"@, count_any(p.zero_count));
    let m5 = match p.positive {
        Some(b) => {
            lemma_side(b);
            lemma_put(m4, "positive"@, Some(side_any(b)));
            and(m4, "positive"@, side_any(b))
        },
        None => m4,
    };
    if let Some(b) = p.negative {
        lemma_side(b);
        lemma_put(m5, "negative"@, Some(side_any(b)));
    }
}

/// The data of a metric stand under the name of their type: with a list of all data points in order, the
/// aggregation temporality where the type has one, and, of a sum, whether it is monotonic.
pub proof fn law_data_in_body(d: DataView)
    ensures
        d.body().0 == match d {
            DataView::Sum(_) => "sum"@,
            DataView::Gauge(_) => "gauge"@,
            DataView::Histogram(_) => "histogram"@,
            DataView::ExponentialHistogram(_) => "exponentialHistogram"@,
            DataView::Summary(_) => "summary"@,
        },
        ({
            let points = named(d.body().1, "dataPoints"@);
            &&& points.len() == 1
            &&& points[0] matches Some(AnyView::Array(a)) && match d {
                DataView::Sum(x) => a.len() == x.data_points.len() && forall|i: int|
                    0 <= i < a.len() ==> #[trigger] a[i] == number_any(x.data_points[i]),
                DataView::Gauge(x) => a.len() == x.data_points.len() && forall|i: int|
                    0 <= i < a.len() ==> #[trigger] a[i] == number_any(x.data_points[i]),
                DataView::Histogram(x) => a.len() == x.data_points.len() && forall|i: int|
                    0 <= i < a.len() ==> #[trigger] a[i] == histogram_any(x.data_points[i]),
                DataView::ExponentialHistogram(x) => a.len() == x.data_points.len() && forall|i: int|
                    0 <= i < a.len() ==> #[trigger] a[i] == exponential_any(x.data_points[i]),
                DataView::Summary(x) => a.len() == x.data_points.len() && forall|i: int|
                    0 <= i < a.len() ==> #[trigger] a[i] == summary_any(x.data_points[i]),
            }
            &&& named(d.body().1, "aggregationTemporality"@) == match d {
                DataView::Sum(x) => seq![Some(AnyView::Int(x.aggregation_temporality as i64))],
                DataView::Histogram(x) => seq![Some(AnyView::Int(x.aggregation_temporality as i64))],
                DataView::ExponentialHistogram(x) => seq![
                    Some(AnyView::Int(x.aggregation_temporality as i64)),
                ],
                _ => Seq::empty(),
            }
            &&& named(d.body().1, "isMonotonic"@) == match d {
                DataView::Sum(x) => seq![Some(AnyView::Bool(x.is_monotonic))],
                _ => Seq::empty(),
            }
        }),
{
    lemma_body_names();
    lemma_none::<Option<AnyView>>();
    let none = Seq::<(Seq<char>, Option<AnyView>)>::empty();
    let points = d.body().1->Kvlist_0[0].1->0;
    lemma_put(none, "dataPoints"@, Some(points));
    let m = and(none, "dataPoints"@, points);
    let t = AnyView::Int(
        (match d {
            DataView::Sum(x) => x.aggregation_temporality,
            DataView::Histogram(x) => x.aggregation_temporality,
            DataView::ExponentialHistogram(x) => x.aggregation_temporality,
            _ => 0,
        }) as i64,
    );
    lemma_put(m, "aggregationTemporality"@, Some(t));
    if let DataView::Sum(x) = d {
        lemma_put(
            and(m, "aggregationTemporality"@, t),
            "isMonotonic"@,
            Some(AnyView::Bool(x.is_monotonic)),
        );
    }
}

/// The body of a metric has its name, its description and its unit unless they are empty, and its data,
/// where it has some, under the name of their type. It has nothing else.
pub proof fn law_metric_in_body(m: MetricMessageView)
    ensures
        ({
            let a = m.body();
            &&& named(a, "name"@) == seq![Some(AnyView::Str(m.name))]
            &&& named(a, "description"@) == one_if(
                m.description.len() > 0,
                Some(AnyView::Str(m.description)),
            )
            &&& named(a, "unit"@) == one_if(m.unit.len() > 0, Some(AnyView::Str(m.unit)))
            &&& m.data matches Some(d) ==> named(a, d.body().0) == seq![Some(d.body().1)]
            &&& a is Kvlist
            &&& forall|name: Seq<char>| #[trigger]
                named(a, name).len() > 0 ==> name == "name"@ || name == "description"@ || name
                    == "unit"@ || (m.data matches Some(d) && name == d.body().0)
        }),
{
    lemma_body_names();
    lemma_none::<Option<AnyView>>();
    let none = Seq::<(Seq<char>, Option<AnyView>)>::empty();
    lemma_put(none, "name"@, Some(AnyView::Str(m.name)));
    let m1 = and(none, "name"@, AnyView::Str(m.name));
    lemma_put(m1, "description"@, Some(AnyView::Str(m.description)));
    let m2 = and_if(m.description.len() > 0, m1, "description"@, AnyView::Str(m.description));
    lemma_put(m2, "unit"@, Some(AnyView::Str(m.unit)));
    let m3 = and_if(m.unit.len() > 0, m2, "unit"@, AnyView::Str(m.unit));
    if let Some(d) = m.data {
        law_data_in_body(d);
        lemma_put(m3, d.body().0, Some(d.body().1));
    }
}

} // verus!
