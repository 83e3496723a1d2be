//! What holds of the JSON objects that events are written as: which fields an object has, and what
//! stands in each of them.
use vstd::prelude::*;

use crate::any_value::AnyView;
use crate::attributes::kvs_from_attrs;
use crate::canonical::{full_resource, full_scope};
use crate::double::double_of_int;
use crate::event::EventView;
use crate::hex::{char_codes, hex_bytes, hex_digit};
use crate::json::{JsonNumber, JsonView};
use crate::json_fields::{
    and_id, and_int, and_nanos, and_text, hex_text, json_counts, json_double, json_doubles,
    json_int,
};
use crate::listed_laws::{held, lemma_none, lemma_put, one_if};
use crate::log::OtelLogView;
use crate::metric::OtelMetricView;
use crate::otlp::{ResourceView, ScopeView};
use crate::otlp_metric::{
    BucketsView, DataView, ExponentialHistogramDataPointView, HistogramDataPointView,
    NumberDataPointView, NumberValue, SummaryDataPointView, ValueAtQuantileView,
};
use crate::otlp_output::{
    and_kvs, and_origin, and_sum, json_any, json_buckets, json_data, json_exponential_point,
    json_histogram_point, json_kv, json_kvs, json_number_point, json_point_start, json_quantile,
    json_resource, json_scope, json_span_event, json_span_link, json_status, json_summary_point,
    json_values, lemma_json_any_array, lemma_json_any_kvlist,
};
use crate::otlp_span::{SpanEventView, SpanLinkView, StatusView};
use crate::span::OtelSpanView;
use crate::text::{decimal, digits_value, is_digits, parsed_i64, parsed_u64, signed_decimal};

verus! {

/// The values that fields of a name hold in an object; none in what is no object.
pub open spec fn held_in(j: JsonView, name: Seq<char>) -> Seq<JsonView> {
    match j {
        JsonView::Object(m) => held(m, name),
        _ => Seq::empty(),
    }
}

/// The JSON text of a number of 64 bits.
pub open spec fn count_json(n: u64) -> JsonView {
    JsonView::String(decimal(n as nat))
}

/// The JSON number that an integer is.
pub open spec fn integer_json(i: int) -> JsonView {
    JsonView::Number(
        JsonNumber { integer: Some(i as i64), double: Some(double_of_int(i) as u64) },
    )
}

/// The JSON value that a double is: the number, or null where it is not finite.
pub open spec fn number_json(bits: u64) -> JsonView {
    if bits % 0x8000_0000_0000_0000 < 0x7ff0_0000_0000_0000 {
        JsonView::Number(JsonNumber { integer: None, double: Some(bits) })
    } else {
        JsonView::Null
    }
}

/// Whether a value is the list of some counts.
pub open spec fn lists_counts(j: JsonView, counts: Seq<u64>) -> bool {
    j matches JsonView::Array(a) && a.len() == counts.len() && forall|i: int|
        0 <= i < a.len() ==> #[trigger] a[i] == count_json(counts[i])
}

/// Whether a value is the list of some doubles.
pub open spec fn lists_doubles(j: JsonView, bits: Seq<u64>) -> bool {
    j matches JsonView::Array(a) && a.len() == bits.len() && forall|i: int|
        0 <= i < a.len() ==> #[trigger] a[i] == number_json(bits[i])
}

proof fn lemma_point_names()
    ensures
        "attributes"@.len() == 10,
        "timeUnixNano"@.len() == 12 && "timeUnixNano"@[0] == 't',
        "startTimeUnixNano"@.len() == 17,
        "asDouble"@.len() == 8 && "asDouble"@[0] == 'a',
        "asInt"@.len() == 5 && "asInt"@[0] == 'a',
        "count"@.len() == 5 && "count"@[0] == 'c',
        "sum"@.len() == 3,
        "bucketCounts"@.len() == 12 && "bucketCounts"@[0] == 'b',
        "explicitBounds"@.len() == 14 && "explicitBounds"@[0] == 'e',
        "quantileValues"@.len() == 14 && "quantileValues"@[0] == 'q',
        "quantile"@.len() == 8 && "quantile"@[0] == 'q',
        "value"@.len() == 5 && "value"@[0] == 'v',
        "offset"@.len() == 6,
        "scale"@.len() == 5 && "scale"@[0] == 's',
        "zeroCount"@.len() == 9,
        "positive"@.len() == 8 && "positive"@[0] == 'p',
        "negative"@.len() == 8 && "negative"@[0] == 'n',
{
    reveal_strlit("attributes");
    reveal_strlit("timeUnixNano");
    reveal_strlit("startTimeUnixNano");
    reveal_strlit("asDouble");
    reveal_strlit("asInt");
    reveal_strlit("count");
    reveal_strlit("sum");
    reveal_strlit("bucketCounts");
    reveal_strlit("explicitBounds");
    reveal_strlit("quantileValues");
    reveal_strlit("quantile");
    reveal_strlit("value");
    reveal_strlit("offset");
    reveal_strlit("scale");
    reveal_strlit("zeroCount");
    reveal_strlit("positive");
    reveal_strlit("negative");
}

proof fn lemma_metric_names()
    ensures
        "dataPoints"@.len() == 10,
        "aggregationTemporality"@.len() == 22,
        "isMonotonic"@.len() == 11 && "isMonotonic"@[0] == 'i',
        "sum"@.len() == 3,
        "gauge"@.len() == 5 && "gauge"@[0] == 'g',
        "histogram"@.len() == 9,
        "summary"@.len() == 7,
        "exponentialHistogram"@.len() == 20,
        "name"@.len() == 4 && "name"@[0] == 'n',
        "description"@.len() == 11 && "description"@[0] == 'd',
        "unit"@.len() == 4 && "unit"@[0] == 'u',
        "resource"@.len() == 8,
        "scope"@.len() == 5 && "scope"@[0] == 's',
{
    reveal_strlit("dataPoints");
    reveal_strlit("aggregationTemporality");
    reveal_strlit("isMonotonic");
    reveal_strlit("sum");
    reveal_strlit("gauge");
    reveal_strlit("histogram");
    reveal_strlit("summary");
    reveal_strlit("exponentialHistogram");
    reveal_strlit("name");
    reveal_strlit("description");
    reveal_strlit("unit");
    reveal_strlit("resource");
    reveal_strlit("scope");
}

proof fn lemma_log_names()
    ensures
        "body"@.len() == 4,
        "severityText"@.len() == 12 && "severityText"@[0] == 's',
        "severityNumber"@.len() == 14,
        "timeUnixNano"@.len() == 12 && "timeUnixNano"@[0] == 't',
        "observedTimeUnixNano"@.len() == 20,
        "traceId"@.len() == 7,
        "spanId"@.len() == 6,
        "flags"@.len() == 5 && "flags"@[0] == 'f',
        "attributes"@.len() == 10,
        "resource"@.len() == 8,
        "scope"@.len() == 5 && "scope"@[0] == 's',
{
    reveal_strlit("body");
    reveal_strlit("severityText");
    reveal_strlit("severityNumber");
    reveal_strlit("timeUnixNano");
    reveal_strlit("observedTimeUnixNano");
    reveal_strlit("traceId");
    reveal_strlit("spanId");
    reveal_strlit("flags");
    reveal_strlit("attributes");
    reveal_strlit("resource");
    reveal_strlit("scope");
}

proof fn lemma_span_names()
    ensures
        "name"@.len() == 4 && "name"@[1] == 'a',
        "traceId"@.len() == 7,
        "spanId"@.len() == 6 && "spanId"@[1] == 'p',
        "parentSpanId"@.len() == 12,
        "kind"@.len() == 4 && "kind"@[1] == 'i',
        "startTimeUnixNano"@.len() == 17,
        "endTimeUnixNano"@.len() == 15,
        "attributes"@.len() == 10,
        "status"@.len() == 6 && "status"@[1] == 't',
        "flags"@.len() == 5 && "flags"@[1] == 'l',
        "resource"@.len() == 8,
        "scope"@.len() == 5 && "scope"@[1] == 'c',
{
    reveal_strlit("name");
    reveal_strlit("traceId");
    reveal_strlit("spanId");
    reveal_strlit("parentSpanId");
    reveal_strlit("kind");
    reveal_strlit("startTimeUnixNano");
    reveal_strlit("endTimeUnixNano");
    reveal_strlit("attributes");
    reveal_strlit("status");
    reveal_strlit("flags");
    reveal_strlit("resource");
    reveal_strlit("scope");
}

proof fn lemma_part_names()
    ensures
        "code"@.len() == 4 && "code"@[0] == 'c',
        "message"@.len() == 7 && "message"@[0] == 'm',
        "timeUnixNano"@.len() == 12,
        "name"@.len() == 4 && "name"@[0] == 'n',
        "attributes"@.len() == 10 && "attributes"@[0] == 'a',
        "droppedAttributesCount"@.len() == 22,
        "traceId"@.len() == 7 && "traceId"@[0] == 't',
        "spanId"@.len() == 6,
        "traceState"@.len() == 10 && "traceState"@[0] == 't',
        "flags"@.len() == 5 && "flags"@[0] == 'f',
        "key"@.len() == 3,
        "value"@.len() == 5 && "value"@[0] == 'v',
        "version"@.len() == 7 && "version"@[0] == 'v',
        "resource"@.len() == 8,
        "scope"@.len() == 5 && "scope"@[0] == 's',
{
    reveal_strlit("code");
    reveal_strlit("message");
    reveal_strlit("timeUnixNano");
    reveal_strlit("name");
    reveal_strlit("attributes");
    reveal_strlit("droppedAttributesCount");
    reveal_strlit("traceId");
    reveal_strlit("spanId");
    reveal_strlit("traceState");
    reveal_strlit("flags");
    reveal_strlit("key");
    reveal_strlit("value");
    reveal_strlit("version");
    reveal_strlit("resource");
    reveal_strlit("scope");
}

proof fn lemma_double(bits: u64)
    ensures
        json_double(bits) == number_json(bits),
{
}

proof fn lemma_decimal(n: nat)
    ensures
        is_digits(decimal(n)),
        digits_value(decimal(n)) == n,
        decimal(n)[0] == '0' ==> n == 0,
    decreases n,
{
    let s = decimal(n);
    if n < 10 {
        assert(s.drop_last() =~= Seq::empty());
        reveal_with_fuel(digits_value, 2);
    } else {
        lemma_decimal(n / 10);
        let t = decimal(n / 10);
        let c = ('0' as int + n % 10) as char;
        assert(s =~= t.push(c));
        assert(s.drop_last() =~= t);
        assert forall|i: int| 0 <= i < s.len() implies '0' <= #[trigger] s[i] <= '9' by {
            if i < t.len() {
                assert(s[i] == t[i]);
            }
        }
        assert(s[0] == t[0]);
    }
}

/// The decimal notation of a number is made of digits, the first of which is zero only in that of zero,
/// and the number is read of it.
pub proof fn law_decimal_is_read(n: u64, i: i64)
    ensures
        is_digits(decimal(n as nat)),
        n > 0 ==> decimal(n as nat)[0] != '0',
        parsed_u64(decimal(n as nat)) == Some(n),
        parsed_i64(signed_decimal(i as int)) == Some(i),
{
    lemma_decimal(n as nat);
    let s = decimal(n as nat);
    assert('0' <= s[0] <= '9');
    if i < 0 {
        lemma_decimal((-i) as nat);
        assert(signed_decimal(i as int).drop_first() =~= decimal((-i) as nat));
    } else {
        lemma_decimal(i as nat);
        let t = decimal(i as nat);
        assert('0' <= t[0] <= '9');
    }
}

/// The hexadecimal notation of bytes has two digits for each byte, in lower case, and the bytes are read
/// of it.
pub proof fn law_hex_text_is_read(bytes: Seq<u8>)
    ensures
        hex_text(bytes).len() == 2 * bytes.len(),
        forall|i: int|
            0 <= i < hex_text(bytes).len() ==> {
                let c = #[trigger] hex_text(bytes)[i];
                '0' <= c <= '9' || 'a' <= c <= 'f'
            },
        hex_bytes(char_codes(hex_text(bytes))) == bytes,
    decreases bytes.len(),
{
    let s = hex_text(bytes);
    if bytes.len() > 0 {
        let before = bytes.drop_last();
        law_hex_text_is_read(before);
        let t = hex_text(before);
        let b = bytes.last();
        let n = before.len() as int;
        assert(s =~= t.push(hex_digit((b / 16) as int) as char).push(
            hex_digit((b % 16) as int) as char,
        ));
        assert forall|i: int| 0 <= i < s.len() implies {
            let c = #[trigger] s[i];
            '0' <= c <= '9' || 'a' <= c <= 'f'
        } by {
            if i < t.len() {
                assert(s[i] == t[i]);
            }
        }
        let codes = char_codes(s);
        let old = char_codes(t);
        assert forall|i: int| 0 <= i < bytes.len() implies hex_bytes(codes)[i] == bytes[i] by {
            if i < n {
                assert(codes[2 * i] == old[2 * i]);
                assert(codes[2 * i + 1] == old[2 * i + 1]);
                assert(hex_bytes(old)[i] == before[i]);
            } else {
                assert(codes[2 * i] == hex_digit((b / 16) as int) as int);
                assert(codes[2 * i + 1] == hex_digit((b % 16) as int) as int);
            }
        }
        assert(hex_bytes(codes) =~= bytes);
    } else {
        assert(hex_bytes(char_codes(s)) =~= bytes);
    }
}

/// Whether an object has the times and the number of a data point of a sum or a gauge.
pub open spec fn number_written(j: JsonView, p: NumberDataPointView) -> bool {
    &&& held_in(j, "timeUnixNano"@) == one_if(
        p.time_unix_nano != 0,
        count_json(p.time_unix_nano),
    )
    &&& held_in(j, "startTimeUnixNano"@) == one_if(
        p.start_time_unix_nano != 0,
        count_json(p.start_time_unix_nano),
    )
    &&& held_in(j, "asDouble"@) == match p.value {
        Some(NumberValue::AsDouble(d)) => seq![number_json(d)],
        _ => Seq::empty(),
    }
    &&& held_in(j, "asInt"@) == match p.value {
        Some(NumberValue::AsInt(i)) => seq![JsonView::String(signed_decimal(i as int))],
        _ => Seq::empty(),
    }
}

/// The object of a data point of a sum or a gauge has the attributes unless there are none, the time
/// and the start unless they are zero, as digits, and the number under the name of its type, an integer
/// as digits. It has nothing else.
pub proof fn law_number_point_in_json(p: NumberDataPointView)
    ensures
        ({
            let j = json_number_point(p);
            &&& held_in(j, "attributes"@) == one_if(p.attributes.len() > 0, json_kvs(p.attributes))
            &&& number_written(j, p)
            &&& j is Object
            &&& forall|name: Seq<char>| #[trigger]
                held_in(j, name).len() > 0 ==> name == "attributes"@ || name == "timeUnixNano"@ || name
                    == "startTimeUnixNano"@ || name == "asDouble"@ || name == "asInt"@
        }),
{
    lemma_point_names();
    lemma_none::<JsonView>();
    let none = Seq::<(Seq<char>, JsonView)>::empty();
    lemma_put(none, "attributes"@, json_kvs(p.attributes));
    let m1 = and_kvs(none, p.attributes);
    lemma_put(m1, "timeUnixNano"@, count_json(p.time_unix_nano));
    let m2 = and_nanos(m1, "timeUnixNano"@, p.time_unix_nano);
    lemma_put(m2, "startTimeUnixNano"@, count_json(p.start_time_unix_nano));
    let m3 = and_nanos(m2, "startTimeUnixNano"@, p.start_time_unix_nano);
    match p.value {
        Some(NumberValue::AsDouble(d)) => {
            lemma_double(d);
            lemma_put(m3, "asDouble"@, json_double(d));
        },
        Some(NumberValue::AsInt(i)) => {
            lemma_put(m3, "asInt"@, JsonView::String(signed_decimal(i as int)));
        },
        None => {},
    }
}

/// Whether an object has the time, the count, the sum and the buckets of a data point of a histogram.
pub open spec fn histogram_written(j: JsonView, p: HistogramDataPointView) -> bool {
    &&& held_in(j, "timeUnixNano"@) == one_if(
        p.time_unix_nano != 0,
        count_json(p.time_unix_nano),
    )
    &&& held_in(j, "count"@) == seq![count_json(p.count)]
    &&& held_in(j, "sum"@) == match p.sum {
        Some(d) => seq![number_json(d)],
        None => Seq::empty(),
    }
    &&& if p.bucket_counts.len() == 0 {
        held_in(j, "bucketCounts"@).len() == 0
    } else {
        held_in(j, "bucketCounts"@).len() == 1 && lists_counts(
            held_in(j, "bucketCounts"@)[0],
            p.bucket_counts,
        )
    }
    &&& if p.explicit_bounds.len() == 0 {
        held_in(j, "explicitBounds"@).len() == 0
    } else {
        held_in(j, "explicitBounds"@).len() == 1 && lists_doubles(
            held_in(j, "explicitBounds"@)[0],
            p.explicit_bounds,
        )
    }
}

/// The object of a data point of a histogram has the attributes unless there are none, the time unless
/// it is zero, the count as digits, the sum where there is one, and the counts and the bounds of the
/// buckets unless there are none. It has nothing else.
pub proof fn law_histogram_point_in_json(p: HistogramDataPointView)
    ensures
        ({
            let j = json_histogram_point(p);
            &&& held_in(j, "attributes"@) == one_if(p.attributes.len() > 0, json_kvs(p.attributes))
            &&& histogram_written(j, p)
            &&& j is Object
            &&& forall|name: Seq<char>| #[trigger]
                held_in(j, name).len() > 0 ==> name == "attributes"@ || name == "timeUnixNano"@ || name
                    == "count"@ || name == "sum"@ || name == "bucketCounts"@ || name
                    == "explicitBounds"@
        }),
{
    lemma_point_names();
    lemma_point_start(p.attributes, p.time_unix_nano, p.count);
    let m1 = json_point_start(p.attributes, p.time_unix_nano, p.count);
    if let Some(d) = p.sum {
        lemma_double(d);
        lemma_put(m1, "sum"@, json_double(d));
    }
    let m2 = and_sum(m1, p.sum);
    lemma_put(m2, "bucketCounts"@, json_counts(p.bucket_counts));
    let m3 = if p.bucket_counts.len() == 0 {
        m2
    } else {
        m2.push(("bucketCounts"@, json_counts(p.bucket_counts)))
    };
    lemma_doubles(p.explicit_bounds);
    lemma_put(m3, "explicitBounds"@, json_doubles(p.explicit_bounds));
}

proof fn lemma_doubles(bits: Seq<u64>)
    ensures
        lists_doubles(json_doubles(bits), bits),
{
    assert forall|i: int| 0 <= i < bits.len() implies #[trigger] json_doubles(bits)->Array_0[i]
        == number_json(bits[i]) by {
        lemma_double(bits[i]);
    }
}

proof fn lemma_point_start(attributes: Seq<(Seq<char>, Option<AnyView>)>, time: u64, count: u64)
    ensures
        ({
            let m = json_point_start(attributes, time, count);
            &&& held(m, "attributes"@) == one_if(attributes.len() > 0, json_kvs(attributes))
            &&& held(m, "timeUnixNano"@) == one_if(time != 0, count_json(time))
            &&& held(m, "count"@) == seq![count_json(count)]
            &&& forall|name: Seq<char>|
                name != "attributes"@ && name != "timeUnixNano"@ && name != "count"@
                    ==> #[trigger] held(m, name) == Seq::<JsonView>::empty()
        }),
{
    lemma_point_names();
    lemma_none::<JsonView>();
    let none = Seq::<(Seq<char>, JsonView)>::empty();
    lemma_put(none, "attributes"@, json_kvs(attributes));
    let m1 = and_kvs(none, attributes);
    lemma_put(m1, "timeUnixNano"@, count_json(time));
    let m2 = and_nanos(m1, "timeUnixNano"@, time);
    lemma_put(m2, "count"@, count_json(count));
}

/// Whether an object has the time, the count, the sum and the quantiles of a data point of a summary.
pub open spec fn summary_written(j: JsonView, p: SummaryDataPointView) -> bool {
    &&& held_in(j, "timeUnixNano"@) == one_if(
        p.time_unix_nano != 0,
        count_json(p.time_unix_nano),
    )
    &&& held_in(j, "count"@) == seq![count_json(p.count)]
    &&& held_in(j, "sum"@) == seq![number_json(p.sum)]
    &&& held_in(j, "quantileValues"@).len() == 1
    &&& held_in(j, "quantileValues"@)[0] matches JsonView::Array(a) && a.len()
        == p.quantile_values.len() && forall|i: int|
        0 <= i < a.len() ==> #[trigger] held_in(a[i], "quantile"@) == seq![
            number_json(p.quantile_values[i].quantile),
        ] && held_in(a[i], "value"@) == seq![number_json(p.quantile_values[i].value)]
}

/// The object of a data point of a summary has the attributes unless there are none, the time unless it
/// is zero, the count as digits, the sum, and for each quantile, in order, an object of the quantile and
/// the value at it. It has nothing else.
pub proof fn law_summary_point_in_json(p: SummaryDataPointView)
    ensures
        ({
            let j = json_summary_point(p);
            &&& held_in(j, "attributes"@) == one_if(p.attributes.len() > 0, json_kvs(p.attributes))
            &&& summary_written(j, p)
            &&& j is Object
            &&& forall|name: Seq<char>| #[trigger]
                held_in(j, name).len() > 0 ==> name == "attributes"@ || name == "timeUnixNano"@ || name
                    == "count"@ || name == "sum"@ || name == "quantileValues"@
        }),
{
    lemma_point_names();
    lemma_point_start(p.attributes, p.time_unix_nano, p.count);
    let m1 = json_point_start(p.attributes, p.time_unix_nano, p.count);
    lemma_double(p.sum);
    lemma_put(m1, "sum"@, json_double(p.sum));
    let m2 = m1.push(("sum"@, json_double(p.sum)));
    let a = Seq::new(p.quantile_values.len(), |i: int| json_quantile(p.quantile_values[i]));
    lemma_put(m2, "quantileValues"@, JsonView::Array(a));
    assert forall|i: int| 0 <= i < a.len() implies #[trigger] held_in(a[i], "quantile"@) == seq![
        number_json(p.quantile_values[i].quantile),
    ] && held_in(a[i], "value"@) == seq![number_json(p.quantile_values[i].value)] by {
        lemma_quantile(p.quantile_values[i]);
    }
    let found = held_in(json_summary_point(p), "quantileValues"@);
    assert(found == seq![JsonView::Array(a)]);
    assert(found[0] == JsonView::Array(a));
}

proof fn lemma_quantile(q: ValueAtQuantileView)
    ensures
        held_in(json_quantile(q), "quantile"@) == seq![number_json(q.quantile)],
        held_in(json_quantile(q), "value"@) == seq![number_json(q.value)],
{
    lemma_point_names();
    lemma_none::<JsonView>();
    lemma_double(q.quantile);
    lemma_double(q.value);
    let none = Seq::<(Seq<char>, JsonView)>::empty();
    lemma_put(none, "quantile"@, json_double(q.quantile));
    let m = none.push(("quantile"@, json_double(q.quantile)));
    lemma_put(m, "value"@, json_double(q.value));
    assert(json_quantile(q)->Object_0 =~= m.push(("value"@, json_double(q.value))));
}

/// Whether the fields of a name hold one object: that of some buckets.
pub open spec fn holds_buckets(found: Seq<JsonView>, b: Option<BucketsView>) -> bool {
    match b {
        Some(b) => found.len() == 1 && held_in(found[0], "offset"@) == seq![
            integer_json(b.offset as int),
        ] && held_in(found[0], "bucketCounts"@).len() == 1 && lists_counts(
            held_in(found[0], "bucketCounts"@)[0],
            b.bucket_counts,
        ),
        None => found.len() == 0,
    }
}

proof fn lemma_buckets(b: BucketsView)
    ensures
        holds_buckets(seq![json_buckets(b)], Some(b)),
{
    lemma_point_names();
    lemma_none::<JsonView>();
    let none = Seq::<(Seq<char>, JsonView)>::empty();
    lemma_put(none, "offset"@, json_int(b.offset as i64));
    let m = none.push(("offset"@, json_int(b.offset as i64)));
    lemma_put(m, "bucketCounts"@, json_counts(b.bucket_counts));
    assert(json_buckets(b)->Object_0 =~= m.push(("bucketCounts"@, json_counts(b.bucket_counts))));
}

/// Whether an object has the time, the counts, the sum, the scale and the buckets of a data point of a
/// histogram with exponential bounds.
pub open spec fn exponential_written(j: JsonView, p: ExponentialHistogramDataPointView) -> bool {
    &&& held_in(j, "timeUnixNano"@) == one_if(
        p.time_unix_nano != 0,
        count_json(p.time_unix_nano),
    )
    &&& held_in(j, "count"@) == seq![count_json(p.count)]
    &&& held_in(j, "sum"@) == match p.sum {
        Some(d) => seq![number_json(d)],
        None => Seq::empty(),
    }
    &&& held_in(j, "scale"@) == seq![integer_json(p.scale as int)]
    &&& held_in(j, "zeroCount"@) == seq![count_json(p.zero_count)]
    &&& holds_buckets(held_in(j, "positive"@), p.positive)
    &&& holds_buckets(held_in(j, "negative"@), p.negative)
}

/// The object of a data point of a histogram with exponential bounds has the attributes unless there
/// are none, the time unless it is zero, the count as digits, the sum where there is one, the scale, the
/// count of zeros as digits, and for each sign, where it has buckets, their offset and their counts.
/// It has nothing else.
#[verifier::rlimit(40)]
pub proof fn law_exponential_point_in_json(p: ExponentialHistogramDataPointView)
    ensures
        ({
            let j = json_exponential_point(p);
            &&& held_in(j, "attributes"@) == one_if(p.attributes.len() > 0, json_kvs(p.attributes))
            &&& exponential_written(j, p)
            &&& j is Object
            &&& forall|name: Seq<char>| #[trigger]
                held_in(j, name).len() > 0 ==> name == "attributes"@ || name == "timeUnixNano"@ || name
                    == "count"@ || name == "sum"@ || name == "scale"@ || name == "zeroCount"@ || name
                    == "positive"@ || name == "negative"@
        }),
{
    lemma_point_names();
    lemma_point_start(p.attributes, p.time_unix_nano, p.count);
    let m1 = json_point_start(p.attributes, p.time_unix_nano, p.count);
    if let Some(d) = p.sum {
        lemma_double(d);
        lemma_put(m1, "sum"@, json_double(d));
    }
    let m2 = and_sum(m1, p.sum);
    lemma_put(m2, "scale"@, json_int(p.scale as i64));
    let m3 = m2.push(("scale"@, json_int(p.scale as i64)));
    lemma_put(m3, "zeroCount"@, count_json(p.zero_count));
    let m4 = m3.push(("zeroCount"@, count_json(p.zero_count)));
    let m5 = match p.positive {
        Some(b) => {
            lemma_buckets(b);
            lemma_put(m4, "positive"@, json_buckets(b));
            m4.push(("positive"@, json_buckets(b)))
        },
        None => m4,
    };
    if let Some(b) = p.negative {
        lemma_buckets(b);
        lemma_put(m5, "negative"@, json_buckets(b));
    }
}

/// The name under which data of a type are written.
pub open spec fn written_name(d: DataView) -> Seq<char> {
    match d {
        DataView::Sum(_) => "sum"@,
        DataView::Gauge(_) => "gauge"@,
        DataView::Histogram(_) => "histogram"@,
        DataView::ExponentialHistogram(_) => "exponentialHistogram"@,
        DataView::Summary(_) => "summary"@,
    }
}

/// The object that the data of a metric are written as has a data point for each one there is, in order,
/// the aggregation temporality where the type of the data has one, and, of a sum, whether it is
/// monotonic. It has nothing else.
pub proof fn law_data_in_json(d: DataView)
    ensures
        json_data(d).0 == written_name(d),
        ({
            let j = json_data(d).1;
            &&& j is Object
            &&& held_in(j, "dataPoints"@).len() == 1
            &&& held_in(j, "dataPoints"@)[0] matches JsonView::Array(a) && match d {
                DataView::Sum(x) => a.len() == x.data_points.len() && forall|i: int|
                    0 <= i < a.len() ==> #[trigger] a[i] == json_number_point(x.data_points[i]),
                DataView::Gauge(x) => a.len() == x.data_points.len() && forall|i: int|
                    0 <= i < a.len() ==> #[trigger] a[i] == json_number_point(x.data_points[i]),
                DataView::Histogram(x) => a.len() == x.data_points.len() && forall|i: int|
                    0 <= i < a.len() ==> #[trigger] a[i] == json_histogram_point(x.data_points[i]),
                DataView::ExponentialHistogram(x) => a.len() == x.data_points.len() && forall|i: int|
                    0 <= i < a.len() ==> #[trigger] a[i] == json_exponential_point(x.data_points[i]),
                DataView::Summary(x) => a.len() == x.data_points.len() && forall|i: int|
                    0 <= i < a.len() ==> #[trigger] a[i] == json_summary_point(x.data_points[i]),
            }
            &&& held_in(j, "aggregationTemporality"@) == match d {
                DataView::Sum(x) => seq![integer_json(x.aggregation_temporality as int)],
                DataView::Histogram(x) => seq![integer_json(x.aggregation_temporality as int)],
                DataView::ExponentialHistogram(x) => seq![
                    integer_json(x.aggregation_temporality as int),
                ],
                _ => Seq::empty(),
            }
            &&& held_in(j, "isMonotonic"@) == match d {
                DataView::Sum(x) => seq![JsonView::Bool(x.is_monotonic)],
                _ => Seq::empty(),
            }
            &&& forall|name: Seq<char>| #[trigger]
                held_in(j, name).len() > 0 ==> name == "dataPoints"@ || name
                    == "aggregationTemporality"@ || name == "isMonotonic"@
        }),
{
    lemma_metric_names();
    lemma_none::<JsonView>();
    let none = Seq::<(Seq<char>, JsonView)>::empty();
    let fields = json_data(d).1->Object_0;
    let points = fields[0].1;
    lemma_put(none, "dataPoints"@, points);
    let m1 = none.push(("dataPoints"@, points));
    match d {
        DataView::Sum(x) => {
            let t = json_int(x.aggregation_temporality as i64);
            lemma_put(m1, "aggregationTemporality"@, t);
            let m2 = m1.push(("aggregationTemporality"@, t));
            lemma_put(m2, "isMonotonic"@, JsonView::Bool(x.is_monotonic));
            assert(fields =~= m2.push(("isMonotonic"@, JsonView::Bool(x.is_monotonic))));
        },
        DataView::Histogram(x) => {
            let t = json_int(x.aggregation_temporality as i64);
            lemma_put(m1, "aggregationTemporality"@, t);
            assert(fields =~= m1.push(("aggregationTemporality"@, t)));
        },
        DataView::ExponentialHistogram(x) => {
            let t = json_int(x.aggregation_temporality as i64);
            lemma_put(m1, "aggregationTemporality"@, t);
            assert(fields =~= m1.push(("aggregationTemporality"@, t)));
        },
        _ => {
            assert(fields =~= m1);
        },
    }
}

proof fn lemma_origin(
    m: Seq<(Seq<char>, JsonView)>,
    resource: Option<ResourceView>,
    scope: Option<ScopeView>,
)
    requires
        held(m, "resource"@).len() == 0,
        held(m, "scope"@).len() == 0,
    ensures
        ({
            let t = and_origin(m, resource, scope);
            &&& held(t, "resource"@) == match resource {
                Some(r) => seq![json_resource(r)],
                None => Seq::empty(),
            }
            &&& held(t, "scope"@) == match scope {
                Some(s) => seq![json_scope(s)],
                None => Seq::empty(),
            }
            &&& forall|name: Seq<char>|
                name != "resource"@ && name != "scope"@ ==> #[trigger] held(t, name) == held(m, name)
        }),
{
    lemma_part_names();
    assert(held(m, "resource"@) =~= Seq::empty());
    assert(held(m, "scope"@) =~= Seq::empty());
    let m1 = match resource {
        Some(r) => {
            lemma_put(m, "resource"@, json_resource(r));
            m.push(("resource"@, json_resource(r)))
        },
        None => m,
    };
    if let Some(s) = scope {
        lemma_put(m1, "scope"@, json_scope(s));
    }
}

/// The object of a resource has its attributes; that of a scope its name and its version, unless they
/// are empty. Neither has anything else.
pub proof fn law_origin_in_json(r: ResourceView, s: ScopeView)
    ensures
        held_in(json_resource(r), "attributes"@) == seq![json_kvs(r.attributes)],
        forall|name: Seq<char>| #[trigger]
            held_in(json_resource(r), name).len() > 0 ==> name == "attributes"@,
        held_in(json_scope(s), "name"@) == one_if(s.name.len() > 0, JsonView::String(s.name)),
        held_in(json_scope(s), "version"@) == one_if(
            s.version.len() > 0,
            JsonView::String(s.version),
        ),
        forall|name: Seq<char>| #[trigger]
            held_in(json_scope(s), name).len() > 0 ==> name == "name"@ || name == "version"@,
{
    lemma_part_names();
    lemma_none::<JsonView>();
    let none = Seq::<(Seq<char>, JsonView)>::empty();
    lemma_put(none, "attributes"@, json_kvs(r.attributes));
    lemma_put(none, "name"@, JsonView::String(s.name));
    lemma_put(and_text(none, "name"@, s.name), "version"@, JsonView::String(s.version));
}

/// The object of a metric has its name, its description and its unit unless they are empty, its data
/// under the name of their type, and its resource and its scope where they are there.
pub proof fn law_metric_in_json(m: OtelMetricView)
    ensures
        ({
            let j = JsonView::Object(m.json_fields());
            &&& held_in(j, "name"@) == seq![JsonView::String(m.metric.name)]
            &&& held_in(j, "description"@) == one_if(
                m.metric.description.len() > 0,
                JsonView::String(m.metric.description),
            )
            &&& held_in(j, "unit"@) == one_if(
                m.metric.unit.len() > 0,
                JsonView::String(m.metric.unit),
            )
            &&& m.metric.with_point_attributes(m.dp_attrs).data matches Some(d) ==> held_in(
                j,
                written_name(d),
            ) == seq![json_data(d).1]
            &&& held_in(j, "resource"@) == match full_resource(m.resource, m.resource_attrs) {
                Some(r) => seq![json_resource(r)],
                None => Seq::empty(),
            }
            &&& held_in(j, "scope"@) == match full_scope(m.scope, m.scope_attrs) {
                Some(s) => seq![json_scope(s)],
                None => Seq::empty(),
            }
            &&& forall|name: Seq<char>| #[trigger]
                held_in(j, name).len() > 0 ==> name == "name"@ || name == "description"@ || name
                    == "unit"@ || name == "resource"@ || name == "scope"@ || (
                m.metric.with_point_attributes(m.dp_attrs).data matches Some(d) && name
                    == written_name(d))
        }),
{
    lemma_metric_names();
    lemma_none::<JsonView>();
    let none = Seq::<(Seq<char>, JsonView)>::empty();
    lemma_put(none, "name"@, JsonView::String(m.metric.name));
    let m1 = none.push(("name"@, JsonView::String(m.metric.name)));
    lemma_put(m1, "description"@, JsonView::String(m.metric.description));
    let m2 = and_text(m1, "description"@, m.metric.description);
    lemma_put(m2, "unit"@, JsonView::String(m.metric.unit));
    let m3 = and_text(m2, "unit"@, m.metric.unit);
    let m4 = match m.metric.with_point_attributes(m.dp_attrs).data {
        Some(d) => {
            law_data_in_json(d);
            lemma_put(m3, written_name(d), json_data(d).1);
            assert(json_data(d) == (written_name(d), json_data(d).1));
            m3.push(json_data(d))
        },
        None => m3,
    };
    lemma_origin(
        m4,
        full_resource(m.resource, m.resource_attrs),
        full_scope(m.scope, m.scope_attrs),
    );
}

/// In the JSON object of a metric, the data points under the name of the type of the data are those of
/// the metric, in order, each with its own times, numbers and buckets, and with its own attributes.
pub proof fn law_points_in_json(m: OtelMetricView, d: DataView, i: int)
    requires
        m.metric.data == Some(d),
        i >= 0,
    ensures
        ({
            let data = held_in(JsonView::Object(m.json_fields()), written_name(d));
            &&& data.len() == 1
            &&& held_in(data[0], "dataPoints"@).len() == 1
            &&& held_in(data[0], "dataPoints"@)[0] matches JsonView::Array(a) && {
                &&& match d {
                    DataView::Sum(x) => a.len() == x.data_points.len() && (i < a.len()
                        ==> number_written(a[i], x.data_points[i])),
                    DataView::Gauge(x) => a.len() == x.data_points.len() && (i < a.len()
                        ==> number_written(a[i], x.data_points[i])),
                    DataView::Histogram(x) => a.len() == x.data_points.len() && (i < a.len()
                        ==> histogram_written(a[i], x.data_points[i])),
                    DataView::ExponentialHistogram(x) => a.len() == x.data_points.len() && (i
                        < a.len() ==> exponential_written(a[i], x.data_points[i])),
                    DataView::Summary(x) => a.len() == x.data_points.len() && (i < a.len()
                        ==> summary_written(a[i], x.data_points[i])),
                }
                &&& i < a.len() && i < m.dp_attrs.len() ==> held_in(a[i], "attributes"@) == one_if(
                    m.dp_attrs[i].len() > 0,
                    json_kvs(kvs_from_attrs(m.dp_attrs[i])),
                )
            }
        }),
{
    law_metric_in_json(m);
    let full = m.metric.with_point_attributes(m.dp_attrs).data->0;
    assert(m.metric.with_point_attributes(m.dp_attrs).data == Some(full));
    law_data_in_json(full);
    match full {
        DataView::Sum(x) => {
            law_number_point_in_json(x.data_points[i]);
        },
        DataView::Gauge(x) => {
            law_number_point_in_json(x.data_points[i]);
        },
        DataView::Histogram(x) => {
            law_histogram_point_in_json(x.data_points[i]);
        },
        DataView::ExponentialHistogram(x) => {
            law_exponential_point_in_json(x.data_points[i]);
        },
        DataView::Summary(x) => {
            law_summary_point_in_json(x.data_points[i]);
        },
    }
}

/// The object of a log event has the body where there is one, the severity, the times and the flags
/// unless they are empty or zero, the identifiers in hexadecimal notation unless they are empty, the
/// attributes unless there are none, and the resource and the scope where they are there. It has
/// nothing else.
#[verifier::rlimit(60)]
pub proof fn law_log_in_json(e: OtelLogView)
    ensures
        ({
            let j = JsonView::Object(e.json_fields());
            let r = e.record;
            &&& held_in(j, "body"@) == match r.body {
                Some(b) => seq![json_any(b)],
                None => Seq::empty(),
            }
            &&& held_in(j, "severityText"@) == one_if(
                r.severity_text.len() > 0,
                JsonView::String(r.severity_text),
            )
            &&& held_in(j, "severityNumber"@) == one_if(
                r.severity_number != 0,
                integer_json(r.severity_number as int),
            )
            &&& held_in(j, "timeUnixNano"@) == one_if(
                r.time_unix_nano != 0,
                count_json(r.time_unix_nano),
            )
            &&& held_in(j, "observedTimeUnixNano"@) == one_if(
                r.observed_time_unix_nano != 0,
                count_json(r.observed_time_unix_nano),
            )
            &&& held_in(j, "traceId"@) == one_if(
                r.trace_id.len() > 0,
                JsonView::String(hex_text(r.trace_id)),
            )
            &&& held_in(j, "spanId"@) == one_if(
                r.span_id.len() > 0,
                JsonView::String(hex_text(r.span_id)),
            )
            &&& held_in(j, "flags"@) == one_if(r.flags != 0, integer_json(r.flags as int))
            &&& held_in(j, "attributes"@) == one_if(
                e.record_attrs.len() > 0,
                json_kvs(kvs_from_attrs(e.record_attrs)),
            )
            &&& held_in(j, "resource"@) == match full_resource(e.resource, e.resource_attrs) {
                Some(r) => seq![json_resource(r)],
                None => Seq::empty(),
            }
            &&& held_in(j, "scope"@) == match full_scope(e.scope, e.scope_attrs) {
                Some(s) => seq![json_scope(s)],
                None => Seq::empty(),
            }
            &&& forall|name: Seq<char>| #[trigger]
                held_in(j, name).len() > 0 ==> name == "body"@ || name == "severityText"@ || name
                    == "severityNumber"@ || name == "timeUnixNano"@ || name
                    == "observedTimeUnixNano"@ || name == "traceId"@ || name == "spanId"@ || name
                    == "flags"@ || name == "attributes"@ || name == "resource"@ || name == "scope"@
        }),
{
    lemma_log_names();
    lemma_none::<JsonView>();
    let r = e.record;
    let none = Seq::<(Seq<char>, JsonView)>::empty();
    let m1 = match r.body {
        Some(body) => {
            lemma_put(none, "body"@, json_any(body));
            none.push(("body"@, json_any(body)))
        },
        None => none,
    };
    lemma_put(m1, "severityText"@, JsonView::String(r.severity_text));
    let m2 = and_text(m1, "severityText"@, r.severity_text);
    lemma_put(m2, "severityNumber"@, json_int(r.severity_number as i64));
    let m3 = and_int(m2, "severityNumber"@, r.severity_number as i64);
    lemma_put(m3, "timeUnixNano"@, count_json(r.time_unix_nano));
    let m4 = and_nanos(m3, "timeUnixNano"@, r.time_unix_nano);
    lemma_put(m4, "observedTimeUnixNano"@, count_json(r.observed_time_unix_nano));
    let m5 = and_nanos(m4, "observedTimeUnixNano"@, r.observed_time_unix_nano);
    lemma_put(m5, "traceId"@, JsonView::String(hex_text(r.trace_id)));
    let m6 = and_id(m5, "traceId"@, r.trace_id);
    lemma_put(m6, "spanId"@, JsonView::String(hex_text(r.span_id)));
    let m7 = and_id(m6, "spanId"@, r.span_id);
    lemma_put(m7, "flags"@, json_int(r.flags as i64));
    let m8 = and_int(m7, "flags"@, r.flags as i64);
    let kvs = kvs_from_attrs(e.record_attrs);
    lemma_put(m8, "attributes"@, json_kvs(kvs));
    let m9 = and_kvs(m8, kvs);
    lemma_origin(
        m9,
        full_resource(e.resource, e.resource_attrs),
        full_scope(e.scope, e.scope_attrs),
    );
}

/// The object of a span has the name, the kind, the times and the flags unless they are empty or zero,
/// the identifiers in hexadecimal notation unless they are empty, the attributes unless there are none,
/// and the status, the resource and the scope where they are there. It has nothing else.
#[verifier::rlimit(60)]
pub proof fn law_span_in_json(e: OtelSpanView)
    ensures
        ({
            let j = JsonView::Object(e.json_fields());
            let s = e.span;
            &&& held_in(j, "name"@) == one_if(s.name.len() > 0, JsonView::String(s.name))
            &&& held_in(j, "traceId"@) == one_if(
                s.trace_id.len() > 0,
                JsonView::String(hex_text(s.trace_id)),
            )
            &&& held_in(j, "spanId"@) == one_if(
                s.span_id.len() > 0,
                JsonView::String(hex_text(s.span_id)),
            )
            &&& held_in(j, "parentSpanId"@) == one_if(
                s.parent_span_id.len() > 0,
                JsonView::String(hex_text(s.parent_span_id)),
            )
            &&& held_in(j, "kind"@) == one_if(s.kind != 0, integer_json(s.kind as int))
            &&& held_in(j, "startTimeUnixNano"@) == one_if(
                s.start_time_unix_nano != 0,
                count_json(s.start_time_unix_nano),
            )
            &&& held_in(j, "endTimeUnixNano"@) == one_if(
                s.end_time_unix_nano != 0,
                count_json(s.end_time_unix_nano),
            )
            &&& held_in(j, "attributes"@) == one_if(
                e.span_attrs.len() > 0,
                json_kvs(kvs_from_attrs(e.span_attrs)),
            )
            &&& held_in(j, "status"@) == match s.status {
                Some(status) => seq![json_status(status)],
                None => Seq::empty(),
            }
            &&& held_in(j, "flags"@) == one_if(s.flags != 0, integer_json(s.flags as int))
            &&& held_in(j, "resource"@) == match full_resource(e.resource, e.resource_attrs) {
                Some(r) => seq![json_resource(r)],
                None => Seq::empty(),
            }
            &&& held_in(j, "scope"@) == match full_scope(e.scope, e.scope_attrs) {
                Some(s) => seq![json_scope(s)],
                None => Seq::empty(),
            }
            &&& forall|name: Seq<char>| #[trigger]
                held_in(j, name).len() > 0 ==> name == "name"@ || name == "traceId"@ || name
                    == "spanId"@ || name == "parentSpanId"@ || name == "kind"@ || name
                    == "startTimeUnixNano"@ || name == "endTimeUnixNano"@ || name == "attributes"@
                    || name == "status"@ || name == "flags"@ || name == "resource"@ || name
                    == "scope"@
        }),
{
    lemma_span_names();
    lemma_none::<JsonView>();
    let s = e.span;
    let none = Seq::<(Seq<char>, JsonView)>::empty();
    lemma_put(none, "name"@, JsonView::String(s.name));
    let m1 = and_text(none, "name"@, s.name);
    lemma_put(m1, "traceId"@, JsonView::String(hex_text(s.trace_id)));
    let m2 = and_id(m1, "traceId"@, s.trace_id);
    lemma_put(m2, "spanId"@, JsonView::String(hex_text(s.span_id)));
    let m3 = and_id(m2, "spanId"@, s.span_id);
    lemma_put(m3, "parentSpanId"@, JsonView::String(hex_text(s.parent_span_id)));
    let m4 = and_id(m3, "parentSpanId"@, s.parent_span_id);
    lemma_put(m4, "kind"@, json_int(s.kind as i64));
    let m5 = and_int(m4, "kind"@, s.kind as i64);
    lemma_put(m5, "startTimeUnixNano"@, count_json(s.start_time_unix_nano));
    let m6 = and_nanos(m5, "startTimeUnixNano"@, s.start_time_unix_nano);
    lemma_put(m6, "endTimeUnixNano"@, count_json(s.end_time_unix_nano));
    let m7 = and_nanos(m6, "endTimeUnixNano"@, s.end_time_unix_nano);
    let kvs = kvs_from_attrs(e.span_attrs);
    lemma_put(m7, "attributes"@, json_kvs(kvs));
    let m8 = and_kvs(m7, kvs);
    let m9 = match s.status {
        Some(status) => {
            lemma_put(m8, "status"@, json_status(status));
            m8.push(("status"@, json_status(status)))
        },
        None => m8,
    };
    lemma_put(m9, "flags"@, json_int(s.flags as i64));
    let m10 = and_int(m9, "flags"@, s.flags as i64);
    lemma_origin(
        m10,
        full_resource(e.resource, e.resource_attrs),
        full_scope(e.scope, e.scope_attrs),
    );
}

/// The object of a status has the code and the message.
pub proof fn law_status_in_json(s: StatusView)
    ensures
        held_in(json_status(s), "code"@) == seq![integer_json(s.code as int)],
        held_in(json_status(s), "message"@) == seq![JsonView::String(s.message)],
{
    lemma_part_names();
    lemma_none::<JsonView>();
    let none = Seq::<(Seq<char>, JsonView)>::empty();
    lemma_put(none, "code"@, json_int(s.code as i64));
    let m = none.push(("code"@, json_int(s.code as i64)));
    lemma_put(m, "message"@, JsonView::String(s.message));
    assert(json_status(s)->Object_0 =~= m.push(("message"@, JsonView::String(s.message))));
}

/// The object of an event of a span has the time, the name, the attributes and how many were dropped,
/// unless they are zero or empty. It has nothing else.
pub proof fn law_span_event_in_json(e: SpanEventView)
    ensures
        ({
            let j = json_span_event(e);
            &&& held_in(j, "timeUnixNano"@) == one_if(
                e.time_unix_nano != 0,
                count_json(e.time_unix_nano),
            )
            &&& held_in(j, "name"@) == one_if(e.name.len() > 0, JsonView::String(e.name))
            &&& held_in(j, "attributes"@) == one_if(e.attributes.len() > 0, json_kvs(e.attributes))
            &&& held_in(j, "droppedAttributesCount"@) == one_if(
                e.dropped_attributes_count != 0,
                integer_json(e.dropped_attributes_count as int),
            )
            &&& forall|name: Seq<char>| #[trigger]
                held_in(j, name).len() > 0 ==> name == "timeUnixNano"@ || name == "name"@ || name
                    == "attributes"@ || name == "droppedAttributesCount"@
        }),
{
    lemma_part_names();
    lemma_none::<JsonView>();
    let none = Seq::<(Seq<char>, JsonView)>::empty();
    lemma_put(none, "timeUnixNano"@, count_json(e.time_unix_nano));
    let m1 = and_nanos(none, "timeUnixNano"@, e.time_unix_nano);
    lemma_put(m1, "name"@, JsonView::String(e.name));
    let m2 = and_text(m1, "name"@, e.name);
    lemma_put(m2, "attributes"@, json_kvs(e.attributes));
    let m3 = and_kvs(m2, e.attributes);
    lemma_put(m3, "droppedAttributesCount"@, json_int(e.dropped_attributes_count as i64));
}

/// The object of a link of a span has the identifiers in hexadecimal notation, the state, the
/// attributes, how many were dropped and the flags, unless they are zero or empty. It has nothing else.
pub proof fn law_span_link_in_json(l: SpanLinkView)
    ensures
        ({
            let j = json_span_link(l);
            &&& held_in(j, "traceId"@) == one_if(
                l.trace_id.len() > 0,
                JsonView::String(hex_text(l.trace_id)),
            )
            &&& held_in(j, "spanId"@) == one_if(
                l.span_id.len() > 0,
                JsonView::String(hex_text(l.span_id)),
            )
            &&& held_in(j, "traceState"@) == one_if(
                l.trace_state.len() > 0,
                JsonView::String(l.trace_state),
            )
            &&& held_in(j, "attributes"@) == one_if(l.attributes.len() > 0, json_kvs(l.attributes))
            &&& held_in(j, "droppedAttributesCount"@) == one_if(
                l.dropped_attributes_count != 0,
                integer_json(l.dropped_attributes_count as int),
            )
            &&& held_in(j, "flags"@) == one_if(l.flags != 0, integer_json(l.flags as int))
            &&& forall|name: Seq<char>| #[trigger]
                held_in(j, name).len() > 0 ==> name == "traceId"@ || name == "spanId"@ || name
                    == "traceState"@ || name == "attributes"@ || name == "droppedAttributesCount"@
                    || name == "flags"@
        }),
{
    lemma_part_names();
    lemma_none::<JsonView>();
    let none = Seq::<(Seq<char>, JsonView)>::empty();
    lemma_put(none, "traceId"@, JsonView::String(hex_text(l.trace_id)));
    let m1 = and_id(none, "traceId"@, l.trace_id);
    lemma_put(m1, "spanId"@, JsonView::String(hex_text(l.span_id)));
    let m2 = and_id(m1, "spanId"@, l.span_id);
    lemma_put(m2, "traceState"@, JsonView::String(l.trace_state));
    let m3 = and_text(m2, "traceState"@, l.trace_state);
    lemma_put(m3, "attributes"@, json_kvs(l.attributes));
    let m4 = and_kvs(m3, l.attributes);
    lemma_put(m4, "droppedAttributesCount"@, json_int(l.dropped_attributes_count as i64));
    let m5 = and_int(m4, "droppedAttributesCount"@, l.dropped_attributes_count as i64);
    lemma_put(m5, "flags"@, json_int(l.flags as i64));
}

/// Attributes are written as an array with an object for each of them, in order: its name, and its
/// value where it has one.
pub proof fn law_attributes_in_json(kvs: Seq<(Seq<char>, Option<AnyView>)>, i: int)
    requires
        0 <= i < kvs.len(),
    ensures
        json_kvs(kvs) matches JsonView::Array(a) && a.len() == kvs.len() && held_in(a[i], "key"@)
            == seq![JsonView::String(kvs[i].0)] && held_in(a[i], "value"@) == match kvs[i].1 {
            Some(v) => seq![json_any(v)],
            None => Seq::empty(),
        },
{
    lemma_pair(kvs[i]);
}

proof fn lemma_pair(kv: (Seq<char>, Option<AnyView>))
    ensures
        held_in(json_kv(kv), "key"@) == seq![JsonView::String(kv.0)],
        held_in(json_kv(kv), "value"@) == match kv.1 {
            Some(v) => seq![json_any(v)],
            None => Seq::empty(),
        },
{
    lemma_part_names();
    lemma_none::<JsonView>();
    let none = Seq::<(Seq<char>, JsonView)>::empty();
    lemma_put(none, "key"@, JsonView::String(kv.0));
    let m = none.push(("key"@, JsonView::String(kv.0)));
    match kv.1 {
        Some(v) => {
            lemma_put(m, "value"@, json_any(v));
            assert(json_kv(kv)->Object_0 =~= m.push(("value"@, json_any(v))));
        },
        None => {
            assert(json_kv(kv)->Object_0 =~= m);
        },
    }
}

/// Whether an object has one field, of a name and with a content.
pub open spec fn is_only_field(j: JsonView, name: Seq<char>, v: JsonView) -> bool {
    j matches JsonView::Object(m) && m.len() == 1 && m[0].0 == name && m[0].1 == v
}

/// An attribute value is written as an object with one field, under the name of its type: an integer
/// as digits, bytes in hexadecimal notation, a double as a number or null, a list and named values as an
/// object with one field that holds them in order. An empty value is written as an empty object.
pub proof fn law_attribute_value_in_json(a: AnyView)
    ensures
        a is Empty ==> json_any(a) == JsonView::Object(Seq::empty()),
        a matches AnyView::Str(s) ==> is_only_field(
            json_any(a),
            "stringValue"@,
            JsonView::String(s),
        ),
        a matches AnyView::Bool(b) ==> is_only_field(json_any(a), "boolValue"@, JsonView::Bool(b)),
        a matches AnyView::Int(i) ==> is_only_field(
            json_any(a),
            "intValue"@,
            JsonView::String(signed_decimal(i as int)),
        ),
        a matches AnyView::Double(d) ==> is_only_field(json_any(a), "doubleValue"@, number_json(d)),
        a matches AnyView::Bytes(b) ==> is_only_field(
            json_any(a),
            "bytesValue"@,
            JsonView::String(hex_text(b)),
        ),
        a matches AnyView::Array(items) ==> exists|list: JsonView, written: Seq<JsonView>|
            {
                &&& #[trigger] is_only_field(json_any(a), "arrayValue"@, list)
                &&& #[trigger] is_only_field(list, "values"@, JsonView::Array(written))
                &&& written.len() == items.len()
                &&& forall|i: int| 0 <= i < items.len() ==> #[trigger] written[i] == json_any(items[i])
            },
        a matches AnyView::Kvlist(kvs) ==> exists|list: JsonView, written: Seq<JsonView>|
            {
                &&& #[trigger] is_only_field(json_any(a), "kvlistValue"@, list)
                &&& #[trigger] is_only_field(list, "values"@, JsonView::Array(written))
                &&& JsonView::Array(written) == json_kvs(kvs)
            },
{
    match a {
        AnyView::Double(d) => {
            lemma_double(d);
        },
        AnyView::Array(items) => {
            lemma_json_any_array(items);
            let written = Seq::new(items.len(), |i: int| json_any(items[i]));
            let list = json_values(written);
            assert(is_only_field(json_any(a), "arrayValue"@, list));
            assert(is_only_field(list, "values"@, JsonView::Array(written)));
        },
        AnyView::Kvlist(kvs) => {
            lemma_json_any_kvlist(kvs);
            let written = Seq::new(kvs.len(), |i: int| json_kv(kvs[i]));
            let list = json_values(written);
            assert(is_only_field(json_any(a), "kvlistValue"@, list));
            assert(is_only_field(list, "values"@, JsonView::Array(written)));
            assert(json_kvs(kvs)->Array_0 =~= written);
        },
        _ => {},
    }
}

/// An event is written as an object with one field, under the name of its type, which holds the object
/// that the event itself is.
pub proof fn law_event_in_json(e: EventView)
    ensures
        e matches EventView::Log(log) ==> is_only_field(
            e.json(),
            "log"@,
            JsonView::Object(log.json_fields()),
        ),
        e matches EventView::Metric(metric) ==> is_only_field(
            e.json(),
            "metric"@,
            JsonView::Object(metric.json_fields()),
        ),
        e matches EventView::Trace(span) ==> is_only_field(
            e.json(),
            "trace"@,
            JsonView::Object(span.json_fields()),
        ),
{
}

} // verus!
