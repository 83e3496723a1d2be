//! What becomes of the fields of an object that a log is made of: which of them go to places in the
//! record, under which names, and as what.
use vstd::prelude::*;
use vstd::utf8::{
    decode_utf8, encode_utf8, encode_utf8_decode_utf8, encode_utf8_valid_utf8, valid_utf8,
};

use crate::extract::{id_in, left_over, nanos_in, picked, unpicked};
use crate::hex::hex_decoded;
use crate::json_laws::law_decimal_is_read;
use crate::keyed::{ordered, value_of, without_entry};
use crate::log_value::{log_from_value, natives_of, with_time_routed};
use crate::map_laws::{law_read_after_remove, law_read_after_write};
use crate::metadata::MetadataView;
use crate::otlp::LogRecordView;
use crate::otlp_json::otlp_item;
use crate::text::{decimal, signed_decimal};
use crate::value::ValueView;

verus! {

proof fn lemma_place_names()
    ensures
        "body"@.len() == 4 && "body"@[0] == 'b',
        "host"@.len() == 4 && "host"@[0] == 'h',
        "flags"@.len() == 5,
        "spanId"@.len() == 6,
        "message"@.len() == 7 && "message"@[0] == 'm',
        "traceId"@.len() == 7 && "traceId"@[0] == 't',
        "span_id"@.len() == 7 && "span_id"@[0] == 's',
        "trace_id"@.len() == 8,
        "timestamp"@.len() == 9,
        "source_type"@.len() == 11,
        "timeUnixNano"@.len() == 12 && "timeUnixNano"@[0] == 't',
        "severityText"@.len() == 12 && "severityText"@[0] == 's',
        "severity_text"@.len() == 13,
        "time_unix_nano"@.len() == 14 && "time_unix_nano"@[0] == 't',
        "severityNumber"@.len() == 14 && "severityNumber"@[0] == 's',
        "severity_number"@.len() == 15,
        "observedTimeUnixNano"@.len() == 20,
        "observed_time_unix_nano"@.len() == 23,
        "dropped_attributes_count"@.len() == 24,
{
    reveal_strlit("body");
    reveal_strlit("host");
    reveal_strlit("flags");
    reveal_strlit("spanId");
    reveal_strlit("message");
    reveal_strlit("traceId");
    reveal_strlit("span_id");
    reveal_strlit("trace_id");
    reveal_strlit("timestamp");
    reveal_strlit("source_type");
    reveal_strlit("timeUnixNano");
    reveal_strlit("severityText");
    reveal_strlit("severity_text");
    reveal_strlit("time_unix_nano");
    reveal_strlit("severityNumber");
    reveal_strlit("severity_number");
    reveal_strlit("observedTimeUnixNano");
    reveal_strlit("observed_time_unix_nano");
    reveal_strlit("dropped_attributes_count");
}

/// A field under two names that is taken out of an object leaves the fields of other names.
proof fn lemma_left_over(
    m: Seq<(Seq<char>, ValueView)>,
    name: Seq<char>,
    alias: Seq<char>,
    fits: bool,
)
    requires
        ordered(m),
    ensures
        ordered(left_over(m, name, alias, fits)),
        forall|k: Seq<char>|
            k != name && k != alias ==> #[trigger] value_of(left_over(m, name, alias, fits), k)
                == value_of(m, k),
{
    law_read_after_remove(m, name);
    law_read_after_remove(m, alias);
    if let Some(v) = picked(m, name, alias) {
        law_read_after_write(unpicked(m, name, alias), name, v);
    }
}

/// What a record is made of: for each of its fields, what stands under its name, or else under its other
/// name.
pub open spec fn is_made_of(r: LogRecordView, m: Seq<(Seq<char>, ValueView)>) -> bool {
    &&& nanos_in(picked(m, "time_unix_nano"@, "timeUnixNano"@)) matches Some(n) ==> r.time_unix_nano
        == n
    &&& nanos_in(picked(m, "observed_time_unix_nano"@, "observedTimeUnixNano"@)) matches Some(n)
        ==> r.observed_time_unix_nano == n
    &&& picked(m, "severity_text"@, "severityText"@) matches Some(ValueView::Bytes(b)) ==> (valid_utf8(
        b,
    ) ==> r.severity_text == decode_utf8(b))
    &&& picked(m, "severity_number"@, "severityNumber"@) matches Some(ValueView::Integer(i))
        ==> (i32::MIN <= i <= i32::MAX ==> r.severity_number == i)
    &&& id_in(picked(m, "trace_id"@, "traceId"@)) matches Some(id) ==> r.trace_id == id
    &&& id_in(picked(m, "span_id"@, "spanId"@)) matches Some(id) ==> r.span_id == id
    &&& value_of(m, "flags"@) matches Some(ValueView::Integer(i)) ==> (0 <= i <= u32::MAX ==> r.flags
        == i)
    &&& value_of(m, "dropped_attributes_count"@) matches Some(ValueView::Integer(i)) ==> (0 <= i
        <= u32::MAX ==> r.dropped_attributes_count == i)
}

#[verifier::rlimit(60)]
proof fn lemma_natives(m: Seq<(Seq<char>, ValueView)>)
    requires
        ordered(m),
    ensures
        is_made_of(natives_of(m), m),
{
    lemma_place_names();
    let t = picked(m, "time_unix_nano"@, "timeUnixNano"@);
    lemma_left_over(m, "time_unix_nano"@, "timeUnixNano"@, nanos_in(t) is Some);
    let m1 = left_over(m, "time_unix_nano"@, "timeUnixNano"@, nanos_in(t) is Some);
    let o = picked(m1, "observed_time_unix_nano"@, "observedTimeUnixNano"@);
    lemma_left_over(m1, "observed_time_unix_nano"@, "observedTimeUnixNano"@, nanos_in(o) is Some);
    let m2 = left_over(
        m1,
        "observed_time_unix_nano"@,
        "observedTimeUnixNano"@,
        nanos_in(o) is Some,
    );
    let s = picked(m2, "severity_text"@, "severityText"@);
    lemma_left_over(m2, "severity_text"@, "severityText"@, s->0 is Bytes);
    let m3 = left_over(m2, "severity_text"@, "severityText"@, s->0 is Bytes);
    let n = picked(m3, "severity_number"@, "severityNumber"@);
    lemma_left_over(m3, "severity_number"@, "severityNumber"@, n->0 is Integer);
    let m4 = left_over(m3, "severity_number"@, "severityNumber"@, n->0 is Integer);
    let i = picked(m4, "trace_id"@, "traceId"@);
    lemma_left_over(m4, "trace_id"@, "traceId"@, id_in(i) is Some);
    let m5 = left_over(m4, "trace_id"@, "traceId"@, id_in(i) is Some);
    let p = picked(m5, "span_id"@, "spanId"@);
    lemma_left_over(m5, "span_id"@, "spanId"@, id_in(p) is Some);
    let m6 = left_over(m5, "span_id"@, "spanId"@, id_in(p) is Some);
    let f = picked(m6, "flags"@, "flags"@);
    lemma_left_over(m6, "flags"@, "flags"@, f->0 is Integer);
    assert(o == picked(m, "observed_time_unix_nano"@, "observedTimeUnixNano"@));
    assert(s == picked(m, "severity_text"@, "severityText"@));
    assert(n == picked(m, "severity_number"@, "severityNumber"@));
    assert(i == picked(m, "trace_id"@, "traceId"@));
    assert(p == picked(m, "span_id"@, "spanId"@));
    assert(f == value_of(m, "flags"@));
    let m7 = left_over(m6, "flags"@, "flags"@, f->0 is Integer);
    let d = picked(m7, "dropped_attributes_count"@, "dropped_attributes_count"@);
    assert(d == value_of(m, "dropped_attributes_count"@));
}

/// A log that is made of an object has in its record what stands in the object under the name of each field,
/// or under the name that the field has in the JSON encoding: times and numbers as integers, the severity
/// as text, identifiers as the bytes that their digits denote. The body is what stands under `body`, or else
/// under `message`. The object holds no instant under `timestamp`, which would be the time of the log.
pub proof fn law_log_is_made_of_fields(m: Seq<(Seq<char>, ValueView)>, metadata: MetadataView)
    requires
        ordered(m),
        !(value_of(m, "timestamp"@) matches Some(ValueView::Timestamp(_))),
    ensures
        ({
            let r = log_from_value(ValueView::Object(m), metadata).record;
            &&& is_made_of(r, m)
            &&& r.body == match picked(m, "body"@, "message"@) {
                Some(v) => Some(otlp_item(v)),
                None => None,
            }
        }),
{
    lemma_place_names();
    assert(with_time_routed(m) == m);
    law_read_after_remove(m, "source_type"@);
    let m1 = without_entry(m, "source_type"@);
    law_read_after_remove(m1, "host"@);
    let m2 = without_entry(m1, "host"@);
    assert(value_of(m2, "body"@) == value_of(m, "body"@));
    assert(value_of(m2, "message"@) == value_of(m, "message"@));
    law_read_after_remove(m2, "body"@);
    law_read_after_remove(m2, "message"@);
    let m3 = unpicked(m2, "body"@, "message"@);
    lemma_natives(m3);
    lemma_same_places(m, m1, m2, m3);
}

proof fn lemma_same_places(
    m: Seq<(Seq<char>, ValueView)>,
    m1: Seq<(Seq<char>, ValueView)>,
    m2: Seq<(Seq<char>, ValueView)>,
    m3: Seq<(Seq<char>, ValueView)>,
)
    requires
        forall|k: Seq<char>| k != "source_type"@ ==> #[trigger] value_of(m1, k) == value_of(m, k),
        forall|k: Seq<char>| k != "host"@ ==> #[trigger] value_of(m2, k) == value_of(m1, k),
        forall|k: Seq<char>|
            k != "body"@ && k != "message"@ ==> #[trigger] value_of(m3, k) == value_of(m2, k),
    ensures
        forall|r: LogRecordView| is_made_of(r, m3) ==> #[trigger] is_made_of(r, m),
{
    lemma_place_names();
    lemma_same_place(m, m1, m2, m3, "time_unix_nano"@);
    lemma_same_place(m, m1, m2, m3, "timeUnixNano"@);
    lemma_same_place(m, m1, m2, m3, "observed_time_unix_nano"@);
    lemma_same_place(m, m1, m2, m3, "observedTimeUnixNano"@);
    lemma_same_place(m, m1, m2, m3, "severity_text"@);
    lemma_same_place(m, m1, m2, m3, "severityText"@);
    lemma_same_place(m, m1, m2, m3, "severity_number"@);
    lemma_same_place(m, m1, m2, m3, "severityNumber"@);
    lemma_same_place(m, m1, m2, m3, "trace_id"@);
    lemma_same_place(m, m1, m2, m3, "traceId"@);
    lemma_same_place(m, m1, m2, m3, "span_id"@);
    lemma_same_place(m, m1, m2, m3, "spanId"@);
    lemma_same_place(m, m1, m2, m3, "flags"@);
    lemma_same_place(m, m1, m2, m3, "dropped_attributes_count"@);
}

proof fn lemma_same_place(
    m: Seq<(Seq<char>, ValueView)>,
    m1: Seq<(Seq<char>, ValueView)>,
    m2: Seq<(Seq<char>, ValueView)>,
    m3: Seq<(Seq<char>, ValueView)>,
    k: Seq<char>,
)
    requires
        forall|k: Seq<char>| k != "source_type"@ ==> #[trigger] value_of(m1, k) == value_of(m, k),
        forall|k: Seq<char>| k != "host"@ ==> #[trigger] value_of(m2, k) == value_of(m1, k),
        forall|k: Seq<char>|
            k != "body"@ && k != "message"@ ==> #[trigger] value_of(m3, k) == value_of(m2, k),
        k != "source_type"@ && k != "host"@ && k != "body"@ && k != "message"@,
    ensures
        value_of(m3, k) == value_of(m, k),
{
}

/// A number of nanoseconds is taken of an integer that is not negative, and of its digits as a text; an
/// identifier of its digits in hexadecimal notation.
pub proof fn law_numbers_are_taken(n: u64, i: i64, v: ValueView)
    ensures
        i >= 0 ==> nanos_in(Some(ValueView::Integer(i))) == Some(i as u64),
        nanos_in(Some(ValueView::Bytes(encode_utf8(decimal(n as nat))))) == Some(n),
        nanos_in(None) is None,
        v is Boolean || v is Object || v is Array || v is Float ==> nanos_in(Some(v)) is None,
        id_in(Some(v)) == hex_decoded(v),
{
    law_decimal_is_read(n, 0);
    encode_utf8_valid_utf8(decimal(n as nat));
    encode_utf8_decode_utf8(decimal(n as nat));
}

/// A value is shown as the text that it is, as the word for a truth value, and as an integer in decimal
/// notation.
pub proof fn law_value_is_shown(rendered: Seq<char>, s: Seq<char>, i: i64)
    ensures
        ValueView::Bytes(encode_utf8(s)).shown(rendered) == s,
        ValueView::Integer(i).shown(rendered) == signed_decimal(i as int),
        ValueView::Boolean(true).shown(rendered) == "true"@,
        ValueView::Boolean(false).shown(rendered) == "false"@,
        ValueView::Null.shown(rendered) == "<null>"@,
{
    encode_utf8_valid_utf8(s);
    encode_utf8_decode_utf8(s);
}

} // verus!
