//! What holds of log events: the object that an event is read as gives the event back.
use vstd::prelude::*;
use vstd::utf8::{encode_utf8_decode_utf8, encode_utf8_valid_utf8};

use crate::any_value::{value_from_any, AnyView};
use crate::attributes::object_from_attrs;
use crate::canonical::{
    int_or_zero, resource_fields, scope_fields, text_or_empty, with_object, with_text,
    without_object,
};
use crate::canonical_laws::{
    all_kept, law_resource_round_trip, law_scope_round_trip, lemma_attrs_back, lemma_without_object,
    names_no_attributes, resource_is_kept, scope_is_kept,
};
use crate::extract::{id_in, left_over, nanos_in, or_none, or_zero, picked, unpicked};
use crate::hex::{hex_decoded, hex_digits, law_hex_round_trip};
use crate::keyed::{ordered, value_of, with_entry};
use crate::log::OtelLogView;
use crate::log_value::{
    beside_natives, beside_record, event_attrs_of, log_written_back, natives_of, record_fields,
    record_of, with_attrs, with_count, with_id,
};
use crate::map_laws::{law_read_after_remove, law_read_after_write, law_same_entries};
use crate::otlp::LogRecordView;
use crate::otlp_json::otlp_any;
use crate::place_laws::{
    is_taken, leaves_place, lemma_next_taken, lemma_with_attrs, lemma_with_count, lemma_with_id,
    lemma_with_object, lemma_with_text,
};
use crate::time::{law_wrap_round_trip, wrap_i32, wrap_i64, wrap_u32, wrap_u64};
use crate::value::ValueView;
use crate::value_laws::{is_kept, law_attribute_value_round_trip};

verus! {

/// Whether a value gives a number of nanoseconds.
pub open spec fn gives_nanos() -> spec_fn(ValueView) -> bool {
    |v: ValueView| nanos_in(Some(v)) is Some
}

/// Whether a value is a text.
pub open spec fn gives_text() -> spec_fn(ValueView) -> bool {
    |v: ValueView| v is Bytes
}

/// Whether a value is an integer.
pub open spec fn gives_integer() -> spec_fn(ValueView) -> bool {
    |v: ValueView| v is Integer
}

/// Whether a value gives an identifier.
pub open spec fn gives_id() -> spec_fn(ValueView) -> bool {
    |v: ValueView| hex_decoded(v) is Some
}

/// Whether a body can be told from the value that it is read as: that value must not have the form
/// of a typed value either.
pub open spec fn body_is_kept(body: Option<AnyView>) -> bool {
    body matches Some(b) ==> is_kept(b) && otlp_any(value_from_any(b)) is None
}

/// Whether the attributes of a record leave each field of the record but its body its place.
pub open spec fn natives_are_kept(r: LogRecordView, m: Seq<(Seq<char>, ValueView)>) -> bool {
    &&& leaves_place(
        m,
        "time_unix_nano"@,
        "timeUnixNano"@,
        r.time_unix_nano != 0,
        gives_nanos(),
    )
    &&& leaves_place(
        m,
        "observed_time_unix_nano"@,
        "observedTimeUnixNano"@,
        r.observed_time_unix_nano != 0,
        gives_nanos(),
    )
    &&& leaves_place(
        m,
        "severity_text"@,
        "severityText"@,
        r.severity_text.len() > 0,
        gives_text(),
    )
    &&& leaves_place(
        m,
        "severity_number"@,
        "severityNumber"@,
        r.severity_number != 0,
        gives_integer(),
    )
    &&& leaves_place(m, "trace_id"@, "traceId"@, r.trace_id.len() > 0, gives_id())
    &&& leaves_place(m, "span_id"@, "spanId"@, r.span_id.len() > 0, gives_id())
    &&& leaves_place(m, "flags"@, "flags"@, r.flags != 0, gives_integer())
    &&& leaves_place(
        m,
        "dropped_attributes_count"@,
        "dropped_attributes_count"@,
        r.dropped_attributes_count != 0,
        gives_integer(),
    )
}

/// Whether the attributes of a record leave each field of the record its place.
pub open spec fn record_is_kept(r: LogRecordView, m: Seq<(Seq<char>, ValueView)>) -> bool {
    &&& body_is_kept(r.body)
    &&& value_of(m, "body"@) is None
    &&& r.body is None ==> value_of(m, "message"@) is None
    &&& natives_are_kept(r, m)
}

/// Whether attributes leave the field `key` its place: it is an object, so that an attribute of that
/// name can be there only where the field is not set, and must not be an object.
pub open spec fn leaves_object(m: Seq<(Seq<char>, ValueView)>, key: Seq<char>, set: bool) -> bool {
    value_of(m, key) matches Some(v) ==> !set && v !is Object
}

impl OtelLogView {
    /// Whether the event can be told from the object that it is read as.
    pub open spec fn is_kept(&self) -> bool {
        let m = object_from_attrs(self.record_attrs);
        &&& self.record.attributes.len() == 0
        &&& all_kept(self.record_attrs)
        &&& record_is_kept(self.record, m)
        &&& leaves_object(m, "resource"@, self.resource is Some)
        &&& leaves_object(m, "scope"@, self.scope is Some)
        &&& names_no_attributes(m)
        &&& resource_is_kept(self.resource, self.resource_attrs)
        &&& scope_is_kept(self.scope, self.scope_attrs)
    }
}

/// The lengths of the names of the fields of a log event, and the first letters of those with the
/// same length.
pub proof fn lemma_log_names()
    ensures
        "body"@.len() == 4,
        "body"@[0] == 'b',
        "host"@.len() == 4,
        "host"@[0] == 'h',
        "message"@.len() == 7,
        "message"@[0] == 'm',
        "timestamp"@.len() == 9,
        "source_type"@.len() == 11,
        "flags"@.len() == 5,
        "flags"@[0] == 'f',
        "scope"@.len() == 5,
        "scope"@[0] == 's',
        "spanId"@.len() == 6,
        "span_id"@.len() == 7,
        "span_id"@[0] == 's',
        "traceId"@.len() == 7,
        "traceId"@[0] == 't',
        "trace_id"@.len() == 8,
        "trace_id"@[0] == 't',
        "resource"@.len() == 8,
        "resource"@[0] == 'r',
        "attributes"@.len() == 10,
        "timeUnixNano"@.len() == 12,
        "timeUnixNano"@[0] == 't',
        "severityText"@.len() == 12,
        "severityText"@[0] == 's',
        "severity_text"@.len() == 13,
        "time_unix_nano"@.len() == 14,
        "time_unix_nano"@[0] == 't',
        "severityNumber"@.len() == 14,
        "severityNumber"@[0] == 's',
        "severity_number"@.len() == 15,
        "observedTimeUnixNano"@.len() == 20,
        "observed_time_unix_nano"@.len() == 23,
        "dropped_attributes_count"@.len() == 24,
{
    reveal_strlit("body");
    reveal_strlit("host");
    reveal_strlit("message");
    reveal_strlit("timestamp");
    reveal_strlit("source_type");
    reveal_strlit("flags");
    reveal_strlit("scope");
    reveal_strlit("spanId");
    reveal_strlit("span_id");
    reveal_strlit("traceId");
    reveal_strlit("trace_id");
    reveal_strlit("resource");
    reveal_strlit("attributes");
    reveal_strlit("timeUnixNano");
    reveal_strlit("severityText");
    reveal_strlit("severity_text");
    reveal_strlit("time_unix_nano");
    reveal_strlit("severityNumber");
    reveal_strlit("severity_number");
    reveal_strlit("observedTimeUnixNano");
    reveal_strlit("observed_time_unix_nano");
    reveal_strlit("dropped_attributes_count");
}

/// Whether a name is that of a field of the record other than its body.
pub open spec fn is_native_name(k: Seq<char>) -> bool {
    k == "severity_text"@ || k == "severity_number"@ || k == "time_unix_nano"@ || k
        == "observed_time_unix_nano"@ || k == "trace_id"@ || k == "span_id"@ || k == "flags"@ || k
        == "dropped_attributes_count"@
}

/// Whether a name is that of a field of the record in the JSON encoding of the protocol.
pub open spec fn is_native_alias(k: Seq<char>) -> bool {
    k == "severityText"@ || k == "severityNumber"@ || k == "timeUnixNano"@ || k
        == "observedTimeUnixNano"@ || k == "traceId"@ || k == "spanId"@
}

/// Whether a name is that of a field of the record.
pub open spec fn is_record_name(k: Seq<char>) -> bool {
    k == "body"@ || is_native_name(k)
}

/// The value of an integer field, where it is set.
pub open spec fn count_set(n: i64) -> Option<ValueView> {
    if n == 0 {
        None
    } else {
        Some(ValueView::Integer(n))
    }
}

/// The value of a text field, where it is set.
pub open spec fn text_set(t: Seq<char>) -> Option<ValueView> {
    if t.len() == 0 {
        None
    } else {
        Some(ValueView::text(t))
    }
}

/// The value of an identifier, where it is set.
pub open spec fn id_set(id: Seq<u8>) -> Option<ValueView> {
    if id.len() == 0 {
        None
    } else {
        Some(ValueView::Bytes(hex_digits(id)))
    }
}

/// What the fields of a record hold.
pub proof fn lemma_record_fields(r: LogRecordView)
    ensures
        ({
            let m = record_fields(r);
            &&& ordered(m)
            &&& value_of(m, "body"@) == match r.body {
                Some(b) => Some(value_from_any(b)),
                None => None,
            }
            &&& value_of(m, "severity_text"@) == text_set(r.severity_text)
            &&& value_of(m, "severity_number"@) == count_set(r.severity_number as i64)
            &&& value_of(m, "time_unix_nano"@) == count_set(wrap_i64(r.time_unix_nano as int))
            &&& value_of(m, "observed_time_unix_nano"@) == count_set(
                wrap_i64(r.observed_time_unix_nano as int),
            )
            &&& value_of(m, "trace_id"@) == id_set(r.trace_id)
            &&& value_of(m, "span_id"@) == id_set(r.span_id)
            &&& value_of(m, "flags"@) == count_set(r.flags as i64)
            &&& value_of(m, "dropped_attributes_count"@) == count_set(
                r.dropped_attributes_count as i64,
            )
            &&& forall|k: Seq<char>| !is_record_name(k) ==> #[trigger] value_of(m, k) is None
        }),
{
    lemma_log_names();
    let none = Seq::<(Seq<char>, ValueView)>::empty();
    assert(ordered(none));
    assert(forall|k: Seq<char>| #[trigger] value_of(none, k) is None);
    let m0 = match r.body {
        Some(body) => with_entry(none, "body"@, value_from_any(body)),
        None => none,
    };
    if let Some(body) = r.body {
        law_read_after_write(none, "body"@, value_from_any(body));
    }
    lemma_with_text(m0, "severity_text"@, r.severity_text);
    let m1 = with_text(m0, "severity_text"@, r.severity_text);
    lemma_with_count(m1, "severity_number"@, r.severity_number as i64);
    let m2 = with_count(m1, "severity_number"@, r.severity_number as i64);
    lemma_with_count(m2, "time_unix_nano"@, wrap_i64(r.time_unix_nano as int));
    let m3 = with_count(m2, "time_unix_nano"@, wrap_i64(r.time_unix_nano as int));
    let o = wrap_i64(r.observed_time_unix_nano as int);
    lemma_with_count(m3, "observed_time_unix_nano"@, o);
    let m4 = with_count(m3, "observed_time_unix_nano"@, o);
    lemma_with_id(m4, "trace_id"@, r.trace_id);
    let m5 = with_id(m4, "trace_id"@, r.trace_id);
    lemma_with_id(m5, "span_id"@, r.span_id);
    let m6 = with_id(m5, "span_id"@, r.span_id);
    lemma_with_count(m6, "flags"@, r.flags as i64);
    let m7 = with_count(m6, "flags"@, r.flags as i64);
    lemma_with_count(m7, "dropped_attributes_count"@, r.dropped_attributes_count as i64);
    let m = record_fields(r);
    assert forall|k: Seq<char>| !is_record_name(k) implies #[trigger] value_of(m, k) is None by {
        assert(value_of(m7, k) == value_of(m6, k));
        assert(value_of(m5, k) == value_of(m4, k));
        assert(value_of(m3, k) == value_of(m2, k));
        assert(value_of(m1, k) == value_of(m0, k));
    }
}

/// Where a number of nanoseconds is set, the integer it is written as is, too.
pub proof fn lemma_nanos_set(n: u64)
    ensures
        n == 0 <==> wrap_i64(n as int) == 0,
        wrap_u64(wrap_i64(n as int) as int) == n,
        wrap_u64(0) == 0,
{
    law_wrap_round_trip(n, 0);
}

/// What an object holds for the fields of a record other than its body.
pub open spec fn holds_natives(
    m: Seq<(Seq<char>, ValueView)>,
    r: LogRecordView,
    attrs: Seq<(Seq<char>, ValueView)>,
) -> bool {
    forall|k: Seq<char>|
        is_native_name(k) || is_native_alias(k) ==> #[trigger] value_of(m, k) == over(
            value_of(record_fields(r), k),
            value_of(attrs, k),
        )
}

/// What the object that an event is read as holds for the fields of its record.
spec fn holds_record(
    m: Seq<(Seq<char>, ValueView)>,
    r: LogRecordView,
    attrs: Seq<(Seq<char>, ValueView)>,
) -> bool {
    forall|k: Seq<char>|
        k != "resource"@ && k != "scope"@ ==> #[trigger] value_of(m, k) == over(
            value_of(record_fields(r), k),
            value_of(attrs, k),
        )
}

/// The first of two values that is there.
pub open spec fn over(a: Option<ValueView>, b: Option<ValueView>) -> Option<ValueView> {
    match a {
        Some(v) => Some(v),
        None => b,
    }
}

/// The fields of a record other than its body are found in an object, and beside them is left what
/// belongs to none of them.
#[verifier::rlimit(30)]
pub proof fn lemma_natives_back(
    m: Seq<(Seq<char>, ValueView)>,
    r: LogRecordView,
    attrs: Seq<(Seq<char>, ValueView)>,
)
    requires
        ordered(m),
        natives_are_kept(r, attrs),
        holds_natives(m, r, attrs),
    ensures
        natives_of(m) == (LogRecordView { body: None, attributes: Seq::empty(), ..r }),
        ordered(beside_natives(m)),
        forall|k: Seq<char>|
            #![trigger value_of(beside_natives(m), k)]
            value_of(beside_natives(m), k) == if is_native_name(k) {
                value_of(attrs, k)
            } else {
                value_of(m, k)
            },
{
    lemma_log_names();
    lemma_record_fields(r);
    lemma_nanos_set(r.time_unix_nano);
    lemma_nanos_set(r.observed_time_unix_nano);
    let done0 = Set::<Seq<char>>::empty();
    assert(is_taken(m, m, attrs, done0));
    let t = picked(m, "time_unix_nano"@, "timeUnixNano"@);
    let ts = count_set(wrap_i64(r.time_unix_nano as int));
    let ok = nanos_in(t) is Some;
    assert(is_native_alias("timeUnixNano"@));
    lemma_next_taken(m, m, attrs, done0, "time_unix_nano"@, "timeUnixNano"@, ts, gives_nanos(), ok);
    let m1 = left_over(m, "time_unix_nano"@, "timeUnixNano"@, ok);
    let done1 = done0.insert("time_unix_nano"@);
    let on = "observed_time_unix_nano"@;
    let oa = "observedTimeUnixNano"@;
    let o = picked(m1, on, oa);
    let os = count_set(wrap_i64(r.observed_time_unix_nano as int));
    let ok = nanos_in(o) is Some;
    assert(is_native_alias(oa));
    lemma_next_taken(m, m1, attrs, done1, on, oa, os, gives_nanos(), ok);
    let m2 = left_over(m1, on, oa, ok);
    let done2 = done1.insert(on);
    let s = picked(m2, "severity_text"@, "severityText"@);
    let ss = text_set(r.severity_text);
    let ok = s->0 is Bytes;
    assert(is_native_alias("severityText"@));
    lemma_next_taken(m, m2, attrs, done2, "severity_text"@, "severityText"@, ss, gives_text(), ok);
    let m3 = left_over(m2, "severity_text"@, "severityText"@, ok);
    let done3 = done2.insert("severity_text"@);
    let nn = "severity_number"@;
    let na = "severityNumber"@;
    let n = picked(m3, nn, na);
    let ns = count_set(r.severity_number as i64);
    let ok = n->0 is Integer;
    assert(is_native_alias(na));
    lemma_next_taken(m, m3, attrs, done3, nn, na, ns, gives_integer(), ok);
    let m4 = left_over(m3, nn, na, ok);
    let done4 = done3.insert(nn);
    assert(is_taken(m, m4, attrs, done4));
    lemma_ids_back(m, m4, r, attrs, done4);
    assert(or_zero(nanos_in(t)) == r.time_unix_nano);
    assert(or_zero(nanos_in(o)) == r.observed_time_unix_nano);
    assert(text_or_empty(s) =~= r.severity_text) by {
        encode_utf8_valid_utf8(r.severity_text);
        encode_utf8_decode_utf8(r.severity_text);
    }
    assert(wrap_i32(int_or_zero(n) as int) == r.severity_number);
}

/// What is left of an object after the body was taken out of it.
pub proof fn lemma_body_taken(m: Seq<(Seq<char>, ValueView)>)
    requires
        ordered(m),
    ensures
        ordered(unpicked(m, "body"@, "message"@)),
        forall|k: Seq<char>|
            #![trigger value_of(unpicked(m, "body"@, "message"@), k)]
            value_of(unpicked(m, "body"@, "message"@), k) == if k == "body"@ || (k == "message"@
                && value_of(m, "body"@) is None) {
                None
            } else {
                value_of(m, k)
            },
{
    law_read_after_remove(m, "body"@);
    law_read_after_remove(m, "message"@);
}

/// The record is found in the object that an event is read as, and beside it is left what belongs to
/// no field of the record.
proof fn lemma_record_back(
    m: Seq<(Seq<char>, ValueView)>,
    r: LogRecordView,
    attrs: Seq<(Seq<char>, ValueView)>,
)
    requires
        ordered(m),
        r.attributes.len() == 0,
        record_is_kept(r, attrs),
        holds_record(m, r, attrs),
    ensures
        record_of(m) == r,
        ordered(beside_record(m)),
        forall|k: Seq<char>|
            #![trigger value_of(beside_record(m), k)]
            value_of(beside_record(m), k) == if k == "resource"@ || k == "scope"@ {
                value_of(m, k)
            } else {
                value_of(attrs, k)
            },
{
    lemma_log_names();
    lemma_record_fields(r);
    lemma_body_taken(m);
    let m0 = unpicked(m, "body"@, "message"@);
    assert forall|k: Seq<char>| is_native_name(k) || is_native_alias(k) implies #[trigger] value_of(
        m0,
        k,
    ) == over(value_of(record_fields(r), k), value_of(attrs, k)) by {
        assert(value_of(m, k) == value_of(m, k));
    }
    lemma_natives_back(m0, r, attrs);
    assert(value_of(m, "message"@) == value_of(attrs, "message"@)) by {
        assert(!is_record_name("message"@));
    }
    assert(record_of(m).body == r.body) by {
        if let Some(b) = r.body {
            law_attribute_value_round_trip(b);
        }
    }
    assert(r.attributes =~= Seq::empty());
    let rest = beside_record(m);
    assert forall|k: Seq<char>|
        #![trigger value_of(rest, k)]
        value_of(rest, k) == if k == "resource"@ || k == "scope"@ {
            value_of(m, k)
        } else {
            value_of(attrs, k)
        } by {
        assert(value_of(m0, k) == value_of(m0, k));
        if !is_record_name(k) {
            assert(value_of(record_fields(r), k) is None);
            assert(value_of(m, k) == value_of(m, k));
        }
    }
}

/// The object that is left after the identifiers and what follows them were taken out.
spec fn beside_ids(m: Seq<(Seq<char>, ValueView)>) -> Seq<(Seq<char>, ValueView)> {
    let i = picked(m, "trace_id"@, "traceId"@);
    let m = left_over(m, "trace_id"@, "traceId"@, id_in(i) is Some);
    let p = picked(m, "span_id"@, "spanId"@);
    let m = left_over(m, "span_id"@, "spanId"@, id_in(p) is Some);
    let f = picked(m, "flags"@, "flags"@);
    let m = left_over(m, "flags"@, "flags"@, f->0 is Integer);
    let d = picked(m, "dropped_attributes_count"@, "dropped_attributes_count"@);
    left_over(m, "dropped_attributes_count"@, "dropped_attributes_count"@, d->0 is Integer)
}

proof fn lemma_ids_back(
    m: Seq<(Seq<char>, ValueView)>,
    m4: Seq<(Seq<char>, ValueView)>,
    r: LogRecordView,
    attrs: Seq<(Seq<char>, ValueView)>,
    done4: Set<Seq<char>>,
)
    requires
        is_taken(m, m4, attrs, done4),
        natives_are_kept(r, attrs),
        holds_natives(m, r, attrs),
        done4 == Set::<Seq<char>>::empty().insert("time_unix_nano"@).insert(
            "observed_time_unix_nano"@,
        ).insert("severity_text"@).insert("severity_number"@),
    ensures
        ({
            let i = picked(m4, "trace_id"@, "traceId"@);
            let m5 = left_over(m4, "trace_id"@, "traceId"@, id_in(i) is Some);
            let p = picked(m5, "span_id"@, "spanId"@);
            let m6 = left_over(m5, "span_id"@, "spanId"@, id_in(p) is Some);
            let f = picked(m6, "flags"@, "flags"@);
            let m7 = left_over(m6, "flags"@, "flags"@, f->0 is Integer);
            let d = picked(m7, "dropped_attributes_count"@, "dropped_attributes_count"@);
            &&& or_none(id_in(i)) == r.trace_id
            &&& or_none(id_in(p)) == r.span_id
            &&& wrap_u32(int_or_zero(f) as int) == r.flags
            &&& wrap_u32(int_or_zero(d) as int) == r.dropped_attributes_count
        }),
        ordered(beside_ids(m4)),
        forall|k: Seq<char>| #[trigger]
            value_of(beside_ids(m4), k) == if is_native_name(k) {
                value_of(attrs, k)
            } else {
                value_of(m, k)
            },
{
    lemma_log_names();
    lemma_record_fields(r);
    if r.trace_id.len() > 0 {
        law_hex_round_trip(r.trace_id);
    }
    if r.span_id.len() > 0 {
        law_hex_round_trip(r.span_id);
    }
    let i = picked(m4, "trace_id"@, "traceId"@);
    let ok = id_in(i) is Some;
    assert(is_native_alias("traceId"@) && is_native_alias("spanId"@));
    let is = id_set(r.trace_id);
    lemma_next_taken(m, m4, attrs, done4, "trace_id"@, "traceId"@, is, gives_id(), ok);
    let m5 = left_over(m4, "trace_id"@, "traceId"@, ok);
    let done5 = done4.insert("trace_id"@);
    let p = picked(m5, "span_id"@, "spanId"@);
    let ok = id_in(p) is Some;
    let ps = id_set(r.span_id);
    lemma_next_taken(m, m5, attrs, done5, "span_id"@, "spanId"@, ps, gives_id(), ok);
    let m6 = left_over(m5, "span_id"@, "spanId"@, ok);
    let done6 = done5.insert("span_id"@);
    let f = picked(m6, "flags"@, "flags"@);
    let ok = f->0 is Integer;
    let fs = count_set(r.flags as i64);
    lemma_next_taken(m, m6, attrs, done6, "flags"@, "flags"@, fs, gives_integer(), ok);
    let m7 = left_over(m6, "flags"@, "flags"@, ok);
    let done7 = done6.insert("flags"@);
    let dn = "dropped_attributes_count"@;
    let d = picked(m7, dn, dn);
    let ds = count_set(r.dropped_attributes_count as i64);
    let ok = d->0 is Integer;
    lemma_next_taken(m, m7, attrs, done7, dn, dn, ds, gives_integer(), ok);
    let done8 = done7.insert(dn);
    assert(is_taken(m, beside_ids(m4), attrs, done8));
    assert(forall|k: Seq<char>| #[trigger] done8.contains(k) <==> is_native_name(k));
    assert(or_none(id_in(i)) =~= r.trace_id);
    assert(or_none(id_in(p)) =~= r.span_id);
}

/// What the object that an event is read as holds.
pub proof fn lemma_canonical(log: OtelLogView)
    requires
        log.wf(),
    ensures
        ordered(log.canonical()),
        ordered(object_from_attrs(log.record_attrs)),
        forall|k: Seq<char>|
            #![trigger value_of(log.canonical(), k)]
            value_of(log.canonical(), k) == if k == "scope"@ && scope_fields(
                log.scope,
                log.scope_attrs,
            ).len() > 0 {
                Some(ValueView::Object(scope_fields(log.scope, log.scope_attrs)))
            } else if k == "resource"@ && resource_fields(log.resource, log.resource_attrs).len() > 0 {
                Some(ValueView::Object(resource_fields(log.resource, log.resource_attrs)))
            } else {
                over(
                    value_of(record_fields(log.record), k),
                    value_of(object_from_attrs(log.record_attrs), k),
                )
            },
{
    lemma_log_names();
    let fields = record_fields(log.record);
    lemma_record_fields(log.record);
    lemma_with_attrs(fields, log.record_attrs);
    let a = with_attrs(fields, log.record_attrs);
    let res = resource_fields(log.resource, log.resource_attrs);
    let sco = scope_fields(log.scope, log.scope_attrs);
    lemma_with_object(a, "resource"@, res);
    let b = with_object(a, "resource"@, res);
    lemma_with_object(b, "scope"@, sco);
    assert forall|k: Seq<char>|
        #![trigger value_of(log.canonical(), k)]
        value_of(log.canonical(), k) == if k == "scope"@ && sco.len() > 0 {
            Some(ValueView::Object(sco))
        } else if k == "resource"@ && res.len() > 0 {
            Some(ValueView::Object(res))
        } else {
            over(value_of(fields, k), value_of(object_from_attrs(log.record_attrs), k))
        } by {
        assert(value_of(b, k) == value_of(b, k));
        assert(value_of(a, k) == value_of(a, k));
    }
}

/// A log event that is read as an object and written back is the same, unless it is one that cannot
/// be told from that object.
#[verifier::rlimit(30)]
pub proof fn law_log_round_trip(log: OtelLogView)
    requires
        log.wf(),
        log.is_kept(),
    ensures
        log_written_back(ValueView::Object(log.canonical()), log.metadata) == log,
{
    lemma_log_names();
    lemma_canonical(log);
    lemma_record_fields(log.record);
    let attrs = object_from_attrs(log.record_attrs);
    let m = log.canonical();
    lemma_record_back(m, log.record, attrs);
    let rest = beside_record(m);
    assert(value_of(rest, "resource"@) == value_of(m, "resource"@));
    law_resource_round_trip(rest, log.resource, log.resource_attrs);
    lemma_without_object(rest, "resource"@);
    let beside = without_object(rest, "resource"@);
    assert(value_of(beside, "scope"@) == value_of(rest, "scope"@));
    law_scope_round_trip(beside, log.scope, log.scope_attrs);
    lemma_without_object(beside, "scope"@);
    let left = without_object(beside, "scope"@);
    assert forall|k: Seq<char>| #[trigger] value_of(left, k) == value_of(attrs, k) by {
        assert(value_of(beside, k) == value_of(beside, k));
        assert(value_of(rest, k) == value_of(rest, k));
        assert(value_of(m, k) == value_of(m, k));
    }
    law_same_entries(left, attrs);
    lemma_attrs_back(log.record_attrs);
    assert(event_attrs_of(left) == log.record_attrs);
}

} // verus!
