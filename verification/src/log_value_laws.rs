//! What holds of values that are made into log events: which place each field of an object finds in
//! the event, and that an event comes back from the object that it is read as.
use vstd::prelude::*;

use crate::any_value::any_from_value;
use crate::attributes::{attrs_from_object, object_from_attrs};
use crate::canonical::without_object;
use crate::canonical_laws::{all_kept, lemma_same_names, lemma_without_object};
use crate::extract::{id_in, left_over, nanos_in, picked, unpicked};
use crate::keyed::{ordered, slot_of, value_of, with_entry, without_entry};
use crate::log::OtelLogView;
use crate::log_laws::{
    is_native_alias, is_native_name, law_log_round_trip, lemma_body_taken, lemma_canonical,
    lemma_log_names, lemma_natives_back, lemma_record_fields, natives_are_kept, over,
};
use crate::log_value::{
    beside_record, event_attrs_of, log_from_value, log_written_back, record_fields,
    with_time_routed,
};
use crate::map_laws::{
    law_read_after_remove, law_read_after_write, law_same_entries, lemma_entry_found,
    lemma_found_entry,
};
use crate::metadata::MetadataView;
use crate::order_laws::{fields_are_stored, law_log_reads_plainly};
use crate::otlp::LogRecordView;
use crate::otlp_json::otlp_kvs;
use crate::value::ValueView;
use crate::value_laws::{is_stored, law_attribute_value_round_trip, lemma_keys_ordered};

verus! {

/// An object without instants has no time that would have to find its place.
proof fn lemma_no_time(m: Seq<(Seq<char>, ValueView)>)
    requires
        fields_are_stored(m),
    ensures
        with_time_routed(m) == m,
{
    reveal_with_fuel(is_stored, 2);
    if value_of(m, "timestamp"@) is Some {
        lemma_found_entry(m, "timestamp"@);
    }
}

/// What is left of the object that an event is read as, without the fields that go to the resource.
spec fn unrouted(m: Seq<(Seq<char>, ValueView)>) -> Seq<(Seq<char>, ValueView)> {
    without_entry(without_entry(m, "source_type"@), "host"@)
}

proof fn lemma_unrouted(m: Seq<(Seq<char>, ValueView)>)
    requires
        ordered(m),
    ensures
        ordered(unrouted(m)),
        value_of(without_entry(m, "source_type"@), "host"@) == value_of(m, "host"@),
        forall|k: Seq<char>|
            #![trigger value_of(unrouted(m), k)]
            value_of(unrouted(m), k) == if k == "source_type"@ || k == "host"@ {
                None
            } else {
                value_of(m, k)
            },
{
    lemma_log_names();
    law_read_after_remove(m, "source_type"@);
    let a = without_entry(m, "source_type"@);
    law_read_after_remove(a, "host"@);
    assert forall|k: Seq<char>|
        #![trigger value_of(unrouted(m), k)]
        value_of(unrouted(m), k) == if k == "source_type"@ || k == "host"@ {
            None
        } else {
            value_of(m, k)
        } by {
        assert(value_of(a, k) == value_of(a, k));
    }
}

/// The fields of the record of a log event other than its body come back from the object that the
/// event is read as, whatever else the event holds, if its attributes leave them their places. The
/// metadata are those that were given.
pub proof fn law_native_fields_round_trip(log: OtelLogView, metadata: MetadataView)
    requires
        log.wf(),
        natives_are_kept(log.record, object_from_attrs(log.record_attrs)),
    ensures
        ({
            let back = log_from_value(ValueView::Object(log.canonical()), metadata);
            &&& back.record == (LogRecordView {
                body: back.record.body,
                attributes: back.record.attributes,
                ..log.record
            })
            &&& back.metadata == metadata
        }),
{
    lemma_log_names();
    lemma_canonical(log);
    lemma_record_fields(log.record);
    let m = log.canonical();
    let attrs = object_from_attrs(log.record_attrs);
    law_log_reads_plainly(log);
    lemma_no_time(m);
    lemma_unrouted(m);
    let b = unrouted(m);
    lemma_body_taken(b);
    let left = unpicked(b, "body"@, "message"@);
    assert forall|k: Seq<char>| is_native_name(k) || is_native_alias(k) implies #[trigger] value_of(
        left,
        k,
    ) == over(value_of(record_fields(log.record), k), value_of(attrs, k)) by {
        assert(value_of(b, k) == value_of(b, k));
        assert(value_of(m, k) == value_of(m, k));
    }
    lemma_natives_back(left, log.record, attrs);
}

impl OtelLogView {
    /// Whether no attribute of the record is one that goes to the resource.
    pub open spec fn is_routed(&self) -> bool {
        &&& value_of(self.record_attrs, "source_type"@) is Some ==> value_of(
            self.resource_attrs,
            "source_type"@,
        ) is Some
        &&& value_of(self.record_attrs, "host"@) is Some ==> value_of(
            self.resource_attrs,
            "host.name"@,
        ) is Some
    }

    /// The event without the attributes that would go to the resource.
    spec fn without_routed(self) -> OtelLogView {
        OtelLogView {
            record_attrs: without_entry(
                without_entry(self.record_attrs, "source_type"@),
                "host"@,
            ),
            ..self
        }
    }
}

/// An event without some of its attributes can be told from the object that it is read as.
proof fn lemma_without_routed(log: OtelLogView)
    requires
        log.wf(),
        log.is_kept(),
    ensures
        ({
            let less = log.without_routed();
            &&& less.wf()
            &&& less.is_kept()
            &&& less.canonical() == unrouted(log.canonical())
            &&& forall|k: Seq<char>|
                #![trigger value_of(less.record_attrs, k)]
                value_of(less.record_attrs, k) == if k == "source_type"@ || k == "host"@ {
                    None
                } else {
                    value_of(log.record_attrs, k)
                }
        }),
{
    lemma_log_names();
    let all = log.record_attrs;
    let less = log.without_routed();
    let few = less.record_attrs;
    law_read_after_remove(all, "source_type"@);
    let a = without_entry(all, "source_type"@);
    law_read_after_remove(a, "host"@);
    assert forall|k: Seq<char>|
        #![trigger value_of(few, k)]
        value_of(few, k) == if k == "source_type"@ || k == "host"@ {
            None
        } else {
            value_of(all, k)
        } by {
        assert(value_of(a, k) == value_of(a, k));
    }
    let m = object_from_attrs(all);
    let n = object_from_attrs(few);
    assert forall|k: Seq<char>|
        #![trigger value_of(n, k)]
        value_of(n, k) == if k == "source_type"@ || k == "host"@ {
            None
        } else {
            value_of(m, k)
        } by {
        lemma_same_names(all, k);
        lemma_same_names(few, k);
        assert(value_of(few, k) == value_of(few, k));
    }
    assert(all_kept(few)) by {
        assert forall|i: int| 0 <= i < few.len() implies crate::value_laws::is_kept(
            (#[trigger] few[i]).1,
        ) by {
            lemma_entry_found(few, i);
            assert(value_of(few, few[i].0) == value_of(all, few[i].0));
            lemma_found_entry(all, few[i].0);
            assert(all[slot_of(all, few[i].0)].1 == few[i].1);
        }
    }
    lemma_canonical(log);
    lemma_canonical(less);
    lemma_record_fields(log.record);
    lemma_unrouted(log.canonical());
    assert forall|k: Seq<char>| #[trigger] value_of(less.canonical(), k) == value_of(
        unrouted(log.canonical()),
        k,
    ) by {
        assert(value_of(n, k) == value_of(n, k));
        assert(value_of(log.canonical(), k) == value_of(log.canonical(), k));
    }
    law_same_entries(less.canonical(), unrouted(log.canonical()));
}

/// A log event comes back from the object that it is read as, unless it is one that cannot be told
/// from that object, or one with an attribute that goes to the resource.
pub proof fn law_log_comes_back(log: OtelLogView)
    requires
        log.wf(),
        log.is_kept(),
        log.is_routed(),
    ensures
        log_from_value(ValueView::Object(log.canonical()), log.metadata) == log,
{
    lemma_log_names();
    let m = log.canonical();
    let all = log.record_attrs;
    law_log_reads_plainly(log);
    lemma_no_time(m);
    lemma_canonical(log);
    lemma_record_fields(log.record);
    lemma_unrouted(m);
    lemma_without_routed(log);
    let less = log.without_routed();
    law_log_round_trip(less);
    let few = less.record_attrs;
    lemma_same_names(all, "source_type"@);
    lemma_same_names(all, "host"@);
    assert(value_of(m, "source_type"@) == value_of(object_from_attrs(all), "source_type"@));
    assert(value_of(m, "host"@) == value_of(object_from_attrs(all), "host"@));
    let one = less.with_routed("source_type"@, "source_type"@, value_of(m, "source_type"@));
    let two = one.with_routed("host"@, "host.name"@, value_of(m, "host"@));
    if let Some(a) = value_of(all, "source_type"@) {
        lemma_found_entry(all, "source_type"@);
        law_attribute_value_round_trip(a);
        law_read_after_write(few, "source_type"@, a);
    }
    if let Some(a) = value_of(all, "host"@) {
        lemma_found_entry(all, "host"@);
        law_attribute_value_round_trip(a);
        law_read_after_write(one.record_attrs, "host"@, a);
    }
    assert forall|k: Seq<char>| #[trigger] value_of(two.record_attrs, k) == value_of(all, k) by {
        assert(value_of(few, k) == value_of(few, k));
        assert(value_of(one.record_attrs, k) == value_of(one.record_attrs, k));
    }
    law_same_entries(two.record_attrs, all);
}

proof fn lemma_left_over(
    m: Seq<(Seq<char>, ValueView)>,
    name: Seq<char>,
    alias: Seq<char>,
    fits: bool,
    k: Seq<char>,
)
    requires
        ordered(m),
        k != name,
        k != alias,
    ensures
        ordered(left_over(m, name, alias, fits)),
        value_of(left_over(m, name, alias, fits), k) == value_of(m, k),
{
    law_read_after_remove(m, name);
    law_read_after_remove(m, alias);
    if let Some(v) = picked(m, name, alias) {
        law_read_after_write(unpicked(m, name, alias), name, v);
    }
}

/// Whether a name is that of a field with a place of its own in a log event.
pub open spec fn has_own_place(k: Seq<char>) -> bool {
    k == "body"@ || k == "message"@ || is_native_name(k) || is_native_alias(k)
}

/// A field that has no place of its own in the record is left beside it.
proof fn lemma_left_beside(m: Seq<(Seq<char>, ValueView)>, k: Seq<char>)
    requires
        ordered(m),
        !has_own_place(k),
    ensures
        ordered(beside_record(m)),
        value_of(beside_record(m), k) == value_of(m, k),
{
    lemma_body_taken(m);
    let m = unpicked(m, "body"@, "message"@);
    assert(value_of(m, k) == value_of(m, k));
    let ok = nanos_in(picked(m, "time_unix_nano"@, "timeUnixNano"@)) is Some;
    lemma_left_over(m, "time_unix_nano"@, "timeUnixNano"@, ok, k);
    let m = left_over(m, "time_unix_nano"@, "timeUnixNano"@, ok);
    let on = "observed_time_unix_nano"@;
    let oa = "observedTimeUnixNano"@;
    let ok = nanos_in(picked(m, on, oa)) is Some;
    lemma_left_over(m, on, oa, ok, k);
    let m = left_over(m, on, oa, ok);
    let ok = picked(m, "severity_text"@, "severityText"@)->0 is Bytes;
    lemma_left_over(m, "severity_text"@, "severityText"@, ok, k);
    let m = left_over(m, "severity_text"@, "severityText"@, ok);
    let ok = picked(m, "severity_number"@, "severityNumber"@)->0 is Integer;
    lemma_left_over(m, "severity_number"@, "severityNumber"@, ok, k);
    let m = left_over(m, "severity_number"@, "severityNumber"@, ok);
    let ok = id_in(picked(m, "trace_id"@, "traceId"@)) is Some;
    lemma_left_over(m, "trace_id"@, "traceId"@, ok, k);
    let m = left_over(m, "trace_id"@, "traceId"@, ok);
    let ok = id_in(picked(m, "span_id"@, "spanId"@)) is Some;
    lemma_left_over(m, "span_id"@, "spanId"@, ok, k);
    let m = left_over(m, "span_id"@, "spanId"@, ok);
    let ok = picked(m, "flags"@, "flags"@)->0 is Integer;
    lemma_left_over(m, "flags"@, "flags"@, ok, k);
    let m = left_over(m, "flags"@, "flags"@, ok);
    let dn = "dropped_attributes_count"@;
    lemma_left_over(m, dn, dn, picked(m, dn, dn)->0 is Integer, k);
}

proof fn lemma_stored_name(m: Seq<(Seq<char>, ValueView)>, k: Seq<char>)
    requires
        ordered(m),
    ensures
        ordered(attrs_from_object(m)),
        value_of(attrs_from_object(m), k) == match value_of(m, k) {
            Some(v) => Some(any_from_value(v)),
            None => None,
        },
{
    let attrs = attrs_from_object(m);
    lemma_keys_ordered(m, attrs);
    if value_of(m, k) is Some {
        lemma_found_entry(m, k);
        lemma_entry_found(attrs, slot_of(m, k));
    } else if value_of(attrs, k) is Some {
        lemma_found_entry(attrs, k);
        lemma_entry_found(m, slot_of(attrs, k));
    }
}

/// What is written back as a log event loses no field: one that has no place of its own in the record,
/// and is neither the resource nor the scope, becomes an attribute of the record. So does one of the
/// name `attributes` that is no list of named attributes.
pub proof fn law_other_fields_are_attributes(
    m: Seq<(Seq<char>, ValueView)>,
    metadata: MetadataView,
    k: Seq<char>,
)
    requires
        ordered(m),
        !has_own_place(k),
        k == "resource"@ || k == "scope"@ ==> !(value_of(m, k) matches Some(ValueView::Object(_))),
        value_of(m, "attributes"@) matches Some(ValueView::Array(arr)) ==> otlp_kvs(arr) is None,
    ensures
        value_of(log_written_back(ValueView::Object(m), metadata).record_attrs, k) == match value_of(
            m,
            k,
        ) {
            Some(v) => Some(any_from_value(v)),
            None => None,
        },
{
    lemma_log_names();
    lemma_left_beside(m, k);
    lemma_left_beside(m, "attributes"@);
    let rest = beside_record(m);
    lemma_without_object(rest, "resource"@);
    let beside = without_object(rest, "resource"@);
    lemma_without_object(beside, "scope"@);
    let left = without_object(beside, "scope"@);
    assert(value_of(beside, k) == value_of(rest, k));
    assert(value_of(beside, "attributes"@) == value_of(rest, "attributes"@));
    assert(value_of(left, k) == value_of(m, k));
    assert(value_of(left, "attributes"@) == value_of(m, "attributes"@));
    law_read_after_remove(left, "attributes"@);
    let others = without_entry(left, "attributes"@);
    if let Some(v) = value_of(left, "attributes"@) {
        law_read_after_write(others, "attributes"@, v);
        let back = with_entry(others, "attributes"@, v);
        lemma_stored_name(back, k);
        assert(value_of(back, k) == value_of(left, k)) by {
            assert(value_of(others, k) == value_of(others, k));
        }
        assert(event_attrs_of(left) == attrs_from_object(back));
    } else {
        lemma_stored_name(others, k);
        assert(event_attrs_of(left) == attrs_from_object(others));
    }
}

/// The type of the source and the host that an object names become attributes of the resource, unless
/// the object has a resource of its own.
pub proof fn law_source_and_host_are_routed(
    m: Seq<(Seq<char>, ValueView)>,
    metadata: MetadataView,
)
    requires
        ordered(m),
        !(value_of(m, "resource"@) matches Some(ValueView::Object(_))),
    ensures
        ({
            let log = log_from_value(ValueView::Object(m), metadata);
            &&& value_of(log.resource_attrs, "source_type"@) == match value_of(m, "source_type"@) {
                Some(v) => Some(any_from_value(v)),
                None => None,
            }
            &&& value_of(log.resource_attrs, "host.name"@) == match value_of(m, "host"@) {
                Some(v) => Some(any_from_value(v)),
                None => None,
            }
        }),
{
    lemma_log_names();
    reveal_strlit("host.name");
    let timed = with_time_routed(m);
    if let Some(ValueView::Timestamp(t)) = value_of(m, "timestamp"@) {
        law_read_after_remove(m, "timestamp"@);
        if timed != m {
            law_read_after_write(
                without_entry(m, "timestamp"@),
                "time_unix_nano"@,
                value_of(timed, "time_unix_nano"@)->0,
            );
            let n = crate::metric_new::nanos_at(Some(t))->0;
            law_read_after_write(
                without_entry(m, "timestamp"@),
                "time_unix_nano"@,
                ValueView::Integer(n),
            );
        }
    }
    assert(ordered(timed));
    assert(value_of(timed, "resource"@) == value_of(m, "resource"@));
    assert(value_of(timed, "source_type"@) == value_of(m, "source_type"@));
    assert(value_of(timed, "host"@) == value_of(m, "host"@));
    lemma_unrouted(timed);
    let b = unrouted(timed);
    assert(value_of(b, "resource"@) == value_of(timed, "resource"@));
    lemma_left_beside(b, "resource"@);
    let back = log_written_back(ValueView::Object(b), metadata);
    assert(back.resource_attrs =~= Seq::empty());
    let one = back.with_routed("source_type"@, "source_type"@, value_of(timed, "source_type"@));
    if let Some(v) = value_of(timed, "source_type"@) {
        law_read_after_write(back.resource_attrs, "source_type"@, any_from_value(v));
    }
    if let Some(v) = value_of(timed, "host"@) {
        law_read_after_write(one.resource_attrs, "host.name"@, any_from_value(v));
    }
}

} // verus!
