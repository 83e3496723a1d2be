//! What holds of arrays of events, of the tags by which events are counted, of the time and the body of
//! logs, and of the fields that say where a `tracing` event comes from.
use vstd::prelude::*;

use crate::any_value::{any_from_value, AnyView};
use crate::array::EventArrayView;
use crate::event::EventView;
use crate::event_tags::{OptionalTagView, Tags};
use crate::keyed::{ordered, value_of, with_entry};
use crate::log::OtelLogView;
use crate::log_merge::{body_text, fields_merged, merged_body};
use crate::log_ops::with_vector_source;
use crate::map_laws::{
    law_read_after_remove, law_read_after_write, lemma_entry_found, lemma_found_entry,
};
use crate::metric::OtelMetricView;
use crate::path::stored;
use crate::path_laws::in_order;
use crate::path_text::two_fields;
use crate::seen_metric_laws::{field_of, shows_text};
use crate::text::{lossy, signed_decimal};
use crate::time::{epoch_nanos, lemma_instant, Timestamp};
use crate::tracing_event::{canonical_name, TracingMetadata};
use crate::value::ValueView;

verus! {

/// An array of one event holds just that event. One that takes an event holds it at its end, after all
/// that it held before; it takes an event exactly where it is of the kind of those that it holds.
pub proof fn law_array_takes_events(a: EventArrayView, e: EventView)
    ensures
        EventArrayView::of_event(e).events() == seq![e],
        EventArrayView::of_event(e).takes(e),
        a.takes(e) ==> a.with_event(e).events() == a.events().push(e) && a.with_event(e).takes(e),
        a.takes(e) <==> match e {
            EventView::Log(_) => a is Logs,
            EventView::Metric(_) => a is Metrics,
            EventView::Trace(_) => a is Traces,
        },
{
    assert(EventArrayView::of_event(e).events() =~= seq![e]);
    if a.takes(e) {
        assert(a.with_event(e).events() =~= a.events().push(e));
    }
}

/// The events of an array are those that it holds, each of its kind, in order.
pub proof fn law_array_holds_events(a: EventArrayView, i: int)
    requires
        0 <= i < a.events().len(),
    ensures
        match a {
            EventArrayView::Logs(s) => a.events().len() == s.len() && a.events()[i]
                == EventView::Log(s[i]),
            EventArrayView::Metrics(s) => a.events().len() == s.len() && a.events()[i]
                == EventView::Metric(s[i]),
            EventArrayView::Traces(s) => a.events().len() == s.len() && a.events()[i]
                == EventView::Trace(s[i]),
        },
{
}

/// An event is counted by its source and by the service that its resource names, where these are asked
/// for; what is not known is counted as such.
pub proof fn law_events_are_counted(log: OtelLogView, metric: OtelMetricView, tags: Tags)
    ensures
        tags.emit_source ==> log.event_tags(tags).source == OptionalTagView::Specified(
            log.metadata.source_id,
        ),
        !tags.emit_source ==> log.event_tags(tags).source is Ignored,
        !tags.emit_service ==> log.event_tags(tags).service is Ignored,
        tags.emit_service ==> (log.event_tags(tags).service matches OptionalTagView::Specified(s)
            && match value_of(log.resource_attrs, "service.name"@) {
            Some(AnyView::Str(name)) => s == Some(name),
            _ => s is None,
        }),
        tags.emit_source ==> metric.event_tags(tags).source == OptionalTagView::Specified(
            metric.metadata.source_id,
        ),
        !tags.emit_source ==> metric.event_tags(tags).source is Ignored,
        !tags.emit_service ==> metric.event_tags(tags).service is Ignored,
        tags.emit_service ==> (metric.event_tags(tags).service matches OptionalTagView::Specified(s)
            && match value_of(metric.resource_attrs, "service.name"@) {
            Some(AnyView::Str(name)) => s == Some(name),
            _ => s is None,
        }),
{
}

/// The time of a log whose schema names no field for it is that of its record, and where that is unknown
/// that of its observation; where both are unknown it has none. A time that is set is the one it then has.
pub proof fn law_time_of_log(e: OtelLogView, n: u64)
    requires
        e.meant("timestamp"@) is None,
    ensures
        e.record.time_unix_nano != 0 ==> (e.timestamp() matches Some(ValueView::Timestamp(t))
            && t.spec_secs() * 1_000_000_000 + t.spec_nanos() == e.record.time_unix_nano),
        e.record.time_unix_nano == 0 && e.record.observed_time_unix_nano != 0 ==> (
        e.timestamp() matches Some(ValueView::Timestamp(t)) && t.spec_secs() * 1_000_000_000
            + t.spec_nanos() == e.record.observed_time_unix_nano),
        e.record.time_unix_nano == 0 && e.record.observed_time_unix_nano == 0 ==> e.timestamp() is None,
        e.with_time(n).record.time_unix_nano == n,
        e.with_observed_time(n).record.observed_time_unix_nano == n,
        e.with_time(n).record.observed_time_unix_nano == e.record.observed_time_unix_nano,
        e.with_observed_time(n).record.time_unix_nano == e.record.time_unix_nano,
{
    let (t, o) = (e.record.time_unix_nano, e.record.observed_time_unix_nano);
    lemma_instant((t / 1_000_000_000) as i64, (t % 1_000_000_000) as u32);
    lemma_instant((o / 1_000_000_000) as i64, (o % 1_000_000_000) as u32);
}

/// A body that another one is merged into: two texts become one, the first before the second; where there
/// is no body the other one is taken; any other body stays.
pub proof fn law_bodies_are_merged(a: Seq<char>, b: Seq<char>, body: AnyView, other: Option<AnyView>)
    ensures
        merged_body(Some(AnyView::Str(a)), Some(AnyView::Str(b))) == Some(AnyView::Str(a + b)),
        merged_body(None, other) == other,
        merged_body(Some(body), None) == Some(body),
        !(body is Str) ==> merged_body(Some(body), other) == Some(body),
        other matches Some(o) ==> (!(o is Str) ==> merged_body(Some(body), other) == Some(body)),
{
}

/// The text of a body is the text that it is, the word for a truth value, an integer in decimal notation,
/// and bytes as text; nothing where it is empty or missing.
pub proof fn law_body_in_words(rendered: Seq<char>, s: Seq<char>, i: i64, b: Seq<u8>)
    ensures
        body_text(Some(AnyView::Str(s)), rendered) == s,
        body_text(Some(AnyView::Int(i)), rendered) == signed_decimal(i as int),
        body_text(Some(AnyView::Bool(true)), rendered) == "true"@,
        body_text(Some(AnyView::Bool(false)), rendered) == "false"@,
        body_text(Some(AnyView::Bytes(b)), rendered) == lossy(b),
        body_text(Some(AnyView::Empty), rendered).len() == 0,
        body_text(None, rendered).len() == 0,
{
}

/// A field without a place in the record that is merged from one log into another: the second loses it.
/// The first has the bytes of both, its own first, where both are bytes; else what the second had, and
/// what it had itself where the second had none.
pub proof fn law_field_is_merged(into: OtelLogView, from: OtelLogView, name: Seq<char>)
    requires
        ordered(into.record_attrs),
        ordered(from.record_attrs),
        !OtelLogView::is_record_field(name),
    ensures
        ({
            let (a, b) = fields_merged(into, from, seq![name]);
            &&& value_of(b.record_attrs, name) is None
            &&& match (into.field(name), from.field(name)) {
                (_, None) => a == into,
                (None, Some(v)) => value_of(a.record_attrs, name) == Some(any_from_value(v)),
                (Some(u), Some(v)) => value_of(a.record_attrs, name) == Some(
                    any_from_value(
                        match (u, v) {
                            (ValueView::Bytes(x), ValueView::Bytes(y)) => ValueView::Bytes(x + y),
                            _ => v,
                        },
                    ),
                ),
            }
        }),
{
    reveal_with_fuel(fields_merged, 2);
    assert(seq![name].drop_last() =~= Seq::empty());
    law_read_after_remove(from.record_attrs, name);
    if let Some(v) = from.replaced(name) {
        let merged = match into.field(name) {
            None => v,
            Some(current) => current.merged(v),
        };
        law_read_after_write(into.record_attrs, name, any_from_value(merged));
    }
}

/// The fields that say where a `tracing` event comes from hold its level, its target and its module as
/// texts, and whether it is an event or a span. The field with its message is the body.
pub proof fn law_tracing_fields(m: TracingMetadata<'_>, name: Seq<char>)
    ensures
        shows_text(value_of(m.fields(), "level"@), m.level@),
        shows_text(value_of(m.fields(), "target"@), m.target@),
        m.module matches Some(p) ==> shows_text(value_of(m.fields(), "module_path"@), p@),
        m.module is None ==> value_of(m.fields(), "module_path"@) == Some(ValueView::Null),
        m.is_event ==> shows_text(value_of(m.fields(), "kind"@), "event"@),
        !m.is_event && m.is_span ==> shows_text(value_of(m.fields(), "kind"@), "span"@),
        !m.is_event && !m.is_span ==> value_of(m.fields(), "kind"@) == Some(ValueView::Null),
        canonical_name("message"@) == "body"@,
        name != "message"@ ==> canonical_name(name) == name,
{
    reveal_strlit("kind");
    reveal_strlit("level");
    reveal_strlit("module_path");
    reveal_strlit("target");
    assert("kind"@.len() == 4 && "level"@.len() == 5 && "module_path"@.len() == 11 && "target"@.len()
        == 6);
    let kind = if m.is_event {
        ValueView::text("event"@)
    } else if m.is_span {
        ValueView::text("span"@)
    } else {
        ValueView::Null
    };
    let module = match m.module {
        Some(p) => ValueView::text(p@),
        None => ValueView::Null,
    };
    let none = Seq::<(Seq<char>, ValueView)>::empty();
    law_read_after_write(none, "kind"@, kind);
    let m1 = with_entry(none, "kind"@, kind);
    law_read_after_write(m1, "level"@, ValueView::text(m.level@));
    let m2 = with_entry(m1, "level"@, ValueView::text(m.level@));
    law_read_after_write(m2, "module_path"@, module);
    let m3 = with_entry(m2, "module_path"@, module);
    law_read_after_write(m3, "target"@, ValueView::text(m.target@));
}

/// A log whose source was noted in its metadata has there, under `vector`, the type of the source and when
/// it came in.
pub proof fn law_source_is_noted(v: ValueView, source: Seq<char>, now: Timestamp)
    requires
        in_order(v),
    ensures
        ({
            let after = Some(with_vector_source(v, source, now));
            &&& field_of(field_of(after, "vector"@), "ingest_timestamp"@) == Some(
                ValueView::Timestamp(now),
            )
            &&& shows_text(field_of(field_of(after, "vector"@), "source_type"@), source)
        }),
{
    reveal_strlit("source_type");
    reveal_strlit("ingest_timestamp");
    assert("source_type"@.len() == 11 && "ingest_timestamp"@.len() == 16);
    let m = match v {
        ValueView::Object(m) => m,
        _ => Seq::empty(),
    };
    let o = match value_of(m, "vector"@) {
        Some(ValueView::Object(o)) => o,
        _ => Seq::empty(),
    };
    if value_of(m, "vector"@) is Some {
        lemma_found_entry(m, "vector"@);
        let i = choose|i: int| 0 <= i < m.len() && m[i].0 == "vector"@;
        lemma_entry_found(m, i);
        reveal_with_fuel(in_order, 3);
        assert(in_order(m[i].1));
    }
    assert(ordered(o));
    reveal_with_fuel(stored, 3);
    let p = two_fields("vector"@, "source_type"@).path;
    let q = two_fields("vector"@, "ingest_timestamp"@).path;
    assert(p.drop_first().drop_first() =~= Seq::empty());
    assert(q.drop_first().drop_first() =~= Seq::empty());
    let text = ValueView::text(source);
    law_read_after_write(o, "source_type"@, text);
    let o1 = with_entry(o, "source_type"@, text);
    law_read_after_write(m, "vector"@, ValueView::Object(o1));
    let m1 = with_entry(m, "vector"@, ValueView::Object(o1));
    assert(stored(Some(v), p, text) == ValueView::Object(m1));
    law_read_after_write(o1, "ingest_timestamp"@, ValueView::Timestamp(now));
    let o2 = with_entry(o1, "ingest_timestamp"@, ValueView::Timestamp(now));
    law_read_after_write(m1, "vector"@, ValueView::Object(o2));
    let m2 = with_entry(m1, "vector"@, ValueView::Object(o2));
    assert(with_vector_source(v, source, now) == ValueView::Object(m2));
}

/// A log whose source was noted has its type among the attributes of its resource, and the time of its
/// observation.
pub proof fn law_source_is_set(e: OtelLogView, source: Seq<char>, now: Timestamp)
    requires
        ordered(e.resource_attrs),
        epoch_nanos(now) >= 0,
    ensures
        ({
            let after = e.with_source(source, now);
            &&& value_of(after.resource_attrs, "source_type"@) == Some(AnyView::Str(source))
            &&& after.record.observed_time_unix_nano == epoch_nanos(now)
            &&& after.record.time_unix_nano == e.record.time_unix_nano
            &&& after.record_attrs == e.record_attrs
        }),
{
    law_read_after_write(e.resource_attrs, "source_type"@, AnyView::Str(source));
}

/// What a log holds for a meaning is the field that was dropped for it, or else what stands where its schema
/// says that fields of that meaning stand; nothing where the schema does not say.
pub proof fn law_meaning_is_found(e: OtelLogView, meaning: Seq<char>)
    ensures
        value_of(e.metadata.dropped_fields, meaning) matches Some(v) ==> e.meant(meaning) == Some(v),
        value_of(e.metadata.dropped_fields, meaning) is None ==> (value_of(
            e.metadata.schema_definition.meanings,
            meaning,
        ) matches Some(p) ==> e.meant(meaning) == e.at(p)),
        value_of(e.metadata.dropped_fields, meaning) is None && value_of(
            e.metadata.schema_definition.meanings,
            meaning,
        ) is None ==> e.meant(meaning) is None,
{
}

} // verus!
