//! What holds of events in messages: an event that is put into a message comes out of it as it was.
use vstd::prelude::*;

use crate::event::EventView;
use crate::keyed::ordered;
use crate::log::OtelLogView;
use crate::log_value::log_from_value;
use crate::log_value_laws::law_log_comes_back;
use crate::metadata::MetadataView;
use crate::metric_data::{MetricDataView, MetricSeriesView, MetricValueView};
use crate::metric_kind::{total_rate, Sample};
use crate::metric_new::{metric_of_parts, sums};
use crate::metric_ops::is_metric_parts;
use crate::metric_read::scales;
use crate::metric_tags::{shows, values_collected, values_without};
use crate::metric_value_laws::{data_is_kept, law_parts_come_back, tags_are_kept};
use crate::order_laws::{law_log_reads_plainly, law_span_reads_plainly};
use crate::otel_metric::keys_of;
use crate::span::OtelSpanView;
use crate::span_laws::law_span_round_trip;
use crate::span_value::span_from_value;
use crate::text::text_before;
use crate::time::{is_instant, lemma_timestamp_at};
use crate::value::ValueView;
use crate::value_laws::{is_stored, lemma_with_last};
use crate::wire::{
    decoded, encoded, encoded_fields, is_sound, law_wire_round_trip, readable, without_regexes,
};
use crate::wire_array::{event_readable, is_event_of, is_message, WireEventView};
use crate::wire_event::{
    data_decoded, decoded_or, is_metadata_of, known_fields, metadata_encoded, metadata_readable,
    metric_encoded, metric_readable, series_decoded, sorted_texts,
};

verus! {

/// A value without instants, regular expressions and NaNs comes out of a message as it was.
proof fn lemma_stored_is_sound(v: ValueView)
    requires
        is_stored(v),
    ensures
        is_sound(v),
        without_regexes(v) == v,
    decreases v,
{
    reveal_with_fuel(is_stored, 2);
    reveal_with_fuel(is_sound, 2);
    reveal_with_fuel(without_regexes, 2);
    match v {
        ValueView::Array(a) => {
            assert forall|i: int| 0 <= i < a.len() implies is_sound(#[trigger] a[i])
                && without_regexes(a[i]) == a[i] by {
                lemma_stored_is_sound(a[i]);
            }
            assert(without_regexes(v)->Array_0 =~= a);
        },
        ValueView::Object(m) => {
            assert forall|i: int| 0 <= i < m.len() implies is_sound((#[trigger] m[i]).1)
                && without_regexes(m[i].1) == m[i].1 by {
                lemma_stored_is_sound(m[i].1);
            }
            assert(without_regexes(v)->Object_0 =~= m);
        },
        _ => {},
    }
}

/// A log event whose object is put into a message comes out of it as it was, unless it is one that
/// cannot be told from that object.
pub proof fn law_log_message_round_trip(log: OtelLogView)
    requires
        log.wf(),
        log.is_kept(),
        log.is_routed(),
    ensures
        ({
            let w = encoded(ValueView::Object(log.canonical()));
            &&& readable(w)
            &&& log_from_value(decoded_or(Some(w), ValueView::Null), log.metadata) == log
        }),
{
    let v = ValueView::Object(log.canonical());
    law_log_reads_plainly(log);
    lemma_stored_is_sound(v);
    law_wire_round_trip(v);
    law_log_comes_back(log);
}

proof fn lemma_known_fields(m: Seq<(Seq<char>, ValueView)>)
    requires
        forall|i: int| 0 <= i < m.len() ==> is_stored((#[trigger] m[i]).1),
    ensures
        known_fields(encoded_fields(m)) == m,
        forall|i: int|
            0 <= i < m.len() ==> readable((#[trigger] encoded_fields(m)[i]).1),
    decreases m.len(),
{
    let w = encoded_fields(m);
    assert forall|i: int| 0 <= i < m.len() implies readable((#[trigger] w[i]).1) && decoded(w[i].1)
        == Some(m[i].1) by {
        assert(is_stored(m[i].1));
        lemma_stored_is_sound(m[i].1);
        law_wire_round_trip(m[i].1);
    }
    if m.len() == 0 {
        assert(m =~= Seq::empty());
    } else {
        let before = m.drop_last();
        assert(w.drop_last() =~= encoded_fields(before));
        assert forall|i: int| 0 <= i < before.len() implies is_stored((#[trigger] before[i]).1) by {
            assert(before[i] == m[i]);
        }
        lemma_known_fields(before);
        assert(w.last() == w[m.len() - 1]);
        assert(m =~= before.push(m.last()));
    }
}

/// A span event whose fields are put into a message comes out of it as it was, unless it is one that
/// cannot be told from those fields.
pub proof fn law_span_message_round_trip(span: OtelSpanView)
    requires
        span.wf(),
        span.is_kept(),
    ensures
        ({
            let w = encoded_fields(span.canonical());
            &&& forall|i: int| 0 <= i < w.len() ==> readable((#[trigger] w[i]).1)
            &&& span_from_value(ValueView::Object(known_fields(w)), span.metadata) == span
        }),
{
    let m = span.canonical();
    law_span_reads_plainly(span);
    reveal_with_fuel(is_stored, 2);
    assert forall|i: int| 0 <= i < m.len() implies is_stored((#[trigger] m[i]).1) by {}
    lemma_known_fields(m);
    law_span_round_trip(span);
}

/// Whether the metadata of an event can be told from what stands of them in a message.
pub open spec fn metadata_is_kept(m: MetadataView) -> bool {
    &&& is_sound(m.value)
    &&& without_regexes(m.value) == m.value
    &&& m.schema_definition.is_default_with(Seq::empty())
    &&& m.dropped_fields.len() == 0
    &&& m.source_event_id matches Some(id) ==> id.len() == 16
}

/// Metadata that are put into a message come out of it as they were, with the definition that every
/// event meets.
pub proof fn law_metadata_message_round_trip(m: MetadataView)
    requires
        metadata_is_kept(m),
    ensures
        metadata_readable(Some(metadata_encoded(m))),
        is_metadata_of(m, metadata_encoded(m)),
        forall|back: MetadataView| #[trigger]
            is_metadata_of(back, metadata_encoded(m)) ==> back == (MetadataView {
                schema_definition: back.schema_definition,
                ..m
            }) && back.schema_definition.is_default_with(Seq::empty()),
{
    law_wire_round_trip(m.value);
    if m.secrets.len() == 0 {
        assert(m.secrets =~= Seq::empty());
    }
    assert forall|back: MetadataView| #[trigger] is_metadata_of(back, metadata_encoded(m)) implies back
        == (MetadataView { schema_definition: back.schema_definition, ..m }) by {
        assert(back.dropped_fields =~= m.dropped_fields);
        assert(back.secrets =~= m.secrets);
    }
}

/// Whether texts stand in order, none of them twice.
pub open spec fn texts_ordered(texts: Seq<Seq<char>>) -> bool {
    forall|i: int, j: int|
        0 <= i < j < texts.len() ==> text_before(#[trigger] texts[i], #[trigger] texts[j])
}

pub proof fn lemma_sorted_stay(texts: Seq<Seq<char>>)
    requires
        texts_ordered(texts),
    ensures
        keys_of(texts).len() == texts.len(),
        forall|i: int| 0 <= i < texts.len() ==> #[trigger] keys_of(texts)[i] == (texts[i], true),
    decreases texts.len(),
{
    if texts.len() > 0 {
        let before = texts.drop_last();
        assert forall|i: int, j: int| 0 <= i < j < before.len() implies text_before(
            #[trigger] before[i],
            #[trigger] before[j],
        ) by {
            assert(before[i] == texts[i] && before[j] == texts[j]);
        }
        lemma_sorted_stay(before);
        let k = keys_of(before);
        let last = texts[texts.len() - 1];
        let all = k.push((last, true));
        assert(ordered(all)) by {
            assert forall|i: int, j: int| 0 <= i < j < all.len() implies text_before(
                #[trigger] all[i].0,
                #[trigger] all[j].0,
            ) by {
                assert(all[i].0 == texts[i] && all[j].0 == texts[j]);
            }
        }
        lemma_with_last(k, last, true);
        assert(keys_of(texts) == all);
    }
}

/// Whether a tag has no value twice.
pub open spec fn values_differ(values: Seq<Option<Seq<char>>>) -> bool {
    forall|i: int, j: int|
        0 <= i < j < values.len() ==> #[trigger] values[i] != #[trigger] values[j]
}

proof fn lemma_not_there(s: Seq<Option<Seq<char>>>, v: Option<Seq<char>>)
    requires
        forall|i: int| 0 <= i < s.len() ==> #[trigger] s[i] != v,
    ensures
        values_without(s, v) == s,
    decreases s.len(),
{
    if s.len() == 0 {
        assert(s =~= Seq::empty());
    } else {
        let before = s.drop_last();
        assert forall|i: int| 0 <= i < before.len() implies #[trigger] before[i] != v by {
            assert(before[i] == s[i]);
        }
        lemma_not_there(before, v);
        assert(s[s.len() - 1] != v);
        assert(s =~= before.push(s.last()));
    }
}

/// Values of which none is there twice are collected as they are.
pub proof fn lemma_values_stay(values: Seq<Option<Seq<char>>>)
    requires
        values_differ(values),
    ensures
        values_collected(values) == values,
    decreases values.len(),
{
    if values.len() == 0 {
        assert(values =~= Seq::empty());
    } else {
        let before = values.drop_last();
        assert forall|i: int, j: int| 0 <= i < j < before.len() implies #[trigger] before[i]
            != #[trigger] before[j] by {
            assert(before[i] == values[i] && before[j] == values[j]);
        }
        lemma_values_stay(before);
        let last = values[values.len() - 1];
        assert forall|i: int| 0 <= i < before.len() implies #[trigger] before[i] != last by {
            assert(before[i] == values[i]);
        }
        lemma_not_there(before, last);
        assert(values =~= before.push(last));
    }
}

/// Whether a metric can be told from what stands of it in a message: no name space and no interval is
/// empty, no tags are there only to be empty, no tag has a value twice, and a set is in order.
pub open spec fn metric_is_kept(s: MetricSeriesView, d: MetricDataView) -> bool {
    &&& s.namespace matches Some(ns) ==> ns.len() > 0
    &&& s.tags matches Some(tags) ==> tags.len() > 0 && forall|i: int|
        0 <= i < tags.len() ==> values_differ((#[trigger] tags[i]).1)
    &&& d.timestamp matches Some(t) ==> is_instant(t.spec_secs() as int, t.spec_nanos() as int)
    &&& d.interval_ms matches Some(ms) ==> ms > 0
    &&& d.value matches MetricValueView::SetOf { values } ==> texts_ordered(values)
}

/// A metric that is put into a message comes out of it as it was, unless it is one that cannot be told
/// from what stands of it there.
pub proof fn law_metric_message_round_trip(s: MetricSeriesView, d: MetricDataView, m: MetadataView)
    requires
        metric_is_kept(s, d),
        metadata_is_kept(m),
    ensures
        metric_readable(metric_encoded(s, d, m)),
        series_decoded(metric_encoded(s, d, m)) == s,
        data_decoded(metric_encoded(s, d, m)) == d,
{
    law_metadata_message_round_trip(m);
    let w = metric_encoded(s, d, m);
    if let Some(tags) = s.tags {
        let back = series_decoded(w).tags->0;
        assert forall|i: int| 0 <= i < tags.len() implies back[i] == tags[i] by {
            assert(values_differ(tags[i].1));
            lemma_values_stay(tags[i].1);
        }
        assert(back =~= tags);
    }
    if let Some(t) = d.timestamp {
        lemma_timestamp_at(t);
    }
    if let MetricValueView::SetOf { values } = d.value {
        lemma_sorted_stay(values);
        assert(sorted_texts(values) =~= values);
    }
}

/// Whether an event can be told from what stands of it in a message, where `text` is the text of a
/// double and `pow` gives the bound for a scale and an exponent.
pub open spec fn event_is_kept(
    event: EventView,
    text: spec_fn(u64) -> Seq<char>,
    pow: spec_fn(i32, i32) -> u64,
) -> bool {
    &&& metadata_is_kept(event.metadata())
    &&& match event {
        EventView::Log(log) => log.wf() && log.is_kept() && log.is_routed(),
        EventView::Trace(span) => span.wf() && span.is_kept(),
        EventView::Metric(m) => {
            &&& metric_is_kept(m.series(text), m.data(pow))
            &&& m.data(pow).value matches MetricValueView::Distribution { samples, .. } ==> total_rate(
                samples,
            ) <= u32::MAX
        },
    }
}

/// The event that an event becomes in a message: of a metric event its name, its tags and its data are
/// left, and a metric event is made of them again. `total` sums up the values of samples.
pub open spec fn event_carried(
    event: EventView,
    text: spec_fn(u64) -> Seq<char>,
    pow: spec_fn(i32, i32) -> u64,
    total: spec_fn(Seq<Sample>) -> u64,
) -> EventView {
    match event {
        EventView::Metric(m) => EventView::Metric(
            metric_of_parts(m.series(text), m.data(pow), m.metadata, total),
        ),
        _ => event,
    }
}

/// An event that is put into a message comes out of it as it was, with the definition that every event
/// meets, if it can be told from what stands of it in the message.
pub proof fn law_event_message_round_trip<
    F: Fn(u64) -> String,
    G: Fn(i32, i32) -> u64,
    H: Fn(&Vec<Sample>) -> u64,
>(
    event: EventView,
    back: EventView,
    w: WireEventView,
    shown: F,
    power: G,
    sum: H,
    text: spec_fn(u64) -> Seq<char>,
    pow: spec_fn(i32, i32) -> u64,
    total: spec_fn(Seq<Sample>) -> u64,
)
    requires
        event_is_kept(event, text, pow),
        shows(shown, text),
        scales(power, pow),
        sums(sum, total),
        is_message(event, shown, power, w),
        is_event_of(back, w, sum),
    ensures
        event_readable(w),
        back == event_carried(event, text, pow, total).with_metadata(back.metadata()),
        back.metadata() == (MetadataView {
            schema_definition: back.metadata().schema_definition,
            ..event.metadata()
        }),
        back.metadata().schema_definition.is_default_with(Seq::empty()),
{
    law_metadata_message_round_trip(event.metadata());
    match event {
        EventView::Log(log) => {
            law_log_message_round_trip(log);
        },
        EventView::Trace(span) => {
            law_span_message_round_trip(span);
        },
        EventView::Metric(m) => {
            assert(m.tags_shown(shown, text));
            law_metric_message_round_trip(m.series(text), m.data(pow), m.metadata);
        },
    }
}

/// A metric event that is made of a name, tags, data and metadata and put into a message comes out of
/// it as one that is made of the same, with the definition that every event meets, whatever texts and
/// bounds doubles have.
pub proof fn law_metric_event_message_round_trip<
    F: Fn(u64) -> String,
    G: Fn(i32, i32) -> u64,
    H: Fn(&Vec<Sample>) -> u64,
>(
    series: MetricSeriesView,
    data: MetricDataView,
    metadata: MetadataView,
    total: spec_fn(Seq<Sample>) -> u64,
    back: EventView,
    w: WireEventView,
    shown: F,
    power: G,
    sum: H,
)
    requires
        tags_are_kept(series.tags),
        data_is_kept(data),
        metric_is_kept(series, data),
        metadata_is_kept(metadata),
        data.value matches MetricValueView::Distribution { samples, .. } ==> total_rate(samples)
            <= u32::MAX,
        is_message(
            EventView::Metric(metric_of_parts(series, data, metadata, total)),
            shown,
            power,
            w,
        ),
        is_event_of(back, w, sum),
    ensures
        event_readable(w),
        exists|again: spec_fn(Seq<Sample>) -> u64|
            back == EventView::Metric(
                #[trigger] metric_of_parts(series, data, back.metadata(), again),
            ) && data.is_totalled(sum, again),
        back.metadata() == (MetadataView {
            schema_definition: back.metadata().schema_definition,
            ..metadata
        }),
        back.metadata().schema_definition.is_default_with(Seq::empty()),
{
    let m = metric_of_parts(series, data, metadata, total);
    let message = w->Metric_0;
    let (s, d) = choose|s: MetricSeriesView, d: MetricDataView|
        message == #[trigger] metric_encoded(s, d, m.metadata) && is_metric_parts(
            m,
            shown,
            power,
            s,
            d,
        );
    law_parts_come_back(series, data, metadata, total, shown, power, s, d);
    law_metadata_message_round_trip(metadata);
    law_metric_message_round_trip(series, data, metadata);
}

} // verus!
