//! A span event that a program leaves alone comes back as it was.
use vstd::prelude::*;

use crate::any_value::{object_from_kvs, AnyView};
use crate::attributes::object_from_attrs;
use crate::canonical::{full_resource, full_scope};
use crate::canonical_laws::all_kept;
use crate::event::EventView;
use crate::hex::hex_digits;
use crate::keyed::{ordered, value_of, with_entry};
use crate::log::{opt_resource_stripped, opt_scope_stripped, resource_attrs_of, scope_attrs_carried};
use crate::log_laws::lemma_nanos_set;
use crate::map_laws::law_read_after_write;
use crate::otlp_span::{SpanEventView, SpanLinkView, SpanView, StatusView};
use crate::parts_laws::{resource_stands_apart, scope_stands_apart};
use crate::span::OtelSpanView;
use crate::target::{TargetEventsView, TargetView};
use crate::target_laws::{
    law_id_round_trip, lemma_attrs_seen, lemma_kvs_seen, lemma_origin_seen, lemma_text_seen,
};
use crate::target_value::{
    resource_seen, scope_seen, span_event_object, span_event_seen, span_events_seen,
    span_link_object, span_link_seen, span_links_seen, status_seen, status_seen_as, with_int,
    with_origin, with_str,
};
use crate::time::wrap_i64;
use crate::value::ValueView;
use crate::value_laws::is_kept;

verus! {

/// Whether the attributes of an event of a span can be told from what they are seen as.
pub open spec fn event_is_kept(e: SpanEventView) -> bool {
    is_kept(AnyView::Kvlist(e.attributes))
}

/// Whether the attributes of a link of a span can be told from what they are seen as, and it has no
/// flags, which are not seen.
pub open spec fn link_is_kept(l: SpanLinkView) -> bool {
    is_kept(AnyView::Kvlist(l.attributes)) && l.flags == 0
}

impl OtelSpanView {
    /// Whether a program sees all of the event: each value can be told from what it is read as, and
    /// no flags are set.
    pub open spec fn is_all_seen(&self) -> bool {
        &&& self.span.attributes.len() == 0
        &&& self.span.flags == 0
        &&& forall|i: int|
            0 <= i < self.span.events.len() ==> event_is_kept(#[trigger] self.span.events[i])
        &&& forall|i: int|
            0 <= i < self.span.links.len() ==> link_is_kept(#[trigger] self.span.links[i])
        &&& all_kept(self.span_attrs)
        &&& all_kept(self.resource_attrs)
        &&& all_kept(self.scope_attrs)
        &&& resource_stands_apart(self.resource, self.resource_attrs)
        &&& scope_stands_apart(self.scope, self.scope_attrs)
    }
}

pub proof fn lemma_span_seen_names()
    ensures
        "name"@.len() == 4,
        "name"@[0] == 'n',
        "kind"@.len() == 4,
        "kind"@[0] == 'k',
        "code"@.len() == 4,
        "flags"@.len() == 5,
        "flags"@[0] == 'f',
        "links"@.len() == 5,
        "links"@[0] == 'l',
        "scope"@.len() == 5,
        "scope"@[0] == 's',
        "events"@.len() == 6,
        "events"@[0] == 'e',
        "status"@.len() == 6,
        "status"@[0] == 's',
        "span_id"@.len() == 7,
        "message"@.len() == 7,
        "trace_id"@.len() == 8,
        "trace_id"@[0] == 't',
        "resource"@.len() == 8,
        "resource"@[0] == 'r',
        "attributes"@.len() == 10,
        "trace_state"@.len() == 11,
        "parent_span_id"@.len() == 14,
        "parent_span_id"@[0] == 'p',
        "time_unix_nano"@.len() == 14,
        "time_unix_nano"@[0] == 't',
        "end_time_unix_nano"@.len() == 18,
        "dropped_links_count"@.len() == 19,
        "start_time_unix_nano"@.len() == 20,
        "start_time_unix_nano"@[0] == 's',
        "dropped_events_count"@.len() == 20,
        "dropped_events_count"@[0] == 'd',
        "dropped_attributes_count"@.len() == 24,
{
    reveal_strlit("name");
    reveal_strlit("kind");
    reveal_strlit("code");
    reveal_strlit("flags");
    reveal_strlit("links");
    reveal_strlit("scope");
    reveal_strlit("events");
    reveal_strlit("status");
    reveal_strlit("span_id");
    reveal_strlit("message");
    reveal_strlit("trace_id");
    reveal_strlit("resource");
    reveal_strlit("attributes");
    reveal_strlit("trace_state");
    reveal_strlit("parent_span_id");
    reveal_strlit("time_unix_nano");
    reveal_strlit("end_time_unix_nano");
    reveal_strlit("dropped_links_count");
    reveal_strlit("start_time_unix_nano");
    reveal_strlit("dropped_events_count");
    reveal_strlit("dropped_attributes_count");
}

/// The entries of a map after a sequence of writes under different keys: each key holds what was
/// written.
pub open spec fn written<V>(s: Seq<(Seq<char>, V)>, writes: Seq<(Seq<char>, V)>) -> Seq<(Seq<char>, V)>
    decreases writes.len(),
{
    if writes.len() == 0 {
        s
    } else {
        with_entry(written(s, writes.drop_last()), writes.last().0, writes.last().1)
    }
}

pub open spec fn keys_differ<V>(writes: Seq<(Seq<char>, V)>) -> bool {
    forall|i: int, j: int|
        0 <= i < j < writes.len() ==> (#[trigger] writes[i]).0 != (#[trigger] writes[j]).0
}

pub proof fn lemma_written<V>(writes: Seq<(Seq<char>, V)>)
    requires
        keys_differ(writes),
    ensures
        ordered(written(Seq::empty(), writes)),
        forall|i: int|
            0 <= i < writes.len() ==> value_of(
                written(Seq::empty(), writes),
                (#[trigger] writes[i]).0,
            ) == Some(writes[i].1),
        forall|k: Seq<char>|
            (forall|i: int| 0 <= i < writes.len() ==> (#[trigger] writes[i]).0 != k)
                ==> #[trigger] value_of(written(Seq::empty(), writes), k) is None,
    decreases writes.len(),
{
    let all = written(Seq::empty(), writes);
    if writes.len() > 0 {
        let before = writes.drop_last();
        let n = writes.len() - 1;
        assert forall|i: int, j: int| 0 <= i < j < before.len() implies (#[trigger] before[i]).0 != (
        #[trigger] before[j]).0 by {
            assert(before[i] == writes[i] && before[j] == writes[j]);
        }
        lemma_written(before);
        let b = written(Seq::empty(), before);
        law_read_after_write(b, writes[n].0, writes[n].1);
        assert forall|i: int| 0 <= i < writes.len() implies value_of(all, (#[trigger] writes[i]).0)
            == Some(writes[i].1) by {
            if i < n {
                assert(before[i] == writes[i]);
                assert(writes[i].0 != writes[n].0);
            }
        }
        assert forall|k: Seq<char>|
            (forall|i: int| 0 <= i < writes.len() ==> (#[trigger] writes[i]).0 != k)
            implies #[trigger] value_of(all, k) is None by {
            assert(writes[n].0 != k);
            assert forall|i: int| 0 <= i < before.len() implies (#[trigger] before[i]).0 != k by {
                assert(before[i] == writes[i]);
            }
            assert(value_of(b, k) is None);
        }
    }
}

proof fn lemma_event_seen(e: SpanEventView)
    requires
        event_is_kept(e),
    ensures
        span_event_object(e) matches ValueView::Object(m) && span_event_seen(m) == e,
{
    lemma_span_seen_names();
    let w = seq![
        ("time_unix_nano"@, ValueView::Integer(wrap_i64(e.time_unix_nano as int))),
        ("name"@, ValueView::text(e.name)),
        ("attributes"@, ValueView::Object(object_from_kvs(e.attributes))),
        ("dropped_attributes_count"@, ValueView::Integer(e.dropped_attributes_count as i64)),
    ];
    lemma_written(w);
    reveal_with_fuel(written, 5);
    let m = span_event_object(e)->Object_0;
    assert(w.drop_last().drop_last().drop_last().drop_last() =~= Seq::empty());
    assert(m == written(Seq::empty(), w));
    assert(value_of(m, w[0].0) == Some(w[0].1));
    assert(value_of(m, w[1].0) == Some(w[1].1));
    assert(value_of(m, w[2].0) == Some(w[2].1));
    assert(value_of(m, w[3].0) == Some(w[3].1));
    lemma_nanos_set(e.time_unix_nano);
    lemma_text_seen(e.name);
    lemma_kvs_seen(e.attributes);
}

proof fn lemma_link_seen(l: SpanLinkView)
    requires
        link_is_kept(l),
    ensures
        span_link_object(l) matches ValueView::Object(m) && span_link_seen(m) == l,
{
    lemma_span_seen_names();
    let w = seq![
        ("trace_id"@, ValueView::Bytes(hex_digits(l.trace_id))),
        ("span_id"@, ValueView::Bytes(hex_digits(l.span_id))),
        ("trace_state"@, ValueView::text(l.trace_state)),
        ("attributes"@, ValueView::Object(object_from_kvs(l.attributes))),
        ("dropped_attributes_count"@, ValueView::Integer(l.dropped_attributes_count as i64)),
    ];
    lemma_written(w);
    reveal_with_fuel(written, 6);
    let m = span_link_object(l)->Object_0;
    assert(w.drop_last().drop_last().drop_last().drop_last().drop_last() =~= Seq::empty());
    assert(m == written(Seq::empty(), w));
    assert(value_of(m, w[0].0) == Some(w[0].1));
    assert(value_of(m, w[1].0) == Some(w[1].1));
    assert(value_of(m, w[2].0) == Some(w[2].1));
    assert(value_of(m, w[3].0) == Some(w[3].1));
    assert(value_of(m, w[4].0) == Some(w[4].1));
    assert(value_of(m, "flags"@) is None);
    law_id_round_trip(l.trace_id);
    law_id_round_trip(l.span_id);
    lemma_text_seen(l.trace_state);
    lemma_kvs_seen(l.attributes);
}

proof fn lemma_status_seen(s: StatusView)
    ensures
        status_seen(Some(status_seen_as(s))) == Some(s),
{
    lemma_span_seen_names();
    let none = Seq::<(Seq<char>, ValueView)>::empty();
    law_read_after_write(none, "message"@, ValueView::text(s.message));
    let m = with_str(none, "message"@, s.message);
    law_read_after_write(m, "code"@, ValueView::Integer(s.code as i64));
    let full = with_int(m, "code"@, s.code as i64);
    assert(value_of(full, "message"@) == value_of(m, "message"@));
    lemma_text_seen(s.message);
}

proof fn lemma_events_seen(events: Seq<SpanEventView>)
    requires
        forall|i: int| 0 <= i < events.len() ==> event_is_kept(#[trigger] events[i]),
    ensures
        span_events_seen(events.map_values(|e: SpanEventView| span_event_object(e))) == events,
    decreases events.len(),
{
    let items = events.map_values(|e: SpanEventView| span_event_object(e));
    if events.len() == 0 {
        assert(events =~= Seq::empty());
    } else {
        let before = events.drop_last();
        assert(items.drop_last() =~= before.map_values(|e: SpanEventView| span_event_object(e)));
        assert forall|i: int| 0 <= i < before.len() implies event_is_kept(#[trigger] before[i]) by {
            assert(before[i] == events[i]);
        }
        lemma_events_seen(before);
        assert(event_is_kept(events[events.len() - 1]));
        lemma_event_seen(events.last());
        assert(items.last() == span_event_object(events.last()));
        assert(events =~= before.push(events.last()));
    }
}

proof fn lemma_links_seen(links: Seq<SpanLinkView>)
    requires
        forall|i: int| 0 <= i < links.len() ==> link_is_kept(#[trigger] links[i]),
    ensures
        span_links_seen(links.map_values(|l: SpanLinkView| span_link_object(l))) == links,
    decreases links.len(),
{
    let items = links.map_values(|l: SpanLinkView| span_link_object(l));
    if links.len() == 0 {
        assert(links =~= Seq::empty());
    } else {
        let before = links.drop_last();
        assert(items.drop_last() =~= before.map_values(|l: SpanLinkView| span_link_object(l)));
        assert forall|i: int| 0 <= i < before.len() implies link_is_kept(#[trigger] before[i]) by {
            assert(before[i] == links[i]);
        }
        lemma_links_seen(before);
        assert(link_is_kept(links[links.len() - 1]));
        lemma_link_seen(links.last());
        assert(items.last() == span_link_object(links.last()));
        assert(links =~= before.push(links.last()));
    }
}

/// The fields of a span as a program sees them, without the status.
pub open spec fn span_shown(
    s: SpanView,
    attrs: Seq<(Seq<char>, AnyView)>,
) -> Seq<(Seq<char>, ValueView)> {
    seq![
        ("trace_id"@, ValueView::Bytes(hex_digits(s.trace_id))),
        ("span_id"@, ValueView::Bytes(hex_digits(s.span_id))),
        ("trace_state"@, ValueView::text(s.trace_state)),
        ("parent_span_id"@, ValueView::Bytes(hex_digits(s.parent_span_id))),
        ("name"@, ValueView::text(s.name)),
        ("kind"@, ValueView::Integer(s.kind as i64)),
        (
            "start_time_unix_nano"@,
            ValueView::Integer(wrap_i64(s.start_time_unix_nano as int)),
        ),
        ("end_time_unix_nano"@, ValueView::Integer(wrap_i64(s.end_time_unix_nano as int))),
        ("attributes"@, ValueView::Object(object_from_attrs(attrs))),
        ("dropped_attributes_count"@, ValueView::Integer(s.dropped_attributes_count as i64)),
        (
            "events"@,
            ValueView::Array(s.events.map_values(|e: SpanEventView| span_event_object(e))),
        ),
        ("dropped_events_count"@, ValueView::Integer(s.dropped_events_count as i64)),
        (
            "links"@,
            ValueView::Array(s.links.map_values(|l: SpanLinkView| span_link_object(l))),
        ),
        ("dropped_links_count"@, ValueView::Integer(s.dropped_links_count as i64)),
    ]
}

/// The object with the status, where there is one.
pub open spec fn with_status(m: Seq<(Seq<char>, ValueView)>, status: Option<StatusView>) -> Seq<
    (Seq<char>, ValueView),
> {
    match status {
        Some(status) => with_entry(m, "status"@, status_seen_as(status)),
        None => m,
    }
}

/// What a map is after one more write.
proof fn lemma_written_next<V>(w: Seq<(Seq<char>, V)>, n: int)
    requires
        0 <= n < w.len(),
    ensures
        written(Seq::empty(), w.take(n + 1)) == with_entry(
            written(Seq::empty(), w.take(n)),
            w[n].0,
            w[n].1,
        ),
{
    assert(w.take(n + 1).drop_last() =~= w.take(n));
}

/// The object that the fields of a span make, without the status.
pub proof fn lemma_span_shown(span: OtelSpanView)
    ensures
        ({
            let s = span.span;
            let w = span_shown(s, span.span_attrs);
            span.seen() == with_origin(
                with_status(written(Seq::empty(), w), s.status),
                full_resource(span.resource, span.resource_attrs),
                full_scope(span.scope, span.scope_attrs),
            )
        }),
{
    let w = span_shown(span.span, span.span_attrs);
    assert(w.take(0) =~= Seq::empty());
    lemma_written_next(w, 0);
    lemma_written_next(w, 1);
    lemma_written_next(w, 2);
    lemma_written_next(w, 3);
    lemma_written_next(w, 4);
    lemma_written_next(w, 5);
    lemma_written_next(w, 6);
    lemma_written_next(w, 7);
    lemma_written_next(w, 8);
    lemma_written_next(w, 9);
    lemma_written_next(w, 10);
    lemma_written_next(w, 11);
    lemma_written_next(w, 12);
    lemma_written_next(w, 13);
    assert(w.take(14) =~= w);
}

/// The names of the fields of a span differ from each other and from those beside them.
pub proof fn lemma_shown_names(s: SpanView, attrs: Seq<(Seq<char>, AnyView)>)
    ensures
        ({
            let w = span_shown(s, attrs);
            &&& keys_differ(w)
            &&& forall|i: int|
                0 <= i < w.len() ==> (#[trigger] w[i]).0 != "status"@ && w[i].0 != "resource"@
                    && w[i].0 != "scope"@ && w[i].0 != "flags"@
        }),
{
    lemma_span_seen_names();
}

/// What the object as which a program sees a span event holds.
proof fn lemma_seen_holds(span: OtelSpanView)
    requires
        span.wf(),
        span.is_all_seen(),
    ensures
        ({
            let m = span.seen();
            let w = span_shown(span.span, span.span_attrs);
            let r = resource_seen(value_of(m, "resource"@));
            let s = scope_seen(value_of(m, "scope"@));
            &&& forall|i: int|
                0 <= i < w.len() ==> value_of(m, (#[trigger] w[i]).0) == Some(w[i].1)
            &&& value_of(m, "flags"@) is None
            &&& status_seen(value_of(m, "status"@)) == span.span.status
            &&& opt_resource_stripped(r) == span.resource
            &&& resource_attrs_of(r) == span.resource_attrs
            &&& opt_scope_stripped(s) == span.scope
            &&& scope_attrs_carried(s) == span.scope_attrs
        }),
{
    let s = span.span;
    let w = span_shown(s, span.span_attrs);
    lemma_shown_names(s, span.span_attrs);
    lemma_written(w);
    lemma_span_shown(span);
    let a = written(Seq::empty(), w);
    assert(value_of(a, "status"@) is None);
    assert(value_of(a, "resource"@) is None);
    assert(value_of(a, "scope"@) is None);
    assert(value_of(a, "flags"@) is None);
    lemma_seen_beside(span, a, w);
}

proof fn lemma_seen_beside(
    span: OtelSpanView,
    a: Seq<(Seq<char>, ValueView)>,
    w: Seq<(Seq<char>, ValueView)>,
)
    requires
        span.wf(),
        span.is_all_seen(),
        ordered(a),
        value_of(a, "status"@) is None,
        value_of(a, "resource"@) is None,
        value_of(a, "scope"@) is None,
        value_of(a, "flags"@) is None,
        forall|i: int| 0 <= i < w.len() ==> value_of(a, (#[trigger] w[i]).0) == Some(w[i].1),
        span.seen() == with_origin(
            with_status(a, span.span.status),
            full_resource(span.resource, span.resource_attrs),
            full_scope(span.scope, span.scope_attrs),
        ),
    ensures
        ({
            let m = span.seen();
            let r = resource_seen(value_of(m, "resource"@));
            let s = scope_seen(value_of(m, "scope"@));
            &&& forall|i: int|
                0 <= i < w.len() ==> value_of(m, (#[trigger] w[i]).0) == Some(w[i].1)
            &&& value_of(m, "flags"@) is None
            &&& status_seen(value_of(m, "status"@)) == span.span.status
            &&& opt_resource_stripped(r) == span.resource
            &&& resource_attrs_of(r) == span.resource_attrs
            &&& opt_scope_stripped(s) == span.scope
            &&& scope_attrs_carried(s) == span.scope_attrs
        }),
{
    lemma_span_seen_names();
    let b = with_status(a, span.span.status);
    if let Some(status) = span.span.status {
        law_read_after_write(a, "status"@, status_seen_as(status));
        lemma_status_seen(status);
    }
    assert(value_of(b, "resource"@) == value_of(a, "resource"@));
    assert(value_of(b, "scope"@) == value_of(a, "scope"@));
    assert(value_of(b, "flags"@) == value_of(a, "flags"@));
    lemma_origin_seen(b, span.resource, span.resource_attrs, span.scope, span.scope_attrs);
    let m = span.seen();
    assert(value_of(m, "status"@) == value_of(b, "status"@));
    assert(value_of(m, "flags"@) == value_of(b, "flags"@));
    assert forall|i: int| 0 <= i < w.len() implies value_of(m, (#[trigger] w[i]).0) == Some(
        w[i].1,
    ) by {
        let k = w[i].0;
        assert(value_of(a, k) == Some(w[i].1));
        assert(k != "status"@ && k != "resource"@ && k != "scope"@);
        assert(value_of(b, k) == value_of(a, k));
        assert(value_of(m, k) == value_of(b, k));
    }
}

/// A span event that a program leaves alone comes back as it was, if the program sees all of it.
#[verifier::spinoff_prover]
#[verifier::rlimit(60)]
pub proof fn law_span_comes_back(span: OtelSpanView)
    requires
        span.wf(),
        span.is_all_seen(),
    ensures
        TargetView::of_event(EventView::Trace(span)).events() == TargetEventsView::One(
            EventView::Trace(span),
        ),
{
    let s = span.span;
    let m = span.seen();
    let w = span_shown(s, span.span_attrs);
    lemma_seen_holds(span);
    assert(value_of(m, w[0].0) == Some(w[0].1));
    assert(value_of(m, w[1].0) == Some(w[1].1));
    assert(value_of(m, w[2].0) == Some(w[2].1));
    assert(value_of(m, w[3].0) == Some(w[3].1));
    assert(value_of(m, w[4].0) == Some(w[4].1));
    assert(value_of(m, w[5].0) == Some(w[5].1));
    assert(value_of(m, w[6].0) == Some(w[6].1));
    assert(value_of(m, w[7].0) == Some(w[7].1));
    assert(value_of(m, w[8].0) == Some(w[8].1));
    assert(value_of(m, w[9].0) == Some(w[9].1));
    assert(value_of(m, w[10].0) == Some(w[10].1));
    assert(value_of(m, w[11].0) == Some(w[11].1));
    assert(value_of(m, w[12].0) == Some(w[12].1));
    assert(value_of(m, w[13].0) == Some(w[13].1));
    law_id_round_trip(s.trace_id);
    law_id_round_trip(s.span_id);
    law_id_round_trip(s.parent_span_id);
    lemma_text_seen(s.trace_state);
    lemma_text_seen(s.name);
    lemma_nanos_set(s.start_time_unix_nano);
    lemma_nanos_set(s.end_time_unix_nano);
    lemma_events_seen(s.events);
    lemma_links_seen(s.links);
    lemma_attrs_seen(span.span_attrs);
    assert(s.attributes =~= Seq::empty());
}

} // verus!
