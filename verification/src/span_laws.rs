//! What holds of span events: the object that an event is read as gives the event back.
use vstd::prelude::*;
use vstd::utf8::{encode_utf8_decode_utf8, encode_utf8_valid_utf8};

use crate::any_value::value_from_any;
use crate::attributes::object_from_attrs;
use crate::canonical::{
    int_or_zero, resource_fields, scope_fields, text_or_empty, with_object, with_text,
    without_object,
};
use crate::canonical_laws::{
    all_kept, law_resource_round_trip, law_scope_round_trip, lemma_attrs_back, lemma_same_names,
    lemma_without_object, resource_is_kept, scope_is_kept,
};
use crate::extract::{id_in, left_over, or_none, picked};
use crate::hex::law_hex_round_trip;
use crate::keyed::{ordered, value_of, with_entry, without_entry};
use crate::log_laws::{
    count_set, gives_id, gives_integer, gives_text, id_set, leaves_object, lemma_nanos_set, over,
    text_set,
};
use crate::log_value::{with_attrs, with_count, with_id};
use crate::map_laws::{law_read_after_remove, law_read_after_write, law_same_entries};
use crate::otlp_span::{SpanView, StatusView};
use crate::place_laws::{
    is_taken, leaves_place, lemma_next_taken, lemma_with_attrs, lemma_with_count, lemma_with_id,
    lemma_with_object, lemma_with_text,
};
use crate::span::OtelSpanView;
use crate::span_value::{
    beside_instant, fields_of, or_instant, span_fields, span_from_value, span_of, status_object,
    status_of,
};
use crate::time::{wrap_i32, wrap_i64, wrap_u32, wrap_u64};
use crate::value::ValueView;

verus! {

/// Whether the attributes of a span leave each field of the span its place.
pub open spec fn fields_are_kept(s: SpanView, m: Seq<(Seq<char>, ValueView)>) -> bool {
    &&& leaves_place(m, "name"@, "name"@, s.name.len() > 0, gives_text())
    &&& leaves_place(m, "trace_id"@, "trace_id"@, s.trace_id.len() > 0, gives_id())
    &&& leaves_place(m, "span_id"@, "span_id"@, s.span_id.len() > 0, gives_id())
    &&& leaves_place(
        m,
        "parent_span_id"@,
        "parent_span_id"@,
        s.parent_span_id.len() > 0,
        gives_id(),
    )
    &&& leaves_place(
        m,
        "start_time_unix_nano"@,
        "start_time_unix_nano"@,
        s.start_time_unix_nano != 0,
        gives_integer(),
    )
    &&& leaves_place(
        m,
        "end_time_unix_nano"@,
        "end_time_unix_nano"@,
        s.end_time_unix_nano != 0,
        gives_integer(),
    )
    &&& leaves_place(m, "kind"@, "kind"@, s.kind != 0, gives_integer())
    &&& leaves_place(m, "flags"@, "flags"@, s.flags != 0, gives_integer())
    &&& leaves_place(
        m,
        "dropped_attributes_count"@,
        "dropped_attributes_count"@,
        s.dropped_attributes_count != 0,
        gives_integer(),
    )
}

/// Whether nothing is set of a span that the object it is read as has no field for, and no status
/// that says nothing.
pub open spec fn is_all_read(s: SpanView) -> bool {
    &&& s.attributes.len() == 0
    &&& s.trace_state.len() == 0
    &&& s.events.len() == 0
    &&& s.dropped_events_count == 0
    &&& s.links.len() == 0
    &&& s.dropped_links_count == 0
    &&& s.status matches Some(status) ==> status.message.len() > 0 || status.code != 0
}

impl OtelSpanView {
    /// Whether the event can be told from the object that it is read as.
    pub open spec fn is_kept(&self) -> bool {
        let m = object_from_attrs(self.span_attrs);
        &&& is_all_read(self.span)
        &&& all_kept(self.span_attrs)
        &&& fields_are_kept(self.span, m)
        &&& leaves_object(m, "status"@, self.span.status is Some)
        &&& leaves_object(m, "resource"@, self.resource is Some)
        &&& leaves_object(m, "scope"@, self.scope is Some)
        &&& resource_is_kept(self.resource, self.resource_attrs)
        &&& scope_is_kept(self.scope, self.scope_attrs)
    }
}

/// The lengths of the names of the fields of a span event, and the first letters of those with the
/// same length.
proof fn lemma_span_names()
    ensures
        "name"@.len() == 4,
        "name"@[0] == 'n',
        "kind"@.len() == 4,
        "kind"@[0] == 'k',
        "flags"@.len() == 5,
        "flags"@[0] == 'f',
        "scope"@.len() == 5,
        "scope"@[0] == 's',
        "status"@.len() == 6,
        "span_id"@.len() == 7,
        "trace_id"@.len() == 8,
        "trace_id"@[0] == 't',
        "resource"@.len() == 8,
        "resource"@[0] == 'r',
        "end_time"@.len() == 8,
        "end_time"@[0] == 'e',
        "start_time"@.len() == 10,
        "parent_span_id"@.len() == 14,
        "end_time_unix_nano"@.len() == 18,
        "start_time_unix_nano"@.len() == 20,
        "dropped_attributes_count"@.len() == 24,
{
    reveal_strlit("name");
    reveal_strlit("kind");
    reveal_strlit("flags");
    reveal_strlit("scope");
    reveal_strlit("status");
    reveal_strlit("span_id");
    reveal_strlit("trace_id");
    reveal_strlit("resource");
    reveal_strlit("end_time");
    reveal_strlit("start_time");
    reveal_strlit("parent_span_id");
    reveal_strlit("end_time_unix_nano");
    reveal_strlit("start_time_unix_nano");
    reveal_strlit("dropped_attributes_count");
}

/// Whether a name is that of a field of the span that is no object.
pub open spec fn is_plain_name(k: Seq<char>) -> bool {
    k == "name"@ || k == "trace_id"@ || k == "span_id"@ || k == "parent_span_id"@ || k
        == "start_time_unix_nano"@ || k == "end_time_unix_nano"@ || k == "kind"@ || k == "flags"@
        || k == "dropped_attributes_count"@
}

/// What the fields of a span hold.
pub proof fn lemma_span_fields(s: SpanView)
    ensures
        ({
            let m = span_fields(s);
            &&& ordered(m)
            &&& value_of(m, "name"@) == text_set(s.name)
            &&& value_of(m, "trace_id"@) == id_set(s.trace_id)
            &&& value_of(m, "span_id"@) == id_set(s.span_id)
            &&& value_of(m, "parent_span_id"@) == id_set(s.parent_span_id)
            &&& value_of(m, "start_time_unix_nano"@) == count_set(
                wrap_i64(s.start_time_unix_nano as int),
            )
            &&& value_of(m, "end_time_unix_nano"@) == count_set(
                wrap_i64(s.end_time_unix_nano as int),
            )
            &&& value_of(m, "kind"@) == count_set(s.kind as i64)
            &&& value_of(m, "flags"@) == count_set(s.flags as i64)
            &&& value_of(m, "dropped_attributes_count"@) == count_set(
                s.dropped_attributes_count as i64,
            )
            &&& value_of(m, "status"@) == match s.status {
                Some(status) => Some(status_object(status)),
                None => None,
            }
            &&& forall|k: Seq<char>|
                !is_plain_name(k) && k != "status"@ ==> #[trigger] value_of(m, k) is None
        }),
{
    lemma_span_names();
    let none = Seq::<(Seq<char>, ValueView)>::empty();
    assert(forall|k: Seq<char>| #[trigger] value_of(none, k) is None);
    lemma_with_text(none, "name"@, s.name);
    let m0 = with_text(none, "name"@, s.name);
    lemma_with_id(m0, "trace_id"@, s.trace_id);
    let m1 = with_id(m0, "trace_id"@, s.trace_id);
    lemma_with_id(m1, "span_id"@, s.span_id);
    let m2 = with_id(m1, "span_id"@, s.span_id);
    lemma_with_id(m2, "parent_span_id"@, s.parent_span_id);
    let m3 = with_id(m2, "parent_span_id"@, s.parent_span_id);
    let start = wrap_i64(s.start_time_unix_nano as int);
    lemma_with_count(m3, "start_time_unix_nano"@, start);
    let m4 = with_count(m3, "start_time_unix_nano"@, start);
    let end = wrap_i64(s.end_time_unix_nano as int);
    lemma_with_count(m4, "end_time_unix_nano"@, end);
    let m5 = with_count(m4, "end_time_unix_nano"@, end);
    lemma_with_count(m5, "kind"@, s.kind as i64);
    let m6 = with_count(m5, "kind"@, s.kind as i64);
    lemma_with_count(m6, "flags"@, s.flags as i64);
    let m7 = with_count(m6, "flags"@, s.flags as i64);
    lemma_with_count(m7, "dropped_attributes_count"@, s.dropped_attributes_count as i64);
    let m8 = with_count(m7, "dropped_attributes_count"@, s.dropped_attributes_count as i64);
    if let Some(status) = s.status {
        law_read_after_write(m8, "status"@, status_object(status));
    }
    let m = span_fields(s);
    assert forall|k: Seq<char>| !is_plain_name(k) && k != "status"@ implies #[trigger] value_of(m, k)
        is None by {
        assert(value_of(m8, k) == value_of(m7, k));
        assert(value_of(m6, k) == value_of(m5, k));
        assert(value_of(m4, k) == value_of(m3, k));
        assert(value_of(m2, k) == value_of(m1, k));
        assert(value_of(m0, k) == value_of(none, k));
    }
}

/// The object that a status is read as gives the status back.
proof fn lemma_status_back(s: StatusView)
    requires
        s.message.len() > 0 || s.code != 0,
    ensures
        status_of(status_object(s)->Object_0) == Some(s),
{
    reveal_strlit("message");
    reveal_strlit("code");
    let none = Seq::<(Seq<char>, ValueView)>::empty();
    assert(forall|k: Seq<char>| #[trigger] value_of(none, k) is None);
    lemma_with_text(none, "message"@, s.message);
    let m = with_text(none, "message"@, s.message);
    let code = ValueView::Integer(s.code as i64);
    law_read_after_write(m, "code"@, code);
    let full = with_entry(m, "code"@, code);
    assert(value_of(full, "message"@) == value_of(m, "message"@));
    law_read_after_remove(full, "message"@);
    assert(value_of(without_entry(full, "message"@), "code"@) == value_of(full, "code"@));
    encode_utf8_valid_utf8(s.message);
    encode_utf8_decode_utf8(s.message);
    assert(text_or_empty(value_of(full, "message"@)) =~= s.message);
}

/// What the object that an event is read as holds for the fields of its span.
spec fn holds_span(
    m: Seq<(Seq<char>, ValueView)>,
    s: SpanView,
    attrs: Seq<(Seq<char>, ValueView)>,
) -> bool {
    forall|k: Seq<char>|
        k != "resource"@ && k != "scope"@ ==> #[trigger] value_of(m, k) == over(
            value_of(span_fields(s), k),
            value_of(attrs, k),
        )
}

/// Whether none of the fields is an instant.
spec fn no_instants(m: Seq<(Seq<char>, ValueView)>) -> bool {
    forall|k: Seq<char>| !(#[trigger] value_of(m, k) matches Some(ValueView::Timestamp(_)))
}

/// The times are found in the object that an event is read as.
spec fn after_times(m: Seq<(Seq<char>, ValueView)>) -> Seq<(Seq<char>, ValueView)> {
    let start = picked(m, "start_time_unix_nano"@, "start_time_unix_nano"@);
    let m = left_over(m, "start_time_unix_nano"@, "start_time_unix_nano"@, start->0 is Integer);
    let end = picked(m, "end_time_unix_nano"@, "end_time_unix_nano"@);
    let m = left_over(m, "end_time_unix_nano"@, "end_time_unix_nano"@, end->0 is Integer);
    let start_nanos = wrap_u64(int_or_zero(start) as int);
    let end_nanos = wrap_u64(int_or_zero(end) as int);
    let m = beside_instant(m, "start_time"@, start_nanos);
    beside_instant(m, "end_time"@, end_nanos)
}

spec fn ids_done() -> Set<Seq<char>> {
    set!["name"@].insert("trace_id"@).insert("span_id"@).insert("parent_span_id"@)
}

proof fn lemma_times_back(
    m: Seq<(Seq<char>, ValueView)>,
    m4: Seq<(Seq<char>, ValueView)>,
    s: SpanView,
    attrs: Seq<(Seq<char>, ValueView)>,
)
    requires
        is_taken(m, m4, attrs, ids_done()),
        fields_are_kept(s, attrs),
        holds_span(m, s, attrs),
        no_instants(attrs),
    ensures
        ({
            let start = picked(m4, "start_time_unix_nano"@, "start_time_unix_nano"@);
            let m5 = left_over(
                m4,
                "start_time_unix_nano"@,
                "start_time_unix_nano"@,
                start->0 is Integer,
            );
            let end = picked(m5, "end_time_unix_nano"@, "end_time_unix_nano"@);
            let m6 = left_over(m5, "end_time_unix_nano"@, "end_time_unix_nano"@, end->0 is Integer);
            let start_nanos = wrap_u64(int_or_zero(start) as int);
            let end_nanos = wrap_u64(int_or_zero(end) as int);
            let m7 = beside_instant(m6, "start_time"@, start_nanos);
            &&& or_instant(m6, "start_time"@, start_nanos) == s.start_time_unix_nano
            &&& or_instant(m7, "end_time"@, end_nanos) == s.end_time_unix_nano
        }),
        is_taken(
            m,
            after_times(m4),
            attrs,
            ids_done().insert("start_time_unix_nano"@).insert("end_time_unix_nano"@),
        ),
{
    lemma_span_names();
    lemma_span_fields(s);
    lemma_nanos_set(s.start_time_unix_nano);
    lemma_nanos_set(s.end_time_unix_nano);
    let done = ids_done();
    let sn = "start_time_unix_nano"@;
    let start = picked(m4, sn, sn);
    let ok = start->0 is Integer;
    let ss = count_set(wrap_i64(s.start_time_unix_nano as int));
    lemma_next_taken(m, m4, attrs, done, sn, sn, ss, gives_integer(), ok);
    let m5 = left_over(m4, sn, sn, ok);
    let en = "end_time_unix_nano"@;
    let end = picked(m5, en, en);
    let ok = end->0 is Integer;
    let es = count_set(wrap_i64(s.end_time_unix_nano as int));
    lemma_next_taken(m, m5, attrs, done.insert(sn), en, en, es, gives_integer(), ok);
    let m6 = left_over(m5, en, en, ok);
    assert(value_of(m6, "start_time"@) == value_of(m, "start_time"@));
    assert(value_of(m6, "end_time"@) == value_of(m, "end_time"@));
    assert(value_of(span_fields(s), "start_time"@) is None);
    assert(value_of(span_fields(s), "end_time"@) is None);
    assert(!(value_of(attrs, "start_time"@) matches Some(ValueView::Timestamp(_))));
    assert(!(value_of(attrs, "end_time"@) matches Some(ValueView::Timestamp(_))));
}

/// The span is found in the object that an event is read as, and beside it is left what belongs to
/// no field of the span.
proof fn lemma_span_back(
    m: Seq<(Seq<char>, ValueView)>,
    s: SpanView,
    attrs: Seq<(Seq<char>, ValueView)>,
)
    requires
        ordered(m),
        is_all_read(s),
        fields_are_kept(s, attrs),
        leaves_object(attrs, "status"@, s.status is Some),
        holds_span(m, s, attrs),
        no_instants(attrs),
    ensures
        span_of(m).0 == s,
        ordered(span_of(m).1),
        forall|k: Seq<char>|
            #![trigger value_of(span_of(m).1, k)]
            value_of(span_of(m).1, k) == if k == "resource"@ || k == "scope"@ {
                value_of(m, k)
            } else {
                value_of(attrs, k)
            },
{
    lemma_span_names();
    lemma_span_fields(s);
    let done0 = Set::<Seq<char>>::empty();
    let name = picked(m, "name"@, "name"@);
    let ok = name->0 is Bytes;
    lemma_next_taken(m, m, attrs, done0, "name"@, "name"@, text_set(s.name), gives_text(), ok);
    let m1 = left_over(m, "name"@, "name"@, ok);
    let done1 = done0.insert("name"@);
    if s.trace_id.len() > 0 {
        law_hex_round_trip(s.trace_id);
    }
    if s.span_id.len() > 0 {
        law_hex_round_trip(s.span_id);
    }
    if s.parent_span_id.len() > 0 {
        law_hex_round_trip(s.parent_span_id);
    }
    let t = picked(m1, "trace_id"@, "trace_id"@);
    let ok = id_in(t) is Some;
    let ts = id_set(s.trace_id);
    lemma_next_taken(m, m1, attrs, done1, "trace_id"@, "trace_id"@, ts, gives_id(), ok);
    let m2 = left_over(m1, "trace_id"@, "trace_id"@, ok);
    let done2 = done1.insert("trace_id"@);
    let i = picked(m2, "span_id"@, "span_id"@);
    let ok = id_in(i) is Some;
    let is = id_set(s.span_id);
    lemma_next_taken(m, m2, attrs, done2, "span_id"@, "span_id"@, is, gives_id(), ok);
    let m3 = left_over(m2, "span_id"@, "span_id"@, ok);
    let done3 = done2.insert("span_id"@);
    let pn = "parent_span_id"@;
    let p = picked(m3, pn, pn);
    let ok = id_in(p) is Some;
    lemma_next_taken(m, m3, attrs, done3, pn, pn, id_set(s.parent_span_id), gives_id(), ok);
    let m4 = left_over(m3, pn, pn, ok);
    assert(done3.insert(pn) =~= ids_done());
    lemma_times_back(m, m4, s, attrs);
    let m5 = after_times(m4);
    lemma_kind_back(m, m5, s, attrs);
    assert(text_or_empty(name) =~= s.name) by {
        encode_utf8_valid_utf8(s.name);
        encode_utf8_decode_utf8(s.name);
    }
    assert(or_none(id_in(t)) =~= s.trace_id);
    assert(or_none(id_in(i)) =~= s.span_id);
    assert(or_none(id_in(p)) =~= s.parent_span_id);
    let found = span_of(m).0;
    assert(found.attributes =~= s.attributes);
    assert(found.trace_state =~= s.trace_state);
    assert(found.events =~= s.events);
    assert(found.links =~= s.links);
    let m8 = beside_kind(m5);
    assert(span_of(m).1 == without_object(m8, "status"@));
    assert(value_of(m8, "status"@) == value_of(m, "status"@));
    assert(found.status == s.status) by {
        if let Some(status) = s.status {
            lemma_status_back(status);
        }
    }
    lemma_without_object(m8, "status"@);
    let rest = span_of(m).1;
    assert forall|k: Seq<char>|
        #![trigger value_of(rest, k)]
        value_of(rest, k) == if k == "resource"@ || k == "scope"@ {
            value_of(m, k)
        } else {
            value_of(attrs, k)
        } by {
        assert(value_of(m8, k) == value_of(m8, k));
        if !is_plain_name(k) && k != "status"@ {
            assert(value_of(span_fields(s), k) is None);
            assert(value_of(m, k) == value_of(m, k));
        }
    }
}

/// The object that is left after the kind and what follows it were taken out.
spec fn beside_kind(m: Seq<(Seq<char>, ValueView)>) -> Seq<(Seq<char>, ValueView)> {
    let kind = picked(m, "kind"@, "kind"@);
    let m = left_over(m, "kind"@, "kind"@, kind->0 is Integer);
    let flags = picked(m, "flags"@, "flags"@);
    let m = left_over(m, "flags"@, "flags"@, flags->0 is Integer);
    let dropped = picked(m, "dropped_attributes_count"@, "dropped_attributes_count"@);
    left_over(
        m,
        "dropped_attributes_count"@,
        "dropped_attributes_count"@,
        dropped->0 is Integer,
    )
}

proof fn lemma_kind_back(
    m: Seq<(Seq<char>, ValueView)>,
    m5: Seq<(Seq<char>, ValueView)>,
    s: SpanView,
    attrs: Seq<(Seq<char>, ValueView)>,
)
    requires
        is_taken(
            m,
            m5,
            attrs,
            ids_done().insert("start_time_unix_nano"@).insert("end_time_unix_nano"@),
        ),
        fields_are_kept(s, attrs),
        holds_span(m, s, attrs),
    ensures
        ({
            let kind = picked(m5, "kind"@, "kind"@);
            let m6 = left_over(m5, "kind"@, "kind"@, kind->0 is Integer);
            let flags = picked(m6, "flags"@, "flags"@);
            let m7 = left_over(m6, "flags"@, "flags"@, flags->0 is Integer);
            let dropped = picked(m7, "dropped_attributes_count"@, "dropped_attributes_count"@);
            &&& wrap_i32(int_or_zero(kind) as int) == s.kind
            &&& wrap_u32(int_or_zero(flags) as int) == s.flags
            &&& wrap_u32(int_or_zero(dropped) as int) == s.dropped_attributes_count
        }),
        ordered(beside_kind(m5)),
        forall|k: Seq<char>| #[trigger]
            value_of(beside_kind(m5), k) == if is_plain_name(k) {
                value_of(attrs, k)
            } else {
                value_of(m, k)
            },
{
    lemma_span_names();
    lemma_span_fields(s);
    let done5 = ids_done().insert("start_time_unix_nano"@).insert("end_time_unix_nano"@);
    let kind = picked(m5, "kind"@, "kind"@);
    let ok = kind->0 is Integer;
    let ks = count_set(s.kind as i64);
    lemma_next_taken(m, m5, attrs, done5, "kind"@, "kind"@, ks, gives_integer(), ok);
    let m6 = left_over(m5, "kind"@, "kind"@, ok);
    let done6 = done5.insert("kind"@);
    let flags = picked(m6, "flags"@, "flags"@);
    let ok = flags->0 is Integer;
    let fs = count_set(s.flags as i64);
    lemma_next_taken(m, m6, attrs, done6, "flags"@, "flags"@, fs, gives_integer(), ok);
    let m7 = left_over(m6, "flags"@, "flags"@, ok);
    let done7 = done6.insert("flags"@);
    let dn = "dropped_attributes_count"@;
    let dropped = picked(m7, dn, dn);
    let ok = dropped->0 is Integer;
    let ds = count_set(s.dropped_attributes_count as i64);
    lemma_next_taken(m, m7, attrs, done7, dn, dn, ds, gives_integer(), ok);
    let done8 = done7.insert(dn);
    assert(is_taken(m, beside_kind(m5), attrs, done8));
    assert(forall|k: Seq<char>| #[trigger] done8.contains(k) <==> is_plain_name(k));
}

/// A span event that is read as an object and written back is the same, unless it is one that cannot
/// be told from that object.
#[verifier::rlimit(30)]
pub proof fn law_span_round_trip(span: OtelSpanView)
    requires
        span.wf(),
        span.is_kept(),
    ensures
        span_from_value(ValueView::Object(span.canonical()), span.metadata) == span,
{
    lemma_span_names();
    let attrs = object_from_attrs(span.span_attrs);
    let fields = span_fields(span.span);
    lemma_span_fields(span.span);
    lemma_with_attrs(fields, span.span_attrs);
    assert forall|k: Seq<char>| !(#[trigger] value_of(attrs, k) matches Some(
        ValueView::Timestamp(_),
    )) by {
        lemma_same_names(span.span_attrs, k);
        if let Some(a) = value_of(span.span_attrs, k) {
            reveal_with_fuel(value_from_any, 2);
            assert(value_from_any(a) !is Timestamp);
        }
    }
    let a = with_attrs(fields, span.span_attrs);
    let res = resource_fields(span.resource, span.resource_attrs);
    let sco = scope_fields(span.scope, span.scope_attrs);
    lemma_with_object(a, "resource"@, res);
    let b = with_object(a, "resource"@, res);
    lemma_with_object(b, "scope"@, sco);
    let m = span.canonical();
    assert forall|k: Seq<char>| k != "resource"@ && k != "scope"@ implies #[trigger] value_of(m, k)
        == over(value_of(fields, k), value_of(attrs, k)) by {
        assert(value_of(b, k) == value_of(a, k));
    }
    lemma_span_back(m, span.span, attrs);
    let rest = span_of(m).1;
    assert(value_of(m, "resource"@) == value_of(b, "resource"@));
    assert(value_of(b, "scope"@) == value_of(a, "scope"@));
    assert(value_of(rest, "resource"@) == value_of(m, "resource"@));
    law_resource_round_trip(rest, span.resource, span.resource_attrs);
    lemma_without_object(rest, "resource"@);
    let beside = without_object(rest, "resource"@);
    assert(value_of(beside, "scope"@) == value_of(rest, "scope"@));
    law_scope_round_trip(beside, span.scope, span.scope_attrs);
    lemma_without_object(beside, "scope"@);
    let left = without_object(beside, "scope"@);
    assert forall|k: Seq<char>| #[trigger] value_of(left, k) == value_of(attrs, k) by {
        assert(value_of(beside, k) == value_of(beside, k));
        assert(value_of(rest, k) == value_of(rest, k));
        assert(value_of(a, k) == value_of(a, k));
        assert(value_of(b, k) == value_of(b, k));
        assert(value_of(m, k) == value_of(m, k));
    }
    law_same_entries(left, attrs);
    lemma_attrs_back(span.span_attrs);
    assert(fields_of(ValueView::Object(m)) == m);
}

} // verus!
