//! What holds of paths into span events: what is read at a path after something was written or
//! removed there.
use vstd::prelude::*;
use vstd::utf8::{encode_utf8_decode_utf8, encode_utf8_valid_utf8};

use crate::any_value::{any_from_value, value_from_any};
use crate::canonical::{int_or_zero, with_text};
use crate::hex::hex_decoded;
use crate::keyed::{value_of, with_entry};
use crate::log_path::{is_field_path, path_names};
use crate::log_path_laws::{
    is_plain_id, is_some_text, law_attribute_read_after_remove, law_attribute_read_after_write,
    lemma_scope_read_after_remove, lemma_scope_read_after_write, lemma_text_back, scope_holds,
};
use crate::map_laws::{law_read_after_remove, law_read_after_write};
use crate::otlp_span::StatusView;
use crate::path::{PathPrefix, TargetPathView};
use crate::path_laws::{in_order, law_path_read_after_remove, law_path_read_after_write};
use crate::place_laws::lemma_with_text;
use crate::span::OtelSpanView;
use crate::span_path::text_held;
use crate::span_value::{nanos_of_instant, status_object};
use crate::time::{instant_after, lemma_timestamp_at, wrap_i32};
use crate::value::ValueView;
use crate::value_laws::{is_stored, law_value_round_trip};

verus! {

/// Whether a value is an instant after the Unix epoch, in a second of the usual length.
pub open spec fn is_later_instant(v: ValueView) -> bool {
    match (v, nanos_of_instant(Some(v))) {
        (ValueView::Timestamp(t), Some(n)) => n != 0 && t.spec_nanos() < 1_000_000_000,
        _ => false,
    }
}

/// Whether a value is an integer that fits a kind or a code.
pub open spec fn is_small_integer(v: ValueView) -> bool {
    v matches ValueView::Integer(n) && i32::MIN <= n <= i32::MAX
}

/// Whether a field of a span event holds a value as it was written: the value must fit the place of
/// its own that the field has in the span.
pub open spec fn span_field_holds(name: Seq<char>, v: ValueView) -> bool {
    if name == "name"@ {
        is_some_text(v)
    } else if name == "trace_id"@ || name == "span_id"@ || name == "parent_span_id"@ {
        is_plain_id(v)
    } else if name == "start_time"@ || name == "end_time"@ {
        is_later_instant(v)
    } else if name == "kind"@ {
        is_small_integer(v) && v != ValueView::Integer(0)
    } else if name == "status"@ {
        exists|s: StatusView| v == #[trigger] status_object(s)
    } else {
        is_stored(v)
    }
}

/// Whether a nested field of a span event holds a value as it was written.
pub open spec fn span_nested_holds(path: Seq<Seq<char>>, v: ValueView) -> bool {
    if path[0] == "scope"@ {
        scope_holds(path.drop_first(), v)
    } else if path[0] == "status"@ {
        ||| path.len() == 2 && path[1] == "message"@ && is_some_text(v)
        ||| path.len() == 2 && path[1] == "code"@ && is_small_integer(v)
    } else {
        &&& is_stored(v)
        &&& !(path.len() == 2 && path[0] == "resource"@ && path[1] == "dropped_attributes_count"@)
    }
}

/// The lengths of the names of the fields of a span event, and the first letters of those with the
/// same length.
proof fn lemma_path_names()
    ensures
        "name"@.len() == 4,
        "name"@[0] == 'n',
        "kind"@.len() == 4,
        "kind"@[0] == 'k',
        "code"@.len() == 4,
        "scope"@.len() == 5,
        "scope"@[0] == 's',
        "flags"@.len() == 5,
        "flags"@[0] == 'f',
        "status"@.len() == 6,
        "span_id"@.len() == 7,
        "span_id"@[0] == 's',
        "message"@.len() == 7,
        "message"@[0] == 'm',
        "trace_id"@.len() == 8,
        "trace_id"@[0] == 't',
        "end_time"@.len() == 8,
        "end_time"@[0] == 'e',
        "resource"@.len() == 8,
        "resource"@[0] == 'r',
        "start_time"@.len() == 10,
        "parent_span_id"@.len() == 14,
        "end_time_unix_nano"@.len() == 18,
        "start_time_unix_nano"@.len() == 20,
        "dropped_attributes_count"@.len() == 24,
{
    reveal_strlit("name");
    reveal_strlit("kind");
    reveal_strlit("code");
    reveal_strlit("scope");
    reveal_strlit("flags");
    reveal_strlit("status");
    reveal_strlit("span_id");
    reveal_strlit("message");
    reveal_strlit("trace_id");
    reveal_strlit("end_time");
    reveal_strlit("resource");
    reveal_strlit("start_time");
    reveal_strlit("parent_span_id");
    reveal_strlit("end_time_unix_nano");
    reveal_strlit("start_time_unix_nano");
    reveal_strlit("dropped_attributes_count");
}

/// The nanoseconds that an instant gives lead back to it.
proof fn lemma_instant_back(v: ValueView)
    requires
        is_later_instant(v),
    ensures
        v == ValueView::Timestamp(instant_after(nanos_of_instant(Some(v))->0)),
{
    let t = v->Timestamp_0;
    lemma_timestamp_at(t);
    let n = nanos_of_instant(Some(v))->0 as int;
    let secs = t.spec_secs() as int;
    let nanos = t.spec_nanos() as int;
    assert(n == secs * 1_000_000_000 + nanos);
    assert(n / 1_000_000_000 == secs && n % 1_000_000_000 == nanos) by (nonlinear_arith)
        requires
            n == secs * 1_000_000_000 + nanos,
            0 <= nanos < 1_000_000_000,
    ;
}

/// What a status is read as holds its message and its code.
proof fn lemma_status_found(s: StatusView)
    ensures
        ({
            let m = status_object(s)->Object_0;
            &&& text_held(value_of(m, "message"@)) == s.message
            &&& wrap_i32(int_or_zero(value_of(m, "code"@)) as int) == s.code
        }),
{
    lemma_path_names();
    let none = Seq::<(Seq<char>, ValueView)>::empty();
    assert(value_of(none, "message"@) is None);
    lemma_with_text(none, "message"@, s.message);
    let m = with_text(none, "message"@, s.message);
    law_read_after_write(m, "code"@, ValueView::Integer(s.code as i64));
    let full = with_entry(m, "code"@, ValueView::Integer(s.code as i64));
    assert(value_of(full, "message"@) == value_of(m, "message"@));
    encode_utf8_valid_utf8(s.message);
    encode_utf8_decode_utf8(s.message);
    assert(text_held(value_of(full, "message"@)) =~= s.message);
}

/// What was written to a field of a span event is read there, if the field can hold it, and the
/// other fields stay as they are.
pub proof fn law_span_field_read_after_write(
    span: OtelSpanView,
    name: Seq<char>,
    v: ValueView,
    rendered: Seq<char>,
)
    requires
        span.wf(),
    ensures
        span_field_holds(name, v) ==> span.with_field(name, v, rendered).field(name) == Some(v),
        forall|other: Seq<char>|
            other != name ==> #[trigger] span.with_field(name, v, rendered).field(other)
                == span.field(other),
{
    lemma_path_names();
    law_read_after_write(span.span_attrs, name, any_from_value(v));
    if span_field_holds(name, v) {
        if name == "name"@ {
            lemma_text_back(v, rendered);
        } else if name == "trace_id"@ || name == "span_id"@ || name == "parent_span_id"@ {
            assert(hex_decoded(v)->0.len() > 0);
        } else if name == "start_time"@ || name == "end_time"@ {
            lemma_instant_back(v);
        } else if name == "kind"@ {
        } else if name == "status"@ {
            let s = choose|s: StatusView| v == #[trigger] status_object(s);
            lemma_status_found(s);
        } else {
            law_value_round_trip(v);
        }
    }
}

/// An instant before the Unix epoch is not lost, and no time of the span is made of it: it becomes an
/// attribute, and is read under the name of the time where the span has none. So is any other value
/// that is no instant.
pub proof fn law_early_instant_is_kept(
    span: OtelSpanView,
    name: Seq<char>,
    v: ValueView,
    rendered: Seq<char>,
)
    requires
        span.wf(),
        name == "start_time"@ || name == "end_time"@,
        nanos_of_instant(Some(v)) is None,
    ensures
        span.with_field(name, v, rendered) == span.with_attribute(name, any_from_value(v)),
        value_of(span.with_field(name, v, rendered).span_attrs, name) == Some(any_from_value(v)),
        (if name == "start_time"@ {
            span.span.start_time_unix_nano == 0
        } else {
            span.span.end_time_unix_nano == 0
        }) ==> span.with_field(name, v, rendered).field(name) == Some(
            value_from_any(any_from_value(v)),
        ),
{
    lemma_path_names();
    law_read_after_write(span.span_attrs, name, any_from_value(v));
}

/// An identifier that is not hexadecimal is not lost: it becomes an attribute, and the span stays as
/// it is.
pub proof fn law_span_malformed_id_is_kept(
    span: OtelSpanView,
    name: Seq<char>,
    v: ValueView,
    rendered: Seq<char>,
)
    requires
        span.wf(),
        name == "trace_id"@ || name == "span_id"@ || name == "parent_span_id"@,
        hex_decoded(v) is None,
    ensures
        span.with_field(name, v, rendered) == span.with_attribute(name, any_from_value(v)),
        value_of(span.with_field(name, v, rendered).span_attrs, name) == Some(any_from_value(v)),
{
    lemma_path_names();
    law_read_after_write(span.span_attrs, name, any_from_value(v));
}

/// What was written at a path into a span event is read there, if it can be held there. The path
/// goes through fields, or into the metadata.
pub proof fn law_span_read_after_write(
    span: OtelSpanView,
    path: TargetPathView,
    v: ValueView,
    rendered: Seq<char>,
)
    requires
        span.wf(),
        path.prefix == PathPrefix::Event ==> is_field_path(path.path) && if path.path.len() == 1 {
            span_field_holds(path_names(path.path)[0], v)
        } else {
            span_nested_holds(path_names(path.path), v)
        },
    ensures
        span.with(path, v, rendered).at(path) == Some(v),
{
    let fields = path_names(path.path);
    if path.prefix == PathPrefix::Metadata {
        law_path_read_after_write(Some(span.metadata.value), path.path, v);
    } else if path.path.len() == 1 {
        law_span_field_read_after_write(span, fields[0], v, rendered);
    } else {
        lemma_path_names();
        let rest = fields.drop_first();
        if fields[0] == "resource"@ {
            law_attribute_read_after_write(span.resource_attrs, rest, v);
        } else if fields[0] == "scope"@ {
            lemma_scope_read_after_write(span.scope, span.scope_attrs, rest, v, rendered);
        } else if fields[0] == "status"@ {
            assert(rest[0] == fields[1]);
            if fields[1] == "message"@ {
                lemma_text_back(v, rendered);
            }
        } else {
            law_attribute_read_after_write(span.span_attrs, fields, v);
        }
    }
}

/// Whether nothing is left at a path into a span event after a removal there: an attribute must not
/// stand behind the place that a field has in the span, and neither the count of dropped attributes
/// of the resource nor the code of the status can be removed.
pub open spec fn span_lets_go(span: OtelSpanView, path: Seq<Seq<char>>) -> bool {
    if path.len() == 1 {
        OtelSpanView::is_clearable(path[0]) && path[0] != "status"@ ==> value_of(
            span.span_attrs,
            path[0],
        ) is None
    } else if path[0] == "status"@ {
        path.len() == 2 && path[1] == "code"@ ==> span.span.status is None
    } else {
        path[0] == "resource"@ && path.len() == 2 && path[1] == "dropped_attributes_count"@ ==> (
        span.resource matches Some(r) ==> r.dropped_attributes_count == 0)
    }
}

/// Nothing is read at a path through fields of a span event after what stood there was removed, if
/// it can be let go.
pub proof fn law_span_read_after_remove(span: OtelSpanView, path: TargetPathView, prune: bool)
    requires
        span.wf(),
        is_field_path(path.path),
        match path.prefix {
            PathPrefix::Event => span_lets_go(span, path_names(path.path)),
            PathPrefix::Metadata => in_order(span.metadata.value),
        },
    ensures
        span.without(path, prune).at(path) is None,
{
    let fields = path_names(path.path);
    if path.prefix == PathPrefix::Metadata {
        law_path_read_after_remove(span.metadata.value, path.path, prune);
    } else if path.path.len() == 1 {
        lemma_path_names();
        law_read_after_remove(span.span_attrs, fields[0]);
    } else {
        lemma_path_names();
        let rest = fields.drop_first();
        if fields[0] == "resource"@ {
            law_attribute_read_after_remove(span.resource_attrs, rest, prune);
        } else if fields[0] == "scope"@ {
            if let Some(s) = span.scope {
                lemma_scope_read_after_remove(s, span.scope_attrs, rest, prune);
            }
        } else if fields[0] == "status"@ {
            assert(rest[0] == fields[1]);
        } else {
            law_attribute_read_after_remove(span.span_attrs, fields, prune);
        }
    }
}

} // verus!
