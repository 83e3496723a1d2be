//! What holds of paths into log events: what is read at a path after something was written or
//! removed there.
use vstd::prelude::*;
use vstd::utf8::{decode_utf8, decode_utf8_encode_utf8, encode_utf8, valid_utf8};

use crate::any_value::{any_from_value, value_from_any, AnyView};
use crate::attributes::{attrs_from_object, object_from_attrs};
use crate::canonical::{
    attr_at, attrs_pruned, attrs_with, attrs_without, scope_at, scope_attrs_with,
    scope_attrs_without, scope_or_default, scope_with, text_unless_empty,
};
use crate::fields::{dropped, field_path};
use crate::hex::{hex_decoded, hex_digits};
use crate::keyed::{ordered, value_of};
use crate::log::OtelLogView;
use crate::log_path::{is_field_path, path_names};
use crate::map_laws::{law_read_after_remove, law_read_after_write};
use crate::otlp::ScopeView;
use crate::path::{stored, PathPrefix, TargetPathView};
use crate::path_laws::{
    in_order, law_path_read_after_remove, law_path_read_after_write, lemma_dropped,
    lemma_dropped_is_stored, lemma_read_is_stored, lemma_stored_in_order, lemma_write_found,
    lemma_write_is_stored,
};
use crate::time::law_wrap_round_trip;
use crate::value::ValueView;
use crate::value_laws::{is_stored, law_value_round_trip};

verus! {

/// What was written below an attribute is read there.
pub proof fn law_attribute_read_after_write(
    attrs: Seq<(Seq<char>, AnyView)>,
    path: Seq<Seq<char>>,
    new: ValueView,
)
    requires
        path.len() > 0,
        is_stored(new),
    ensures
        attr_at(attrs_with(attrs, path, new), path) == Some(new),
{
    let place = match value_of(attrs, path[0]) {
        Some(a) => value_from_any(a),
        None => ValueView::empty_object(),
    };
    if value_of(attrs, path[0]) is Some {
        lemma_read_is_stored(value_of(attrs, path[0])->0);
    } else {
        reveal_with_fuel(is_stored, 2);
    }
    let rest = field_path(path.drop_first());
    let v = stored(Some(place), rest, new);
    lemma_write_is_stored(Some(place), rest, new);
    law_value_round_trip(v);
    law_path_read_after_write(Some(place), rest, new);
    lemma_write_found(attrs, path[0], any_from_value(v));
}

/// A write below one attribute leaves the others as they are.
pub proof fn law_attribute_write_is_local(
    attrs: Seq<(Seq<char>, AnyView)>,
    path: Seq<Seq<char>>,
    other: Seq<Seq<char>>,
    new: ValueView,
)
    requires
        ordered(attrs),
        path.len() > 0,
        other.len() > 0,
        path[0] != other[0],
    ensures
        attr_at(attrs_with(attrs, path, new), other) == attr_at(attrs, other),
{
    let place = match value_of(attrs, path[0]) {
        Some(a) => value_from_any(a),
        None => ValueView::empty_object(),
    };
    let v = stored(Some(place), field_path(path.drop_first()), new);
    law_read_after_write(attrs, path[0], any_from_value(v));
}

/// Nothing is read below an attribute after what stood there was removed.
pub proof fn law_attribute_read_after_remove(
    attrs: Seq<(Seq<char>, AnyView)>,
    path: Seq<Seq<char>>,
    prune: bool,
)
    requires
        ordered(attrs),
        path.len() > 0,
    ensures
        attr_at(attrs_without(attrs, path, prune), path) is None,
        path.len() > 1 ==> attr_at(attrs_pruned(attrs, path, prune), path) is None,
{
    let f = path[0];
    law_read_after_remove(attrs, f);
    if path.len() > 1 {
        if let Some(a) = value_of(attrs, f) {
            let v = value_from_any(a);
            let fields = path.drop_first();
            lemma_read_is_stored(a);
            lemma_stored_in_order(v);
            lemma_dropped(v, fields, prune);
            lemma_dropped_is_stored(v, fields, prune);
            let rest = dropped(v, fields, prune);
            law_value_round_trip(rest);
            law_read_after_write(attrs, f, any_from_value(rest));
        }
    }
}

/// Whether a value is a text that is not empty.
pub open spec fn is_some_text(v: ValueView) -> bool {
    v matches ValueView::Bytes(b) && b.len() > 0 && valid_utf8(b)
}

/// Whether a value is an identifier in hexadecimal notation with small letters.
pub open spec fn is_plain_id(v: ValueView) -> bool {
    match hex_decoded(v) {
        Some(id) => v == ValueView::Bytes(hex_digits(id)),
        None => false,
    }
}

/// Whether a value is an integer other than zero.
pub open spec fn is_some_integer(v: ValueView) -> bool {
    v matches ValueView::Integer(n) && n != 0
}

/// Whether a field of a log event holds a value as it was written: the value must fit the place of
/// its own that the field has in the record.
pub open spec fn field_holds(name: Seq<char>, v: ValueView) -> bool {
    if name == "severity_text"@ {
        is_some_text(v)
    } else if name == "severity_number"@ {
        v matches ValueView::Integer(n) && n != 0 && i32::MIN <= n <= i32::MAX
    } else if name == "trace_id"@ || name == "span_id"@ {
        is_plain_id(v)
    } else if name == "time_unix_nano"@ || name == "observed_time_unix_nano"@ {
        is_some_integer(v)
    } else {
        is_stored(v)
    }
}

/// Whether a nested field of the scope of an event holds a value as it was written.
pub open spec fn scope_holds(path: Seq<Seq<char>>, v: ValueView) -> bool {
    if path.len() == 1 && (path[0] == "name"@ || path[0] == "version"@) {
        is_some_text(v)
    } else {
        &&& path[0] == "attributes"@
        &&& is_stored(v)
        &&& path.len() == 1 ==> v is Object && v->Object_0.len() > 0
    }
}

/// Whether a nested field of an event holds a value as it was written: the count of dropped
/// attributes of the resource cannot be written, nor can a field of the scope that it does not have.
pub open spec fn nested_holds(path: Seq<Seq<char>>, v: ValueView) -> bool {
    if path[0] == "scope"@ {
        scope_holds(path.drop_first(), v)
    } else {
        &&& is_stored(v)
        &&& !(path.len() == 2 && path[0] == "resource"@ && path[1] == "dropped_attributes_count"@)
    }
}

/// A text that is written comes back.
pub proof fn lemma_text_back(v: ValueView, rendered: Seq<char>)
    requires
        is_some_text(v),
    ensures
        text_unless_empty(v.shown(rendered)) == Some(v),
{
    let b = v->Bytes_0;
    decode_utf8_encode_utf8(b);
    if decode_utf8(b).len() == 0 {
        assert(decode_utf8(b) =~= Seq::empty());
        assert(encode_utf8(Seq::<char>::empty()).len() == 0);
    }
}

/// What was written to a field of a log event is read there, if the field can hold it, and the other
/// fields stay as they are.
pub proof fn law_field_read_after_write(
    log: OtelLogView,
    name: Seq<char>,
    v: ValueView,
    rendered: Seq<char>,
)
    requires
        log.wf(),
    ensures
        field_holds(name, v) ==> log.with_field(name, v, rendered).field(name) == Some(v),
        forall|other: Seq<char>|
            other != name ==> #[trigger] log.with_field(name, v, rendered).field(other)
                == log.field(other),
{
    reveal_log_names();
    let after = log.with_field(name, v, rendered);
    law_read_after_write(log.record_attrs, name, any_from_value(v));
    if field_holds(name, v) {
        if name == "severity_text"@ {
            lemma_text_back(v, rendered);
        } else if name == "severity_number"@ {
        } else if name == "trace_id"@ || name == "span_id"@ {
            assert(hex_decoded(v)->0.len() > 0);
        } else if name == "time_unix_nano"@ || name == "observed_time_unix_nano"@ {
            law_wrap_round_trip(0, v->Integer_0);
        } else {
            law_value_round_trip(v);
        }
    }
}

/// An identifier that is not hexadecimal is not lost: it becomes an attribute, and is read under the
/// name of the identifier where the record has none.
pub proof fn law_malformed_id_is_kept(
    log: OtelLogView,
    name: Seq<char>,
    v: ValueView,
    rendered: Seq<char>,
)
    requires
        log.wf(),
        name == "trace_id"@ || name == "span_id"@,
        hex_decoded(v) is None,
    ensures
        log.with_field(name, v, rendered) == log.with_attribute(name, any_from_value(v)),
        value_of(log.with_field(name, v, rendered).record_attrs, name) == Some(any_from_value(v)),
        (if name == "trace_id"@ {
            log.record.trace_id.len() == 0
        } else {
            log.record.span_id.len() == 0
        }) ==> log.with_field(name, v, rendered).field(name) == Some(
            value_from_any(any_from_value(v)),
        ),
{
    reveal_log_names();
    law_read_after_write(log.record_attrs, name, any_from_value(v));
}

/// The lengths of the names of the fields that have a place of their own in the record.
proof fn reveal_log_names()
    ensures
        "body"@.len() == 4,
        "severity_text"@.len() == 13,
        "severity_number"@.len() == 15,
        "trace_id"@.len() == 8,
        "span_id"@.len() == 7,
        "time_unix_nano"@.len() == 14,
        "observed_time_unix_nano"@.len() == 23,
{
    reveal_strlit("body");
    reveal_strlit("severity_text");
    reveal_strlit("severity_number");
    reveal_strlit("trace_id");
    reveal_strlit("span_id");
    reveal_strlit("time_unix_nano");
    reveal_strlit("observed_time_unix_nano");
}

/// The lengths of the names of the fields of a scope.
proof fn reveal_scope_names()
    ensures
        "name"@.len() == 4,
        "version"@.len() == 7,
        "attributes"@.len() == 10,
        "scope"@.len() == 5,
        "resource"@.len() == 8,
{
    reveal_strlit("name");
    reveal_strlit("version");
    reveal_strlit("attributes");
    reveal_strlit("scope");
    reveal_strlit("resource");
}

/// What was written within a scope is read there, if it can be held.
pub proof fn lemma_scope_read_after_write(
    scope: Option<ScopeView>,
    attrs: Seq<(Seq<char>, AnyView)>,
    path: Seq<Seq<char>>,
    v: ValueView,
    rendered: Seq<char>,
)
    requires
        path.len() > 0,
        scope_holds(path, v),
    ensures
        scope_at(
            Some(scope_with(scope_or_default(scope), path, v.shown(rendered))),
            scope_attrs_with(attrs, path, v),
            path,
        ) == Some(v),
{
    reveal_scope_names();
    if path.len() == 1 && (path[0] == "name"@ || path[0] == "version"@) {
        lemma_text_back(v, rendered);
    } else if path.len() > 1 {
        law_attribute_read_after_write(attrs, path.drop_first(), v);
    } else {
        let m = v->Object_0;
        reveal_with_fuel(is_stored, 2);
        assert forall|i: int| 0 <= i < m.len() implies object_from_attrs(attrs_from_object(m))[i]
            == m[i] by {
            law_value_round_trip(m[i].1);
        }
        assert(object_from_attrs(attrs_from_object(m)) =~= m);
    }
}

/// What was written at a path into a log event is read there, if it can be held there. The path goes
/// through fields, or into the metadata.
pub proof fn law_log_read_after_write(
    log: OtelLogView,
    path: TargetPathView,
    v: ValueView,
    rendered: Seq<char>,
)
    requires
        log.wf(),
        path.prefix == PathPrefix::Event ==> is_field_path(path.path) && if path.path.len() == 1 {
            field_holds(path_names(path.path)[0], v)
        } else {
            nested_holds(path_names(path.path), v)
        },
    ensures
        log.with(path, v, rendered).at(path) == Some(v),
{
    let fields = path_names(path.path);
    if path.prefix == PathPrefix::Metadata {
        law_path_read_after_write(Some(log.metadata.value), path.path, v);
    } else if path.path.len() == 1 {
        law_field_read_after_write(log, fields[0], v, rendered);
    } else {
        reveal_scope_names();
        let rest = fields.drop_first();
        if fields[0] == "resource"@ {
            law_attribute_read_after_write(log.resource_attrs, rest, v);
        } else if fields[0] == "scope"@ {
            lemma_scope_read_after_write(log.scope, log.scope_attrs, rest, v, rendered);
        } else {
            law_attribute_read_after_write(log.record_attrs, fields, v);
        }
    }
}

/// Whether nothing is left at a path into a log event after a removal there: an attribute must not
/// stand behind the place of its own that a field has in the record, and the count of dropped
/// attributes of the resource cannot be removed.
pub open spec fn log_lets_go(log: OtelLogView, path: Seq<Seq<char>>) -> bool {
    if path.len() == 1 {
        OtelLogView::is_record_field(path[0]) && path[0] != "body"@ ==> value_of(
            log.record_attrs,
            path[0],
        ) is None
    } else {
        path[0] == "resource"@ && path.len() == 2 && path[1] == "dropped_attributes_count"@ ==> (
        log.resource matches Some(r) ==> r.dropped_attributes_count == 0)
    }
}

/// Nothing is read within a scope after what stood there was removed.
pub proof fn lemma_scope_read_after_remove(
    scope: ScopeView,
    attrs: Seq<(Seq<char>, AnyView)>,
    path: Seq<Seq<char>>,
    prune: bool,
)
    requires
        ordered(attrs),
        path.len() > 0,
    ensures
        scope_at(
            Some(scope_with(scope, path, Seq::empty())),
            scope_attrs_without(attrs, path, prune),
            path,
        ) is None,
{
    reveal_scope_names();
    if path.len() > 1 {
        law_attribute_read_after_remove(attrs, path.drop_first(), prune);
    }
}

/// Nothing is read at a path through fields of a log event after what stood there was removed, if it
/// can be let go.
pub proof fn law_log_read_after_remove(log: OtelLogView, path: TargetPathView, prune: bool)
    requires
        log.wf(),
        is_field_path(path.path),
        match path.prefix {
            PathPrefix::Event => log_lets_go(log, path_names(path.path)),
            PathPrefix::Metadata => in_order(log.metadata.value),
        },
    ensures
        log.without(path, prune).at(path) is None,
{
    let fields = path_names(path.path);
    if path.prefix == PathPrefix::Metadata {
        law_path_read_after_remove(log.metadata.value, path.path, prune);
    } else if path.path.len() == 1 {
        reveal_log_names();
        law_read_after_remove(log.record_attrs, fields[0]);
    } else {
        reveal_scope_names();
        let rest = fields.drop_first();
        if fields[0] == "resource"@ {
            law_attribute_read_after_remove(log.resource_attrs, rest, prune);
        } else if fields[0] == "scope"@ {
            if let Some(s) = log.scope {
                lemma_scope_read_after_remove(s, log.scope_attrs, rest, prune);
            }
        } else {
            law_attribute_read_after_remove(log.record_attrs, fields, prune);
        }
    }
}

} // verus!
