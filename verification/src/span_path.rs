//! Reading, writing and removing the fields of a span event by path.
use vstd::prelude::*;

use crate::any_value::{any_from_value, vrl_value_to_any_value, AnyView};
use crate::canonical::{
    attr_at, attrs_pruned, attrs_with, attrs_without, get_attr_path, get_resource_path,
    get_scope_path, insert_attr_path, insert_scope_path, int_or_zero, remove_attrs_subpath,
    remove_resource_subpath, remove_scope_subpath, resource_at, scope_at, scope_attrs_with,
    scope_attrs_without, scope_or_default, scope_with, text_unless_empty, text_value,
};
use crate::fields::names;
use crate::hex::{hex_decode, hex_decoded};
use crate::keyed::{opt_view, value_of, with_entry, without_entry};
use crate::log_path::{
    any_value, count_unless_zero, count_value, field_names, id_unless_empty, id_value,
    is_field_path, path_names, read_any,
};
use crate::metadata::MetadataView;
use crate::otlp_span::{SpanView, Status, StatusView};
use crate::path::{fetched, removed, stored, OwnedTargetPath, PathPrefix, TargetPathView};
use crate::path_text::{parse_target_path, path_read, PathParseError};
use crate::span::{OtelSpan, OtelSpanView};
use crate::span_value::{
    instant_nanos, nanos_of_instant, span_from_value, status_object, status_value,
};
use crate::text::{lossy, lossy_text, str_eq};
use crate::time::{instant_after, to_i32, to_i64, wrap_i32, wrap_i64, Timestamp};
use crate::value::{lemma_object_view, Value, ValueView};

verus! {

/// The instant a number of nanoseconds after the Unix epoch, or nothing where the number is zero.
pub open spec fn instant_unless_zero(nanos: u64) -> Option<ValueView> {
    if nanos == 0 {
        None
    } else {
        Some(ValueView::Timestamp(instant_after(nanos)))
    }
}

fn instant_value(nanos: u64) -> (r: Option<Value>)
    ensures
        opt_view(r) == instant_unless_zero(nanos),
{
    if nanos == 0 {
        None
    } else {
        Some(Value::Timestamp(Timestamp::from_nanos(nanos)))
    }
}

/// The text that a value holds, or an empty one where it holds none.
pub open spec fn text_held(v: Option<ValueView>) -> Seq<char> {
    match v {
        Some(ValueView::Bytes(b)) => lossy(b),
        _ => Seq::empty(),
    }
}

/// The text that a value holds, or an empty one where it holds none.
pub fn held_text(v: Option<&Value>) -> (r: String)
    ensures
        r@ == text_held(opt_view(v)),
{
    match v {
        Some(Value::Bytes(b)) => lossy_text(b.as_slice()),
        _ => String::new(),
    }
}

/// The integer that a value holds, or zero where it holds none.
pub fn held_integer(v: Option<&Value>) -> (r: i64)
    ensures
        r == int_or_zero(opt_view(v)),
{
    match v {
        Some(Value::Integer(i)) => *i,
        _ => 0,
    }
}

/// The status, or the one in which nothing is set.
pub open spec fn status_or_default(s: Option<StatusView>) -> StatusView {
    match s {
        Some(s) => s,
        None => StatusView::default_view(),
    }
}

/// What a field of the status holds.
pub open spec fn status_at(s: StatusView, path: Seq<Seq<char>>) -> Option<ValueView> {
    if path.len() == 1 && path[0] == "message"@ {
        text_unless_empty(s.message)
    } else if path.len() == 1 && path[0] == "code"@ {
        Some(ValueView::Integer(s.code as i64))
    } else {
        None
    }
}

/// The status after one of its fields was set: the message to a text, the code to a number where
/// there is one.
pub open spec fn status_with(
    s: StatusView,
    path: Seq<Seq<char>>,
    message: Seq<char>,
    code: Option<i64>,
) -> StatusView {
    if path.len() == 1 && path[0] == "message"@ {
        StatusView { message, ..s }
    } else if path.len() == 1 && path[0] == "code"@ {
        match code {
            Some(n) => StatusView { code: wrap_i32(n as int), ..s },
            None => s,
        }
    } else {
        s
    }
}

impl OtelSpanView {
    /// Whether a field is read from, and written to, a place of its own in the span.
    pub open spec fn is_span_field(name: Seq<char>) -> bool {
        ||| name == "name"@
        ||| name == "trace_id"@
        ||| name == "span_id"@
        ||| name == "parent_span_id"@
        ||| name == "start_time"@
        ||| name == "end_time"@
        ||| name == "kind"@
        ||| name == "status"@
    }

    /// Whether the removal of a field clears a place in the span.
    pub open spec fn is_clearable(name: Seq<char>) -> bool {
        ||| Self::is_span_field(name)
        ||| name == "start_time_unix_nano"@
        ||| name == "end_time_unix_nano"@
        ||| name == "flags"@
        ||| name == "dropped_attributes_count"@
    }

    /// What stands in the place in the span that a field has.
    pub open spec fn span_field(&self, name: Seq<char>) -> Option<ValueView> {
        if name == "name"@ {
            text_unless_empty(self.span.name)
        } else if name == "trace_id"@ {
            id_unless_empty(self.span.trace_id)
        } else if name == "span_id"@ {
            id_unless_empty(self.span.span_id)
        } else if name == "parent_span_id"@ {
            id_unless_empty(self.span.parent_span_id)
        } else if name == "start_time"@ {
            instant_unless_zero(self.span.start_time_unix_nano)
        } else if name == "end_time"@ {
            instant_unless_zero(self.span.end_time_unix_nano)
        } else if name == "kind"@ {
            count_unless_zero(self.span.kind as i64)
        } else if name == "status"@ {
            match self.span.status {
                Some(s) => Some(status_object(s)),
                None => None,
            }
        } else if name == "start_time_unix_nano"@ {
            count_unless_zero(wrap_i64(self.span.start_time_unix_nano as int))
        } else if name == "end_time_unix_nano"@ {
            count_unless_zero(wrap_i64(self.span.end_time_unix_nano as int))
        } else if name == "flags"@ {
            count_unless_zero(self.span.flags as i64)
        } else {
            count_unless_zero(self.span.dropped_attributes_count as i64)
        }
    }

    /// What a field holds: what stands in the place of its own that it has in the span, or else,
    /// unless it is the status, the attribute of its name.
    pub open spec fn field(&self, name: Seq<char>) -> Option<ValueView> {
        if Self::is_span_field(name) && (name == "status"@ || self.span_field(name) is Some) {
            self.span_field(name)
        } else {
            read_any(value_of(self.span_attrs, name))
        }
    }

    /// What the write of a field replaces.
    pub open spec fn replaced(&self, name: Seq<char>) -> Option<ValueView> {
        if Self::is_span_field(name) {
            self.span_field(name)
        } else {
            read_any(value_of(self.span_attrs, name))
        }
    }

    /// What the removal of a field gives.
    pub open spec fn cleared(&self, name: Seq<char>) -> Option<ValueView> {
        if Self::is_clearable(name) {
            self.span_field(name)
        } else {
            read_any(value_of(self.span_attrs, name))
        }
    }

    /// What a nested field holds: within the resource, within the scope, within the status, or
    /// within an attribute.
    pub open spec fn nested(&self, path: Seq<Seq<char>>) -> Option<ValueView> {
        if path[0] == "resource"@ {
            resource_at(self.resource, self.resource_attrs, path.drop_first())
        } else if path[0] == "scope"@ {
            scope_at(self.scope, self.scope_attrs, path.drop_first())
        } else if path[0] == "status"@ {
            match self.span.status {
                Some(s) => status_at(s, path.drop_first()),
                None => None,
            }
        } else {
            attr_at(self.span_attrs, path)
        }
    }

    /// What a path leads to. A path through fields is followed in the event itself, another in the
    /// object that the event is read as, one into the metadata in the value of the metadata.
    pub open spec fn at(&self, path: TargetPathView) -> Option<ValueView> {
        if path.prefix == PathPrefix::Metadata {
            fetched(self.metadata.value, path.path)
        } else if !is_field_path(path.path) {
            fetched(ValueView::Object(self.canonical()), path.path)
        } else if path.path.len() == 1 {
            self.field(path_names(path.path)[0])
        } else {
            self.nested(path_names(path.path))
        }
    }

    /// The event with an attribute set.
    pub open spec fn with_attribute(self, name: Seq<char>, v: AnyView) -> OtelSpanView {
        OtelSpanView { span_attrs: with_entry(self.span_attrs, name, v), ..self }
    }

    /// The event after a field was written. A value that does not fit the place that the field has
    /// in the span is kept as an attribute, or not at all where that place is the kind or the
    /// status.
    pub open spec fn with_field(self, name: Seq<char>, v: ValueView, rendered: Seq<char>) -> OtelSpanView {
        let s = self.span;
        if name == "name"@ {
            OtelSpanView { span: SpanView { name: v.shown(rendered), ..s }, ..self }
        } else if name == "trace_id"@ {
            match hex_decoded(v) {
                Some(id) => OtelSpanView { span: SpanView { trace_id: id, ..s }, ..self },
                None => self.with_attribute(name, any_from_value(v)),
            }
        } else if name == "span_id"@ {
            match hex_decoded(v) {
                Some(id) => OtelSpanView { span: SpanView { span_id: id, ..s }, ..self },
                None => self.with_attribute(name, any_from_value(v)),
            }
        } else if name == "parent_span_id"@ {
            match hex_decoded(v) {
                Some(id) => OtelSpanView { span: SpanView { parent_span_id: id, ..s }, ..self },
                None => self.with_attribute(name, any_from_value(v)),
            }
        } else if name == "start_time"@ {
            match nanos_of_instant(Some(v)) {
                Some(n) => OtelSpanView { span: SpanView { start_time_unix_nano: n, ..s }, ..self },
                None => self.with_attribute(name, any_from_value(v)),
            }
        } else if name == "end_time"@ {
            match nanos_of_instant(Some(v)) {
                Some(n) => OtelSpanView { span: SpanView { end_time_unix_nano: n, ..s }, ..self },
                None => self.with_attribute(name, any_from_value(v)),
            }
        } else if name == "kind"@ {
            match v {
                ValueView::Integer(n) => OtelSpanView {
                    span: SpanView { kind: wrap_i32(n as int), ..s },
                    ..self
                },
                _ => self,
            }
        } else if name == "status"@ {
            match v {
                ValueView::Object(m) => OtelSpanView {
                    span: SpanView {
                        status: Some(
                            StatusView {
                                message: text_held(value_of(m, "message"@)),
                                code: wrap_i32(int_or_zero(value_of(m, "code"@)) as int),
                            },
                        ),
                        ..s
                    },
                    ..self
                },
                _ => self,
            }
        } else {
            self.with_attribute(name, any_from_value(v))
        }
    }

    /// The event after a nested field was written.
    pub open spec fn with_nested(self, path: Seq<Seq<char>>, v: ValueView, rendered: Seq<char>) -> OtelSpanView {
        if path[0] == "resource"@ {
            OtelSpanView {
                resource_attrs: attrs_with(self.resource_attrs, path.drop_first(), v),
                ..self.with_some_resource()
            }
        } else if path[0] == "scope"@ {
            OtelSpanView {
                scope: Some(
                    scope_with(scope_or_default(self.scope), path.drop_first(), v.shown(rendered)),
                ),
                scope_attrs: scope_attrs_with(self.scope_attrs, path.drop_first(), v),
                ..self
            }
        } else if path[0] == "status"@ {
            OtelSpanView {
                span: SpanView {
                    status: Some(
                        status_with(
                            status_or_default(self.span.status),
                            path.drop_first(),
                            v.shown(rendered),
                            v.integer(),
                        ),
                    ),
                    ..self.span
                },
                ..self
            }
        } else {
            OtelSpanView { span_attrs: attrs_with(self.span_attrs, path, v), ..self }
        }
    }

    /// What the write of a nested field replaces.
    pub open spec fn nested_replaced(&self, path: Seq<Seq<char>>) -> Option<ValueView> {
        if path[0] == "resource"@ {
            attr_at(self.resource_attrs, path.drop_first())
        } else if path[0] == "scope"@ {
            scope_at(Some(scope_or_default(self.scope)), self.scope_attrs, path.drop_first())
        } else if path[0] == "status"@ {
            status_at(status_or_default(self.span.status), path.drop_first())
        } else {
            attr_at(self.span_attrs, path)
        }
    }

    /// The event after `v` was written at a path.
    pub open spec fn with(self, path: TargetPathView, v: ValueView, rendered: Seq<char>) -> OtelSpanView {
        if path.prefix == PathPrefix::Metadata {
            OtelSpanView {
                metadata: MetadataView {
                    value: stored(Some(self.metadata.value), path.path, v),
                    ..self.metadata
                },
                ..self
            }
        } else if !is_field_path(path.path) {
            span_from_value(
                stored(Some(ValueView::Object(self.canonical())), path.path, v),
                self.metadata,
            )
        } else if path.path.len() == 1 {
            self.with_field(path_names(path.path)[0], v, rendered)
        } else {
            self.with_nested(path_names(path.path), v, rendered)
        }
    }

    /// What a write at a path replaces.
    pub open spec fn replaced_at(&self, path: TargetPathView) -> Option<ValueView> {
        if path.prefix == PathPrefix::Metadata {
            fetched(self.metadata.value, path.path)
        } else if !is_field_path(path.path) {
            fetched(ValueView::Object(self.canonical()), path.path)
        } else if path.path.len() == 1 {
            self.replaced(path_names(path.path)[0])
        } else {
            self.nested_replaced(path_names(path.path))
        }
    }

    /// The event after a field was removed: the place that it has in the span is cleared, or the
    /// attribute of its name goes where it has none.
    pub open spec fn without_field(self, name: Seq<char>) -> OtelSpanView {
        let s = self.span;
        if name == "name"@ {
            OtelSpanView { span: SpanView { name: Seq::empty(), ..s }, ..self }
        } else if name == "trace_id"@ {
            OtelSpanView { span: SpanView { trace_id: Seq::empty(), ..s }, ..self }
        } else if name == "span_id"@ {
            OtelSpanView { span: SpanView { span_id: Seq::empty(), ..s }, ..self }
        } else if name == "parent_span_id"@ {
            OtelSpanView { span: SpanView { parent_span_id: Seq::empty(), ..s }, ..self }
        } else if name == "start_time"@ || name == "start_time_unix_nano"@ {
            OtelSpanView { span: SpanView { start_time_unix_nano: 0, ..s }, ..self }
        } else if name == "end_time"@ || name == "end_time_unix_nano"@ {
            OtelSpanView { span: SpanView { end_time_unix_nano: 0, ..s }, ..self }
        } else if name == "kind"@ {
            OtelSpanView { span: SpanView { kind: 0, ..s }, ..self }
        } else if name == "flags"@ {
            OtelSpanView { span: SpanView { flags: 0, ..s }, ..self }
        } else if name == "dropped_attributes_count"@ {
            OtelSpanView { span: SpanView { dropped_attributes_count: 0, ..s }, ..self }
        } else if name == "status"@ {
            OtelSpanView { span: SpanView { status: None, ..s }, ..self }
        } else {
            OtelSpanView { span_attrs: without_entry(self.span_attrs, name), ..self }
        }
    }

    /// What the removal of a nested field gives.
    pub open spec fn nested_removed(&self, path: Seq<Seq<char>>) -> Option<ValueView> {
        if path[0] == "resource"@ {
            attr_at(self.resource_attrs, path.drop_first())
        } else {
            self.nested(path)
        }
    }

    /// The event after a nested field was removed.
    pub open spec fn without_nested(self, path: Seq<Seq<char>>, prune: bool) -> OtelSpanView {
        if path[0] == "resource"@ {
            OtelSpanView {
                resource_attrs: attrs_without(self.resource_attrs, path.drop_first(), prune),
                ..self
            }
        } else if path[0] == "scope"@ {
            match self.scope {
                Some(s) => OtelSpanView {
                    scope: Some(scope_with(s, path.drop_first(), Seq::empty())),
                    scope_attrs: scope_attrs_without(self.scope_attrs, path.drop_first(), prune),
                    ..self
                },
                None => self,
            }
        } else if path[0] == "status"@ {
            match self.span.status {
                Some(s) => OtelSpanView {
                    span: SpanView {
                        status: Some(status_with(s, path.drop_first(), Seq::empty(), Some(0))),
                        ..self.span
                    },
                    ..self
                },
                None => self,
            }
        } else {
            OtelSpanView { span_attrs: attrs_pruned(self.span_attrs, path, prune), ..self }
        }
    }

    /// The event after what a path leads to was removed.
    pub open spec fn without(self, path: TargetPathView, prune: bool) -> OtelSpanView {
        if path.prefix == PathPrefix::Metadata {
            OtelSpanView {
                metadata: MetadataView {
                    value: removed(self.metadata.value, path.path, prune),
                    ..self.metadata
                },
                ..self
            }
        } else if !is_field_path(path.path) {
            span_from_value(
                removed(ValueView::Object(self.canonical()), path.path, prune),
                self.metadata,
            )
        } else if path.path.len() == 1 {
            self.without_field(path_names(path.path)[0])
        } else {
            self.without_nested(path_names(path.path), prune)
        }
    }

    /// What the removal of what a path leads to gives.
    pub open spec fn removed_at(&self, path: TargetPathView) -> Option<ValueView> {
        if path.prefix == PathPrefix::Metadata {
            fetched(self.metadata.value, path.path)
        } else if !is_field_path(path.path) {
            fetched(ValueView::Object(self.canonical()), path.path)
        } else if path.path.len() == 1 {
            self.cleared(path_names(path.path)[0])
        } else {
            self.nested_removed(path_names(path.path))
        }
    }
}

/// Sets a field of the status.
fn set_status_field(status: &mut Status, field: &str, message: String, code: Option<i64>) -> (r: Option<
    Value,
>)
    ensures
        final(status)@ == status_with(old(status)@, seq![field@], message@, code),
        opt_view(r) == status_at(old(status)@, seq![field@]),
{
    if str_eq(field, "message") {
        let old = text_value(status.message.as_str());
        status.message = message;
        old
    } else if str_eq(field, "code") {
        let old = Some(Value::Integer(status.code as i64));
        if let Some(n) = code {
            status.code = to_i32(n);
        }
        old
    } else {
        None
    }
}

impl OtelSpan {
    /// What stands in the place in the span that a field has.
    fn own_field(&self, field: &str) -> (r: Option<Value>)
        requires
            OtelSpanView::is_clearable(field@),
        ensures
            opt_view(r) == self@.span_field(field@),
    {
        if str_eq(field, "name") {
            text_value(self.span.name.as_str())
        } else if str_eq(field, "trace_id") {
            id_value(&self.span.trace_id)
        } else if str_eq(field, "span_id") {
            id_value(&self.span.span_id)
        } else if str_eq(field, "parent_span_id") {
            id_value(&self.span.parent_span_id)
        } else if str_eq(field, "start_time") {
            instant_value(self.span.start_time_unix_nano)
        } else if str_eq(field, "end_time") {
            instant_value(self.span.end_time_unix_nano)
        } else if str_eq(field, "kind") {
            count_value(self.span.kind as i64)
        } else if str_eq(field, "status") {
            match &self.span.status {
                Some(s) => Some(status_value(s)),
                None => None,
            }
        } else if str_eq(field, "start_time_unix_nano") {
            count_value(to_i64(self.span.start_time_unix_nano))
        } else if str_eq(field, "end_time_unix_nano") {
            count_value(to_i64(self.span.end_time_unix_nano))
        } else if str_eq(field, "flags") {
            count_value(self.span.flags as i64)
        } else {
            count_value(self.span.dropped_attributes_count as i64)
        }
    }

    /// Whether a field is read from, and written to, a place of its own in the span.
    fn has_own_field(field: &str) -> (r: bool)
        ensures
            r == OtelSpanView::is_span_field(field@),
    {
        str_eq(field, "name") || str_eq(field, "trace_id") || str_eq(field, "span_id") || str_eq(
            field,
            "parent_span_id",
        ) || str_eq(field, "start_time") || str_eq(field, "end_time") || str_eq(field, "kind")
            || str_eq(field, "status")
    }

    /// Whether the removal of a field clears a place in the span.
    fn clears_own_field(field: &str) -> (r: bool)
        ensures
            r == OtelSpanView::is_clearable(field@),
    {
        OtelSpan::has_own_field(field) || str_eq(field, "start_time_unix_nano") || str_eq(
            field,
            "end_time_unix_nano",
        ) || str_eq(field, "flags") || str_eq(field, "dropped_attributes_count")
    }

    fn span_get_single_segment(&self, field: &str) -> (r: Option<Value>)
        ensures
            opt_view(r) == self@.field(field@),
    {
        if OtelSpan::has_own_field(field) {
            let own = self.own_field(field);
            if own.is_some() || str_eq(field, "status") {
                return own;
            }
        }
        any_value(self.span_attrs.get(field))
    }

    fn span_get_field_path(&self, fields: &Vec<String>) -> (r: Option<Value>)
        requires
            fields.len() >= 2,
        ensures
            opt_view(r) == self@.nested(names(fields@)),
    {
        assert(names(fields@).skip(1) =~= names(fields@).drop_first());
        assert(names(fields@).skip(0) =~= names(fields@));
        if str_eq(fields[0].as_str(), "resource") {
            get_resource_path(self.resource.as_ref(), &self.resource_attrs, fields, 1)
        } else if str_eq(fields[0].as_str(), "scope") {
            get_scope_path(self.scope.as_ref(), &self.scope_attrs, fields, 1)
        } else if str_eq(fields[0].as_str(), "status") {
            match &self.span.status {
                Some(status) => if fields.len() != 2 {
                    None
                } else if str_eq(fields[1].as_str(), "message") {
                    text_value(status.message.as_str())
                } else if str_eq(fields[1].as_str(), "code") {
                    Some(Value::Integer(status.code as i64))
                } else {
                    None
                },
                None => None,
            }
        } else {
            get_attr_path(&self.span_attrs, fields, 0)
        }
    }

    /// Get a field value by path.
    pub fn get(&self, path: &OwnedTargetPath) -> (r: Option<Value>)
        ensures
            opt_view(r) == self@.at(path@),
    {
        match path.prefix {
            PathPrefix::Metadata => self.metadata.value().get(&path.path).cloned(),
            PathPrefix::Event => match field_names(&path.path) {
                Some(fields) => if fields.len() == 1 {
                    assert(names(fields@)[0] == fields@[0]@);
                    self.span_get_single_segment(fields[0].as_str())
                } else {
                    self.span_get_field_path(&fields)
                },
                None => self.to_value_canonical().get(&path.path).cloned(),
            },
        }
    }

    /// Keeps a value as an attribute.
    fn keep_attribute(&mut self, field: &str, value: &Value)
        ensures
            final(self)@ == old(self)@.with_attribute(field@, any_from_value(value@)),
    {
        self.span_attrs.insert(field.to_string(), vrl_value_to_any_value(value));
    }

    fn span_insert_single_segment(&mut self, field: &str, value: Value, rendered: &str) -> (r: Option<
        Value,
    >)
        ensures
            final(self)@ == old(self)@.with_field(field@, value@, rendered@),
            opt_view(r) == old(self)@.replaced(field@),
    {
        if !OtelSpan::has_own_field(field) {
            let old = any_value(self.span_attrs.get(field));
            self.keep_attribute(field, &value);
            return old;
        }
        let old = self.own_field(field);
        if str_eq(field, "name") {
            self.span.name = value.to_string_lossy(rendered);
        } else if str_eq(field, "trace_id") {
            match hex_decode(&value) {
                Some(id) => {
                    self.span.trace_id = id;
                },
                None => self.keep_attribute(field, &value),
            }
        } else if str_eq(field, "span_id") {
            match hex_decode(&value) {
                Some(id) => {
                    self.span.span_id = id;
                },
                None => self.keep_attribute(field, &value),
            }
        } else if str_eq(field, "parent_span_id") {
            match hex_decode(&value) {
                Some(id) => {
                    self.span.parent_span_id = id;
                },
                None => self.keep_attribute(field, &value),
            }
        } else if str_eq(field, "start_time") {
            match instant_nanos(&value) {
                Some(n) => {
                    self.span.start_time_unix_nano = n;
                },
                None => self.keep_attribute(field, &value),
            }
        } else if str_eq(field, "end_time") {
            match instant_nanos(&value) {
                Some(n) => {
                    self.span.end_time_unix_nano = n;
                },
                None => self.keep_attribute(field, &value),
            }
        } else if str_eq(field, "kind") {
            if let Some(n) = value.as_integer() {
                self.span.kind = to_i32(n);
            }
        } else if let Value::Object(map) = &value {
            proof {
                lemma_object_view(*map);
            }
            self.span.status = Some(
                Status {
                    message: held_text(map.get("message")),
                    code: to_i32(held_integer(map.get("code"))),
                },
            );
        }
        old
    }

    fn span_insert_field_path(&mut self, fields: &Vec<String>, value: Value, rendered: &str) -> (r:
        Option<Value>)
        requires
            fields.len() >= 2,
        ensures
            final(self)@ == old(self)@.with_nested(names(fields@), value@, rendered@),
            opt_view(r) == old(self)@.nested_replaced(names(fields@)),
    {
        assert(names(fields@).skip(1) =~= names(fields@).drop_first());
        assert(names(fields@).skip(0) =~= names(fields@));
        if str_eq(fields[0].as_str(), "resource") {
            self.ensure_resource();
            insert_attr_path(&mut self.resource_attrs, fields, 1, value)
        } else if str_eq(fields[0].as_str(), "scope") {
            insert_scope_path(
                &mut self.scope,
                &mut self.scope_attrs,
                fields,
                1,
                value,
                rendered,
            )
        } else if str_eq(fields[0].as_str(), "status") {
            let mut status = match self.span.status.take() {
                Some(s) => s,
                None => Status::default(),
            };
            let old = if fields.len() == 2 {
                assert(names(fields@).drop_first() =~= seq![fields@[1]@]);
                set_status_field(
                    &mut status,
                    fields[1].as_str(),
                    value.to_string_lossy(rendered),
                    value.as_integer(),
                )
            } else {
                None
            };
            self.span.status = Some(status);
            old
        } else {
            insert_attr_path(&mut self.span_attrs, fields, 0, value)
        }
    }

    /// Insert a field value by path. Where the value goes into a text field and is not text itself,
    /// `rendered` is the text that it is shown as.
    pub fn insert(&mut self, path: &OwnedTargetPath, value: Value, rendered: &str) -> (r: Option<
        Value,
    >)
        ensures
            final(self)@ == old(self)@.with(path@, value@, rendered@),
            opt_view(r) == old(self)@.replaced_at(path@),
    {
        match path.prefix {
            PathPrefix::Metadata => self.metadata.value_mut().insert(&path.path, value),
            PathPrefix::Event => match field_names(&path.path) {
                Some(fields) => if fields.len() == 1 {
                    assert(names(fields@)[0] == fields@[0]@);
                    self.span_insert_single_segment(fields[0].as_str(), value, rendered)
                } else {
                    self.span_insert_field_path(&fields, value, rendered)
                },
                None => {
                    let mut val = self.to_value_canonical();
                    let old = val.insert(&path.path, value);
                    self.apply_value_map(val);
                    old
                },
            },
        }
    }

    /// Remove a field value by path.
    pub fn remove(&mut self, path: &OwnedTargetPath) -> (r: Option<Value>)
        ensures
            final(self)@ == old(self)@.without(path@, false),
            opt_view(r) == old(self)@.removed_at(path@),
    {
        self.remove_prune(path, false)
    }

    /// Remove at `path`. If `prune` is true, empty parent objects along
    /// the path are also removed.
    pub fn remove_prune(&mut self, path: &OwnedTargetPath, prune: bool) -> (r: Option<Value>)
        ensures
            final(self)@ == old(self)@.without(path@, prune),
            opt_view(r) == old(self)@.removed_at(path@),
    {
        match path.prefix {
            PathPrefix::Metadata => self.metadata.value_mut().remove(&path.path, prune),
            PathPrefix::Event => match field_names(&path.path) {
                Some(fields) => if fields.len() == 1 {
                    assert(names(fields@)[0] == fields@[0]@);
                    self.span_remove_single_segment(fields[0].as_str())
                } else {
                    self.span_remove_field_path(&fields, prune)
                },
                None => {
                    let mut val = self.to_value_canonical();
                    let old = val.remove(&path.path, prune);
                    self.apply_value_map(val);
                    old
                },
            },
        }
    }

    fn span_remove_single_segment(&mut self, field: &str) -> (r: Option<Value>)
        ensures
            final(self)@ == old(self)@.without_field(field@),
            opt_view(r) == old(self)@.cleared(field@),
    {
        if !OtelSpan::clears_own_field(field) {
            let old = self.span_attrs.remove(field);
            return any_value(old.as_ref());
        }
        let old = self.own_field(field);
        if str_eq(field, "name") {
            self.span.name = String::new();
        } else if str_eq(field, "trace_id") {
            self.span.trace_id = Vec::new();
        } else if str_eq(field, "span_id") {
            self.span.span_id = Vec::new();
        } else if str_eq(field, "parent_span_id") {
            self.span.parent_span_id = Vec::new();
        } else if str_eq(field, "start_time") || str_eq(field, "start_time_unix_nano") {
            self.span.start_time_unix_nano = 0;
        } else if str_eq(field, "end_time") || str_eq(field, "end_time_unix_nano") {
            self.span.end_time_unix_nano = 0;
        } else if str_eq(field, "kind") {
            self.span.kind = 0;
        } else if str_eq(field, "flags") {
            self.span.flags = 0;
        } else if str_eq(field, "dropped_attributes_count") {
            self.span.dropped_attributes_count = 0;
        } else {
            self.span.status = None;
        }
        old
    }

    fn span_remove_field_path(&mut self, fields: &Vec<String>, prune: bool) -> (r: Option<Value>)
        requires
            fields.len() >= 2,
        ensures
            final(self)@ == old(self)@.without_nested(names(fields@), prune),
            opt_view(r) == old(self)@.nested_removed(names(fields@)),
    {
        assert(names(fields@).skip(1) =~= names(fields@).drop_first());
        assert(names(fields@).skip(0) =~= names(fields@));
        if str_eq(fields[0].as_str(), "resource") {
            remove_resource_subpath(&mut self.resource_attrs, fields, 1, prune)
        } else if str_eq(fields[0].as_str(), "scope") {
            remove_scope_subpath(&mut self.scope, &mut self.scope_attrs, fields, 1, prune)
        } else if str_eq(fields[0].as_str(), "status") {
            if fields.len() != 2 {
                return None;
            }
            assert(names(fields@).drop_first() =~= seq![fields@[1]@]);
            match self.span.status.take() {
                Some(mut status) => {
                    let old = set_status_field(
                        &mut status,
                        fields[1].as_str(),
                        String::new(),
                        Some(0),
                    );
                    self.span.status = Some(status);
                    old
                },
                None => None,
            }
        } else {
            remove_attrs_subpath(&mut self.span_attrs, fields, 0, prune)
        }
    }

    /// Check if a field exists.
    pub fn contains(&self, path: &OwnedTargetPath) -> (r: bool)
        ensures
            r == (self@.at(path@) is Some),
    {
        self.get(path).is_some()
    }

    /// Parse a path and get a value.
    pub fn parse_path_and_get_value(&self, path: &str) -> (r: Result<
        Option<Value>,
        PathParseError,
    >)
        ensures
            match r {
                Ok(v) => path_read(path@) matches Ok(p) && opt_view(v) == self@.at(p),
                Err(PathParseError::InvalidPathSyntax { path: e }) => path_read(path@)
                    == Err::<TargetPathView, Seq<char>>(e@),
            },
    {
        match parse_target_path(path) {
            Ok(p) => Ok(self.get(&p)),
            Err(e) => Err(e),
        }
    }
}

} // verus!
