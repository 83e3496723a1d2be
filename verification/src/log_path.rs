//! Reading, writing and removing the fields of a log event by path.
use vstd::prelude::*;

use crate::any_value::{
    any_from_value, any_value_to_vrl, value_from_any, vrl_value_to_any_value, AnyValue, AnyView,
};
use crate::canonical::{
    attr_at, attrs_pruned, attrs_with, attrs_without, get_attr_path, get_resource_path,
    get_scope_path, insert_attr_path, insert_scope_path, remove_attrs_subpath,
    remove_resource_subpath, remove_scope_subpath, resource_at, scope_at, scope_attrs_with,
    scope_attrs_without, scope_or_default, scope_with, text_unless_empty, text_value,
};
use crate::fields::names;
use crate::hex::{hex_decode, hex_decoded, hex_digits, hex_encode};
use crate::keyed::{opt_view, value_of, with_entry, without_entry};
use crate::log::{OtelLog, OtelLogView};
use crate::log_value::log_written_back;
use crate::metadata::MetadataView;
use crate::otlp::{LogRecordView, Resource, ResourceView};
use crate::path::{
    fetched, removed, stored, OwnedSegment, OwnedTargetPath, OwnedValuePath, PathPrefix,
    SegmentView, TargetPathView,
};
use crate::text::str_eq;
use crate::time::{epoch_nanos, to_i32, to_i64, to_u64, wrap_i32, wrap_i64, wrap_u64};
use crate::value::{Value, ValueView};

verus! {

/// Whether a path goes through fields only, and through at least one.
pub open spec fn is_field_path(path: Seq<SegmentView>) -> bool {
    path.len() > 0 && forall|i: int| 0 <= i < path.len() ==> (#[trigger] path[i]) is Field
}

/// The names of the fields that a path goes through.
pub open spec fn path_names(path: Seq<SegmentView>) -> Seq<Seq<char>> {
    Seq::new(path.len(), |i: int| path[i]->Field_0)
}

/// The names of the fields that a path goes through, if it goes through fields only.
pub fn field_names(path: &OwnedValuePath) -> (r: Option<Vec<String>>)
    ensures
        match r {
            Some(f) => is_field_path(path@) && names(f@) == path_names(path@) && f@.len()
                == path@.len(),
            None => !is_field_path(path@),
        },
{
    if path.segments.len() == 0 {
        return None;
    }
    let mut fields: Vec<String> = Vec::new();
    let mut i: usize = 0;
    while i < path.segments.len()
        invariant
            i <= path.segments@.len(),
            fields@.len() == i,
            forall|j: int|
                0 <= j < i ==> (#[trigger] path@[j]) is Field && fields@[j]@ == path@[j]->Field_0,
        decreases path.segments@.len() - i,
    {
        assert(path@[i as int] == path.segments@[i as int]@);
        match &path.segments[i] {
            OwnedSegment::Field(f) => {
                fields.push(f.clone());
            },
            OwnedSegment::Index(_) => {
                return None;
            },
        }
        i = i + 1;
    }
    assert(names(fields@) =~= path_names(path@));
    Some(fields)
}

/// An integer as a value, or nothing where it is zero.
pub open spec fn count_unless_zero(n: i64) -> Option<ValueView> {
    if n == 0 {
        None
    } else {
        Some(ValueView::Integer(n))
    }
}

/// An identifier in hexadecimal notation, or nothing where it is empty.
pub open spec fn id_unless_empty(id: Seq<u8>) -> Option<ValueView> {
    if id.len() == 0 {
        None
    } else {
        Some(ValueView::Bytes(hex_digits(id)))
    }
}

pub fn count_value(n: i64) -> (r: Option<Value>)
    ensures
        opt_view(r) == count_unless_zero(n),
{
    if n == 0 {
        None
    } else {
        Some(Value::Integer(n))
    }
}

pub fn id_value(id: &Vec<u8>) -> (r: Option<Value>)
    ensures
        opt_view(r) == id_unless_empty(id@),
{
    if id.len() == 0 {
        None
    } else {
        Some(hex_encode(id))
    }
}

/// An optional attribute value, read as a value.
pub open spec fn read_any(a: Option<AnyView>) -> Option<ValueView> {
    match a {
        Some(a) => Some(value_from_any(a)),
        None => None,
    }
}

/// The nanoseconds since the Unix epoch that a value gives: an integer, or an instant.
pub open spec fn nanos_given(v: ValueView) -> Option<u64> {
    match v {
        ValueView::Integer(i) => Some(wrap_u64(i as int)),
        ValueView::Timestamp(t) => Some(wrap_u64(epoch_nanos(t) as int)),
        _ => None,
    }
}

pub fn given_nanos(v: &Value) -> (r: Option<u64>)
    ensures
        r == nanos_given(v@),
{
    match v {
        Value::Integer(i) => Some(to_u64(*i)),
        Value::Timestamp(t) => Some(to_u64(t.nanos_or_zero())),
        _ => None,
    }
}

impl OtelLogView {
    /// Whether a field has a place of its own in the record.
    pub open spec fn is_record_field(name: Seq<char>) -> bool {
        ||| name == "body"@
        ||| name == "severity_text"@
        ||| name == "severity_number"@
        ||| name == "trace_id"@
        ||| name == "span_id"@
        ||| name == "time_unix_nano"@
        ||| name == "observed_time_unix_nano"@
    }

    /// What stands in the place of its own that a field has in the record.
    pub open spec fn record_field(&self, name: Seq<char>) -> Option<ValueView> {
        if name == "body"@ {
            read_any(self.record.body)
        } else if name == "severity_text"@ {
            text_unless_empty(self.record.severity_text)
        } else if name == "severity_number"@ {
            count_unless_zero(self.record.severity_number as i64)
        } else if name == "trace_id"@ {
            id_unless_empty(self.record.trace_id)
        } else if name == "span_id"@ {
            id_unless_empty(self.record.span_id)
        } else if name == "time_unix_nano"@ {
            count_unless_zero(wrap_i64(self.record.time_unix_nano as int))
        } else {
            count_unless_zero(wrap_i64(self.record.observed_time_unix_nano as int))
        }
    }

    /// What a field holds: what stands in the place of its own that it has in the record, or else,
    /// unless it is the body, the attribute of its name.
    pub open spec fn field(&self, name: Seq<char>) -> Option<ValueView> {
        if Self::is_record_field(name) && (name == "body"@ || self.record_field(name) is Some) {
            self.record_field(name)
        } else {
            read_any(value_of(self.record_attrs, name))
        }
    }

    /// What the write or the removal of a field replaces: what stands in the place of its own that
    /// the field has in the record, or the attribute of its name where it has none.
    pub open spec fn replaced(&self, name: Seq<char>) -> Option<ValueView> {
        if Self::is_record_field(name) {
            self.record_field(name)
        } else {
            read_any(value_of(self.record_attrs, name))
        }
    }

    /// What a nested field holds: within the resource, within the scope, or within an attribute.
    pub open spec fn nested(&self, path: Seq<Seq<char>>) -> Option<ValueView> {
        if path[0] == "resource"@ {
            resource_at(self.resource, self.resource_attrs, path.drop_first())
        } else if path[0] == "scope"@ {
            scope_at(self.scope, self.scope_attrs, path.drop_first())
        } else {
            attr_at(self.record_attrs, path)
        }
    }

    /// What a path leads to. A path through fields is followed in the event itself, another in the
    /// object that the event is read as, one into the metadata in the value of the metadata.
    pub open spec fn at(&self, path: TargetPathView) -> Option<ValueView> {
        if path.prefix == PathPrefix::Metadata {
            fetched(self.metadata.value, path.path)
        } else if !is_field_path(path.path) {
            fetched(ValueView::Object(self.canonical()), path.path)
        } else if path.path.len() == 1 {
            self.field(path_names(path.path)[0])
        } else {
            self.nested(path_names(path.path))
        }
    }

    /// The event with an attribute set.
    pub open spec fn with_attribute(self, name: Seq<char>, v: AnyView) -> OtelLogView {
        OtelLogView { record_attrs: with_entry(self.record_attrs, name, v), ..self }
    }

    /// The event after a field was written. A value that does not fit the place that the field has
    /// in the record is kept as an attribute, or not at all where that place is the severity number
    /// or the time of observation. Where a text is needed, it is the one that the value is shown as.
    pub open spec fn with_field(self, name: Seq<char>, v: ValueView, rendered: Seq<char>) -> OtelLogView {
        let r = self.record;
        if name == "body"@ {
            OtelLogView { record: LogRecordView { body: Some(any_from_value(v)), ..r }, ..self }
        } else if name == "severity_text"@ {
            OtelLogView { record: LogRecordView { severity_text: v.shown(rendered), ..r }, ..self }
        } else if name == "severity_number"@ {
            match v {
                ValueView::Integer(n) => OtelLogView {
                    record: LogRecordView { severity_number: wrap_i32(n as int), ..r },
                    ..self
                },
                _ => self,
            }
        } else if name == "trace_id"@ {
            match hex_decoded(v) {
                Some(id) => OtelLogView { record: LogRecordView { trace_id: id, ..r }, ..self },
                None => self.with_attribute(name, any_from_value(v)),
            }
        } else if name == "span_id"@ {
            match hex_decoded(v) {
                Some(id) => OtelLogView { record: LogRecordView { span_id: id, ..r }, ..self },
                None => self.with_attribute(name, any_from_value(v)),
            }
        } else if name == "time_unix_nano"@ {
            match nanos_given(v) {
                Some(n) => OtelLogView {
                    record: LogRecordView { time_unix_nano: n, ..r },
                    ..self
                },
                None => self.with_attribute(name, any_from_value(v)),
            }
        } else if name == "observed_time_unix_nano"@ {
            match nanos_given(v) {
                Some(n) => OtelLogView {
                    record: LogRecordView { observed_time_unix_nano: n, ..r },
                    ..self
                },
                None => self,
            }
        } else {
            self.with_attribute(name, any_from_value(v))
        }
    }

    /// The event with a resource, an empty one where it had none.
    pub open spec fn with_some_resource(self) -> OtelLogView {
        OtelLogView {
            resource: match self.resource {
                Some(r) => Some(r),
                None => Some(ResourceView::default_view()),
            },
            ..self
        }
    }

    /// The event after a nested field was written.
    pub open spec fn with_nested(self, path: Seq<Seq<char>>, v: ValueView, rendered: Seq<char>) -> OtelLogView {
        if path[0] == "resource"@ {
            OtelLogView {
                resource_attrs: attrs_with(self.resource_attrs, path.drop_first(), v),
                ..self.with_some_resource()
            }
        } else if path[0] == "scope"@ {
            OtelLogView {
                scope: Some(
                    scope_with(scope_or_default(self.scope), path.drop_first(), v.shown(rendered)),
                ),
                scope_attrs: scope_attrs_with(self.scope_attrs, path.drop_first(), v),
                ..self
            }
        } else {
            OtelLogView { record_attrs: attrs_with(self.record_attrs, path, v), ..self }
        }
    }

    /// What the write of a nested field replaces.
    pub open spec fn nested_replaced(&self, path: Seq<Seq<char>>) -> Option<ValueView> {
        if path[0] == "resource"@ {
            attr_at(self.resource_attrs, path.drop_first())
        } else if path[0] == "scope"@ {
            scope_at(Some(scope_or_default(self.scope)), self.scope_attrs, path.drop_first())
        } else {
            attr_at(self.record_attrs, path)
        }
    }

    /// The event after `v` was written at a path.
    pub open spec fn with(self, path: TargetPathView, v: ValueView, rendered: Seq<char>) -> OtelLogView {
        if path.prefix == PathPrefix::Metadata {
            OtelLogView {
                metadata: MetadataView {
                    value: stored(Some(self.metadata.value), path.path, v),
                    ..self.metadata
                },
                ..self
            }
        } else if !is_field_path(path.path) {
            log_written_back(
                stored(Some(ValueView::Object(self.canonical())), path.path, v),
                self.metadata,
            )
        } else if path.path.len() == 1 {
            self.with_field(path_names(path.path)[0], v, rendered)
        } else {
            self.with_nested(path_names(path.path), v, rendered)
        }
    }

    /// What a write at a path replaces.
    pub open spec fn replaced_at(&self, path: TargetPathView) -> Option<ValueView> {
        if path.prefix == PathPrefix::Metadata {
            fetched(self.metadata.value, path.path)
        } else if !is_field_path(path.path) {
            fetched(ValueView::Object(self.canonical()), path.path)
        } else if path.path.len() == 1 {
            self.replaced(path_names(path.path)[0])
        } else {
            self.nested_replaced(path_names(path.path))
        }
    }

    /// The event after a field was removed: the place of its own that it has in the record is
    /// cleared, or the attribute of its name goes where it has none.
    pub open spec fn without_field(self, name: Seq<char>) -> OtelLogView {
        let r = self.record;
        if name == "body"@ {
            OtelLogView { record: LogRecordView { body: None, ..r }, ..self }
        } else if name == "severity_text"@ {
            OtelLogView { record: LogRecordView { severity_text: Seq::empty(), ..r }, ..self }
        } else if name == "severity_number"@ {
            OtelLogView { record: LogRecordView { severity_number: 0, ..r }, ..self }
        } else if name == "trace_id"@ {
            OtelLogView { record: LogRecordView { trace_id: Seq::empty(), ..r }, ..self }
        } else if name == "span_id"@ {
            OtelLogView { record: LogRecordView { span_id: Seq::empty(), ..r }, ..self }
        } else if name == "time_unix_nano"@ {
            OtelLogView { record: LogRecordView { time_unix_nano: 0, ..r }, ..self }
        } else if name == "observed_time_unix_nano"@ {
            OtelLogView { record: LogRecordView { observed_time_unix_nano: 0, ..r }, ..self }
        } else {
            OtelLogView { record_attrs: without_entry(self.record_attrs, name), ..self }
        }
    }

    /// What the removal of a nested field gives.
    pub open spec fn nested_removed(&self, path: Seq<Seq<char>>) -> Option<ValueView> {
        if path[0] == "resource"@ {
            attr_at(self.resource_attrs, path.drop_first())
        } else if path[0] == "scope"@ {
            scope_at(self.scope, self.scope_attrs, path.drop_first())
        } else {
            attr_at(self.record_attrs, path)
        }
    }

    /// The event after a nested field was removed.
    pub open spec fn without_nested(self, path: Seq<Seq<char>>, prune: bool) -> OtelLogView {
        if path[0] == "resource"@ {
            OtelLogView {
                resource_attrs: attrs_without(self.resource_attrs, path.drop_first(), prune),
                ..self
            }
        } else if path[0] == "scope"@ {
            match self.scope {
                Some(s) => OtelLogView {
                    scope: Some(scope_with(s, path.drop_first(), Seq::empty())),
                    scope_attrs: scope_attrs_without(self.scope_attrs, path.drop_first(), prune),
                    ..self
                },
                None => self,
            }
        } else {
            OtelLogView { record_attrs: attrs_pruned(self.record_attrs, path, prune), ..self }
        }
    }

    /// The event after what a path leads to was removed.
    pub open spec fn without(self, path: TargetPathView, prune: bool) -> OtelLogView {
        if path.prefix == PathPrefix::Metadata {
            OtelLogView {
                metadata: MetadataView {
                    value: removed(self.metadata.value, path.path, prune),
                    ..self.metadata
                },
                ..self
            }
        } else if !is_field_path(path.path) {
            log_written_back(
                removed(ValueView::Object(self.canonical()), path.path, prune),
                self.metadata,
            )
        } else if path.path.len() == 1 {
            self.without_field(path_names(path.path)[0])
        } else {
            self.without_nested(path_names(path.path), prune)
        }
    }

    /// What the removal of what a path leads to gives.
    pub open spec fn removed_at(&self, path: TargetPathView) -> Option<ValueView> {
        if path.prefix == PathPrefix::Metadata {
            fetched(self.metadata.value, path.path)
        } else if !is_field_path(path.path) {
            fetched(ValueView::Object(self.canonical()), path.path)
        } else if path.path.len() == 1 {
            self.replaced(path_names(path.path)[0])
        } else {
            self.nested_removed(path_names(path.path))
        }
    }
}

/// An optional attribute value, read as a value.
pub fn any_value(a: Option<&AnyValue>) -> (r: Option<Value>)
    ensures
        opt_view(r) == read_any(opt_view(a)),
{
    match a {
        Some(a) => Some(any_value_to_vrl(a)),
        None => None,
    }
}

impl OtelLog {
    /// What stands in the place of its own that a field has in the record.
    fn own_field(&self, field: &str) -> (r: Option<Value>)
        requires
            OtelLogView::is_record_field(field@),
        ensures
            opt_view(r) == self@.record_field(field@),
    {
        if str_eq(field, "body") {
            any_value(self.body())
        } else if str_eq(field, "severity_text") {
            text_value(self.record.severity_text.as_str())
        } else if str_eq(field, "severity_number") {
            count_value(self.record.severity_number as i64)
        } else if str_eq(field, "trace_id") {
            id_value(&self.record.trace_id)
        } else if str_eq(field, "span_id") {
            id_value(&self.record.span_id)
        } else if str_eq(field, "time_unix_nano") {
            count_value(to_i64(self.record.time_unix_nano))
        } else {
            count_value(to_i64(self.record.observed_time_unix_nano))
        }
    }

    /// Whether a field has a place of its own in the record.
    fn has_own_field(field: &str) -> (r: bool)
        ensures
            r == OtelLogView::is_record_field(field@),
    {
        str_eq(field, "body") || str_eq(field, "severity_text") || str_eq(field, "severity_number")
            || str_eq(field, "trace_id") || str_eq(field, "span_id") || str_eq(
            field,
            "time_unix_nano",
        ) || str_eq(field, "observed_time_unix_nano")
    }

    fn get_single_segment(&self, field: &str) -> (r: Option<Value>)
        ensures
            opt_view(r) == self@.field(field@),
    {
        if OtelLog::has_own_field(field) {
            let own = self.own_field(field);
            if own.is_some() || str_eq(field, "body") {
                return own;
            }
        }
        any_value(self.record_attrs.get(field))
    }

    fn get_field_path(&self, fields: &Vec<String>) -> (r: Option<Value>)
        requires
            fields.len() >= 2,
        ensures
            opt_view(r) == self@.nested(names(fields@)),
    {
        assert(names(fields@).skip(1) =~= names(fields@).drop_first());
        assert(names(fields@).skip(0) =~= names(fields@));
        if str_eq(fields[0].as_str(), "resource") {
            get_resource_path(self.resource.as_ref(), &self.resource_attrs, fields, 1)
        } else if str_eq(fields[0].as_str(), "scope") {
            get_scope_path(self.scope.as_ref(), &self.scope_attrs, fields, 1)
        } else {
            get_attr_path(&self.record_attrs, fields, 0)
        }
    }

    /// Get a field value by path.
    pub fn get(&self, path: &OwnedTargetPath) -> (r: Option<Value>)
        ensures
            opt_view(r) == self@.at(path@),
    {
        match path.prefix {
            PathPrefix::Metadata => self.metadata.value().get(&path.path).cloned(),
            PathPrefix::Event => match field_names(&path.path) {
                Some(fields) => if fields.len() == 1 {
                    assert(names(fields@)[0] == fields@[0]@);
                    self.get_single_segment(fields[0].as_str())
                } else {
                    self.get_field_path(&fields)
                },
                None => self.to_value_canonical().get(&path.path).cloned(),
            },
        }
    }

    /// Keeps a value as an attribute.
    fn keep_attribute(&mut self, field: &str, value: &Value)
        ensures
            final(self)@ == old(self)@.with_attribute(field@, any_from_value(value@)),
    {
        self.record_attrs.insert(field.to_string(), vrl_value_to_any_value(value));
    }

    fn insert_single_segment(&mut self, field: &str, value: Value, rendered: &str) -> (r: Option<Value>)
        ensures
            final(self)@ == old(self)@.with_field(field@, value@, rendered@),
            opt_view(r) == old(self)@.replaced(field@),
    {
        if !OtelLog::has_own_field(field) {
            let old = any_value(self.record_attrs.get(field));
            self.keep_attribute(field, &value);
            return old;
        }
        let old = self.own_field(field);
        if str_eq(field, "body") {
            self.record.body = Some(vrl_value_to_any_value(&value));
        } else if str_eq(field, "severity_text") {
            self.record.severity_text = value.to_string_lossy(rendered);
        } else if str_eq(field, "severity_number") {
            if let Some(n) = value.as_integer() {
                self.record.severity_number = to_i32(n);
            }
        } else if str_eq(field, "trace_id") {
            match hex_decode(&value) {
                Some(id) => {
                    self.record.trace_id = id;
                },
                None => self.keep_attribute(field, &value),
            }
        } else if str_eq(field, "span_id") {
            match hex_decode(&value) {
                Some(id) => {
                    self.record.span_id = id;
                },
                None => self.keep_attribute(field, &value),
            }
        } else if str_eq(field, "time_unix_nano") {
            match given_nanos(&value) {
                Some(n) => {
                    self.record.time_unix_nano = n;
                },
                None => self.keep_attribute(field, &value),
            }
        } else if let Some(n) = given_nanos(&value) {
            self.record.observed_time_unix_nano = n;
        }
        old
    }

    /// Gives the event an empty resource where it has none.
    pub(crate) fn ensure_resource(&mut self)
        ensures
            final(self)@ == old(self)@.with_some_resource(),
    {
        if self.resource.is_none() {
            self.resource = Some(Resource::default());
        }
    }

    fn insert_field_path(&mut self, fields: &Vec<String>, value: Value, rendered: &str) -> (r: Option<
        Value,
    >)
        requires
            fields.len() >= 2,
        ensures
            final(self)@ == old(self)@.with_nested(names(fields@), value@, rendered@),
            opt_view(r) == old(self)@.nested_replaced(names(fields@)),
    {
        assert(names(fields@).skip(1) =~= names(fields@).drop_first());
        assert(names(fields@).skip(0) =~= names(fields@));
        if str_eq(fields[0].as_str(), "resource") {
            self.ensure_resource();
            insert_attr_path(&mut self.resource_attrs, fields, 1, value)
        } else if str_eq(fields[0].as_str(), "scope") {
            insert_scope_path(
                &mut self.scope,
                &mut self.scope_attrs,
                fields,
                1,
                value,
                rendered,
            )
        } else {
            insert_attr_path(&mut self.record_attrs, fields, 0, value)
        }
    }

    /// Insert a field value by path. Where the value goes into a text field and is not text itself,
    /// `rendered` is the text that it is shown as.
    pub fn insert(&mut self, path: &OwnedTargetPath, value: Value, rendered: &str) -> (r: Option<
        Value,
    >)
        ensures
            final(self)@ == old(self)@.with(path@, value@, rendered@),
            opt_view(r) == old(self)@.replaced_at(path@),
    {
        match path.prefix {
            PathPrefix::Metadata => self.metadata.value_mut().insert(&path.path, value),
            PathPrefix::Event => match field_names(&path.path) {
                Some(fields) => if fields.len() == 1 {
                    assert(names(fields@)[0] == fields@[0]@);
                    self.insert_single_segment(fields[0].as_str(), value, rendered)
                } else {
                    self.insert_field_path(&fields, value, rendered)
                },
                None => {
                    let mut val = self.to_value_canonical();
                    let old = val.insert(&path.path, value);
                    self.apply_value_map(val);
                    old
                },
            },
        }
    }

    /// Remove a field value by path.
    pub fn remove(&mut self, path: &OwnedTargetPath) -> (r: Option<Value>)
        ensures
            final(self)@ == old(self)@.without(path@, false),
            opt_view(r) == old(self)@.removed_at(path@),
    {
        self.remove_prune(path, false)
    }

    /// Remove at `path`. If `prune` is true, empty parent objects along
    /// the path are also removed.
    pub fn remove_prune(&mut self, path: &OwnedTargetPath, prune: bool) -> (r: Option<Value>)
        ensures
            final(self)@ == old(self)@.without(path@, prune),
            opt_view(r) == old(self)@.removed_at(path@),
    {
        match path.prefix {
            PathPrefix::Metadata => self.metadata.value_mut().remove(&path.path, prune),
            PathPrefix::Event => match field_names(&path.path) {
                Some(fields) => if fields.len() == 1 {
                    assert(names(fields@)[0] == fields@[0]@);
                    self.remove_single_segment(fields[0].as_str())
                } else {
                    self.remove_field_path(&fields, prune)
                },
                None => {
                    let mut val = self.to_value_canonical();
                    let old = val.remove(&path.path, prune);
                    self.apply_value_map(val);
                    old
                },
            },
        }
    }

    fn remove_single_segment(&mut self, field: &str) -> (r: Option<Value>)
        ensures
            final(self)@ == old(self)@.without_field(field@),
            opt_view(r) == old(self)@.replaced(field@),
    {
        if !OtelLog::has_own_field(field) {
            let old = self.record_attrs.remove(field);
            return any_value(old.as_ref());
        }
        let old = self.own_field(field);
        if str_eq(field, "body") {
            self.record.body = None;
        } else if str_eq(field, "severity_text") {
            self.record.severity_text = String::new();
        } else if str_eq(field, "severity_number") {
            self.record.severity_number = 0;
        } else if str_eq(field, "trace_id") {
            self.record.trace_id = Vec::new();
        } else if str_eq(field, "span_id") {
            self.record.span_id = Vec::new();
        } else if str_eq(field, "time_unix_nano") {
            self.record.time_unix_nano = 0;
        } else {
            self.record.observed_time_unix_nano = 0;
        }
        old
    }

    fn remove_field_path(&mut self, fields: &Vec<String>, prune: bool) -> (r: Option<Value>)
        requires
            fields.len() >= 2,
        ensures
            final(self)@ == old(self)@.without_nested(names(fields@), prune),
            opt_view(r) == old(self)@.nested_removed(names(fields@)),
    {
        assert(names(fields@).skip(1) =~= names(fields@).drop_first());
        assert(names(fields@).skip(0) =~= names(fields@));
        if str_eq(fields[0].as_str(), "resource") {
            remove_resource_subpath(&mut self.resource_attrs, fields, 1, prune)
        } else if str_eq(fields[0].as_str(), "scope") {
            remove_scope_subpath(&mut self.scope, &mut self.scope_attrs, fields, 1, prune)
        } else {
            remove_attrs_subpath(&mut self.record_attrs, fields, 0, prune)
        }
    }
}

} // verus!
