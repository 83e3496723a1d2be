//! Events as programs read and change them: by paths into a value.
use vstd::prelude::*;

use crate::any_value::{any_from_value, vrl_value_to_any_value, AnyView};
use crate::attributes::attrs_from_kvs;
use crate::canonical::{full_resource, full_scope};
use crate::event::{Event, EventView};
use crate::keyed::{opt_view, value_of, views, with_entry, without_entry, KeyedMap};
use crate::log::{resource_stripped, scope_stripped};
use crate::metadata::{EventMetadata, MetadataView};
use crate::metric::{points_without, OtelMetric, OtelMetricView};
use crate::metric_kind::MetricKind;
use crate::otlp::{InstrumentationScope, Resource, ResourceView, ScopeView};
use crate::otlp_metric::MetricMessageView;
use crate::path::{
    fetched, removed, stored, OwnedSegment, OwnedTargetPath, OwnedValuePath, PathPrefix,
    SegmentView, TargetPathView,
};
use crate::schema::{merge_array_definitions, Definition};
use crate::target_metric::metric_to_value;
use crate::target_value::{
    log_seen, log_to_value, resource_object, resource_seen, resource_to_value, scope_object,
    scope_seen, scope_to_value, span_seen, span_to_value, value_to_log, value_to_resource,
    value_to_scope, value_to_span,
};
use crate::text::{joined_text, lossy, lossy_text, signed_decimal, str_eq};
use crate::value::{array_view, lemma_array_view, lemma_object_view, Value, ValueView};

verus! {

/// The paths of a metric that can be set.
pub const VALID_OTEL_METRIC_PATHS_SET: &'static str = ".name, .description, .unit, .resource, .scope, .attributes, .kind, .namespace, .data.*.data_points[*].attributes";

/// The paths of a metric that can be read.
pub const VALID_OTEL_METRIC_PATHS_GET: &'static str = ".name, .description, .unit, .resource, .scope, .data, .attributes";

/// How many steps of a path into a metric are looked at, unless it goes through the data points.
pub const MAX_OTEL_METRIC_PATH_DEPTH: usize = 4;

/// Whether a character can stand in the name of a field that is written without quotes.
pub open spec fn is_plain_char(c: char) -> bool {
    'A' <= c <= 'Z' || 'a' <= c <= 'z' || '0' <= c <= '9' || c == '_' || c == '@'
}

/// A text with a backslash before each quote and each backslash.
pub open spec fn escaped(s: Seq<char>) -> Seq<char>
    decreases s.len(),
{
    if s.len() == 0 {
        s
    } else if s.last() == '"' || s.last() == '\\' {
        escaped(s.drop_last()).push('\\').push(s.last())
    } else {
        escaped(s.drop_last()).push(s.last())
    }
}

/// The name of a field as it is written: within quotes, unless it is a plain word.
pub open spec fn written_name(name: Seq<char>) -> Seq<char> {
    if name.len() > 0 && forall|i: int| 0 <= i < name.len() ==> is_plain_char(#[trigger] name[i]) {
        name
    } else {
        seq!['"'] + escaped(name) + seq!['"']
    }
}

/// A path as it is written: indices in brackets, and a dot before each field but a first one.
pub open spec fn written_path(path: Seq<SegmentView>) -> Seq<char>
    decreases path.len(),
{
    if path.len() == 0 {
        Seq::empty()
    } else {
        let before = written_path(path.drop_last());
        match path.last() {
            SegmentView::Field(name) => if path.len() == 1 {
                written_name(name)
            } else {
                before.push('.') + written_name(name)
            },
            SegmentView::Index(i) => before.push('[') + signed_decimal(i as int).push(']'),
        }
    }
}

/// The path as it is written, by the `Display` of `vrl::path::OwnedValuePath`: each step in turn, a
/// field after a dot unless it comes first, in quotes and with quotes and backslashes escaped where
/// it is no plain word, and an index in brackets.
#[verifier::external_body]
fn write_path(path: &OwnedValuePath) -> (r: String)
    ensures
        r@ == written_path(path@),
{
    vrl::path::OwnedValuePath {
        segments: path.segments.iter().map(|s| match s {
            OwnedSegment::Field(f) => vrl::path::OwnedSegment::Field(f.as_str().into()),
            OwnedSegment::Index(i) => vrl::path::OwnedSegment::Index(*i),
        }).collect(),
    }.to_string()
}

/// Why a metric cannot be read or changed at a path.
#[derive(Debug)]
pub enum MetricPathError {
    /// The metric as a whole was to be set.
    SetPathError,
    /// No such path can be used.
    InvalidPath { path: String, expected: &'static str },
    /// A text was needed.
    ExpectedBytes { got: Value },
}

pub enum FaultView {
    SetPathError,
    InvalidPath { path: Seq<char>, expected: Seq<char> },
    ExpectedBytes { got: ValueView },
}

impl View for MetricPathError {
    type V = FaultView;

    open spec fn view(&self) -> FaultView {
        match self {
            MetricPathError::SetPathError => FaultView::SetPathError,
            MetricPathError::InvalidPath { path, expected } => FaultView::InvalidPath {
                path: path@,
                expected: expected@,
            },
            MetricPathError::ExpectedBytes { got } => FaultView::ExpectedBytes { got: got@ },
        }
    }
}

impl MetricPathError {
    /// What is wrong, in words. `kind` names the kind of the value that is no text.
    pub fn text(&self, kind: &str) -> (r: String)
        ensures
            r@ == match self@ {
                FaultView::SetPathError => "cannot set root path"@,
                FaultView::InvalidPath { path, expected } => "invalid path "@ + path
                    + ": expected one of "@ + expected,
                FaultView::ExpectedBytes { got } => "expected string, got "@ + kind@,
            },
    {
        match self {
            MetricPathError::SetPathError => "cannot set root path".to_string(),
            MetricPathError::InvalidPath { path, expected } => {
                let start = joined_text("invalid path ", path.as_str());
                let middle = joined_text(start.as_str(), ": expected one of ");
                joined_text(middle.as_str(), *expected)
            },
            MetricPathError::ExpectedBytes { got } => joined_text("expected string, got ", kind),
        }
    }
}

/// The first `limit` steps of a path.
pub open spec fn first_steps(path: Seq<SegmentView>, limit: nat) -> Seq<SegmentView> {
    if path.len() <= limit {
        path
    } else {
        path.take(limit as int)
    }
}

/// The names of the first `limit` steps of a path, if they all go through fields.
pub open spec fn components(path: Seq<SegmentView>, limit: nat) -> Option<Seq<Seq<char>>> {
    if exists|i: int|
        0 <= i < first_steps(path, limit).len() && #[trigger] first_steps(path, limit)[i] is Index {
        None
    } else {
        Some(
            Seq::new(
                first_steps(path, limit).len(),
                |i: int| first_steps(path, limit)[i]->Field_0,
            ),
        )
    }
}

impl OwnedValuePath {
    /// The names of the first `limit` steps of the path, if they all go through fields.
    pub fn to_alternative_components(&self, limit: usize) -> (r: Option<Vec<String>>)
        ensures
            match r {
                Some(names) => components(self@, limit as nat) == Some(views(names@)),
                None => components(self@, limit as nat) is None,
            },
    {
        let ghost head = first_steps(self@, limit as nat);
        let mut names: Vec<String> = Vec::new();
        let mut i: usize = 0;
        while i < self.segments.len() && i < limit
            invariant
                i <= self.segments@.len(),
                i <= limit,
                head == first_steps(self@, limit as nat),
                names@.len() == i,
                forall|j: int|
                    0 <= j < i ==> (#[trigger] head[j]) is Field && names@[j]@ == head[j]->Field_0,
            decreases self.segments@.len() - i,
        {
            assert(head[i as int] == self.segments@[i as int]@);
            match &self.segments[i] {
                OwnedSegment::Field(f) => {
                    names.push(f.clone());
                },
                OwnedSegment::Index(_) => {
                    assert(head[i as int] is Index);
                    return None;
                },
            }
            i = i + 1;
        }
        assert(views(names@) =~= components(self@, limit as nat)->0);
        Some(names)
    }
}

/// What a path into a metric leads to.
#[derive(Clone, Copy, Debug, PartialEq, Eq, Structural)]
pub enum MetricPlace {
    Name,
    Description,
    Unit,
    Resource,
    InResource,
    Scope,
    InScope,
    KindName,
    Namespace,
    Data,
    Attributes,
    Attribute,
    InAttributes,
    Other,
}

/// What a path through fields leads to.
pub open spec fn place_of(names: Seq<Seq<char>>) -> MetricPlace {
    if names.len() == 0 {
        MetricPlace::Other
    } else if names.len() == 1 {
        if names[0] == "name"@ {
            MetricPlace::Name
        } else if names[0] == "description"@ {
            MetricPlace::Description
        } else if names[0] == "unit"@ {
            MetricPlace::Unit
        } else if names[0] == "resource"@ {
            MetricPlace::Resource
        } else if names[0] == "scope"@ {
            MetricPlace::Scope
        } else if names[0] == "kind"@ {
            MetricPlace::KindName
        } else if names[0] == "namespace"@ {
            MetricPlace::Namespace
        } else if names[0] == "data"@ {
            MetricPlace::Data
        } else if names[0] == "attributes"@ {
            MetricPlace::Attributes
        } else {
            MetricPlace::Other
        }
    } else if names[0] == "resource"@ {
        MetricPlace::InResource
    } else if names[0] == "scope"@ {
        MetricPlace::InScope
    } else if names[0] == "attributes"@ {
        if names.len() == 2 {
            MetricPlace::Attribute
        } else {
            MetricPlace::InAttributes
        }
    } else {
        MetricPlace::Other
    }
}

/// The attribute that a path through the data of a metric names, `.data.*.data_points[*].attributes`
/// followed by the name of the attribute.
pub open spec fn point_attribute_named(path: Seq<SegmentView>) -> Option<Seq<char>> {
    if path.len() == 6 && path[0] == SegmentView::Field("data"@) && path[1] is Field && path[2]
        == SegmentView::Field("data_points"@) && path[3] is Index && path[4] == SegmentView::Field(
        "attributes"@,
    ) && path[5] is Field {
        Some(path[5]->Field_0)
    } else {
        None
    }
}

fn is_field(segment: &OwnedSegment, name: &str) -> (r: bool)
    ensures
        r == (segment@ == SegmentView::Field(name@)),
{
    match segment {
        OwnedSegment::Field(f) => str_eq(f.as_str(), name),
        OwnedSegment::Index(_) => false,
    }
}

/// The attribute that a path through the data of a metric names.
fn named_point_attribute(path: &OwnedValuePath) -> (r: Option<String>)
    ensures
        opt_view(r) == point_attribute_named(path@),
{
    let steps = &path.segments;
    if steps.len() != 6 {
        return None;
    }
    assert(forall|i: int| 0 <= i < 6 ==> #[trigger] path@[i] == steps@[i]@);
    if !is_field(&steps[0], "data") || !is_field(&steps[2], "data_points") || !is_field(
        &steps[4],
        "attributes",
    ) {
        return None;
    }
    match (&steps[1], &steps[3], &steps[5]) {
        (OwnedSegment::Field(_), OwnedSegment::Index(_), OwnedSegment::Field(key)) => Some(
            key.clone(),
        ),
        _ => None,
    }
}

fn find_place(names: &Vec<String>) -> (r: MetricPlace)
    ensures
        r == place_of(views(names@)),
{
    if names.len() == 0 {
        return MetricPlace::Other;
    }
    let first: &str = names[0].as_str();
    assert(first@ == views(names@)[0]);
    if names.len() == 1 {
        if str_eq(first, "name") {
            MetricPlace::Name
        } else if str_eq(first, "description") {
            MetricPlace::Description
        } else if str_eq(first, "unit") {
            MetricPlace::Unit
        } else if str_eq(first, "resource") {
            MetricPlace::Resource
        } else if str_eq(first, "scope") {
            MetricPlace::Scope
        } else if str_eq(first, "kind") {
            MetricPlace::KindName
        } else if str_eq(first, "namespace") {
            MetricPlace::Namespace
        } else if str_eq(first, "data") {
            MetricPlace::Data
        } else if str_eq(first, "attributes") {
            MetricPlace::Attributes
        } else {
            MetricPlace::Other
        }
    } else if str_eq(first, "resource") {
        MetricPlace::InResource
    } else if str_eq(first, "scope") {
        MetricPlace::InScope
    } else if str_eq(first, "attributes") {
        if names.len() == 2 {
            MetricPlace::Attribute
        } else {
            MetricPlace::InAttributes
        }
    } else {
        MetricPlace::Other
    }
}

/// The value after another one was written below fields of it. Whatever is no object on the way
/// gives way to one; at the end of the way it stays as it is.
pub open spec fn written_below(v: ValueView, names: Seq<Seq<char>>, new: ValueView) -> ValueView
    decreases names.len(),
{
    if names.len() == 0 {
        v
    } else if names.len() == 1 {
        match v {
            ValueView::Object(m) => ValueView::Object(with_entry(m, names[0], new)),
            _ => v,
        }
    } else {
        let m = match v {
            ValueView::Object(m) => m,
            _ => Seq::empty(),
        };
        let c = match value_of(m, names[0]) {
            Some(c) => c,
            None => ValueView::empty_object(),
        };
        ValueView::Object(
            with_entry(m, names[0], written_below(c, names.drop_first(), new)),
        )
    }
}

fn insert_at_segments(val: &mut Value, names: &Vec<String>, from: usize, new: Value)
    requires
        from <= names.len(),
    ensures
        final(val)@ == written_below(old(val)@, views(names@).skip(from as int), new@),
    decreases names@.len() - from,
{
    let ghost rest = views(names@).skip(from as int);
    if from == names.len() {
        return ;
    }
    assert(rest[0] == names@[from as int]@);
    if from + 1 == names.len() {
        if let Value::Object(m) = val {
            proof {
                lemma_object_view(*m);
                lemma_object_view(*final(m));
            }
            m.insert(names[from].clone(), new);
        }
        return ;
    }
    assert(rest.drop_first() =~= views(names@).skip(from + 1));
    let mut map = KeyedMap::<Value>::new();
    if let Value::Object(m) = val {
        proof {
            lemma_object_view(*m);
        }
        std::mem::swap(m, &mut map);
    }
    if map.contains_key(names[from].as_str()) {
        if let Some(c) = map.get_mut(names[from].as_str()) {
            insert_at_segments(c, names, from + 1, new);
        }
    } else {
        let mut c = Value::new_object();
        insert_at_segments(&mut c, names, from + 1, new);
        map.insert(names[from].clone(), c);
    }
    proof {
        lemma_object_view(map);
    }
    *val = Value::Object(map);
}

impl OtelMetricView {
    /// The event with another message.
    pub open spec fn with_message(self, metric: MetricMessageView) -> OtelMetricView {
        OtelMetricView { metric, ..self }
    }

    /// The event with another resource, if there is one.
    pub open spec fn with_resource(self, resource: Option<ResourceView>) -> OtelMetricView {
        match resource {
            Some(r) => OtelMetricView {
                resource: Some(resource_stripped(r)),
                resource_attrs: attrs_from_kvs(r.attributes),
                ..self
            },
            None => self,
        }
    }

    /// The event with another scope, if there is one.
    pub open spec fn with_scope(self, scope: Option<ScopeView>) -> OtelMetricView {
        match scope {
            Some(s) => OtelMetricView {
                scope: Some(scope_stripped(s)),
                scope_attrs: attrs_from_kvs(s.attributes),
                ..self
            },
            None => self,
        }
    }

    /// The value as which the resource is seen, an empty object where there is none.
    pub open spec fn resource_value(&self) -> ValueView {
        match full_resource(self.resource, self.resource_attrs) {
            Some(r) => resource_object(r),
            None => ValueView::empty_object(),
        }
    }

    /// The value as which the scope is seen, an empty object where there is none.
    pub open spec fn scope_value(&self) -> ValueView {
        match full_scope(self.scope, self.scope_attrs) {
            Some(s) => scope_object(s),
            None => ValueView::empty_object(),
        }
    }

    /// The event of another kind, where the data has a place for it.
    pub open spec fn with_kind(self, kind: MetricKind) -> OtelMetricView {
        match self.metric.data {
            Some(d) => self.with_data(d.with_temporality(kind.as_temporality())),
            None => self,
        }
    }

    /// The event after a text was set.
    pub open spec fn with_text_at(self, place: MetricPlace, text: Seq<char>) -> OtelMetricView {
        match place {
            MetricPlace::Name => self.with_message(MetricMessageView { name: text, ..self.metric }),
            MetricPlace::Description => self.with_message(
                MetricMessageView { description: text, ..self.metric },
            ),
            MetricPlace::Unit => self.with_message(MetricMessageView { unit: text, ..self.metric }),
            MetricPlace::KindName => self.with_kind(
                if text == "incremental"@ {
                    MetricKind::Incremental
                } else {
                    MetricKind::Absolute
                },
            ),
            _ => self.with_resource_attribute("metric.namespace"@, AnyView::Str(text)),
        }
    }

    /// The event after a value was set at a path through fields; nothing where it cannot be set
    /// there.
    pub open spec fn with_value_at(self, names: Seq<Seq<char>>, value: ValueView) -> Option<
        OtelMetricView,
    > {
        match place_of(names) {
            MetricPlace::Resource => Some(self.with_resource(resource_seen(Some(value)))),
            MetricPlace::InResource => Some(
                self.with_resource(
                    resource_seen(
                        Some(written_below(self.resource_value(), names.drop_first(), value)),
                    ),
                ),
            ),
            MetricPlace::Scope => Some(self.with_scope(scope_seen(Some(value)))),
            MetricPlace::InScope => Some(
                self.with_scope(
                    scope_seen(Some(written_below(self.scope_value(), names.drop_first(), value))),
                ),
            ),
            MetricPlace::Attribute => Some(
                self.with_point_attribute(names[1], any_from_value(value)),
            ),
            _ => None,
        }
    }

    /// The event after what a path through fields leads to was removed.
    pub open spec fn without_place(self, names: Seq<Seq<char>>) -> OtelMetricView {
        match place_of(names) {
            MetricPlace::Name => self.with_text_at(MetricPlace::Name, Seq::empty()),
            MetricPlace::Description => self.with_text_at(MetricPlace::Description, Seq::empty()),
            MetricPlace::Unit => self.with_text_at(MetricPlace::Unit, Seq::empty()),
            MetricPlace::Resource => self.with_resource(Some(ResourceView::default_view())),
            MetricPlace::Scope => self.with_scope(Some(ScopeView::default_view())),
            MetricPlace::Attribute => OtelMetricView {
                dp_attrs: points_without(self.dp_attrs, names[1]),
                ..self
            },
            _ => self,
        }
    }
}

/// Whether a text is set there.
pub open spec fn is_text_place(place: MetricPlace) -> bool {
    match place {
        MetricPlace::Name | MetricPlace::Description | MetricPlace::Unit | MetricPlace::KindName
        | MetricPlace::Namespace => true,
        _ => false,
    }
}

/// That a path into a metric cannot be set.
pub open spec fn unsettable(path: Seq<SegmentView>) -> FaultView {
    FaultView::InvalidPath { path: written_path(path), expected: VALID_OTEL_METRIC_PATHS_SET@ }
}

/// The metric after a value was set at a path, or why it cannot be set. An attribute is set on all
/// data points, also where the path goes through one of them.
pub open spec fn metric_set(event: OtelMetricView, path: Seq<SegmentView>, value: ValueView) -> Result<
    OtelMetricView,
    FaultView,
> {
    if path.len() == 0 {
        Err(FaultView::SetPathError)
    } else if let Some(key) = point_attribute_named(path) {
        Ok(event.with_point_attribute(key, any_from_value(value)))
    } else {
        match components(path, MAX_OTEL_METRIC_PATH_DEPTH as nat) {
            Some(names) => if is_text_place(place_of(names)) {
                match value {
                    ValueView::Bytes(b) => Ok(event.with_text_at(place_of(names), lossy(b))),
                    _ => Err(FaultView::ExpectedBytes { got: value }),
                }
            } else {
                match event.with_value_at(names, value) {
                    Some(e) => Ok(e),
                    None => Err(unsettable(path)),
                }
            },
            None => Err(unsettable(path)),
        }
    }
}

fn unsettable_path(path: &OwnedValuePath) -> (r: MetricPathError)
    ensures
        r@ == unsettable(path@),
{
    MetricPathError::InvalidPath {
        path: write_path(path),
        expected: VALID_OTEL_METRIC_PATHS_SET,
    }
}

fn set_text_at(event: &mut OtelMetric, place: MetricPlace, text: String)
    requires
        is_text_place(place),
    ensures
        final(event)@ == old(event)@.with_text_at(place, text@),
{
    match place {
        MetricPlace::Name => {
            event.metric.name = text;
        },
        MetricPlace::Description => {
            event.metric.description = text;
        },
        MetricPlace::Unit => {
            event.metric.unit = text;
        },
        MetricPlace::KindName => {
            let kind = if str_eq(text.as_str(), "incremental") {
                MetricKind::Incremental
            } else {
                MetricKind::Absolute
            };
            event.set_kind(kind);
        },
        _ => {
            event.set_namespace(text.as_str());
        },
    }
}

fn set_resource_from(event: &mut OtelMetric, value: &Value)
    ensures
        final(event)@ == old(event)@.with_resource(resource_seen(Some(value@))),
{
    if let Some(resource) = value_to_resource(Some(value)) {
        event.set_resource(resource);
    }
}

fn set_scope_from(event: &mut OtelMetric, value: &Value)
    ensures
        final(event)@ == old(event)@.with_scope(scope_seen(Some(value@))),
{
    if let Some(scope) = value_to_scope(Some(value)) {
        event.set_scope(scope);
    }
}

/// Sets a value at a path through fields. Gives whether it can be set there.
fn set_value_at(event: &mut OtelMetric, names: &Vec<String>, value: &Value) -> (r: bool)
    ensures
        r == (old(event)@.with_value_at(views(names@), value@) is Some),
        match old(event)@.with_value_at(views(names@), value@) {
            Some(e) => final(event)@ == e,
            None => final(event)@ == old(event)@,
        },
{
    let ghost all = views(names@);
    match find_place(names) {
        MetricPlace::Resource => {
            set_resource_from(event, value);
            true
        },
        MetricPlace::InResource => {
            let mut seen = match event.resource_proto() {
                Some(r) => resource_to_value(&r),
                None => Value::new_object(),
            };
            insert_at_segments(&mut seen, names, 1, value.clone());
            assert(all.skip(1) =~= all.drop_first());
            set_resource_from(event, &seen);
            true
        },
        MetricPlace::Scope => {
            set_scope_from(event, value);
            true
        },
        MetricPlace::InScope => {
            let mut seen = match event.scope_proto() {
                Some(s) => scope_to_value(&s),
                None => Value::new_object(),
            };
            insert_at_segments(&mut seen, names, 1, value.clone());
            assert(all.skip(1) =~= all.drop_first());
            set_scope_from(event, &seen);
            true
        },
        MetricPlace::Attribute => {
            assert(names@[1]@ == all[1]);
            event.set_data_point_attribute(names[1].clone(), vrl_value_to_any_value(value));
            true
        },
        _ => false,
    }
}

/// Sets a value at a path of a metric.
pub fn set_in_metric(event: &mut OtelMetric, path: &OwnedValuePath, value: &Value) -> (r: Result<
    (),
    MetricPathError,
>)
    ensures
        match metric_set(old(event)@, path@, value@) {
            Ok(e) => r is Ok && final(event)@ == e,
            Err(e) => r is Err && r->Err_0@ == e && final(event)@ == old(event)@,
        },
{
    if path.is_root() {
        return Err(MetricPathError::SetPathError);
    }
    if let Some(key) = named_point_attribute(path) {
        event.set_data_point_attribute(key, vrl_value_to_any_value(value));
        return Ok(());
    }
    let names = match path.to_alternative_components(MAX_OTEL_METRIC_PATH_DEPTH) {
        Some(names) => names,
        None => {
            return Err(unsettable_path(path));
        },
    };
    let place = find_place(&names);
    match place {
        MetricPlace::Name | MetricPlace::Description | MetricPlace::Unit | MetricPlace::KindName
        | MetricPlace::Namespace => match value {
            Value::Bytes(b) => {
                set_text_at(event, place, lossy_text(b.as_slice()));
                Ok(())
            },
            _ => Err(MetricPathError::ExpectedBytes { got: value.clone() }),
        },
        _ => if set_value_at(event, &names, value) {
            Ok(())
        } else {
            Err(unsettable_path(path))
        },
    }
}

/// Removes what a path of a metric leads to from the event.
fn remove_in_metric(event: &mut OtelMetric, path: &OwnedValuePath)
    ensures
        final(event)@ == match components(path@, MAX_OTEL_METRIC_PATH_DEPTH as nat) {
            Some(names) => old(event)@.without_place(names),
            None => old(event)@,
        },
{
    if let Some(names) = path.to_alternative_components(MAX_OTEL_METRIC_PATH_DEPTH) {
        let ghost all = views(names@);
        match find_place(&names) {
            MetricPlace::Name => {
                set_text_at(event, MetricPlace::Name, String::new());
            },
            MetricPlace::Description => {
                set_text_at(event, MetricPlace::Description, String::new());
            },
            MetricPlace::Unit => {
                set_text_at(event, MetricPlace::Unit, String::new());
            },
            MetricPlace::Resource => {
                event.set_resource(Resource::default());
            },
            MetricPlace::Scope => {
                event.set_scope(InstrumentationScope::default());
            },
            MetricPlace::Attribute => {
                assert(names@[1]@ == all[1]);
                event.remove_data_point_attribute(names[1].as_str());
            },
            _ => {},
        }
    }
}

/// Whether a metric can be read at a path; why not, where it cannot. `change` tells that what is
/// read is to be changed.
pub open spec fn metric_access(path: Seq<SegmentView>, change: bool) -> Option<FaultView> {
    match components(path, MAX_OTEL_METRIC_PATH_DEPTH as nat) {
        Some(names) => if path.len() == 0 {
            None
        } else {
            match place_of(names) {
                MetricPlace::Other => Some(
                    if change {
                        unsettable(path)
                    } else {
                        FaultView::InvalidPath {
                            path: written_path(path),
                            expected: VALID_OTEL_METRIC_PATHS_GET@,
                        }
                    },
                ),
                MetricPlace::Data => if change {
                    Some(unsettable(path))
                } else {
                    None
                },
                _ => None,
            }
        },
        None => None,
    }
}

/// What a program reads at a path of a metric. A path through an index leads nowhere.
pub open spec fn metric_read(value: ValueView, path: Seq<SegmentView>) -> Option<ValueView> {
    match components(path, MAX_OTEL_METRIC_PATH_DEPTH as nat) {
        Some(_) => fetched(value, path),
        None => None,
    }
}

fn check_access(path: &OwnedValuePath, change: bool) -> (r: Result<bool, MetricPathError>)
    ensures
        match r {
            Ok(leads) => metric_access(path@, change) is None && leads == (components(
                path@,
                MAX_OTEL_METRIC_PATH_DEPTH as nat,
            ) is Some),
            Err(e) => metric_access(path@, change) == Some(e@),
        },
{
    match path.to_alternative_components(MAX_OTEL_METRIC_PATH_DEPTH) {
        Some(names) => {
            if path.is_root() {
                return Ok(true);
            }
            match find_place(&names) {
                MetricPlace::Other => Err(
                    if change {
                        unsettable_path(path)
                    } else {
                        MetricPathError::InvalidPath {
                            path: write_path(path),
                            expected: VALID_OTEL_METRIC_PATHS_GET,
                        }
                    },
                ),
                MetricPlace::Data => if change {
                    Err(unsettable_path(path))
                } else {
                    Ok(true)
                },
                _ => Ok(true),
            }
        },
        None => Ok(false),
    }
}

/// An event as a program sees it.
#[derive(Debug)]
pub enum VrlTarget {
    OtelLog(Value, EventMetadata),
    OtelSpan(Value, EventMetadata),
    OtelMetric { event: OtelMetric, value: Value },
}

pub enum TargetView {
    OtelLog(ValueView, MetadataView),
    OtelSpan(ValueView, MetadataView),
    OtelMetric { event: OtelMetricView, value: ValueView },
}

impl View for VrlTarget {
    type V = TargetView;

    open spec fn view(&self) -> TargetView {
        match self {
            VrlTarget::OtelLog(v, m) => TargetView::OtelLog(v@, m@),
            VrlTarget::OtelSpan(v, m) => TargetView::OtelSpan(v@, m@),
            VrlTarget::OtelMetric { event, value } => TargetView::OtelMetric {
                event: event@,
                value: value@,
            },
        }
    }
}

/// The events that a program left.
#[derive(Debug)]
pub enum TargetEvents {
    One(Event),
    OtelLogs(Vec<Event>),
    OtelSpans(Vec<Event>),
}

pub enum TargetEventsView {
    One(EventView),
    OtelLogs(Seq<EventView>),
    OtelSpans(Seq<EventView>),
}

impl View for TargetEvents {
    type V = TargetEventsView;

    open spec fn view(&self) -> TargetEventsView {
        match self {
            TargetEvents::One(e) => TargetEventsView::One(e@),
            TargetEvents::OtelLogs(a) => TargetEventsView::OtelLogs(views(a@)),
            TargetEvents::OtelSpans(a) => TargetEventsView::OtelSpans(views(a@)),
        }
    }
}

impl TargetView {
    /// An event as a program sees it.
    pub open spec fn of_event(e: EventView) -> TargetView {
        match e {
            EventView::Log(log) => TargetView::OtelLog(ValueView::Object(log.seen()), log.metadata),
            EventView::Trace(span) => TargetView::OtelSpan(
                ValueView::Object(span.seen()),
                span.metadata,
            ),
            EventView::Metric(metric) => TargetView::OtelMetric {
                event: metric,
                value: ValueView::Object(metric.seen()),
            },
        }
    }

    pub open spec fn metadata(&self) -> MetadataView {
        match self {
            TargetView::OtelLog(_, m) => *m,
            TargetView::OtelSpan(_, m) => *m,
            TargetView::OtelMetric { event, .. } => event.metadata,
        }
    }

    pub open spec fn with_metadata(self, metadata: MetadataView) -> TargetView {
        match self {
            TargetView::OtelLog(v, _) => TargetView::OtelLog(v, metadata),
            TargetView::OtelSpan(v, _) => TargetView::OtelSpan(v, metadata),
            TargetView::OtelMetric { event, value } => TargetView::OtelMetric {
                event: OtelMetricView { metadata, ..event },
                value,
            },
        }
    }

    /// The target with another value in its metadata.
    pub open spec fn with_metadata_value(self, value: ValueView) -> TargetView {
        self.with_metadata(MetadataView { value, ..self.metadata() })
    }

    /// The events that are left: each item of an array is one of its own, any other value is one
    /// event. A metric stays one.
    pub open spec fn events(self) -> TargetEventsView {
        match self {
            TargetView::OtelLog(ValueView::Array(a), m) => TargetEventsView::OtelLogs(
                Seq::new(a.len(), |i: int| EventView::Log(log_seen(a[i], m))),
            ),
            TargetView::OtelLog(v, m) => TargetEventsView::One(EventView::Log(log_seen(v, m))),
            TargetView::OtelSpan(ValueView::Array(a), m) => TargetEventsView::OtelSpans(
                Seq::new(a.len(), |i: int| EventView::Trace(span_seen(a[i], m))),
            ),
            TargetView::OtelSpan(v, m) => TargetEventsView::One(EventView::Trace(span_seen(v, m))),
            TargetView::OtelMetric { event, .. } => TargetEventsView::One(EventView::Metric(event)),
        }
    }

    /// The target after a value was set at a path, or why it cannot be set.
    pub open spec fn inserted(self, path: TargetPathView, value: ValueView) -> Result<
        TargetView,
        FaultView,
    > {
        match path.prefix {
            PathPrefix::Event => match self {
                TargetView::OtelLog(v, m) => Ok(
                    TargetView::OtelLog(stored(Some(v), path.path, value), m),
                ),
                TargetView::OtelSpan(v, m) => Ok(
                    TargetView::OtelSpan(stored(Some(v), path.path, value), m),
                ),
                TargetView::OtelMetric { event, value: seen } => match metric_set(
                    event,
                    path.path,
                    value,
                ) {
                    Ok(e) => Ok(
                        TargetView::OtelMetric {
                            event: e,
                            value: stored(Some(seen), path.path, value),
                        },
                    ),
                    Err(e) => Err(e),
                },
            },
            PathPrefix::Metadata => Ok(
                self.with_metadata_value(stored(Some(self.metadata().value), path.path, value)),
            ),
        }
    }

    /// The value that a path goes into.
    pub open spec fn root(self, prefix: PathPrefix) -> ValueView {
        match (prefix, self) {
            (PathPrefix::Metadata, _) => self.metadata().value,
            (_, TargetView::OtelLog(v, _)) => v,
            (_, TargetView::OtelSpan(v, _)) => v,
            (_, TargetView::OtelMetric { value, .. }) => value,
        }
    }

    /// The target with another value that paths go into.
    pub open spec fn with_root(self, prefix: PathPrefix, v: ValueView) -> TargetView {
        match (prefix, self) {
            (PathPrefix::Metadata, _) => self.with_metadata_value(v),
            (_, TargetView::OtelLog(_, m)) => TargetView::OtelLog(v, m),
            (_, TargetView::OtelSpan(_, m)) => TargetView::OtelSpan(v, m),
            (_, TargetView::OtelMetric { event, .. }) => TargetView::OtelMetric { event, value: v },
        }
    }

    /// What a program reads at a path, or why it cannot be read. `change` tells that what is read is
    /// to be changed.
    pub open spec fn read(self, path: TargetPathView, change: bool) -> Result<
        Option<ValueView>,
        FaultView,
    > {
        match (path.prefix, self) {
            (PathPrefix::Event, TargetView::OtelMetric { value, .. }) => match metric_access(
                path.path,
                change,
            ) {
                Some(e) => Err(e),
                None => Ok(metric_read(value, path.path)),
            },
            _ => Ok(fetched(self.root(path.prefix), path.path)),
        }
    }

    /// The target after what a path leads to was removed, or why it cannot be removed. In a metric,
    /// collections that this leaves empty always stay.
    pub open spec fn cleared(self, path: TargetPathView, compact: bool) -> Result<
        TargetView,
        FaultView,
    > {
        match (path.prefix, self) {
            (PathPrefix::Event, TargetView::OtelMetric { event, value }) => if path.path.len() == 0 {
                Err(FaultView::SetPathError)
            } else {
                Ok(
                    TargetView::OtelMetric {
                        event: match components(path.path, MAX_OTEL_METRIC_PATH_DEPTH as nat) {
                            Some(names) => event.without_place(names),
                            None => event,
                        },
                        value: removed(value, path.path, false),
                    },
                )
            },
            _ => Ok(
                self.with_root(
                    path.prefix,
                    removed(self.root(path.prefix), path.path, compact),
                ),
            ),
        }
    }
}

impl VrlTarget {
    /// An event as a program sees it.
    pub fn new(event: Event, _multi_value_metric_tags: bool) -> (r: Self)
        ensures
            r@ == TargetView::of_event(event@),
    {
        match event {
            Event::Log(event) => {
                let value = log_to_value(&event);
                VrlTarget::OtelLog(value, event.metadata)
            },
            Event::Trace(event) => {
                let value = span_to_value(&event);
                VrlTarget::OtelSpan(value, event.metadata)
            },
            Event::Metric(event) => {
                let value = metric_to_value(&event);
                VrlTarget::OtelMetric { event, value }
            },
        }
    }

    /// Modifies a schema in the same way that the `into_events` function modifies the event
    pub fn modify_schema_definition_for_into_events(input: Definition) -> (r: Definition)
        ensures
            r@ == input@.arrays_split(),
    {
        merge_array_definitions(input)
    }

    /// Turn the target back into events.
    ///
    /// One event can be turned into multiple by assigning an array to `.`.
    pub fn into_events(self) -> (r: TargetEvents)
        ensures
            r@ == self@.events(),
    {
        match self {
            VrlTarget::OtelLog(Value::Array(values), metadata) => {
                proof {
                    lemma_array_view(values);
                }
                let mut out: Vec<Event> = Vec::new();
                for v in it: values
                    invariant
                        it.seq() == values@,
                        out@.len() == it.index(),
                        forall|j: int|
                            0 <= j < it.index() ==> (#[trigger] out@[j])@ == EventView::Log(
                                log_seen(values@[j]@, metadata@),
                            ),
                {
                    out.push(Event::Log(value_to_log(v, metadata.clone())));
                }
                let ghost a = array_view(values@);
                assert(views(out@) =~= Seq::new(
                    a.len(),
                    |i: int| EventView::Log(log_seen(a[i], metadata@)),
                ));
                TargetEvents::OtelLogs(out)
            },
            VrlTarget::OtelLog(value, metadata) => TargetEvents::One(
                Event::Log(value_to_log(value, metadata)),
            ),
            VrlTarget::OtelSpan(Value::Array(values), metadata) => {
                proof {
                    lemma_array_view(values);
                }
                let mut out: Vec<Event> = Vec::new();
                for v in it: values
                    invariant
                        it.seq() == values@,
                        out@.len() == it.index(),
                        forall|j: int|
                            0 <= j < it.index() ==> (#[trigger] out@[j])@ == EventView::Trace(
                                span_seen(values@[j]@, metadata@),
                            ),
                {
                    out.push(Event::Trace(value_to_span(v, metadata.clone())));
                }
                let ghost a = array_view(values@);
                assert(views(out@) =~= Seq::new(
                    a.len(),
                    |i: int| EventView::Trace(span_seen(a[i], metadata@)),
                ));
                TargetEvents::OtelSpans(out)
            },
            VrlTarget::OtelSpan(value, metadata) => TargetEvents::One(
                Event::Trace(value_to_span(value, metadata)),
            ),
            VrlTarget::OtelMetric { event, .. } => TargetEvents::One(Event::Metric(event)),
        }
    }

    fn metadata(&self) -> (r: &EventMetadata)
        ensures
            r@ == self@.metadata(),
    {
        match self {
            VrlTarget::OtelLog(_, m) | VrlTarget::OtelSpan(_, m) => m,
            VrlTarget::OtelMetric { event, .. } => event.metadata(),
        }
    }

    fn metadata_mut(&mut self) -> (r: &mut EventMetadata)
        ensures
            (*r)@ == old(self)@.metadata(),
            final(self)@ == old(self)@.with_metadata((*final(r))@),
    {
        match self {
            VrlTarget::OtelLog(_, m) => m,
            VrlTarget::OtelSpan(_, m) => m,
            VrlTarget::OtelMetric { event, .. } => event.metadata_mut(),
        }
    }

    /// Sets a value at a path. A metric can only be set in some places.
    pub fn target_insert(&mut self, target_path: &OwnedTargetPath, value: Value) -> (r: Result<
        (),
        MetricPathError,
    >)
        ensures
            match old(self)@.inserted(target_path@, value@) {
                Ok(t) => r is Ok && final(self)@ == t,
                Err(e) => r is Err && r->Err_0@ == e && final(self)@ == old(self)@,
            },
    {
        let path = &target_path.path;
        match target_path.prefix {
            PathPrefix::Event => match self {
                VrlTarget::OtelLog(v, _) => {
                    v.insert(path, value);
                    Ok(())
                },
                VrlTarget::OtelSpan(v, _) => {
                    v.insert(path, value);
                    Ok(())
                },
                VrlTarget::OtelMetric { event, value: seen } => {
                    match set_in_metric(event, path, &value) {
                        Ok(()) => {
                            seen.insert(path, value);
                            Ok(())
                        },
                        Err(e) => Err(e),
                    }
                },
            },
            PathPrefix::Metadata => {
                let metadata = self.metadata_mut();
                metadata.value.insert(path, value);
                Ok(())
            },
        }
    }

    /// What a path leads to. A metric can only be read in some places.
    pub fn target_get(&self, target_path: &OwnedTargetPath) -> (r: Result<
        Option<&Value>,
        MetricPathError,
    >)
        ensures
            match r {
                Ok(v) => self@.read(target_path@, false) == Ok::<Option<ValueView>, FaultView>(
                    opt_view(v),
                ),
                Err(e) => self@.read(target_path@, false) == Err::<Option<ValueView>, FaultView>(e@),
            },
    {
        match target_path.prefix {
            PathPrefix::Event => match self {
                VrlTarget::OtelLog(v, _) | VrlTarget::OtelSpan(v, _) => Ok(v.get(&target_path.path)),
                VrlTarget::OtelMetric { value, .. } => match check_access(&target_path.path, false) {
                    Ok(true) => Ok(value.get(&target_path.path)),
                    Ok(false) => Ok(None),
                    Err(e) => Err(e),
                },
            },
            PathPrefix::Metadata => Ok(self.metadata().value.get(&target_path.path)),
        }
    }

    /// What a path leads to, for change. A metric can only be changed in some places; a change does
    /// not reach the metric itself.
    pub fn target_get_mut(&mut self, target_path: &OwnedTargetPath) -> (r: Result<
        Option<&mut Value>,
        MetricPathError,
    >)
        ensures
            match r {
                Ok(Some(v)) => {
                    &&& old(self)@.read(target_path@, true) == Ok::<Option<ValueView>, FaultView>(
                        Some((*v)@),
                    )
                    &&& final(self)@ == old(self)@.with_root(
                        target_path.prefix,
                        stored(
                            Some(old(self)@.root(target_path.prefix)),
                            target_path.path@,
                            (*final(v))@,
                        ),
                    )
                },
                Ok(None) => {
                    &&& old(self)@.read(target_path@, true) == Ok::<Option<ValueView>, FaultView>(None)
                    &&& final(self)@ == old(self)@
                },
                Err(e) => {
                    &&& old(self)@.read(target_path@, true) == Err::<Option<ValueView>, FaultView>(e@)
                    &&& final(self)@ == old(self)@
                },
            },
    {
        match target_path.prefix {
            PathPrefix::Event => match self {
                VrlTarget::OtelLog(v, _) => Ok(v.get_mut(&target_path.path)),
                VrlTarget::OtelSpan(v, _) => Ok(v.get_mut(&target_path.path)),
                VrlTarget::OtelMetric { value, .. } => match check_access(&target_path.path, true) {
                    Ok(true) => Ok(value.get_mut(&target_path.path)),
                    Ok(false) => Ok(None),
                    Err(e) => Err(e),
                },
            },
            PathPrefix::Metadata => {
                let metadata = self.metadata_mut();
                Ok(metadata.value.get_mut(&target_path.path))
            },
        }
    }

    /// Removes what a path leads to, and gives it. With `compact`, collections that this leaves empty
    /// go too.
    pub fn target_remove(&mut self, target_path: &OwnedTargetPath, compact: bool) -> (r: Result<
        Option<Value>,
        MetricPathError,
    >)
        ensures
            match old(self)@.cleared(target_path@, compact) {
                Ok(t) => r is Ok && final(self)@ == t && opt_view(r->Ok_0) == fetched(
                    old(self)@.root(target_path.prefix),
                    target_path.path@,
                ),
                Err(e) => r is Err && r->Err_0@ == e && final(self)@ == old(self)@,
            },
    {
        let path = &target_path.path;
        match target_path.prefix {
            PathPrefix::Event => match self {
                VrlTarget::OtelLog(v, _) => Ok(v.remove(path, compact)),
                VrlTarget::OtelSpan(v, _) => Ok(v.remove(path, compact)),
                VrlTarget::OtelMetric { event, value } => {
                    if path.is_root() {
                        return Err(MetricPathError::SetPathError);
                    }
                    let removed = value.remove(path, false);
                    remove_in_metric(event, path);
                    Ok(removed)
                },
            },
            PathPrefix::Metadata => {
                let metadata = self.metadata_mut();
                Ok(metadata.value.remove(path, compact))
            },
        }
    }

    /// The secret under a key.
    pub fn get_secret(&self, key: &str) -> (r: Option<&str>)
        ensures
            match r {
                Some(s) => value_of(self@.metadata().secrets, key@) == Some(s@),
                None => value_of(self@.metadata().secrets, key@) is None,
            },
    {
        match self.metadata().secrets.get(key) {
            Some(s) => Some(s.as_str()),
            None => None,
        }
    }

    /// Sets the secret under a key.
    pub fn insert_secret(&mut self, key: &str, value: &str)
        ensures
            final(self)@ == old(self)@.with_metadata(
                (MetadataView {
                    secrets: with_entry(old(self)@.metadata().secrets, key@, value@),
                    ..old(self)@.metadata()
                }),
            ),
    {
        let metadata = self.metadata_mut();
        metadata.secrets.insert(key.to_owned(), value.to_owned());
    }

    /// Removes the secret under a key.
    pub fn remove_secret(&mut self, key: &str)
        ensures
            final(self)@ == old(self)@.with_metadata(
                (MetadataView {
                    secrets: without_entry(old(self)@.metadata().secrets, key@),
                    ..old(self)@.metadata()
                }),
            ),
    {
        let metadata = self.metadata_mut();
        metadata.secrets.remove(key);
    }
}

} // verus!
