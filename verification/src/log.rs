//! Log events.
use vstd::prelude::*;
use vstd::string::StringExecFns;

use crate::any_value::{
    any_from_value, kvs_view, vrl_value_to_any_value, AnyValue, AnyView, KeyValue,
};
use crate::attributes::{attrs_from_kvs, kvs_from_attrs, OtelAttributes};
use crate::canonical::{full_resource, full_scope, resource_to_proto, scope_to_proto};
use crate::keyed::{opt_view, ordered, value_of, with_entry, without_entry};
use crate::metadata::{EventMetadata, MetadataView};
use crate::otlp::{
    InstrumentationScope, LogRecord, LogRecordView, Resource, ResourceView, ScopeView,
};
use crate::value::{Value, ValueView};

verus! {

/// A log event: the record, the resource and the scope, each with its attributes apart from it, and
/// the metadata.
#[derive(Debug, PartialEq)]
pub struct OtelLog {
    pub record: LogRecord,
    pub record_attrs: OtelAttributes,
    pub resource: Option<Resource>,
    pub resource_attrs: OtelAttributes,
    pub scope: Option<InstrumentationScope>,
    pub scope_attrs: OtelAttributes,
    pub metadata: EventMetadata,
}

#[verifier::ext_equal]
pub struct OtelLogView {
    pub record: LogRecordView,
    pub record_attrs: Seq<(Seq<char>, AnyView)>,
    pub resource: Option<ResourceView>,
    pub resource_attrs: Seq<(Seq<char>, AnyView)>,
    pub scope: Option<ScopeView>,
    pub scope_attrs: Seq<(Seq<char>, AnyView)>,
    pub metadata: MetadataView,
}

impl View for OtelLog {
    type V = OtelLogView;

    open spec fn view(&self) -> OtelLogView {
        OtelLogView {
            record: self.record@,
            record_attrs: self.record_attrs@,
            resource: opt_view(self.resource),
            resource_attrs: self.resource_attrs@,
            scope: opt_view(self.scope),
            scope_attrs: self.scope_attrs@,
            metadata: self.metadata@,
        }
    }
}

impl Clone for OtelLog {
    fn clone(&self) -> (r: Self)
        ensures
            r@ == self@,
    {
        OtelLog {
            record: self.record.clone(),
            record_attrs: self.record_attrs.clone(),
            resource: match &self.resource {
                Some(r) => Some(r.clone()),
                None => None,
            },
            resource_attrs: self.resource_attrs.clone(),
            scope: match &self.scope {
                Some(s) => Some(s.clone()),
                None => None,
            },
            scope_attrs: self.scope_attrs.clone(),
            metadata: self.metadata.clone(),
        }
    }
}

/// A list of named attributes moved apart: what is left has none.
pub open spec fn resource_stripped(r: ResourceView) -> ResourceView {
    ResourceView { attributes: Seq::empty(), ..r }
}

pub open spec fn scope_stripped(s: ScopeView) -> ScopeView {
    ScopeView { attributes: Seq::empty(), ..s }
}

/// The resource without its attributes, which come apart from it.
pub fn split_resource(resource: Resource) -> (r: (Resource, OtelAttributes))
    ensures
        r.0@ == resource_stripped(resource@),
        r.1@ == attrs_from_kvs(resource@.attributes),
        r.1.wf(),
{
    let attrs = OtelAttributes::from_key_values(resource.attributes);
    let rest = Resource {
        attributes: Vec::new(),
        dropped_attributes_count: resource.dropped_attributes_count,
    };
    assert(rest@ =~= resource_stripped(resource@));
    (rest, attrs)
}

/// The scope without its attributes, which come apart from it.
pub fn split_scope(scope: InstrumentationScope) -> (r: (InstrumentationScope, OtelAttributes))
    ensures
        r.0@ == scope_stripped(scope@),
        r.1@ == attrs_from_kvs(scope@.attributes),
        r.1.wf(),
{
    let attrs = OtelAttributes::from_key_values(scope.attributes);
    let rest = InstrumentationScope {
        name: scope.name,
        version: scope.version,
        attributes: Vec::new(),
        dropped_attributes_count: scope.dropped_attributes_count,
    };
    assert(rest@ =~= scope_stripped(scope@));
    (rest, attrs)
}

/// The attributes that an optional resource carries.
pub open spec fn resource_attrs_of(resource: Option<ResourceView>) -> Seq<(Seq<char>, AnyView)> {
    match resource {
        Some(r) => attrs_from_kvs(r.attributes),
        None => Seq::empty(),
    }
}

pub open spec fn scope_attrs_carried(scope: Option<ScopeView>) -> Seq<(Seq<char>, AnyView)> {
    match scope {
        Some(s) => attrs_from_kvs(s.attributes),
        None => Seq::empty(),
    }
}

pub open spec fn opt_resource_stripped(resource: Option<ResourceView>) -> Option<ResourceView> {
    match resource {
        Some(r) => Some(resource_stripped(r)),
        None => None,
    }
}

pub open spec fn opt_scope_stripped(scope: Option<ScopeView>) -> Option<ScopeView> {
    match scope {
        Some(s) => Some(scope_stripped(s)),
        None => None,
    }
}

pub fn split_opt_resource(resource: Option<Resource>) -> (r: (Option<Resource>, OtelAttributes))
    ensures
        opt_view(r.0) == opt_resource_stripped(opt_view(resource)),
        r.1@ == resource_attrs_of(opt_view(resource)),
        r.1.wf(),
{
    match resource {
        Some(resource) => {
            let (rest, attrs) = split_resource(resource);
            (Some(rest), attrs)
        },
        None => (None, OtelAttributes::new()),
    }
}

pub fn split_opt_scope(scope: Option<InstrumentationScope>) -> (r: (
    Option<InstrumentationScope>,
    OtelAttributes,
))
    ensures
        opt_view(r.0) == opt_scope_stripped(opt_view(scope)),
        r.1@ == scope_attrs_carried(opt_view(scope)),
        r.1.wf(),
{
    match scope {
        Some(scope) => {
            let (rest, attrs) = split_scope(scope);
            (Some(rest), attrs)
        },
        None => (None, OtelAttributes::new()),
    }
}

/// The resource with its attributes put back, where there is one.
pub open spec fn resource_joined(
    resource: Option<ResourceView>,
    attrs: Seq<(Seq<char>, AnyView)>,
) -> Option<ResourceView> {
    match resource {
        Some(r) => Some(ResourceView { attributes: kvs_from_attrs(attrs), ..r }),
        None => None,
    }
}

pub open spec fn scope_joined(scope: Option<ScopeView>, attrs: Seq<(Seq<char>, AnyView)>) -> Option<
    ScopeView,
> {
    match scope {
        Some(s) => Some(ScopeView { attributes: kvs_from_attrs(attrs), ..s }),
        None => None,
    }
}

pub fn join_resource(resource: Option<Resource>, attrs: &OtelAttributes) -> (r: Option<Resource>)
    ensures
        opt_view(r) == resource_joined(opt_view(resource), attrs@),
{
    match resource {
        Some(r) => {
            let mut r = r;
            r.attributes = attrs.to_key_values();
            Some(r)
        },
        None => None,
    }
}

pub fn join_scope(scope: Option<InstrumentationScope>, attrs: &OtelAttributes) -> (r: Option<
    InstrumentationScope,
>)
    ensures
        opt_view(r) == scope_joined(opt_view(scope), attrs@),
{
    match scope {
        Some(s) => {
            let mut s = s;
            s.attributes = attrs.to_key_values();
            Some(s)
        },
        None => None,
    }
}

impl OtelLogView {
    /// The log event from a record, a resource and a scope, whose attributes come apart from them.
    pub open spec fn of_parts(
        record: LogRecordView,
        resource: Option<ResourceView>,
        scope: Option<ScopeView>,
        metadata: MetadataView,
    ) -> OtelLogView {
        OtelLogView {
            record: LogRecordView { attributes: Seq::empty(), ..record },
            record_attrs: attrs_from_kvs(record.attributes),
            resource: opt_resource_stripped(resource),
            resource_attrs: resource_attrs_of(resource),
            scope: opt_scope_stripped(scope),
            scope_attrs: scope_attrs_carried(scope),
            metadata,
        }
    }

    /// A log event with only a record and metadata.
    pub open spec fn of_record(record: LogRecordView, metadata: MetadataView) -> OtelLogView {
        OtelLogView {
            record: LogRecordView { attributes: Seq::empty(), ..record },
            record_attrs: attrs_from_kvs(record.attributes),
            resource: None,
            resource_attrs: Seq::empty(),
            scope: None,
            scope_attrs: Seq::empty(),
            metadata,
        }
    }

    /// A log event with a body and nothing else.
    pub open spec fn of_body(body: AnyView, metadata: MetadataView) -> OtelLogView {
        OtelLogView::of_record(
            LogRecordView { body: Some(body), ..LogRecordView::default_view() },
            metadata,
        )
    }

    /// The attributes stand in the order of their names.
    pub open spec fn wf(&self) -> bool {
        &&& ordered(self.record_attrs)
        &&& ordered(self.resource_attrs)
        &&& ordered(self.scope_attrs)
    }
}

/// The attribute value that holds the text that bytes are, or the bytes where they are no text.
pub open spec fn any_from_bytes(b: Seq<u8>) -> AnyView {
    any_from_value(ValueView::Bytes(b))
}

impl OtelLog {
    /// A log event with a record.
    pub fn new(record: LogRecord) -> (r: Self)
        ensures
            r@ == OtelLogView::of_record(record@, r@.metadata),
            r@.metadata.is_default(),
            r@.wf(),
    {
        OtelLog::from_parts(record, None, None, EventMetadata::default())
    }

    /// A log event with a record, a resource, a scope and metadata.
    pub fn from_parts(
        record: LogRecord,
        resource: Option<Resource>,
        scope: Option<InstrumentationScope>,
        metadata: EventMetadata,
    ) -> (r: Self)
        ensures
            r@ == OtelLogView::of_parts(record@, opt_view(resource), opt_view(scope), metadata@),
            r@.wf(),
    {
        let mut record = record;
        let mut attributes: Vec<KeyValue> = Vec::new();
        std::mem::swap(&mut record.attributes, &mut attributes);
        assert(kvs_view(record.attributes@) =~= Seq::empty());
        let record_attrs = OtelAttributes::from_key_values(attributes);
        let (resource, resource_attrs) = split_opt_resource(resource);
        let (scope, scope_attrs) = split_opt_scope(scope);
        OtelLog {
            record,
            record_attrs,
            resource,
            resource_attrs,
            scope,
            scope_attrs,
            metadata,
        }
    }

    /// The record, the resource and the scope, each with its attributes, and the metadata.
    pub fn into_parts(self) -> (r: (
        LogRecord,
        Option<Resource>,
        Option<InstrumentationScope>,
        EventMetadata,
    ))
        ensures
            r.0@ == (LogRecordView {
                attributes: kvs_from_attrs(self@.record_attrs),
                ..self@.record
            }),
            opt_view(r.1) == resource_joined(self@.resource, self@.resource_attrs),
            opt_view(r.2) == scope_joined(self@.scope, self@.scope_attrs),
            r.3@ == self@.metadata,
    {
        let mut record = self.record;
        record.attributes = self.record_attrs.to_key_values();
        let resource = join_resource(self.resource, &self.resource_attrs);
        let scope = join_scope(self.scope, &self.scope_attrs);
        (record, resource, scope, self.metadata)
    }

    /// A log event whose body is the text that bytes are, or the bytes where they are no text.
    pub fn from_bytes(bytes: Vec<u8>) -> (r: Self)
        ensures
            r@ == OtelLogView::of_body(any_from_bytes(bytes@), r@.metadata),
            r@.metadata.is_default(),
    {
        let body = vrl_value_to_any_value(&Value::Bytes(bytes));
        let record = LogRecord { body: Some(body), ..LogRecord::default() };
        OtelLog::new(record)
    }

    /// A log event with nothing but metadata.
    pub fn new_with_metadata(metadata: EventMetadata) -> (r: Self)
        ensures
            r@ == OtelLogView::of_record(LogRecordView::default_view(), metadata@),
            r@.wf(),
    {
        OtelLog::from_parts(LogRecord::default(), None, None, metadata)
    }

    pub fn record(&self) -> (r: &LogRecord)
        ensures
            r@ == self@.record,
    {
        &self.record
    }

    /// The record with its attributes.
    pub fn record_to_proto(&self) -> (r: LogRecord)
        ensures
            r@ == (LogRecordView {
                attributes: kvs_from_attrs(self@.record_attrs),
                ..self@.record
            }),
    {
        let mut r = self.record.clone();
        r.attributes = self.record_attrs.to_key_values();
        r
    }

    pub fn record_mut(&mut self) -> (r: &mut LogRecord)
        ensures
            (*r)@ == old(self)@.record,
            final(self)@ == (OtelLogView { record: (*final(r))@, ..old(self)@ }),
    {
        &mut self.record
    }

    pub fn record_attributes(&self) -> (r: &OtelAttributes)
        ensures
            r@ == self@.record_attrs,
    {
        &self.record_attrs
    }

    pub fn attributes(&self) -> (r: &OtelAttributes)
        ensures
            r@ == self@.record_attrs,
    {
        &self.record_attrs
    }

    pub fn resource(&self) -> (r: Option<&Resource>)
        ensures
            opt_view(r) == self@.resource,
    {
        self.resource.as_ref()
    }

    /// The resource with its attributes, or nothing where there is neither.
    pub fn resource_proto(&self) -> (r: Option<Resource>)
        ensures
            opt_view(r) == full_resource(self@.resource, self@.resource_attrs),
    {
        resource_to_proto(self.resource.as_ref(), &self.resource_attrs)
    }

    /// The scope with its attributes, or nothing where there is neither.
    pub fn scope_proto(&self) -> (r: Option<InstrumentationScope>)
        ensures
            opt_view(r) == full_scope(self@.scope, self@.scope_attrs),
    {
        scope_to_proto(self.scope.as_ref(), &self.scope_attrs)
    }

    pub fn set_resource(&mut self, resource: Resource)
        ensures
            final(self)@ == (OtelLogView {
                resource: Some(resource_stripped(resource@)),
                resource_attrs: attrs_from_kvs(resource@.attributes),
                ..old(self)@
            }),
    {
        let (rest, attrs) = split_resource(resource);
        self.resource_attrs = attrs;
        self.resource = Some(rest);
    }

    pub fn scope(&self) -> (r: Option<&InstrumentationScope>)
        ensures
            opt_view(r) == self@.scope,
    {
        self.scope.as_ref()
    }

    pub fn set_scope(&mut self, scope: InstrumentationScope)
        ensures
            final(self)@ == (OtelLogView {
                scope: Some(scope_stripped(scope@)),
                scope_attrs: attrs_from_kvs(scope@.attributes),
                ..old(self)@
            }),
    {
        let (rest, attrs) = split_scope(scope);
        self.scope_attrs = attrs;
        self.scope = Some(rest);
    }

    pub fn metadata(&self) -> (r: &EventMetadata)
        ensures
            r@ == self@.metadata,
    {
        &self.metadata
    }

    pub fn metadata_mut(&mut self) -> (r: &mut EventMetadata)
        ensures
            (*r)@ == old(self)@.metadata,
            final(self)@ == (OtelLogView { metadata: (*final(r))@, ..old(self)@ }),
    {
        &mut self.metadata
    }

    pub fn body(&self) -> (r: Option<&AnyValue>)
        ensures
            opt_view(r) == self@.record.body,
    {
        self.record.body.as_ref()
    }

    pub fn set_body(&mut self, value: AnyValue)
        ensures
            final(self)@ == (OtelLogView {
                record: LogRecordView { body: Some(value@), ..old(self)@.record },
                ..old(self)@
            }),
    {
        self.record.body = Some(value);
    }

    pub fn time_unix_nano(&self) -> (r: u64)
        ensures
            r == self@.record.time_unix_nano,
    {
        self.record.time_unix_nano
    }

    pub fn observed_time_unix_nano(&self) -> (r: u64)
        ensures
            r == self@.record.observed_time_unix_nano,
    {
        self.record.observed_time_unix_nano
    }

    pub fn severity_number(&self) -> (r: i32)
        ensures
            r == self@.record.severity_number,
    {
        self.record.severity_number
    }

    pub fn severity_text(&self) -> (r: &str)
        ensures
            r@ == self@.record.severity_text,
    {
        self.record.severity_text.as_str()
    }

    pub fn trace_id(&self) -> (r: &[u8])
        ensures
            r@ == self@.record.trace_id,
    {
        self.record.trace_id.as_slice()
    }

    pub fn span_id(&self) -> (r: &[u8])
        ensures
            r@ == self@.record.span_id,
    {
        self.record.span_id.as_slice()
    }

    pub fn attribute(&self, key: &str) -> (r: Option<&AnyValue>)
        ensures
            opt_view(r) == value_of(self@.record_attrs, key@),
    {
        self.record_attrs.get(key)
    }

    pub fn set_attribute(&mut self, key: String, value: AnyValue)
        ensures
            final(self)@ == (OtelLogView {
                record_attrs: with_entry(old(self)@.record_attrs, key@, value@),
                ..old(self)@
            }),
    {
        self.record_attrs.insert(key, value);
    }

    pub fn remove_attribute(&mut self, key: &str) -> (r: Option<AnyValue>)
        ensures
            final(self)@ == (OtelLogView {
                record_attrs: without_entry(old(self)@.record_attrs, key@),
                ..old(self)@
            }),
            opt_view(r) == value_of(old(self)@.record_attrs, key@),
    {
        self.record_attrs.remove(key)
    }

    pub fn resource_attribute(&self, key: &str) -> (r: Option<&AnyValue>)
        ensures
            opt_view(r) == value_of(self@.resource_attrs, key@),
    {
        self.resource_attrs.get(key)
    }

    pub fn resource_attrs(&self) -> (r: &OtelAttributes)
        ensures
            r@ == self@.resource_attrs,
    {
        &self.resource_attrs
    }

    pub fn scope_attrs(&self) -> (r: &OtelAttributes)
        ensures
            r@ == self@.scope_attrs,
    {
        &self.scope_attrs
    }
}

} // verus!
