//! Span events.
use vstd::prelude::*;

use crate::any_value::{kvs_view, AnyValue, AnyView, KeyValue};
use crate::attributes::{attrs_from_kvs, kvs_from_attrs, OtelAttributes};
use crate::canonical::{full_resource, full_scope, resource_to_proto, scope_to_proto};
use crate::keyed::{opt_view, ordered, value_of, with_entry, without_entry};
use crate::log::{
    join_resource, join_scope, opt_resource_stripped, opt_scope_stripped, resource_attrs_of,
    resource_joined, resource_stripped, scope_attrs_carried, scope_joined, scope_stripped,
    split_opt_resource, split_opt_scope, split_resource, split_scope,
};
use crate::metadata::{EventMetadata, MetadataView};
use crate::otlp::{InstrumentationScope, Resource, ResourceView, ScopeView};
use crate::otlp_span::{Span, SpanView, Status};

verus! {

/// A span event: the span, the resource and the scope, each with its attributes apart from it, and
/// the metadata.
#[derive(Debug, PartialEq)]
pub struct OtelSpan {
    pub span: Span,
    pub span_attrs: OtelAttributes,
    pub resource: Option<Resource>,
    pub resource_attrs: OtelAttributes,
    pub scope: Option<InstrumentationScope>,
    pub scope_attrs: OtelAttributes,
    pub metadata: EventMetadata,
}

#[verifier::ext_equal]
pub struct OtelSpanView {
    pub span: SpanView,
    pub span_attrs: Seq<(Seq<char>, AnyView)>,
    pub resource: Option<ResourceView>,
    pub resource_attrs: Seq<(Seq<char>, AnyView)>,
    pub scope: Option<ScopeView>,
    pub scope_attrs: Seq<(Seq<char>, AnyView)>,
    pub metadata: MetadataView,
}

impl View for OtelSpan {
    type V = OtelSpanView;

    open spec fn view(&self) -> OtelSpanView {
        OtelSpanView {
            span: self.span@,
            span_attrs: self.span_attrs@,
            resource: opt_view(self.resource),
            resource_attrs: self.resource_attrs@,
            scope: opt_view(self.scope),
            scope_attrs: self.scope_attrs@,
            metadata: self.metadata@,
        }
    }
}

impl Clone for OtelSpan {
    fn clone(&self) -> (r: Self)
        ensures
            r@ == self@,
    {
        OtelSpan {
            span: self.span.clone(),
            span_attrs: self.span_attrs.clone(),
            resource: match &self.resource {
                Some(r) => Some(r.clone()),
                None => None,
            },
            resource_attrs: self.resource_attrs.clone(),
            scope: match &self.scope {
                Some(s) => Some(s.clone()),
                None => None,
            },
            scope_attrs: self.scope_attrs.clone(),
            metadata: self.metadata.clone(),
        }
    }
}

impl OtelSpanView {
    /// The span event from a span, a resource and a scope, whose attributes come apart from them.
    pub open spec fn of_parts(
        span: SpanView,
        resource: Option<ResourceView>,
        scope: Option<ScopeView>,
        metadata: MetadataView,
    ) -> OtelSpanView {
        OtelSpanView {
            span: SpanView { attributes: Seq::empty(), ..span },
            span_attrs: attrs_from_kvs(span.attributes),
            resource: opt_resource_stripped(resource),
            resource_attrs: resource_attrs_of(resource),
            scope: opt_scope_stripped(scope),
            scope_attrs: scope_attrs_carried(scope),
            metadata,
        }
    }

    /// A span event with only a span and metadata.
    pub open spec fn of_span(span: SpanView, metadata: MetadataView) -> OtelSpanView {
        OtelSpanView {
            span: SpanView { attributes: Seq::empty(), ..span },
            span_attrs: attrs_from_kvs(span.attributes),
            resource: None,
            resource_attrs: Seq::empty(),
            scope: None,
            scope_attrs: Seq::empty(),
            metadata,
        }
    }

    /// The event with a resource, an empty one where it had none.
    pub open spec fn with_some_resource(self) -> OtelSpanView {
        OtelSpanView {
            resource: match self.resource {
                Some(r) => Some(r),
                None => Some(ResourceView::default_view()),
            },
            ..self
        }
    }

    /// The attributes stand in the order of their names.
    pub open spec fn wf(&self) -> bool {
        &&& ordered(self.span_attrs)
        &&& ordered(self.resource_attrs)
        &&& ordered(self.scope_attrs)
    }
}

impl OtelSpan {
    /// A span event from a span.
    pub fn new(span: Span) -> (r: Self)
        ensures
            r@ == OtelSpanView::of_span(span@, r@.metadata),
            r@.metadata.is_default(),
            r@.wf(),
    {
        OtelSpan::from_parts(span, None, None, EventMetadata::default())
    }

    /// A span event from a span, a resource, a scope and metadata.
    pub fn from_parts(
        span: Span,
        resource: Option<Resource>,
        scope: Option<InstrumentationScope>,
        metadata: EventMetadata,
    ) -> (r: Self)
        ensures
            r@ == OtelSpanView::of_parts(span@, opt_view(resource), opt_view(scope), metadata@),
            r@.wf(),
    {
        let mut span = span;
        let mut attributes: Vec<KeyValue> = Vec::new();
        std::mem::swap(&mut span.attributes, &mut attributes);
        assert(kvs_view(span.attributes@) =~= Seq::empty());
        let span_attrs = OtelAttributes::from_key_values(attributes);
        let (resource, resource_attrs) = split_opt_resource(resource);
        let (scope, scope_attrs) = split_opt_scope(scope);
        OtelSpan {
            span,
            span_attrs,
            resource,
            resource_attrs,
            scope,
            scope_attrs,
            metadata,
        }
    }

    /// The span, the resource and the scope, each with its attributes, and the metadata.
    pub fn into_parts(self) -> (r: (
        Span,
        Option<Resource>,
        Option<InstrumentationScope>,
        EventMetadata,
    ))
        ensures
            r.0@ == (SpanView {
                attributes: kvs_from_attrs(self@.span_attrs),
                ..self@.span
            }),
            opt_view(r.1) == resource_joined(self@.resource, self@.resource_attrs),
            opt_view(r.2) == scope_joined(self@.scope, self@.scope_attrs),
            r.3@ == self@.metadata,
    {
        let mut span = self.span;
        span.attributes = self.span_attrs.to_key_values();
        let resource = join_resource(self.resource, &self.resource_attrs);
        let scope = join_scope(self.scope, &self.scope_attrs);
        (span, resource, scope, self.metadata)
    }

    pub fn span(&self) -> (r: &Span)
        ensures
            r@ == self@.span,
    {
        &self.span
    }

    /// The span with its attributes.
    pub fn span_to_proto(&self) -> (r: Span)
        ensures
            r@ == (SpanView {
                attributes: kvs_from_attrs(self@.span_attrs),
                ..self@.span
            }),
    {
        let mut r = self.span.clone();
        r.attributes = self.span_attrs.to_key_values();
        r
    }

    pub fn span_mut(&mut self) -> (r: &mut Span)
        ensures
            (*r)@ == old(self)@.span,
            final(self)@ == (OtelSpanView { span: (*final(r))@, ..old(self)@ }),
    {
        &mut self.span
    }

    pub fn attributes(&self) -> (r: &OtelAttributes)
        ensures
            r@ == self@.span_attrs,
    {
        &self.span_attrs
    }

    pub fn resource(&self) -> (r: Option<&Resource>)
        ensures
            opt_view(r) == self@.resource,
    {
        self.resource.as_ref()
    }

    /// The resource with its attributes, or nothing where there is neither.
    pub fn resource_proto(&self) -> (r: Option<Resource>)
        ensures
            opt_view(r) == full_resource(self@.resource, self@.resource_attrs),
    {
        resource_to_proto(self.resource.as_ref(), &self.resource_attrs)
    }

    /// The scope with its attributes, or nothing where there is neither.
    pub fn scope_proto(&self) -> (r: Option<InstrumentationScope>)
        ensures
            opt_view(r) == full_scope(self@.scope, self@.scope_attrs),
    {
        scope_to_proto(self.scope.as_ref(), &self.scope_attrs)
    }

    pub fn set_resource(&mut self, resource: Resource)
        ensures
            final(self)@ == (OtelSpanView {
                resource: Some(resource_stripped(resource@)),
                resource_attrs: attrs_from_kvs(resource@.attributes),
                ..old(self)@
            }),
    {
        let (rest, attrs) = split_resource(resource);
        self.resource_attrs = attrs;
        self.resource = Some(rest);
    }

    pub fn scope(&self) -> (r: Option<&InstrumentationScope>)
        ensures
            opt_view(r) == self@.scope,
    {
        self.scope.as_ref()
    }

    pub fn set_scope(&mut self, scope: InstrumentationScope)
        ensures
            final(self)@ == (OtelSpanView {
                scope: Some(scope_stripped(scope@)),
                scope_attrs: attrs_from_kvs(scope@.attributes),
                ..old(self)@
            }),
    {
        let (rest, attrs) = split_scope(scope);
        self.scope_attrs = attrs;
        self.scope = Some(rest);
    }

    pub fn metadata(&self) -> (r: &EventMetadata)
        ensures
            r@ == self@.metadata,
    {
        &self.metadata
    }

    pub fn metadata_mut(&mut self) -> (r: &mut EventMetadata)
        ensures
            (*r)@ == old(self)@.metadata,
            final(self)@ == (OtelSpanView { metadata: (*final(r))@, ..old(self)@ }),
    {
        &mut self.metadata
    }

    pub fn trace_id(&self) -> (r: &[u8])
        ensures
            r@ == self@.span.trace_id,
    {
        self.span.trace_id.as_slice()
    }

    pub fn span_id(&self) -> (r: &[u8])
        ensures
            r@ == self@.span.span_id,
    {
        self.span.span_id.as_slice()
    }

    pub fn attribute(&self, key: &str) -> (r: Option<&AnyValue>)
        ensures
            opt_view(r) == value_of(self@.span_attrs, key@),
    {
        self.span_attrs.get(key)
    }

    pub fn set_attribute(&mut self, key: String, value: AnyValue)
        ensures
            final(self)@ == (OtelSpanView {
                span_attrs: with_entry(old(self)@.span_attrs, key@, value@),
                ..old(self)@
            }),
    {
        self.span_attrs.insert(key, value);
    }

    pub fn remove_attribute(&mut self, key: &str) -> (r: Option<AnyValue>)
        ensures
            final(self)@ == (OtelSpanView {
                span_attrs: without_entry(old(self)@.span_attrs, key@),
                ..old(self)@
            }),
            opt_view(r) == value_of(old(self)@.span_attrs, key@),
    {
        self.span_attrs.remove(key)
    }

    pub fn resource_attribute(&self, key: &str) -> (r: Option<&AnyValue>)
        ensures
            opt_view(r) == value_of(self@.resource_attrs, key@),
    {
        self.resource_attrs.get(key)
    }

    pub fn resource_attrs(&self) -> (r: &OtelAttributes)
        ensures
            r@ == self@.resource_attrs,
    {
        &self.resource_attrs
    }

    pub fn scope_attrs(&self) -> (r: &OtelAttributes)
        ensures
            r@ == self@.scope_attrs,
    {
        &self.scope_attrs
    }

    pub fn name(&self) -> (r: &str)
        ensures
            r@ == self@.span.name,
    {
        self.span.name.as_str()
    }

    pub fn parent_span_id(&self) -> (r: &[u8])
        ensures
            r@ == self@.span.parent_span_id,
    {
        self.span.parent_span_id.as_slice()
    }

    pub fn start_time_unix_nano(&self) -> (r: u64)
        ensures
            r == self@.span.start_time_unix_nano,
    {
        self.span.start_time_unix_nano
    }

    pub fn end_time_unix_nano(&self) -> (r: u64)
        ensures
            r == self@.span.end_time_unix_nano,
    {
        self.span.end_time_unix_nano
    }

    pub fn kind(&self) -> (r: i32)
        ensures
            r == self@.span.kind,
    {
        self.span.kind
    }

    pub fn status(&self) -> (r: Option<&Status>)
        ensures
            opt_view(r) == self@.span.status,
    {
        self.span.status.as_ref()
    }

    pub fn set_resource_attribute(&mut self, key: String, value: AnyValue)
        ensures
            final(self)@ == (OtelSpanView {
                resource_attrs: with_entry(old(self)@.resource_attrs, key@, value@),
                ..old(self)@.with_some_resource()
            }),
    {
        self.ensure_resource();
        self.resource_attrs.insert(key, value);
    }

    /// Gives the event an empty resource where it has none.
    pub(crate) fn ensure_resource(&mut self)
        ensures
            final(self)@ == old(self)@.with_some_resource(),
    {
        if self.resource.is_none() {
            self.resource = Some(Resource::default());
        }
    }
}

} // verus!
