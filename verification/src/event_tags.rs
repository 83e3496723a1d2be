//! The tags by which events that were sent are counted.
use vstd::prelude::*;

use crate::any_value::{AnyView, OtelValueKind};
use crate::attributes::OtelAttributes;
use crate::event::{Event, EventView};
use crate::keyed::{opt_view, value_of};
use crate::log::{OtelLog, OtelLogView};
use crate::metadata::{clone_text, EventMetadata};
use crate::metric::{OtelMetric, OtelMetricView};
use crate::span::OtelSpan;

verus! {

/// A tag that is left out, or that stands with the value that is known of it.
#[derive(Debug, PartialEq, Eq)]
pub enum OptionalTag {
    Ignored,
    Specified(Option<String>),
}

pub enum OptionalTagView {
    Ignored,
    Specified(Option<Seq<char>>),
}

impl View for OptionalTag {
    type V = OptionalTagView;

    open spec fn view(&self) -> OptionalTagView {
        match self {
            OptionalTag::Ignored => OptionalTagView::Ignored,
            OptionalTag::Specified(value) => OptionalTagView::Specified(opt_view(*value)),
        }
    }
}

/// Which tags are asked for.
#[derive(Clone, Copy, Debug, PartialEq, Eq, Structural)]
pub struct Tags {
    pub emit_source: bool,
    pub emit_service: bool,
}

/// The tags by which an event is counted: the source that it came from, and the service that it is
/// about.
#[derive(Debug, PartialEq, Eq)]
pub struct TaggedEventsSent {
    pub source: OptionalTag,
    pub service: OptionalTag,
}

pub struct TaggedEventsView {
    pub source: OptionalTagView,
    pub service: OptionalTagView,
}

impl View for TaggedEventsSent {
    type V = TaggedEventsView;

    open spec fn view(&self) -> TaggedEventsView {
        TaggedEventsView { source: self.source@, service: self.service@ }
    }
}

/// A tag where it is asked for.
pub open spec fn asked(ask: bool, value: Option<Seq<char>>) -> OptionalTagView {
    if ask {
        OptionalTagView::Specified(value)
    } else {
        OptionalTagView::Ignored
    }
}

/// The service that the attributes of a resource name.
pub open spec fn service_of(attrs: Seq<(Seq<char>, AnyView)>) -> Option<Seq<char>> {
    match value_of(attrs, "service.name"@) {
        Some(AnyView::Str(s)) => Some(s),
        _ => None,
    }
}

/// The tags of an event of which neither source nor service is known.
pub open spec fn unspecified() -> TaggedEventsView {
    TaggedEventsView {
        source: OptionalTagView::Specified(None),
        service: OptionalTagView::Specified(None),
    }
}

impl OtelLogView {
    /// The tags by which the log is counted.
    pub open spec fn event_tags(&self, tags: Tags) -> TaggedEventsView {
        TaggedEventsView {
            source: asked(tags.emit_source, self.metadata.source_id),
            service: asked(tags.emit_service, service_of(self.resource_attrs)),
        }
    }
}

impl OtelMetricView {
    /// The tags by which the metric is counted.
    pub open spec fn event_tags(&self, tags: Tags) -> TaggedEventsView {
        TaggedEventsView {
            source: asked(tags.emit_source, self.metadata.source_id),
            service: asked(tags.emit_service, service_of(self.resource_attrs)),
        }
    }
}

/// The tags of an event with this metadata and these attributes of its resource.
fn find_tags(metadata: &EventMetadata, attrs: &OtelAttributes, tags: Tags) -> (r: TaggedEventsSent)
    ensures
        r@.source == asked(tags.emit_source, metadata@.source_id),
        r@.service == asked(tags.emit_service, service_of(attrs@)),
{
    let source = if tags.emit_source {
        OptionalTag::Specified(clone_text(&metadata.source_id))
    } else {
        OptionalTag::Ignored
    };
    let service = if tags.emit_service {
        match attrs.get("service.name") {
            Some(value) => match &value.value {
                Some(OtelValueKind::StringValue(s)) => OptionalTag::Specified(Some(s.clone())),
                _ => OptionalTag::Specified(None),
            },
            None => OptionalTag::Specified(None),
        }
    } else {
        OptionalTag::Ignored
    };
    TaggedEventsSent { source, service }
}

impl OtelLog {
    /// The tags by which the log is counted.
    pub fn get_tags(&self, tags: Tags) -> (r: TaggedEventsSent)
        ensures
            r@ == self@.event_tags(tags),
    {
        find_tags(&self.metadata, &self.resource_attrs, tags)
    }
}

impl OtelSpan {
    /// The tags by which the span is counted, of which none is known.
    pub fn get_tags(&self) -> (r: TaggedEventsSent)
        ensures
            r@ == unspecified(),
    {
        TaggedEventsSent { source: OptionalTag::Specified(None), service: OptionalTag::Specified(None) }
    }
}

impl OtelMetric {
    /// The tags by which the metric is counted.
    pub fn get_tags(&self, tags: Tags) -> (r: TaggedEventsSent)
        ensures
            r@ == self@.event_tags(tags),
    {
        find_tags(&self.metadata, &self.resource_attrs, tags)
    }
}

impl Event {
    /// The tags by which the event is counted.
    pub fn get_tags(&self, tags: Tags) -> (r: TaggedEventsSent)
        ensures
            r@ == match self@ {
                EventView::Log(e) => e.event_tags(tags),
                EventView::Metric(e) => e.event_tags(tags),
                EventView::Trace(_) => unspecified(),
            },
    {
        match self {
            Event::Log(e) => e.get_tags(tags),
            Event::Metric(e) => e.get_tags(tags),
            Event::Trace(e) => e.get_tags(),
        }
    }
}

} // verus!
