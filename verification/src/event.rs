//! An event of any kind.
use vstd::prelude::*;
use vstd::std_specs::convert::FromSpecImpl;

use crate::json::{json_to_vrl_value, value_from_json, Json};
use crate::keyed::opt_view;
use crate::log::{OtelLog, OtelLogView};
use crate::log_value::log_from_value;
use crate::metadata::{EventMetadata, MetadataView, OutputId};
use crate::metric::{OtelMetric, OtelMetricView};
use crate::metric_data::{MetricData, MetricSeries};
use crate::metric_ops::is_metric_parts;
use crate::span::{OtelSpan, OtelSpanView};

verus! {

pub const PARTIAL: &'static str = "_partial";

/// An event: a log, a metric or a span.
#[derive(Debug, PartialEq)]
pub enum Event {
    Log(OtelLog),
    Metric(OtelMetric),
    Trace(OtelSpan),
}

pub enum EventView {
    Log(OtelLogView),
    Metric(OtelMetricView),
    Trace(OtelSpanView),
}

impl View for Event {
    type V = EventView;

    open spec fn view(&self) -> EventView {
        match self {
            Event::Log(e) => EventView::Log(e@),
            Event::Metric(e) => EventView::Metric(e@),
            Event::Trace(e) => EventView::Trace(e@),
        }
    }
}

impl Clone for Event {
    fn clone(&self) -> (r: Self)
        ensures
            r@ == self@,
    {
        match self {
            Event::Log(e) => Event::Log(e.clone()),
            Event::Metric(e) => Event::Metric(e.clone()),
            Event::Trace(e) => Event::Trace(e.clone()),
        }
    }
}

impl EventView {
    pub open spec fn metadata(&self) -> MetadataView {
        match self {
            EventView::Log(e) => e.metadata,
            EventView::Metric(e) => e.metadata,
            EventView::Trace(e) => e.metadata,
        }
    }

    /// The event with other metadata.
    pub open spec fn with_metadata(self, metadata: MetadataView) -> EventView {
        match self {
            EventView::Log(e) => EventView::Log(OtelLogView { metadata, ..e }),
            EventView::Metric(e) => EventView::Metric(OtelMetricView { metadata, ..e }),
            EventView::Trace(e) => EventView::Trace(OtelSpanView { metadata, ..e }),
        }
    }

    /// Whether two events hold the same data.
    pub open spec fn same_data(&self, other: &EventView) -> bool {
        match (self, other) {
            (EventView::Log(a), EventView::Log(b)) => a.same_data(b),
            (EventView::Metric(a), EventView::Metric(b)) => a.same_data(b),
            (EventView::Trace(a), EventView::Trace(b)) => a.same_data(b),
            _ => false,
        }
    }
}

/// Where logs keep their fields.
#[derive(Clone, Copy, Debug, PartialEq, Eq, Structural)]
pub enum LogNamespace {
    Vector,
    Legacy,
}

/// That a JSON value that is no object was to become an event.
#[derive(Debug)]
pub struct NotAnObject;

impl NotAnObject {
    pub fn text(&self) -> (r: &'static str)
        ensures
            r@ == "Attempted to convert non-Object JSON into an Event."@,
    {
        "Attempted to convert non-Object JSON into an Event."
    }
}

impl Event {
    /// The event as a log event.
    pub fn as_log(&self) -> (r: &OtelLog)
        requires
            self@ is Log,
        ensures
            self@ == EventView::Log(r@),
    {
        match self {
            Event::Log(e) => e,
            _ => vstd::pervasive::unreached(),
        }
    }

    /// The event as a log event that can be changed.
    pub fn as_mut_log(&mut self) -> (r: &mut OtelLog)
        requires
            old(self)@ is Log,
        ensures
            old(self)@ == EventView::Log((*r)@),
            final(self)@ == EventView::Log((*final(r))@),
    {
        match self {
            Event::Log(e) => e,
            _ => vstd::pervasive::unreached(),
        }
    }

    /// The event as a metric event.
    pub fn as_metric(&self) -> (r: &OtelMetric)
        requires
            self@ is Metric,
        ensures
            self@ == EventView::Metric(r@),
    {
        match self {
            Event::Metric(e) => e,
            _ => vstd::pervasive::unreached(),
        }
    }

    /// The event as a metric event that can be changed.
    pub fn as_mut_metric(&mut self) -> (r: &mut OtelMetric)
        requires
            old(self)@ is Metric,
        ensures
            old(self)@ == EventView::Metric((*r)@),
            final(self)@ == EventView::Metric((*final(r))@),
    {
        match self {
            Event::Metric(e) => e,
            _ => vstd::pervasive::unreached(),
        }
    }

    /// The event as a span event.
    pub fn as_trace(&self) -> (r: &OtelSpan)
        requires
            self@ is Trace,
        ensures
            self@ == EventView::Trace(r@),
    {
        match self {
            Event::Trace(e) => e,
            _ => vstd::pervasive::unreached(),
        }
    }

    /// The event as a span event that can be changed.
    pub fn as_mut_trace(&mut self) -> (r: &mut OtelSpan)
        requires
            old(self)@ is Trace,
        ensures
            old(self)@ == EventView::Trace((*r)@),
            final(self)@ == EventView::Trace((*final(r))@),
    {
        match self {
            Event::Trace(e) => e,
            _ => vstd::pervasive::unreached(),
        }
    }

    /// Turns the event into a log event.
    pub fn into_log(self) -> (r: OtelLog)
        requires
            self@ is Log,
        ensures
            self@ == EventView::Log(r@),
    {
        match self {
            Event::Log(e) => e,
            _ => vstd::pervasive::unreached(),
        }
    }

    /// Turns the event into a log event, where it is one.
    pub fn try_into_log(self) -> (r: Option<OtelLog>)
        ensures
            match r {
                Some(e) => self@ == EventView::Log(e@),
                None => self@ !is Log,
            },
    {
        match self {
            Event::Log(e) => Some(e),
            _ => None,
        }
    }

    /// Turns the event into a metric event.
    pub fn into_otel_metric(self) -> (r: OtelMetric)
        requires
            self@ is Metric,
        ensures
            self@ == EventView::Metric(r@),
    {
        match self {
            Event::Metric(e) => e,
            _ => vstd::pervasive::unreached(),
        }
    }

    /// Turns the event into a metric event, where it is one.
    pub fn try_into_otel_metric(self) -> (r: Option<OtelMetric>)
        ensures
            match r {
                Some(e) => self@ == EventView::Metric(e@),
                None => self@ !is Metric,
            },
    {
        match self {
            Event::Metric(e) => Some(e),
            _ => None,
        }
    }

    /// The series, the data and the metadata of the metric. `shown` shows a double, `power` gives the
    /// bound for a scale and an exponent.
    pub fn to_metric<F: Fn(u64) -> String, G: Fn(i32, i32) -> u64>(&self, shown: F, power: G) -> (r: (
        MetricSeries,
        MetricData,
        EventMetadata,
    ))
        requires
            forall|b: u64| call_requires(shown, (b,)),
            forall|s: i32, e: i32| call_requires(power, (s, e)),
            self@ matches EventView::Metric(m) && m.has_bounds(),
        ensures
            self@ matches EventView::Metric(m) ==> is_metric_parts(m, shown, power, r.0@, r.1@)
                && r.2@ == m.metadata,
    {
        self.as_metric().clone().into_metric_parts(shown, power)
    }

    /// Turns the event into the series, the data and the metadata of the metric. `shown` shows a
    /// double, `power` gives the bound for a scale and an exponent.
    pub fn into_metric<F: Fn(u64) -> String, G: Fn(i32, i32) -> u64>(self, shown: F, power: G) -> (r: (
        MetricSeries,
        MetricData,
        EventMetadata,
    ))
        requires
            forall|b: u64| call_requires(shown, (b,)),
            forall|s: i32, e: i32| call_requires(power, (s, e)),
            self@ matches EventView::Metric(m) && m.has_bounds(),
        ensures
            self@ matches EventView::Metric(m) ==> is_metric_parts(m, shown, power, r.0@, r.1@)
                && r.2@ == m.metadata,
    {
        self.into_otel_metric().into_metric_parts(shown, power)
    }

    /// Turns the event into the series, the data and the metadata of the metric, where it is one.
    /// `shown` shows a double, `power` gives the bound for a scale and an exponent.
    pub fn try_into_metric<F: Fn(u64) -> String, G: Fn(i32, i32) -> u64>(self, shown: F, power: G) -> (r:
        Option<(MetricSeries, MetricData, EventMetadata)>)
        requires
            forall|b: u64| call_requires(shown, (b,)),
            forall|s: i32, e: i32| call_requires(power, (s, e)),
            self@ matches EventView::Metric(m) ==> m.has_bounds(),
        ensures
            match self@ {
                EventView::Metric(m) => r matches Some(parts) && is_metric_parts(
                    m,
                    shown,
                    power,
                    parts.0@,
                    parts.1@,
                ) && parts.2@ == m.metadata,
                _ => r is None,
            },
    {
        match self {
            Event::Metric(e) => Some(e.into_metric_parts(shown, power)),
            _ => None,
        }
    }

    /// Turns the event into a span event.
    pub fn into_trace(self) -> (r: OtelSpan)
        requires
            self@ is Trace,
        ensures
            self@ == EventView::Trace(r@),
    {
        match self {
            Event::Trace(e) => e,
            _ => vstd::pervasive::unreached(),
        }
    }

    /// Turns the event into a span event, where it is one.
    pub fn try_into_trace(self) -> (r: Option<OtelSpan>)
        ensures
            match r {
                Some(e) => self@ == EventView::Trace(e@),
                None => self@ !is Trace,
            },
    {
        match self {
            Event::Trace(e) => Some(e),
            _ => None,
        }
    }

    /// The event as a log event, where it is one.
    pub fn maybe_as_log(&self) -> (r: Option<&OtelLog>)
        ensures
            match r {
                Some(e) => self@ == EventView::Log(e@),
                None => self@ !is Log,
            },
    {
        match self {
            Event::Log(e) => Some(e),
            _ => None,
        }
    }

    pub fn maybe_as_otel_log(&self) -> (r: Option<&OtelLog>)
        ensures
            match r {
                Some(e) => self@ == EventView::Log(e@),
                None => self@ !is Log,
            },
    {
        self.maybe_as_log()
    }

    pub fn metadata(&self) -> (r: &EventMetadata)
        ensures
            r@ == self@.metadata(),
    {
        match self {
            Event::Log(e) => e.metadata(),
            Event::Metric(e) => e.metadata(),
            Event::Trace(e) => e.metadata(),
        }
    }

    pub fn metadata_mut(&mut self) -> (r: &mut EventMetadata)
        ensures
            (*r)@ == old(self)@.metadata(),
            final(self)@ == old(self)@.with_metadata((*final(r))@),
    {
        match self {
            Event::Log(e) => e.metadata_mut(),
            Event::Metric(e) => e.metadata_mut(),
            Event::Trace(e) => e.metadata_mut(),
        }
    }

    /// Destroy the event and return the metadata.
    pub fn into_metadata(self) -> (r: EventMetadata)
        ensures
            r@ == self@.metadata(),
    {
        match self {
            Event::Log(e) => e.metadata,
            Event::Metric(e) => e.metadata,
            Event::Trace(e) => e.metadata,
        }
    }

    /// Another name of `as_log`.
    pub fn as_otel_log(&self) -> (r: &OtelLog)
        requires
            self@ is Log,
        ensures
            self@ == EventView::Log(r@),
    {
        self.as_log()
    }

    /// Another name of `as_mut_log`.
    pub fn as_mut_otel_log(&mut self) -> (r: &mut OtelLog)
        requires
            old(self)@ is Log,
        ensures
            old(self)@ == EventView::Log((*r)@),
            final(self)@ == EventView::Log((*final(r))@),
    {
        self.as_mut_log()
    }

    /// Another name of `as_trace`.
    pub fn as_otel_span(&self) -> (r: &OtelSpan)
        requires
            self@ is Trace,
        ensures
            self@ == EventView::Trace(r@),
    {
        self.as_trace()
    }

    /// Another name of `as_mut_trace`.
    pub fn as_mut_otel_span(&mut self) -> (r: &mut OtelSpan)
        requires
            old(self)@ is Trace,
        ensures
            old(self)@ == EventView::Trace((*r)@),
            final(self)@ == EventView::Trace((*final(r))@),
    {
        self.as_mut_trace()
    }

    /// Another name of `as_metric`.
    pub fn as_otel_metric(&self) -> (r: &OtelMetric)
        requires
            self@ is Metric,
        ensures
            self@ == EventView::Metric(r@),
    {
        self.as_metric()
    }

    /// Another name of `as_mut_metric`.
    pub fn as_mut_otel_metric(&mut self) -> (r: &mut OtelMetric)
        requires
            old(self)@ is Metric,
        ensures
            old(self)@ == EventView::Metric((*r)@),
            final(self)@ == EventView::Metric((*final(r))@),
    {
        self.as_mut_metric()
    }

    /// Another name of `into_log`.
    pub fn into_otel_log(self) -> (r: OtelLog)
        requires
            self@ is Log,
        ensures
            self@ == EventView::Log(r@),
    {
        self.into_log()
    }

    /// Another name of `try_into_log`.
    pub fn try_into_otel_log(self) -> (r: Option<OtelLog>)
        ensures
            match r {
                Some(e) => self@ == EventView::Log(e@),
                None => self@ !is Log,
            },
    {
        self.try_into_log()
    }

    /// Another name of `into_log`.
    pub fn into_log_coerce(self) -> (r: OtelLog)
        requires
            self@ is Log,
        ensures
            self@ == EventView::Log(r@),
    {
        self.into_log()
    }

    /// Another name of `try_into_log`.
    pub fn try_into_log_coerce(self) -> (r: Option<OtelLog>)
        ensures
            match r {
                Some(e) => self@ == EventView::Log(e@),
                None => self@ !is Log,
            },
    {
        self.try_into_log()
    }

    /// Another name of `into_trace`.
    pub fn into_otel_span(self) -> (r: OtelSpan)
        requires
            self@ is Trace,
        ensures
            self@ == EventView::Trace(r@),
    {
        self.into_trace()
    }

    /// Another name of `try_into_trace`.
    pub fn try_into_otel_span(self) -> (r: Option<OtelSpan>)
        ensures
            match r {
                Some(e) => self@ == EventView::Trace(e@),
                None => self@ !is Trace,
            },
    {
        self.try_into_trace()
    }

    /// The number of events.
    pub fn event_count(&self) -> (r: usize)
        ensures
            r == 1,
    {
        1
    }

    /// The source that the event came from.
    pub fn source_id(&self) -> (r: Option<&String>)
        ensures
            opt_view(r) == self@.metadata().source_id,
    {
        self.metadata().source_id.as_ref()
    }

    /// Sets the source that the event came from.
    pub fn set_source_id(&mut self, source_id: String)
        ensures
            final(self)@ == old(self)@.with_metadata(
                (MetadataView { source_id: Some(source_id@), ..old(self)@.metadata() }),
            ),
    {
        let m = self.metadata_mut();
        m.source_id = Some(source_id);
    }

    /// Sets the output that the event came through.
    pub fn set_upstream_id(&mut self, upstream_id: OutputId)
        ensures
            final(self)@ == old(self)@.with_metadata(
                (MetadataView { upstream_id: Some(upstream_id@), ..old(self)@.metadata() }),
            ),
    {
        let m = self.metadata_mut();
        m.upstream_id = Some(upstream_id);
    }

    /// Sets the type of the source that the event came from.
    pub fn set_source_type(&mut self, source_type: &str)
        ensures
            final(self)@ == old(self)@.with_metadata(
                (MetadataView { source_type: Some(source_type@), ..old(self)@.metadata() }),
            ),
    {
        let m = self.metadata_mut();
        m.source_type = Some(source_type.to_owned());
    }

    /// The event with another source.
    pub fn with_source_id(self, source_id: String) -> (r: Self)
        ensures
            r@ == self@.with_metadata(
                (MetadataView { source_id: Some(source_id@), ..self@.metadata() }),
            ),
    {
        let mut e = self;
        e.set_source_id(source_id);
        e
    }

    /// The event with another type of the source.
    pub fn with_source_type(self, source_type: &str) -> (r: Self)
        ensures
            r@ == self@.with_metadata(
                (MetadataView { source_type: Some(source_type@), ..self@.metadata() }),
            ),
    {
        let mut e = self;
        e.set_source_type(source_type);
        e
    }

    /// The event with another output.
    pub fn with_upstream_id(self, upstream_id: OutputId) -> (r: Self)
        ensures
            r@ == self@.with_metadata(
                (MetadataView { upstream_id: Some(upstream_id@), ..self@.metadata() }),
            ),
    {
        let mut e = self;
        e.set_upstream_id(upstream_id);
        e
    }

    /// The log event that a JSON value gives. Where fields are kept as before, only an object gives
    /// one.
    pub fn from_json_value(value: &Json, log_namespace: LogNamespace) -> (r: Result<Self, NotAnObject>)
        ensures
            r is Ok <==> (log_namespace == LogNamespace::Vector || value@ is Object),
            match r {
                Ok(e) => e@ == EventView::Log(
                    log_from_value(value_from_json(value@), e@.metadata()),
                ) && e@.metadata().is_default(),
                Err(_) => true,
            },
    {
        match (log_namespace, value) {
            (LogNamespace::Vector, _) | (LogNamespace::Legacy, Json::Object(_)) => Ok(
                Event::Log(OtelLog::from(json_to_vrl_value(value))),
            ),
            _ => Err(NotAnObject),
        }
    }

    /// Whether two events hold the same data.
    pub fn event_data_eq(&self, other: &Event) -> (r: bool)
        ensures
            r == self@.same_data(&other@),
    {
        match (self, other) {
            (Event::Log(a), Event::Log(b)) => a.event_data_eq(b),
            (Event::Metric(a), Event::Metric(b)) => a.event_data_eq(b),
            (Event::Trace(a), Event::Trace(b)) => a.event_data_eq(b),
            _ => false,
        }
    }
}

impl From<OtelLog> for Event {
    fn from(e: OtelLog) -> (r: Self) {
        Event::Log(e)
    }
}

impl FromSpecImpl<OtelLog> for Event {
    open spec fn obeys_from_spec() -> bool {
        true
    }

    open spec fn from_spec(e: OtelLog) -> Self {
        Event::Log(e)
    }
}

impl From<OtelMetric> for Event {
    fn from(e: OtelMetric) -> (r: Self) {
        Event::Metric(e)
    }
}

impl FromSpecImpl<OtelMetric> for Event {
    open spec fn obeys_from_spec() -> bool {
        true
    }

    open spec fn from_spec(e: OtelMetric) -> Self {
        Event::Metric(e)
    }
}

impl From<OtelSpan> for Event {
    fn from(e: OtelSpan) -> (r: Self) {
        Event::Trace(e)
    }
}

impl FromSpecImpl<OtelSpan> for Event {
    open spec fn obeys_from_spec() -> bool {
        true
    }

    open spec fn from_spec(e: OtelSpan) -> Self {
        Event::Trace(e)
    }
}

/// What may be a log event.
pub trait MaybeAsLogMut {
    /// The log event that can be changed, where it is one.
    fn maybe_as_log_mut(&mut self) -> Option<&mut OtelLog>;
}

impl MaybeAsLogMut for Event {
    fn maybe_as_log_mut(&mut self) -> (r: Option<&mut OtelLog>)
        ensures
            match r {
                Some(e) => old(self)@ == EventView::Log((*e)@) && final(self)@ == EventView::Log(
                    (*final(e))@,
                ),
                None => old(self)@ !is Log && final(self)@ == old(self)@,
            },
    {
        match self {
            Event::Log(e) => Some(e),
            _ => None,
        }
    }
}

} // verus!
