//! Arrays of events of one kind, and how a sequence of events is gathered into such arrays.
use vstd::prelude::*;
use vstd::std_specs::convert::FromSpecImpl;

use crate::event::{Event, EventView};
use crate::keyed::views;
use crate::log::{OtelLog, OtelLogView};
use crate::metadata::{EventMetadata, MetadataView};
use crate::metric::{OtelMetric, OtelMetricView};
use crate::span::{OtelSpan, OtelSpanView};

verus! {

/// An array of log events.
pub type LogArray = Vec<OtelLog>;

/// An array of metric events.
pub type MetricArray = Vec<OtelMetric>;

/// An array of span events.
pub type TraceArray = Vec<OtelSpan>;

/// An array of one of the kinds of events exclusively.
#[derive(Debug, PartialEq)]
pub enum EventArray {
    Logs(LogArray),
    Metrics(MetricArray),
    Traces(TraceArray),
}

pub enum EventArrayView {
    Logs(Seq<OtelLogView>),
    Metrics(Seq<OtelMetricView>),
    Traces(Seq<OtelSpanView>),
}

impl View for EventArray {
    type V = EventArrayView;

    open spec fn view(&self) -> EventArrayView {
        match self {
            EventArray::Logs(a) => EventArrayView::Logs(views(a@)),
            EventArray::Metrics(a) => EventArrayView::Metrics(views(a@)),
            EventArray::Traces(a) => EventArrayView::Traces(views(a@)),
        }
    }
}

/// An event of an array.
#[derive(Debug)]
pub enum EventRef<'a> {
    Log(&'a OtelLog),
    Metric(&'a OtelMetric),
    Trace(&'a OtelSpan),
}

impl<'a> View for EventRef<'a> {
    type V = EventView;

    open spec fn view(&self) -> EventView {
        match self {
            EventRef::Log(e) => EventView::Log(e@),
            EventRef::Metric(e) => EventView::Metric(e@),
            EventRef::Trace(e) => EventView::Trace(e@),
        }
    }
}

impl EventArrayView {
    /// The events, in order.
    pub open spec fn events(&self) -> Seq<EventView> {
        match self {
            EventArrayView::Logs(a) => Seq::new(a.len(), |i: int| EventView::Log(a[i])),
            EventArrayView::Metrics(a) => Seq::new(a.len(), |i: int| EventView::Metric(a[i])),
            EventArrayView::Traces(a) => Seq::new(a.len(), |i: int| EventView::Trace(a[i])),
        }
    }

    /// The array of one event.
    pub open spec fn of_event(e: EventView) -> EventArrayView {
        match e {
            EventView::Log(e) => EventArrayView::Logs(seq![e]),
            EventView::Metric(e) => EventArrayView::Metrics(seq![e]),
            EventView::Trace(e) => EventArrayView::Traces(seq![e]),
        }
    }

    /// Whether the array holds events of the kind of this one.
    pub open spec fn takes(&self, e: EventView) -> bool {
        match (self, e) {
            (EventArrayView::Logs(_), EventView::Log(_)) => true,
            (EventArrayView::Metrics(_), EventView::Metric(_)) => true,
            (EventArrayView::Traces(_), EventView::Trace(_)) => true,
            _ => false,
        }
    }

    /// The array with an event of its kind at the end.
    pub open spec fn with_event(self, e: EventView) -> EventArrayView {
        match (self, e) {
            (EventArrayView::Logs(a), EventView::Log(e)) => EventArrayView::Logs(a.push(e)),
            (EventArrayView::Metrics(a), EventView::Metric(e)) => EventArrayView::Metrics(a.push(e)),
            (EventArrayView::Traces(a), EventView::Trace(e)) => EventArrayView::Traces(a.push(e)),
            _ => self,
        }
    }

    /// Whether two arrays hold the same data.
    pub open spec fn same_data(&self, other: &EventArrayView) -> bool {
        match (self, other) {
            (EventArrayView::Logs(a), EventArrayView::Logs(b)) => a.len() == b.len() && forall|i: int|
                0 <= i < a.len() ==> (#[trigger] a[i]).same_data(&b[i]),
            (EventArrayView::Metrics(a), EventArrayView::Metrics(b)) => a.len() == b.len()
                && forall|i: int| 0 <= i < a.len() ==> (#[trigger] a[i]).same_data(&b[i]),
            (EventArrayView::Traces(a), EventArrayView::Traces(b)) => a.len() == b.len()
                && forall|i: int| 0 <= i < a.len() ==> (#[trigger] a[i]).same_data(&b[i]),
            _ => false,
        }
    }
}

/// What holds events, in order.
pub trait EventContainer: Sized {
    /// The events.
    spec fn held(&self) -> Seq<EventView>;

    /// The number of events in this container.
    fn len(&self) -> (r: usize)
        ensures
            r == self.held().len(),
    ;

    /// Is this container empty?
    fn is_empty(&self) -> (r: bool)
        ensures
            r == (self.held().len() == 0),
    ;

    /// Turn this container into its events.
    fn into_events(self) -> (r: Vec<Event>)
        ensures
            views(r@) == self.held(),
    ;
}

impl EventContainer for Event {
    open spec fn held(&self) -> Seq<EventView> {
        seq![self@]
    }

    fn len(&self) -> (r: usize) {
        1
    }

    fn is_empty(&self) -> (r: bool) {
        false
    }

    fn into_events(self) -> (r: Vec<Event>) {
        let ghost held = self.held();
        let r = vec![self];
        assert(views(r@) =~= held);
        r
    }
}

impl EventContainer for OtelLog {
    open spec fn held(&self) -> Seq<EventView> {
        seq![EventView::Log(self@)]
    }

    fn len(&self) -> (r: usize) {
        1
    }

    fn is_empty(&self) -> (r: bool) {
        false
    }

    fn into_events(self) -> (r: Vec<Event>) {
        let ghost held = self.held();
        let r = vec![Event::Log(self)];
        assert(views(r@) =~= held);
        r
    }
}

impl EventContainer for LogArray {
    open spec fn held(&self) -> Seq<EventView> {
        EventArrayView::Logs(views(self@)).events()
    }

    fn len(&self) -> (r: usize) {
        Vec::len(self)
    }

    fn is_empty(&self) -> (r: bool) {
        Vec::len(self) == 0
    }

    fn into_events(self) -> (r: Vec<Event>) {
        log_events(self)
    }
}

impl EventContainer for MetricArray {
    open spec fn held(&self) -> Seq<EventView> {
        EventArrayView::Metrics(views(self@)).events()
    }

    fn len(&self) -> (r: usize) {
        Vec::len(self)
    }

    fn is_empty(&self) -> (r: bool) {
        Vec::len(self) == 0
    }

    fn into_events(self) -> (r: Vec<Event>) {
        metric_events(self)
    }
}

fn log_events(array: Vec<OtelLog>) -> (r: Vec<Event>)
    ensures
        views(r@) == EventArrayView::Logs(views(array@)).events(),
{
    let mut out: Vec<Event> = Vec::new();
    for e in it: array
        invariant
            it.seq() == array@,
            out@.len() == it.index(),
            forall|j: int|
                0 <= j < it.index() ==> (#[trigger] out@[j])@ == EventView::Log(array@[j]@),
    {
        out.push(Event::Log(e));
    }
    assert(views(out@) =~= EventArrayView::Logs(views(array@)).events());
    out
}

fn metric_events(array: Vec<OtelMetric>) -> (r: Vec<Event>)
    ensures
        views(r@) == EventArrayView::Metrics(views(array@)).events(),
{
    let mut out: Vec<Event> = Vec::new();
    for e in it: array
        invariant
            it.seq() == array@,
            out@.len() == it.index(),
            forall|j: int|
                0 <= j < it.index() ==> (#[trigger] out@[j])@ == EventView::Metric(array@[j]@),
    {
        out.push(Event::Metric(e));
    }
    assert(views(out@) =~= EventArrayView::Metrics(views(array@)).events());
    out
}

fn trace_events(array: Vec<OtelSpan>) -> (r: Vec<Event>)
    ensures
        views(r@) == EventArrayView::Traces(views(array@)).events(),
{
    let mut out: Vec<Event> = Vec::new();
    for e in it: array
        invariant
            it.seq() == array@,
            out@.len() == it.index(),
            forall|j: int|
                0 <= j < it.index() ==> (#[trigger] out@[j])@ == EventView::Trace(array@[j]@),
    {
        out.push(Event::Trace(e));
    }
    assert(views(out@) =~= EventArrayView::Traces(views(array@)).events());
    out
}

impl EventContainer for EventArray {
    open spec fn held(&self) -> Seq<EventView> {
        self@.events()
    }

    fn len(&self) -> (r: usize) {
        match self {
            EventArray::Logs(a) => Vec::len(a),
            EventArray::Metrics(a) => Vec::len(a),
            EventArray::Traces(a) => Vec::len(a),
        }
    }

    fn is_empty(&self) -> (r: bool) {
        EventContainer::len(self) == 0
    }

    fn into_events(self) -> (r: Vec<Event>) {
        match self {
            EventArray::Logs(a) => log_events(a),
            EventArray::Metrics(a) => metric_events(a),
            EventArray::Traces(a) => trace_events(a),
        }
    }
}

fn logs_eq(a: &Vec<OtelLog>, b: &Vec<OtelLog>) -> (r: bool)
    ensures
        r == EventArrayView::Logs(views(a@)).same_data(&EventArrayView::Logs(views(b@))),
{
    let ghost av = views(a@);
    let ghost bv = views(b@);
    if Vec::len(a) != Vec::len(b) {
        return false;
    }
    let mut i: usize = 0;
    while i < Vec::len(a)
        invariant
            i <= a@.len(),
            a@.len() == b@.len(),
            av == views(a@),
            bv == views(b@),
            forall|j: int| 0 <= j < i ==> (#[trigger] av[j]).same_data(&bv[j]),
        decreases a@.len() - i,
    {
        if !a[i].event_data_eq(&b[i]) {
            assert(!av[i as int].same_data(&bv[i as int]));
            return false;
        }
        i = i + 1;
    }
    true
}

fn metrics_eq(a: &Vec<OtelMetric>, b: &Vec<OtelMetric>) -> (r: bool)
    ensures
        r == EventArrayView::Metrics(views(a@)).same_data(&EventArrayView::Metrics(views(b@))),
{
    let ghost av = views(a@);
    let ghost bv = views(b@);
    if Vec::len(a) != Vec::len(b) {
        return false;
    }
    let mut i: usize = 0;
    while i < Vec::len(a)
        invariant
            i <= a@.len(),
            a@.len() == b@.len(),
            av == views(a@),
            bv == views(b@),
            forall|j: int| 0 <= j < i ==> (#[trigger] av[j]).same_data(&bv[j]),
        decreases a@.len() - i,
    {
        if !a[i].event_data_eq(&b[i]) {
            assert(!av[i as int].same_data(&bv[i as int]));
            return false;
        }
        i = i + 1;
    }
    true
}

fn traces_eq(a: &Vec<OtelSpan>, b: &Vec<OtelSpan>) -> (r: bool)
    ensures
        r == EventArrayView::Traces(views(a@)).same_data(&EventArrayView::Traces(views(b@))),
{
    let ghost av = views(a@);
    let ghost bv = views(b@);
    if Vec::len(a) != Vec::len(b) {
        return false;
    }
    let mut i: usize = 0;
    while i < Vec::len(a)
        invariant
            i <= a@.len(),
            a@.len() == b@.len(),
            av == views(a@),
            bv == views(b@),
            forall|j: int| 0 <= j < i ==> (#[trigger] av[j]).same_data(&bv[j]),
        decreases a@.len() - i,
    {
        if !a[i].event_data_eq(&b[i]) {
            assert(!av[i as int].same_data(&bv[i as int]));
            return false;
        }
        i = i + 1;
    }
    true
}

impl EventArrayView {
    /// The array in which one event has other metadata.
    pub open spec fn with_metadata_at(self, i: int, metadata: MetadataView) -> EventArrayView {
        match self {
            EventArrayView::Logs(a) => EventArrayView::Logs(
                a.update(i, OtelLogView { metadata, ..a[i] }),
            ),
            EventArrayView::Metrics(a) => EventArrayView::Metrics(
                a.update(i, OtelMetricView { metadata, ..a[i] }),
            ),
            EventArrayView::Traces(a) => EventArrayView::Traces(
                a.update(i, OtelSpanView { metadata, ..a[i] }),
            ),
        }
    }
}

impl EventArray {
    /// Whether this is an array of log events.
    pub fn is_otel_logs(&self) -> (r: bool)
        ensures
            r == (self@ is Logs),
    {
        matches!(self, EventArray::Logs(_))
    }

    /// Whether this is an array of metric events.
    pub fn is_otel_metrics(&self) -> (r: bool)
        ensures
            r == (self@ is Metrics),
    {
        matches!(self, EventArray::Metrics(_))
    }

    /// Whether this is an array of span events.
    pub fn is_otel_spans(&self) -> (r: bool)
        ensures
            r == (self@ is Traces),
    {
        matches!(self, EventArray::Traces(_))
    }

    /// The number of events.
    pub fn event_count(&self) -> (r: usize)
        ensures
            r == self@.events().len(),
    {
        EventContainer::len(self)
    }

    /// The events of this array.
    pub fn iter_events(&self) -> (r: Vec<EventRef<'_>>)
        ensures
            views(r@) == self@.events(),
    {
        match self {
            EventArray::Logs(array) => {
                let mut out: Vec<EventRef<'_>> = Vec::new();
                let mut i: usize = 0;
                while i < Vec::len(array)
                    invariant
                        i <= array@.len(),
                        out@.len() == i,
                        forall|j: int|
                            0 <= j < i ==> (#[trigger] out@[j])@ == EventView::Log(array@[j]@),
                    decreases array@.len() - i,
                {
                    out.push(EventRef::Log(&array[i]));
                    i = i + 1;
                }
                assert(views(out@) =~= self@.events());
                out
            },
            EventArray::Metrics(array) => {
                let mut out: Vec<EventRef<'_>> = Vec::new();
                let mut i: usize = 0;
                while i < Vec::len(array)
                    invariant
                        i <= array@.len(),
                        out@.len() == i,
                        forall|j: int|
                            0 <= j < i ==> (#[trigger] out@[j])@ == EventView::Metric(array@[j]@),
                    decreases array@.len() - i,
                {
                    out.push(EventRef::Metric(&array[i]));
                    i = i + 1;
                }
                assert(views(out@) =~= self@.events());
                out
            },
            EventArray::Traces(array) => {
                let mut out: Vec<EventRef<'_>> = Vec::new();
                let mut i: usize = 0;
                while i < Vec::len(array)
                    invariant
                        i <= array@.len(),
                        out@.len() == i,
                        forall|j: int|
                            0 <= j < i ==> (#[trigger] out@[j])@ == EventView::Trace(array@[j]@),
                    decreases array@.len() - i,
                {
                    out.push(EventRef::Trace(&array[i]));
                    i = i + 1;
                }
                assert(views(out@) =~= self@.events());
                out
            },
        }
    }

    /// The log event at a place of this array, where it holds log events.
    pub fn log_mut(&mut self, i: usize) -> (r: Option<&mut OtelLog>)
        ensures
            match (old(self)@, r) {
                (EventArrayView::Logs(a), Some(e)) => i < a.len() && (*e)@ == a[i as int]
                    && final(self)@ == EventArrayView::Logs(a.update(i as int, (*final(e))@)),
                (EventArrayView::Logs(a), None) => i >= a.len() && final(self)@ == old(self)@,
                (_, r) => r is None && final(self)@ == old(self)@,
            },
    {
        match self {
            EventArray::Logs(array) => if i < Vec::len(array) {
                let ghost before = array@;
                let e = &mut array[i];
                assert(views(before.update(i as int, *final(e))) =~= views(before).update(
                    i as int,
                    (*final(e))@,
                ));
                Some(e)
            } else {
                None
            },
            _ => None,
        }
    }

    /// The metadata of the event at a place of this array.
    pub fn metadata_mut(&mut self, i: usize) -> (r: &mut EventMetadata)
        requires
            i < old(self)@.events().len(),
        ensures
            (*r)@ == old(self)@.events()[i as int].metadata(),
            final(self)@ == old(self)@.with_metadata_at(i as int, (*final(r))@),
    {
        match self {
            EventArray::Logs(array) => {
                let ghost before = array@;
                let e = &mut array[i];
                assert(views(before.update(i as int, *final(e))) =~= views(before).update(
                    i as int,
                    (*final(e))@,
                ));
                e.metadata_mut()
            },
            EventArray::Metrics(array) => {
                let ghost before = array@;
                let e = &mut array[i];
                assert(views(before.update(i as int, *final(e))) =~= views(before).update(
                    i as int,
                    (*final(e))@,
                ));
                e.metadata_mut()
            },
            EventArray::Traces(array) => {
                let ghost before = array@;
                let e = &mut array[i];
                assert(views(before.update(i as int, *final(e))) =~= views(before).update(
                    i as int,
                    (*final(e))@,
                ));
                e.metadata_mut()
            },
        }
    }

    /// Whether two arrays hold the same data.
    pub fn event_data_eq(&self, other: &EventArray) -> (r: bool)
        ensures
            r == self@.same_data(&other@),
    {
        match (self, other) {
            (EventArray::Logs(a), EventArray::Logs(b)) => logs_eq(a, b),
            (EventArray::Metrics(a), EventArray::Metrics(b)) => metrics_eq(a, b),
            (EventArray::Traces(a), EventArray::Traces(b)) => traces_eq(a, b),
            _ => false,
        }
    }
}

impl From<Event> for EventArray {
    fn from(event: Event) -> (r: Self)
        ensures
            r@ == EventArrayView::of_event(event@),
    {
        match event {
            Event::Log(e) => {
                let a = vec![e];
                assert(views(a@) =~= seq![e@]);
                EventArray::Logs(a)
            },
            Event::Metric(e) => {
                let a = vec![e];
                assert(views(a@) =~= seq![e@]);
                EventArray::Metrics(a)
            },
            Event::Trace(e) => {
                let a = vec![e];
                assert(views(a@) =~= seq![e@]);
                EventArray::Traces(a)
            },
        }
    }
}

impl FromSpecImpl<Event> for EventArray {
    open spec fn obeys_from_spec() -> bool {
        false
    }

    open spec fn from_spec(event: Event) -> Self {
        arbitrary()
    }
}

impl From<OtelLog> for EventArray {
    fn from(event: OtelLog) -> (r: Self)
        ensures
            r@ == EventArrayView::of_event(EventView::Log(event@)),
    {
        EventArray::from(Event::Log(event))
    }
}

impl FromSpecImpl<OtelLog> for EventArray {
    open spec fn obeys_from_spec() -> bool {
        false
    }

    open spec fn from_spec(event: OtelLog) -> Self {
        arbitrary()
    }
}

impl From<OtelMetric> for EventArray {
    fn from(event: OtelMetric) -> (r: Self)
        ensures
            r@ == EventArrayView::of_event(EventView::Metric(event@)),
    {
        EventArray::from(Event::Metric(event))
    }
}

impl FromSpecImpl<OtelMetric> for EventArray {
    open spec fn obeys_from_spec() -> bool {
        false
    }

    open spec fn from_spec(event: OtelMetric) -> Self {
        arbitrary()
    }
}

impl From<OtelSpan> for EventArray {
    fn from(event: OtelSpan) -> (r: Self)
        ensures
            r@ == EventArrayView::of_event(EventView::Trace(event@)),
    {
        EventArray::from(Event::Trace(event))
    }
}

impl FromSpecImpl<OtelSpan> for EventArray {
    open spec fn obeys_from_spec() -> bool {
        false
    }

    open spec fn from_spec(event: OtelSpan) -> Self {
        arbitrary()
    }
}

impl From<LogArray> for EventArray {
    fn from(array: LogArray) -> (r: Self) {
        EventArray::Logs(array)
    }
}

impl FromSpecImpl<LogArray> for EventArray {
    open spec fn obeys_from_spec() -> bool {
        true
    }

    open spec fn from_spec(array: LogArray) -> Self {
        EventArray::Logs(array)
    }
}

impl From<MetricArray> for EventArray {
    fn from(array: MetricArray) -> (r: Self) {
        EventArray::Metrics(array)
    }
}

impl FromSpecImpl<MetricArray> for EventArray {
    open spec fn obeys_from_spec() -> bool {
        true
    }

    open spec fn from_spec(array: MetricArray) -> Self {
        EventArray::Metrics(array)
    }
}

} // verus!
