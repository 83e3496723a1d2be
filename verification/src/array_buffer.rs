//! Events gathered into arrays: contiguous events of the same kind go into one array.
use vstd::prelude::*;

use crate::array::{EventArray, EventArrayView};
use crate::event::{Event, EventView};
use crate::keyed::{opt_view, views};

verus! {

/// Whether an event goes to the end of an array that may hold `max_size` events.
pub open spec fn joins(a: EventArrayView, e: EventView, max_size: nat) -> bool {
    a.takes(e) && a.events().len() < max_size
}

/// The array that is being gathered after one more event.
pub open spec fn gathered_with(
    current: Option<EventArrayView>,
    e: EventView,
    max_size: nat,
) -> EventArrayView {
    match current {
        Some(a) => if joins(a, e, max_size) {
            a.with_event(e)
        } else {
            EventArrayView::of_event(e)
        },
        None => EventArrayView::of_event(e),
    }
}

/// The array that is complete once one more event comes: the one before it, unless the event goes
/// to its end.
pub open spec fn completed_by(
    current: Option<EventArrayView>,
    e: EventView,
    max_size: nat,
) -> Option<EventArrayView> {
    match current {
        Some(a) => if joins(a, e, max_size) {
            None
        } else {
            Some(a)
        },
        None => None,
    }
}

/// The list with one more item, where there is one.
pub open spec fn with_opt<T>(s: Seq<T>, item: Option<T>) -> Seq<T> {
    match item {
        Some(t) => s.push(t),
        None => s,
    }
}

/// The arrays that are complete, and the one that is being gathered.
pub open spec fn gathered(events: Seq<EventView>, max_size: nat) -> (
    Seq<EventArrayView>,
    Option<EventArrayView>,
)
    decreases events.len(),
{
    if events.len() == 0 {
        (Seq::empty(), None)
    } else {
        let (done, current) = gathered(events.drop_last(), max_size);
        (
            with_opt(done, completed_by(current, events.last(), max_size)),
            Some(gathered_with(current, events.last(), max_size)),
        )
    }
}

/// The arrays into which events are gathered.
pub open spec fn arrays_of(events: Seq<EventView>, max_size: nat) -> Seq<EventArrayView> {
    let (done, current) = gathered(events, max_size);
    with_opt(done, current)
}

/// The events of arrays, one array after the other.
pub open spec fn events_in(arrays: Seq<EventArrayView>) -> Seq<EventView>
    decreases arrays.len(),
{
    if arrays.len() == 0 {
        Seq::empty()
    } else {
        events_in(arrays.drop_last()) + arrays.last().events()
    }
}

/// The number of events that an array may hold.
pub open spec fn limit(max_size: Option<usize>) -> nat {
    match max_size {
        Some(n) => n as nat,
        None => usize::MAX as nat,
    }
}

/// Intermediate buffer for conversion of a sequence of individual events into a sequence of arrays
/// by coalescing contiguous events of the same type into one array.
#[derive(Debug)]
pub struct EventArrayBuffer {
    pub buffer: Option<EventArray>,
    pub max_size: usize,
}

impl EventArrayBuffer {
    pub fn new(max_size: Option<usize>) -> (r: Self)
        ensures
            r.buffer is None,
            r.max_size == limit(max_size),
    {
        EventArrayBuffer { buffer: None, max_size: max_size.unwrap_or(usize::MAX) }
    }

    /// Takes an event, and gives the array that it completes.
    pub fn push(&mut self, event: Event) -> (r: Option<EventArray>)
        ensures
            final(self).max_size == old(self).max_size,
            opt_view(r) == completed_by(
                opt_view(old(self).buffer),
                event@,
                old(self).max_size as nat,
            ),
            opt_view(final(self).buffer) == Some(
                gathered_with(opt_view(old(self).buffer), event@, old(self).max_size as nat),
            ),
    {
        match (event, self.buffer.take()) {
            (Event::Log(e), Some(EventArray::Logs(mut array))) if array.len() < self.max_size => {
                let ghost before = array@;
                array.push(e);
                assert(views(array@) =~= views(before).push(e@));
                self.buffer = Some(EventArray::Logs(array));
                None
            },
            (Event::Metric(e), Some(EventArray::Metrics(mut array))) if array.len()
                < self.max_size => {
                let ghost before = array@;
                array.push(e);
                assert(views(array@) =~= views(before).push(e@));
                self.buffer = Some(EventArray::Metrics(array));
                None
            },
            (Event::Trace(e), Some(EventArray::Traces(mut array))) if array.len()
                < self.max_size => {
                let ghost before = array@;
                array.push(e);
                assert(views(array@) =~= views(before).push(e@));
                self.buffer = Some(EventArray::Traces(array));
                None
            },
            (event, current) => {
                self.buffer = Some(EventArray::from(event));
                current
            },
        }
    }

    /// Gives the array that is being gathered.
    pub fn take(&mut self) -> (r: Option<EventArray>)
        ensures
            r == old(self).buffer,
            final(self).buffer is None,
            final(self).max_size == old(self).max_size,
    {
        self.buffer.take()
    }
}

/// Convert individual events into coalesced arrays, each of at most `max_size` events, or of one
/// where that is none.
pub fn events_into_arrays(events: Vec<Event>, max_size: Option<usize>) -> (r: Vec<EventArray>)
    ensures
        views(r@) == arrays_of(views(events@), limit(max_size)),
{
    let ghost all = views(events@);
    let ghost max = limit(max_size);
    let mut current = EventArrayBuffer::new(max_size);
    let mut out: Vec<EventArray> = Vec::new();
    assert(views(out@) =~= Seq::empty());
    assert(all.take(0) =~= Seq::empty());
    for event in it: events
        invariant
            it.seq() == events@,
            all == views(events@),
            current.max_size == max,
            views(out@) == gathered(all.take(it.index() as int), max).0,
            opt_view(current.buffer) == gathered(all.take(it.index() as int), max).1,
    {
        let ghost i = it.index() as int;
        assert(all.take(i + 1).drop_last() =~= all.take(i));
        assert(all.take(i + 1).last() == event@);
        let ghost before = out@;
        if let Some(array) = current.push(event) {
            out.push(array);
            assert(views(out@) =~= views(before).push(array@));
        }
    }
    assert(all.take(all.len() as int) =~= all);
    let ghost before = out@;
    if let Some(array) = current.take() {
        out.push(array);
        assert(views(out@) =~= views(before).push(array@));
    }
    out
}

proof fn lemma_events_with(a: EventArrayView, e: EventView)
    ensures
        EventArrayView::of_event(e).events() == seq![e],
        a.takes(e) ==> a.with_event(e).events() == a.events().push(e),
{
    assert(EventArrayView::of_event(e).events() =~= seq![e]);
    if a.takes(e) {
        assert(a.with_event(e).events() =~= a.events().push(e));
    }
}

/// Gathering events into arrays keeps all of them in their order: the arrays, read one after the
/// other, give the events back.
pub proof fn law_arrays_keep_events(events: Seq<EventView>, max_size: nat)
    ensures
        events_in(arrays_of(events, max_size)) == events,
    decreases events.len(),
{
    reveal_with_fuel(gathered, 2);
    reveal_with_fuel(events_in, 2);
    if events.len() > 0 {
        let before = events.drop_last();
        let e = events.last();
        law_arrays_keep_events(before, max_size);
        let (done, current) = gathered(before, max_size);
        let next = gathered_with(current, e, max_size);
        assert(before.push(e) =~= events);
        let now = with_opt(done, completed_by(current, e, max_size));
        assert(now.push(next).drop_last() =~= now);
        match current {
            Some(a) => {
                lemma_events_with(a, e);
                assert(done.push(a).drop_last() =~= done);
                assert(events_in(done) + a.events() == before);
                assert(events_in(done) + a.events().push(e) =~= before.push(e));
            },
            None => {
                lemma_events_with(EventArrayView::of_event(e), e);
                assert(before.len() == 0);
                assert(events_in(done) == before);
                assert(before + seq![e] =~= before.push(e));
            },
        }
    }
}

/// Whether the next array could not have been gathered into this one: it is full, or it holds
/// events of another kind.
pub open spec fn is_apart(a: EventArrayView, next: EventArrayView, max_size: nat) -> bool {
    a.events().len() >= max_size || !a.takes(next.events()[0])
}

/// No array is empty, none holds more events than it may, or than one where it may hold none, and
/// an array only ends where it is full or an event of another kind follows.
pub proof fn law_arrays_are_filled(events: Seq<EventView>, max_size: nat)
    ensures
        forall|i: int|
            0 <= i < arrays_of(events, max_size).len() ==> 0 < (#[trigger] arrays_of(
                events,
                max_size,
            )[i]).events().len() && (arrays_of(events, max_size)[i].events().len() <= max_size
                || arrays_of(events, max_size)[i].events().len() == 1),
        forall|i: int|
            0 <= i < arrays_of(events, max_size).len() - 1 ==> #[trigger] is_apart(
                arrays_of(events, max_size)[i],
                arrays_of(events, max_size)[i + 1],
                max_size,
            ),
    decreases events.len(),
{
    reveal_with_fuel(gathered, 2);
    if events.len() > 0 {
        let before = events.drop_last();
        let e = events.last();
        law_arrays_are_filled(before, max_size);
        let (done, current) = gathered(before, max_size);
        let old_arrays = arrays_of(before, max_size);
        let new_arrays = arrays_of(events, max_size);
        match current {
            Some(a) => {
                lemma_events_with(a, e);
                let n = done.len() as int;
                assert(old_arrays == done.push(a));
                assert(old_arrays[n] == a);
                if joins(a, e, max_size) {
                    assert(new_arrays == done.push(a.with_event(e)));
                    assert forall|i: int| 0 <= i < new_arrays.len() - 1 implies #[trigger] is_apart(
                        new_arrays[i],
                        new_arrays[i + 1],
                        max_size,
                    ) by {
                        assert(is_apart(old_arrays[i], old_arrays[i + 1], max_size));
                    }
                    assert forall|i: int| 0 <= i < new_arrays.len() implies 0 < (
                    #[trigger] new_arrays[i]).events().len() && (new_arrays[i].events().len()
                        <= max_size || new_arrays[i].events().len() == 1) by {
                        if i < n {
                            assert(new_arrays[i] == old_arrays[i]);
                        }
                    }
                } else {
                    let next = EventArrayView::of_event(e);
                    assert(new_arrays == done.push(a).push(next));
                    assert forall|i: int| 0 <= i < new_arrays.len() - 1 implies #[trigger] is_apart(
                        new_arrays[i],
                        new_arrays[i + 1],
                        max_size,
                    ) by {
                        if i < n {
                            assert(is_apart(old_arrays[i], old_arrays[i + 1], max_size));
                        } else {
                            assert(new_arrays[i] == a);
                            assert(new_arrays[i + 1] == next);
                            assert(next.events()[0] == e);
                        }
                    }
                    assert forall|i: int| 0 <= i < new_arrays.len() implies 0 < (
                    #[trigger] new_arrays[i]).events().len() && (new_arrays[i].events().len()
                        <= max_size || new_arrays[i].events().len() == 1) by {
                        if i <= n {
                            assert(new_arrays[i] == old_arrays[i]);
                        }
                    }
                }
            },
            None => {
                lemma_events_with(EventArrayView::of_event(e), e);
                assert(before.len() == 0);
                assert(new_arrays =~= seq![EventArrayView::of_event(e)]);
            },
        }
    }
}

} // verus!
