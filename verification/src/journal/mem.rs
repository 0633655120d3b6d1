//! A stream that lives in memory.

use std::collections::VecDeque;
use vstd::prelude::*;
use vstd::string::StringExecFns;
use crate::journal::stream::{event_views, Error, Event, EventView, Stream, Timestamp};

verus! {

/// Whether the timestamps of the events increase strictly.
pub open spec fn increasing(events: Seq<EventView>) -> bool {
    forall|i: int, j: int| 0 <= i < j < events.len() ==> events[i].ts < events[j].ts
}

/// The events at or after the timestamp `ts`.
pub open spec fn since(events: Seq<EventView>, ts: u64) -> Seq<EventView> {
    events.filter(|e: EventView| e.ts >= ts)
}

/// In a stream whose timestamps increase, the events at or after a
/// timestamp are the events from the first such event on.
pub proof fn lemma_since_is_suffix(events: Seq<EventView>, ts: u64, point: int)
    requires
        increasing(events),
        0 <= point <= events.len(),
        forall|i: int| 0 <= i < point ==> events[i].ts < ts,
        forall|i: int| point <= i < events.len() ==> events[i].ts >= ts,
    ensures
        since(events, ts) == events.subrange(point, events.len() as int),
    decreases events.len(),
{
    reveal(Seq::filter);
    if events.len() > 0 {
        let front = events.drop_last();
        if point == events.len() {
            lemma_since_is_suffix(front, ts, point - 1);
            assert(events[events.len() - 1].ts < ts);
            assert(front.subrange(point - 1, front.len() as int) == Seq::<EventView>::empty());
            assert(since(front, ts) == Seq::<EventView>::empty());
            assert(events.subrange(point, events.len() as int) == Seq::<EventView>::empty());
        } else {
            lemma_since_is_suffix(front, ts, point);
            assert(events.last().ts >= ts);
            assert(events.subrange(point, events.len() as int) == front.subrange(
                point,
                front.len() as int,
            ).push(events.last()));
        }
    }
}

/// The message for an event that does not come after the last one.
pub open spec fn out_of_order_message(ts: Timestamp, last_ts: Timestamp) -> Seq<char> {
    "timestamp "@ + ts.spec_debug() + " <= last timestamp "@ + last_ts.spec_debug()
}

/// An in-memory stream: events in the order of their timestamps, which
/// increase strictly.
pub struct MemStream {
    events: VecDeque<Event>,
}

impl View for MemStream {
    type V = Seq<EventView>;

    closed spec fn view(&self) -> Seq<EventView> {
        event_views(self.events@)
    }
}

impl MemStream {
    /// What every stream keeps: its timestamps increase strictly.
    #[verifier::type_invariant]
    spec fn ordered(self) -> bool {
        increasing(event_views(self.events@))
    }

    /// An empty stream.
    pub fn new() -> (stream: MemStream)
        ensures
            stream@ == Seq::<EventView>::empty(),
    {
        let events: VecDeque<Event> = VecDeque::new();
        assert(event_views(events@) == Seq::<EventView>::empty());
        MemStream { events }
    }

    /// The position of the first event at or after `ts`: every event
    /// before it lies before `ts`, every event from it on does not.
    fn partition_point(&self, ts: Timestamp) -> (point: usize)
        ensures
            point <= self@.len(),
            forall|i: int| 0 <= i < point ==> self@[i].ts < ts.0,
            forall|i: int| point <= i < self@.len() ==> self@[i].ts >= ts.0,
    {
        proof {
            use_type_invariant(self);
        }
        let mut lo: usize = 0;
        let mut hi: usize = self.events.len();
        while lo < hi
            invariant
                lo <= hi <= self.events.len(),
                increasing(self@),
                forall|i: int| 0 <= i < lo ==> self@[i].ts < ts.0,
                forall|i: int| hi <= i < self@.len() ==> self@[i].ts >= ts.0,
            decreases hi - lo,
        {
            let mid = lo + (hi - lo) / 2;
            assert(self@[mid as int] == self.events@[mid as int]@);
            if self.events[mid].ts.0 < ts.0 {
                lo = mid + 1;
            } else {
                hi = mid;
            }
        }
        lo
    }

    /// How many events the stream holds.
    pub fn len(&self) -> (n: usize)
        ensures
            n == self@.len(),
    {
        self.events.len()
    }
}

impl Stream for MemStream {
    /// Reads the events since a timestamp (inclusive), in order.
    fn read_events(&self, ts: Timestamp) -> (result: Result<Vec<Event>, Error>)
        ensures
            result matches Ok(events) && event_views(events@) == since(self@, ts.0),
            increasing(self@),
    {
        let point = self.partition_point(ts);
        let mut events: Vec<Event> = Vec::new();
        let mut i: usize = point;
        assert(self@.subrange(point as int, point as int) == Seq::<EventView>::empty());
        assert(event_views(events@) == Seq::<EventView>::empty());
        while i < self.events.len()
            invariant
                point <= i <= self.events.len(),
                event_views(events@) == self@.subrange(point as int, i as int),
            decreases self.events.len() - i,
        {
            let ghost before = events@;
            events.push(self.events[i].clone());
            assert(event_views(events@) == event_views(before).push(self.events@[i as int]@));
            assert(self@.subrange(point as int, i + 1) == self@.subrange(point as int, i as int).push(
                self@[i as int],
            ));
            i += 1;
        }
        proof {
            use_type_invariant(self);
            lemma_since_is_suffix(self@, ts.0, point as int);
        }
        Ok(events)
    }

    /// Appends an event. Its timestamp must lie after that of the last
    /// event; otherwise the stream stays as it is and the event is refused
    /// as an invalid argument.
    fn append_event(&mut self, event: Event) -> (result: Result<(), Error>)
        ensures
            result is Ok ==> (old(self)@.len() == 0 || old(self)@.last().ts < event.ts.0) && final(self)@
                == old(self)@.push(event@),
            result is Err ==> old(self)@.len() > 0 && event.ts.0 <= old(self)@.last().ts && final(self)@
                == old(self)@,
            result is Err ==> (result matches Err(Error::InvalidArgument(message)) && message@
                == out_of_order_message(event.ts, Timestamp(old(self)@.last().ts))),
            increasing(final(self)@),
    {
        proof {
            use_type_invariant(&*self);
        }
        let n = self.events.len();
        if n > 0 {
            let last_ts = self.events[n - 1].ts;
            assert(self@.last() == self.events@[n - 1]@);
            if event.ts.0 <= last_ts.0 {
                let mut message = String::from_str("timestamp ");
                let shown = event.ts.debug();
                message.append(shown.as_str());
                message.append(" <= last timestamp ");
                let shown_last = last_ts.debug();
                message.append(shown_last.as_str());
                return Err(Error::InvalidArgument(message));
            }
        }
        let ghost before = self.events@;
        let mut events: VecDeque<Event> = VecDeque::new();
        assert(event_views(events@) == Seq::<EventView>::empty());
        core::mem::swap(&mut self.events, &mut events);
        events.push_back(event);
        assert(event_views(events@) == event_views(before).push(event@));
        self.events = events;
        Ok(())
    }

    /// Releases the events up to a timestamp (exclusive): they are gone,
    /// the others stay.
    fn release_events(&mut self, ts: Timestamp) -> (result: Result<(), Error>)
        ensures
            result is Ok,
            final(self)@ == since(old(self)@, ts.0),
            increasing(final(self)@),
    {
        proof {
            use_type_invariant(&*self);
        }
        let point = self.partition_point(ts);
        let mut events: VecDeque<Event> = VecDeque::new();
        assert(event_views(events@) == Seq::<EventView>::empty());
        core::mem::swap(&mut self.events, &mut events);
        let rest = events.split_off(point);
        proof {
            lemma_since_is_suffix(old(self)@, ts.0, point as int);
            assert(event_views(rest@) == old(self)@.subrange(point as int, old(self)@.len() as int));
        }
        self.events = rest;
        Ok(())
    }
}

} // verus!
