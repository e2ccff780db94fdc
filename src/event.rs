//! The time event value produced by timers.

use vstd::prelude::*;

use crate::id::UUID4;

verus! {

/// A UNIX timestamp in nanoseconds.
pub type Timestamp = u64;

/// A duration in nanoseconds.
pub type Timedelta = u64;

/// The kind of message an event is.
#[derive(Clone, Copy, Debug, PartialEq, Eq, Structural)]
pub enum MessageCategory {
    /// A plain tick produced by a timer.
    Event,
}

/// Represents a time event occurring at the event timestamp.
#[derive(Clone, Debug)]
pub struct TimeEvent {
    /// The event name: the name of the timer that produced it.
    pub name: String,
    /// The message category.
    pub category: MessageCategory,
    /// The event ID.
    pub event_id: UUID4,
    /// The UNIX timestamp (nanoseconds) when the time event occurred.
    pub ts_event: Timestamp,
    /// The UNIX timestamp (nanoseconds) when the object was initialized.
    pub ts_init: Timestamp,
}

/// Two events stand for the same tick when their names and event times agree.
pub open spec fn same_tick(a: TimeEvent, b: TimeEvent) -> bool {
    a.name@ == b.name@ && a.ts_event == b.ts_event
}

impl PartialEq for TimeEvent {
    /// Equal exactly when the names and event times are equal; the ID and
    /// the initialization time play no part.
    fn eq(&self, other: &Self) -> (r: bool)
        ensures
            r == same_tick(*self, *other),
    {
        self.name == other.name && self.ts_event == other.ts_event
    }
}

impl vstd::std_specs::cmp::PartialEqSpecImpl for TimeEvent {
    open spec fn obeys_eq_spec() -> bool {
        true
    }

    open spec fn eq_spec(&self, other: &TimeEvent) -> bool {
        same_tick(*self, *other)
    }
}

/// A new tick event with the given name, ID and timestamps.
pub fn time_event_new(name: String, event_id: UUID4, ts_event: u64, ts_init: u64) -> (r: TimeEvent)
    ensures
        r.name@ == name@,
        r.category == MessageCategory::Event,
        r.event_id == event_id,
        r.ts_event == ts_event,
        r.ts_init == ts_init,
{
    TimeEvent { name, category: MessageCategory::Event, event_id, ts_event, ts_init }
}

/// An independent copy of `event`.
pub fn time_event_copy(event: &TimeEvent) -> (r: TimeEvent)
    ensures
        r.name@ == event.name@,
        r.category == event.category,
        r.event_id == event.event_id,
        r.ts_event == event.ts_event,
        r.ts_init == event.ts_init,
{
    TimeEvent {
        name: event.name.clone(),
        category: event.category,
        event_id: event.event_id,
        ts_event: event.ts_event,
        ts_init: event.ts_init,
    }
}

/// Releases `event`.
pub fn time_event_free(event: TimeEvent) {
    let _released = event;
}

/// Represents a bundled event and its handler. The handler is any callable
/// reference, for instance `&'static dyn Fn(TimeEvent)`; invoking it is the
/// dispatcher's business.
pub struct TimeEventHandler<H> {
    /// A time event generated by a timer.
    pub event: TimeEvent,
    /// A callable handler for this time event.
    pub handler: H,
}

} // verus!
