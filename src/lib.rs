//! Deterministic time events and the test timer that produces them.

pub mod event;
pub mod id;
pub mod laws;
pub mod timer;

pub use event::{
    time_event_copy, time_event_free, time_event_new, MessageCategory, TimeEvent,
    TimeEventHandler, Timedelta, Timestamp,
};
pub use id::UUID4;
pub use timer::{TestTimer, Timer, TimerError, TimerState};
