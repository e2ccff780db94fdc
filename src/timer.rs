//! The deterministic test timer: a cursor over evenly spaced ticks that a
//! driver advances through simulated time.

use vstd::arithmetic::div_mod::{lemma_fundamental_div_mod, lemma_fundamental_div_mod_converse};
use vstd::prelude::*;

use crate::event::{MessageCategory, TimeEvent, Timedelta, Timestamp};
use crate::id::UUID4;

verus! {

/// `a + b`, clamped to the largest timestamp.
pub open spec fn sat_add(a: int, b: int) -> int {
    if a + b > u64::MAX {
        u64::MAX as int
    } else {
        a + b
    }
}

/// How many of the times `first`, `first + interval`, `first + 2 * interval`, ...
/// are at most `to`.
pub open spec fn ticks_upto(first: int, interval: int, to: int) -> int {
    if to < first {
        0
    } else {
        (to - first) / interval + 1
    }
}

/// The abstract state of a timer.
pub struct TimerState {
    /// The timer's name, given to every event it produces.
    pub name: Seq<char>,
    /// Nanoseconds between two ticks.
    pub interval: nat,
    /// The reference time; the first tick is due one interval after it.
    pub start: nat,
    /// The time at or after which the timer produces its last tick.
    pub stop: Option<nat>,
    /// The scheduled time of the next tick not yet produced.
    pub next: nat,
    /// Whether the timer will never produce another tick.
    pub expired: bool,
}

impl TimerState {
    /// The state of a timer just built from its configuration.
    pub open spec fn initial(
        name: Seq<char>,
        interval: nat,
        start: nat,
        stop: Option<nat>,
    ) -> TimerState {
        TimerState {
            name,
            interval,
            start,
            stop,
            next: sat_add(start as int, interval as int) as nat,
            expired: false,
        }
    }

    /// The state of a timer that is consistent with its configuration: a
    /// positive interval and a cursor a whole number of intervals past the
    /// start, unless it was clamped to the largest timestamp.
    pub open spec fn wf(self) -> bool {
        &&& 0 < self.interval
        &&& self.interval <= self.next <= u64::MAX
        &&& self.start <= u64::MAX
        &&& (self.stop matches Some(s) ==> s <= u64::MAX)
        &&& (self.next == u64::MAX || (self.start < self.next && (self.next - self.start)
            % (self.interval as int) == 0))
    }

    /// Scheduled time of the pending tick `j` places after the cursor.
    pub open spec fn tick_time(self, j: int) -> int {
        self.next + j * self.interval
    }

    /// Pending ticks scheduled at or before `to`.
    pub open spec fn due(self, to: int) -> int {
        ticks_upto(self.next as int, self.interval as int, to)
    }

    /// Pending ticks scheduled strictly before the stop time; the tick with
    /// this index is the last one the timer produces.
    pub open spec fn before_stop(self) -> Option<int> {
        match self.stop {
            Some(s) => Some(ticks_upto(self.next as int, self.interval as int, s - 1)),
            None => None,
        }
    }

    /// Whether producing every tick due by `to` reaches the stop time.
    pub open spec fn reaches_stop(self, to: int) -> bool {
        self.before_stop() matches Some(b) && b < self.due(to)
    }

    /// How many ticks advancing to `to` produces.
    pub open spec fn produced(self, to: int) -> int {
        if self.expired {
            0
        } else if self.reaches_stop(to) {
            self.before_stop()->Some_0 + 1
        } else {
            self.due(to)
        }
    }

    /// The state after advancing to `to`.
    pub open spec fn advanced(self, to: int) -> TimerState {
        TimerState {
            next: sat_add(self.next as int, self.produced(to) * self.interval) as nat,
            expired: self.expired || self.reaches_stop(to),
            ..self
        }
    }

    /// The state after producing one tick, if one is produced.
    pub open spec fn stepped(self) -> TimerState {
        if self.expired {
            self
        } else {
            TimerState {
                next: sat_add(self.next as int, self.interval as int) as nat,
                expired: self.stop matches Some(s) && self.next >= s,
                ..self
            }
        }
    }

    /// The state after cancellation.
    pub open spec fn cancelled(self) -> TimerState {
        TimerState { expired: true, ..self }
    }

    /// Whether `e` is the pending tick `j` places after the cursor.
    pub open spec fn is_tick(self, j: int, e: TimeEvent) -> bool {
        &&& e.name@ == self.name
        &&& e.category == MessageCategory::Event
        &&& e.ts_event == self.tick_time(j)
        &&& e.ts_init == e.ts_event
    }
}

/// `ticks_upto(first, interval, to)` counts exactly the ticks at or before `to`:
/// it exceeds `i` if and only if tick `i` is due by `to`.
pub proof fn lemma_ticks_upto(first: int, interval: int, to: int, i: int)
    requires
        0 < interval,
        0 <= i,
    ensures
        (ticks_upto(first, interval, to) > i) == (first + i * interval <= to),
{
    assert(0 <= i * interval) by (nonlinear_arith)
        requires
            0 <= i,
            0 < interval,
    ;
    if to >= first {
        let x = to - first;
        let q = x / interval;
        let r = x % interval;
        lemma_fundamental_div_mod(x, interval);
        assert(x == q * interval + r);
        assert(0 <= r < interval);
        assert((q >= i) == (i * interval <= x)) by (nonlinear_arith)
            requires
                x == q * interval + r,
                0 <= r < interval,
                0 < interval,
                0 <= i,
        ;
    }
}

/// The count of due ticks never falls as the bound grows.
pub proof fn lemma_ticks_upto_monotonic(first: int, interval: int, to1: int, to2: int)
    requires
        0 < interval,
        to1 <= to2,
    ensures
        ticks_upto(first, interval, to1) <= ticks_upto(first, interval, to2),
        0 <= ticks_upto(first, interval, to1),
{
    let n = ticks_upto(first, interval, to1);
    if to1 >= first {
        assert(0 <= (to1 - first) / interval) by (nonlinear_arith)
            requires
                0 <= to1 - first,
                0 < interval,
        ;
        lemma_ticks_upto(first, interval, to1, n - 1);
        lemma_ticks_upto(first, interval, to2, n - 1);
    }
}

/// Moving the first tick `m` intervals later drops the first `m` ticks.
pub proof fn lemma_ticks_upto_shift(first: int, interval: int, to: int, m: int)
    requires
        0 < interval,
        0 <= m <= ticks_upto(first, interval, to),
    ensures
        ticks_upto(first + m * interval, interval, to) == ticks_upto(first, interval, to) - m,
{
    lemma_ticks_upto(first, interval, to, m);
    if first + m * interval <= to {
        let x = to - first;
        lemma_fundamental_div_mod(x, interval);
        let q = x / interval;
        let r = x % interval;
        assert(x - m * interval == (q - m) * interval + r) by (nonlinear_arith)
            requires
                x == q * interval + r,
        ;
        lemma_fundamental_div_mod_converse(x - m * interval, interval, q - m, r);
        assert(to - (first + m * interval) == x - m * interval);
    }
}

/// The formula that counts due ticks from the tick before the cursor agrees
/// with `ticks_upto` from the cursor itself.
proof fn lemma_due_formula(next: int, interval: int, to: int)
    requires
        0 < interval <= next,
        0 <= to,
    ensures
        (if to >= next - interval {
            (to - (next - interval)) / interval
        } else {
            0
        }) == ticks_upto(next, interval, to),
{
    if to >= next {
        let x = to - next;
        lemma_fundamental_div_mod(x, interval);
        let q = x / interval;
        let r = x % interval;
        assert(x + interval == (q + 1) * interval + r) by (nonlinear_arith)
            requires
                x == q * interval + r,
        ;
        lemma_fundamental_div_mod_converse(x + interval, interval, q + 1, r);
    } else if to >= next - interval {
        lemma_fundamental_div_mod_converse(to - (next - interval), interval, 0, to - (next
            - interval));
    }
}

/// A cursor on the grid stays on it, or is clamped, after one more interval.
proof fn lemma_grid_step(start: int, next: int, interval: int)
    requires
        0 < interval,
        start < next,
        (next - start) % interval == 0,
    ensures
        (next + interval - start) % interval == 0,
{
    let x = next - start;
    lemma_fundamental_div_mod(x, interval);
    let q = x / interval;
    assert(x + interval == (q + 1) * interval + 0) by (nonlinear_arith)
        requires
            x == interval * q + x % interval,
            x % interval == 0,
    ;
    lemma_fundamental_div_mod_converse(x + interval, interval, q + 1, 0);
}

/// What holds of a timer that started in `s0` and has taken `i` single
/// steps towards some bound, stopping early only at expiry.
spec fn progress(s0: TimerState, cur: TimerState, i: int) -> bool {
    &&& cur == (TimerState {
        next: sat_add(s0.next as int, i * s0.interval) as nat,
        expired: cur.expired,
        ..s0
    })
    &&& 0 <= i
    &&& (s0.expired ==> i == 0 && cur.expired)
    &&& (!s0.expired && !cur.expired ==> (s0.before_stop() matches Some(b) ==> i <= b))
    &&& (!s0.expired && cur.expired ==> (s0.before_stop() matches Some(b) && i == b + 1))
}

/// One more step while ticks are due produces tick `i` and keeps `progress`.
proof fn lemma_progress_step(s0: TimerState, cur: TimerState, i: int, to: int)
    requires
        s0.wf(),
        progress(s0, cur, i),
        !cur.expired,
        i < s0.due(to),
        to <= u64::MAX,
    ensures
        cur.next == s0.tick_time(i),
        progress(s0, cur.stepped(), i + 1),
{
    let iv = s0.interval as int;
    lemma_ticks_upto(s0.next as int, iv, to, i);
    assert(s0.next + i * iv <= to);
    assert(0 <= i * iv) by (nonlinear_arith)
        requires
            0 <= i,
            0 < iv,
    ;
    assert((i + 1) * iv == i * iv + iv) by (nonlinear_arith);
    if let Some(st) = s0.stop {
        lemma_ticks_upto(s0.next as int, iv, st - 1, i);
    }
}

/// Once the steps stop, the timer is in the advanced state, having produced
/// `i` ticks.
proof fn lemma_progress_done(s0: TimerState, cur: TimerState, i: int, to: int)
    requires
        s0.wf(),
        progress(s0, cur, i),
        i <= s0.due(to),
        i == s0.due(to) || cur.expired,
    ensures
        i == s0.produced(to),
        cur == s0.advanced(to),
{
}

/// A configuration that no timer can run with.
#[derive(Clone, Copy, Debug, PartialEq, Eq, Structural)]
pub enum TimerError {
    /// The interval between ticks is zero.
    ZeroInterval,
}

/// The view of an optional timestamp.
pub open spec fn opt_nat(o: Option<u64>) -> Option<nat> {
    match o {
        Some(t) => Some(t as nat),
        None => None,
    }
}

/// A timer driven by explicit calls rather than by a clock.
#[derive(Debug)]
pub struct TestTimer {
    name: String,
    interval_ns: u64,
    start_time_ns: Timestamp,
    stop_time_ns: Option<Timestamp>,
    next_time_ns: Timestamp,
    is_expired: bool,
}

impl View for TestTimer {
    type V = TimerState;

    closed spec fn view(&self) -> TimerState {
        TimerState {
            name: self.name@,
            interval: self.interval_ns as nat,
            start: self.start_time_ns as nat,
            stop: opt_nat(self.stop_time_ns),
            next: self.next_time_ns as nat,
            expired: self.is_expired,
        }
    }
}

impl TestTimer {
    #[verifier::type_invariant]
    closed spec fn inv(self) -> bool {
        self@.wf()
    }

    /// A timer named `name` whose first tick is due one interval after
    /// `start_time_ns`; it fails on a zero interval.
    pub fn new(
        name: String,
        interval_ns: u64,
        start_time_ns: Timestamp,
        stop_time_ns: Option<Timestamp>,
    ) -> (r: Result<TestTimer, TimerError>)
        ensures
            interval_ns == 0 ==> r matches Err(TimerError::ZeroInterval),
            interval_ns > 0 ==> (r matches Ok(t) && t@ == TimerState::initial(
                name@,
                interval_ns as nat,
                start_time_ns as nat,
                opt_nat(stop_time_ns),
            ) && t@.wf()),
    {
        if interval_ns == 0 {
            return Err(TimerError::ZeroInterval);
        }
        let next_time_ns = start_time_ns.saturating_add(interval_ns);
        proof {
            lemma_fundamental_div_mod_converse(interval_ns as int, interval_ns as int, 1, 0);
        }
        Ok(TestTimer {
            name,
            interval_ns,
            start_time_ns,
            stop_time_ns,
            next_time_ns,
            is_expired: false,
        })
    }

    /// The timer's name.
    pub fn name(&self) -> (r: &String)
        ensures
            r@ == self@.name,
    {
        &self.name
    }

    /// Nanoseconds between two ticks.
    pub fn interval_ns(&self) -> (r: u64)
        ensures
            r == self@.interval,
    {
        self.interval_ns
    }

    /// The reference time of the first tick.
    pub fn start_time_ns(&self) -> (r: Timestamp)
        ensures
            r == self@.start,
    {
        self.start_time_ns
    }

    /// The stop time, if any.
    pub fn stop_time_ns(&self) -> (r: Option<Timestamp>)
        ensures
            opt_nat(r) == self@.stop,
    {
        self.stop_time_ns
    }

    /// The scheduled time of the next tick not yet produced.
    pub fn next_time_ns(&self) -> (r: Timestamp)
        ensures
            r == self@.next,
    {
        self.next_time_ns
    }

    /// Whether the timer will never produce another tick.
    pub fn is_expired(&self) -> (r: bool)
        ensures
            r == self@.expired,
    {
        self.is_expired
    }

    /// The event the pending tick would carry, with the given ID and
    /// initialization time; the timer does not move.
    pub fn pop_event(&self, event_id: UUID4, ts_init: Timestamp) -> (r: TimeEvent)
        ensures
            r.name@ == self@.name,
            r.category == MessageCategory::Event,
            r.event_id == event_id,
            r.ts_event == self@.next,
            r.ts_init == ts_init,
    {
        TimeEvent {
            name: self.name.clone(),
            category: MessageCategory::Event,
            event_id,
            ts_event: self.next_time_ns,
            ts_init,
        }
    }

    /// Pending ticks scheduled at or before `to_time_ns`.
    fn due_count(&self, to_time_ns: Timestamp) -> (r: u64)
        ensures
            r == self@.due(to_time_ns as int),
    {
        proof {
            use_type_invariant(self);
            lemma_due_formula(
                self.next_time_ns as int,
                self.interval_ns as int,
                to_time_ns as int,
            );
        }
        to_time_ns.saturating_sub(self.next_time_ns - self.interval_ns) / self.interval_ns
    }

    /// Takes the pending tick, if the timer has not expired, and returns its
    /// scheduled time. The tick at or after the stop time expires the timer.
    fn step(&mut self) -> (r: Option<Timestamp>)
        ensures
            final(self)@ == old(self)@.stepped(),
            final(self)@.wf(),
            old(self)@.expired ==> r is None,
            !old(self)@.expired ==> r == Some(old(self)@.next as u64),
    {
        proof {
            use_type_invariant(&*self);
        }
        if self.is_expired {
            return None;
        }
        let t = self.next_time_ns;
        if let Some(stop_time_ns) = self.stop_time_ns {
            if t >= stop_time_ns {
                self.is_expired = true;
            }
        }
        proof {
            if t < u64::MAX && (t as int) + (self.interval_ns as int) <= u64::MAX {
                lemma_grid_step(
                    self.start_time_ns as int,
                    t as int,
                    self.interval_ns as int,
                );
            }
        }
        self.next_time_ns = t.saturating_add(self.interval_ns);
        proof {
            use_type_invariant(&*self);
        }
        Some(t)
    }

    /// Produces the pending tick, with a fresh ID, unless the timer has
    /// expired; the result pairs the event with its scheduled time.
    pub fn next(&mut self) -> (r: Option<(TimeEvent, Timestamp)>)
        ensures
            final(self)@ == old(self)@.stepped(),
            final(self)@.wf(),
            old(self)@.expired ==> r is None,
            !old(self)@.expired ==> (r matches Some((e, t)) && t == old(self)@.next
                && old(self)@.is_tick(0, e)),
    {
        match self.step() {
            Some(t) => {
                let event = TimeEvent {
                    name: self.name.clone(),
                    category: MessageCategory::Event,
                    event_id: UUID4::new(),
                    ts_event: t,
                    ts_init: t,
                };
                Some((event, t))
            },
            None => None,
        }
    }

    /// Advances the timer to `to_time_ns`, producing in order one event for
    /// each pending tick scheduled at or before it, up to and including the
    /// tick that reaches the stop time.
    pub fn advance(&mut self, to_time_ns: Timestamp) -> (events: Vec<TimeEvent>)
        ensures
            events@.len() == old(self)@.produced(to_time_ns as int),
            forall|j: int|
                0 <= j < events@.len() ==> old(self)@.is_tick(j, #[trigger] events@[j]),
            final(self)@ == old(self)@.advanced(to_time_ns as int),
            final(self)@.wf(),
    {
        proof {
            use_type_invariant(&*self);
        }
        let ghost s0 = self@;
        let advances = self.due_count(to_time_ns);
        let mut events: Vec<TimeEvent> = Vec::new();
        let mut i: u64 = 0;
        while i < advances && !self.is_expired
            invariant
                s0.wf(),
                advances == s0.due(to_time_ns as int),
                i <= advances,
                progress(s0, self@, i as int),
                self@.wf(),
                events@.len() == i,
                forall|j: int| 0 <= j < i ==> s0.is_tick(j, #[trigger] events@[j]),
            decreases advances - i,
        {
            proof {
                lemma_progress_step(s0, self@, i as int, to_time_ns as int);
            }
            if let Some((event, _)) = self.next() {
                events.push(event);
            }
            i = i + 1;
        }
        proof {
            lemma_progress_done(s0, self@, i as int, to_time_ns as int);
        }
        events
    }

    /// Moves the timer to `ts_now` as `advance` would, without producing events.
    pub fn iterate_next_time(&mut self, ts_now: Timestamp)
        ensures
            final(self)@ == old(self)@.advanced(ts_now as int),
            final(self)@.wf(),
    {
        proof {
            use_type_invariant(&*self);
        }
        let ghost s0 = self@;
        let advances = self.due_count(ts_now);
        let mut i: u64 = 0;
        while i < advances && !self.is_expired
            invariant
                s0.wf(),
                advances == s0.due(ts_now as int),
                i <= advances,
                progress(s0, self@, i as int),
                self@.wf(),
            decreases advances - i,
        {
            proof {
                lemma_progress_step(s0, self@, i as int, ts_now as int);
            }
            self.step();
            i = i + 1;
        }
        proof {
            lemma_progress_done(s0, self@, i as int, ts_now as int);
        }
    }

    /// Cancels the timer: it produces no further tick.
    pub fn cancel(&mut self)
        ensures
            final(self)@ == old(self)@.cancelled(),
            final(self)@.wf(),
    {
        proof {
            use_type_invariant(&*self);
        }
        self.is_expired = true;
    }
}

/// What every timer offers: construction, a look at the pending tick, moving
/// the cursor, and cancellation.
pub trait Timer: Sized {
    /// The abstract state of the timer.
    spec fn state(&self) -> TimerState;

    /// A timer in its initial state; a zero interval is refused.
    fn new(
        name: String,
        interval_ns: Timedelta,
        start_time_ns: Timestamp,
        stop_time_ns: Option<Timestamp>,
    ) -> (r: Result<Self, TimerError>)
        ensures
            interval_ns == 0 ==> r matches Err(TimerError::ZeroInterval),
            interval_ns > 0 ==> (r matches Ok(t) && t.state() == TimerState::initial(
                name@,
                interval_ns as nat,
                start_time_ns as nat,
                opt_nat(stop_time_ns),
            )),
    ;

    /// The event of the pending tick, with the given ID and initialization
    /// time; the timer does not move.
    fn pop_event(&self, event_id: UUID4, ts_init: Timestamp) -> (r: TimeEvent)
        ensures
            r.name@ == self.state().name,
            r.category == MessageCategory::Event,
            r.event_id == event_id,
            r.ts_event == self.state().next,
            r.ts_init == ts_init,
    ;

    /// Moves the cursor past every tick due by `ts_now` without producing
    /// events, leaving the timer as advancing to `ts_now` would.
    fn iterate_next_time(&mut self, ts_now: Timestamp)
        ensures
            final(self).state() == old(self).state().advanced(ts_now as int),
    ;

    /// Expires the timer.
    fn cancel(&mut self)
        ensures
            final(self).state() == old(self).state().cancelled(),
    ;
}

impl Timer for TestTimer {
    open spec fn state(&self) -> TimerState {
        self@
    }

    fn new(
        name: String,
        interval_ns: Timedelta,
        start_time_ns: Timestamp,
        stop_time_ns: Option<Timestamp>,
    ) -> (r: Result<Self, TimerError>) {
        TestTimer::new(name, interval_ns, start_time_ns, stop_time_ns)
    }

    fn pop_event(&self, event_id: UUID4, ts_init: Timestamp) -> (r: TimeEvent) {
        TestTimer::pop_event(self, event_id, ts_init)
    }

    fn iterate_next_time(&mut self, ts_now: Timestamp) {
        TestTimer::iterate_next_time(self, ts_now)
    }

    fn cancel(&mut self) {
        TestTimer::cancel(self)
    }
}

} // verus!
