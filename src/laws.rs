//! Laws that relate several timer operations, stated over `TimerState`.

use vstd::prelude::*;

use crate::timer::{
    lemma_ticks_upto, lemma_ticks_upto_monotonic, lemma_ticks_upto_shift, sat_add, ticks_upto,
    TimerState,
};

verus! {

/// The final state, and the number of ticks produced in all, when a timer in
/// state `s` is advanced to each time of `tos` in turn.
pub open spec fn run(s: TimerState, tos: Seq<u64>) -> (TimerState, int)
    decreases tos.len(),
{
    if tos.len() == 0 {
        (s, 0)
    } else {
        let (s1, n1) = run(s, tos.drop_last());
        (s1.advanced(tos.last() as int), n1 + s1.produced(tos.last() as int))
    }
}

/// How many of the ticks `start + k * interval`, for `k >= 1`, fall at or
/// before `to`, cut at the first tick at or after the stop time, which is
/// itself counted.
pub open spec fn expected_ticks(start: int, interval: int, stop: Option<nat>, to: int) -> int {
    let due = ticks_upto(start + interval, interval, to);
    match stop {
        Some(s) => {
            let last = ticks_upto(start + interval, interval, s - 1) + 1;
            if due < last {
                due
            } else {
                last
            }
        },
        None => due,
    }
}

/// Whether the cut at the stop time falls at or before `to`.
pub open spec fn expected_expiry(start: int, interval: int, stop: Option<nat>, to: int) -> bool {
    stop matches Some(s) && ticks_upto(start + interval, interval, s - 1) < ticks_upto(
        start + interval,
        interval,
        to,
    )
}

/// Whether `tos` never decreases.
pub open spec fn non_decreasing(tos: Seq<u64>) -> bool {
    forall|i: int, j: int| 0 <= i <= j < tos.len() ==> tos[i] <= tos[j]
}

/// The last time of `tos`, or a time before every tick when there is none.
spec fn last_or_before(tos: Seq<u64>) -> int {
    if tos.len() == 0 {
        -1
    } else {
        tos.last() as int
    }
}

/// What holds after a run up to `to` from a timer built with `cfg`: `m`
/// ticks produced, the cursor `m` intervals past the first tick, and expiry
/// exactly when the stop cut has been passed.
spec fn run_inv(cfg: TimerState, st: TimerState, m: int, to: int) -> bool {
    let first = cfg.start + cfg.interval as int;
    let iv = cfg.interval as int;
    &&& st.name == cfg.name && st.interval == cfg.interval && st.start == cfg.start && st.stop
        == cfg.stop
    &&& st.next <= u64::MAX
    &&& 0 <= m
    &&& (!st.expired ==> {
        &&& m == ticks_upto(first, iv, to)
        &&& (cfg.stop matches Some(s) ==> m <= ticks_upto(first, iv, s - 1))
        &&& st.next == sat_add(first, m * iv)
    })
    &&& (st.expired ==> (cfg.stop matches Some(s) && m == ticks_upto(first, iv, s - 1) + 1 && m
        <= ticks_upto(first, iv, to)))
}

/// One more advance to a later time keeps `run_inv`.
proof fn lemma_run_step(cfg: TimerState, st: TimerState, m: int, to1: int, to2: int)
    requires
        0 < cfg.interval,
        cfg.stop matches Some(s) ==> s <= u64::MAX,
        run_inv(cfg, st, m, to1),
        -1 <= to1 <= to2 < u64::MAX,
    ensures
        run_inv(cfg, st.advanced(to2), m + st.produced(to2), to2),
{
    let first = cfg.start + cfg.interval as int;
    let iv = cfg.interval as int;
    lemma_ticks_upto_monotonic(first, iv, to1, to2);
    if let Some(s) = cfg.stop {
        lemma_ticks_upto_monotonic(first, iv, -1, s - 1);
        lemma_ticks_upto_monotonic(st.next as int, iv, -1, s - 1);
    }
    lemma_ticks_upto_monotonic(st.next as int, iv, -1, to2);
    if !st.expired {
        if first + m * iv <= u64::MAX {
            lemma_ticks_upto_shift(first, iv, to2, m);
            if let Some(s) = cfg.stop {
                lemma_ticks_upto_shift(first, iv, s - 1, m);
            }
            let m2 = m + st.produced(to2);
            assert((m2 - m) * iv + m * iv == m2 * iv) by (nonlinear_arith);
        } else {
            lemma_ticks_upto(first, iv, to2, m);
        }
    }
}

/// `run_inv` holds after every run of non-decreasing times from a new timer.
proof fn lemma_run_inv(cfg: TimerState, tos: Seq<u64>)
    requires
        cfg == TimerState::initial(cfg.name, cfg.interval, cfg.start, cfg.stop),
        0 < cfg.interval,
        cfg.start <= u64::MAX,
        cfg.stop matches Some(s) ==> s <= u64::MAX,
        non_decreasing(tos),
        forall|i: int| 0 <= i < tos.len() ==> tos[i] < u64::MAX,
    ensures
        run_inv(cfg, run(cfg, tos).0, run(cfg, tos).1, last_or_before(tos)),
    decreases tos.len(),
{
    let first = cfg.start + cfg.interval as int;
    let iv = cfg.interval as int;
    if tos.len() == 0 {
        if let Some(s) = cfg.stop {
            lemma_ticks_upto_monotonic(first, iv, -1, s - 1);
        }
        assert(0 * iv == 0);
    } else {
        let prefix = tos.drop_last();
        assert(non_decreasing(prefix));
        lemma_run_inv(cfg, prefix);
        let (s1, n1) = run(cfg, prefix);
        if prefix.len() > 0 {
            assert(prefix.last() == tos[tos.len() - 2]);
        }
        lemma_run_step(cfg, s1, n1, last_or_before(prefix), tos.last() as int);
    }
}

/// Over any run of non-decreasing advances from a new timer, the ticks
/// produced in all are the ticks `start + k * interval`, `k >= 1`, at or
/// before the last time, cut at the first one at or after the stop time; the
/// timer has expired exactly when that cut was reached.
/// (Times are below the largest timestamp, where the cursor may be clamped.)
pub proof fn lemma_total_ticks(
    name: Seq<char>,
    interval: nat,
    start: nat,
    stop: Option<nat>,
    tos: Seq<u64>,
)
    requires
        0 < interval,
        start <= u64::MAX,
        stop matches Some(s) ==> s <= u64::MAX,
        0 < tos.len(),
        non_decreasing(tos),
        forall|i: int| 0 <= i < tos.len() ==> tos[i] < u64::MAX,
    ensures
        run(TimerState::initial(name, interval, start, stop), tos).1 == expected_ticks(
            start as int,
            interval as int,
            stop,
            tos.last() as int,
        ),
        run(TimerState::initial(name, interval, start, stop), tos).0.expired == expected_expiry(
            start as int,
            interval as int,
            stop,
            tos.last() as int,
        ),
{
    let cfg = TimerState::initial(name, interval, start, stop);
    lemma_run_inv(cfg, tos);
}

/// Advancing to a time before the pending tick produces nothing and changes
/// nothing.
pub proof fn lemma_advance_before_next(s: TimerState, to: int)
    requires
        s.wf(),
        to < s.next,
    ensures
        s.produced(to) == 0,
        s.advanced(to) == s,
{
    if let Some(st) = s.stop {
        lemma_ticks_upto_monotonic(s.next as int, s.interval as int, -1, st - 1);
    }
    assert(0 * s.interval == 0);
}

/// An expired timer produces nothing and stays as it is, whatever the time.
pub proof fn lemma_expired_is_final(s: TimerState, to: int)
    requires
        s.wf(),
        s.expired,
    ensures
        s.produced(to) == 0,
        s.advanced(to) == s,
{
}

/// A cancelled timer has expired, and no later advance produces a tick.
pub proof fn lemma_cancel_forfeits(s: TimerState, to: int)
    requires
        s.wf(),
    ensures
        s.cancelled().expired,
        s.cancelled().produced(to) == 0,
        s.cancelled().advanced(to) == s.cancelled(),
{
}

} // verus!
