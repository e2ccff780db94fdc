use nautilus_common::{TestTimer, TimeEvent, Timer, TimerError};

fn timer(interval_ns: u64, start_time_ns: u64, stop_time_ns: Option<u64>) -> TestTimer {
    TestTimer::new(String::from("test_timer"), interval_ns, start_time_ns, stop_time_ns).unwrap()
}

fn times(events: &[TimeEvent]) -> Vec<u64> {
    events.iter().map(|e| e.ts_event).collect()
}

#[test]
fn test_pop_event() {
    let name = String::from("test_timer");
    // A zero interval is refused at construction.
    assert!(matches!(
        TestTimer::new(name.clone(), 0, 1, None),
        Err(TimerError::ZeroInterval)
    ));
    let mut timer = TestTimer::new(name, 1, 1, None).unwrap();

    assert!(timer.next().is_some());
    assert!(timer.next().is_some());
    timer.cancel();
    assert!(timer.next().is_none());
}

#[test]
fn test_advance_within_next_time_ns() {
    let name = String::from("test_timer");
    let mut timer = TestTimer::new(name, 5, 0, None).unwrap();

    let _: Vec<TimeEvent> = timer.advance(1);
    let _: Vec<TimeEvent> = timer.advance(2);
    let _: Vec<TimeEvent> = timer.advance(3);
    let events: Vec<TimeEvent> = timer.advance(4);

    assert_eq!(events.len(), 0);
    assert_eq!(timer.next_time_ns(), 5);
    assert_eq!(timer.is_expired(), false)
}

#[test]
fn test_advance_up_to_next_time_ns() {
    let name = String::from("test_timer");
    let mut timer = TestTimer::new(name, 1, 0, None).unwrap();
    let events: Vec<TimeEvent> = timer.advance(1);

    assert_eq!(events.len(), 1);
    assert_eq!(timer.is_expired(), false);
}

#[test]
fn test_advance_up_to_next_time_ns_with_stop_time() {
    let name = String::from("test_timer");
    let mut timer = TestTimer::new(name, 1, 0, Some(2)).unwrap();
    let events: Vec<TimeEvent> = timer.advance(2);

    assert_eq!(events.len(), 2);
    assert_eq!(timer.is_expired(), true);
}

#[test]
fn test_advance_beyond_next_time_ns() {
    let name = String::from("test_timer");
    let mut timer = TestTimer::new(name, 1, 0, Some(5)).unwrap();
    let events: Vec<TimeEvent> = timer.advance(5);

    assert_eq!(events.len(), 5);
    assert_eq!(timer.is_expired(), true);
}

#[test]
fn test_advance_beyond_stop_time() {
    let name = String::from("test_timer");
    let mut timer = TestTimer::new(name, 1, 0, Some(5)).unwrap();
    let events: Vec<TimeEvent> = timer.advance(10);

    assert_eq!(events.len(), 5);
    assert_eq!(timer.is_expired(), true);
}

#[test]
fn new_places_cursor_one_interval_after_start() {
    let t = timer(7, 100, Some(150));
    assert_eq!(t.name(), "test_timer");
    assert_eq!(t.interval_ns(), 7);
    assert_eq!(t.start_time_ns(), 100);
    assert_eq!(t.stop_time_ns(), Some(150));
    assert_eq!(t.next_time_ns(), 107);
    assert!(!t.is_expired());
}

#[test]
fn new_clamps_cursor_at_largest_timestamp() {
    let mut t = timer(5, u64::MAX - 1, None);
    assert_eq!(t.next_time_ns(), u64::MAX);
    assert!(t.advance(u64::MAX - 1).is_empty());
    assert_eq!(t.next_time_ns(), u64::MAX);
}

#[test]
fn advance_events_carry_name_and_schedule() {
    let mut t = timer(10, 0, None);
    let events = t.advance(35);
    assert_eq!(times(&events), vec![10, 20, 30]);
    for e in &events {
        assert_eq!(e.name, "test_timer");
        assert_eq!(e.ts_init, e.ts_event);
    }
    assert_eq!(t.next_time_ns(), 40);
}

#[test]
fn advance_is_inclusive_at_tick_time() {
    let mut t = timer(10, 0, None);
    assert_eq!(times(&t.advance(9)), Vec::<u64>::new());
    assert_eq!(times(&t.advance(10)), vec![10]);
    assert_eq!(times(&t.advance(20)), vec![20]);
}

#[test]
fn advance_sequence_totals_ticks_up_to_stop() {
    let mut t = timer(3, 1, Some(20));
    let mut all = Vec::new();
    all.extend(times(&t.advance(5)));
    assert_eq!(all, vec![4]);
    all.extend(times(&t.advance(5)));
    all.extend(times(&t.advance(13)));
    assert_eq!(all, vec![4, 7, 10, 13]);
    assert!(!t.is_expired());
    all.extend(times(&t.advance(100)));
    // 22 is the first tick at or after the stop time: produced, and the last.
    assert_eq!(all, vec![4, 7, 10, 13, 16, 19, 22]);
    assert!(t.is_expired());
    assert!(t.advance(1000).is_empty());
}

#[test]
fn stop_time_on_a_tick_ends_there() {
    let mut t = timer(5, 0, Some(15));
    assert_eq!(times(&t.advance(100)), vec![5, 10, 15]);
    assert!(t.is_expired());
}

#[test]
fn stop_time_at_or_before_first_tick_gives_one_tick() {
    let mut t = timer(5, 10, Some(3));
    assert_eq!(times(&t.advance(100)), vec![15]);
    assert!(t.is_expired());
}

#[test]
fn advance_before_pending_tick_changes_nothing() {
    let mut t = timer(10, 0, Some(100));
    let _ = t.advance(30);
    let next = t.next_time_ns();
    assert!(t.advance(39).is_empty());
    assert!(t.advance(5).is_empty());
    assert_eq!(t.next_time_ns(), next);
    assert!(!t.is_expired());
}

#[test]
fn expired_timer_stays_put() {
    let mut t = timer(1, 0, Some(2));
    assert_eq!(t.advance(2).len(), 2);
    let next = t.next_time_ns();
    assert!(t.advance(3).is_empty());
    assert!(t.advance(u64::MAX).is_empty());
    assert_eq!(t.next_time_ns(), next);
    assert!(t.is_expired());
}

#[test]
fn cancel_forfeits_due_ticks() {
    let mut t = timer(1, 0, None);
    t.cancel();
    assert!(t.is_expired());
    assert!(t.advance(100).is_empty());
    t.cancel();
    assert!(t.is_expired());
}

#[test]
fn next_steps_one_tick() {
    let mut t = timer(4, 0, Some(8));
    let (e, at) = t.next().unwrap();
    assert_eq!((e.ts_event, at), (4, 4));
    let (e, at) = t.next().unwrap();
    assert_eq!((e.ts_event, at), (8, 8));
    assert!(t.is_expired());
    assert_eq!(t.next_time_ns(), 12);
    assert!(t.next().is_none());
}

#[test]
fn iterate_next_time_matches_advance_without_events() {
    let mut a = timer(3, 1, Some(20));
    let mut b = timer(3, 1, Some(20));
    for to in [2u64, 9, 9, 16, 40] {
        let _ = a.advance(to);
        b.iterate_next_time(to);
        assert_eq!(a.next_time_ns(), b.next_time_ns());
        assert_eq!(a.is_expired(), b.is_expired());
    }
    assert_eq!(b.next_time_ns(), 25);
    assert!(b.is_expired());
}

fn build<T: Timer>(interval_ns: u64) -> Result<T, TimerError> {
    T::new(String::from("generic"), interval_ns, 0, None)
}

#[test]
fn timer_trait_drives_test_timer() {
    assert!(matches!(build::<TestTimer>(0), Err(TimerError::ZeroInterval)));
    let mut t: TestTimer = build(2).unwrap();
    Timer::iterate_next_time(&mut t, 7);
    assert_eq!(t.next_time_ns(), 8);
    let e = Timer::pop_event(&t, nautilus_common::UUID4::from_u128(9), 3);
    assert_eq!(e.ts_event, 8);
    Timer::cancel(&mut t);
    assert!(t.is_expired());
}
