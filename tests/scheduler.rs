use mstd_time::alarm::{Alarm, AlarmPoll};
use mstd_time::chronos::{Chronos, CAPACITY};
use mstd_time::clock::{Instant, TickCounter};
use mstd_time::duration::Duration;

fn entries(c: &Chronos) -> Vec<(u64, u64)> {
    let mut out = Vec::new();
    for i in 0..c.len() {
        out.push(c.entry(i));
    }
    out
}

fn alarm_at(tick: u64) -> Alarm {
    Alarm::after(&TickCounter::new(), Duration::from_micros(tick))
}

#[test]
fn full_registry_wakes_prefix_and_frees_slots() {
    let mut counter = TickCounter::new();
    let mut chronos = Chronos::new();
    for t in 1..=32u64 {
        chronos.register(&alarm_at(t), 100 + t);
    }
    assert_eq!(chronos.poll(&counter), Vec::<u64>::new());
    assert_eq!(chronos.len(), 32);

    counter.advance_to(10);
    let woken = chronos.poll(&counter);
    assert_eq!(woken, (101..=110u64).collect::<Vec<u64>>());
    assert_eq!(chronos.len(), 22);
    assert_eq!(chronos.entry(0), (11, 111));

    assert!(!chronos.is_full());
    chronos.register(&alarm_at(40), 140);
    assert_eq!(chronos.len(), 23);
}

#[test]
fn registry_at_capacity_is_full_and_intact() {
    let mut counter = TickCounter::new();
    let mut chronos = Chronos::new();
    for t in 1..=32u64 {
        assert!(!chronos.is_full());
        chronos.register(&alarm_at(t), t);
    }
    assert!(chronos.is_full());
    assert_eq!(chronos.len(), CAPACITY);
    let before = entries(&chronos);
    assert_eq!(chronos.poll(&counter), Vec::<u64>::new());
    assert_eq!(entries(&chronos), before);
    assert!(chronos.is_full());
    counter.advance_to(32);
    assert_eq!(alarm_at(20).poll(&counter, &mut chronos, 7), AlarmPoll::Ready);
    assert_eq!(entries(&chronos), before);
    assert_eq!(CAPACITY, 32);
}

#[test]
fn poll_before_first_target_wakes_nothing() {
    let mut counter = TickCounter::new();
    counter.advance_to(3);
    let mut chronos = Chronos::new();
    for t in [10u64, 20, 30] {
        chronos.register(&alarm_at(t), t);
    }
    assert!(chronos.poll(&counter).is_empty());
    assert_eq!(entries(&chronos), vec![(10, 10), (20, 20), (30, 30)]);
}

#[test]
fn register_keeps_order_and_ties_in_arrival_order() {
    let mut chronos = Chronos::new();
    chronos.register(&alarm_at(5), 1);
    chronos.register(&alarm_at(3), 2);
    chronos.register(&alarm_at(5), 3);
    chronos.register(&alarm_at(1), 4);
    chronos.register(&alarm_at(4), 5);
    assert_eq!(entries(&chronos), vec![(1, 4), (3, 2), (4, 5), (5, 1), (5, 3)]);
}

#[test]
fn poll_wakes_due_in_ascending_order() {
    let mut counter = TickCounter::new();
    let mut chronos = Chronos::new();
    for (t, k) in [(7u64, 70u64), (2, 20), (9, 90), (4, 40), (7, 71)] {
        chronos.register(&alarm_at(t), k);
    }
    counter.advance_to(7);
    assert_eq!(chronos.poll(&counter), vec![20, 40, 70, 71]);
    assert_eq!(entries(&chronos), vec![(9, 90)]);
    assert_eq!(chronos.poll(&counter), Vec::<u64>::new());
    counter.advance_to(100);
    assert_eq!(chronos.poll(&counter), vec![90]);
    assert!(chronos.is_empty());
}

#[test]
fn alarm_after_positive_span_not_expired_at_once() {
    let mut counter = TickCounter::new();
    counter.advance_to(1_000);
    let a = Alarm::after(&counter, Duration::from_micros(1));
    assert!(!a.is_expired(&counter));
    assert_eq!(a.tick(), 1_001);
    let b = Alarm::after(&counter, Duration::from_secs(3));
    assert!(!b.is_expired(&counter));
    assert_eq!(b.tick(), 3_001_000);
    let z = Alarm::after(&counter, Duration::from_micros(0));
    assert!(z.is_expired(&counter));
    counter.advance_to(1_001);
    assert!(a.is_expired(&counter));
}

#[test]
fn alarm_poll_ready_leaves_registry_alone() {
    let mut counter = TickCounter::new();
    counter.advance_to(50);
    let mut chronos = Chronos::new();
    let a = alarm_at(40);
    assert_eq!(a.poll(&counter, &mut chronos, 1), AlarmPoll::Ready);
    assert!(chronos.is_empty());
    let b = alarm_at(60);
    assert_eq!(b.poll(&counter, &mut chronos, 2), AlarmPoll::Pending);
    assert_eq!(entries(&chronos), vec![(60, 2)]);
}

#[test]
fn never_alarm_is_never_woken() {
    let mut counter = TickCounter::new();
    let mut chronos = Chronos::new();
    let n = Alarm::never();
    assert_eq!(n.tick(), u64::MAX);
    assert_eq!(n.poll(&counter, &mut chronos, 9), AlarmPoll::Pending);
    chronos.register(&alarm_at(5), 5);
    counter.advance_to(u64::MAX - 1);
    assert!(!n.is_expired(&counter));
    assert_eq!(chronos.poll(&counter), vec![5]);
    assert_eq!(entries(&chronos), vec![(u64::MAX, 9)]);
    counter.advance_to(u64::MAX);
    assert!(n.is_expired(&counter));
}

#[test]
fn now_is_stable_and_non_decreasing() {
    let mut counter = TickCounter::new();
    assert_eq!(Instant::now(&counter).tick(), 0);
    counter.advance_to(42);
    let a = Instant::now(&counter);
    let b = Instant::now(&counter);
    assert_eq!(a, b);
    counter.advance_to(17);
    assert_eq!(counter.tick(), 42);
    assert!(Instant::now(&counter).tick() >= a.tick());
    counter.advance_to(43);
    assert_eq!(Instant::now(&counter).tick(), 43);
}

#[test]
fn add_then_sub_gives_span_in_micros() {
    let mut counter = TickCounter::new();
    counter.advance_to(123);
    let i = Instant::now(&counter);
    let d = Duration::new(2, 345_678_912);
    let later = i.add(d);
    assert_eq!(later.tick(), 123 + 2_345_678);
    let back = later.sub(i);
    assert_eq!(back, Duration::from_micros(2_345_678));
    assert_eq!(back.as_secs(), 2);
    assert_eq!(back.subsec_micros(), 345_678);
    assert_eq!(back.subsec_nanos(), 345_678_000);
}

#[test]
fn add_wraps_past_largest_tick() {
    let mut counter = TickCounter::new();
    counter.advance_to(u64::MAX - 5);
    let i = Instant::now(&counter);
    assert_eq!(i.add(Duration::from_micros(10)).tick(), 4);
}

#[test]
fn elapsed_counts_ticks_since() {
    let mut counter = TickCounter::new();
    counter.advance_to(1_000);
    let start = Instant::now(&counter);
    counter.advance_to(2_501_000);
    let e = start.elapsed(&counter);
    assert_eq!(e.as_secs(), 2);
    assert_eq!(e.subsec_micros(), 500_000);
}

#[test]
fn duration_constructors() {
    let d = Duration::from_micros(1_500_000);
    assert_eq!(d.as_secs(), 1);
    assert_eq!(d.subsec_micros(), 500_000);
    let c = Duration::new(1, 2_500_000_000);
    assert_eq!(c.as_secs(), 3);
    assert_eq!(c.subsec_nanos(), 500_000_000);
    let m = Duration::from_millis(2_250);
    assert_eq!(m.as_secs(), 2);
    assert_eq!(m.subsec_nanos(), 250_000_000);
    assert_eq!(Duration::from_secs(7).subsec_nanos(), 0);
}

#[test]
fn sub_truncates_to_whole_microseconds() {
    let counter = TickCounter::new();
    let i = Instant::now(&counter);
    let j = i.add(Duration::new(3, 123_456_789));
    let back = j.sub(i);
    assert_eq!(back, Duration::new(3, 123_456_000));
    assert_eq!(back.subsec_nanos(), 123_456_000);
}

#[test]
fn elapsed_at_unchanged_tick_is_zero() {
    let mut counter = TickCounter::new();
    counter.advance_to(77);
    let i = Instant::now(&counter);
    assert_eq!(i.elapsed(&counter), Duration::from_micros(0));
    assert_eq!(i.elapsed(&counter).subsec_nanos(), 0);
}
