use joke_bot::state::{ServiceState, Timestamp, NANOS_PER_SECOND};

fn at(secs: u64, nanos: u32) -> Timestamp {
    Timestamp::new(secs, nanos).unwrap()
}

#[test]
fn timestamp_takes_less_than_a_second_of_nanoseconds() {
    assert_eq!(NANOS_PER_SECOND, 1_000_000_000);
    assert!(Timestamp::new(0, 0).is_some());
    assert!(Timestamp::new(5, 999_999_999).is_some());
    assert!(Timestamp::new(5, 1_000_000_000).is_none());
    assert!(Timestamp::new(u64::MAX, u32::MAX).is_none());
    let t = at(17, 250);
    assert_eq!(t.secs(), 17);
    assert_eq!(t.nanos(), 250);
}

#[test]
fn timestamps_are_ordered_by_seconds_then_nanoseconds() {
    assert!(at(1, 0).is_before(&at(2, 0)));
    assert!(at(1, 999_999_999).is_before(&at(2, 0)));
    assert!(at(2, 0).is_before(&at(2, 1)));
    assert!(!at(2, 1).is_before(&at(2, 1)));
    assert!(!at(2, 1).is_before(&at(2, 0)));
    assert!(!at(3, 0).is_before(&at(2, 999_999_999)));
}

#[test]
fn seconds_since_drops_fractions() {
    assert_eq!(at(10, 0).seconds_since(&at(10, 0)), Some(0));
    assert_eq!(at(10, 5).seconds_since(&at(10, 0)), Some(0));
    assert_eq!(at(11, 0).seconds_since(&at(10, 0)), Some(1));
    assert_eq!(at(11, 0).seconds_since(&at(10, 1)), Some(0));
    assert_eq!(at(12, 0).seconds_since(&at(10, 999_999_999)), Some(1));
    assert_eq!(at(12, 999_999_999).seconds_since(&at(10, 999_999_999)), Some(2));
    assert_eq!(at(3671, 500).seconds_since(&at(10, 500)), Some(3661));
    assert_eq!(at(u64::MAX, 999_999_999).seconds_since(&at(0, 0)), Some(u64::MAX));
    assert_eq!(at(u64::MAX, 0).seconds_since(&at(0, 1)), Some(u64::MAX - 1));
}

#[test]
fn seconds_since_a_later_time_is_none() {
    assert_eq!(at(10, 0).seconds_since(&at(10, 1)), None);
    assert_eq!(at(9, 999_999_999).seconds_since(&at(10, 0)), None);
    assert_eq!(at(0, 0).seconds_since(&at(u64::MAX, 0)), None);
}

#[test]
fn seconds_since_agrees_with_durations() {
    let points = [(0u64, 0u32), (0, 1), (1, 0), (1, 999_999_999), (2, 0), (2, 500_000_000), (90, 7)];
    for &(es, en) in points.iter() {
        for &(ls, ln) in points.iter() {
            let earlier = std::time::Duration::new(es, en);
            let later = std::time::Duration::new(ls, ln);
            let expected = later.checked_sub(earlier).map(|d| d.as_secs());
            assert_eq!(at(ls, ln).seconds_since(&at(es, en)), expected);
        }
    }
}

#[test]
fn fresh_state_has_served_nothing() {
    let state = ServiceState::new(at(1_700_000_000, 42));
    assert_eq!(state.served_count(), 0);
    assert_eq!(state.started_at(), at(1_700_000_000, 42));
}

#[test]
fn record_served_counts_one_and_keeps_the_start() {
    let mut state = ServiceState::new(at(100, 0));
    state.record_served();
    assert_eq!(state.served_count(), 1);
    state.record_served();
    state.record_served();
    assert_eq!(state.served_count(), 3);
    assert_eq!(state.started_at(), at(100, 0));
}

#[test]
fn uptime_is_counted_from_the_start() {
    let state = ServiceState::new(at(100, 500));
    assert_eq!(state.uptime_seconds(&at(100, 500)), Some(0));
    assert_eq!(state.uptime_seconds(&at(3761, 500)), Some(3661));
    assert_eq!(state.uptime_seconds(&at(3761, 499)), Some(3660));
    assert_eq!(state.uptime_seconds(&at(100, 499)), None);
    assert_eq!(state.uptime_seconds(&at(99, 999_999_999)), None);
}
