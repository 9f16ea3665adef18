use hybrid_lock::protocol::{admits, validate_optimistic, LockEvent, LockState};

fn state(readers: u64, exclusive: bool, version: u64, value: u64) -> LockState {
    LockState { readers, exclusive, version, value }
}

#[test]
fn initial_state_is_idle_at_version_zero() {
    assert_eq!(LockState::new(7), state(0, false, 0, 7));
}

#[test]
fn writer_mid_mutation_fails_optimistic_attempt() {
    // A writer has acquired and stored, but not yet released.
    let s = LockState::new(1);
    let pre = s.version;
    let held = s
        .apply_all(&vec![LockEvent::AcquireExclusive, LockEvent::Store(2)])
        .unwrap();
    assert!(held.exclusive);
    assert_eq!(held.version, pre);
    assert_eq!(validate_optimistic(pre, held.value, held.exclusive, held.version), None);
}

#[test]
fn write_then_optimistic_read_sees_new_value() {
    let s = LockState::new(0);
    let after = s
        .apply_all(&vec![
            LockEvent::AcquireExclusive,
            LockEvent::Store(1),
            LockEvent::ReleaseExclusive,
        ])
        .unwrap();
    assert_eq!(after, state(0, false, 1, 1));
    let pre = after.version;
    assert_eq!(validate_optimistic(pre, after.value, after.exclusive, after.version), Some(1));
}

#[test]
fn completed_write_during_attempt_fails_it() {
    let s = LockState::new(0);
    let pre = s.version;
    let after = s
        .apply_all(&vec![
            LockEvent::AcquireExclusive,
            LockEvent::Store(9),
            LockEvent::ReleaseExclusive,
        ])
        .unwrap();
    assert!(!after.exclusive);
    assert_eq!(validate_optimistic(pre, 0u64, after.exclusive, after.version), None);
}

#[test]
fn readers_share_and_writer_waits_for_both() {
    let s = LockState::new(5);
    let two = s
        .apply_all(&vec![LockEvent::AcquireShared, LockEvent::AcquireShared])
        .unwrap();
    assert_eq!(two.readers, 2);
    assert_eq!(two.apply(LockEvent::AcquireExclusive), None);
    let one = two.apply(LockEvent::ReleaseShared).unwrap();
    assert_eq!(one.apply(LockEvent::AcquireExclusive), None);
    let none = one.apply(LockEvent::ReleaseShared).unwrap();
    let w = none.apply(LockEvent::AcquireExclusive).unwrap();
    assert_eq!(w, state(0, true, 0, 5));
}

#[test]
fn writer_excludes_readers_and_writers() {
    let w = LockState::new(0).apply(LockEvent::AcquireExclusive).unwrap();
    assert_eq!(w.apply(LockEvent::AcquireShared), None);
    assert_eq!(w.apply(LockEvent::AcquireExclusive), None);
}

#[test]
fn thousand_writers_count_to_thousand() {
    let mut events = Vec::new();
    for i in 0..1000u64 {
        events.push(LockEvent::AcquireExclusive);
        events.push(LockEvent::Store(i + 1));
        events.push(LockEvent::ReleaseExclusive);
    }
    let end = LockState::new(0).apply_all(&events).unwrap();
    assert_eq!(end, state(0, false, 1000, 1000));
}

#[test]
fn reads_without_writer_repeat() {
    let s = LockState::new(42);
    let end = s
        .apply_all(&vec![
            LockEvent::AcquireShared,
            LockEvent::ReleaseShared,
            LockEvent::AcquireShared,
        ])
        .unwrap();
    assert_eq!(end.value, 42);
    assert_eq!(end.version, 0);
}

#[test]
fn version_wraps_at_the_top() {
    let s = state(0, true, u64::MAX, 3);
    assert_eq!(s.apply(LockEvent::ReleaseExclusive), Some(state(0, false, 0, 3)));
}

#[test]
fn releases_and_stores_need_the_access() {
    let idle = LockState::new(0);
    assert_eq!(idle.apply(LockEvent::ReleaseShared), None);
    assert_eq!(idle.apply(LockEvent::ReleaseExclusive), None);
    assert_eq!(idle.apply(LockEvent::Store(4)), None);
}

#[test]
fn reader_count_is_bounded() {
    let s = state(u64::MAX, false, 0, 0);
    assert_eq!(s.apply(LockEvent::AcquireShared), None);
}

#[test]
fn stuck_event_stops_the_run() {
    let s = LockState::new(0);
    let r = s.apply_all(&vec![LockEvent::AcquireShared, LockEvent::Store(1), LockEvent::ReleaseShared]);
    assert_eq!(r, None);
}

#[test]
fn validation_needs_both_conditions() {
    assert_eq!(validate_optimistic(3, 'x', false, 3), Some('x'));
    assert_eq!(validate_optimistic(3, 'x', true, 3), None);
    assert_eq!(validate_optimistic(3, 'x', false, 4), None);
}

#[test]
fn attempt_runs_only_without_writer() {
    assert!(admits(false));
    assert!(!admits(true));
}
