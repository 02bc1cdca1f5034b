use counter_session::brain::{Brain, Event, State};
use counter_session::codec::{decode, encode};

#[test]
fn increment_then_decrement_round_trips() {
    let mut b = Brain::new();
    for _ in 0..5 {
        b.update(Event::IncrementA);
    }
    assert_eq!(b.state.counterA, 5);
    b.update(Event::IncrementA);
    b.update(Event::DecrementA);
    assert_eq!(b.state.counterA, 5);
}

#[test]
fn increment_saturates_at_maximum() {
    let mut b = Brain::new();
    for _ in 0..300 {
        b.update(Event::IncrementB);
    }
    assert_eq!(b.state.counterB, 255);
    b.update(Event::IncrementB);
    assert_eq!(b.state.counterB, 255);
    // at the saturation point the round trip is lost
    b.update(Event::DecrementB);
    assert_eq!(b.state.counterB, 254);
}

#[test]
fn decrement_of_zero_is_zero() {
    let mut b = Brain::new();
    assert_eq!(b.state.counterA, 0);
    b.update(Event::DecrementA);
    assert_eq!(b.state.counterA, 0);
    assert_eq!(b.state.counterB, 0);
}

#[test]
fn clear_resets_everything() {
    let mut b = Brain::new();
    b.update(Event::IncrementA);
    b.update(Event::Commit);
    b.update(Event::IncrementB);
    b.update(Event::Commit);
    assert_eq!(b.state_history.len(), 2);
    b.update(Event::Clear);
    assert_eq!(b.state.counterA, 0);
    assert_eq!(b.state.counterB, 0);
    assert!(b.state_history.is_empty());
}

#[test]
fn commit_then_rollback_restores_state() {
    let mut b = Brain::new();
    b.update(Event::IncrementA);
    b.update(Event::IncrementB);
    b.update(Event::IncrementB);
    let before = b.state;
    b.update(Event::Commit);
    b.update(Event::Rollback);
    assert_eq!(b.state, before);
    assert!(b.state_history.is_empty());
}

#[test]
fn commit_disables_decrement_until_increment() {
    let mut b = Brain::new();
    b.update(Event::IncrementA);
    b.update(Event::Commit);
    assert!(!b.canDecrementA());
    assert!(!b.canDecrementB());
    b.update(Event::IncrementA);
    assert!(b.canDecrementA());
    assert!(!b.canDecrementB());
}

#[test]
fn most_events_keep_decrement_disabled_after_commit() {
    for e in [
        Event::IncrementB,
        Event::DecrementA,
        Event::DecrementB,
        Event::Commit,
        Event::Clear,
    ] {
        let mut b = Brain::new();
        b.update(Event::IncrementA);
        b.update(Event::Commit);
        b.update(e);
        assert!(!b.canDecrementA());
    }
}

#[test]
fn rollback_after_commit_can_reenable_decrement() {
    let mut b = Brain::new();
    b.update(Event::IncrementA);
    b.update(Event::Commit);
    b.update(Event::IncrementA);
    b.update(Event::Commit);
    assert!(!b.canDecrementA());
    b.update(Event::Rollback);
    assert!(b.canDecrementA());
}

#[test]
fn commit_suppresses_duplicate_snapshots() {
    let mut b = Brain::new();
    b.update(Event::IncrementA);
    b.update(Event::Commit);
    b.update(Event::Commit);
    assert_eq!(b.state_history.len(), 1);
    b.update(Event::IncrementA);
    b.update(Event::Commit);
    assert_eq!(b.state_history.len(), 2);
}

#[test]
fn committed_rounds_scenario() {
    let mut b = Brain::new();
    assert_eq!(b.state, State { counterA: 0, counterB: 0 });
    b.update(Event::IncrementA);
    assert_eq!(b.state, State { counterA: 1, counterB: 0 });
    b.update(Event::IncrementA);
    assert_eq!(b.state, State { counterA: 2, counterB: 0 });
    b.update(Event::Commit);
    assert_eq!(b.state_history.len(), 1);
    assert_eq!(b.state_history[0], State { counterA: 2, counterB: 0 });
    assert_eq!(b.state, State { counterA: 2, counterB: 0 });
    assert!(!b.canDecrementA());
    b.update(Event::IncrementA);
    assert_eq!(b.state, State { counterA: 3, counterB: 0 });
    assert!(b.canDecrementA());
    b.update(Event::DecrementA);
    assert_eq!(b.state, State { counterA: 2, counterB: 0 });
}

#[test]
fn empty_history_scenario() {
    let mut b = Brain::new();
    b.state = State { counterA: 0, counterB: 5 };
    assert!(b.canDecrementB());
    assert!(!b.canDecrementA());
}

#[test]
fn rollback_on_empty_history_is_a_noop() {
    let mut b = Brain::new();
    b.update(Event::IncrementA);
    b.update(Event::IncrementB);
    let before = b.state;
    b.update(Event::Rollback);
    assert_eq!(b.state, before);
    assert!(b.state_history.is_empty());
}

#[test]
fn commit_is_always_available() {
    let mut b = Brain::new();
    assert!(b.can_commit());
    b.update(Event::IncrementA);
    b.update(Event::Commit);
    assert!(b.can_commit());
}

#[test]
fn persisted_state_round_trips() {
    let mut b = Brain::new();
    b.update(Event::IncrementA);
    b.update(Event::Commit);
    b.update(Event::IncrementB);
    b.update(Event::IncrementB);
    b.update(Event::Commit);
    b.update(Event::IncrementA);
    let bytes = encode(&b);
    let restored = decode(&bytes);
    assert_eq!(restored.state, b.state);
    assert_eq!(restored.state_history, b.state_history);
}

#[test]
fn fresh_session_round_trips_to_two_bytes() {
    let b = Brain::new();
    let bytes = encode(&b);
    assert_eq!(bytes, vec![0u8, 0u8]);
    let restored = decode(&bytes);
    assert_eq!(restored.state, State { counterA: 0, counterB: 0 });
    assert!(restored.state_history.is_empty());
}

#[test]
fn malformed_record_falls_back_to_fresh_session() {
    for bad in [vec![], vec![7u8], vec![1u8, 2u8, 3u8]] {
        let restored = decode(&bad);
        assert_eq!(restored.state, State { counterA: 0, counterB: 0 });
        assert!(restored.state_history.is_empty());
    }
}

#[test]
fn record_layout_is_pairs_oldest_first() {
    let mut b = Brain::new();
    b.update(Event::IncrementA);
    b.update(Event::Commit);
    b.update(Event::IncrementB);
    b.update(Event::Commit);
    let bytes = encode(&b);
    assert_eq!(bytes, vec![1u8, 1u8, 1u8, 0u8, 1u8, 1u8]);
    let restored = decode(&bytes);
    assert_eq!(restored.state, State { counterA: 1, counterB: 1 });
    assert_eq!(
        restored.state_history,
        vec![State { counterA: 1, counterB: 0 }, State { counterA: 1, counterB: 1 }]
    );
}
