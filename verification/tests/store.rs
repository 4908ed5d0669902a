use heartbeat::registry::Registry;
use heartbeat::store::LivenessStore;
use heartbeat::sweeper::{
    decide, is_overdue, Health, LivenessEntry, Transition, LIVENESS_THRESHOLD_NANOS,
    SWEEP_INTERVAL_SECS,
};

const A: u128 = 0x11111111_1111_1111_1111_111111111111;
const B: u128 = 0x22222222_2222_2222_2222_222222222222;
const C: u128 = 0x33333333_3333_3333_3333_333333333333;
const SECOND: u64 = 1_000_000_000;

fn registry_of(ids: &[u128]) -> Registry {
    let mut registry = Registry::new();
    for (n, id) in ids.iter().enumerate() {
        registry.insert(*id, format!("server-{}", n));
    }
    registry
}

fn sorted(mut events: Vec<Transition>) -> Vec<Transition> {
    events.sort_by_key(|t| t.id);
    events
}

#[test]
fn threshold_and_interval_have_their_values() {
    assert_eq!(LIVENESS_THRESHOLD_NANOS, 10_000_000_000);
    assert_eq!(SWEEP_INTERVAL_SECS, 5);
}

#[test]
fn exactly_ten_seconds_are_not_overdue() {
    assert!(!is_overdue(10 * SECOND, 0));
    assert!(!is_overdue(25 * SECOND, 15 * SECOND));
    assert!(is_overdue(10 * SECOND + 1, 0));
    assert!(is_overdue(u64::MAX, 0));
}

#[test]
fn a_heartbeat_from_the_future_is_not_overdue() {
    assert!(!is_overdue(5 * SECOND, 100 * SECOND));
    assert!(!is_overdue(0, u64::MAX));
}

#[test]
fn decide_follows_the_state_machine() {
    let up = LivenessEntry { last_seen: 0, health: Health::Up };
    let down = LivenessEntry { last_seen: 0, health: Health::Down };
    assert_eq!(decide(10 * SECOND, up), None);
    assert_eq!(decide(10 * SECOND + 1, up), Some(Health::Down));
    assert_eq!(decide(10 * SECOND + 1, down), None);
    assert_eq!(decide(10 * SECOND, down), Some(Health::Up));
}

#[test]
fn every_server_starts_up() {
    let store = LivenessStore::new(&registry_of(&[A, B, C]), 7 * SECOND);
    assert_eq!(store.len(), 3);
    let mut ids = store.ids();
    ids.sort();
    assert_eq!(ids, vec![A, B, C]);
    for id in [A, B, C] {
        assert_eq!(
            store.get(id),
            Some(LivenessEntry { last_seen: 7 * SECOND, health: Health::Up })
        );
        assert!(!store.is_down(id));
    }
    assert!(store.down_ids().is_empty());
}

#[test]
fn a_store_for_no_servers_is_empty() {
    let mut store = LivenessStore::new(&Registry::new(), 0);
    assert_eq!(store.len(), 0);
    assert!(store.sweep(100 * SECOND).is_empty());
    assert!(store.down_ids().is_empty());
}

#[test]
fn touch_sets_the_heartbeat_time_of_a_known_server() {
    let mut store = LivenessStore::new(&registry_of(&[A, B]), 0);
    assert!(store.touch(A, 3 * SECOND));
    assert_eq!(store.get(A), Some(LivenessEntry { last_seen: 3 * SECOND, health: Health::Up }));
    assert_eq!(store.get(B), Some(LivenessEntry { last_seen: 0, health: Health::Up }));
}

#[test]
fn touch_of_an_unknown_identifier_creates_no_entry() {
    let mut store = LivenessStore::new(&registry_of(&[A]), 0);
    assert!(!store.touch(B, 3 * SECOND));
    assert_eq!(store.len(), 1);
    assert_eq!(store.get(B), None);
    assert_eq!(store.get(A), Some(LivenessEntry { last_seen: 0, health: Health::Up }));
    assert!(!store.is_down(B));
}

#[test]
fn touch_does_not_change_the_state() {
    let mut store = LivenessStore::new(&registry_of(&[A]), 0);
    store.sweep(11 * SECOND);
    assert!(store.is_down(A));
    assert!(store.touch(A, 12 * SECOND));
    assert!(store.is_down(A));
    assert_eq!(
        store.get(A),
        Some(LivenessEntry { last_seen: 12 * SECOND, health: Health::Down })
    );
}

#[test]
fn sweep_at_exactly_ten_seconds_reports_nothing() {
    let mut store = LivenessStore::new(&registry_of(&[A]), 0);
    assert!(store.sweep(10 * SECOND).is_empty());
    assert!(!store.is_down(A));
}

#[test]
fn sweep_past_ten_seconds_reports_down() {
    let mut store = LivenessStore::new(&registry_of(&[A]), 0);
    assert_eq!(store.sweep(10 * SECOND + 1), vec![Transition { id: A, to: Health::Down }]);
    assert!(store.is_down(A));
    assert_eq!(store.down_ids(), vec![A]);
    assert_eq!(store.get(A), Some(LivenessEntry { last_seen: 0, health: Health::Down }));
}

#[test]
fn a_silent_server_is_reported_down_once() {
    let mut store = LivenessStore::new(&registry_of(&[A]), 0);
    let mut downs = 0;
    let mut ups = 0;
    for pass in 1..=10u64 {
        for t in store.sweep(pass * 5 * SECOND) {
            assert_eq!(t.id, A);
            match t.to {
                Health::Down => downs += 1,
                Health::Up => ups += 1,
            }
        }
    }
    assert_eq!(downs, 1);
    assert_eq!(ups, 0);
    assert!(store.is_down(A));
}

#[test]
fn a_second_pass_over_a_down_server_reports_nothing() {
    let mut store = LivenessStore::new(&registry_of(&[A]), 0);
    assert_eq!(store.sweep(15 * SECOND).len(), 1);
    assert!(store.sweep(20 * SECOND).is_empty());
    assert!(store.sweep(25 * SECOND).is_empty());
    assert!(store.is_down(A));
}

#[test]
fn a_repeated_pass_reports_nothing() {
    let mut store = LivenessStore::new(&registry_of(&[A, B]), 0);
    store.touch(B, 10 * SECOND);
    assert_eq!(store.sweep(15 * SECOND), vec![Transition { id: A, to: Health::Down }]);
    assert!(store.sweep(15 * SECOND).is_empty());
}

#[test]
fn a_heartbeat_after_down_is_reported_up_once() {
    let mut store = LivenessStore::new(&registry_of(&[A]), 0);
    assert_eq!(store.sweep(15 * SECOND), vec![Transition { id: A, to: Health::Down }]);
    assert!(store.touch(A, 16 * SECOND));
    assert_eq!(store.sweep(20 * SECOND), vec![Transition { id: A, to: Health::Up }]);
    assert!(!store.is_down(A));
    assert!(store.down_ids().is_empty());
    assert!(store.sweep(25 * SECOND).is_empty());
    assert!(store.sweep(26 * SECOND).is_empty());
}

#[test]
fn a_late_heartbeat_that_is_overdue_again_keeps_the_server_down() {
    let mut store = LivenessStore::new(&registry_of(&[A]), 0);
    store.sweep(15 * SECOND);
    store.touch(A, 16 * SECOND);
    assert!(store.sweep(26 * SECOND + 1).is_empty());
    assert!(store.is_down(A));
}

#[test]
fn sweep_judges_every_server_on_its_own_heartbeat() {
    let mut store = LivenessStore::new(&registry_of(&[A, B, C]), 0);
    store.touch(B, 8 * SECOND);
    let events = sorted(store.sweep(12 * SECOND));
    assert_eq!(
        events,
        vec![Transition { id: A, to: Health::Down }, Transition { id: C, to: Health::Down }]
    );
    let mut down = store.down_ids();
    down.sort();
    assert_eq!(down, vec![A, C]);
    store.touch(A, 13 * SECOND);
    let events = sorted(store.sweep(19 * SECOND));
    assert_eq!(
        events,
        vec![Transition { id: A, to: Health::Up }, Transition { id: B, to: Health::Down }]
    );
    let mut down = store.down_ids();
    down.sort();
    assert_eq!(down, vec![B, C]);
}

#[test]
fn sweep_leaves_heartbeat_times_alone() {
    let mut store = LivenessStore::new(&registry_of(&[A, B]), 2 * SECOND);
    store.touch(B, 9 * SECOND);
    store.sweep(30 * SECOND);
    assert_eq!(store.get(A).map(|e| e.last_seen), Some(2 * SECOND));
    assert_eq!(store.get(B).map(|e| e.last_seen), Some(9 * SECOND));
    assert_eq!(store.len(), 2);
}
