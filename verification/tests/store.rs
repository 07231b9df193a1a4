use tally::handlers::{get_state, tap_evil, tap_good};
use tally::state::AppState;

#[test]
fn fresh_store_is_zero() {
    let st = AppState::new();
    let s = st.snapshot();
    assert_eq!(s.good, 0);
    assert_eq!(s.evil, 0);
}

#[test]
fn default_store_is_zero() {
    let st = AppState::default();
    let s = st.snapshot();
    assert_eq!(s.good, 0);
    assert_eq!(s.evil, 0);
}

#[test]
fn tap_scenario_two_good_one_evil() {
    let mut st = AppState::new();
    tap_good(&mut st);
    tap_good(&mut st);
    tap_evil(&mut st);
    let s = get_state(&st);
    assert_eq!(s.good, 2);
    assert_eq!(s.evil, 1);
    let bytes = tally::codec::serialize(&s);
    assert_eq!(bytes, b"{\"good\":2,\"evil\":1}".to_vec());
}

#[test]
fn read_state_is_idempotent() {
    let mut st = AppState::new();
    tap_good(&mut st);
    tap_evil(&mut st);
    let s1 = get_state(&st);
    let s2 = get_state(&st);
    assert_eq!(s1, s2);
}

#[test]
fn good_only_sequence_adds_its_length() {
    let mut st = AppState::new();
    tap_evil(&mut st);
    let before = get_state(&st);
    for _ in 0..7 {
        tap_good(&mut st);
    }
    let after = get_state(&st);
    assert_eq!(after.good, before.good + 7);
    assert_eq!(after.evil, before.evil);
}

#[test]
fn hundred_taps_from_ten_interleaved_callers() {
    let mut st = AppState::new();
    let mut remaining: [u32; 10] = [10; 10];
    // Round-robin over ten simulated callers, ten taps each.
    let mut any_left = true;
    while any_left {
        any_left = false;
        for caller in 0..10 {
            if remaining[caller] > 0 {
                tap_good(&mut st);
                remaining[caller] -= 1;
                any_left = true;
            }
        }
    }
    let s = get_state(&st);
    assert_eq!(s.good, 100);
    assert_eq!(s.evil, 0);
}

#[test]
fn tap_returns_post_mutation_snapshot() {
    let mut st = AppState::new();
    let s1 = tap_good(&mut st);
    assert_eq!(s1.good, 1);
    assert_eq!(s1.evil, 0);
    let s2 = tap_evil(&mut st);
    assert_eq!(s2.good, 1);
    assert_eq!(s2.evil, 1);
}

#[test]
fn tap_saturates_at_i64_max() {
    let mut st = AppState { good: i64::MAX, evil: 0 };
    let s = tap_good(&mut st);
    assert_eq!(s.good, i64::MAX);
    assert_eq!(s.evil, 0);
    let s2 = tap_evil(&mut st);
    assert_eq!(s2.evil, 1);
}
