use agent::api::{history_for_query, ApiError, SystemQuery};
use agent::auth::AuthError;
use agent::config::Config;
use agent::scheduler::{CycleEvent, Phase, Scheduler};
use agent::snapshot::SystemSnapshot;
use agent::state::AppState;

fn config_with_limit(limit: usize) -> Config {
    Config::new("k".to_string(), "127.0.0.1:7000".to_string(), "data".to_string(), limit, 1000)
}

fn timestamps(s: &[SystemSnapshot]) -> Vec<i64> {
    s.iter().map(|x| x.timestamp).collect()
}

#[test]
fn history_keeps_newest_three() {
    let mut state = AppState::new(config_with_limit(3), SystemSnapshot::empty_at(1));
    for ts in 2..=4 {
        state.record_snapshot(SystemSnapshot::empty_at(ts));
    }
    assert_eq!(timestamps(state.history(10)), vec![4, 3, 2]);
    assert_eq!(state.latest_snapshot().timestamp, 4);
}

#[test]
fn history_never_exceeds_limit() {
    let mut state = AppState::new(config_with_limit(5), SystemSnapshot::empty_at(0));
    for ts in 1..=12 {
        state.record_snapshot(SystemSnapshot::empty_at(ts));
        assert!(state.history(usize::MAX).len() <= 5);
    }
    assert_eq!(timestamps(state.history(usize::MAX)), vec![12, 11, 10, 9, 8]);
    assert_eq!(timestamps(state.history(2)), vec![12, 11]);
    assert!(state.history(0).is_empty());
}

#[test]
fn history_with_zero_limit_keeps_latest_only() {
    let mut state = AppState::new(config_with_limit(0), SystemSnapshot::empty_at(1));
    assert!(state.history(10).is_empty());
    state.record_snapshot(SystemSnapshot::empty_at(2));
    assert!(state.history(10).is_empty());
    assert_eq!(state.latest_snapshot().timestamp, 2);
}

#[test]
fn history_query_caps_and_filters() {
    let mut state = AppState::new(config_with_limit(4), SystemSnapshot::empty_at(10));
    for ts in [20, 30, 40, 50] {
        state.record_snapshot(SystemSnapshot::empty_at(ts));
    }
    let q = |limit: Option<usize>, from: Option<i64>, to: Option<i64>| SystemQuery {
        limit,
        from,
        to,
        auth_params: Vec::new(),
    };
    let all: Vec<i64> = history_for_query(&state, &q(None, None, None)).iter().map(|s| s.timestamp).collect();
    assert_eq!(all, vec![50, 40, 30, 20]);
    let capped: Vec<i64> = history_for_query(&state, &q(Some(100), None, None)).iter().map(|s| s.timestamp).collect();
    assert_eq!(capped, vec![50, 40, 30, 20]);
    let two: Vec<i64> = history_for_query(&state, &q(Some(2), None, None)).iter().map(|s| s.timestamp).collect();
    assert_eq!(two, vec![50, 40]);
    let ranged: Vec<i64> = history_for_query(&state, &q(None, Some(25), Some(45))).iter().map(|s| s.timestamp).collect();
    assert_eq!(ranged, vec![40, 30]);
}

#[test]
fn auth_error_maps_to_unauthorized() {
    assert_eq!(ApiError::from(AuthError::Unauthorized), ApiError::Unauthorized);
}

#[test]
fn scheduler_keeps_previous_across_failures() {
    let mut s = Scheduler::new(2000);
    assert_eq!(s.phase(), Phase::Idle);
    assert!(s.previous().is_none());
    s.begin_cycle();
    assert_eq!(s.phase(), Phase::Sampling);
    let a = s.end_cycle(CycleEvent::Sampled(SystemSnapshot::empty_at(7)));
    assert!(a.store);
    assert_eq!(a.wait_ms, 2000);
    assert_eq!(s.previous().as_ref().map(|p| p.timestamp), Some(7));
    s.begin_cycle();
    let b = s.end_cycle(CycleEvent::Failed);
    assert!(!b.store);
    assert_eq!(b.wait_ms, 2000);
    assert_eq!(s.previous().as_ref().map(|p| p.timestamp), Some(7));
    assert_eq!(s.phase(), Phase::Idle);
}
