use servicio::backoff::Backoff;
use servicio::duration::Duration;
use servicio::error::CoreError;
use servicio::state::InstanceState;
use servicio::worker::{RestartKind, RestartPolicy};

fn b() -> Backoff {
    Backoff::new(Duration::from_secs(1), Duration::from_secs(60), 5, Duration::from_secs(30))
}

#[test]
fn first_delay_is_base() {
    assert_eq!(b().delay_for_attempt(1), Duration::from_secs(1));
}

#[test]
fn delay_doubles_each_attempt() {
    let bo = b();
    assert_eq!(bo.delay_for_attempt(2), Duration::from_secs(2));
    assert_eq!(bo.delay_for_attempt(3), Duration::from_secs(4));
    assert_eq!(bo.delay_for_attempt(4), Duration::from_secs(8));
}

#[test]
fn delay_is_capped_at_max() {
    // attempt 10 would be 512s uncapped; cap is 60s.
    assert_eq!(b().delay_for_attempt(10), Duration::from_secs(60));
}

#[test]
fn crash_loop_trips_after_max_retries() {
    assert!(!b().is_crash_loop(5)); // exactly at limit is still allowed
    assert!(b().is_crash_loop(6)); // one past the limit trips
}

#[test]
fn uptime_beyond_reset_window_resets_counter() {
    let bo = b();
    assert!(bo.should_reset(Duration::from_secs(31)));
    assert!(!bo.should_reset(Duration::from_secs(29)));
}

#[test]
fn legal_path_running_to_crashed_to_backoff() {
    assert!(InstanceState::Starting.can_transition_to(InstanceState::Running));
    assert!(InstanceState::Running.can_transition_to(InstanceState::Crashed));
    assert!(InstanceState::Crashed.can_transition_to(InstanceState::Backoff));
    assert!(InstanceState::Backoff.can_transition_to(InstanceState::Starting));
}

#[test]
fn clean_exit_and_log_failure_edges_are_legal() {
    assert!(InstanceState::Running.can_transition_to(InstanceState::Stopped));
    assert!(InstanceState::Stopped.can_transition_to(InstanceState::Failed));
}

#[test]
fn illegal_transition_is_rejected() {
    assert!(!InstanceState::Stopped.can_transition_to(InstanceState::Running));
}

#[test]
fn transition_returns_error_when_illegal() {
    let err = InstanceState::Stopped.transition_to(InstanceState::Running).unwrap_err();
    assert!(matches!(err, CoreError::BadTransition { .. }));
}

#[test]
fn is_terminal_only_for_stopped_and_failed() {
    assert!(InstanceState::Stopped.is_terminal());
    assert!(InstanceState::Failed.is_terminal());
    assert!(!InstanceState::Running.is_terminal());
}

#[test]
fn scheduled_idle_run_cycle_is_legal() {
    assert!(InstanceState::Running.can_transition_to(InstanceState::Idle));
    assert!(InstanceState::Idle.can_transition_to(InstanceState::Starting));
}

#[test]
fn batch_completion_is_terminal() {
    assert!(InstanceState::Running.can_transition_to(InstanceState::Completed));
    assert!(InstanceState::Completed.is_terminal());
}

#[test]
fn default_restart_policy_is_on_failure() {
    let p = RestartPolicy::default();
    assert_eq!(p.kind, RestartKind::OnFailure);
    assert_eq!(p.max_retries, 5);
}

// Further cases of the same functions.

#[test]
fn attempt_zero_has_no_delay() {
    assert_eq!(b().delay_for_attempt(0), Duration::zero());
}

#[test]
fn huge_attempt_saturates_to_the_cap() {
    assert_eq!(b().delay_for_attempt(u32::MAX), Duration::from_secs(60));
    let big = Backoff::new(Duration::from_secs(u64::MAX), Duration::from_secs(u64::MAX), 1, Duration::zero());
    assert_eq!(big.delay_for_attempt(3), Duration::from_secs(u64::MAX));
}

#[test]
fn uptime_equal_to_window_does_not_reset() {
    assert!(!b().should_reset(Duration::from_secs(30)));
    assert!(b().should_reset(Duration::new(30, 1)));
}

#[test]
fn bad_transition_names_both_states() {
    match InstanceState::Completed.transition_to(InstanceState::Running) {
        Err(CoreError::BadTransition { from, to }) => {
            assert_eq!(from, "Completed");
            assert_eq!(to, "Running");
        }
        other => panic!("unexpected {:?}", other),
    }
    assert_eq!(InstanceState::Starting.transition_to(InstanceState::Running), Ok(InstanceState::Running));
}

#[test]
fn duration_min_and_order() {
    let a = Duration::new(2, 5);
    let c = Duration::from_secs(3);
    assert_eq!(a.min(c), a);
    assert_eq!(c.min(a), a);
    assert!(c.longer_than(&a));
    assert!(!a.longer_than(&a));
    assert_eq!(a.as_secs(), 2);
    assert_eq!(a.subsec_nanos(), 5);
    assert!(Duration::zero().is_zero());
}

#[test]
fn sub_second_base_is_scaled_whole() {
    let bo = Backoff::new(Duration::new(1, 500_000_000), Duration::from_secs(60), 5, Duration::from_secs(30));
    assert_eq!(bo.delay_for_attempt(1), Duration::new(1, 500_000_000));
    assert_eq!(bo.delay_for_attempt(2), Duration::from_secs(3));
    assert_eq!(bo.delay_for_attempt(3), Duration::from_secs(6));
    let tiny = Backoff::new(Duration::new(0, 1), Duration::new(u64::MAX, 999_999_999), 1, Duration::zero());
    assert_eq!(tiny.delay_for_attempt(200), Duration::new(u64::MAX, 999_999_999));
    assert_eq!(tiny.delay_for_attempt(4), Duration::new(0, 8));
}

#[test]
fn duration_new_carries_whole_seconds_of_nanos() {
    let d = Duration::new(1, 2_500_000_000);
    assert_eq!(d.as_secs(), 3);
    assert_eq!(d.subsec_nanos(), 500_000_000);
    assert_eq!(Duration::new(0, 999_999_999).as_secs(), 0);
}
