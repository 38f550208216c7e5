use chrono::TimeZone;
use servicio::duration::Duration;
use servicio::error::CoreError;
use servicio::metrics::group_by_instance;
use servicio::process::{augmented_path, TokioProcess};
use servicio::sampler::{sample_targets, SamplerClock, PRUNE_EVERY_TICKS, SAMPLE_INTERVAL_SECS};
use servicio::schedule::{delay_from_cron, next_delay, normalize_cron};
use servicio::event::{InstanceStatus, WorkerStatusCore};
use servicio::state::InstanceState;
use servicio::supervisor::{
    exit_states, spawn_outcome, BatchLoop, BatchNext, DaemonLoop, DaemonNext, InstanceCore, StateChange,
};
use servicio::worker::{RestartKind, RestartPolicy, RunMode, Schedule, WorkerSpec};
use std::collections::BTreeMap;

fn now_unix() -> (i64, u32) {
    let now = chrono::Utc::now();
    (now.timestamp(), now.timestamp_subsec_nanos())
}

#[test]
fn interval_delay_is_constant() {
    let d = next_delay(&Schedule::IntervalSecs(30), now_unix().0, now_unix().1).unwrap();
    assert_eq!(d, Duration::from_secs(30));
}

#[test]
fn cron_daily_3am_next_delay_is_positive_and_bounded() {
    let from = chrono::Utc.with_ymd_and_hms(2026, 1, 1, 0, 30, 0).unwrap().timestamp();
    let d = next_delay(&Schedule::Cron("0 3 * * *".into()), from, 0).unwrap();
    assert_eq!(d, Duration::from_secs((2 * 60 + 30) * 60));
}

#[test]
fn invalid_cron_is_error() {
    assert!(next_delay(&Schedule::Cron("not a cron".into()), now_unix().0, now_unix().1).is_err());
}

#[test]
fn invalid_cron_message_names_the_expression() {
    match next_delay(&Schedule::Cron("not a cron".into()), 0, 0) {
        Err(CoreError::Spawn(m)) => {
            assert_eq!(m, "invalid cron 'not a cron': Invalid expression: Invalid cron expression.")
        }
        other => panic!("unexpected {:?}", other),
    }
}

#[test]
fn six_field_cron_is_kept_and_five_gets_seconds() {
    assert_eq!(normalize_cron("0 3 * * *"), "0 0 3 * * *");
    assert_eq!(normalize_cron("30 0 3 * * *"), "30 0 3 * * *");
    let from = chrono::Utc.with_ymd_and_hms(2026, 1, 1, 0, 30, 0).unwrap().timestamp();
    // every minute, at second 0: the next fire is 60 s away.
    assert_eq!(next_delay(&Schedule::Cron("* * * * *".into()), from, 0).unwrap(), Duration::from_secs(60));
}

#[test]
fn cron_outcomes_map_to_delays_and_errors() {
    assert_eq!(delay_from_cron("x", 100, 0, Ok(Some(160))), Ok(Duration::from_secs(60)));
    assert_eq!(delay_from_cron("x", 100, 500_000_000, Ok(Some(160))), Ok(Duration::from_secs(59)));
    assert_eq!(delay_from_cron("x", 100, 0, Ok(Some(90))), Ok(Duration::from_secs(0)));
    assert_eq!(
        delay_from_cron("x", 100, 0, Ok(None)),
        Err(CoreError::Spawn("cron 'x' has no next time".to_string()))
    );
    assert_eq!(
        delay_from_cron("x", 100, 0, Err("bad field".to_string())),
        Err(CoreError::Spawn("invalid cron 'x': bad field".to_string()))
    );
}

#[test]
fn augmented_path_includes_local_and_brew() {
    let p = augmented_path("/proj", None, None, None);
    assert!(p.contains("/proj/node_modules/.bin"));
    assert!(p.contains("/opt/homebrew/bin"));
    let custom = "/custom".to_string();
    assert_eq!(augmented_path("/proj", Some(&custom), None, None), "/custom");
}

#[test]
fn augmented_path_exact_order() {
    let home = "/home/u".to_string();
    let inherited = "/usr/bin".to_string();
    assert_eq!(
        augmented_path("/proj", None, Some(&home), Some(&inherited)),
        "/proj/node_modules/.bin:/proj/vendor/bin:/opt/homebrew/bin:/opt/homebrew/sbin:/usr/local/bin:/usr/local/sbin:/home/u/.cargo/bin:/home/u/.local/bin:/usr/bin"
    );
    let empty = String::new();
    assert!(augmented_path("/p", None, None, Some(&empty)).ends_with(":/usr/bin:/bin:/usr/sbin:/sbin"));
}

fn spec(cmd: &str, args: &[&str], dir: &str) -> WorkerSpec {
    WorkerSpec {
        name: "t".into(),
        command: cmd.into(),
        args: args.iter().map(|s| s.to_string()).collect(),
        working_dir: dir.into(),
        env: BTreeMap::new(),
        run_mode: RunMode::Daemon { concurrency: 1 },
        restart: RestartPolicy::default(),
        autostart: false,
        enabled: true,
        group: None,
        tags: Vec::new(),
        display_name: None,
    }
}

#[test]
fn missing_working_dir_is_rejected_by_the_plan() {
    let s = spec("echo", &["x"], "/no/such/dir/servicio-xyz");
    match TokioProcess.plan(&s, false, None, None, None) {
        Err(CoreError::MissingWorkingDir(d)) => assert_eq!(d, "/no/such/dir/servicio-xyz"),
        _ => panic!("expected a missing-dir error"),
    }
    let ok = TokioProcess.plan(&spec("echo", &["hello"], "/"), true, None, None, None).unwrap();
    assert_eq!(ok.program, "echo");
    assert_eq!(ok.args, vec!["hello".to_string()]);
    assert_eq!(ok.working_dir, "/");
    assert!(ok.path.starts_with("/node_modules/.bin:/vendor/bin:"));
}

#[test]
fn sampler_prunes_about_hourly() {
    assert_eq!(PRUNE_EVERY_TICKS * SAMPLE_INTERVAL_SECS, 3600);
    let mut c = SamplerClock::new();
    for t in 1..PRUNE_EVERY_TICKS {
        assert_eq!(c.tick(1000 + t, 600), None);
    }
    assert_eq!(c.tick(5000, 600), Some(4400));
    assert_eq!(c.tick(5002, 600), None);
    let mut c2 = SamplerClock::new();
    let mut last = None;
    for _ in 0..PRUNE_EVERY_TICKS {
        last = c2.tick(5, 600);
    }
    assert_eq!(last, Some(0));
}

#[test]
fn sampler_targets_only_instances_with_pids() {
    let inst = |index, pid| InstanceStatus { index, state: InstanceState::Running, restart_count: 0, pid };
    let snap = vec![
        WorkerStatusCore { name: "a".into(), run_mode: RunMode::Daemon { concurrency: 2 }, instances: vec![inst(0, Some(11)), inst(1, None)] },
        WorkerStatusCore { name: "b".into(), run_mode: RunMode::Daemon { concurrency: 1 }, instances: vec![inst(0, Some(22))] },
    ];
    let t = sample_targets(&snap);
    assert_eq!(t.len(), 2);
    assert_eq!((t[0].worker.as_str(), t[0].instance, t[0].pid), ("a", 0, 11));
    assert_eq!((t[1].worker.as_str(), t[1].instance, t[1].pid), ("b", 0, 22));
}

#[test]
fn metric_rows_group_into_series_per_instance() {
    let rows: Vec<(u32, (u64, f32, u64))> = vec![(0, (100, 1.5, 1000)), (0, (200, 2.5, 2000)), (1, (200, 0.5, 500))];
    let g = group_by_instance(&rows);
    assert_eq!(g.len(), 2);
    assert_eq!(g[0].0, 0);
    assert_eq!(g[0].1.len(), 2);
    assert_eq!(g[1].0, 1);
    assert_eq!(g[1].1, vec![(200, 0.5, 500)]);
    let empty: Vec<(u32, u8)> = Vec::new();
    assert!(group_by_instance(&empty).is_empty());
    let back_and_forth = vec![(1u32, 1u8), (2, 2), (1, 3)];
    assert_eq!(group_by_instance(&back_and_forth).len(), 3);
}

fn policy(kind: RestartKind, max_retries: u32) -> RestartPolicy {
    RestartPolicy { kind, max_retries, base_secs: 1, max_secs: 60, reset_window_secs: 30 }
}

#[test]
fn never_policy_stops_after_the_first_exit() {
    let mut l = DaemonLoop::new(&policy(RestartKind::Never, 5));
    assert!(matches!(l.after_run(false, Duration::from_secs(1)), DaemonNext::Stop));
    assert_eq!(l.retries(), 0);
}

#[test]
fn on_failure_retries_until_the_crash_loop_guard() {
    let mut l = DaemonLoop::new(&policy(RestartKind::OnFailure, 2));
    match l.after_run(false, Duration::zero()) {
        DaemonNext::Retry { attempt, delay } => {
            assert_eq!(attempt, 1);
            assert_eq!(delay, Duration::from_secs(1));
        }
        other => panic!("unexpected {:?}", other),
    }
    match l.after_run(false, Duration::zero()) {
        DaemonNext::Retry { attempt, delay } => {
            assert_eq!(attempt, 2);
            assert_eq!(delay, Duration::from_secs(2));
        }
        other => panic!("unexpected {:?}", other),
    }
    let give_up = l.after_run(false, Duration::zero());
    assert!(matches!(give_up, DaemonNext::GiveUp));
    assert_eq!(l.retries(), 2);
    assert_eq!(exit_states(&give_up), vec![InstanceState::Crashed, InstanceState::Failed]);
}

#[test]
fn long_uptime_clears_the_retry_count() {
    let mut l = DaemonLoop::new(&policy(RestartKind::Always, 1));
    assert!(matches!(l.after_run(true, Duration::zero()), DaemonNext::Retry { attempt: 1, .. }));
    assert!(matches!(l.after_run(true, Duration::from_secs(31)), DaemonNext::Retry { attempt: 1, .. }));
    assert!(matches!(l.after_run(true, Duration::from_secs(1)), DaemonNext::GiveUp));
    assert!(matches!(l.after_run(true, Duration::from_secs(1)), DaemonNext::GiveUp));
}

#[test]
fn clean_exit_under_on_failure_stops() {
    let mut l = DaemonLoop::new(&policy(RestartKind::OnFailure, 5));
    let n = l.after_run(true, Duration::from_secs(1));
    assert_eq!(exit_states(&n), vec![InstanceState::Stopped]);
    assert_eq!(spawn_outcome(true), InstanceState::Running);
    assert_eq!(spawn_outcome(false), InstanceState::Crashed);
}

#[test]
fn batch_runs_n_times_then_completes_or_fails() {
    let mut b = BatchLoop::new(3, 0);
    assert!(matches!(b.start(), BatchNext::Run));
    assert!(matches!(b.after_run(true), BatchNext::Run));
    assert!(matches!(b.after_run(true), BatchNext::Run));
    assert!(matches!(b.after_run(true), BatchNext::Finish(InstanceState::Completed)));

    let mut p = BatchLoop::new(2, 5);
    match p.after_run(false) {
        BatchNext::Pause(d) => assert_eq!(d, Duration::from_secs(5)),
        other => panic!("unexpected {:?}", other),
    }
    assert!(matches!(p.after_run(true), BatchNext::Finish(InstanceState::Failed)));
    assert!(matches!(BatchLoop::new(0, 1).start(), BatchNext::Finish(InstanceState::Completed)));
}

#[test]
fn instance_core_publishes_changes() {
    let mut c = InstanceCore::new(1, "q".to_string());
    assert_eq!(c.state(), InstanceState::Stopped);
    assert_eq!(c.pid(), None);
    assert_eq!(c.set_state(InstanceState::Starting), (Some(StateChange { from: InstanceState::Stopped, to: InstanceState::Starting }), true));
    assert_eq!(c.set_state(InstanceState::Starting), (None, true));
    assert_eq!(c.set_state(InstanceState::Idle).1, false);
    c.set_pid(Some(42));
    c.set_restarts(3);
    assert_eq!(c.pid(), Some(42));
    assert_eq!(c.restart_count(), 3);
    assert_eq!(c.index(), 1);
    assert_eq!(c.worker_name(), "q");
}
