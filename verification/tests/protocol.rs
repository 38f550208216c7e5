use servicio::client::{
    config_from, service_installed_from, service_status_from,
    daemon_status_from, event_payload, exported_count, imported_count, is_stale, response_for, running_build,
    service_installed_in,
};
use servicio::event::{InstanceStatus as CoreInstance, SupervisorEvent, WorkerStatusCore};
use servicio::ipc::{restart_total, single, text, ApiError, Frame, InstanceStatus as WireInstance};
use servicio::json::Json;
use servicio::logs::{log_record, needs_rotation, rotation_steps};
use servicio::manager::{instance_log_path, instances_for, WorkerTable};
use servicio::serve::{
    count_reply, detect_reply, export_reply, get_reply, group_members, import_items, log_reply, log_tail,
    metrics_cutoff, metrics_reply, shutdown_reply,
    add_reply, forward, info_result, lagged, list_statuses, plan, remove_reply, start_reply, stop_reply, wire_name,
    AddOutcome, ConnAction, Connection, GroupSweep, Lookup, Plan,
};
use servicio::sidecar::{after_startup_attempt, DaemonStarter, EnsureAction, EnsureEvent, StartupStep};
use servicio::state::InstanceState;
use servicio::token::{choose_token, hex_encode, new_token, stored_token, TokenChoice};
use servicio::worker::{RunMode, Schedule, OverlapPolicy};

fn obj(members: Vec<(&str, Json)>) -> Json {
    Json::Object(members.into_iter().map(|(k, v)| (k.to_string(), v)).collect())
}

fn s(t: &str) -> Json {
    Json::Str(t.to_string())
}

fn str_at<'a>(j: &'a Json, key: &str) -> Option<&'a str> {
    j.get(key).and_then(|v| v.as_str())
}

#[test]
fn maps_state_event_frame_to_payload() {
    let frame = Frame::Event {
        topic: "state".into(),
        payload: obj(vec![("worker", s("q")), ("instance", Json::UInt(0)), ("from", s("starting")), ("to", s("running"))]),
    };
    let p = event_payload(frame).unwrap();
    assert_eq!(str_at(&p, "kind"), Some("state"));
    assert_eq!(str_at(&p, "worker"), Some("q"));
    assert_eq!(str_at(&p, "to"), Some("running"));
}

#[test]
fn non_event_frame_maps_to_none() {
    let frame = Frame::Response { id: 1, result: None, error: None };
    assert!(event_payload(frame).is_none());
}

#[test]
fn event_payload_replaces_an_existing_kind() {
    let frame = Frame::Event { topic: "log".into(), payload: obj(vec![("kind", s("old")), ("line", s("x"))]) };
    match event_payload(frame).unwrap() {
        Json::Object(m) => {
            assert_eq!(m.len(), 2);
            assert_eq!(m[0].0, "kind");
            assert!(matches!(&m[0].1, Json::Str(t) if t == "log"));
        }
        _ => panic!("expected an object"),
    }
    let scalar = event_payload(Frame::Event { topic: "t".into(), payload: Json::UInt(3) }).unwrap();
    assert!(matches!(scalar, Json::UInt(3)));
}

#[test]
fn ok_and_err_helpers_build_responses() {
    match Frame::ok(1, single("pong", Json::Bool(true))) {
        Frame::Response { id, result: Some(r), error: None } => {
            assert_eq!(id, 1);
            assert!(matches!(r.get("pong"), Some(Json::Bool(true))));
        }
        _ => panic!("expected ok response"),
    }
    match Frame::err(2, "unauthorized", "bad token") {
        Frame::Response { id: 2, result: None, error: Some(e) } => {
            assert_eq!(e, ApiError { code: "unauthorized".into(), message: "bad token".into() })
        }
        _ => panic!("expected error response"),
    }
}

fn hello(id: u64, token: &str) -> Frame {
    Frame::Request { id, method: "hello".into(), params: single("token", text(token)) }
}

#[test]
fn connection_requires_hello_with_the_right_token() {
    let mut c = Connection::new();
    match c.on_frame("secret", "1.0", Frame::Request { id: 1, method: "ping".into(), params: Json::Null }) {
        ConnAction::ReplyAndClose(Frame::Response { error: Some(e), .. }) => {
            assert_eq!(e.code, "unauthorized");
            assert_eq!(e.message, "valid hello required");
        }
        _ => panic!("expected refusal"),
    }
    let mut c = Connection::new();
    assert!(matches!(c.on_frame("secret", "1.0", hello(1, "wrong")), ConnAction::ReplyAndClose(_)));
    let mut c = Connection::new();
    match c.on_frame("secret", "1.0", hello(1, "secret")) {
        ConnAction::Reply(Frame::Response { id: 1, result: Some(r), .. }) => {
            assert_eq!(str_at(&r, "daemon_version"), Some("1.0"))
        }
        _ => panic!("expected version reply"),
    }
    match c.on_frame("secret", "1.0", Frame::Request { id: 2, method: "ping".into(), params: Json::Null }) {
        ConnAction::Dispatch { id, method, .. } => {
            assert_eq!(id, 2);
            assert_eq!(method, "ping");
        }
        _ => panic!("expected dispatch"),
    }
    let sub = Frame::Request {
        id: 3,
        method: "subscribe".into(),
        params: obj(vec![("topics", Json::Array(vec![s("state"), Json::UInt(1), s("log")])), ("worker", s("q"))]),
    };
    match c.on_frame("secret", "1.0", sub) {
        ConnAction::Subscribe { topics, worker, .. } => {
            assert_eq!(topics, vec!["state".to_string(), "log".to_string()]);
            assert_eq!(worker, Some("q".to_string()));
        }
        _ => panic!("expected subscribe"),
    }
    assert!(matches!(c.on_frame("secret", "1.0", Frame::Event { topic: "x".into(), payload: Json::Null }), ConnAction::Skip));
}

#[test]
fn requests_are_planned_by_method() {
    assert!(matches!(plan(1, "daemon_info", &Json::Null), Plan::DaemonInfo));
    assert!(matches!(plan(1, "list_workers", &Json::Null), Plan::ListWorkers));
    assert!(matches!(plan(1, "add_worker", &Json::Null), Plan::AddWorker));
    match plan(1, "start_worker", &single("name", text("q"))) {
        Plan::StartWorker { name } => assert_eq!(name, "q"),
        _ => panic!(),
    }
    match plan(1, "stop_worker", &Json::Null) {
        Plan::StopWorker { name } => assert_eq!(name, ""),
        _ => panic!(),
    }
    match plan(7, "frobnicate", &Json::Null) {
        Plan::Reply(Frame::Response { id: 7, error: Some(e), .. }) => {
            assert_eq!(e.code, "unknown_method");
            assert_eq!(e.message, "no such method: frobnicate");
        }
        _ => panic!(),
    }
    match plan(1, "ping", &Json::Null) {
        Plan::Reply(Frame::Response { result: Some(r), .. }) => assert!(matches!(r.get("pong"), Some(Json::Bool(true)))),
        _ => panic!(),
    }
}

#[test]
fn replies_for_each_outcome() {
    match start_reply(3, "q", Lookup::Missing) {
        Frame::Response { error: Some(e), .. } => {
            assert_eq!(e.code, "not_found");
            assert_eq!(e.message, "no worker 'q'");
        }
        _ => panic!(),
    }
    match start_reply(3, "q", Lookup::Failed("locked".into())) {
        Frame::Response { error: Some(e), .. } => assert_eq!((e.code.as_str(), e.message.as_str()), ("db_error", "locked")),
        _ => panic!(),
    }
    match stop_reply(4, false) {
        Frame::Response { result: Some(r), .. } => assert!(matches!(r.get("stopped"), Some(Json::Bool(false)))),
        _ => panic!(),
    }
    match remove_reply(5, Ok(true)) {
        Frame::Response { result: Some(r), .. } => assert!(matches!(r.get("removed"), Some(Json::Bool(true)))),
        _ => panic!(),
    }
    match add_reply(6, AddOutcome::BadParams("missing field".into())) {
        Frame::Response { error: Some(e), .. } => assert_eq!(e.code, "bad_params"),
        _ => panic!(),
    }
    match add_reply(6, AddOutcome::Saved("q".into())) {
        Frame::Response { result: Some(r), .. } => assert_eq!(str_at(&r, "name"), Some("q")),
        _ => panic!(),
    }
}

fn worker_core(name: &str, states: &[InstanceState]) -> WorkerStatusCore {
    WorkerStatusCore {
        name: name.into(),
        run_mode: RunMode::Daemon { concurrency: states.len() as u32 },
        instances: states
            .iter()
            .enumerate()
            .map(|(i, st)| CoreInstance { index: i as u32, state: *st, restart_count: 0, pid: None })
            .collect(),
    }
}

#[test]
fn daemon_info_counts_running_workers() {
    let status = vec![
        worker_core("a", &[InstanceState::Running, InstanceState::Backoff]),
        worker_core("b", &[InstanceState::Stopped]),
    ];
    let j = info_result("0.3.1", "b7", 42, &status);
    assert_eq!(str_at(&j, "version"), Some("0.3.1"));
    assert_eq!(str_at(&j, "build"), Some("b7"));
    assert!(matches!(j.get("uptime_secs"), Some(Json::UInt(42))));
    assert!(matches!(j.get("worker_count"), Some(Json::UInt(2))));
    assert!(matches!(j.get("running_count"), Some(Json::UInt(1))));
    let st = daemon_status_from(&j);
    assert!(st.connected);
    assert_eq!(st.version, "0.3.1");
    assert_eq!((st.uptime_secs, st.worker_count, st.running_count), (42, 2, 1));
    let empty = daemon_status_from(&Json::Null);
    assert_eq!((empty.version.as_str(), empty.worker_count), ("", 0));
}

#[test]
fn listed_workers_overlay_live_instances() {
    let specs = vec![
        servicio::daemon::add_worker_spec("a", "sh", &vec![], "/", 1, true),
        servicio::daemon::add_worker_spec("b", "sh", &vec![], "/", 1, true),
    ];
    let live = vec![worker_core("b", &[InstanceState::Running])];
    let out = list_statuses(&specs, live);
    assert_eq!(out.len(), 2);
    assert_eq!(out[0].name, "a");
    assert!(out[0].instances.is_empty());
    assert_eq!(out[1].instances.len(), 1);
    assert_eq!(out[1].instances[0].state, InstanceState::Running);
}

#[test]
fn events_are_forwarded_by_topic_and_worker() {
    let ev = SupervisorEvent::State {
        worker: "q".into(),
        instance: 1,
        from: InstanceState::Starting,
        to: InstanceState::Running,
    };
    let topics = vec!["state".to_string()];
    match forward(&ev, &topics, &None) {
        Some(Frame::Event { topic, payload }) => {
            assert_eq!(topic, "state");
            assert_eq!(str_at(&payload, "worker"), Some("q"));
            assert_eq!(str_at(&payload, "from"), Some("starting"));
            assert_eq!(str_at(&payload, "to"), Some("running"));
        }
        _ => panic!("expected a state event"),
    }
    assert!(forward(&ev, &topics, &Some("other".to_string())).is_none());
    assert!(forward(&ev, &vec!["log".to_string()], &None).is_none());
    let log = SupervisorEvent::Log { worker: "q".into(), instance: 0, stream: "stderr".into(), line: "boom".into() };
    match forward(&log, &vec!["log".to_string()], &Some("q".to_string())) {
        Some(Frame::Event { topic, payload }) => {
            assert_eq!(topic, "log");
            assert_eq!(str_at(&payload, "line"), Some("boom"));
        }
        _ => panic!("expected a log event"),
    }
    assert_eq!(wire_name(InstanceState::Backoff), "backoff");
    match lagged(7) {
        Frame::Event { topic, payload } => {
            assert_eq!(topic, "lagged");
            assert!(matches!(payload.get("dropped"), Some(Json::UInt(7))));
        }
        _ => panic!(),
    }
}

#[test]
fn client_matches_replies_to_requests() {
    let ok = Frame::Response { id: 5, result: Some(Json::Bool(true)), error: None };
    assert!(matches!(response_for(ok, 5), Some(Ok(Json::Bool(true)))));
    let other = Frame::Response { id: 4, result: None, error: None };
    assert!(response_for(other, 5).is_none());
    let empty = Frame::Response { id: 5, result: None, error: None };
    assert!(matches!(response_for(empty, 5), Some(Ok(Json::Null))));
    let err = Frame::err(5, "not_found", "no worker 'q'");
    match response_for(err, 5) {
        Some(Err(m)) => assert_eq!(m, "not_found: no worker 'q'"),
        _ => panic!(),
    }
    assert!(response_for(Frame::Event { topic: "state".into(), payload: Json::Null }, 5).is_none());
}

#[test]
fn stale_daemon_detection() {
    let v1 = Some("v1".to_string());
    let v2 = Some("v2".to_string());
    assert!(!is_stale(&v1, &v1));
    assert!(is_stale(&v1, &v2));
    assert!(is_stale(&v1, &None));
    assert!(!is_stale(&None, &v2));
    assert_eq!(running_build(&single("build", text("v9"))), Some("v9".to_string()));
    assert_eq!(running_build(&single("build", Json::UInt(9))), None);
    assert!(service_installed_in(&single("installed", Json::Bool(true))));
    assert!(!service_installed_in(&single("installed", s("yes"))));
    assert!(!service_installed_in(&Json::Null));
}

#[test]
fn export_and_import_counts() {
    assert_eq!(exported_count(&single("workers", Json::Array(vec![Json::Null, Json::Null]))), 2);
    assert_eq!(exported_count(&Json::Null), 0);
    assert_eq!(imported_count(&single("imported", Json::UInt(3))), 3);
    assert_eq!(imported_count(&single("imported", Json::Int(-1))), 0);
}

#[test]
fn daemon_starter_reuses_a_current_daemon() {
    let (mut st, a) = DaemonStarter::new();
    assert!(matches!(a, EnsureAction::ReadToken));
    assert!(matches!(st.step(EnsureEvent::TokenRead(Some("tok".into()))), EnsureAction::Connect(t) if t == "tok"));
    assert!(matches!(st.step(EnsureEvent::Connected(true)), EnsureAction::CompareBuilds));
    let a = st.step(EnsureEvent::Builds { running: Some("b1".into()), bundled: Some("b1".into()) });
    assert!(matches!(a, EnsureAction::Finish(Ok(t)) if t == "tok"));
    assert!(st.is_finished());
}

#[test]
fn daemon_starter_replaces_a_stale_daemon() {
    let (mut st, _) = DaemonStarter::new();
    st.step(EnsureEvent::TokenRead(Some("old".into())));
    st.step(EnsureEvent::Connected(true));
    let a = st.step(EnsureEvent::Builds { running: None, bundled: Some("b2".into()) });
    assert!(matches!(a, EnsureAction::ShutdownOld));
    assert!(matches!(st.step(EnsureEvent::ShutdownSent), EnsureAction::CheckSocketGone));
    assert!(matches!(st.step(EnsureEvent::SocketGone(false)), EnsureAction::Sleep));
    assert!(matches!(st.step(EnsureEvent::Slept), EnsureAction::CheckSocketGone));
    assert!(matches!(st.step(EnsureEvent::SocketGone(true)), EnsureAction::SpawnDaemon));
    assert!(matches!(st.step(EnsureEvent::Spawned(Ok(()))), EnsureAction::ReadToken));
    assert!(matches!(st.step(EnsureEvent::TokenRead(None)), EnsureAction::Sleep));
    assert!(matches!(st.step(EnsureEvent::Slept), EnsureAction::ReadToken));
    st.step(EnsureEvent::TokenRead(Some("new".into())));
    assert!(matches!(st.step(EnsureEvent::Connected(true)), EnsureAction::Finish(Ok(t)) if t == "new"));
}

#[test]
fn daemon_starter_gives_up_after_fifty_polls() {
    let (mut st, _) = DaemonStarter::new();
    assert!(matches!(st.step(EnsureEvent::TokenRead(None)), EnsureAction::SpawnDaemon));
    st.step(EnsureEvent::Spawned(Ok(())));
    let mut last = EnsureAction::ReadToken;
    for _ in 0..50 {
        assert!(matches!(st.step(EnsureEvent::TokenRead(None)), EnsureAction::Sleep));
        last = st.step(EnsureEvent::Slept);
    }
    assert!(matches!(last, EnsureAction::Finish(Err(m)) if m == "daemon did not become ready"));
    let (mut st, _) = DaemonStarter::new();
    st.step(EnsureEvent::TokenRead(None));
    assert!(matches!(st.step(EnsureEvent::Spawned(Err("no such file".into()))), EnsureAction::Finish(Err(m)) if m == "spawn daemon: no such file"));
}

#[test]
fn writes_tagged_lines_to_file() {
    let rec = log_record(2, "stdout", 1_700_000_000, "processing job");
    assert!(rec.contains("[#2]"));
    assert!(rec.contains("stdout"));
    assert!(rec.contains("processing job"));
    assert_eq!(rec, "[#2] [stdout] [1700000000] processing job\n");
}

#[test]
fn rotation_is_due_past_the_cap() {
    assert!(needs_rotation(0, 11, 10));
    assert!(!needs_rotation(0, 10, 10));
    assert!(needs_rotation(u64::MAX, 1, u64::MAX));
    assert_eq!(rotation_steps(3), vec![2, 1]);
    assert!(rotation_steps(1).is_empty());
    assert!(rotation_steps(0).is_empty());
}

#[test]
fn tokens_are_hex_and_trimmed() {
    assert_eq!(hex_encode(&vec![0x00, 0xab, 0x7f]), "00ab7f");
    assert_eq!(stored_token("  abc\n"), Some("abc".to_string()));
    assert_eq!(stored_token(" \n\t"), None);
    let t = new_token().unwrap();
    assert_eq!(t.len(), 64);
    assert!(t.chars().all(|c| c.is_ascii_hexdigit() && !c.is_ascii_uppercase()));
    assert_ne!(t, new_token().unwrap());
    // a minted token is read back unchanged
    assert_eq!(stored_token(&t), Some(t.clone()));
}

#[test]
fn worker_table_keeps_one_entry_per_name_in_order() {
    let mut t: WorkerTable<u32> = WorkerTable::new();
    assert_eq!(t.insert("b".to_string(), 2), None);
    assert_eq!(t.insert("a".to_string(), 1), None);
    assert_eq!(t.insert("b".to_string(), 3), Some(2));
    assert_eq!(t.len(), 2);
    let names: Vec<&str> = t.entries().iter().map(|e| e.0.as_str()).collect();
    assert_eq!(names, vec!["a", "b"]);
    assert_eq!(t.get("b"), Some(&3));
    assert_eq!(t.remove("a"), Some(1));
    assert_eq!(t.remove("a"), None);
    let all = t.drain();
    assert_eq!(all.len(), 1);
    assert_eq!(t.len(), 0);
}

#[test]
fn instance_counts_and_log_paths() {
    assert_eq!(instances_for(&RunMode::Daemon { concurrency: 0 }), 1);
    assert_eq!(instances_for(&RunMode::Daemon { concurrency: 3 }), 3);
    assert_eq!(instances_for(&RunMode::Batch { run_count: 5, delay_secs: 1 }), 1);
    assert_eq!(
        instances_for(&RunMode::Scheduled { schedule: Schedule::IntervalSecs(5), overlap: OverlapPolicy::Skip }),
        1
    );
    assert_eq!(instance_log_path("/var/log", "q", 12), "/var/log/q-12.log");
}

#[test]
fn every_client_method_is_planned() {
    match plan(1, "get_worker", &single("name", text("q"))) {
        Plan::GetWorker { name } => assert_eq!(name, "q"),
        _ => panic!(),
    }
    assert!(matches!(plan(1, "shutdown", &Json::Null), Plan::Shutdown));
    match plan(1, "metrics", &obj(vec![("worker", s("q")), ("since_secs", Json::UInt(3600))])) {
        Plan::Metrics { worker, since_secs } => assert_eq!((worker.as_str(), since_secs), ("q", 3600)),
        _ => panic!(),
    }
    match plan(1, "metrics", &single("worker", s("q"))) {
        Plan::Metrics { since_secs, .. } => assert_eq!(since_secs, 900),
        _ => panic!(),
    }
    match plan(1, "daemon_log", &single("lines", Json::UInt(10))) {
        Plan::DaemonLog { lines } => assert_eq!(lines, 10),
        _ => panic!(),
    }
    match plan(1, "detect_workers", &single("path", s("/srv/app"))) {
        Plan::DetectWorkers { path } => assert_eq!(path, "/srv/app"),
        _ => panic!(),
    }
    match plan(1, "start_group", &single("group", s("billing"))) {
        Plan::StartGroup { group } => assert_eq!(group, "billing"),
        _ => panic!(),
    }
    match plan(1, "stop_group", &single("group", s("billing"))) {
        Plan::StopGroup { group } => assert_eq!(group, "billing"),
        _ => panic!(),
    }
    assert!(matches!(plan(1, "export_workers", &Json::Null), Plan::ExportWorkers));
    assert!(matches!(plan(1, "import_workers", &Json::Null), Plan::ImportWorkers));
}

#[test]
fn replies_of_the_further_methods() {
    match get_reply(1, "q", Ok(Some(single("name", s("q"))))) {
        Frame::Response { id: 1, result: Some(v), error: None } => assert_eq!(str_at(&v, "name"), Some("q")),
        _ => panic!(),
    }
    match get_reply(1, "q", Ok(None)) {
        Frame::Response { error: Some(e), .. } => assert_eq!((e.code.as_str(), e.message.as_str()), ("not_found", "no worker 'q'")),
        _ => panic!(),
    }
    match shutdown_reply(2) {
        Frame::Response { id: 2, result: Some(v), .. } => assert!(matches!(v.get("shutting_down"), Some(Json::Bool(true)))),
        _ => panic!(),
    }
    match count_reply(3, "started", 2) {
        Frame::Response { result: Some(v), .. } => assert!(matches!(v.get("started"), Some(Json::UInt(2)))),
        _ => panic!(),
    }
    match export_reply(4, vec![Json::Null]) {
        Frame::Response { result: Some(v), .. } => assert!(matches!(v.get("workers"), Some(Json::Array(a)) if a.len() == 1)),
        _ => panic!(),
    }
    assert!(matches!(detect_reply(5, vec![]), Frame::Response { result: Some(Json::Array(_)), .. }));
    match log_reply(6, "line two\n".to_string()) {
        Frame::Response { result: Some(v), .. } => assert_eq!(str_at(&v, "log"), Some("line two\n")),
        _ => panic!(),
    }
}

#[test]
fn daemon_log_keeps_the_last_lines() {
    assert_eq!(log_tail("line one\nline two\n", 10), "line one\nline two\n");
    assert_eq!(log_tail("a\nb\nc\n", 2), "b\nc\n");
    assert_eq!(log_tail("a\nb\nc", 1), "c");
    assert_eq!(log_tail("a\nb\n", 0), "");
}

#[test]
fn import_items_and_groups() {
    let params = single("workers", Json::Array(vec![s("x"), s("y")]));
    assert_eq!(import_items(params).len(), 2);
    assert!(import_items(Json::Null).is_empty());
    let mut a = servicio::daemon::add_worker_spec("a", "sh", &vec![], "/", 1, true);
    a.group = Some("billing".into());
    let mut b = servicio::daemon::add_worker_spec("b", "sh", &vec![], "/", 1, true);
    b.group = Some("billing".into());
    let mut c = servicio::daemon::add_worker_spec("c", "sh", &vec![], "/", 1, true);
    c.group = Some("other".into());
    assert_eq!(group_members(&vec![a, c, b], "billing"), vec![0, 2]);
}

#[test]
fn metrics_series_and_cutoff() {
    assert_eq!(metrics_cutoff(1000, 3600), 0);
    assert_eq!(metrics_cutoff(5000, 3600), 1400);
    let series = vec![(0u32, vec![(100u64, "1.5".to_string(), 1000u64), (200, "2.5".to_string(), 2000)])];
    match metrics_reply(1, &series) {
        Frame::Response { result: Some(Json::Array(a)), .. } => {
            assert_eq!(a.len(), 1);
            assert!(matches!(a[0].get("instance"), Some(Json::UInt(0))));
            match a[0].get("points") {
                Some(Json::Array(p)) => {
                    assert_eq!(p.len(), 2);
                    assert!(matches!(p[1].get("cpu"), Some(Json::Float(t)) if t == "2.5"));
                }
                _ => panic!(),
            }
        }
        _ => panic!(),
    }
}

#[test]
fn service_status_and_config_text() {
    assert!(service_installed_from("{\"installed\": true}\n"));
    assert!(!service_installed_from("{\"installed\": false}"));
    assert!(!service_installed_from("garbage"));
    assert!(service_status_from("garbage").unwrap_err().starts_with("parse service-status: "));
    assert!(matches!(config_from("[1]"), Ok(Json::Array(_))));
    assert!(config_from("{").unwrap_err().starts_with("invalid config: "));
}

#[test]
fn a_stored_token_is_reused_and_a_missing_one_minted() {
    match choose_token(Some("  abc\n")).unwrap() {
        TokenChoice::Reuse(t) => assert_eq!(t, "abc"),
        TokenChoice::Mint(_) => panic!(),
    }
    let minted = match choose_token(None).unwrap() {
        TokenChoice::Mint(t) => t,
        TokenChoice::Reuse(_) => panic!(),
    };
    assert_eq!(minted.len(), 64);
    match choose_token(Some(&minted)).unwrap() {
        TokenChoice::Reuse(t) => assert_eq!(t, minted),
        TokenChoice::Mint(_) => panic!(),
    }
    assert!(matches!(choose_token(Some(" ")).unwrap(), TokenChoice::Mint(_)));
}

#[test]
fn metric_samples_are_forwarded_to_metric_subscribers() {
    let ev = SupervisorEvent::Metric { worker: "q".into(), instance: 2, ts: 1700, cpu: "12.5".into(), mem: 4096 };
    let topics = vec!["state".to_string(), "metric".to_string()];
    match forward(&ev, &topics, &Some("q".to_string())) {
        Some(Frame::Event { topic, payload }) => {
            assert_eq!(topic, "metric");
            assert_eq!(str_at(&payload, "worker"), Some("q"));
            assert!(matches!(payload.get("instance"), Some(Json::UInt(2))));
            assert!(matches!(payload.get("ts"), Some(Json::UInt(1700))));
            assert!(matches!(payload.get("cpu"), Some(Json::Float(t)) if t == "12.5"));
            assert!(matches!(payload.get("mem"), Some(Json::UInt(4096))));
        }
        _ => panic!("expected a metric event"),
    }
    assert!(forward(&ev, &vec!["state".to_string(), "log".to_string()], &None).is_none());
    assert!(forward(&ev, &topics, &Some("other".to_string())).is_none());
}

fn wire_instance(index: u32, restart_count: u32) -> WireInstance {
    WireInstance { index, state: InstanceState::Running, restart_count, pid: None }
}

#[test]
fn ps_restarts_add_up_over_instances() {
    assert_eq!(restart_total(&vec![]), Some(0));
    assert_eq!(restart_total(&vec![wire_instance(0, 2), wire_instance(1, 5), wire_instance(2, 0)]), Some(7));
    assert_eq!(restart_total(&vec![wire_instance(0, u32::MAX), wire_instance(1, 0)]), Some(u32::MAX));
    assert_eq!(restart_total(&vec![wire_instance(0, u32::MAX), wire_instance(1, 1)]), None);
}

#[test]
fn desktop_startup_tries_three_times_half_a_second_apart() {
    assert_eq!(after_startup_attempt(1, true), StartupStep::Ready);
    assert_eq!(after_startup_attempt(1, false), StartupStep::RetryAfter(500));
    assert_eq!(after_startup_attempt(2, false), StartupStep::RetryAfter(500));
    assert_eq!(after_startup_attempt(3, false), StartupStep::GiveUp);
    assert_eq!(after_startup_attempt(3, true), StartupStep::Ready);
}

fn grouped_spec(name: &str, group: &str) -> servicio::worker::WorkerSpec {
    let mut w = servicio::daemon::add_worker_spec(name, "sleep", &vec!["30".to_string()], "/", 1, true);
    w.group = Some(group.to_string());
    w
}

#[test]
fn group_sweep_starts_exactly_the_group_and_counts_it() {
    let specs = vec![grouped_spec("a", "billing"), grouped_spec("c", "other"), grouped_spec("b", "billing")];
    let mut start = GroupSweep::new(&specs, "billing");
    let mut visited = Vec::new();
    while let Some(i) = start.next_member() {
        visited.push(specs[i].name.clone());
        start.record(true);
    }
    assert_eq!(visited, vec!["a".to_string(), "b".to_string()]);
    match start.reply(1, "started") {
        Frame::Response { id: 1, result: Some(v), .. } => assert!(matches!(v.get("started"), Some(Json::UInt(2)))),
        _ => panic!(),
    }
    let mut stop = GroupSweep::new(&specs, "billing");
    let mut first = true;
    while stop.next_member().is_some() {
        stop.record(first);
        first = false;
    }
    match stop.reply(3, "stopped") {
        Frame::Response { id: 3, result: Some(v), .. } => assert!(matches!(v.get("stopped"), Some(Json::UInt(1)))),
        _ => panic!(),
    }
    let none = GroupSweep::new(&specs, "nobody");
    assert!(none.next_member().is_none());
}

#[test]
fn exported_workers_import_item_for_item() {
    let workers = vec![s("q"), s("r")];
    let exported = match export_reply(1, workers) {
        Frame::Response { result: Some(Json::Object(mut m)), .. } => {
            assert_eq!(m.len(), 1);
            assert_eq!(m[0].0, "workers");
            m.remove(0).1
        }
        _ => panic!(),
    };
    let items = import_items(single("workers", exported));
    assert_eq!(items.len(), 2);
    assert!(matches!(&items[0], Json::Str(x) if x == "q"));
    assert!(matches!(&items[1], Json::Str(x) if x == "r"));
}
