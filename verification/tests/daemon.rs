use servicio::daemon::{add_worker_spec, service_spec};
use servicio::paths::{endpoint, join, socket_path, token_path, Paths};
use servicio::service::{launchd_plist, systemd_unit, ServiceSpec};
use servicio::worker::{RestartKind, RunMode};

#[test]
fn paths_are_under_base() {
    let p = Paths::new("/tmp/x".to_string());
    assert_eq!(p.socket(), "/tmp/x/daemon.sock");
    assert_eq!(p.token(), "/tmp/x/token");
    assert_eq!(p.lock(), "/tmp/x/daemon.lock");
}

fn spec() -> ServiceSpec {
    ServiceSpec {
        label: "com.servicio.daemon".into(),
        exe: "/usr/local/bin/servicio-daemon".into(),
        base: "/tmp/servicio".into(),
    }
}

#[test]
fn launchd_plist_has_run_at_load_and_program_args() {
    let p = launchd_plist(&spec());
    assert!(p.contains("<key>RunAtLoad</key>"));
    assert!(p.contains("<true/>"));
    assert!(p.contains("com.servicio.daemon"));
    assert!(p.contains("/usr/local/bin/servicio-daemon"));
    assert!(p.contains("serve"));
    assert!(p.contains("--base"));
    assert!(p.contains("/tmp/servicio"));
}

#[test]
fn systemd_unit_has_execstart_and_wantedby() {
    let u = systemd_unit(&spec());
    assert!(u.contains("ExecStart=/usr/local/bin/servicio-daemon serve --base /tmp/servicio"));
    assert!(u.contains("Restart=always"));
    assert!(u.contains("WantedBy=default.target"));
}

#[test]
fn systemd_unit_exact_text() {
    let u = systemd_unit(&spec());
    assert_eq!(
        u,
        "[Unit]\nDescription=Servicio supervisor daemon\nAfter=default.target\n\n[Service]\nExecStart=/usr/local/bin/servicio-daemon serve --base /tmp/servicio\nRestart=always\nRestartSec=2\n\n[Install]\nWantedBy=default.target\n"
    );
}

#[test]
fn db_path_and_trailing_separator() {
    assert_eq!(Paths::new("/tmp/x/".to_string()).db(), "/tmp/x/servicio.db");
    assert_eq!(Paths::new(String::new()).token(), "token");
    assert_eq!(join("a", "b/c"), "a/b/c");
}

#[test]
fn sidecar_paths_and_endpoint() {
    assert_eq!(socket_path("/run/u/servicio"), "/run/u/servicio/daemon.sock");
    assert_eq!(token_path("/run/u/servicio"), "/run/u/servicio/token");
    assert_eq!(endpoint("/run/u/servicio"), "/run/u/servicio/daemon.sock");
}

#[test]
fn service_spec_uses_fixed_label() {
    let s = service_spec("/bin/d".to_string(), "/b".to_string());
    assert_eq!(s.label, "com.servicio.daemon");
    assert_eq!(s.exe, "/bin/d");
    assert_eq!(s.base, "/b");
}

#[test]
fn add_worker_builds_daemon_spec() {
    let args = vec!["-c".to_string(), "sleep 1".to_string()];
    let w = add_worker_spec("q", "sh", &args, "/srv", 3, false);
    assert_eq!(w.name, "q");
    assert_eq!(w.command, "sh");
    assert_eq!(w.args, args);
    assert_eq!(w.working_dir, "/srv");
    assert!(w.env.is_empty());
    assert_eq!(w.run_mode, RunMode::Daemon { concurrency: 3 });
    assert_eq!(w.restart.kind, RestartKind::OnFailure);
    assert!(!w.autostart);
    assert!(w.enabled);
    assert!(w.group.is_none() && w.tags.is_empty() && w.display_name.is_none());
}
