//! What the daemon binary builds before it touches the database or the
//! service manager: the worker a command-line `add` defines and the login
//! service it installs.

use crate::service::{service_label, ServiceSpec};
use crate::worker::{clone_strings, RestartKind, RestartPolicy, RunMode, WorkerSpec};
use std::collections::BTreeMap;
use vstd::prelude::*;

verus! {

/// The login service for the daemon executable `exe` serving `base`.
pub fn service_spec(exe: String, base: String) -> (s: ServiceSpec)
    ensures
        s.label@ == "com.servicio.daemon"@,
        s.exe == exe,
        s.base == base,
{
    ServiceSpec { label: service_label(), exe, base }
}

/// The worker a command-line `add` defines: a daemon of `concurrency`
/// instances with the default restart policy, an empty environment, enabled,
/// in no group and without tags.
pub fn add_worker_spec(
    name: &str,
    command: &str,
    args: &Vec<String>,
    working_dir: &str,
    concurrency: u32,
    autostart: bool,
) -> (w: WorkerSpec)
    ensures
        w.name@ == name@,
        w.command@ == command@,
        w.args@ == args@,
        w.working_dir@ == working_dir@,
        w.env@ == Map::<String, String>::empty(),
        w.run_mode == (RunMode::Daemon { concurrency }),
        w.restart == (RestartPolicy {
            kind: RestartKind::OnFailure,
            max_retries: 5,
            base_secs: 1,
            max_secs: 60,
            reset_window_secs: 30,
        }),
        w.autostart == autostart,
        w.enabled,
        w.group is None,
        w.tags@.len() == 0,
        w.display_name is None,
{
    WorkerSpec {
        name: name.to_string(),
        command: command.to_string(),
        args: clone_strings(args),
        working_dir: working_dir.to_string(),
        env: BTreeMap::new(),
        run_mode: RunMode::Daemon { concurrency },
        restart: RestartPolicy::default(),
        autostart,
        enabled: true,
        group: None,
        tags: Vec::new(),
        display_name: None,
    }
}

} // verus!
