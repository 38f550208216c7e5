//! Worker definitions: what to run, how, and when to restart it.

use std::collections::BTreeMap;
use vstd::prelude::*;

verus! {

/// Instances a daemon-mode worker runs when its definition does not say.
pub fn default_concurrency() -> (n: u32)
    ensures
        n == 1,
{
    1
}

/// When a scheduled worker fires.
#[derive(Debug, Clone, PartialEq, Eq)]
pub enum Schedule {
    /// A cron expression (5 fields, or 6 with leading seconds).
    Cron(String),
    /// A fixed interval in seconds.
    IntervalSecs(u64),
}

/// What a scheduled worker does when a fire comes while the previous run is still going.
#[derive(Debug, Clone, Copy, PartialEq, Eq, Structural)]
pub enum OverlapPolicy {
    Skip,
    Queue,
    KillPrevious,
}

/// Overlap policy of a scheduled worker whose definition does not say.
pub fn default_overlap() -> (p: OverlapPolicy)
    ensures
        p == OverlapPolicy::Skip,
{
    OverlapPolicy::Skip
}

/// How a worker is run.
#[derive(Debug, Clone, PartialEq, Eq)]
pub enum RunMode {
    /// `concurrency` always-on instances.
    Daemon { concurrency: u32 },
    /// One instance fired on a schedule.
    Scheduled { schedule: Schedule, overlap: OverlapPolicy },
    /// One instance run `run_count` times, `delay_secs` apart.
    Batch { run_count: u32, delay_secs: u64 },
}

/// When the supervisor restarts an instance that exited.
#[derive(Debug, Clone, Copy, PartialEq, Eq, Structural)]
pub enum RestartKind {
    Always,
    OnFailure,
    Never,
}

/// Restart policy; base/max/reset are seconds, mapped to a `Backoff` by the supervisor.
#[derive(Debug, Clone, Copy, PartialEq, Eq, Structural)]
pub struct RestartPolicy {
    pub kind: RestartKind,
    pub max_retries: u32,
    pub base_secs: u64,
    pub max_secs: u64,
    pub reset_window_secs: u64,
}

impl Default for RestartPolicy {
    fn default() -> (p: Self)
        ensures
            p == (RestartPolicy {
                kind: RestartKind::OnFailure,
                max_retries: 5,
                base_secs: 1,
                max_secs: 60,
                reset_window_secs: 30,
            }),
    {
        RestartPolicy {
            kind: RestartKind::OnFailure,
            max_retries: 5,
            base_secs: 1,
            max_secs: 60,
            reset_window_secs: 30,
        }
    }
}

/// A worker definition: the unit a user creates; the manager spawns instances from it.
#[derive(Debug, Clone, PartialEq, Eq)]
pub struct WorkerSpec {
    pub name: String,
    pub command: String,
    pub args: Vec<String>,
    pub working_dir: String,
    pub env: BTreeMap<String, String>,
    pub run_mode: RunMode,
    pub restart: RestartPolicy,
    pub autostart: bool,
    pub enabled: bool,
    pub group: Option<String>,
    pub tags: Vec<String>,
    pub display_name: Option<String>,
}

/// A run mode as a value of the model.
pub enum RunModeView {
    Daemon { concurrency: u32 },
    Cron { expr: Seq<char>, overlap: OverlapPolicy },
    Interval { secs: u64, overlap: OverlapPolicy },
    Batch { run_count: u32, delay_secs: u64 },
}

/// The model of a run mode.
pub open spec fn run_mode_view(m: RunMode) -> RunModeView {
    match m {
        RunMode::Daemon { concurrency } => RunModeView::Daemon { concurrency },
        RunMode::Scheduled { schedule: Schedule::Cron(e), overlap } => RunModeView::Cron { expr: e@, overlap },
        RunMode::Scheduled { schedule: Schedule::IntervalSecs(n), overlap } => RunModeView::Interval { secs: n, overlap },
        RunMode::Batch { run_count, delay_secs } => RunModeView::Batch { run_count, delay_secs },
    }
}

/// The texts of a list of strings.
pub open spec fn texts(v: Seq<String>) -> Seq<Seq<char>> {
    v.map_values(|s: String| s@)
}

/// The text of an optional string.
pub open spec fn opt_text(o: Option<String>) -> Option<Seq<char>> {
    match o {
        Some(s) => Some(s@),
        None => None,
    }
}

/// A copy of a list of strings.
pub fn clone_strings(v: &Vec<String>) -> (r: Vec<String>)
    ensures
        r@ == v@,
{
    let mut r: Vec<String> = Vec::new();
    let mut i: usize = 0;
    while i < v.len()
        invariant
            i <= v.len(),
            r@ == v@.take(i as int),
        decreases v.len() - i,
    {
        r.push(v[i].clone());
        assert(v@.take(i + 1) == v@.take(i as int).push(v@[i as int]));
        i = i + 1;
    }
    assert(v@.take(v.len() as int) == v@);
    r
}

/// A copy of a run mode.
pub fn clone_run_mode(m: &RunMode) -> (r: RunMode)
    ensures
        r == *m,
{
    match m {
        RunMode::Daemon { concurrency } => RunMode::Daemon { concurrency: *concurrency },
        RunMode::Scheduled { schedule, overlap } => RunMode::Scheduled {
            schedule: match schedule {
                Schedule::Cron(e) => Schedule::Cron(e.clone()),
                Schedule::IntervalSecs(n) => Schedule::IntervalSecs(*n),
            },
            overlap: *overlap,
        },
        RunMode::Batch { run_count, delay_secs } => RunMode::Batch { run_count: *run_count, delay_secs: *delay_secs },
    }
}

} // verus!
