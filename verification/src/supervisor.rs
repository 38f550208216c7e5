//! Decisions of the instance supervisor: lifecycle bookkeeping, the restart
//! loop of daemon-mode workers, and the run loop of batch workers.
//!
//! The runner that spawns processes and sleeps performs what these machines
//! decide and reports back what happened.

use crate::backoff::{delay_spec, lemma_raw_monotone, Backoff};
use crate::duration::Duration;
use crate::state::{legal_transition, InstanceState};
use crate::worker::{RestartKind, RestartPolicy};
use vstd::prelude::*;

verus! {

/// A published change of an instance's state.
#[derive(Debug, Clone, Copy, PartialEq, Eq, Structural)]
pub struct StateChange {
    pub from: InstanceState,
    pub to: InstanceState,
}

/// The published state of one instance: lifecycle state, OS pid and restart count.
pub struct InstanceCore {
    index: u32,
    worker: String,
    state: InstanceState,
    pid: u32,
    restarts: u32,
}

impl InstanceCore {
    /// This instance's index within its worker.
    pub closed spec fn index_of(&self) -> u32 {
        self.index
    }

    /// The worker this instance belongs to.
    pub closed spec fn worker_of(&self) -> Seq<char> {
        self.worker@
    }

    pub closed spec fn state_of(&self) -> InstanceState {
        self.state
    }

    /// The pid slot: 0 when no process is running.
    pub closed spec fn pid_slot(&self) -> u32 {
        self.pid
    }

    pub closed spec fn restarts_of(&self) -> u32 {
        self.restarts
    }

    /// A fresh instance: stopped, no process, no restarts.
    pub fn new(index: u32, worker: String) -> (c: Self)
        ensures
            c.index_of() == index,
            c.worker_of() == worker@,
            c.state_of() == InstanceState::Stopped,
            c.pid_slot() == 0,
            c.restarts_of() == 0,
    {
        InstanceCore { index, worker, state: InstanceState::Stopped, pid: 0, restarts: 0 }
    }

    /// Current published state.
    pub fn state(&self) -> (s: InstanceState)
        ensures
            s == self.state_of(),
    {
        self.state
    }

    /// Current OS pid (None if not running).
    pub fn pid(&self) -> (p: Option<u32>)
        ensures
            p == (if self.pid_slot() == 0 { None } else { Some(self.pid_slot()) }),
    {
        if self.pid == 0 {
            None
        } else {
            Some(self.pid)
        }
    }

    pub fn restart_count(&self) -> (n: u32)
        ensures
            n == self.restarts_of(),
    {
        self.restarts
    }

    /// This instance's index within its worker.
    pub fn index(&self) -> (i: u32)
        ensures
            i == self.index_of(),
    {
        self.index
    }

    /// Worker name this instance belongs to.
    pub fn worker_name(&self) -> (w: &str)
        ensures
            w@ == self.worker_of(),
    {
        self.worker.as_str()
    }

    /// Publish state `s`. Returns the change to broadcast (none when the state
    /// does not change) and whether the lifecycle allows the edge; an illegal
    /// edge is still published, and only reported.
    pub fn set_state(&mut self, s: InstanceState) -> (r: (Option<StateChange>, bool))
        ensures
            final(self).state_of() == s,
            final(self).pid_slot() == old(self).pid_slot(),
            final(self).restarts_of() == old(self).restarts_of(),
            final(self).index_of() == old(self).index_of(),
            final(self).worker_of() == old(self).worker_of(),
            r.0 == (if old(self).state_of() == s {
                None
            } else {
                Some(StateChange { from: old(self).state_of(), to: s })
            }),
            r.1 == (old(self).state_of() == s || legal_transition(old(self).state_of(), s)),
    {
        let from = self.state;
        let legal = from == s || from.can_transition_to(s);
        self.state = s;
        if from == s {
            (None, legal)
        } else {
            (Some(StateChange { from, to: s }), legal)
        }
    }

    /// Record the pid of a freshly spawned process (0 when the OS gave none).
    pub fn set_pid(&mut self, pid: Option<u32>)
        ensures
            final(self).pid_slot() == (match pid { Some(p) => p, None => 0 }),
            final(self).state_of() == old(self).state_of(),
            final(self).restarts_of() == old(self).restarts_of(),
            final(self).index_of() == old(self).index_of(),
            final(self).worker_of() == old(self).worker_of(),
    {
        self.pid = match pid {
            Some(p) => p,
            None => 0,
        };
    }

    /// Record the restart count.
    pub fn set_restarts(&mut self, n: u32)
        ensures
            final(self).restarts_of() == n,
            final(self).state_of() == old(self).state_of(),
            final(self).pid_slot() == old(self).pid_slot(),
            final(self).index_of() == old(self).index_of(),
            final(self).worker_of() == old(self).worker_of(),
    {
        self.restarts = n;
    }
}

/// `b` is the backoff that restart policy `p` describes: its seconds, whole.
pub open spec fn describes(b: Backoff, p: RestartPolicy) -> bool {
    &&& b.base.secs_of() == p.base_secs && b.base.subsec_of() == 0
    &&& b.max.secs_of() == p.max_secs && b.max.subsec_of() == 0
    &&& b.max_retries == p.max_retries
    &&& b.reset_window.secs_of() == p.reset_window_secs && b.reset_window.subsec_of() == 0
}

/// The backoff a restart policy describes.
pub fn backoff_for(policy: &RestartPolicy) -> (b: Backoff)
    ensures
        describes(b, *policy),
{
    Backoff::new(
        Duration::from_secs(policy.base_secs),
        Duration::from_secs(policy.max_secs),
        policy.max_retries,
        Duration::from_secs(policy.reset_window_secs),
    )
}

/// Does the restart policy want another run after an exit?
pub open spec fn restart_wanted(kind: RestartKind, success: bool) -> bool {
    match kind {
        RestartKind::Always => true,
        RestartKind::OnFailure => !success,
        RestartKind::Never => false,
    }
}

/// Does the restart policy want another run after this exit?
pub fn wants_restart(kind: RestartKind, success: bool) -> (b: bool)
    ensures
        b == restart_wanted(kind, success),
{
    match kind {
        RestartKind::Always => true,
        RestartKind::OnFailure => !success,
        RestartKind::Never => false,
    }
}

/// Are we still under the crash-loop limit after `retries` retries?
pub fn should_retry(backoff: &Backoff, retries: u32) -> (b: bool)
    ensures
        b == (retries + 1 <= backoff.max_retries),
{
    if retries == u32::MAX {
        false
    } else {
        !backoff.is_crash_loop(retries + 1)
    }
}

/// What the daemon loop does after an exit, as a value of the model.
#[derive(PartialEq, Eq, Structural)]
pub enum Decision {
    /// Publish `Stopped` and end.
    Stop,
    /// Publish `Crashed`, then `Failed`, and end: the crash-loop guard tripped.
    GiveUp,
    /// Publish `Crashed`, then `Backoff`, wait, and run again; this is retry number `attempt`.
    Retry(u32),
}

/// One step of the daemon loop: from `retries` retries so far and an exit
/// (`success`, after `uptime` nanoseconds of running), the new retry count and the decision.
pub open spec fn daemon_step(b: Backoff, kind: RestartKind, retries: u32, success: bool, uptime: int) -> (u32, Decision) {
    let r = if uptime > b.reset_window.total_nanos() { 0u32 } else { retries };
    if !restart_wanted(kind, success) {
        (r, Decision::Stop)
    } else if r + 1 > b.max_retries {
        (r, Decision::GiveUp)
    } else {
        ((r + 1) as u32, Decision::Retry((r + 1) as u32))
    }
}

/// What the runner does after an exit of a daemon-mode instance.
#[derive(Debug)]
pub enum DaemonNext {
    /// Publish `Stopped` and end.
    Stop,
    /// Publish `Crashed`, then `Failed`, and end.
    GiveUp,
    /// Publish `Crashed`, then `Backoff`, sleep `delay`, and run again.
    Retry { attempt: u32, delay: Duration },
}

/// The exit decision `n` carries out the model's decision `d` under backoff `b`.
pub open spec fn implements(n: DaemonNext, d: Decision, b: Backoff) -> bool {
    match d {
        Decision::Stop => n is Stop,
        Decision::GiveUp => n is GiveUp,
        Decision::Retry(a) => n matches DaemonNext::Retry { attempt, delay }
            && attempt == a && delay.total_nanos() == delay_spec(b, a),
    }
}

/// The restart loop of one daemon-mode instance.
pub struct DaemonLoop {
    backoff: Backoff,
    kind: RestartKind,
    retries: u32,
}

impl DaemonLoop {
    pub closed spec fn backoff_of(&self) -> Backoff {
        self.backoff
    }

    pub closed spec fn kind_of(&self) -> RestartKind {
        self.kind
    }

    /// Retries so far; this is also the published restart count.
    pub closed spec fn retries_of(&self) -> u32 {
        self.retries
    }

    /// Never more retries than the policy allows.
    pub open spec fn well_formed(&self) -> bool {
        self.retries_of() <= self.backoff_of().max_retries
    }

    pub fn new(policy: &RestartPolicy) -> (l: Self)
        ensures
            describes(l.backoff_of(), *policy),
            l.kind_of() == policy.kind,
            l.retries_of() == 0,
            l.well_formed(),
    {
        let b = backoff_for(policy);
        DaemonLoop { backoff: b, kind: policy.kind, retries: 0 }
    }

    pub fn retries(&self) -> (n: u32)
        ensures
            n == self.retries_of(),
    {
        self.retries
    }

    /// Decide what follows an exit that ran for `uptime`: a run that outlived
    /// the reset window clears the retry count first.
    pub fn after_run(&mut self, success: bool, uptime: Duration) -> (next: DaemonNext)
        ensures
            final(self).backoff_of() == old(self).backoff_of(),
            final(self).kind_of() == old(self).kind_of(),
            ({
                let (r, d) = daemon_step(old(self).backoff_of(), old(self).kind_of(), old(self).retries_of(), success, uptime.total_nanos());
                final(self).retries_of() == r && implements(next, d, old(self).backoff_of())
            }),
            old(self).well_formed() ==> final(self).well_formed(),
    {
        if self.backoff.should_reset(uptime) {
            self.retries = 0;
        }
        if !wants_restart(self.kind, success) {
            return DaemonNext::Stop;
        }
        if !should_retry(&self.backoff, self.retries) {
            return DaemonNext::GiveUp;
        }
        self.retries = self.retries + 1;
        let delay = self.backoff.delay_for_attempt(self.retries);
        DaemonNext::Retry { attempt: self.retries, delay }
    }
}

/// The states a daemon-mode instance publishes after an exit, for decision `n`.
pub fn exit_states(next: &DaemonNext) -> (v: Vec<InstanceState>)
    ensures
        v@ == exit_path(next),
{
    match next {
        DaemonNext::Stop => vec![InstanceState::Stopped],
        DaemonNext::GiveUp => vec![InstanceState::Crashed, InstanceState::Failed],
        DaemonNext::Retry { .. } => vec![InstanceState::Crashed, InstanceState::Backoff],
    }
}

/// The states published after an exit.
pub open spec fn exit_path(next: &DaemonNext) -> Seq<InstanceState> {
    match next {
        DaemonNext::Stop => seq![InstanceState::Stopped],
        DaemonNext::GiveUp => seq![InstanceState::Crashed, InstanceState::Failed],
        DaemonNext::Retry { .. } => seq![InstanceState::Crashed, InstanceState::Backoff],
    }
}

/// The state published once the spawn of a run has succeeded or failed.
pub fn spawn_outcome(spawned: bool) -> (s: InstanceState)
    ensures
        s == (if spawned { InstanceState::Running } else { InstanceState::Crashed }),
{
    if spawned {
        InstanceState::Running
    } else {
        InstanceState::Crashed
    }
}

/// The states one run of a daemon-mode instance publishes, in order: `Starting`,
/// then `Running` (or `Crashed` when the spawn fails), then those of the exit decision.
pub open spec fn daemon_cycle(spawned: bool, next: &DaemonNext) -> Seq<InstanceState> {
    seq![InstanceState::Starting, if spawned { InstanceState::Running } else { InstanceState::Crashed }]
        + exit_path(next)
}

/// Publishing the states of `path`, one after another from `start`, uses only
/// edges of the lifecycle (a state published twice in a row is no edge).
pub open spec fn path_legal(start: InstanceState, path: Seq<InstanceState>) -> bool {
    forall|i: int|
        #![trigger path[i]]
        0 <= i < path.len() ==> {
            let prev = if i == 0 { start } else { path[i - 1] };
            prev == path[i] || legal_transition(prev, path[i])
        }
}

/// Law: every run of a daemon-mode instance, from a fresh instance (`Stopped`)
/// or after a backoff (`Backoff`), publishes only lifecycle edges, except when
/// the spawn fails and the policy does not restart (then `Crashed -> Stopped` is published).
pub proof fn lemma_daemon_cycle_is_legal(start: InstanceState, spawned: bool, next: &DaemonNext)
    requires
        start == InstanceState::Stopped || start == InstanceState::Backoff,
        !(!spawned && next is Stop),
    ensures
        path_legal(start, daemon_cycle(spawned, next)),
{
    let p = daemon_cycle(spawned, next);
    let second = if spawned { InstanceState::Running } else { InstanceState::Crashed };
    let (third, fourth) = match next {
        DaemonNext::Stop => (InstanceState::Stopped, None),
        DaemonNext::GiveUp => (InstanceState::Crashed, Some(InstanceState::Failed)),
        DaemonNext::Retry { .. } => (InstanceState::Crashed, Some(InstanceState::Backoff)),
    };
    assert(p.len() == (if fourth is Some { 4int } else { 3int }));
    assert(p[0] == InstanceState::Starting);
    assert(p[1] == second);
    assert(p[2] == third);
    assert(fourth matches Some(x) ==> p[3] == x);
    assert(legal_transition(start, InstanceState::Starting));
    assert(legal_transition(InstanceState::Starting, second));
    assert(second == third || legal_transition(second, third));
    assert(fourth matches Some(x) ==> legal_transition(third, x));
}

/// The retry count and decision after `n` consecutive failed runs, none of which
/// outlived the reset window, starting from a fresh loop.
pub open spec fn after_failures(b: Backoff, kind: RestartKind, n: nat) -> (u32, Decision)
    decreases n,
{
    if n == 0 {
        (0u32, Decision::Stop)
    } else {
        let prev = after_failures(b, kind, (n - 1) as nat);
        daemon_step(b, kind, prev.0, false, 0)
    }
}

/// Law (crash-loop guard): a worker whose every run fails quickly is retried
/// exactly `max_retries` times (retry `n` after failure `n`), and the failure
/// after that makes the supervisor give up with `max_retries` restarts recorded.
/// Under the `Never` policy the first exit stops the worker.
pub proof fn lemma_crash_loop_gives_up(b: Backoff, kind: RestartKind, n: nat)
    ensures
        kind != RestartKind::Never && 1 <= n <= b.max_retries ==> after_failures(b, kind, n) == (n as u32, Decision::Retry(n as u32)),
        kind != RestartKind::Never && n == b.max_retries + 1 ==> after_failures(b, kind, n) == (b.max_retries, Decision::GiveUp),
        kind == RestartKind::Never && n >= 1 ==> after_failures(b, kind, n).1 == Decision::Stop,
    decreases n,
{
    if n >= 1 {
        if n > 1 {
            lemma_crash_loop_gives_up(b, kind, (n - 1) as nat);
        }
        let prev = after_failures(b, kind, (n - 1) as nat);
        assert(after_failures(b, kind, n) == daemon_step(b, kind, prev.0, false, 0));
        assert(!(0 > b.reset_window.total_nanos()));
        if kind != RestartKind::Never && n <= b.max_retries + 1 {
            assert(prev.0 == (n - 1) as u32);
        }
    }
}

/// Law: each retry waits at least as long as the one before, and never longer than `max`.
pub proof fn lemma_delay_grows_and_is_capped(b: Backoff, attempt: u32)
    requires
        1 <= attempt < u32::MAX,
    ensures
        delay_spec(b, attempt) <= delay_spec(b, (attempt + 1) as u32),
        delay_spec(b, attempt) <= b.max.total_nanos(),
{
    lemma_raw_monotone(b.base.total_nanos(), (attempt - 1) as nat, attempt as nat);
}

/// What the runner does after a run of a batch worker.
#[derive(Debug)]
pub enum BatchNext {
    /// Run again now.
    Run,
    /// Sleep `delay`, then run again.
    Pause(Duration),
    /// Publish this terminal state and end.
    Finish(InstanceState),
}

/// A batch step as a value of the model: run now, pause this many
/// nanoseconds, or finish in this state.
pub enum BatchStep {
    Run,
    Pause(int),
    Finish(InstanceState),
}

/// The model of a batch step.
pub open spec fn batch_view(n: BatchNext) -> BatchStep {
    match n {
        BatchNext::Run => BatchStep::Run,
        BatchNext::Pause(d) => BatchStep::Pause(d.total_nanos()),
        BatchNext::Finish(s) => BatchStep::Finish(s),
    }
}

/// What follows once `done` of `run_count` runs are finished (`failed`: one of
/// them failed): another run, after `delay_secs` when that is not zero; after
/// the last run, `Failed` if any run failed and `Completed` otherwise.
pub open spec fn batch_next(run_count: u32, delay_secs: u64, done: u32, failed: bool) -> BatchStep {
    if done < run_count {
        if delay_secs > 0 { BatchStep::Pause(delay_secs * (crate::duration::NANOS_PER_SEC as int)) } else { BatchStep::Run }
    } else {
        BatchStep::Finish(if failed { InstanceState::Failed } else { InstanceState::Completed })
    }
}

/// Some of the first `k` runs failed.
pub open spec fn any_failed(oks: Seq<bool>, k: int) -> bool {
    exists|i: int| 0 <= i < k && !(#[trigger] oks[i])
}

/// Law: a batch of `run_count` runs reported one by one (`oks[i]`: run `i`
/// succeeded) goes on after each of the first `run_count - 1` reports and
/// finishes at the last one, `Failed` if any run failed and `Completed` otherwise.
pub proof fn lemma_batch_runs_exactly(run_count: u32, delay_secs: u64, oks: Seq<bool>, k: int)
    requires
        oks.len() == run_count,
        1 <= k <= run_count,
    ensures
        (batch_next(run_count, delay_secs, k as u32, any_failed(oks, k)) is Finish) <==> k == run_count,
        k == run_count ==> batch_next(run_count, delay_secs, k as u32, any_failed(oks, k)) == BatchStep::Finish(
            if any_failed(oks, oks.len() as int) { InstanceState::Failed } else { InstanceState::Completed },
        ),
{
}

/// The run loop of a batch worker: `run_count` runs, `delay_secs` apart.
pub struct BatchLoop {
    run_count: u32,
    delay_secs: u64,
    done: u32,
    any_failed: bool,
}

impl BatchLoop {
    pub closed spec fn run_count_of(&self) -> u32 {
        self.run_count
    }

    pub closed spec fn delay_of(&self) -> u64 {
        self.delay_secs
    }

    /// Runs finished so far.
    pub closed spec fn done_of(&self) -> u32 {
        self.done
    }

    /// Some finished run failed.
    pub closed spec fn failed_of(&self) -> bool {
        self.any_failed
    }

    pub fn new(run_count: u32, delay_secs: u64) -> (l: Self)
        ensures
            l.run_count_of() == run_count,
            l.delay_of() == delay_secs,
            l.done_of() == 0,
            !l.failed_of(),
    {
        BatchLoop { run_count, delay_secs, done: 0, any_failed: false }
    }

    /// What to do before the first run: a batch of zero runs is complete at once.
    pub fn start(&self) -> (n: BatchNext)
        ensures
            self.run_count_of() == 0 ==> n == BatchNext::Finish(InstanceState::Completed),
            self.run_count_of() > 0 ==> n is Run,
    {
        if self.run_count == 0 {
            BatchNext::Finish(InstanceState::Completed)
        } else {
            BatchNext::Run
        }
    }

    /// Record a finished run (`ok` = it exited successfully) and say what follows.
    pub fn after_run(&mut self, ok: bool) -> (n: BatchNext)
        requires
            old(self).done_of() < old(self).run_count_of(),
        ensures
            final(self).run_count_of() == old(self).run_count_of(),
            final(self).delay_of() == old(self).delay_of(),
            final(self).done_of() == old(self).done_of() + 1,
            final(self).failed_of() == (old(self).failed_of() || !ok),
            batch_view(n) == batch_next(final(self).run_count_of(), final(self).delay_of(), final(self).done_of(), final(self).failed_of()),
    {
        self.done = self.done + 1;
        if !ok {
            self.any_failed = true;
        }
        if self.done < self.run_count {
            if self.delay_secs > 0 {
                BatchNext::Pause(Duration::from_secs(self.delay_secs))
            } else {
                BatchNext::Run
            }
        } else if self.any_failed {
            BatchNext::Finish(InstanceState::Failed)
        } else {
            BatchNext::Finish(InstanceState::Completed)
        }
    }
}

} // verus!
