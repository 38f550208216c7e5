//! Making sure a current daemon is running for the desktop app: reuse the one
//! that answers unless its build is stale, else replace it, then wait until the
//! new one accepts a connection. The waiting and the I/O are the caller's; this
//! module decides each next step.

use crate::client::is_stale;
use vstd::prelude::*;
use vstd::string::StringExecFns;

verus! {

/// How many times the caller polls (100 ms apart) for the old daemon's socket
/// to disappear, and for the new daemon to accept a connection.
pub const READY_POLLS: u32 = 50;

/// What the caller does next.
pub enum EnsureAction {
    /// Read `<base>/token`; answer `TokenRead`.
    ReadToken,
    /// Connect with this token; answer `Connected`.
    Connect(String),
    /// Ask the connected daemon for its build and find the bundled build;
    /// answer `Builds`.
    CompareBuilds,
    /// Ask the connected daemon to exit and drop the connection; answer
    /// `ShutdownSent`.
    ShutdownOld,
    /// Check whether the daemon's socket file is gone; answer `SocketGone`.
    CheckSocketGone,
    /// Start `<program> serve --base <base>`; answer `Spawned`.
    SpawnDaemon,
    /// Wait 100 ms; answer `Slept`.
    Sleep,
    /// Done: the token of a reachable daemon, or why there is none.
    Finish(Result<String, String>),
}

/// What the caller reports back.
pub enum EnsureEvent {
    TokenRead(Option<String>),
    Connected(bool),
    Builds { running: Option<String>, bundled: Option<String> },
    ShutdownSent,
    SocketGone(bool),
    Spawned(Result<(), String>),
    Slept,
}

/// Where the procedure stands.
pub enum EnsurePhase {
    Probing,
    ProbeConnecting { token: String },
    Comparing { token: String },
    ShuttingDown,
    Draining { polls: u32 },
    DrainSleeping { polls: u32 },
    Spawning,
    Readying { polls: u32 },
    ReadyConnecting { polls: u32, token: String },
    ReadySleeping { polls: u32 },
    Finished,
}

/// The poll counters stay below `READY_POLLS`.
pub open spec fn phase_ok(p: EnsurePhase) -> bool {
    match p {
        EnsurePhase::Draining { polls } => polls < READY_POLLS,
        EnsurePhase::DrainSleeping { polls } => polls < READY_POLLS,
        EnsurePhase::Readying { polls } => polls < READY_POLLS,
        EnsurePhase::ReadyConnecting { polls, .. } => polls < READY_POLLS,
        EnsurePhase::ReadySleeping { polls } => polls < READY_POLLS,
        _ => true,
    }
}

/// The event answers the action that phase `p` asked for.
pub open spec fn answers(p: EnsurePhase, e: EnsureEvent) -> bool {
    match p {
        EnsurePhase::Probing => e is TokenRead,
        EnsurePhase::ProbeConnecting { .. } => e is Connected,
        EnsurePhase::Comparing { .. } => e is Builds,
        EnsurePhase::ShuttingDown => e is ShutdownSent,
        EnsurePhase::Draining { .. } => e is SocketGone,
        EnsurePhase::DrainSleeping { .. } => e is Slept,
        EnsurePhase::Spawning => e is Spawned,
        EnsurePhase::Readying { .. } => e is TokenRead,
        EnsurePhase::ReadyConnecting { .. } => e is Connected,
        EnsurePhase::ReadySleeping { .. } => e is Slept,
        EnsurePhase::Finished => false,
    }
}

/// The builds say the running daemon must be replaced.
pub open spec fn stale_builds(running: Option<String>, bundled: Option<String>) -> bool {
    match (bundled, running) {
        (Some(x), Some(y)) => x@ != y@,
        (Some(_), None) => true,
        (None, _) => false,
    }
}

/// The message when spawning failed with `e`.
pub open spec fn spawn_error(e: Seq<char>) -> Seq<char> {
    "spawn daemon: "@ + e
}

/// The message when the new daemon never accepted a connection.
pub open spec fn not_ready() -> Seq<char> {
    "daemon did not become ready"@
}

/// The next phase and the next action, as texts where they carry text.
pub enum StepView {
    ReadToken,
    Connect(Seq<char>),
    CompareBuilds,
    ShutdownOld,
    CheckSocketGone,
    SpawnDaemon,
    Sleep,
    FinishOk(Seq<char>),
    FinishErr(Seq<char>),
}

/// An action as a value of the model.
pub open spec fn action_view(a: EnsureAction) -> StepView {
    match a {
        EnsureAction::ReadToken => StepView::ReadToken,
        EnsureAction::Connect(t) => StepView::Connect(t@),
        EnsureAction::CompareBuilds => StepView::CompareBuilds,
        EnsureAction::ShutdownOld => StepView::ShutdownOld,
        EnsureAction::CheckSocketGone => StepView::CheckSocketGone,
        EnsureAction::SpawnDaemon => StepView::SpawnDaemon,
        EnsureAction::Sleep => StepView::Sleep,
        EnsureAction::Finish(Ok(t)) => StepView::FinishOk(t@),
        EnsureAction::Finish(Err(e)) => StepView::FinishErr(e@),
    }
}

/// A phase as a value of the model: its name, poll count and token text.
pub open spec fn phase_view(p: EnsurePhase) -> (nat, u32, Seq<char>) {
    match p {
        EnsurePhase::Probing => (0, 0, Seq::empty()),
        EnsurePhase::ProbeConnecting { token } => (1, 0, token@),
        EnsurePhase::Comparing { token } => (2, 0, token@),
        EnsurePhase::ShuttingDown => (3, 0, Seq::empty()),
        EnsurePhase::Draining { polls } => (4, polls, Seq::empty()),
        EnsurePhase::DrainSleeping { polls } => (5, polls, Seq::empty()),
        EnsurePhase::Spawning => (6, 0, Seq::empty()),
        EnsurePhase::Readying { polls } => (7, polls, Seq::empty()),
        EnsurePhase::ReadyConnecting { polls, token } => (8, polls, token@),
        EnsurePhase::ReadySleeping { polls } => (9, polls, Seq::empty()),
        EnsurePhase::Finished => (10, 0, Seq::empty()),
    }
}

/// One step of the procedure: from phase `p` on event `e`, the next phase (as
/// in `phase_view`) and the next action.
pub open spec fn ensure_step(p: EnsurePhase, e: EnsureEvent) -> ((nat, u32, Seq<char>), StepView) {
    match (p, e) {
        (EnsurePhase::Probing, EnsureEvent::TokenRead(None)) => ((6, 0, Seq::empty()), StepView::SpawnDaemon),
        (EnsurePhase::Probing, EnsureEvent::TokenRead(Some(t))) => ((1, 0, t@), StepView::Connect(t@)),
        (EnsurePhase::ProbeConnecting { token }, EnsureEvent::Connected(ok)) => if ok {
            ((2, 0, token@), StepView::CompareBuilds)
        } else {
            ((6, 0, Seq::empty()), StepView::SpawnDaemon)
        },
        (EnsurePhase::Comparing { token }, EnsureEvent::Builds { running, bundled }) => if stale_builds(running, bundled) {
            ((3, 0, Seq::empty()), StepView::ShutdownOld)
        } else {
            ((10, 0, Seq::empty()), StepView::FinishOk(token@))
        },
        (EnsurePhase::ShuttingDown, EnsureEvent::ShutdownSent) => ((4, 0, Seq::empty()), StepView::CheckSocketGone),
        (EnsurePhase::Draining { polls }, EnsureEvent::SocketGone(gone)) => if gone {
            ((6, 0, Seq::empty()), StepView::SpawnDaemon)
        } else {
            ((5, polls, Seq::empty()), StepView::Sleep)
        },
        (EnsurePhase::DrainSleeping { polls }, EnsureEvent::Slept) => if polls + 1 < READY_POLLS {
            ((4, (polls + 1) as u32, Seq::empty()), StepView::CheckSocketGone)
        } else {
            ((6, 0, Seq::empty()), StepView::SpawnDaemon)
        },
        (EnsurePhase::Spawning, EnsureEvent::Spawned(Err(e))) => ((10, 0, Seq::empty()), StepView::FinishErr(spawn_error(e@))),
        (EnsurePhase::Spawning, EnsureEvent::Spawned(Ok(()))) => ((7, 0, Seq::empty()), StepView::ReadToken),
        (EnsurePhase::Readying { polls }, EnsureEvent::TokenRead(None)) => ((9, polls, Seq::empty()), StepView::Sleep),
        (EnsurePhase::Readying { polls }, EnsureEvent::TokenRead(Some(t))) => ((8, polls, t@), StepView::Connect(t@)),
        (EnsurePhase::ReadyConnecting { polls, token }, EnsureEvent::Connected(ok)) => if ok {
            ((10, 0, Seq::empty()), StepView::FinishOk(token@))
        } else {
            ((9, polls, Seq::empty()), StepView::Sleep)
        },
        (EnsurePhase::ReadySleeping { polls }, EnsureEvent::Slept) => if polls + 1 < READY_POLLS {
            ((7, (polls + 1) as u32, Seq::empty()), StepView::ReadToken)
        } else {
            ((10, 0, Seq::empty()), StepView::FinishErr(not_ready()))
        },
        _ => ((10, 0, Seq::empty()), StepView::FinishErr(Seq::empty())),
    }
}

/// An upper bound on the steps left from a phase.
pub open spec fn steps_left(p: (nat, u32, Seq<char>)) -> int {
    let polls = p.1 as int;
    if p.0 == 0 {
        263
    } else if p.0 == 1 {
        262
    } else if p.0 == 2 {
        261
    } else if p.0 == 3 {
        260
    } else if p.0 == 4 {
        152 + 2 * (READY_POLLS - polls)
    } else if p.0 == 5 {
        151 + 2 * (READY_POLLS - polls)
    } else if p.0 == 6 {
        151
    } else if p.0 == 7 {
        3 * (READY_POLLS - polls)
    } else if p.0 == 8 {
        3 * (READY_POLLS - polls) - 1
    } else if p.0 == 9 {
        3 * (READY_POLLS - polls) - 2
    } else {
        0
    }
}

/// A token is handed back only on a successful connection made with it: either
/// by the step that reports that connection, or by the build comparison,
/// which is entered only from such a step and keeps its token.
pub proof fn lemma_token_only_after_connect(p: EnsurePhase, e: EnsureEvent)
    requires
        answers(p, e),
    ensures
        ensure_step(p, e).1 matches StepView::FinishOk(t) ==> {
            ||| (p matches EnsurePhase::ReadyConnecting { token, .. } && token@ == t && e == EnsureEvent::Connected(true))
            ||| (p matches EnsurePhase::Comparing { token } && token@ == t)
        },
        ensure_step(p, e).0.0 == 2 ==> (p matches EnsurePhase::ProbeConnecting { token }
            && ensure_step(p, e).0.2 == token@ && e == EnsureEvent::Connected(true)),
{
}

/// Every step brings the procedure closer to its end: from the start it
/// finishes within 263 steps.
pub proof fn lemma_finishes(p: EnsurePhase, e: EnsureEvent)
    requires
        phase_ok(p),
        answers(p, e),
    ensures
        0 <= steps_left(ensure_step(p, e).0) < steps_left(phase_view(p)),
        steps_left(phase_view(EnsurePhase::Probing)) == 263,
{
}

/// The procedure as the caller drives it.
pub struct DaemonStarter {
    phase: EnsurePhase,
}

impl DaemonStarter {
    #[verifier::type_invariant]
    spec fn counters_in_range(self) -> bool {
        phase_ok(self.phase)
    }

    /// Where the procedure stands.
    pub closed spec fn phase_of(&self) -> EnsurePhase {
        self.phase
    }

    /// Start: first the token of a daemon that may already run is read.
    pub fn new() -> (r: (Self, EnsureAction))
        ensures
            r.0.phase_of() is Probing,
            r.1 is ReadToken,
    {
        (DaemonStarter { phase: EnsurePhase::Probing }, EnsureAction::ReadToken)
    }

    /// The procedure has handed back its result.
    pub fn is_finished(&self) -> (b: bool)
        ensures
            b == self.phase_of() is Finished,
    {
        matches!(self.phase, EnsurePhase::Finished)
    }

    /// Take the caller's report of the last action and say what to do next.
    pub fn step(&mut self, e: EnsureEvent) -> (a: EnsureAction)
        requires
            answers(old(self).phase_of(), e),
        ensures
            (phase_view(final(self).phase_of()), action_view(a)) == ensure_step(old(self).phase_of(), e),
            steps_left(phase_view(final(self).phase_of())) < steps_left(phase_view(old(self).phase_of())),
            0 <= steps_left(phase_view(final(self).phase_of())),
    {
        proof {
            use_type_invariant(&*self);
        }
        let mut p = EnsurePhase::Finished;
        std::mem::swap(&mut p, &mut self.phase);
        let (next, action) = match (p, e) {
            (EnsurePhase::Probing, EnsureEvent::TokenRead(None)) => (EnsurePhase::Spawning, EnsureAction::SpawnDaemon),
            (EnsurePhase::Probing, EnsureEvent::TokenRead(Some(t))) => {
                let c = t.clone();
                (EnsurePhase::ProbeConnecting { token: t }, EnsureAction::Connect(c))
            },
            (EnsurePhase::ProbeConnecting { token }, EnsureEvent::Connected(ok)) => if ok {
                (EnsurePhase::Comparing { token }, EnsureAction::CompareBuilds)
            } else {
                (EnsurePhase::Spawning, EnsureAction::SpawnDaemon)
            },
            (EnsurePhase::Comparing { token }, EnsureEvent::Builds { running, bundled }) => if is_stale(&bundled, &running) {
                (EnsurePhase::ShuttingDown, EnsureAction::ShutdownOld)
            } else {
                (EnsurePhase::Finished, EnsureAction::Finish(Ok(token)))
            },
            (EnsurePhase::ShuttingDown, EnsureEvent::ShutdownSent) => (EnsurePhase::Draining { polls: 0 }, EnsureAction::CheckSocketGone),
            (EnsurePhase::Draining { polls }, EnsureEvent::SocketGone(gone)) => if gone {
                (EnsurePhase::Spawning, EnsureAction::SpawnDaemon)
            } else {
                (EnsurePhase::DrainSleeping { polls }, EnsureAction::Sleep)
            },
            (EnsurePhase::DrainSleeping { polls }, EnsureEvent::Slept) => if polls + 1 < READY_POLLS {
                (EnsurePhase::Draining { polls: polls + 1 }, EnsureAction::CheckSocketGone)
            } else {
                (EnsurePhase::Spawning, EnsureAction::SpawnDaemon)
            },
            (EnsurePhase::Spawning, EnsureEvent::Spawned(Err(e))) => {
                let mut m = "spawn daemon: ".to_string();
                m.append(e.as_str());
                proof {
                    reveal_strlit("spawn daemon: ");
                }
                (EnsurePhase::Finished, EnsureAction::Finish(Err(m)))
            },
            (EnsurePhase::Spawning, EnsureEvent::Spawned(Ok(()))) => (EnsurePhase::Readying { polls: 0 }, EnsureAction::ReadToken),
            (EnsurePhase::Readying { polls }, EnsureEvent::TokenRead(None)) => (EnsurePhase::ReadySleeping { polls }, EnsureAction::Sleep),
            (EnsurePhase::Readying { polls }, EnsureEvent::TokenRead(Some(t))) => {
                let c = t.clone();
                (EnsurePhase::ReadyConnecting { polls, token: t }, EnsureAction::Connect(c))
            },
            (EnsurePhase::ReadyConnecting { polls, token }, EnsureEvent::Connected(ok)) => if ok {
                (EnsurePhase::Finished, EnsureAction::Finish(Ok(token)))
            } else {
                (EnsurePhase::ReadySleeping { polls }, EnsureAction::Sleep)
            },
            (EnsurePhase::ReadySleeping { polls }, EnsureEvent::Slept) => if polls + 1 < READY_POLLS {
                (EnsurePhase::Readying { polls: polls + 1 }, EnsureAction::ReadToken)
            } else {
                proof {
                    reveal_strlit("daemon did not become ready");
                }
                (EnsurePhase::Finished, EnsureAction::Finish(Err("daemon did not become ready".to_string())))
            },
            _ => (EnsurePhase::Finished, EnsureAction::Finish(Err(String::new()))),
        };
        self.phase = next;
        action
    }
}


/// How many times the desktop app tries to bring up its daemon before it gives up.
pub const STARTUP_ATTEMPTS: u32 = 3;

/// The pause between two such tries, in milliseconds.
pub const STARTUP_RETRY_MILLIS: u64 = 500;

/// What the desktop app does after one try to bring up its daemon.
#[derive(Debug, Clone, Copy, PartialEq, Eq, Structural)]
pub enum StartupStep {
    /// The daemon answers: go on with its token.
    Ready,
    /// Wait this many milliseconds, then try again.
    RetryAfter(u64),
    /// Stop trying.
    GiveUp,
}

/// The step after try number `attempt` (counted from 1), which `succeeded` or
/// not: a success is used at once; a failure is retried after a pause while
/// fewer than `STARTUP_ATTEMPTS` tries were made, and ends the startup after that.
pub fn after_startup_attempt(attempt: u32, succeeded: bool) -> (s: StartupStep)
    ensures
        s == (if succeeded {
            StartupStep::Ready
        } else if attempt < STARTUP_ATTEMPTS {
            StartupStep::RetryAfter(STARTUP_RETRY_MILLIS)
        } else {
            StartupStep::GiveUp
        }),
{
    if succeeded {
        StartupStep::Ready
    } else if attempt < STARTUP_ATTEMPTS {
        StartupStep::RetryAfter(STARTUP_RETRY_MILLIS)
    } else {
        StartupStep::GiveUp
    }
}

} // verus!
