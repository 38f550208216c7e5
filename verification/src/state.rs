//! The lifecycle of one running instance of a worker.

use crate::error::CoreError;
use vstd::prelude::*;
use InstanceState::{Backoff, Completed, Crashed, Failed, Idle, Running, Starting, Stopped, Stopping};

verus! {

/// Lifecycle of a single running instance.
/// `Failed` = the crash-loop guard tripped (gave up); `Stopped` = stopped by
/// the user or by the restart policy; `Completed` = a batch finished.
#[derive(Debug, Clone, Copy, PartialEq, Eq, Structural)]
pub enum InstanceState {
    Stopped,
    Starting,
    Running,
    Stopping,
    Crashed,
    Backoff,
    Idle,
    Completed,
    Failed,
}

/// The edges of the instance lifecycle graph.
pub open spec fn legal_transition(from: InstanceState, to: InstanceState) -> bool {
    ||| (from == Stopped && to == Starting)
    ||| (from == Starting && to == Running)
    ||| (from == Starting && to == Crashed)
    ||| (from == Running && to == Stopping)
    ||| (from == Running && to == Crashed)
    ||| (from == Stopping && to == Stopped)
    ||| (from == Crashed && to == Backoff)
    ||| (from == Crashed && to == Failed)
    ||| (from == Backoff && to == Starting)
    ||| (from == Backoff && to == Stopped)
    ||| (from == Running && to == Stopped)
    ||| (from == Stopped && to == Failed)
    ||| (from == Starting && to == Stopped)
    ||| (from == Running && to == Idle)
    ||| (from == Idle && to == Starting)
    ||| (from == Idle && to == Stopped)
    ||| (from == Running && to == Completed)
    ||| (from == Starting && to == Completed)
}

/// States from which an instance never moves on by itself.
pub open spec fn terminal(s: InstanceState) -> bool {
    s == InstanceState::Stopped || s == InstanceState::Failed || s == InstanceState::Completed
}

/// The variant's name as written in diagnostics (`Stopped`, `Running`, ...).
pub open spec fn state_name(s: InstanceState) -> Seq<char> {
    match s {
        InstanceState::Stopped => "Stopped"@,
        InstanceState::Starting => "Starting"@,
        InstanceState::Running => "Running"@,
        InstanceState::Stopping => "Stopping"@,
        InstanceState::Crashed => "Crashed"@,
        InstanceState::Backoff => "Backoff"@,
        InstanceState::Idle => "Idle"@,
        InstanceState::Completed => "Completed"@,
        InstanceState::Failed => "Failed"@,
    }
}

impl InstanceState {
    pub fn is_terminal(self) -> (b: bool)
        ensures
            b == terminal(self),
    {
        matches!(self, InstanceState::Stopped | InstanceState::Failed | InstanceState::Completed)
    }

    pub fn can_transition_to(self, to: InstanceState) -> (b: bool)
        ensures
            b == legal_transition(self, to),
    {
        match (self, to) {
            (Stopped, Starting) | (Starting, Running) | (Starting, Crashed) | (Running, Stopping)
            | (Running, Crashed) | (Stopping, Stopped) | (Crashed, Backoff) | (Crashed, Failed)
            | (Backoff, Starting) | (Backoff, Stopped) | (Running, Stopped) | (Stopped, Failed)
            | (Starting, Stopped) | (Running, Idle) | (Idle, Starting) | (Idle, Stopped)
            | (Running, Completed) | (Starting, Completed) => true,
            _ => false,
        }
    }

    /// The variant's name, as the `Debug` form prints it.
    pub fn name(self) -> (s: String)
        ensures
            s@ == state_name(self),
    {
        match self {
            InstanceState::Stopped => "Stopped".to_owned(),
            InstanceState::Starting => "Starting".to_owned(),
            InstanceState::Running => "Running".to_owned(),
            InstanceState::Stopping => "Stopping".to_owned(),
            InstanceState::Crashed => "Crashed".to_owned(),
            InstanceState::Backoff => "Backoff".to_owned(),
            InstanceState::Idle => "Idle".to_owned(),
            InstanceState::Completed => "Completed".to_owned(),
            InstanceState::Failed => "Failed".to_owned(),
        }
    }

    /// Move to `to` when the lifecycle allows it; otherwise report the refused edge.
    pub fn transition_to(self, to: InstanceState) -> (r: Result<InstanceState, CoreError>)
        ensures
            legal_transition(self, to) ==> r == Ok::<InstanceState, CoreError>(to),
            !legal_transition(self, to) ==> (r matches Err(CoreError::BadTransition { from, to: t })
                && from@ == state_name(self) && t@ == state_name(to)),
    {
        if self.can_transition_to(to) {
            Ok(to)
        } else {
            Err(CoreError::BadTransition { from: self.name(), to: to.name() })
        }
    }
}


/// The name of a state's variant, as written in this enum.
pub open spec fn variant_name(s: InstanceState) -> Seq<char> {
    match s {
        InstanceState::Stopped => "Stopped"@,
        InstanceState::Starting => "Starting"@,
        InstanceState::Running => "Running"@,
        InstanceState::Stopping => "Stopping"@,
        InstanceState::Crashed => "Crashed"@,
        InstanceState::Backoff => "Backoff"@,
        InstanceState::Idle => "Idle"@,
        InstanceState::Completed => "Completed"@,
        InstanceState::Failed => "Failed"@,
    }
}

/// `c` with an ASCII capital letter turned into its small letter.
pub open spec fn ascii_lower(c: char) -> char {
    if 'A' <= c && c <= 'Z' { ((c as u32) + 32) as char } else { c }
}

/// The snake-case form of a one-word variant name: its letters in small case.
pub open spec fn snake_case(name: Seq<char>) -> Seq<char> {
    name.map_values(|c: char| ascii_lower(c))
}

} // verus!
