//! Events the supervisors emit, and status snapshots of running workers.

use crate::state::InstanceState;
use crate::worker::RunMode;
use vstd::prelude::*;

verus! {

/// An event emitted by a supervisor onto the manager's broadcast channel.
#[derive(Debug, Clone, PartialEq)]
pub enum SupervisorEvent {
    State { worker: String, instance: u32, from: InstanceState, to: InstanceState },
    Log { worker: String, instance: u32, stream: String, line: String },
    /// One resource sample of a live instance: unix time, cpu percentage in
    /// its decimal text form, resident memory in bytes.
    Metric { worker: String, instance: u32, ts: u64, cpu: String, mem: u64 },
}

/// Snapshot of one instance for status reporting.
#[derive(Debug, Clone, Copy, PartialEq, Eq, Structural)]
pub struct InstanceStatus {
    pub index: u32,
    pub state: InstanceState,
    pub restart_count: u32,
    pub pid: Option<u32>,
}

/// Snapshot of one worker (all its instances).
#[derive(Debug, Clone, PartialEq)]
pub struct WorkerStatusCore {
    pub name: String,
    pub run_mode: RunMode,
    pub instances: Vec<InstanceStatus>,
}

} // verus!
