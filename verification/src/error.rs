//! The error type of the supervisor engine.

use vstd::prelude::*;

verus! {

/// All fallible operations of the engine report one of these.
#[derive(Debug, Clone, PartialEq, Eq)]
pub enum CoreError {
    /// The worker's working directory does not exist.
    MissingWorkingDir(String),
    /// The process could not be started (also used for schedule errors).
    Spawn(String),
    /// An I/O failure, carried as its message.
    Io(String),
    /// A lifecycle transition the state machine does not allow.
    BadTransition { from: String, to: String },
}

} // verus!
