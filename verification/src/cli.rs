//! The daemon binary's command line, as plain values (the argument parser
//! fills them in).

use vstd::prelude::*;

verus! {

/// The parsed command line.
pub struct Cli {
    /// Path to the SQLite database.
    pub db: String,
    pub command: Command,
}

/// The daemon binary's subcommands.
pub enum Command {
    /// Add or replace a worker definition.
    Add {
        name: String,
        command: String,
        args: Vec<String>,
        working_dir: String,
        concurrency: u32,
        autostart: bool,
    },
    /// List stored workers.
    List,
    /// Run the daemon: bind the socket and supervise workers until terminated.
    Serve { base: Option<String> },
    /// Install the daemon as a login service (launchd/systemd).
    InstallService { base: Option<String> },
    /// Remove the installed login service.
    UninstallService,
    /// Show whether the login service is installed.
    ServiceStatus,
    /// Print this binary's build id (used by the GUI to detect a stale daemon).
    BuildId,
}

} // verus!
