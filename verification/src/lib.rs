//! Servicio: the verified core of a supervisor for long-running developer services.
//!
//! The crate holds the decisions of the supervisor (restart policy, backoff,
//! instance lifecycle, run modes), the wire protocol's framing and
//! authentication rules, the project scanners that suggest workers, and the
//! text the daemon writes (service units, log records, tokens).

pub mod text;
pub mod duration;
pub mod backoff;
pub mod error;
pub mod state;
pub mod worker;
pub mod supervisor;
pub mod schedule;
pub mod paths;
pub mod service;
pub mod jsonc;
pub mod json;
pub mod detect;
pub mod procfile;
pub mod tasks;
pub mod laravel;
pub mod event;
pub mod ipc;
pub mod serve;
pub mod client;
pub mod manager;
pub mod logs;
pub mod token;
pub mod process;
pub mod sampler;
pub mod metrics;
pub mod cli;
pub mod daemon;
pub mod sidecar;
pub mod entrypoints;
pub mod crontab;
