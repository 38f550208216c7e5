//! When a scheduled worker fires next.

use crate::duration::Duration;
use crate::error::CoreError;
use crate::text::{count_words, word_count};
use crate::worker::Schedule;
use std::str::FromStr;
use vstd::prelude::*;
use vstd::string::StringExecFns;

verus! {

/// A 5-field cron expression gets a leading seconds field; other expressions stay as they are.
pub open spec fn normalized_cron(expr: Seq<char>) -> Seq<char> {
    if word_count(expr) == 5 { "0 "@ + expr } else { expr }
}

/// Turn a 5-field cron expr into the 6-field (seconds-leading) form the cron crate wants.
pub fn normalize_cron(expr: &str) -> (s: String)
    ensures
        s@ == normalized_cron(expr@),
{
    let fields = count_words(expr);
    if fields == 5 {
        let mut s = "0 ".to_owned();
        s.append(expr);
        s
    } else {
        expr.to_owned()
    }
}

/// The next fire time of cron expression `expr` strictly after the Unix time
/// `from_unix` (seconds, UTC), as the `cron` crate computes it: `Err` with the
/// text of the crate's parse error when it does not accept the expression,
/// `Ok(None)` when no fire time follows.
pub uninterp spec fn cron_next_fire(expr: Seq<char>, from_unix: int) -> Result<Option<int>, Seq<char>>;

/// Unix times (seconds) well inside the range of `chrono::DateTime<Utc>`.
pub open spec fn in_datetime_range(t: int) -> bool {
    -8_000_000_000_000 <= t <= 8_000_000_000_000
}

/// Calls `cron::Schedule::from_str` on `expr`, then `Schedule::after` on the UTC
/// instant `from_unix` and takes the first item; a parse error is handed back as
/// its display text. Claimed: the result is the named `cron_next_fire` of the
/// arguments, and a fire time is at least one second after `from_unix` (the
/// crate starts its search one second later).
#[verifier::external_body]
fn cron_next_after(expr: &str, from_unix: i64) -> (r: Result<Option<i64>, String>)
    requires
        in_datetime_range(from_unix as int),
    ensures
        match cron_next_fire(expr@, from_unix as int) {
            Err(m) => r matches Err(e) && e@ == m,
            Ok(None) => r matches Ok(None),
            Ok(Some(t)) => r matches Ok(Some(x)) && x == t,
        },
        r matches Ok(Some(x)) ==> x > from_unix,
{
    let from = chrono::DateTime::from_timestamp(from_unix, 0).unwrap();
    match cron::Schedule::from_str(expr) {
        Ok(s) => Ok(s.after(&from).next().map(|t| t.timestamp())),
        Err(e) => Err(e.to_string()),
    }
}

/// The message of an unparsable cron expression, after the parser's own `error`.
pub open spec fn invalid_cron_message(expr: Seq<char>, error: Seq<char>) -> Seq<char> {
    "invalid cron '"@ + expr + "': "@ + error
}

/// The message of a cron expression that never fires again.
pub open spec fn exhausted_cron_message(expr: Seq<char>) -> Seq<char> {
    "cron '"@ + expr + "' has no next time"@
}

/// The whole seconds from the instant `from_unix` s + `from_nanos` ns to the
/// whole second `t`, truncated, and 0 when `t` is not later.
pub open spec fn whole_secs_until(t: int, from_unix: int, from_nanos: u32) -> int {
    let d = t - from_unix - (if from_nanos > 0 { 1int } else { 0int });
    if d > 0 { d } else { 0 }
}

/// The delay, in seconds, that a cron lookup outcome gives from the instant
/// `from_unix` s + `from_nanos` ns, or the error message.
pub open spec fn cron_delay(expr: Seq<char>, from_unix: int, from_nanos: u32, outcome: Result<Option<int>, Seq<char>>) -> Result<int, Seq<char>> {
    match outcome {
        Err(e) => Err(invalid_cron_message(expr, e)),
        Ok(None) => Err(exhausted_cron_message(expr)),
        Ok(Some(t)) => Ok(whole_secs_until(t, from_unix, from_nanos)),
    }
}

/// The outcome of a cron lookup, as a value of the model.
pub open spec fn outcome_view(o: Result<Option<i64>, String>) -> Result<Option<int>, Seq<char>> {
    match o {
        Err(e) => Err(e@),
        Ok(None) => Ok(None),
        Ok(Some(t)) => Ok(Some(t as int)),
    }
}

/// `r` reports delay-or-message `d`.
pub open spec fn reports(r: Result<Duration, CoreError>, d: Result<int, Seq<char>>) -> bool {
    match d {
        Ok(secs) => r matches Ok(x) && x.secs_of() == secs && x.subsec_of() == 0,
        Err(m) => r matches Err(CoreError::Spawn(msg)) && msg@ == m,
    }
}

/// Turn the outcome of a cron lookup for `expr` from the instant `from_unix` s +
/// `from_nanos` ns into the delay until the fire.
pub fn delay_from_cron(expr: &str, from_unix: i64, from_nanos: u32, outcome: Result<Option<i64>, String>) -> (r: Result<Duration, CoreError>)
    ensures
        reports(r, cron_delay(expr@, from_unix as int, from_nanos, outcome_view(outcome))),
{
    match outcome {
        Err(e) => {
            let mut m = "invalid cron '".to_owned();
            m.append(expr);
            m.append("': ");
            m.append(e.as_str());
            Err(CoreError::Spawn(m))
        },
        Ok(None) => {
            let mut m = "cron '".to_owned();
            m.append(expr);
            m.append("' has no next time");
            Err(CoreError::Spawn(m))
        },
        Ok(Some(t)) => {
            let d: i128 = (t as i128) - (from_unix as i128) - (if from_nanos > 0 { 1i128 } else { 0i128 });
            let secs: u64 = if d <= 0 { 0 } else if d > u64::MAX as i128 { u64::MAX } else { d as u64 };
            proof {
                assert(d <= u64::MAX);
            }
            Ok(Duration::from_secs(secs))
        },
    }
}

/// The delay a schedule gives from the instant `from_unix` s + `from_nanos` ns:
/// an interval is constant; a cron expression (normalized to six fields) waits
/// until its next fire, which only the whole second of the instant decides.
pub open spec fn schedule_delay(schedule: Schedule, from_unix: int, from_nanos: u32) -> Result<int, Seq<char>> {
    match schedule {
        Schedule::IntervalSecs(n) => Ok(n as int),
        Schedule::Cron(expr) => cron_delay(expr@, from_unix, from_nanos, cron_next_fire(normalized_cron(expr@), from_unix)),
    }
}

/// Delay from the instant `from_unix` s + `from_nanos` ns (UTC) until the
/// schedule's next fire, in whole seconds.
pub fn next_delay(schedule: &Schedule, from_unix: i64, from_nanos: u32) -> (r: Result<Duration, CoreError>)
    requires
        in_datetime_range(from_unix as int),
    ensures
        reports(r, schedule_delay(*schedule, from_unix as int, from_nanos)),
{
    match schedule {
        Schedule::IntervalSecs(n) => Ok(Duration::from_secs(*n)),
        Schedule::Cron(expr) => {
            let normalized = normalize_cron(expr.as_str());
            let outcome = cron_next_after(normalized.as_str(), from_unix);
            delay_from_cron(expr.as_str(), from_unix, from_nanos, outcome)
        },
    }
}

} // verus!
