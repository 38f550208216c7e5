//! The wire protocol shared by the daemon and its clients: one JSON object per
//! line, each a request, a response or an event.

use crate::json::{get_spec, Json};
use crate::state::InstanceState;
use crate::worker::{RunMode, WorkerSpec};
use vstd::prelude::*;

verus! {

/// The error of a failed request.
#[derive(Debug, Clone, PartialEq)]
pub struct ApiError {
    pub code: String,
    pub message: String,
}

/// One protocol message.
#[derive(Debug)]
pub enum Frame {
    Request { id: u64, method: String, params: Json },
    Response { id: u64, result: Option<Json>, error: Option<ApiError> },
    Event { topic: String, payload: Json },
}

/// `f` is the successful response to request `id`, carrying `result`.
pub open spec fn is_ok(f: Frame, id: u64, result: Json) -> bool {
    f == Frame::Response { id, result: Some(result), error: None }
}

/// `f` is the failed response to request `id` with error `code` and `message`.
pub open spec fn is_err(f: Frame, id: u64, code: Seq<char>, message: Seq<char>) -> bool {
    f matches Frame::Response { id: rid, result: None, error: Some(e) }
        && rid == id && e.code@ == code && e.message@ == message
}

/// `j` is an object whose member names are exactly `keys`, in order.
pub open spec fn has_members(j: Json, keys: Seq<Seq<char>>) -> bool {
    j matches Json::Object(m) && m@.len() == keys.len()
        && forall|i: int| 0 <= i < keys.len() ==> (#[trigger] m@[i]).0@ == keys[i]
}

/// `j` is the one-member object `{key: v}`.
pub open spec fn is_single(j: Json, key: Seq<char>, v: Json) -> bool {
    j matches Json::Object(m) && m@.len() == 1 && m@[0].0@ == key && m@[0].1 == v
}

/// A one-member object `{key: value}`.
pub fn single(key: &str, value: Json) -> (j: Json)
    ensures
        is_single(j, key@, value),
{
    Json::Object(vec![(key.to_owned(), value)])
}

/// A string value.
pub fn text(s: &str) -> (j: Json)
    ensures
        j matches Json::Str(t) && t@ == s@,
{
    Json::Str(s.to_owned())
}

impl Frame {
    /// The successful response to request `id`.
    pub fn ok(id: u64, result: Json) -> (f: Frame)
        ensures
            is_ok(f, id, result),
    {
        Frame::Response { id, result: Some(result), error: None }
    }

    /// The failed response to request `id`.
    pub fn err(id: u64, code: &str, message: &str) -> (f: Frame)
        ensures
            is_err(f, id, code@, message@),
    {
        Frame::Response {
            id,
            result: None,
            error: Some(ApiError { code: code.to_owned(), message: message.to_owned() }),
        }
    }
}

/// Status of one worker as reported by `list_workers`.
#[derive(Debug, Clone, PartialEq)]
pub struct WorkerStatus {
    pub name: String,
    pub run_mode: RunMode,
    pub instances: Vec<InstanceStatus>,
}

/// Status of one instance as reported by `list_workers`.
#[derive(Debug, Clone, Copy, PartialEq, Eq, Structural)]
pub struct InstanceStatus {
    pub index: u32,
    pub state: InstanceState,
    pub restart_count: u32,
    pub pid: Option<u32>,
}

/// Params for `add_worker`: a full worker definition.
#[derive(Debug, Clone, PartialEq)]
pub struct AddWorkerParams {
    pub spec: WorkerSpec,
}

/// Params for the single-name methods (start/stop/remove).
#[derive(Debug, Clone, PartialEq)]
pub struct NameParams {
    pub name: String,
}

/// Params for `hello`.
#[derive(Debug, Clone, PartialEq)]
pub struct HelloParams {
    pub token: String,
}

/// Params for `subscribe`.
#[derive(Debug, Clone, PartialEq)]
pub struct SubscribeParams {
    pub topics: Vec<String>,
    pub worker: Option<String>,
}

/// Payload of a `state` event.
#[derive(Debug, Clone, PartialEq)]
pub struct StateEvent {
    pub worker: String,
    pub instance: u32,
    pub from: InstanceState,
    pub to: InstanceState,
}

/// Payload of a `log` event.
#[derive(Debug, Clone, PartialEq)]
pub struct LogEvent {
    pub worker: String,
    pub instance: u32,
    pub stream: String,
    pub line: String,
}

/// Reply to `daemon_info`.
#[derive(Debug, Clone, PartialEq)]
pub struct DaemonInfo {
    pub version: String,
    pub uptime_secs: u64,
    pub worker_count: u32,
    pub running_count: u32,
}

/// The text of `member` of `j` when it is a string.
pub open spec fn str_member(j: Json, member: Seq<char>) -> Option<Seq<char>> {
    match get_spec(j, member) {
        Some(Json::Str(s)) => Some(s@),
        _ => None,
    }
}


/// The restarts of all `instances` together.
pub open spec fn restarts_sum(instances: Seq<InstanceStatus>) -> int
    decreases instances.len(),
{
    if instances.len() == 0 {
        0
    } else {
        restarts_sum(instances.drop_last()) + instances.last().restart_count
    }
}

proof fn lemma_restarts_sum_grows(s: Seq<InstanceStatus>, i: int)
    requires
        0 <= i <= s.len(),
    ensures
        restarts_sum(s.take(i)) <= restarts_sum(s),
    decreases s.len() - i,
{
    if i < s.len() {
        lemma_restarts_sum_grows(s, i + 1);
        assert(s.take(i + 1).drop_last() =~= s.take(i));
    } else {
        assert(s.take(i) =~= s);
    }
}

/// The restart count that a status listing shows for a worker: the restarts
/// of all its instances added up; none when that total does not fit in a `u32`.
pub fn restart_total(instances: &Vec<InstanceStatus>) -> (r: Option<u32>)
    ensures
        r == (if restarts_sum(instances@) <= u32::MAX { Some(restarts_sum(instances@) as u32) } else { None }),
{
    let mut total: u32 = 0;
    let mut i: usize = 0;
    while i < instances.len()
        invariant
            i <= instances.len(),
            total == restarts_sum(instances@.take(i as int)),
        decreases instances.len() - i,
    {
        assert(instances@.take(i + 1).drop_last() =~= instances@.take(i as int));
        match total.checked_add(instances[i].restart_count) {
            Some(t) => total = t,
            None => {
                proof {
                    lemma_restarts_sum_grows(instances@, i + 1);
                }
                return None;
            },
        }
        i = i + 1;
    }
    assert(instances@.take(i as int) =~= instances@);
    Some(total)
}

} // verus!
