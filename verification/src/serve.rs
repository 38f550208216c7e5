//! What the daemon answers on a client connection: the authentication
//! handshake, method dispatch, the replies, and which events a subscriber gets.

use crate::event::{SupervisorEvent, WorkerStatusCore};
use crate::ipc::{has_members, is_err, is_ok, is_single, single, str_member, text, Frame, InstanceStatus, WorkerStatus};
use crate::json::{get_spec, member, string_elements, string_items, Json};
use crate::state::{snake_case, variant_name, InstanceState};
use crate::text::{chars_of, push_decimal, str_eq, string_of};
use crate::worker::{clone_run_mode, WorkerSpec};
use vstd::prelude::*;
use vstd::string::StringExecFns;

verus! {

/// The first request of a connection must be `hello` carrying the daemon's token.
pub open spec fn hello_accepted(method: Seq<char>, params: Json, token: Seq<char>) -> bool {
    method == "hello"@ && str_member(params, "token"@) == Some(token)
}

/// `f` is the successful response to `id` whose result is the one-member
/// object `{key: v}` with `v` satisfying `ok_value`.
pub open spec fn answers_with(f: Frame, id: u64, key: Seq<char>, ok_value: spec_fn(Json) -> bool) -> bool {
    f matches Frame::Response { id: rid, result: Some(r), error: None } && rid == id
        && (r matches Json::Object(m) && m@.len() == 1 && m@[0].0@ == key && ok_value(m@[0].1))
}

/// What the connection handler does with one incoming frame.
pub enum ConnAction {
    /// Write this reply and keep reading.
    Reply(Frame),
    /// Write this reply and close the connection.
    ReplyAndClose(Frame),
    /// Write the acknowledgement, then forward the matching events.
    Subscribe { ack: Frame, topics: Vec<String>, worker: Option<String> },
    /// Serve the request (see `plan`).
    Dispatch { id: u64, method: String, params: Json },
    /// Not a request: ignore it.
    Skip,
}

/// The kind of a connection action, as a value of the model.
#[derive(PartialEq, Eq, Structural)]
pub enum ActionKind {
    Reply,
    Close,
    Subscribe,
    Dispatch,
    Skip,
}

pub open spec fn kind_of(a: ConnAction) -> ActionKind {
    match a {
        ConnAction::Reply(_) => ActionKind::Reply,
        ConnAction::ReplyAndClose(_) => ActionKind::Close,
        ConnAction::Subscribe { .. } => ActionKind::Subscribe,
        ConnAction::Dispatch { .. } => ActionKind::Dispatch,
        ConnAction::Skip => ActionKind::Skip,
    }
}

/// One step of the connection model: from `authed` and a frame, the new
/// `authed` and the kind of action.
pub open spec fn conn_step(authed: bool, token: Seq<char>, f: Frame) -> (bool, ActionKind) {
    match f {
        Frame::Request { id, method, params } => {
            if !authed {
                if hello_accepted(method@, params, token) {
                    (true, ActionKind::Reply)
                } else {
                    (false, ActionKind::Close)
                }
            } else if method@ == "subscribe"@ {
                (true, ActionKind::Subscribe)
            } else {
                (true, ActionKind::Dispatch)
            }
        },
        _ => (authed, ActionKind::Skip),
    }
}

/// The state of one client connection.
pub struct Connection {
    authed: bool,
}

impl Connection {
    /// The client has passed the handshake.
    pub closed spec fn authed_of(&self) -> bool {
        self.authed
    }

    /// A connection that has not yet said `hello`.
    pub fn new() -> (c: Self)
        ensures
            !c.authed_of(),
    {
        Connection { authed: false }
    }

    /// Handle one frame read from the client. Before the handshake only a
    /// `hello` with the right token is answered (with the daemon version); any
    /// other request is refused and the connection closed. After it,
    /// `subscribe` starts event forwarding and every other request is dispatched.
    pub fn on_frame(&mut self, token: &str, version: &str, frame: Frame) -> (a: ConnAction)
        ensures
            (final(self).authed_of(), kind_of(a)) == conn_step(old(self).authed_of(), token@, frame),
            frame matches Frame::Request { id, method, params } ==> {
                &&& (a matches ConnAction::Reply(f) ==> answers_with(f, id, "daemon_version"@, |v: Json| (v matches Json::Str(t) && t@ == version@)))
                &&& (a matches ConnAction::ReplyAndClose(f) ==> is_err(f, id, "unauthorized"@, "valid hello required"@))
                &&& (a matches ConnAction::Subscribe { ack, topics, worker } ==> {
                    &&& answers_with(ack, id, "subscribed"@, |v: Json| v == Json::Bool(true))
                    &&& topics@.map_values(|t: String| t@) == (match get_spec(params, "topics"@) {
                        Some(Json::Array(items)) => string_items(items@),
                        _ => Seq::empty(),
                    })
                    &&& (match worker { Some(w) => str_member(params, "worker"@) == Some(w@), None => str_member(params, "worker"@) is None })
                })
                &&& (a matches ConnAction::Dispatch { id: did, method: m, params: p } ==> did == id && m == method && p == params)
            },
    {
        proof {
            reveal_strlit("hello");
            reveal_strlit("token");
            reveal_strlit("subscribe");
            reveal_strlit("topics");
            reveal_strlit("worker");
            reveal_strlit("daemon_version");
            reveal_strlit("subscribed");
        }
        match frame {
            Frame::Request { id, method, params } => {
                if !self.authed {
                    let good = str_eq(method.as_str(), "hello") && match params.get("token") {
                        Some(t) => match t.as_str() {
                            Some(s) => str_eq(s, token),
                            None => false,
                        },
                        None => false,
                    };
                    if good {
                        self.authed = true;
                        return ConnAction::Reply(Frame::ok(id, single("daemon_version", text(version))));
                    }
                    return ConnAction::ReplyAndClose(Frame::err(id, "unauthorized", "valid hello required"));
                }
                if str_eq(method.as_str(), "subscribe") {
                    let topics = match params.get("topics") {
                        Some(t) => match t.as_array() {
                            Some(items) => string_elements(items),
                            None => Vec::new(),
                        },
                        None => Vec::new(),
                    };
                    let worker = match params.get("worker") {
                        Some(w) => match w.as_str() {
                            Some(s) => Some(s.to_owned()),
                            None => None,
                        },
                        None => None,
                    };
                    let ack = Frame::ok(id, single("subscribed", Json::Bool(true)));
                    return ConnAction::Subscribe { ack, topics, worker };
                }
                ConnAction::Dispatch { id, method, params }
            },
            _ => ConnAction::Skip,
        }
    }
}

/// The connection after the frames `fs`: whether it has passed the handshake,
/// and whether it has been closed (frames after a close are not read).
pub open spec fn conn_after(token: Seq<char>, fs: Seq<Frame>) -> (bool, bool)
    decreases fs.len(),
{
    if fs.len() == 0 {
        (false, false)
    } else {
        let (authed, closed) = conn_after(token, fs.drop_last());
        if closed {
            (authed, closed)
        } else {
            let (a, k) = conn_step(authed, token, fs.last());
            (a, k == ActionKind::Close)
        }
    }
}

/// Frame `f` is a `hello` with the daemon's token.
pub open spec fn good_hello(f: Frame, token: Seq<char>) -> bool {
    f matches Frame::Request { method, params, .. } && hello_accepted(method@, params, token)
}

proof fn lemma_authed_has_hello(token: Seq<char>, fs: Seq<Frame>)
    ensures
        conn_after(token, fs).0 ==> exists|j: int| 0 <= j < fs.len() && good_hello(#[trigger] fs[j], token),
    decreases fs.len(),
{
    if fs.len() > 0 {
        let p = fs.drop_last();
        lemma_authed_has_hello(token, p);
        if conn_after(token, p).0 {
            let j = choose|j: int| 0 <= j < p.len() && good_hello(#[trigger] p[j], token);
            assert(fs[j] == p[j]);
        } else if conn_after(token, fs).0 {
            assert(good_hello(fs[fs.len() - 1], token));
        }
    }
}

/// Law: on a connection, no request is dispatched and no subscription is made
/// unless an earlier frame was a `hello` carrying the daemon's token; and the
/// first request before that handshake that is not such a `hello` closes the connection.
pub proof fn lemma_no_service_before_hello(token: Seq<char>, fs: Seq<Frame>, k: int)
    requires
        0 <= k < fs.len(),
        !conn_after(token, fs.take(k)).1,
    ensures
        ({
            let kind = conn_step(conn_after(token, fs.take(k)).0, token, fs[k]).1;
            (kind == ActionKind::Dispatch || kind == ActionKind::Subscribe)
                ==> exists|j: int| 0 <= j < k && good_hello(#[trigger] fs[j], token)
        }),
        !conn_after(token, fs.take(k)).0 && fs[k] is Request && !good_hello(fs[k], token)
            ==> conn_after(token, fs.take(k + 1)).1,
{
    let p = fs.take(k);
    lemma_authed_has_hello(token, p);
    if conn_after(token, p).0 {
        let j = choose|j: int| 0 <= j < p.len() && good_hello(#[trigger] p[j], token);
        assert(fs[j] == p[j]);
    }
    assert(fs.take(k + 1).drop_last() == p);
    assert(fs.take(k + 1).last() == fs[k]);
}

/// The text parameter `key` of a request, or empty when absent or not a string.
pub open spec fn text_param(params: Json, key: Seq<char>) -> Seq<char> {
    match str_member(params, key) {
        Some(n) => n,
        None => Seq::empty(),
    }
}

/// The `name` parameter of a request: its text, or empty when absent or not a string.
pub open spec fn name_param(params: Json) -> Seq<char> {
    text_param(params, "name"@)
}

/// The non-negative integer parameter `key` of a request, or `default` when
/// absent or not such an integer.
pub open spec fn uint_param(params: Json, key: Seq<char>, default: u64) -> u64 {
    match get_spec(params, key) {
        Some(Json::UInt(n)) => n,
        _ => default,
    }
}

fn text_of_param(params: &Json, key: &str) -> (n: String)
    ensures
        n@ == text_param(*params, key@),
{
    match params.get(key) {
        Some(v) => match v.as_str() {
            Some(s) => s.to_owned(),
            None => String::new(),
        },
        None => String::new(),
    }
}

fn uint_of_param(params: &Json, key: &str, default: u64) -> (n: u64)
    ensures
        n == uint_param(*params, key@, default),
{
    match params.get(key) {
        Some(Json::UInt(n)) => *n,
        _ => default,
    }
}

/// The look-back window of `metrics` when the request names none: 15 minutes.
pub const DEFAULT_METRICS_WINDOW_SECS: u64 = 900;

/// How many log lines `daemon_log` returns when the request names no count.
pub const DEFAULT_LOG_LINES: u64 = 200;

/// How an authenticated request is served.
pub enum Plan {
    /// Answered at once.
    Reply(Frame),
    /// Report version, build, uptime and worker counts (see `info_result`).
    DaemonInfo,
    /// Report every stored worker with its live instances (see `list_statuses`).
    ListWorkers,
    /// Store the worker definition in the `spec` parameter (see `add_reply`).
    AddWorker,
    /// Stop the named worker, then delete its definition (see `remove_reply`).
    RemoveWorker { name: String },
    /// Look the worker up and start it (see `start_reply`).
    StartWorker { name: String },
    /// Stop the named worker (see `stop_reply`).
    StopWorker { name: String },
    /// Report the stored definition of the named worker (see `get_reply`).
    GetWorker { name: String },
    /// Acknowledge, then stop every worker and the daemon (see `shutdown_reply`).
    Shutdown,
    /// Report the samples of `worker` from the last `since_secs` seconds (see `metrics_reply`).
    Metrics { worker: String, since_secs: u64 },
    /// Report the last `lines` lines of the daemon's own log (see `log_reply`).
    DaemonLog { lines: u64 },
    /// Scan the folder `path` and report the suggestions (see `detect_reply`).
    DetectWorkers { path: String },
    /// Start every stored worker of `group` (see `group_members`, `count_reply`).
    StartGroup { group: String },
    /// Stop every stored worker of `group` (see `group_members`, `count_reply`).
    StopGroup { group: String },
    /// Report every stored definition (see `export_reply`).
    ExportWorkers,
    /// Store each definition of the `workers` parameter (see `import_items`, `count_reply`).
    ImportWorkers,
}

/// The methods an authenticated client can call, and how each is served.
pub open spec fn planned(p: Plan, id: u64, method: Seq<char>, params: Json) -> bool {
    if method == "ping"@ {
        p matches Plan::Reply(f) && answers_with(f, id, "pong"@, |v: Json| v == Json::Bool(true))
    } else if method == "daemon_info"@ {
        p is DaemonInfo
    } else if method == "list_workers"@ {
        p is ListWorkers
    } else if method == "add_worker"@ {
        p is AddWorker
    } else if method == "remove_worker"@ {
        p matches Plan::RemoveWorker { name } && name@ == name_param(params)
    } else if method == "start_worker"@ {
        p matches Plan::StartWorker { name } && name@ == name_param(params)
    } else if method == "stop_worker"@ {
        p matches Plan::StopWorker { name } && name@ == name_param(params)
    } else if method == "get_worker"@ {
        p matches Plan::GetWorker { name } && name@ == name_param(params)
    } else if method == "shutdown"@ {
        p is Shutdown
    } else if method == "metrics"@ {
        p matches Plan::Metrics { worker, since_secs } && worker@ == text_param(params, "worker"@)
            && since_secs == uint_param(params, "since_secs"@, DEFAULT_METRICS_WINDOW_SECS)
    } else if method == "daemon_log"@ {
        p matches Plan::DaemonLog { lines } && lines == uint_param(params, "lines"@, DEFAULT_LOG_LINES)
    } else if method == "detect_workers"@ {
        p matches Plan::DetectWorkers { path } && path@ == text_param(params, "path"@)
    } else if method == "start_group"@ {
        p matches Plan::StartGroup { group } && group@ == text_param(params, "group"@)
    } else if method == "stop_group"@ {
        p matches Plan::StopGroup { group } && group@ == text_param(params, "group"@)
    } else if method == "export_workers"@ {
        p is ExportWorkers
    } else if method == "import_workers"@ {
        p is ImportWorkers
    } else {
        p matches Plan::Reply(f) && is_err(f, id, "unknown_method"@, "no such method: "@ + method)
    }
}

/// Decide how to serve request `id` calling `method` with `params`.
pub fn plan(id: u64, method: &str, params: &Json) -> (p: Plan)
    ensures
        planned(p, id, method@, *params),
{
    proof {
        reveal_strlit("ping");
        reveal_strlit("pong");
        reveal_strlit("daemon_info");
        reveal_strlit("list_workers");
        reveal_strlit("add_worker");
        reveal_strlit("remove_worker");
        reveal_strlit("start_worker");
        reveal_strlit("stop_worker");
        reveal_strlit("get_worker");
        reveal_strlit("shutdown");
        reveal_strlit("metrics");
        reveal_strlit("daemon_log");
        reveal_strlit("detect_workers");
        reveal_strlit("start_group");
        reveal_strlit("stop_group");
        reveal_strlit("export_workers");
        reveal_strlit("import_workers");
        reveal_strlit("name");
    }
    if str_eq(method, "ping") {
        Plan::Reply(Frame::ok(id, single("pong", Json::Bool(true))))
    } else if str_eq(method, "daemon_info") {
        Plan::DaemonInfo
    } else if str_eq(method, "list_workers") {
        Plan::ListWorkers
    } else if str_eq(method, "add_worker") {
        Plan::AddWorker
    } else if str_eq(method, "remove_worker") {
        Plan::RemoveWorker { name: text_of_param(params, "name") }
    } else if str_eq(method, "start_worker") {
        Plan::StartWorker { name: text_of_param(params, "name") }
    } else if str_eq(method, "stop_worker") {
        Plan::StopWorker { name: text_of_param(params, "name") }
    } else if str_eq(method, "get_worker") {
        Plan::GetWorker { name: text_of_param(params, "name") }
    } else if str_eq(method, "shutdown") {
        Plan::Shutdown
    } else if str_eq(method, "metrics") {
        Plan::Metrics {
            worker: text_of_param(params, "worker"),
            since_secs: uint_of_param(params, "since_secs", DEFAULT_METRICS_WINDOW_SECS),
        }
    } else if str_eq(method, "daemon_log") {
        Plan::DaemonLog { lines: uint_of_param(params, "lines", DEFAULT_LOG_LINES) }
    } else if str_eq(method, "detect_workers") {
        Plan::DetectWorkers { path: text_of_param(params, "path") }
    } else if str_eq(method, "start_group") {
        Plan::StartGroup { group: text_of_param(params, "group") }
    } else if str_eq(method, "stop_group") {
        Plan::StopGroup { group: text_of_param(params, "group") }
    } else if str_eq(method, "export_workers") {
        Plan::ExportWorkers
    } else if str_eq(method, "import_workers") {
        Plan::ImportWorkers
    } else {
        let mut m = "no such method: ".to_owned();
        m.append(method);
        Plan::Reply(Frame::err(id, "unknown_method", m.as_str()))
    }
}

/// Some instance of `w` is running.
pub open spec fn is_running(w: WorkerStatusCore) -> bool {
    exists|i: int| 0 <= i < w.instances@.len() && (#[trigger] w.instances@[i]).state == InstanceState::Running
}

/// How many of `ws` have a running instance.
pub open spec fn running_count(ws: Seq<WorkerStatusCore>) -> nat
    decreases ws.len(),
{
    if ws.len() == 0 {
        0
    } else {
        running_count(ws.drop_last()) + if is_running(ws.last()) { 1nat } else { 0nat }
    }
}

fn any_running(w: &WorkerStatusCore) -> (b: bool)
    ensures
        b == is_running(*w),
{
    let mut i: usize = 0;
    while i < w.instances.len()
        invariant
            i <= w.instances.len(),
            forall|k: int| 0 <= k < i ==> (#[trigger] w.instances@[k]).state != InstanceState::Running,
        decreases w.instances.len() - i,
    {
        if w.instances[i].state == InstanceState::Running {
            return true;
        }
        i = i + 1;
    }
    false
}

/// The result of `daemon_info`: `{version, build, uptime_secs, worker_count,
/// running_count}`, the counts taken modulo 2^32 as `u32`.
pub fn info_result(version: &str, build: &str, uptime_secs: u64, status: &Vec<WorkerStatusCore>) -> (j: Json)
    ensures
        has_members(j, seq!["version"@, "build"@, "uptime_secs"@, "worker_count"@, "running_count"@]),
        str_member(j, "version"@) == Some(version@),
        str_member(j, "build"@) == Some(build@),
        get_spec(j, "uptime_secs"@) == Some(Json::UInt(uptime_secs)),
        get_spec(j, "worker_count"@) == Some(Json::UInt((status@.len() as u32) as u64)),
        get_spec(j, "running_count"@) == Some(Json::UInt((running_count(status@) as u32) as u64)),
{
    let mut running: u64 = 0;
    let mut i: usize = 0;
    while i < status.len()
        invariant
            i <= status.len(),
            running == running_count(status@.take(i as int)),
            running <= i,
        decreases status.len() - i,
    {
        assert(status@.take(i + 1).drop_last() == status@.take(i as int));
        if any_running(&status[i]) {
            running = running + 1;
        }
        i = i + 1;
    }
    assert(status@.take(status.len() as int) == status@);
    let worker_count = #[verifier::truncate] (status.len() as u32);
    let running_count32 = #[verifier::truncate] (running as u32);
    let members = vec![
        ("version".to_owned(), text(version)),
        ("build".to_owned(), text(build)),
        ("uptime_secs".to_owned(), Json::UInt(uptime_secs)),
        ("worker_count".to_owned(), Json::UInt(worker_count as u64)),
        ("running_count".to_owned(), Json::UInt(running_count32 as u64)),
    ];
    proof {
        reveal_strlit("version");
        reveal_strlit("build");
        reveal_strlit("uptime_secs");
        reveal_strlit("worker_count");
        reveal_strlit("running_count");
        reveal_with_fuel(member, 6);
        let m = members@;
        assert(m.drop_first()[0] == m[1]);
        assert(m.drop_first().drop_first()[0] == m[2]);
        assert(m.drop_first().drop_first().drop_first()[0] == m[3]);
        assert(m.drop_first().drop_first().drop_first().drop_first()[0] == m[4]);
        assert("version"@.len() == 7);
        assert("build"@.len() == 5);
        assert("uptime_secs"@.len() == 11);
        assert("worker_count"@.len() == 12);
        assert("running_count"@.len() == 13);
        assert("worker_count"@[0] != "running_count"@[0]);
        assert(member(m, "build"@) == Some(m[1].1));
        assert(member(m, "uptime_secs"@) == Some(m[2].1));
        assert(member(m, "worker_count"@) == Some(m[3].1));
        assert(member(m, "running_count"@) == Some(m[4].1));
    }
    Json::Object(members)
}

/// The live instances of the stored workers `names`, in order: each takes the
/// instances of the first not yet taken live worker with its name, or none.
pub open spec fn overlay(names: Seq<Seq<char>>, live: Seq<WorkerStatusCore>) -> Seq<Seq<InstanceStatus>>
    decreases names.len(),
{
    if names.len() == 0 {
        Seq::empty()
    } else {
        let k = first_named(live, names[0], 0);
        if k < live.len() {
            seq![live[k].instances@.map_values(|i: crate::event::InstanceStatus| wire_instance(i))]
                + overlay(names.drop_first(), live.remove(k))
        } else {
            seq![Seq::empty()] + overlay(names.drop_first(), live)
        }
    }
}

/// Position of the first worker of `live` at or after `i` named `name` (`live.len()` when none).
pub open spec fn first_named(live: Seq<WorkerStatusCore>, name: Seq<char>, i: int) -> int
    decreases live.len() - i,
{
    if i < 0 || i >= live.len() {
        live.len() as int
    } else if live[i].name@ == name {
        i
    } else {
        first_named(live, name, i + 1)
    }
}

/// An instance status as reported on the wire.
pub open spec fn wire_instance(i: crate::event::InstanceStatus) -> InstanceStatus {
    InstanceStatus { index: i.index, state: i.state, restart_count: i.restart_count, pid: i.pid }
}

proof fn lemma_overlay_len(names: Seq<Seq<char>>, live: Seq<WorkerStatusCore>)
    ensures
        overlay(names, live).len() == names.len(),
    decreases names.len(),
{
    if names.len() > 0 {
        let k = first_named(live, names[0], 0);
        if k < live.len() {
            lemma_overlay_len(names.drop_first(), live.remove(k));
        } else {
            lemma_overlay_len(names.drop_first(), live);
        }
    }
}

fn to_wire(v: &Vec<crate::event::InstanceStatus>) -> (r: Vec<InstanceStatus>)
    ensures
        r@ == v@.map_values(|i: crate::event::InstanceStatus| wire_instance(i)),
{
    let mut r: Vec<InstanceStatus> = Vec::new();
    let mut i: usize = 0;
    while i < v.len()
        invariant
            i <= v.len(),
            r@ == v@.take(i as int).map_values(|i: crate::event::InstanceStatus| wire_instance(i)),
        decreases v.len() - i,
    {
        let s = v[i];
        r.push(InstanceStatus { index: s.index, state: s.state, restart_count: s.restart_count, pid: s.pid });
        assert(v@.take(i + 1).map_values(|i: crate::event::InstanceStatus| wire_instance(i))
            =~= v@.take(i as int).map_values(|i: crate::event::InstanceStatus| wire_instance(i)).push(wire_instance(v@[i as int])));
        i = i + 1;
    }
    assert(v@.take(v.len() as int) == v@);
    r
}

/// The names of stored worker definitions.
pub open spec fn spec_names(specs: Seq<crate::worker::WorkerSpec>) -> Seq<Seq<char>> {
    specs.map_values(|w: crate::worker::WorkerSpec| w.name@)
}

/// The `list_workers` report: every stored worker (`specs`, in order) with
/// its name, its run mode and the instances the manager reports for it (see `overlay`).
pub fn list_statuses(specs: &Vec<crate::worker::WorkerSpec>, live: Vec<WorkerStatusCore>) -> (out: Vec<WorkerStatus>)
    ensures
        out@.len() == specs@.len(),
        forall|i: int| 0 <= i < specs@.len() ==> {
            &&& (#[trigger] out@[i]).name@ == specs@[i].name@
            &&& out@[i].run_mode == specs@[i].run_mode
            &&& out@[i].instances@ == overlay(spec_names(specs@), live@)[i]
        },
{
    let ghost names = spec_names(specs@);
    let ghost all = overlay(names, live@);
    proof {
        lemma_overlay_len(names, live@);
    }
    let mut rest = live;
    let mut out: Vec<WorkerStatus> = Vec::new();
    let mut i: usize = 0;
    assert(names.skip(0) == names);
    while i < specs.len()
        invariant
            i <= specs.len(),
            names == spec_names(specs@),
            all == overlay(names, live@),
            out@.len() == i,
            all.len() == specs@.len(),
            forall|j: int| 0 <= j < i ==> {
                &&& (#[trigger] out@[j]).name@ == specs@[j].name@
                &&& out@[j].run_mode == specs@[j].run_mode
                &&& out@[j].instances@ == all[j]
            },
            overlay(names.skip(i as int), rest@) == all.skip(i as int),
        decreases specs.len() - i,
    {
        let ghost tail = names.skip(i as int);
        assert(tail[0] == specs@[i as int].name@);
        assert(tail.drop_first() == names.skip(i + 1));
        let name = specs[i].name.as_str();
        let mut k: usize = 0;
        while k < rest.len() && !str_eq(rest[k].name.as_str(), name)
            invariant
                k <= rest.len(),
                name@ == tail[0],
                first_named(rest@, tail[0], 0) == first_named(rest@, tail[0], k as int),
            decreases rest.len() - k,
        {
            k = k + 1;
        }
        let instances = if k < rest.len() {
            let w = rest.remove(k);
            to_wire(&w.instances)
        } else {
            Vec::new()
        };
        assert(all.skip(i as int)[0] == all[i as int]);
        assert(all.skip(i as int).drop_first() == all.skip(i + 1));
        out.push(WorkerStatus {
            name: specs[i].name.clone(),
            run_mode: clone_run_mode(&specs[i].run_mode),
            instances,
        });
        i = i + 1;
    }
    out
}

/// Whether the definition asked for was found, and how the lookup went.
pub enum Lookup {
    Found,
    Missing,
    Failed(String),
}

/// The reply to `start_worker` for `name`: `{started: true}` once found (the
/// caller starts it), `not_found` when there is no such worker, `db_error` when the store failed.
pub fn start_reply(id: u64, name: &str, lookup: Lookup) -> (f: Frame)
    ensures
        match lookup {
            Lookup::Found => answers_with(f, id, "started"@, |v: Json| v == Json::Bool(true)),
            Lookup::Missing => is_err(f, id, "not_found"@, "no worker '"@ + name@ + "'"@),
            Lookup::Failed(e) => is_err(f, id, "db_error"@, e@),
        },
{
    match lookup {
        Lookup::Found => Frame::ok(id, single("started", Json::Bool(true))),
        Lookup::Missing => {
            let mut m = "no worker '".to_owned();
            m.append(name);
            m.append("'");
            Frame::err(id, "not_found", m.as_str())
        },
        Lookup::Failed(e) => Frame::err(id, "db_error", e.as_str()),
    }
}

/// The reply to `stop_worker`: `{stopped: b}`, `b` telling whether the worker was running.
pub fn stop_reply(id: u64, stopped: bool) -> (f: Frame)
    ensures
        answers_with(f, id, "stopped"@, |v: Json| v == Json::Bool(stopped)),
{
    Frame::ok(id, single("stopped", Json::Bool(stopped)))
}

/// The reply to `remove_worker`: `{removed: b}` (`b`: a definition was deleted), or `db_error`.
pub fn remove_reply(id: u64, removed: Result<bool, String>) -> (f: Frame)
    ensures
        match removed {
            Ok(b) => answers_with(f, id, "removed"@, |v: Json| v == Json::Bool(b)),
            Err(e) => is_err(f, id, "db_error"@, e@),
        },
{
    match removed {
        Ok(b) => Frame::ok(id, single("removed", Json::Bool(b))),
        Err(e) => Frame::err(id, "db_error", e.as_str()),
    }
}

/// How an `add_worker` request went.
pub enum AddOutcome {
    /// The `spec` parameter is not a worker definition.
    BadParams(String),
    /// Stored under this name.
    Saved(String),
    /// The store failed.
    DbFailed(String),
}

/// The reply to `add_worker`: `{name}` once stored, else `bad_params` or `db_error`.
pub fn add_reply(id: u64, outcome: AddOutcome) -> (f: Frame)
    ensures
        match outcome {
            AddOutcome::BadParams(e) => is_err(f, id, "bad_params"@, e@),
            AddOutcome::Saved(n) => answers_with(f, id, "name"@, |v: Json| (v matches Json::Str(t) && t@ == n@)),
            AddOutcome::DbFailed(e) => is_err(f, id, "db_error"@, e@),
        },
{
    match outcome {
        AddOutcome::BadParams(e) => Frame::err(id, "bad_params", e.as_str()),
        AddOutcome::Saved(n) => Frame::ok(id, single("name", text(n.as_str()))),
        AddOutcome::DbFailed(e) => Frame::err(id, "db_error", e.as_str()),
    }
}

/// The name of a state on the wire (snake case).
pub open spec fn state_wire(s: InstanceState) -> Seq<char> {
    match s {
        InstanceState::Stopped => "stopped"@,
        InstanceState::Starting => "starting"@,
        InstanceState::Running => "running"@,
        InstanceState::Stopping => "stopping"@,
        InstanceState::Crashed => "crashed"@,
        InstanceState::Backoff => "backoff"@,
        InstanceState::Idle => "idle"@,
        InstanceState::Completed => "completed"@,
        InstanceState::Failed => "failed"@,
    }
}

/// The wire name of a state.
pub fn wire_name(s: InstanceState) -> (n: String)
    ensures
        n@ == state_wire(s),
{
    match s {
        InstanceState::Stopped => "stopped".to_owned(),
        InstanceState::Starting => "starting".to_owned(),
        InstanceState::Running => "running".to_owned(),
        InstanceState::Stopping => "stopping".to_owned(),
        InstanceState::Crashed => "crashed".to_owned(),
        InstanceState::Backoff => "backoff".to_owned(),
        InstanceState::Idle => "idle".to_owned(),
        InstanceState::Completed => "completed".to_owned(),
        InstanceState::Failed => "failed".to_owned(),
    }
}

/// The subscriber wants events of `worker` (no filter, or the filter names it).
pub open spec fn wanted(filter: Option<String>, worker: Seq<char>) -> bool {
    match filter {
        Some(f) => f@ == worker,
        None => true,
    }
}

/// `topics` lists `t`.
pub open spec fn lists(topics: Seq<String>, t: Seq<char>) -> bool {
    exists|i: int| 0 <= i < topics.len() && (#[trigger] topics[i])@ == t
}

fn lists_exec(topics: &Vec<String>, t: &str) -> (b: bool)
    ensures
        b == lists(topics@, t@),
{
    let mut i: usize = 0;
    while i < topics.len()
        invariant
            i <= topics.len(),
            forall|k: int| 0 <= k < i ==> (#[trigger] topics@[k])@ != t@,
        decreases topics.len() - i,
    {
        if str_eq(topics[i].as_str(), t) {
            return true;
        }
        i = i + 1;
    }
    false
}

fn wanted_exec(filter: &Option<String>, worker: &str) -> (b: bool)
    ensures
        b == wanted(*filter, worker@),
{
    match filter {
        Some(f) => str_eq(f.as_str(), worker),
        None => true,
    }
}

/// The event frame a subscriber to `topics` (and, if set, only to worker
/// `filter`) gets for a supervisor event: `state` events carry worker, instance,
/// from and to; `log` events carry worker, instance, stream and line; `metric`
/// events carry worker, instance, ts, cpu and mem; none when
/// the topic is not subscribed or the worker is filtered out.
pub fn forward(ev: &SupervisorEvent, topics: &Vec<String>, filter: &Option<String>) -> (r: Option<Frame>)
    ensures
        match *ev {
            SupervisorEvent::State { worker, instance, from, to } => {
                &&& (r is Some <==> lists(topics@, "state"@) && wanted(*filter, worker@))
                &&& (r matches Some(f) ==> (f matches Frame::Event { topic, payload } && topic@ == "state"@
                    && has_members(payload, seq!["worker"@, "instance"@, "from"@, "to"@])
                    && str_member(payload, "worker"@) == Some(worker@)
                    && get_spec(payload, "instance"@) == Some(Json::UInt(instance as u64))
                    && str_member(payload, "from"@) == Some(state_wire(from))
                    && str_member(payload, "to"@) == Some(state_wire(to))))
            },
            SupervisorEvent::Log { worker, instance, stream, line } => {
                &&& (r is Some <==> lists(topics@, "log"@) && wanted(*filter, worker@))
                &&& (r matches Some(f) ==> (f matches Frame::Event { topic, payload } && topic@ == "log"@
                    && has_members(payload, seq!["worker"@, "instance"@, "stream"@, "line"@])
                    && str_member(payload, "worker"@) == Some(worker@)
                    && get_spec(payload, "instance"@) == Some(Json::UInt(instance as u64))
                    && str_member(payload, "stream"@) == Some(stream@)
                    && str_member(payload, "line"@) == Some(line@)))
            },
            SupervisorEvent::Metric { worker, instance, ts, cpu, mem } => {
                &&& (r is Some <==> lists(topics@, "metric"@) && wanted(*filter, worker@))
                &&& (r matches Some(f) ==> (f matches Frame::Event { topic, payload } && topic@ == "metric"@
                    && has_members(payload, seq!["worker"@, "instance"@, "ts"@, "cpu"@, "mem"@])
                    && str_member(payload, "worker"@) == Some(worker@)
                    && get_spec(payload, "instance"@) == Some(Json::UInt(instance as u64))
                    && get_spec(payload, "ts"@) == Some(Json::UInt(ts))
                    && (get_spec(payload, "cpu"@) matches Some(Json::Float(t)) && t@ == cpu@)
                    && get_spec(payload, "mem"@) == Some(Json::UInt(mem))))
            },
        },
{
    proof {
        reveal_strlit("state");
        reveal_strlit("log");
        reveal_strlit("worker");
        reveal_strlit("instance");
        reveal_strlit("from");
        reveal_strlit("to");
        reveal_strlit("stream");
        reveal_strlit("line");
        reveal_with_fuel(member, 5);
    }
    match ev {
        SupervisorEvent::State { worker, instance, from, to } => {
            if !lists_exec(topics, "state") || !wanted_exec(filter, worker.as_str()) {
                return None;
            }
            let members = vec![
                ("worker".to_owned(), text(worker.as_str())),
                ("instance".to_owned(), Json::UInt(*instance as u64)),
                ("from".to_owned(), Json::Str(wire_name(*from))),
                ("to".to_owned(), Json::Str(wire_name(*to))),
            ];
            proof {
                let m = members@;
                assert(m.drop_first()[0] == m[1]);
                assert(m.drop_first().drop_first()[0] == m[2]);
                assert(m.drop_first().drop_first().drop_first()[0] == m[3]);
                assert("worker"@.len() == 6 && "instance"@.len() == 8 && "from"@.len() == 4 && "to"@.len() == 2);
                assert(member(m, "instance"@) == Some(m[1].1));
                assert(member(m, "from"@) == Some(m[2].1));
                assert(member(m, "to"@) == Some(m[3].1));
            }
            Some(Frame::Event { topic: "state".to_owned(), payload: Json::Object(members) })
        },
        SupervisorEvent::Log { worker, instance, stream, line } => {
            if !lists_exec(topics, "log") || !wanted_exec(filter, worker.as_str()) {
                return None;
            }
            let members = vec![
                ("worker".to_owned(), text(worker.as_str())),
                ("instance".to_owned(), Json::UInt(*instance as u64)),
                ("stream".to_owned(), text(stream.as_str())),
                ("line".to_owned(), text(line.as_str())),
            ];
            proof {
                let m = members@;
                assert(m.drop_first()[0] == m[1]);
                assert(m.drop_first().drop_first()[0] == m[2]);
                assert(m.drop_first().drop_first().drop_first()[0] == m[3]);
                assert("worker"@.len() == 6 && "instance"@.len() == 8 && "stream"@.len() == 6 && "line"@.len() == 4);
                assert("worker"@[0] != "stream"@[0]);
                assert(member(m, "instance"@) == Some(m[1].1));
                assert(member(m, "stream"@) == Some(m[2].1));
                assert(member(m, "line"@) == Some(m[3].1));
            }
            Some(Frame::Event { topic: "log".to_owned(), payload: Json::Object(members) })
        },
        SupervisorEvent::Metric { worker, instance, ts, cpu, mem } => {
            if !lists_exec(topics, "metric") || !wanted_exec(filter, worker.as_str()) {
                return None;
            }
            let members = vec![
                ("worker".to_owned(), text(worker.as_str())),
                ("instance".to_owned(), Json::UInt(*instance as u64)),
                ("ts".to_owned(), Json::UInt(*ts)),
                ("cpu".to_owned(), Json::Float(cpu.clone())),
                ("mem".to_owned(), Json::UInt(*mem)),
            ];
            proof {
                reveal_strlit("metric");
                reveal_strlit("ts");
                reveal_strlit("cpu");
                reveal_strlit("mem");
                reveal_with_fuel(member, 6);
                let m = members@;
                assert(m.drop_first()[0] == m[1]);
                assert(m.drop_first().drop_first()[0] == m[2]);
                assert(m.drop_first().drop_first().drop_first()[0] == m[3]);
                assert(m.drop_first().drop_first().drop_first().drop_first()[0] == m[4]);
                assert("worker"@.len() == 6 && "instance"@.len() == 8 && "ts"@.len() == 2 && "cpu"@.len() == 3 && "mem"@.len() == 3);
                assert("worker"@[0] != "ts"@[0] && "instance"@[0] != "ts"@[0]);
                assert("cpu"@[0] != "mem"@[0]);
                assert(member(m, "instance"@) == Some(m[1].1));
                assert(member(m, "ts"@) == Some(m[2].1));
                assert(member(m, "cpu"@) == Some(m[3].1));
                assert(member(m, "mem"@) == Some(m[4].1));
            }
            Some(Frame::Event { topic: "metric".to_owned(), payload: Json::Object(members) })
        },
    }
}

/// The event telling a subscriber that `dropped` events were lost because it read too slowly.
pub fn lagged(dropped: u64) -> (f: Frame)
    ensures
        f matches Frame::Event { topic, payload } && topic@ == "lagged"@
            && is_single(payload, "dropped"@, Json::UInt(dropped)),
{
    Frame::Event { topic: "lagged".to_owned(), payload: single("dropped", Json::UInt(dropped)) }
}


/// The reply to `get_worker` for `name`: the stored definition (as the caller
/// encoded it), `not_found` when there is none, `db_error` when the store failed.
pub fn get_reply(id: u64, name: &str, found: Result<Option<Json>, String>) -> (f: Frame)
    ensures
        match found {
            Ok(Some(j)) => is_ok(f, id, j),
            Ok(None) => is_err(f, id, "not_found"@, "no worker '"@ + name@ + "'"@),
            Err(e) => is_err(f, id, "db_error"@, e@),
        },
{
    match found {
        Ok(Some(j)) => Frame::ok(id, j),
        Ok(None) => {
            let mut m = "no worker '".to_owned();
            m.append(name);
            m.append("'");
            Frame::err(id, "not_found", m.as_str())
        },
        Err(e) => Frame::err(id, "db_error", e.as_str()),
    }
}

/// The acknowledgement of `shutdown`: `{shutting_down: true}`.
pub fn shutdown_reply(id: u64) -> (f: Frame)
    ensures
        answers_with(f, id, "shutting_down"@, |v: Json| v == Json::Bool(true)),
{
    Frame::ok(id, single("shutting_down", Json::Bool(true)))
}

/// A count reply: `{key: n}` (how many workers were started, stopped or imported).
pub fn count_reply(id: u64, key: &str, n: u64) -> (f: Frame)
    ensures
        answers_with(f, id, key@, |v: Json| v == Json::UInt(n)),
{
    Frame::ok(id, single(key, Json::UInt(n)))
}

/// The reply to `export_workers`: `{workers: [...]}`, the stored definitions
/// as the caller encoded them.
pub fn export_reply(id: u64, workers: Vec<Json>) -> (f: Frame)
    ensures
        answers_with(f, id, "workers"@, |v: Json| v == Json::Array(workers)),
{
    Frame::ok(id, single("workers", Json::Array(workers)))
}

/// The reply to `detect_workers`: the suggestions, as the caller encoded them.
pub fn detect_reply(id: u64, drafts: Vec<Json>) -> (f: Frame)
    ensures
        is_ok(f, id, Json::Array(drafts)),
{
    Frame::ok(id, Json::Array(drafts))
}

proof fn lemma_no_member(m: Seq<(String, Json)>, key: Seq<char>)
    requires
        forall|j: int| 0 <= j < m.len() ==> (#[trigger] m[j]).0@ != key,
    ensures
        member(m, key) is None,
    decreases m.len(),
{
    if m.len() > 0 {
        assert forall|j: int| 0 <= j < m.len() - 1 implies (#[trigger] m.drop_first()[j]).0@ != key by {
            assert(m.drop_first()[j] == m[j + 1]);
        }
        lemma_no_member(m.drop_first(), key);
    }
}

/// The definitions that the parameters of an `import_workers` request carry:
/// the elements of its `workers` array, none when it has no such array.
pub open spec fn imported(params: Json) -> Seq<Json> {
    match get_spec(params, "workers"@) {
        Some(Json::Array(a)) => a@,
        _ => Seq::<Json>::empty(),
    }
}

/// The member `key` of the result of a successful response.
pub open spec fn result_member(f: Frame, key: Seq<char>) -> Option<Json> {
    match f {
        Frame::Response { result: Some(r), error: None, .. } => get_spec(r, key),
        _ => None,
    }
}

/// The definitions an `import_workers` request carries (see `imported`).
pub fn import_items(params: Json) -> (items: Vec<Json>)
    ensures
        items@ == imported(params),
{
    proof {
        reveal_strlit("workers");
    }
    match params {
        Json::Object(members) => {
            let mut members = members;
            let ghost m = members@;
            let mut k: usize = 0;
            while k < members.len() && !str_eq(members[k].0.as_str(), "workers")
                invariant
                    k <= members.len(),
                    members@ == m,
                    forall|j: int| 0 <= j < k ==> (#[trigger] m[j]).0@ != "workers"@,
                decreases members.len() - k,
            {
                k = k + 1;
            }
            if k == members.len() {
                proof {
                    lemma_no_member(m, "workers"@);
                }
                return Vec::new();
            }
            proof {
                crate::client::lemma_member_first(m, "workers"@, k as int);
            }
            let (_, v) = members.remove(k);
            match v {
                Json::Array(a) => a,
                _ => Vec::new(),
            }
        },
        _ => Vec::new(),
    }
}

/// Exporting then importing gives back the same definitions: the `workers`
/// array of an export reply, sent as the `workers` member of an import
/// request, is imported item for item and in order.
pub proof fn lemma_export_then_import(id: u64, workers: Vec<Json>, f: Frame, params: Json)
    requires
        answers_with(f, id, "workers"@, |v: Json| v == Json::Array(workers)),
        result_member(f, "workers"@) matches Some(w) && is_single(params, "workers"@, w),
    ensures
        result_member(f, "workers"@) == Some(Json::Array(workers)),
        imported(params) == workers@,
{
    reveal_with_fuel(member, 2);
}

/// The indices of the stored definitions in group `g`, in order.
pub open spec fn in_group(specs: Seq<WorkerSpec>, g: Seq<char>) -> Seq<usize>
    decreases specs.len(),
{
    if specs.len() == 0 {
        Seq::empty()
    } else {
        let rest = in_group(specs.drop_last(), g);
        if specs.last().group matches Some(x) && x@ == g {
            rest.push((specs.len() - 1) as usize)
        } else {
            rest
        }
    }
}

/// Where in `specs` the workers of group `group` are, in order.
pub fn group_members(specs: &Vec<WorkerSpec>, group: &str) -> (ix: Vec<usize>)
    ensures
        ix@ == in_group(specs@, group@),
{
    let mut ix: Vec<usize> = Vec::new();
    let mut i: usize = 0;
    while i < specs.len()
        invariant
            i <= specs.len(),
            ix@ == in_group(specs@.take(i as int), group@),
        decreases specs.len() - i,
    {
        assert(specs@.take(i + 1).drop_last() == specs@.take(i as int));
        assert(specs@.take(i + 1).last() == specs@[i as int]);
        let member = match &specs[i].group {
            Some(x) => str_eq(x.as_str(), group),
            None => false,
        };
        if member {
            ix.push(i);
        }
        i = i + 1;
    }
    assert(specs@.take(specs.len() as int) == specs@);
    ix
}

/// Whether stored definition `spec` belongs to group `g`.
pub open spec fn belongs(spec: WorkerSpec, g: Seq<char>) -> bool {
    spec.group matches Some(x) && x@ == g
}

/// `in_group` lists exactly the positions of the definitions of the group,
/// each once and in increasing order.
pub proof fn lemma_in_group_is_the_group(specs: Seq<WorkerSpec>, g: Seq<char>)
    requires
        specs.len() <= usize::MAX,
    ensures
        forall|k: int| 0 <= k < in_group(specs, g).len() ==>
            (#[trigger] in_group(specs, g)[k]) < specs.len() && belongs(specs[in_group(specs, g)[k] as int], g),
        forall|k: int, l: int| 0 <= k < l < in_group(specs, g).len() ==>
            #[trigger] in_group(specs, g)[k] < #[trigger] in_group(specs, g)[l],
        forall|i: int| 0 <= i < specs.len() && #[trigger] belongs(specs[i], g) ==>
            in_group(specs, g).contains(i as usize),
    decreases specs.len(),
{
    if specs.len() > 0 {
        let init = specs.drop_last();
        lemma_in_group_is_the_group(init, g);
        let rest = in_group(init, g);
        let all = in_group(specs, g);
        let last = (specs.len() - 1) as usize;
        assert(last as int == specs.len() - 1);
        assert forall|k: int| 0 <= k < rest.len() implies (#[trigger] rest[k]) < init.len()
            && belongs(specs[rest[k] as int], g) by {
            assert(specs[rest[k] as int] == init[rest[k] as int]);
        }
        if belongs(specs.last(), g) {
            assert(all == rest.push(last));
            assert forall|k: int| 0 <= k < all.len() implies
                (#[trigger] all[k]) < specs.len() && belongs(specs[all[k] as int], g) by {
                if k < rest.len() {
                    assert(all[k] == rest[k]);
                }
            }
            assert forall|k: int, l: int| 0 <= k < l < all.len() implies #[trigger] all[k] < #[trigger] all[l] by {
                assert(all[k] == rest[k]);
                if l < rest.len() {
                    assert(all[l] == rest[l]);
                }
            }
        } else {
            assert(all == rest);
        }
        assert forall|i: int| 0 <= i < specs.len() && #[trigger] belongs(specs[i], g)
            implies all.contains(i as usize) by {
            if i < specs.len() - 1 {
                assert(init[i] == specs[i]);
                assert(belongs(init[i], g));
                assert(rest.contains(i as usize));
                let k = choose|k: int| 0 <= k < rest.len() && rest[k] == i as usize;
                if belongs(specs.last(), g) {
                    assert(all[k] == i as usize);
                } else {
                    assert(all[k] == i as usize);
                }
            } else {
                assert(all.last() == i as usize);
            }
        }
    }
}

/// How many of `outcomes` are `true`.
pub open spec fn count_true(outcomes: Seq<bool>) -> nat
    decreases outcomes.len(),
{
    if outcomes.len() == 0 {
        0
    } else {
        count_true(outcomes.drop_last()) + if outcomes.last() { 1nat } else { 0nat }
    }
}

proof fn lemma_count_true_bounded(outcomes: Seq<bool>)
    ensures
        count_true(outcomes) <= outcomes.len(),
    decreases outcomes.len(),
{
    if outcomes.len() > 0 {
        lemma_count_true_bounded(outcomes.drop_last());
    }
}

/// All `true`: the count is the length.
proof fn lemma_count_all_true(outcomes: Seq<bool>)
    requires
        forall|k: int| 0 <= k < outcomes.len() ==> #[trigger] outcomes[k],
    ensures
        count_true(outcomes) == outcomes.len(),
    decreases outcomes.len(),
{
    if outcomes.len() > 0 {
        assert forall|k: int| 0 <= k < outcomes.len() - 1 implies #[trigger] outcomes.drop_last()[k] by {
            assert(outcomes.drop_last()[k] == outcomes[k]);
        }
        lemma_count_all_true(outcomes.drop_last());
    }
}

/// A `start_group` or `stop_group` request in progress: the members of the
/// group are visited one at a time; the caller starts or stops each and says
/// whether that touched the worker, and the reply counts the workers touched.
pub struct GroupSweep {
    members: Vec<usize>,
    tally: Tally,
}

/// What a sweep has seen so far: the reports, how many, how many were `true`.
struct Tally {
    outcomes: Ghost<Seq<bool>>,
    visited: usize,
    touched: usize,
}

impl GroupSweep {
    #[verifier::type_invariant]
    spec fn counted(self) -> bool {
        &&& self.tally.outcomes@.len() <= self.members@.len()
        &&& self.tally.visited == self.tally.outcomes@.len()
        &&& self.tally.touched == count_true(self.tally.outcomes@)
    }

    /// The positions of the members, in visiting order.
    pub closed spec fn members_of(&self) -> Seq<usize> {
        self.members@
    }

    /// What the caller reported so far, one entry per visited member.
    pub closed spec fn outcomes_of(&self) -> Seq<bool> {
        self.tally.outcomes@
    }

    /// Begin with the definitions of group `group`, none visited.
    pub fn new(specs: &Vec<WorkerSpec>, group: &str) -> (s: Self)
        ensures
            s.members_of() == in_group(specs@, group@),
            s.outcomes_of() == Seq::<bool>::empty(),
    {
        GroupSweep {
            members: group_members(specs, group),
            tally: Tally { outcomes: Ghost(Seq::empty()), visited: 0, touched: 0 },
        }
    }

    /// The position of the next member to start or stop; none when all were visited.
    pub fn next_member(&self) -> (r: Option<usize>)
        ensures
            r == (if self.outcomes_of().len() < self.members_of().len() {
                Some(self.members_of()[self.outcomes_of().len() as int])
            } else {
                None
            }),
    {
        proof {
            use_type_invariant(self);
        }
        if self.tally.visited < self.members.len() {
            Some(self.members[self.tally.visited])
        } else {
            None
        }
    }

    /// Record what starting or stopping the next member did.
    pub fn record(&mut self, touched: bool)
        requires
            old(self).outcomes_of().len() < old(self).members_of().len(),
        ensures
            final(self).members_of() == old(self).members_of(),
            final(self).outcomes_of() == old(self).outcomes_of().push(touched),
    {
        proof {
            use_type_invariant(&*self);
            lemma_count_true_bounded(self.tally.outcomes@);
        }
        let ghost next = self.tally.outcomes@.push(touched);
        assert(next.drop_last() =~= self.tally.outcomes@);
        assert(self.tally.visited < self.members.len());
        let count = if touched { self.tally.touched + 1 } else { self.tally.touched };
        self.tally = Tally { outcomes: Ghost(next), visited: self.tally.visited + 1, touched: count };
    }

    /// The reply once every member was visited: `{key: n}` with `n` the
    /// number of members reported as touched.
    pub fn reply(&self, id: u64, key: &str) -> (f: Frame)
        ensures
            answers_with(f, id, key@, |v: Json| v == Json::UInt(count_true(self.outcomes_of()) as u64)),
    {
        proof {
            use_type_invariant(self);
        }
        count_reply(id, key, self.tally.touched as u64)
    }
}

/// Starting a group starts exactly its workers and reports their number:
/// when every start of the sweep is recorded as done, the sweep has visited
/// the positions of all definitions of the group, each once, and nothing
/// else, and the reply's count is how many there are.
pub proof fn lemma_group_start_reports_its_members(specs: Seq<WorkerSpec>, g: Seq<char>, outcomes: Seq<bool>)
    requires
        specs.len() <= usize::MAX,
        outcomes.len() == in_group(specs, g).len(),
        forall|k: int| 0 <= k < outcomes.len() ==> #[trigger] outcomes[k],
    ensures
        count_true(outcomes) == in_group(specs, g).len(),
        forall|k: int| 0 <= k < in_group(specs, g).len() ==> belongs(specs[#[trigger] in_group(specs, g)[k] as int], g),
        forall|i: int| 0 <= i < specs.len() && #[trigger] belongs(specs[i], g) ==> in_group(specs, g).contains(i as usize),
        forall|k: int, l: int| 0 <= k < l < in_group(specs, g).len() ==>
            #[trigger] in_group(specs, g)[k] != #[trigger] in_group(specs, g)[l],
{
    lemma_count_all_true(outcomes);
    lemma_in_group_is_the_group(specs, g);
}

/// The oldest sample time a `metrics` request over the last `since_secs`
/// seconds asks for, at `now`: `now - since_secs`, or 0 when that is negative.
pub fn metrics_cutoff(now: u64, since_secs: u64) -> (c: u64)
    ensures
        c == (if now >= since_secs { (now - since_secs) as u64 } else { 0u64 }),
{
    now.saturating_sub(since_secs)
}

/// `j` is the sample point `{ts, cpu, mem}` of `p` (time, cpu load as its
/// decimal text, memory).
pub open spec fn is_point(j: Json, p: (u64, String, u64)) -> bool {
    &&& has_members(j, seq!["ts"@, "cpu"@, "mem"@])
    &&& get_spec(j, "ts"@) == Some(Json::UInt(p.0))
    &&& (get_spec(j, "cpu"@) matches Some(Json::Float(t)) && t@ == p.1@)
    &&& get_spec(j, "mem"@) == Some(Json::UInt(p.2))
}

/// `j` is the series `{instance, points}` of `s`.
pub open spec fn is_series(j: Json, s: (u32, Vec<(u64, String, u64)>)) -> bool {
    &&& has_members(j, seq!["instance"@, "points"@])
    &&& get_spec(j, "instance"@) == Some(Json::UInt(s.0 as u64))
    &&& (get_spec(j, "points"@) matches Some(Json::Array(ps)) && ps@.len() == s.1@.len()
        && forall|k: int| 0 <= k < ps@.len() ==> is_point(#[trigger] ps@[k], s.1@[k]))
}

fn point_json(p: &(u64, String, u64)) -> (j: Json)
    ensures
        is_point(j, *p),
{
    let members = vec![
        ("ts".to_owned(), Json::UInt(p.0)),
        ("cpu".to_owned(), Json::Float(p.1.clone())),
        ("mem".to_owned(), Json::UInt(p.2)),
    ];
    proof {
        reveal_strlit("ts");
        reveal_strlit("cpu");
        reveal_strlit("mem");
        reveal_with_fuel(member, 4);
        let m = members@;
        assert(m.drop_first()[0] == m[1]);
        assert(m.drop_first().drop_first()[0] == m[2]);
        assert("ts"@.len() == 2 && "cpu"@.len() == 3 && "mem"@.len() == 3);
        assert("cpu"@[0] != "mem"@[0]);
        assert(member(m, "cpu"@) == Some(m[1].1));
        assert(member(m, "mem"@) == Some(m[2].1));
    }
    Json::Object(members)
}

fn series_json(s: &(u32, Vec<(u64, String, u64)>)) -> (j: Json)
    ensures
        is_series(j, *s),
{
    let mut points: Vec<Json> = Vec::new();
    let mut k: usize = 0;
    while k < s.1.len()
        invariant
            k <= s.1.len(),
            points@.len() == k,
            forall|i: int| 0 <= i < k ==> is_point(#[trigger] points@[i], s.1@[i]),
        decreases s.1.len() - k,
    {
        points.push(point_json(&s.1[k]));
        k = k + 1;
    }
    let ghost ps = points;
    let members = vec![("instance".to_owned(), Json::UInt(s.0 as u64)), ("points".to_owned(), Json::Array(points))];
    proof {
        reveal_strlit("instance");
        reveal_strlit("points");
        reveal_with_fuel(member, 3);
        let m = members@;
        assert(m.drop_first()[0] == m[1]);
        assert("instance"@.len() == 8 && "points"@.len() == 6);
        assert(member(m, "points"@) == Some(m[1].1));
    }
    Json::Object(members)
}

/// The reply to `metrics`: one `{instance, points}` object per series, in order.
pub fn metrics_reply(id: u64, series: &Vec<(u32, Vec<(u64, String, u64)>)>) -> (f: Frame)
    ensures
        f matches Frame::Response { id: rid, result: Some(Json::Array(a)), error: None } && rid == id
            && a@.len() == series@.len()
            && forall|i: int| 0 <= i < a@.len() ==> is_series(#[trigger] a@[i], series@[i]),
{
    let mut out: Vec<Json> = Vec::new();
    let mut i: usize = 0;
    while i < series.len()
        invariant
            i <= series.len(),
            out@.len() == i,
            forall|k: int| 0 <= k < i ==> is_series(#[trigger] out@[k], series@[k]),
        decreases series.len() - i,
    {
        out.push(series_json(&series[i]));
        i = i + 1;
    }
    Frame::ok(id, Json::Array(out))
}

/// Where the last `k` lines before position `j` of `s` start (0 when there are fewer).
pub open spec fn tail_start(s: Seq<char>, j: int, k: nat) -> int
    decreases j,
{
    if j <= 0 || j > s.len() {
        0
    } else if s[j - 1] == '\n' {
        if k <= 1 { j } else { tail_start(s, j - 1, (k - 1) as nat) }
    } else {
        tail_start(s, j - 1, k)
    }
}

/// The last `n` lines of `s`, with their own line ends (all of `s` when it
/// has fewer; nothing for `n == 0`).
pub open spec fn tail_lines(s: Seq<char>, n: nat) -> Seq<char> {
    if n == 0 {
        Seq::empty()
    } else {
        let end = if s.len() > 0 && s.last() == '\n' { s.len() - 1 } else { s.len() as int };
        s.subrange(tail_start(s, end, n), s.len() as int)
    }
}

proof fn lemma_tail_start(s: Seq<char>, j: int, k: nat)
    ensures
        0 <= tail_start(s, j, k) <= (if 0 <= j <= s.len() { j } else { 0 }),
    decreases j,
{
    if 0 < j <= s.len() {
        if s[j - 1] == '\n' {
            if k > 1 {
                lemma_tail_start(s, j - 1, (k - 1) as nat);
            }
        } else {
            lemma_tail_start(s, j - 1, k);
        }
    }
}

/// The last `lines` lines of the log text `log`.
pub fn log_tail(log: &str, lines: u64) -> (t: String)
    ensures
        t@ == tail_lines(log@, lines as nat),
{
    if lines == 0 {
        return String::new();
    }
    let cs = chars_of(log);
    let n = cs.len();
    let end: usize = if n > 0 && cs[n - 1] == '\n' { n - 1 } else { n };
    let ghost target = tail_start(cs@, end as int, lines as nat);
    let mut j = end;
    let mut k = lines;
    while j > 0
        invariant
            n == cs.len(),
            cs@ == log@,
            j <= end <= n,
            k >= 1,
            lines >= 1,
            tail_start(cs@, j as int, k as nat) == target,
            target == tail_start(cs@, end as int, lines as nat),
            cs@.len() > 0 && cs@.last() == '\n' ==> end == cs@.len() - 1,
            !(cs@.len() > 0 && cs@.last() == '\n') ==> end == cs@.len(),
        decreases j,
    {
        if cs[j - 1] == '\n' {
            if k <= 1 {
                proof {
                    lemma_tail_start(cs@, end as int, lines as nat);
                    assert(tail_start(cs@, j as int, k as nat) == j);
                    assert(cs@.len() > 0 && cs@.last() == '\n' ==> end == cs@.len() - 1);
                    assert(!(cs@.len() > 0 && cs@.last() == '\n') ==> end == cs@.len());
                }
                return string_of(&cs, j, n);
            }
            k = k - 1;
        }
        j = j - 1;
    }
    proof {
        lemma_tail_start(cs@, end as int, lines as nat);
        assert(cs@.len() > 0 && cs@.last() == '\n' ==> end == cs@.len() - 1);
        assert(!(cs@.len() > 0 && cs@.last() == '\n') ==> end == cs@.len());
    }
    string_of(&cs, 0, n)
}

/// The reply to `daemon_log`: `{log: text}`.
pub fn log_reply(id: u64, log: String) -> (f: Frame)
    ensures
        answers_with(f, id, "log"@, |v: Json| (v matches Json::Str(t) && t@ == log@)),
{
    Frame::ok(id, single("log", Json::Str(log)))
}


/// Law: a state's name on the wire is the snake-case form of its variant
/// name, so different states are told apart on the wire.
pub proof fn lemma_wire_names_are_snake_case(a: InstanceState, b: InstanceState)
    ensures
        state_wire(a) == snake_case(variant_name(a)),
        a != b ==> state_wire(a) != state_wire(b),
{
    reveal_strlit("stopped");
    reveal_strlit("starting");
    reveal_strlit("running");
    reveal_strlit("stopping");
    reveal_strlit("crashed");
    reveal_strlit("backoff");
    reveal_strlit("idle");
    reveal_strlit("completed");
    reveal_strlit("failed");
    reveal_strlit("Stopped");
    reveal_strlit("Starting");
    reveal_strlit("Running");
    reveal_strlit("Stopping");
    reveal_strlit("Crashed");
    reveal_strlit("Backoff");
    reveal_strlit("Idle");
    reveal_strlit("Completed");
    reveal_strlit("Failed");
    assert(state_wire(a) =~= snake_case(variant_name(a)));
    if a != b {
        assert(state_wire(a).len() != state_wire(b).len() || state_wire(a)[0] != state_wire(b)[0]
            || state_wire(a)[1] != state_wire(b)[1] || state_wire(a)[3] != state_wire(b)[3]
            || state_wire(a)[4] != state_wire(b)[4]);
    }
}

/// Law: a request to remove, start, stop or look up a worker names the worker
/// by its string `name` parameter: the plan is for exactly that worker.
pub proof fn lemma_worker_requests_use_the_name(p: Plan, id: u64, method: Seq<char>, params: Json, n: String)
    requires
        planned(p, id, method, params),
        get_spec(params, "name"@) == Some(Json::Str(n)),
    ensures
        method == "remove_worker"@ ==> (p matches Plan::RemoveWorker { name } && name@ == n@),
        method == "start_worker"@ ==> (p matches Plan::StartWorker { name } && name@ == n@),
        method == "stop_worker"@ ==> (p matches Plan::StopWorker { name } && name@ == n@),
        method == "get_worker"@ ==> (p matches Plan::GetWorker { name } && name@ == n@),
{
    reveal_strlit("ping");
    reveal_strlit("daemon_info");
    reveal_strlit("list_workers");
    reveal_strlit("add_worker");
    reveal_strlit("remove_worker");
    reveal_strlit("start_worker");
    reveal_strlit("stop_worker");
    reveal_strlit("get_worker");
    reveal_strlit("name");
    if method == "remove_worker"@ {
        assert("ping"@.len() != "remove_worker"@.len());
        assert("daemon_info"@.len() != "remove_worker"@.len());
        assert("list_workers"@.len() != "remove_worker"@.len());
        assert("add_worker"@.len() != "remove_worker"@.len());
        assert("start_worker"@.len() != "remove_worker"@.len());
        assert("stop_worker"@.len() != "remove_worker"@.len());
        assert("get_worker"@.len() != "remove_worker"@.len());
    }
    if method == "start_worker"@ {
        assert("ping"@.len() != "start_worker"@.len());
        assert("daemon_info"@.len() != "start_worker"@.len());
        assert("list_workers"@[0] != "start_worker"@[0]);
        assert("add_worker"@.len() != "start_worker"@.len());
        assert("remove_worker"@.len() != "start_worker"@.len());
        assert("stop_worker"@.len() != "start_worker"@.len());
        assert("get_worker"@.len() != "start_worker"@.len());
    }
    if method == "stop_worker"@ {
        assert("ping"@.len() != "stop_worker"@.len());
        assert("daemon_info"@[0] != "stop_worker"@[0]);
        assert("list_workers"@.len() != "stop_worker"@.len());
        assert("add_worker"@.len() != "stop_worker"@.len());
        assert("remove_worker"@.len() != "stop_worker"@.len());
        assert("start_worker"@.len() != "stop_worker"@.len());
        assert("get_worker"@.len() != "stop_worker"@.len());
    }
    if method == "get_worker"@ {
        assert("ping"@.len() != "get_worker"@.len());
        assert("daemon_info"@.len() != "get_worker"@.len());
        assert("list_workers"@.len() != "get_worker"@.len());
        assert("add_worker"@[0] != "get_worker"@[0]);
        assert("remove_worker"@.len() != "get_worker"@.len());
        assert("start_worker"@.len() != "get_worker"@.len());
        assert("stop_worker"@.len() != "get_worker"@.len());
    }
}


/// Law: the other requests that name something take it from their own string
/// parameter: `metrics` its `worker`, `detect_workers` its `path`, and
/// `start_group` and `stop_group` their `group`.
pub proof fn lemma_requests_use_their_parameters(p: Plan, id: u64, method: Seq<char>, params: Json, v: String)
    requires
        planned(p, id, method, params),
    ensures
        method == "metrics"@ && get_spec(params, "worker"@) == Some(Json::Str(v)) ==> (p matches Plan::Metrics { worker, .. } && worker@ == v@),
        method == "detect_workers"@ && get_spec(params, "path"@) == Some(Json::Str(v)) ==> (p matches Plan::DetectWorkers { path } && path@ == v@),
        method == "start_group"@ && get_spec(params, "group"@) == Some(Json::Str(v)) ==> (p matches Plan::StartGroup { group } && group@ == v@),
        method == "stop_group"@ && get_spec(params, "group"@) == Some(Json::Str(v)) ==> (p matches Plan::StopGroup { group } && group@ == v@),
{
    reveal_strlit("ping");
    reveal_strlit("daemon_info");
    reveal_strlit("list_workers");
    reveal_strlit("add_worker");
    reveal_strlit("remove_worker");
    reveal_strlit("start_worker");
    reveal_strlit("stop_worker");
    reveal_strlit("get_worker");
    reveal_strlit("shutdown");
    reveal_strlit("metrics");
    reveal_strlit("daemon_log");
    reveal_strlit("detect_workers");
    reveal_strlit("start_group");
    reveal_strlit("stop_group");
    reveal_strlit("worker");
    reveal_strlit("path");
    reveal_strlit("group");
    if method == "metrics"@ {
        assert("ping"@.len() != "metrics"@.len());
        assert("daemon_info"@.len() != "metrics"@.len());
        assert("list_workers"@.len() != "metrics"@.len());
        assert("add_worker"@.len() != "metrics"@.len());
        assert("remove_worker"@.len() != "metrics"@.len());
        assert("start_worker"@.len() != "metrics"@.len());
        assert("stop_worker"@.len() != "metrics"@.len());
        assert("get_worker"@.len() != "metrics"@.len());
        assert("shutdown"@.len() != "metrics"@.len());
    }
    if method == "detect_workers"@ {
        assert("ping"@.len() != "detect_workers"@.len());
        assert("daemon_info"@.len() != "detect_workers"@.len());
        assert("list_workers"@.len() != "detect_workers"@.len());
        assert("add_worker"@.len() != "detect_workers"@.len());
        assert("remove_worker"@.len() != "detect_workers"@.len());
        assert("start_worker"@.len() != "detect_workers"@.len());
        assert("stop_worker"@.len() != "detect_workers"@.len());
        assert("get_worker"@.len() != "detect_workers"@.len());
        assert("shutdown"@.len() != "detect_workers"@.len());
        assert("metrics"@.len() != "detect_workers"@.len());
        assert("daemon_log"@.len() != "detect_workers"@.len());
    }
    if method == "start_group"@ {
        assert("ping"@.len() != "start_group"@.len());
        assert("daemon_info"@[0] != "start_group"@[0]);
        assert("list_workers"@.len() != "start_group"@.len());
        assert("add_worker"@.len() != "start_group"@.len());
        assert("remove_worker"@.len() != "start_group"@.len());
        assert("start_worker"@.len() != "start_group"@.len());
        assert("stop_worker"@[2] != "start_group"@[2]);
        assert("get_worker"@.len() != "start_group"@.len());
        assert("shutdown"@.len() != "start_group"@.len());
        assert("metrics"@.len() != "start_group"@.len());
        assert("daemon_log"@.len() != "start_group"@.len());
        assert("detect_workers"@.len() != "start_group"@.len());
    }
    if method == "stop_group"@ {
        assert("ping"@.len() != "stop_group"@.len());
        assert("daemon_info"@.len() != "stop_group"@.len());
        assert("list_workers"@.len() != "stop_group"@.len());
        assert("add_worker"@[0] != "stop_group"@[0]);
        assert("remove_worker"@.len() != "stop_group"@.len());
        assert("start_worker"@.len() != "stop_group"@.len());
        assert("stop_worker"@.len() != "stop_group"@.len());
        assert("get_worker"@[0] != "stop_group"@[0]);
        assert("shutdown"@.len() != "stop_group"@.len());
        assert("metrics"@.len() != "stop_group"@.len());
        assert("daemon_log"@[0] != "stop_group"@[0]);
        assert("detect_workers"@.len() != "stop_group"@.len());
        assert("start_group"@.len() != "stop_group"@.len());
    }
}

} // verus!
