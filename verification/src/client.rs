//! What a client makes of the daemon's frames: matching replies to requests,
//! the desktop app's status line and event payloads, and stale-daemon detection.

use crate::ipc::{is_err, is_ok, str_member, Frame};
use crate::json::{get_spec, json_of, member, parse_json, Json};
use crate::text::{str_eq, trim, trimmed};
use vstd::prelude::*;
use vstd::string::StringExecFns;

verus! {

/// What a frame read while waiting for the reply to request `id` means.
pub open spec fn reply_to(f: Frame, id: u64) -> Option<Result<Json, Seq<char>>> {
    match f {
        Frame::Response { id: rid, result, error } => {
            if rid != id {
                None
            } else {
                match error {
                    Some(e) => Some(Err(e.code@ + ": "@ + e.message@)),
                    None => Some(Ok(match result { Some(r) => r, None => Json::Null })),
                }
            }
        },
        _ => None,
    }
}

/// The reply to request `id` carried by `frame`: none for events and for
/// replies to other requests (the client skips those), the error as
/// `"<code>: <message>"`, or the result (`null` when absent).
pub fn response_for(frame: Frame, id: u64) -> (r: Option<Result<Json, String>>)
    ensures
        match reply_to(frame, id) {
            None => r is None,
            Some(Ok(j)) => r == Some(Ok::<Json, String>(j)),
            Some(Err(m)) => r matches Some(Err(e)) && e@ == m,
        },
{
    match frame {
        Frame::Response { id: rid, result, error } => {
            if rid != id {
                return None;
            }
            match error {
                Some(e) => {
                    let mut m = e.code.clone();
                    m.append(": ");
                    m.append(e.message.as_str());
                    Some(Err(m))
                },
                None => Some(Ok(match result {
                    Some(r) => r,
                    None => Json::Null,
                })),
            }
        },
        _ => None,
    }
}

/// Law: a client waiting for the reply to its request `id` gets the daemon's
/// successful result back unchanged, or its error as `"<code>: <message>"`;
/// a reply to any other request is skipped.
pub proof fn lemma_client_reads_replies(
    id: u64,
    other: u64,
    result: Json,
    code: Seq<char>,
    message: Seq<char>,
    ok: Frame,
    err: Frame,
)
    requires
        is_ok(ok, id, result),
        is_err(err, id, code, message),
        other != id,
    ensures
        reply_to(ok, id) == Some(Ok::<Json, Seq<char>>(result)),
        reply_to(err, id) == Some(Err::<Json, Seq<char>>(code + ": "@ + message)),
        reply_to(ok, other) is None,
        reply_to(err, other) is None,
{
}

/// The daemon as the desktop app shows it.
#[derive(Debug, Clone, PartialEq)]
pub struct DaemonStatus {
    pub connected: bool,
    pub version: String,
    pub uptime_secs: u64,
    pub worker_count: u32,
    pub running_count: u32,
}

/// A non-negative integer member of `j`, or 0.
pub open spec fn count_member(j: Json, key: Seq<char>) -> u64 {
    match get_spec(j, key) {
        Some(Json::UInt(n)) => n,
        _ => 0,
    }
}

fn count_of(j: &Json, key: &str) -> (n: u64)
    ensures
        n == count_member(*j, key@),
{
    match j.get(key) {
        Some(Json::UInt(n)) => *n,
        _ => 0,
    }
}

/// The status line from a `daemon_info` reply: missing or mistyped fields
/// read as empty or zero; the counts are taken modulo 2^32.
pub fn daemon_status_from(info: &Json) -> (s: DaemonStatus)
    ensures
        s.connected,
        s.version@ == (match str_member(*info, "version"@) { Some(v) => v, None => Seq::empty() }),
        s.uptime_secs == count_member(*info, "uptime_secs"@),
        s.worker_count == count_member(*info, "worker_count"@) as u32,
        s.running_count == count_member(*info, "running_count"@) as u32,
{
    proof {
        reveal_strlit("version");
    }
    let version = match info.get("version") {
        Some(v) => match v.as_str() {
            Some(t) => t.to_owned(),
            None => String::new(),
        },
        None => String::new(),
    };
    DaemonStatus {
        connected: true,
        version,
        uptime_secs: count_of(info, "uptime_secs"),
        worker_count: #[verifier::truncate] (count_of(info, "worker_count") as u32),
        running_count: #[verifier::truncate] (count_of(info, "running_count") as u32),
    }
}

/// The build id a running daemon reports in its `daemon_info` reply.
pub fn running_build(info: &Json) -> (b: Option<String>)
    ensures
        match b { Some(s) => str_member(*info, "build"@) == Some(s@), None => str_member(*info, "build"@) is None },
{
    proof {
        reveal_strlit("build");
    }
    match info.get("build") {
        Some(v) => match v.as_str() {
            Some(t) => Some(t.to_owned()),
            None => None,
        },
        None => None,
    }
}

/// Whether a `service-status` reply says the login service is installed: its
/// `installed` member is `true` (anything else reads as not installed).
pub fn service_installed_in(status: &Json) -> (b: bool)
    ensures
        b == (get_spec(*status, "installed"@) matches Some(Json::Bool(x)) && x),
{
    match status.get("installed") {
        Some(Json::Bool(x)) => *x,
        _ => false,
    }
}

/// What the output `out` of the daemon's `service-status` command says: its
/// trimmed text parsed as JSON, or why it could not be.
pub open spec fn service_status_of(out: Seq<char>) -> Result<Json, Seq<char>> {
    match json_of(trim(out)) {
        Ok(j) => Ok(j),
        Err(e) => Err("parse service-status: "@ + e + " (got: "@ + out + ")"@),
    }
}

/// Parse the output of the daemon's `service-status` command.
pub fn service_status_from(out: &str) -> (r: Result<Json, String>)
    ensures
        match service_status_of(out@) {
            Ok(j) => r == Ok::<Json, String>(j),
            Err(m) => r matches Err(e) && e@ == m,
        },
{
    let t = trimmed(out);
    match parse_json(t.as_str()) {
        Ok(j) => Ok(j),
        Err(e) => {
            let mut m = "parse service-status: ".to_owned();
            m.append(e.as_str());
            m.append(" (got: ");
            m.append(out);
            m.append(")");
            Err(m)
        },
    }
}

/// Whether the output of `service-status` says the login service is installed
/// (unparsable output reads as not installed).
pub fn service_installed_from(out: &str) -> (b: bool)
    ensures
        b == (service_status_of(out@) matches Ok(j)
            && (get_spec(j, "installed"@) matches Some(Json::Bool(x)) && x)),
{
    match service_status_from(out) {
        Ok(j) => service_installed_in(&j),
        Err(_) => false,
    }
}

/// A configuration file's text as a document, or `"invalid config: <error>"`.
pub fn config_from(body: &str) -> (r: Result<Json, String>)
    ensures
        match json_of(body@) {
            Ok(j) => r == Ok::<Json, String>(j),
            Err(m) => r matches Err(e) && e@ == "invalid config: "@ + m,
        },
{
    match parse_json(body) {
        Ok(j) => Ok(j),
        Err(e) => {
            let mut m = "invalid config: ".to_owned();
            m.append(e.as_str());
            Err(m)
        },
    }
}

/// A running daemon is stale only when the bundled build is known and the
/// running daemon reports a different build or none.
pub fn is_stale(bundled: &Option<String>, running: &Option<String>) -> (b: bool)
    ensures
        b == (match (*bundled, *running) {
            (Some(x), Some(y)) => x@ != y@,
            (Some(_), None) => true,
            (None, _) => false,
        }),
{
    match (bundled, running) {
        (Some(x), Some(y)) => !str_eq(x.as_str(), y.as_str()),
        (Some(_), None) => true,
        (None, _) => false,
    }
}

pub(crate) proof fn lemma_member_first(m: Seq<(String, Json)>, key: Seq<char>, k: int)
    requires
        0 <= k < m.len(),
        m[k].0@ == key,
        forall|j: int| 0 <= j < k ==> (#[trigger] m[j]).0@ != key,
    ensures
        member(m, key) == Some(m[k].1),
    decreases k,
{
    if k > 0 {
        assert forall|j: int| 0 <= j < k - 1 implies (#[trigger] m.drop_first()[j]).0@ != key by {
            assert(m.drop_first()[j] == m[j + 1]);
        }
        lemma_member_first(m.drop_first(), key, k - 1);
    }
}

proof fn lemma_member_update(m: Seq<(String, Json)>, k: int, p: (String, Json), other: Seq<char>)
    requires
        0 <= k < m.len(),
        m[k].0@ == p.0@,
        p.0@ != other,
    ensures
        member(m.update(k, p), other) == member(m, other),
    decreases m.len(),
{
    if k > 0 {
        assert(m.update(k, p).drop_first() == m.drop_first().update(k - 1, p));
        assert(m.update(k, p)[0] == m[0]);
        lemma_member_update(m.drop_first(), k - 1, p, other);
    } else {
        assert(m.update(k, p).drop_first() == m.drop_first());
        assert(m.update(k, p)[0] == p);
    }
}

proof fn lemma_member_push(m: Seq<(String, Json)>, p: (String, Json), other: Seq<char>)
    requires
        p.0@ != other,
    ensures
        member(m.push(p), other) == member(m, other),
    decreases m.len(),
{
    if m.len() > 0 {
        assert(m.push(p).drop_first() == m.drop_first().push(p));
        assert(m.push(p)[0] == m[0]);
        lemma_member_push(m.drop_first(), p, other);
    } else {
        assert(m.push(p)[0] == p);
        assert(m.push(p).drop_first().len() == 0);
        assert(member(m.push(p).drop_first(), other) is None);
        assert(member(m, other) is None);
    }
}

/// `p` is the object `payload` with member `kind` set to `topic`.
pub open spec fn tagged(p: Json, payload: Json, topic: Seq<char>) -> bool {
    &&& p is Object
    &&& (get_spec(p, "kind"@) matches Some(Json::Str(t)) && t@ == topic)
    &&& forall|k: Seq<char>| k != "kind"@ ==> get_spec(p, k) == get_spec(payload, k)
}

/// The payload the desktop app receives for an event frame: an object
/// payload gets its `kind` member set to the event's topic (other members are
/// kept); other payloads pass as they are. Frames that are not events give none.
pub fn event_payload(frame: Frame) -> (r: Option<Json>)
    ensures
        (frame is Event) == (r is Some),
        frame matches Frame::Event { topic, payload } ==> (r matches Some(p) && (if payload is Object {
            tagged(p, payload, topic@)
        } else {
            p == payload
        })),
{
    proof {
        reveal_strlit("kind");
    }
    match frame {
        Frame::Event { topic, payload } => {
            match payload {
                Json::Object(members) => {
                    let mut members = members;
                    let ghost before = members@;
                    let mut k: usize = 0;
                    while k < members.len() && !str_eq(members[k].0.as_str(), "kind")
                        invariant
                            k <= members.len(),
                            members@ == before,
                            forall|j: int| 0 <= j < k ==> (#[trigger] members@[j]).0@ != "kind"@,
                        decreases members.len() - k,
                    {
                        k = k + 1;
                    }
                    let entry = ("kind".to_owned(), Json::Str(topic));
                    let ghost e = entry;
                    if k < members.len() {
                        members.set(k, entry);
                        proof {
                            assert(members@ == before.update(k as int, e));
                            lemma_member_first(members@, "kind"@, k as int);
                            assert forall|key: Seq<char>| key != "kind"@ implies member(members@, key) == member(before, key) by {
                                lemma_member_update(before, k as int, e, key);
                            }
                        }
                    } else {
                        members.push(entry);
                        proof {
                            assert(members@ == before.push(e));
                            lemma_member_first(members@, "kind"@, k as int);
                            assert forall|key: Seq<char>| key != "kind"@ implies member(members@, key) == member(before, key) by {
                                lemma_member_push(before, e, key);
                            }
                        }
                    }
                    Some(Json::Object(members))
                },
                other => Some(other),
            }
        },
        _ => None,
    }
}

/// How many workers an `export_workers` reply holds (its `workers` array), modulo 2^32.
pub fn exported_count(reply: &Json) -> (n: u32)
    ensures
        n == (match get_spec(*reply, "workers"@) {
            Some(Json::Array(a)) => a@.len() as u32,
            _ => 0u32,
        }),
{
    proof {
        reveal_strlit("workers");
    }
    match reply.get("workers") {
        Some(Json::Array(a)) => #[verifier::truncate] (a.len() as u32),
        _ => 0,
    }
}

/// How many workers an `import_workers` reply says were imported, modulo 2^32.
pub fn imported_count(reply: &Json) -> (n: u32)
    ensures
        n == count_member(*reply, "imported"@) as u32,
{
    #[verifier::truncate] (count_of(reply, "imported") as u32)
}

} // verus!
