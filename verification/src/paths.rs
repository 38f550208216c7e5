//! Filesystem locations of a daemon instance, as `/`-separated path text.

use crate::text::{chars_of, string_of};
use vstd::prelude::*;
use vstd::string::StringExecFns;

verus! {

/// `base` joined with `comp` as `Path::join` does it: an absolute `comp`
/// replaces `base`; otherwise a separator is inserted unless `base` is empty
/// or already ends with one.
pub open spec fn joined(base: Seq<char>, comp: Seq<char>) -> Seq<char> {
    if comp.len() > 0 && comp[0] == '/' {
        comp
    } else if base.len() == 0 {
        comp
    } else if base.last() == '/' {
        base + comp
    } else {
        base + "/"@ + comp
    }
}

/// Join `comp` onto `base`.
pub fn join(base: &str, comp: &str) -> (p: String)
    ensures
        p@ == joined(base@, comp@),
{
    let cs = chars_of(base);
    let ds = chars_of(comp);
    if ds.len() > 0 && ds[0] == '/' {
        return comp.to_owned();
    }
    let mut p = base.to_owned();
    if cs.len() == 0 {
        return comp.to_owned();
    }
    if cs[cs.len() - 1] != '/' {
        p.append("/");
    }
    p.append(comp);
    p
}

/// Start of the last `/`-separated segment of `p`.
pub open spec fn segment_start(p: Seq<char>) -> int
    decreases p.len(),
{
    if p.len() == 0 {
        0
    } else if p.last() == '/' {
        p.len() as int
    } else {
        segment_start(p.drop_last())
    }
}

/// The final component of a path, as `Path::file_name` gives it: trailing
/// separators and `.` components are skipped; none for a root, an empty path or `..`.
pub open spec fn file_name(p: Seq<char>) -> Option<Seq<char>>
    decreases p.len(),
{
    if p.len() == 0 {
        None
    } else if p.last() == '/' {
        file_name(p.drop_last())
    } else {
        let k = segment_start(p);
        let seg = p.subrange(k, p.len() as int);
        if seg == "."@ {
            if 0 <= k < p.len() { file_name(p.subrange(0, k)) } else { None }
        } else if seg == ".."@ {
            None
        } else {
            Some(seg)
        }
    }
}

proof fn lemma_segment_start_at(p: Seq<char>, k: int)
    requires
        0 <= k <= p.len(),
        forall|j: int| k <= j < p.len() ==> p[j] != '/',
        k > 0 ==> p[k - 1] == '/',
    ensures
        segment_start(p) == k,
    decreases p.len(),
{
    if p.len() > 0 && p.last() != '/' {
        assert(p.drop_last().len() < p.len());
        if k < p.len() {
            lemma_segment_start_at(p.drop_last(), k);
        }
    }
}

/// The final component of `path` (see `file_name`).
pub fn final_component(path: &str) -> (r: Option<String>)
    ensures
        r matches Some(s) ==> file_name(path@) == Some(s@),
        r is None ==> file_name(path@) is None,
{
    let cs = chars_of(path);
    let mut end: usize = cs.len();
    assert(cs@.take(end as int) == cs@);
    loop
        invariant
            cs@ == path@,
            end <= cs.len(),
            file_name(path@) == file_name(cs@.take(end as int)),
        decreases end,
    {
        let ghost end0 = end;
        while end > 0 && cs[end - 1] == '/'
            invariant
                end <= end0,
                cs@ == path@,
                end <= cs.len(),
                file_name(path@) == file_name(cs@.take(end as int)),
            decreases end,
        {
            assert(cs@.take(end as int).drop_last() == cs@.take(end - 1));
            end = end - 1;
        }
        if end == 0 {
            return None;
        }
        let mut start = end;
        while start > 0 && cs[start - 1] != '/'
            invariant
                start <= end <= cs.len(),
                forall|j: int| start <= j < end ==> cs@[j] != '/',
            decreases start,
        {
            start = start - 1;
        }
        let ghost p = cs@.take(end as int);
        proof {
            lemma_segment_start_at(p, start as int);
            assert(p.subrange(start as int, end as int) == cs@.subrange(start as int, end as int));
            assert(p.subrange(0, start as int) == cs@.take(start as int));
        }
        proof {
            reveal_strlit(".");
            reveal_strlit("..");
        }
        let len = end - start;
        if len == 1 && cs[start] == '.' {
            assert(cs@.subrange(start as int, end as int) == "."@);
            end = start;
        } else if len == 2 && cs[start] == '.' && cs[start + 1] == '.' {
            assert(cs@.subrange(start as int, end as int) == ".."@);
            return None;
        } else {
            proof {
                let seg = cs@.subrange(start as int, end as int);
                if seg == "."@ {
                    assert(seg.len() == 1 && seg[0] == '.');
                }
                if seg == ".."@ {
                    assert(seg.len() == 2 && seg[0] == '.' && seg[1] == '.');
                }
            }
            return Some(string_of(&cs, start, end));
        }
    }
}

/// Resolved locations for one daemon instance, all under a base dir.
#[derive(Debug, Clone)]
pub struct Paths {
    pub base: String,
}

impl Paths {
    pub fn new(base: String) -> (p: Self)
        ensures
            p.base == base,
    {
        Paths { base }
    }

    /// The daemon's socket: `<base>/daemon.sock`.
    pub fn socket(&self) -> (p: String)
        ensures
            p@ == joined(self.base@, "daemon.sock"@),
    {
        proof {
            reveal_strlit("daemon.sock");
        }
        join(self.base.as_str(), "daemon.sock")
    }

    /// The client token: `<base>/token`.
    pub fn token(&self) -> (p: String)
        ensures
            p@ == joined(self.base@, "token"@),
    {
        proof {
            reveal_strlit("token");
        }
        join(self.base.as_str(), "token")
    }

    /// The single-instance lock: `<base>/daemon.lock`.
    pub fn lock(&self) -> (p: String)
        ensures
            p@ == joined(self.base@, "daemon.lock"@),
    {
        proof {
            reveal_strlit("daemon.lock");
        }
        join(self.base.as_str(), "daemon.lock")
    }

    /// The worker database: `<base>/servicio.db`.
    pub fn db(&self) -> (p: String)
        ensures
            p@ == joined(self.base@, "servicio.db"@),
    {
        proof {
            reveal_strlit("servicio.db");
        }
        join(self.base.as_str(), "servicio.db")
    }

    /// Where instance logs are written: `<base>/logs`.
    pub fn logs(&self) -> (p: String)
        ensures
            p@ == joined(self.base@, "logs"@),
    {
        proof {
            reveal_strlit("logs");
        }
        join(self.base.as_str(), "logs")
    }
}

/// The daemon socket under `base`, as the desktop app looks for it.
pub fn socket_path(base: &str) -> (p: String)
    ensures
        p@ == joined(base@, "daemon.sock"@),
{
    proof {
        reveal_strlit("daemon.sock");
    }
    join(base, "daemon.sock")
}

/// The client token under `base`, as the desktop app looks for it.
pub fn token_path(base: &str) -> (p: String)
    ensures
        p@ == joined(base@, "token"@),
{
    proof {
        reveal_strlit("token");
    }
    join(base, "token")
}

/// The transport endpoint name for a daemon rooted at `base`: its socket file.
pub fn endpoint(base: &str) -> (p: String)
    ensures
        p@ == joined(base@, "daemon.sock"@),
{
    proof {
        reveal_strlit("daemon.sock");
    }
    join(base, "daemon.sock")
}

} // verus!
