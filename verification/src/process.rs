//! How a worker's process is started: the working-directory test before spawning and the
//! search path the child gets.

use crate::error::CoreError;
use crate::paths::{join, joined};
use crate::text::{join_with, joined_with};
use crate::worker::WorkerSpec;
use vstd::prelude::*;

verus! {

/// The spawner backed by the operating system's process API.
pub struct TokioProcess;

/// What a spawn needs once the working directory is known to exist: the program, its
/// arguments, the directory it runs in and the `PATH` it is given (the
/// worker's own variables are laid over the inherited environment after it).
pub struct SpawnPlan {
    pub program: String,
    pub args: Vec<String>,
    pub working_dir: String,
    pub path: String,
}

/// The search path used when no other is known.
pub open spec fn fallback_path() -> Seq<char> {
    "/usr/bin:/bin:/usr/sbin:/sbin"@
}

/// The directories put on a child's `PATH`, in order: the project's own tool
/// directories, the usual install locations, the home tool directories (when a
/// home is known) and last the inherited `PATH` (the fallback when it is unset
/// or empty).
pub open spec fn path_parts(wd: Seq<char>, home: Option<Seq<char>>, inherited: Option<Seq<char>>) -> Seq<Seq<char>> {
    seq![
        joined(wd, "node_modules/.bin"@),
        joined(wd, "vendor/bin"@),
        "/opt/homebrew/bin"@,
        "/opt/homebrew/sbin"@,
        "/usr/local/bin"@,
        "/usr/local/sbin"@,
    ] + match home {
        Some(h) => seq![joined(h, ".cargo/bin"@), joined(h, ".local/bin"@)],
        None => Seq::empty(),
    } + seq![
        match inherited {
            Some(p) => if p.len() > 0 { p } else { fallback_path() },
            None => fallback_path(),
        },
    ]
}

/// The `PATH` a worker's child gets: a `PATH` in the worker's own environment
/// wins outright; otherwise the parts above joined with `:`.
pub open spec fn augmented(wd: Seq<char>, user: Option<Seq<char>>, home: Option<Seq<char>>, inherited: Option<Seq<char>>) -> Seq<char> {
    match user {
        Some(p) => p,
        None => joined_with(path_parts(wd, home, inherited), ":"@),
    }
}

/// The text of an optional borrowed string.
pub open spec fn text_of(o: Option<&String>) -> Option<Seq<char>> {
    match o {
        Some(s) => Some(s@),
        None => None,
    }
}

/// The `PATH` for a child working in `working_dir`, given the worker's own
/// `PATH` (if any), the daemon's home directory and its inherited `PATH`.
pub fn augmented_path(
    working_dir: &str,
    user_path: Option<&String>,
    home: Option<&String>,
    inherited: Option<&String>,
) -> (p: String)
    ensures
        p@ == augmented(working_dir@, text_of(user_path), text_of(home), text_of(inherited)),
{
    if let Some(p) = user_path {
        return p.clone();
    }
    proof {
        reveal_strlit("node_modules/.bin");
        reveal_strlit("vendor/bin");
        reveal_strlit(".cargo/bin");
        reveal_strlit(".local/bin");
        reveal_strlit("/usr/bin:/bin:/usr/sbin:/sbin");
    }
    let ghost h = text_of(home);
    let ghost inh = text_of(inherited);
    let mut parts: Vec<String> = Vec::new();
    parts.push(join(working_dir, "node_modules/.bin"));
    parts.push(join(working_dir, "vendor/bin"));
    parts.push("/opt/homebrew/bin".to_string());
    parts.push("/opt/homebrew/sbin".to_string());
    parts.push("/usr/local/bin".to_string());
    parts.push("/usr/local/sbin".to_string());
    if let Some(hm) = home {
        parts.push(join(hm.as_str(), ".cargo/bin"));
        parts.push(join(hm.as_str(), ".local/bin"));
    }
    let last = match inherited {
        Some(p) => if !p.as_str().is_empty() { p.clone() } else { "/usr/bin:/bin:/usr/sbin:/sbin".to_string() },
        None => "/usr/bin:/bin:/usr/sbin:/sbin".to_string(),
    };
    parts.push(last);
    proof {
        assert(parts@.map_values(|s: String| s@) =~= path_parts(working_dir@, h, inh));
    }
    join_with(&parts, ":")
}

impl TokioProcess {
    /// Say how to start `spec`, or why it cannot start. `dir_exists` is
    /// whether the working directory exists; `user_path` is the `PATH` entry of
    /// the worker's own environment, if it has one; `home` and `inherited_path`
    /// are the daemon's `HOME` and `PATH` as far as they are set.
    pub fn plan(
        &self,
        spec: &WorkerSpec,
        dir_exists: bool,
        user_path: Option<&String>,
        home: Option<&String>,
        inherited_path: Option<&String>,
    ) -> (r: Result<SpawnPlan, CoreError>)
        ensures
            !dir_exists <==> r is Err,
            r matches Err(e) ==> e == CoreError::MissingWorkingDir(spec.working_dir),
            r matches Ok(p) ==> {
                &&& p.program@ == spec.command@
                &&& p.args@ == spec.args@
                &&& p.working_dir@ == spec.working_dir@
                &&& p.path@ == augmented(
                    spec.working_dir@,
                    text_of(user_path),
                    text_of(home),
                    text_of(inherited_path),
                )
            },
    {
        if !dir_exists {
            return Err(CoreError::MissingWorkingDir(spec.working_dir.clone()));
        }
        let path = augmented_path(spec.working_dir.as_str(), user_path, home, inherited_path);
        Ok(SpawnPlan {
            program: spec.command.clone(),
            args: crate::worker::clone_strings(&spec.args),
            working_dir: spec.working_dir.clone(),
            path,
        })
    }
}

} // verus!
