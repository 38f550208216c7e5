//! Scanning a project folder for workers to suggest.
//!
//! The scanners work on a snapshot of the folder (`ProjectFiles`): which
//! marker files exist and what the files they read hold.

use crate::crontab::{crontab_drafts, crontab_suggestions};
use crate::entrypoints::{has_entry, listed, node_drafts, node_suggestions, python_drafts, python_suggestions};
use crate::laravel::{laravel_drafts, laravel_suggestions, queue_connection, queue_connection_of};
use crate::procfile::{procfile_drafts, procfile_suggestions};
use crate::tasks::{tasks_from_text, tasks_text_drafts};
use crate::paths::{file_name, final_component};
use crate::text::str_eq;
use crate::worker::{clone_run_mode, clone_strings, opt_text, run_mode_view, texts, RunMode, RunModeView};
use vstd::prelude::*;

verus! {

/// Folder name of `root`, used as the default suggestion group.
pub fn folder_group(root: &str) -> (g: Option<String>)
    ensures
        opt_text(g) == file_name(root@),
{
    final_component(root)
}

/// A proposed worker the user confirms/edits before it's created.
#[derive(Debug, Clone, PartialEq)]
pub struct SuggestionDraft {
    pub label: String,
    pub source: String,
    pub name: String,
    pub command: String,
    pub args: Vec<String>,
    pub working_dir: String,
    pub run_mode: RunMode,
    pub group: Option<String>,
    pub tags: Vec<String>,
}

/// A suggestion as a value of the model.
pub struct DraftView {
    pub label: Seq<char>,
    pub source: Seq<char>,
    pub name: Seq<char>,
    pub command: Seq<char>,
    pub args: Seq<Seq<char>>,
    pub working_dir: Seq<char>,
    pub run_mode: RunModeView,
    pub group: Option<Seq<char>>,
    pub tags: Seq<Seq<char>>,
}

impl View for SuggestionDraft {
    type V = DraftView;

    open spec fn view(&self) -> DraftView {
        DraftView {
            label: self.label@,
            source: self.source@,
            name: self.name@,
            command: self.command@,
            args: texts(self.args@),
            working_dir: self.working_dir@,
            run_mode: run_mode_view(self.run_mode),
            group: opt_text(self.group),
            tags: texts(self.tags@),
        }
    }
}

impl SuggestionDraft {
    /// A copy of this suggestion.
    pub fn clone_draft(&self) -> (d: SuggestionDraft)
        ensures
            d@ == self@,
    {
        SuggestionDraft {
            label: self.label.clone(),
            source: self.source.clone(),
            name: self.name.clone(),
            command: self.command.clone(),
            args: clone_strings(&self.args),
            working_dir: self.working_dir.clone(),
            run_mode: clone_run_mode(&self.run_mode),
            group: match &self.group {
                Some(g) => Some(g.clone()),
                None => None,
            },
            tags: clone_strings(&self.tags),
        }
    }
}

/// The models of a list of suggestions.
pub open spec fn drafts_view(v: Seq<SuggestionDraft>) -> Seq<DraftView> {
    v.map_values(|d: SuggestionDraft| d@)
}

/// What a project folder holds, as far as the scanners read it.
pub struct ProjectFiles {
    /// The folder itself.
    pub root: String,
    /// The names of the folder's entries.
    pub entries: Vec<String>,
    /// Text of `composer.json` (empty when unreadable).
    pub composer_json: String,
    /// Text of `Procfile`, when readable.
    pub procfile: Option<String>,
    /// Text of `.vscode/tasks.json`, when readable.
    pub vscode_tasks: Option<String>,
    /// Text of `package.json`, when readable.
    pub package_json: Option<String>,
    /// Text of `crontab`, when readable.
    pub crontab: Option<String>,
    /// Text of `.env`, when readable.
    pub dotenv: Option<String>,
}

/// The queue connection that the folder's `.env` configures, if any.
pub open spec fn env_connection(f: ProjectFiles) -> Option<Seq<char>> {
    match f.dotenv {
        Some(t) => queue_connection(t@),
        None => None,
    }
}

fn connection_of(files: &ProjectFiles) -> (r: Option<String>)
    ensures
        opt_text(r) == env_connection(*files),
{
    match &files.dotenv {
        Some(t) => queue_connection_of(t.as_str()),
        None => None,
    }
}

/// The suggestion every scan ends with, so the wizard can start from scratch.
pub open spec fn generic_draft(root: Seq<char>) -> DraftView {
    DraftView {
        label: "Custom worker"@,
        source: "generic"@,
        name: Seq::empty(),
        command: Seq::empty(),
        args: Seq::empty(),
        working_dir: root,
        run_mode: RunModeView::Daemon { concurrency: 1 },
        group: file_name(root),
        tags: Seq::empty(),
    }
}

/// Always-present fallback suggestion.
pub fn generic_suggestion(root: &str) -> (d: SuggestionDraft)
    ensures
        d@ == generic_draft(root@),
{
    let d = SuggestionDraft {
        label: "Custom worker".to_owned(),
        source: "generic".to_owned(),
        name: String::new(),
        command: String::new(),
        args: Vec::new(),
        working_dir: root.to_owned(),
        run_mode: RunMode::Daemon { concurrency: 1 },
        group: folder_group(root),
        tags: Vec::new(),
    };
    assert(texts(d.args@) == Seq::<Seq<char>>::empty());
    assert(texts(d.tags@) == Seq::<Seq<char>>::empty());
    d
}

/// Suggestions that run the same thing: same command, arguments and working directory.
pub open spec fn same_key(a: DraftView, b: DraftView) -> bool {
    a.command == b.command && a.args == b.args && a.working_dir == b.working_dir
}

/// Some suggestion of `s` has the same key as `d`.
pub open spec fn has_key(s: Seq<DraftView>, d: DraftView) -> bool {
    exists|i: int| 0 <= i < s.len() && same_key(s[i], d)
}

/// `s` with every suggestion whose key an earlier one already has removed.
pub open spec fn dedup(s: Seq<DraftView>) -> Seq<DraftView>
    decreases s.len(),
{
    if s.len() == 0 {
        Seq::empty()
    } else {
        let p = dedup(s.drop_last());
        if has_key(p, s.last()) { p } else { p.push(s.last()) }
    }
}

fn texts_equal(a: &Vec<String>, b: &Vec<String>) -> (r: bool)
    ensures
        r == (texts(a@) == texts(b@)),
{
    if a.len() != b.len() {
        assert(texts(a@).len() != texts(b@).len());
        return false;
    }
    let mut i: usize = 0;
    while i < a.len()
        invariant
            a.len() == b.len(),
            i <= a.len(),
            forall|k: int| 0 <= k < i ==> a@[k]@ == b@[k]@,
        decreases a.len() - i,
    {
        if !str_eq(a[i].as_str(), b[i].as_str()) {
            assert(texts(a@)[i as int] != texts(b@)[i as int]);
            return false;
        }
        i = i + 1;
    }
    assert(texts(a@) =~= texts(b@));
    true
}

fn same_key_exec(a: &SuggestionDraft, b: &SuggestionDraft) -> (r: bool)
    ensures
        r == same_key(a@, b@),
{
    str_eq(a.command.as_str(), b.command.as_str()) && texts_equal(&a.args, &b.args)
        && str_eq(a.working_dir.as_str(), b.working_dir.as_str())
}

/// Keep the first suggestion of each (command, args, working_dir), in order.
pub fn dedup_suggestions(all: Vec<SuggestionDraft>) -> (out: Vec<SuggestionDraft>)
    ensures
        drafts_view(out@) == dedup(drafts_view(all@)),
{
    let mut out: Vec<SuggestionDraft> = Vec::new();
    let mut i: usize = 0;
    while i < all.len()
        invariant
            i <= all.len(),
            drafts_view(out@) == dedup(drafts_view(all@).take(i as int)),
        decreases all.len() - i,
    {
        let ghost pre = drafts_view(all@).take(i as int);
        let ghost next = drafts_view(all@).take(i + 1);
        assert(next.drop_last() == pre);
        let s = &all[i];
        let mut dup = false;
        let mut j: usize = 0;
        while j < out.len()
            invariant
                i < all.len(),
                *s == all@[i as int],
                j <= out.len(),
                dup == (exists|k: int| 0 <= k < j && same_key(#[trigger] out@[k]@, all@[i as int]@)),
            decreases out.len() - j,
        {
            let ghost had = dup;
            let hit = same_key_exec(&out[j], s);
            if hit {
                dup = true;
            }
            proof {
                if hit {
                    assert(0 <= j < j + 1 && same_key(out@[j as int]@, all@[i as int]@));
                } else if had {
                    let k0 = choose|k: int| 0 <= k < j && same_key(#[trigger] out@[k]@, all@[i as int]@);
                    assert(0 <= k0 < j + 1 && same_key(out@[k0]@, all@[i as int]@));
                } else {
                    assert forall|k: int| 0 <= k < j + 1 implies !same_key(#[trigger] out@[k]@, all@[i as int]@) by {
                        if k < j {
                            assert(!(0 <= k < j && same_key(out@[k]@, all@[i as int]@)));
                        }
                    }
                }
            }
            j = j + 1;
        }
        proof {
            let p = drafts_view(out@);
            assert(next.last() == all@[i as int]@);
            if dup {
                let k = choose|k: int| 0 <= k < out.len() && same_key(out@[k]@, all@[i as int]@);
                assert(p[k] == out@[k]@);
            } else {
                assert forall|k: int| 0 <= k < p.len() implies !same_key(p[k], next.last()) by {
                    assert(p[k] == out@[k]@);
                }
            }
        }
        if !dup {
            let ghost before = out@;
            let d = all[i].clone_draft();
            out.push(d);
            assert(drafts_view(out@) =~= drafts_view(before).push(next.last()));
        }
        i = i + 1;
    }
    assert(drafts_view(all@).take(all.len() as int) == drafts_view(all@));
    out
}

/// Law: after deduplication no two suggestions run the same thing, every
/// suggestion found is still represented by one with its key, and nothing new appears.
pub proof fn lemma_dedup(s: Seq<DraftView>)
    ensures
        forall|i: int, j: int|
            0 <= i < j < dedup(s).len() ==> !same_key(#[trigger] dedup(s)[i], #[trigger] dedup(s)[j]),
        forall|i: int| 0 <= i < s.len() ==> has_key(dedup(s), #[trigger] s[i]),
        forall|i: int| 0 <= i < dedup(s).len() ==> s.contains(#[trigger] dedup(s)[i]),
    decreases s.len(),
{
    if s.len() > 0 {
        let q = s.drop_last();
        lemma_dedup(q);
        let p = dedup(q);
        let d = dedup(s);
        if has_key(p, s.last()) {
            assert(d == p);
            assert forall|i: int| 0 <= i < s.len() implies has_key(d, #[trigger] s[i]) by {
                if i < s.len() - 1 {
                    assert(s[i] == q[i]);
                }
            }
            assert forall|i: int| 0 <= i < d.len() implies s.contains(#[trigger] d[i]) by {
                assert(q.contains(d[i]));
                let k = choose|k: int| 0 <= k < q.len() && q[k] == d[i];
                assert(s[k] == q[k]);
            }
        } else {
            assert(d == p.push(s.last()));
            assert forall|i: int, j: int| 0 <= i < j < d.len() implies !same_key(#[trigger] d[i], #[trigger] d[j]) by {
                if j == d.len() - 1 {
                    assert(d[i] == p[i]);
                    assert(!(0 <= i < p.len() && same_key(p[i], s.last())));
                } else {
                    assert(d[i] == p[i] && d[j] == p[j]);
                }
            }
            assert forall|i: int| 0 <= i < s.len() implies has_key(d, #[trigger] s[i]) by {
                if i < s.len() - 1 {
                    assert(s[i] == q[i]);
                    let k = choose|k: int| 0 <= k < p.len() && same_key(p[k], q[i]);
                    assert(d[k] == p[k]);
                } else {
                    assert(same_key(d[d.len() - 1], s[i]));
                }
            }
            assert forall|i: int| 0 <= i < d.len() implies s.contains(#[trigger] d[i]) by {
                if i < d.len() - 1 {
                    assert(d[i] == p[i]);
                    assert(q.contains(p[i]));
                    let k = choose|k: int| 0 <= k < q.len() && q[k] == p[i];
                    assert(s[k] == q[k]);
                } else {
                    assert(s[s.len() - 1] == d[i]);
                }
            }
        }
    }
}

/// Everything the scanners find in a folder, before deduplication, in scanner
/// order: Laravel, Python, Node, Procfile, crontab, editor tasks, then the generic fallback.
pub open spec fn all_found(f: ProjectFiles) -> Seq<DraftView> {
    let root = f.root@;
    laravel_drafts(root, listed(f.entries@, "artisan"@), f.composer_json@, env_connection(f))
        + python_drafts(root, f.entries@)
        + (match f.package_json { Some(t) => node_drafts(root, t@), None => Seq::empty() })
        + (match f.procfile { Some(b) => procfile_drafts(root, b@), None => Seq::empty() })
        + (match f.crontab { Some(b) => crontab_drafts(root, b@), None => Seq::empty() })
        + (match f.vscode_tasks { Some(t) => tasks_text_drafts(root, t@), None => Seq::empty() })
        + seq![generic_draft(root)]
}

fn append_drafts(all: &mut Vec<SuggestionDraft>, more: Vec<SuggestionDraft>)
    ensures
        drafts_view(final(all)@) == drafts_view(old(all)@) + drafts_view(more@),
{
    let mut more = more;
    let ghost a = drafts_view(all@);
    let ghost m = drafts_view(more@);
    all.append(&mut more);
    assert(drafts_view(all@) =~= a + m);
}

/// Run every scanner on the folder and drop suggestions that run the same
/// thing (command, args, working directory) as an earlier one.
pub fn detect_all(files: &ProjectFiles) -> (out: Vec<SuggestionDraft>)
    ensures
        drafts_view(out@) == dedup(all_found(*files)),
{
    proof {
        reveal_strlit("artisan");
    }
    let root = files.root.as_str();
    let connection = connection_of(files);
    let mut all = laravel_suggestions(root, has_entry(&files.entries, "artisan"), files.composer_json.as_str(), &connection);
    append_drafts(&mut all, python_suggestions(root, &files.entries));
    append_drafts(&mut all, match &files.package_json {
        Some(t) => node_suggestions(root, t.as_str()),
        None => Vec::new(),
    });
    append_drafts(&mut all, match &files.procfile {
        Some(body) => procfile_suggestions(root, body.as_str()),
        None => Vec::new(),
    });
    append_drafts(&mut all, match &files.crontab {
        Some(body) => crontab_suggestions(root, body.as_str()),
        None => Vec::new(),
    });
    append_drafts(&mut all, match &files.vscode_tasks {
        Some(t) => tasks_from_text(root, t.as_str()),
        None => Vec::new(),
    });
    let ghost a = drafts_view(all@);
    all.push(generic_suggestion(root));
    assert(drafts_view(all@) =~= a.push(generic_draft(root@)));
    assert(drafts_view(all@) =~= all_found(*files));
    dedup_suggestions(all)
}

/// A scanner that proposes workers for a project folder.
pub trait Detector {
    fn name(&self) -> &'static str;

    fn detect(&self, files: &ProjectFiles) -> Vec<SuggestionDraft>;
}

/// Laravel applications (`artisan`).
pub struct Laravel;

/// Python projects: their usual entry scripts.
pub struct Python;

/// Node projects: the scripts of `package.json`.
pub struct Node;

/// `Procfile` entries.
pub struct Procfile;

/// `crontab` entries.
pub struct Crontab;

/// Editor tasks (`.vscode/tasks.json`).
pub struct Tasks;

/// The always-present fallback.
pub struct Generic;

impl Detector for Laravel {
    fn name(&self) -> (n: &'static str)
        ensures
            n@ == "laravel"@,
    {
        proof {
            reveal_strlit("laravel");
        }
        "laravel"
    }

    fn detect(&self, files: &ProjectFiles) -> (out: Vec<SuggestionDraft>)
        ensures
            drafts_view(out@) == laravel_drafts(
                files.root@, listed(files.entries@, "artisan"@), files.composer_json@, env_connection(*files)),
    {
        proof {
            reveal_strlit("artisan");
        }
        let connection = connection_of(files);
        laravel_suggestions(files.root.as_str(), has_entry(&files.entries, "artisan"), files.composer_json.as_str(), &connection)
    }
}

impl Detector for Python {
    fn name(&self) -> (n: &'static str)
        ensures
            n@ == "python"@,
    {
        proof {
            reveal_strlit("python");
        }
        "python"
    }

    fn detect(&self, files: &ProjectFiles) -> (out: Vec<SuggestionDraft>)
        ensures
            drafts_view(out@) == python_drafts(files.root@, files.entries@),
    {
        python_suggestions(files.root.as_str(), &files.entries)
    }
}

impl Detector for Node {
    fn name(&self) -> (n: &'static str)
        ensures
            n@ == "node"@,
    {
        proof {
            reveal_strlit("node");
        }
        "node"
    }

    fn detect(&self, files: &ProjectFiles) -> (out: Vec<SuggestionDraft>)
        ensures
            drafts_view(out@) == (match files.package_json {
                Some(t) => node_drafts(files.root@, t@),
                None => Seq::empty(),
            }),
    {
        match &files.package_json {
            Some(t) => node_suggestions(files.root.as_str(), t.as_str()),
            None => {
                let out: Vec<SuggestionDraft> = Vec::new();
                assert(drafts_view(out@) =~= Seq::<DraftView>::empty());
                out
            },
        }
    }
}

impl Detector for Procfile {
    fn name(&self) -> (n: &'static str)
        ensures
            n@ == "procfile"@,
    {
        proof {
            reveal_strlit("procfile");
        }
        "procfile"
    }

    fn detect(&self, files: &ProjectFiles) -> (out: Vec<SuggestionDraft>)
        ensures
            drafts_view(out@) == (match files.procfile {
                Some(b) => procfile_drafts(files.root@, b@),
                None => Seq::empty(),
            }),
    {
        match &files.procfile {
            Some(body) => procfile_suggestions(files.root.as_str(), body.as_str()),
            None => {
                let out: Vec<SuggestionDraft> = Vec::new();
                assert(drafts_view(out@) =~= Seq::<DraftView>::empty());
                out
            },
        }
    }
}

impl Detector for Crontab {
    fn name(&self) -> (n: &'static str)
        ensures
            n@ == "crontab"@,
    {
        proof {
            reveal_strlit("crontab");
        }
        "crontab"
    }

    fn detect(&self, files: &ProjectFiles) -> (out: Vec<SuggestionDraft>)
        ensures
            drafts_view(out@) == (match files.crontab {
                Some(b) => crontab_drafts(files.root@, b@),
                None => Seq::empty(),
            }),
    {
        match &files.crontab {
            Some(body) => crontab_suggestions(files.root.as_str(), body.as_str()),
            None => {
                let out: Vec<SuggestionDraft> = Vec::new();
                assert(drafts_view(out@) =~= Seq::<DraftView>::empty());
                out
            },
        }
    }
}

impl Detector for Tasks {
    fn name(&self) -> (n: &'static str)
        ensures
            n@ == "vscode-tasks"@,
    {
        proof {
            reveal_strlit("vscode-tasks");
        }
        "vscode-tasks"
    }

    fn detect(&self, files: &ProjectFiles) -> (out: Vec<SuggestionDraft>)
        ensures
            drafts_view(out@) == (match files.vscode_tasks {
                Some(t) => tasks_text_drafts(files.root@, t@),
                None => Seq::empty(),
            }),
    {
        match &files.vscode_tasks {
            Some(t) => tasks_from_text(files.root.as_str(), t.as_str()),
            None => {
                let out: Vec<SuggestionDraft> = Vec::new();
                assert(drafts_view(out@) =~= Seq::<DraftView>::empty());
                out
            },
        }
    }
}

impl Detector for Generic {
    fn name(&self) -> (n: &'static str)
        ensures
            n@ == "generic"@,
    {
        proof {
            reveal_strlit("generic");
        }
        "generic"
    }

    fn detect(&self, files: &ProjectFiles) -> (out: Vec<SuggestionDraft>)
        ensures
            drafts_view(out@) == seq![generic_draft(files.root@)],
    {
        let out = vec![generic_suggestion(files.root.as_str())];
        assert(drafts_view(out@) =~= seq![generic_draft(files.root@)]);
        out
    }
}


/// Law: deduplication keeps a suggestion whose command, arguments or working
/// directory differs from those of every earlier suggestion.
pub proof fn lemma_dedup_keeps_new_runs(s: Seq<DraftView>, i: int)
    requires
        0 <= i < s.len(),
        forall|j: int| 0 <= j < i ==> #[trigger] s[j].command != s[i].command || s[j].args != s[i].args
            || s[j].working_dir != s[i].working_dir,
    ensures
        dedup(s).contains(s[i]),
    decreases s.len(),
{
    let q = s.drop_last();
    let p = dedup(q);
    if i == s.len() - 1 {
        lemma_dedup(q);
        assert forall|k: int| 0 <= k < p.len() implies !same_key(#[trigger] p[k], s.last()) by {
            assert(q.contains(p[k]));
            let j = choose|j: int| 0 <= j < q.len() && q[j] == p[k];
            assert(s[j] == q[j]);
        }
        assert(dedup(s) == p.push(s.last()));
        assert(dedup(s)[p.len() as int] == s[i]);
    } else {
        assert forall|j: int| 0 <= j < i implies #[trigger] q[j].command != q[i].command || q[j].args != q[i].args
            || q[j].working_dir != q[i].working_dir by {
            assert(q[j] == s[j] && q[i] == s[i]);
        }
        lemma_dedup_keeps_new_runs(q, i);
        assert(q[i] == s[i]);
        let k = choose|k: int| 0 <= k < p.len() && p[k] == q[i];
        if has_key(p, s.last()) {
            assert(dedup(s) == p);
        } else {
            assert(dedup(s) == p.push(s.last()));
            assert(dedup(s)[k] == p[k]);
        }
    }
}

/// Law: no two suggestions left by deduplication have the same command,
/// arguments and working directory.
pub proof fn lemma_dedup_runs_are_distinct(s: Seq<DraftView>, i: int, j: int)
    requires
        0 <= i < j < dedup(s).len(),
    ensures
        dedup(s)[i].command != dedup(s)[j].command || dedup(s)[i].args != dedup(s)[j].args
            || dedup(s)[i].working_dir != dedup(s)[j].working_dir,
{
    lemma_dedup(s);
    assert(!same_key(dedup(s)[i], dedup(s)[j]));
}

} // verus!
