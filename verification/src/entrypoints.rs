//! Suggestions for Python projects (their usual entry scripts) and Node
//! projects (the scripts of `package.json`).

use crate::detect::{drafts_view, folder_group, DraftView, SuggestionDraft};
use crate::json::{get_spec, json_of, parse_json, Json};
use crate::paths::file_name;
use crate::text::str_eq;
use crate::worker::{texts, RunMode, RunModeView};
use vstd::prelude::*;
use vstd::string::StringExecFns;

verus! {

/// `entries` holds an entry named `name`.
pub open spec fn listed(entries: Seq<String>, name: Seq<char>) -> bool {
    exists|i: int| 0 <= i < entries.len() && (#[trigger] entries[i])@ == name
}

/// Whether the folder listing `entries` holds `name`.
pub fn has_entry(entries: &Vec<String>, name: &str) -> (b: bool)
    ensures
        b == listed(entries@, name@),
{
    let mut i: usize = 0;
    while i < entries.len()
        invariant
            i <= entries.len(),
            forall|k: int| 0 <= k < i ==> (#[trigger] entries@[k])@ != name@,
        decreases entries.len() - i,
    {
        if str_eq(entries[i].as_str(), name) {
            return true;
        }
        i = i + 1;
    }
    false
}

/// A Python suggestion: `python <file>` in `root`, named after the script.
pub open spec fn python_draft(root: Seq<char>, file: Seq<char>, stem: Seq<char>) -> DraftView {
    DraftView {
        label: "Python: "@ + file,
        source: "python"@,
        name: stem,
        command: "python"@,
        args: seq![file],
        working_dir: root,
        run_mode: RunModeView::Daemon { concurrency: 1 },
        group: file_name(root),
        tags: seq!["python"@],
    }
}

/// The Python suggestions: none unless the folder has `requirements.txt` or
/// `pyproject.toml`; then one per entry script present, in the order
/// `main.py`, `app.py`, `worker.py`.
pub open spec fn python_drafts(root: Seq<char>, entries: Seq<String>) -> Seq<DraftView> {
    if !(listed(entries, "requirements.txt"@) || listed(entries, "pyproject.toml"@)) {
        Seq::empty()
    } else {
        (if listed(entries, "main.py"@) { seq![python_draft(root, "main.py"@, "main"@)] } else { Seq::empty() })
            + (if listed(entries, "app.py"@) { seq![python_draft(root, "app.py"@, "app"@)] } else { Seq::empty() })
            + (if listed(entries, "worker.py"@) { seq![python_draft(root, "worker.py"@, "worker"@)] } else { Seq::empty() })
    }
}

fn python_suggestion(root: &str, file: &str, stem: &str) -> (d: SuggestionDraft)
    ensures
        d@ == python_draft(root@, file@, stem@),
{
    let mut label = "Python: ".to_owned();
    label.append(file);
    let d = SuggestionDraft {
        label,
        source: "python".to_owned(),
        name: stem.to_owned(),
        command: "python".to_owned(),
        args: vec![file.to_owned()],
        working_dir: root.to_owned(),
        run_mode: RunMode::Daemon { concurrency: 1 },
        group: folder_group(root),
        tags: vec!["python".to_owned()],
    };
    assert(texts(d.args@) =~= seq![file@]);
    assert(texts(d.tags@) =~= seq!["python"@]);
    d
}

/// Suggest `python <script>` for each usual entry script of a Python project.
pub fn python_suggestions(root: &str, entries: &Vec<String>) -> (out: Vec<SuggestionDraft>)
    ensures
        drafts_view(out@) == python_drafts(root@, entries@),
{
    proof {
        reveal_strlit("requirements.txt");
        reveal_strlit("pyproject.toml");
        reveal_strlit("main.py");
        reveal_strlit("app.py");
        reveal_strlit("worker.py");
        reveal_strlit("main");
        reveal_strlit("app");
        reveal_strlit("worker");
    }
    let mut out: Vec<SuggestionDraft> = Vec::new();
    if !(has_entry(entries, "requirements.txt") || has_entry(entries, "pyproject.toml")) {
        assert(drafts_view(out@) =~= Seq::<DraftView>::empty());
        return out;
    }
    let ghost r = root@;
    let ghost s1 = if listed(entries@, "main.py"@) { seq![python_draft(r, "main.py"@, "main"@)] } else { Seq::<DraftView>::empty() };
    let ghost s2 = if listed(entries@, "app.py"@) { seq![python_draft(r, "app.py"@, "app"@)] } else { Seq::<DraftView>::empty() };
    let ghost s3 = if listed(entries@, "worker.py"@) { seq![python_draft(r, "worker.py"@, "worker"@)] } else { Seq::<DraftView>::empty() };
    if has_entry(entries, "main.py") {
        out.push(python_suggestion(root, "main.py", "main"));
    }
    assert(drafts_view(out@) =~= s1);
    if has_entry(entries, "app.py") {
        out.push(python_suggestion(root, "app.py", "app"));
    }
    assert(drafts_view(out@) =~= s1 + s2);
    if has_entry(entries, "worker.py") {
        out.push(python_suggestion(root, "worker.py", "worker"));
    }
    assert(drafts_view(out@) =~= s1 + s2 + s3);
    out
}

/// A Node suggestion: `npm run <script>` in `root`, named after the script.
pub open spec fn node_draft(root: Seq<char>, script: Seq<char>) -> DraftView {
    DraftView {
        label: "npm run "@ + script,
        source: "node/package.json"@,
        name: script,
        command: "npm"@,
        args: seq!["run"@, script],
        working_dir: root,
        run_mode: RunModeView::Daemon { concurrency: 1 },
        group: file_name(root),
        tags: seq!["node"@],
    }
}

/// One suggestion per member of a `scripts` object, in order.
pub open spec fn script_drafts(root: Seq<char>, members: Seq<(String, Json)>) -> Seq<DraftView>
    decreases members.len(),
{
    if members.len() == 0 {
        Seq::empty()
    } else {
        script_drafts(root, members.drop_last()).push(node_draft(root, members.last().0@))
    }
}

/// The Node suggestions of the text of `package.json`: one per member of its
/// `scripts` object; none when the text is not JSON or has no such object.
pub open spec fn node_drafts(root: Seq<char>, text: Seq<char>) -> Seq<DraftView> {
    match json_of(text) {
        Ok(doc) => match get_spec(doc, "scripts"@) {
            Some(Json::Object(m)) => script_drafts(root, m@),
            _ => Seq::empty(),
        },
        Err(_) => Seq::empty(),
    }
}

fn node_suggestion(root: &str, script: &str) -> (d: SuggestionDraft)
    ensures
        d@ == node_draft(root@, script@),
{
    let mut label = "npm run ".to_owned();
    label.append(script);
    let d = SuggestionDraft {
        label,
        source: "node/package.json".to_owned(),
        name: script.to_owned(),
        command: "npm".to_owned(),
        args: vec!["run".to_owned(), script.to_owned()],
        working_dir: root.to_owned(),
        run_mode: RunMode::Daemon { concurrency: 1 },
        group: folder_group(root),
        tags: vec!["node".to_owned()],
    };
    assert(texts(d.args@) =~= seq!["run"@, script@]);
    assert(texts(d.tags@) =~= seq!["node"@]);
    d
}

/// Suggest `npm run <script>` for each script of the `package.json` text `text`.
pub fn node_suggestions(root: &str, text: &str) -> (out: Vec<SuggestionDraft>)
    ensures
        drafts_view(out@) == node_drafts(root@, text@),
{
    proof {
        reveal_strlit("scripts");
    }
    let mut out: Vec<SuggestionDraft> = Vec::new();
    let doc = match parse_json(text) {
        Ok(d) => d,
        Err(_) => {
            assert(drafts_view(out@) =~= Seq::<DraftView>::empty());
            return out;
        },
    };
    match doc.get("scripts") {
        Some(Json::Object(m)) => {
            let mut i: usize = 0;
            while i < m.len()
                invariant
                    i <= m.len(),
                    out@.len() == i,
                    drafts_view(out@) == script_drafts(root@, m@.take(i as int)),
                decreases m.len() - i,
            {
                let ghost before = out@;
                out.push(node_suggestion(root, m[i].0.as_str()));
                assert(m@.take(i + 1).drop_last() =~= m@.take(i as int));
                assert(drafts_view(out@) =~= drafts_view(before).push(out@[i as int]@));
                i = i + 1;
            }
            assert(m@.take(m.len() as int) =~= m@);
            out
        },
        _ => {
            assert(drafts_view(out@) =~= Seq::<DraftView>::empty());
            out
        },
    }
}

} // verus!
