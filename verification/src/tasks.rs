//! Suggestions from an editor's `.vscode/tasks.json`.

use crate::detect::{drafts_view, folder_group, DraftView, SuggestionDraft};
use crate::json::{get_spec, json_of, parse_json, string_elements, string_items, Json};
use crate::jsonc::{strip_jsonc, uncomma, uncomment, Mode};
use crate::paths::file_name;
use crate::text::{chars_of, dash_spaces, dashed, join_with, joined_with};
use crate::worker::{texts, RunMode, RunModeView};
use vstd::prelude::*;
use vstd::string::StringExecFns;

verus! {

/// The Unicode lowercase form of `s`, as `str::to_lowercase` computes it.
pub uninterp spec fn lowercase(s: Seq<char>) -> Seq<char>;

/// Calls `str::to_lowercase`. Claimed: the result is the named `lowercase` of the text.
#[verifier::external_body]
pub(crate) fn to_lowercase(s: &str) -> (r: String)
    ensures
        r@ == lowercase(s@),
{
    s.to_lowercase()
}

/// The shell metacharacters that make a task command run through `sh -c`.
pub open spec fn shell_meta(c: char) -> bool {
    c == '|' || c == '&' || c == ';' || c == '>' || c == '<' || c == '$'
}

/// `s` holds a shell metacharacter.
pub open spec fn has_shell_meta(s: Seq<char>) -> bool {
    exists|i: int| 0 <= i < s.len() && shell_meta(s[i])
}

/// The command and arguments a task runs: a command with shell syntax runs as
/// `sh -c "<command> <args joined by spaces>"`; otherwise as given.
pub open spec fn task_command(cmd: Seq<char>, args: Seq<Seq<char>>) -> (Seq<char>, Seq<Seq<char>>) {
    if has_shell_meta(cmd) {
        let line = if args.len() == 0 { cmd } else { cmd + " "@ + joined_with(args, " "@) };
        ("sh"@, seq!["-c"@, line])
    } else {
        (cmd, args)
    }
}

/// The suggestion one entry of `tasks` gives: entries without a string
/// `label` or a string `command` give none.
pub open spec fn task_entry(root: Seq<char>, entry: Json) -> Option<DraftView> {
    match (get_spec(entry, "label"@), get_spec(entry, "command"@)) {
        (Some(Json::Str(label)), Some(Json::Str(cmd))) => {
            let args = match get_spec(entry, "args"@) {
                Some(Json::Array(a)) => string_items(a@),
                _ => Seq::empty(),
            };
            let (command, final_args) = task_command(cmd@, args);
            Some(DraftView {
                label: "Task: "@ + label@,
                source: "vscode/tasks.json"@,
                name: dashed(lowercase("task-"@ + label@)),
                command,
                args: final_args,
                working_dir: root,
                run_mode: RunModeView::Daemon { concurrency: 1 },
                group: file_name(root),
                tags: seq!["vscode-task"@],
            })
        },
        _ => None,
    }
}

/// The suggestions of the entries `es`, in order.
pub open spec fn task_entries(root: Seq<char>, es: Seq<Json>) -> Seq<DraftView>
    decreases es.len(),
{
    if es.len() == 0 {
        Seq::empty()
    } else {
        let rest = task_entries(root, es.drop_last());
        match task_entry(root, es.last()) {
            Some(d) => rest.push(d),
            None => rest,
        }
    }
}

/// The suggestions of a tasks document: one per usable entry of its `tasks` array.
pub open spec fn tasks_drafts(root: Seq<char>, doc: Json) -> Seq<DraftView> {
    match get_spec(doc, "tasks"@) {
        Some(Json::Array(es)) => task_entries(root, es@),
        _ => Seq::empty(),
    }
}

fn has_meta(s: &str) -> (b: bool)
    ensures
        b == has_shell_meta(s@),
{
    let cs = chars_of(s);
    let mut i: usize = 0;
    while i < cs.len()
        invariant
            cs@ == s@,
            i <= cs.len(),
            forall|k: int| 0 <= k < i ==> !shell_meta(cs@[k]),
        decreases cs.len() - i,
    {
        let c = cs[i];
        if c == '|' || c == '&' || c == ';' || c == '>' || c == '<' || c == '$' {
            return true;
        }
        i = i + 1;
    }
    false
}

fn task_suggestion(root: &str, entry: &Json) -> (r: Option<SuggestionDraft>)
    ensures
        match task_entry(root@, *entry) {
            Some(d) => r matches Some(x) && x@ == d,
            None => r is None,
        },
{
    proof {
        reveal_strlit("label");
        reveal_strlit("command");
        reveal_strlit("args");
    }
    let label = match entry.get("label") {
        Some(l) => match l.as_str() {
            Some(s) => s,
            None => return None,
        },
        None => return None,
    };
    let cmd = match entry.get("command") {
        Some(c) => match c.as_str() {
            Some(s) => s,
            None => return None,
        },
        None => return None,
    };
    let args: Vec<String> = match entry.get("args") {
        Some(a) => match a.as_array() {
            Some(items) => string_elements(items),
            None => Vec::new(),
        },
        None => Vec::new(),
    };
    let ghost spec_args = match get_spec(*entry, "args"@) {
        Some(Json::Array(a)) => string_items(a@),
        _ => Seq::empty(),
    };
    assert(texts(args@) =~= spec_args);
    let ghost expect = task_command(cmd@, spec_args);
    let (command, final_args) = if has_meta(cmd) {
        let mut joined = cmd.to_owned();
        if args.len() > 0 {
            joined.append(" ");
            let rest = join_with(&args, " ");
            joined.append(rest.as_str());
        }
        proof {
            assert(args@.map_values(|s: String| s@) == texts(args@));
        }
        ("sh".to_owned(), vec!["-c".to_owned(), joined])
    } else {
        (cmd.to_owned(), args)
    };
    let mut shown = "Task: ".to_owned();
    shown.append(label);
    let mut key = "task-".to_owned();
    key.append(label);
    let lower = to_lowercase(key.as_str());
    let name = dash_spaces(lower.as_str());
    let d = SuggestionDraft {
        label: shown,
        source: "vscode/tasks.json".to_owned(),
        name,
        command,
        args: final_args,
        working_dir: root.to_owned(),
        run_mode: RunMode::Daemon { concurrency: 1 },
        group: folder_group(root),
        tags: vec!["vscode-task".to_owned()],
    };
    proof {
        assert(texts(d.tags@) =~= seq!["vscode-task"@]);
        assert(d.command@ == expect.0);
        assert(texts(d.args@) =~= expect.1);
        assert(d.name@ == dashed(lowercase("task-"@ + label@)));
    }
    Some(d)
}

/// Suggest one daemon worker per usable entry of a tasks document.
pub fn tasks_suggestions(root: &str, doc: &Json) -> (out: Vec<SuggestionDraft>)
    ensures
        drafts_view(out@) == tasks_drafts(root@, *doc),
{
    proof {
        reveal_strlit("tasks");
    }
    let entries = match doc.get("tasks") {
        Some(t) => match t.as_array() {
            Some(es) => es,
            None => return Vec::new(),
        },
        None => return Vec::new(),
    };
    let mut out: Vec<SuggestionDraft> = Vec::new();
    let mut i: usize = 0;
    while i < entries.len()
        invariant
            i <= entries.len(),
            drafts_view(out@) == task_entries(root@, entries@.take(i as int)),
        decreases entries.len() - i,
    {
        assert(entries@.take(i + 1).drop_last() == entries@.take(i as int));
        assert(entries@.take(i + 1).last() == entries@[i as int]);
        match task_suggestion(root, &entries[i]) {
            Some(d) => {
                let ghost before = out@;
                out.push(d);
                assert(drafts_view(out@) =~= drafts_view(before).push(d@));
            },
            None => {},
        }
        i = i + 1;
    }
    assert(entries@.take(entries.len() as int) == entries@);
    out
}

/// The suggestions of the text of a tasks file: comments and trailing commas
/// are stripped, then the document is parsed; none when it is not JSON.
pub open spec fn tasks_text_drafts(root: Seq<char>, raw: Seq<char>) -> Seq<DraftView> {
    match json_of(uncomma(uncomment(raw, 0, Mode::Code), 0, false)) {
        Ok(doc) => tasks_drafts(root, doc),
        Err(_) => Seq::empty(),
    }
}

/// Suggest one daemon worker per usable task of the tasks file text `raw`.
pub fn tasks_from_text(root: &str, raw: &str) -> (out: Vec<SuggestionDraft>)
    ensures
        drafts_view(out@) == tasks_text_drafts(root@, raw@),
{
    let clean = strip_jsonc(raw);
    match parse_json(clean.as_str()) {
        Ok(doc) => tasks_suggestions(root, &doc),
        Err(_) => Vec::new(),
    }
}


/// Law: a task command holding any of `|`, `&`, `;`, `>`, `<` or `$` runs
/// through the shell: the command is `sh`, and its arguments are `-c` and a
/// line that starts with the task's own command.
pub proof fn lemma_shell_syntax_runs_through_sh(cmd: Seq<char>, args: Seq<Seq<char>>, i: int)
    requires
        0 <= i < cmd.len(),
        cmd[i] == '|' || cmd[i] == '&' || cmd[i] == ';' || cmd[i] == '>' || cmd[i] == '<' || cmd[i] == '$',
    ensures
        task_command(cmd, args).0 == "sh"@,
        task_command(cmd, args).1.len() == 2,
        task_command(cmd, args).1[0] == "-c"@,
        task_command(cmd, args).1[1].len() >= cmd.len(),
        task_command(cmd, args).1[1].take(cmd.len() as int) == cmd,
        args.len() == 0 ==> task_command(cmd, args).1[1] == cmd,
        args.len() > 0 ==> task_command(cmd, args).1[1] == cmd + " "@ + joined_with(args, " "@),
{
    assert(shell_meta(cmd[i]));
    if args.len() > 0 {
        let line = cmd + " "@ + joined_with(args, " "@);
        assert(line.take(cmd.len() as int) =~= cmd);
    }
}

/// Law: a task command without any of those characters runs as given, with
/// the task's own arguments.
pub proof fn lemma_plain_command_runs_as_given(cmd: Seq<char>, args: Seq<Seq<char>>)
    requires
        forall|i: int| 0 <= i < cmd.len() ==> !(cmd[i] == '|' || cmd[i] == '&' || cmd[i] == ';'
            || cmd[i] == '>' || cmd[i] == '<' || cmd[i] == '$'),
    ensures
        task_command(cmd, args) == (cmd, args),
{
}

} // verus!
