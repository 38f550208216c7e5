//! Suggestions from a Heroku-style `Procfile` (`name: command args...` per line).

use crate::detect::{drafts_view, DraftView, SuggestionDraft, folder_group};
use crate::paths::file_name;
use crate::text::{chars_of, find_char, find_in, lemma_find_char, pieces_from, split_words, string_of, trim, trim_bounds, words};
use crate::worker::{texts, RunMode, RunModeView};
use vstd::prelude::*;
use vstd::string::StringExecFns;

verus! {

/// The suggestion one Procfile line gives, if any: blank lines, `#` comments,
/// lines without `:` and entries without a command give none.
pub open spec fn procfile_entry(root: Seq<char>, line: Seq<char>) -> Option<DraftView> {
    let t = trim(line);
    let k = find_char(t, ':', 0);
    if t.len() == 0 || t[0] == '#' || k >= t.len() {
        None
    } else {
        let name = trim(t.subrange(0, k));
        let ws = words(trim(t.subrange(k + 1, t.len() as int)));
        if ws.len() == 0 {
            None
        } else {
            Some(DraftView {
                label: "Procfile: "@ + name,
                source: "Procfile"@,
                name: name,
                command: ws[0],
                args: ws.drop_first(),
                working_dir: root,
                run_mode: RunModeView::Daemon { concurrency: 1 },
                group: file_name(root),
                tags: seq!["procfile"@],
            })
        }
    }
}

/// The suggestions of a list of Procfile lines, in order.
pub open spec fn procfile_entries(root: Seq<char>, lines: Seq<Seq<char>>) -> Seq<DraftView>
    decreases lines.len(),
{
    if lines.len() == 0 {
        Seq::empty()
    } else {
        let rest = procfile_entries(root, lines.drop_last());
        match procfile_entry(root, lines.last()) {
            Some(d) => rest.push(d),
            None => rest,
        }
    }
}

/// The suggestions of a Procfile with text `body` in folder `root`: one per entry line.
pub open spec fn procfile_drafts(root: Seq<char>, body: Seq<char>) -> Seq<DraftView> {
    procfile_entries(root, pieces_from(body, '\n', 0))
}

/// The suggestion of the line `cs[from..to]`, if any.
fn procfile_line(root: &str, cs: &Vec<char>, from: usize, to: usize) -> (r: Option<SuggestionDraft>)
    requires
        from <= to <= cs.len(),
    ensures
        match procfile_entry(root@, cs@.subrange(from as int, to as int)) {
            Some(d) => r matches Some(x) && x@ == d,
            None => r is None,
        },
{
    let ghost line = cs@.subrange(from as int, to as int);
    let (ta, tb) = trim_bounds(cs, from, to);
    let ghost t = cs@.subrange(ta as int, tb as int);
    assert(t == trim(line));
    if ta == tb || cs[ta] == '#' {
        assert(ta < tb ==> t[0] == cs@[ta as int]);
        return None;
    }
    let k = find_in(cs, ':', ta, tb);
    if k == tb {
        return None;
    }
    let ghost kk = (k - ta) as int;
    proof {
        lemma_find_char(t, ':', 0);
        assert(t.subrange(0, kk) == cs@.subrange(ta as int, k as int));
        assert(t.subrange(kk + 1, t.len() as int) == cs@.subrange(k + 1, tb as int));
    }
    let (na, nb) = trim_bounds(cs, ta, k);
    let (ca, cb) = trim_bounds(cs, k + 1, tb);
    let ws = split_words(cs, ca, cb);
    if ws.len() == 0 {
        assert(texts(ws@).len() == 0);
        return None;
    }
    let name = string_of(cs, na, nb);
    let mut label = "Procfile: ".to_owned();
    label.append(name.as_str());
    let mut args: Vec<String> = Vec::new();
    let mut i: usize = 1;
    while i < ws.len()
        invariant
            1 <= i <= ws.len(),
            texts(args@) == texts(ws@).subrange(1, i as int),
        decreases ws.len() - i,
    {
        let ghost before = args@;
        args.push(ws[i].clone());
        assert(texts(args@) =~= texts(before).push(ws@[i as int]@));
        assert(texts(ws@).subrange(1, i + 1) =~= texts(ws@).subrange(1, i as int).push(ws@[i as int]@));
        i = i + 1;
    }
    let command = ws[0].clone();
    let d = SuggestionDraft {
        label,
        source: "Procfile".to_owned(),
        name,
        command,
        args,
        working_dir: root.to_owned(),
        run_mode: RunMode::Daemon { concurrency: 1 },
        group: folder_group(root),
        tags: vec!["procfile".to_owned()],
    };
    proof {
        assert(texts(ws@).drop_first() =~= texts(ws@).subrange(1, ws@.len() as int));
        assert(texts(d.tags@) =~= seq!["procfile"@]);
    }
    Some(d)
}

/// Suggest one daemon worker per `name: command args...` line of a Procfile.
pub fn procfile_suggestions(root: &str, body: &str) -> (out: Vec<SuggestionDraft>)
    ensures
        drafts_view(out@) == procfile_drafts(root@, body@),
{
    let cs = chars_of(body);
    let n = cs.len();
    let mut out: Vec<SuggestionDraft> = Vec::new();
    let mut i: usize = 0;
    let ghost mut done: Seq<Seq<char>> = Seq::empty();
    loop
        invariant
            cs@ == body@,
            n == cs.len(),
            i <= n,
            done + pieces_from(cs@, '\n', i as int) == pieces_from(cs@, '\n', 0),
            drafts_view(out@) == procfile_entries(root@, done),
        decreases n - i,
    {
        let e = find_in(&cs, '\n', i, n);
        proof {
            lemma_find_char(cs@, '\n', i as int);
            assert(find_char(cs@, '\n', i as int) == e) by {
                lemma_find_char(cs@.subrange(i as int, n as int), '\n', 0);
                assert forall|k: int| i <= k < e implies cs@[k] != '\n' by {
                    assert(cs@.subrange(i as int, n as int)[k - i] == cs@[k]);
                }
                if e < n {
                    assert(cs@.subrange(i as int, n as int)[e - i] == cs@[e as int]);
                }
                lemma_find_char_at(cs@, '\n', i as int, e as int);
            }
        }
        let r = procfile_line(root, &cs, i, e);
        let ghost piece = cs@.subrange(i as int, e as int);
        match r {
            Some(d) => {
                let ghost before = out@;
                out.push(d);
                assert(drafts_view(out@) =~= drafts_view(before).push(d@));
            },
            None => {},
        }
        proof {
            assert((done.push(piece)).drop_last() == done);
            assert((done.push(piece)).last() == piece);
            done = done.push(piece);
        }
        if e == n {
            assert(pieces_from(cs@, '\n', 0) == done);
            return out;
        }
        assert(pieces_from(cs@, '\n', i as int) == seq![piece] + pieces_from(cs@, '\n', e + 1));
        assert(done.drop_last() + seq![piece] + pieces_from(cs@, '\n', e + 1) == done + pieces_from(cs@, '\n', e + 1));
        i = e + 1;
    }
}

/// `k` is where `c` first occurs in `s` at or after `i` when the positions before hold other characters.
pub(crate) proof fn lemma_find_char_at(s: Seq<char>, c: char, i: int, k: int)
    requires
        0 <= i <= k <= s.len(),
        forall|j: int| i <= j < k ==> s[j] != c,
        k < s.len() ==> s[k] == c,
    ensures
        find_char(s, c, i) == k,
    decreases k - i,
{
    if i < k {
        lemma_find_char_at(s, c, i + 1, k);
    }
}


/// Law: a Procfile entry runs exactly the words after the line's first `:`.
/// Its command is the first of those words and its arguments are all the
/// others, in order, none dropped or added; and an uncommented line with at
/// least one such word does give an entry, named by the text before the `:`.
pub proof fn lemma_procfile_entry_runs_every_word(root: Seq<char>, line: Seq<char>, k: int)
    requires
        0 <= k < trim(line).len(),
        trim(line)[k] == ':',
        forall|j: int| 0 <= j < k ==> trim(line)[j] != ':',
    ensures
        procfile_entry(root, line) matches Some(d) ==> seq![d.command] + d.args
            == words(trim(trim(line).subrange(k + 1, trim(line).len() as int))),
        procfile_entry(root, line) matches Some(d) ==> d.args.len() + 1
            == words(trim(trim(line).subrange(k + 1, trim(line).len() as int))).len(),
        trim(line)[0] != '#' && words(trim(trim(line).subrange(k + 1, trim(line).len() as int))).len() > 0
            ==> (procfile_entry(root, line) matches Some(d) && d.name == trim(trim(line).subrange(0, k))),
{
    let t = trim(line);
    lemma_find_char_at(t, ':', 0, k);
    let ws = words(trim(t.subrange(k + 1, t.len() as int)));
    if ws.len() > 0 {
        assert(seq![ws[0]] + ws.drop_first() =~= ws);
    }
}

} // verus!
