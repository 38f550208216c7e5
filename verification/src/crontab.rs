//! Suggestions from a `crontab` file in the project folder: one scheduled
//! worker per entry line (five schedule fields, then the command).

use crate::detect::{drafts_view, folder_group, DraftView, SuggestionDraft};
use crate::paths::file_name;
use crate::procfile::lemma_find_char_at;
use crate::text::{
    chars_of, decimal, find_char, find_in, join_with, joined_with, lemma_find_char, pieces_from, push_decimal,
    split_words, words, words_from, is_ws, word_end, lemma_word_end,
};
use crate::worker::{run_mode_view, texts, OverlapPolicy, RunMode, RunModeView, Schedule};
use vstd::prelude::*;
use vstd::string::StringExecFns;

verus! {

/// The suggestion of the line at index `number` (from 0) of a crontab: lines with
/// fewer than six words, and comment lines, give none. The first five words
/// are the schedule, the sixth the command, the rest its arguments.
pub open spec fn cron_entry(root: Seq<char>, line: Seq<char>, number: nat) -> Option<DraftView> {
    let ws = words(line);
    if ws.len() < 6 || ws[0][0] == '#' {
        None
    } else {
        Some(DraftView {
            label: "Cron: "@ + ws[5],
            source: "crontab"@,
            name: "cron-"@ + decimal(number),
            command: ws[5],
            args: ws.skip(6),
            working_dir: root,
            run_mode: RunModeView::Cron { expr: joined_with(ws.take(5), " "@), overlap: OverlapPolicy::Skip },
            group: file_name(root),
            tags: seq!["crontab"@],
        })
    }
}

/// The suggestions of a list of crontab lines, in order.
pub open spec fn cron_entries(root: Seq<char>, lines: Seq<Seq<char>>) -> Seq<DraftView>
    decreases lines.len(),
{
    if lines.len() == 0 {
        Seq::empty()
    } else {
        let rest = cron_entries(root, lines.drop_last());
        match cron_entry(root, lines.last(), (lines.len() - 1) as nat) {
            Some(d) => rest.push(d),
            None => rest,
        }
    }
}

/// The suggestions of a crontab with text `body` in folder `root`.
pub open spec fn crontab_drafts(root: Seq<char>, body: Seq<char>) -> Seq<DraftView> {
    cron_entries(root, pieces_from(body, '\n', 0))
}

proof fn lemma_words_nonempty(s: Seq<char>, i: int)
    ensures
        forall|k: int| 0 <= k < words_from(s, i).len() ==> (#[trigger] words_from(s, i)[k]).len() > 0,
    decreases s.len() - i,
{
    if 0 <= i < s.len() {
        if is_ws(s[i]) {
            lemma_words_nonempty(s, i + 1);
            assert(words_from(s, i) == words_from(s, i + 1));
        } else {
            let e = word_end(s, i);
            lemma_word_end(s, i);
            assert(e > i) by {
                assert(word_end(s, i) == word_end(s, i + 1));
                lemma_word_end(s, i + 1);
            }
            if i < e <= s.len() {
                lemma_words_nonempty(s, e);
                let rest = words_from(s, e);
                assert(words_from(s, i) == seq![s.subrange(i, e)] + rest);
                assert forall|k: int| 0 <= k < words_from(s, i).len() implies (#[trigger] words_from(s, i)[k]).len() > 0 by {
                    if k > 0 {
                        assert(words_from(s, i)[k] == rest[k - 1]);
                    }
                }
            }
        }
    }
}

fn slice_strings(ws: &Vec<String>, from: usize, to: usize) -> (r: Vec<String>)
    requires
        from <= to <= ws.len(),
    ensures
        texts(r@) == texts(ws@).subrange(from as int, to as int),
{
    let mut r: Vec<String> = Vec::new();
    let mut i = from;
    while i < to
        invariant
            from <= i <= to <= ws.len(),
            texts(r@) == texts(ws@).subrange(from as int, i as int),
        decreases to - i,
    {
        let ghost before = r@;
        r.push(ws[i].clone());
        assert(texts(r@) =~= texts(before).push(ws@[i as int]@));
        assert(texts(ws@).subrange(from as int, i + 1) =~= texts(ws@).subrange(from as int, i as int).push(ws@[i as int]@));
        i = i + 1;
    }
    r
}

fn cron_line(root: &str, cs: &Vec<char>, from: usize, to: usize, number: usize) -> (r: Option<SuggestionDraft>)
    requires
        from <= to <= cs.len(),
    ensures
        match cron_entry(root@, cs@.subrange(from as int, to as int), number as nat) {
            Some(d) => r matches Some(x) && x@ == d,
            None => r is None,
        },
{
    let ws = split_words(cs, from, to);
    let ghost w = texts(ws@);
    assert(w == words(cs@.subrange(from as int, to as int)));
    if ws.len() < 6 {
        return None;
    }
    let first = chars_of(ws[0].as_str());
    if first.len() > 0 && first[0] == '#' {
        return None;
    }
    proof {
        lemma_words_nonempty(cs@.subrange(from as int, to as int), 0);
        assert(w[0] == ws@[0]@);
        assert(first@ == w[0]);
        assert(w[0][0] != '#');
    }
    let sched = slice_strings(&ws, 0, 5);
    let expr = join_with(&sched, " ");
    let args = slice_strings(&ws, 6, ws.len());
    let command = ws[5].clone();
    let mut label = "Cron: ".to_owned();
    label.append(command.as_str());
    let mut name = "cron-".to_owned();
    push_decimal(&mut name, number as u64);
    let d = SuggestionDraft {
        label,
        source: "crontab".to_owned(),
        name,
        command,
        args,
        working_dir: root.to_owned(),
        run_mode: RunMode::Scheduled { schedule: Schedule::Cron(expr), overlap: OverlapPolicy::Skip },
        group: folder_group(root),
        tags: vec!["crontab".to_owned()],
    };
    proof {
        assert(sched@.map_values(|s: String| s@) == texts(sched@));
        assert(texts(sched@) =~= w.take(5));
        assert(texts(args@) =~= w.skip(6));
        assert(texts(d.tags@) =~= seq!["crontab"@]);
    }
    Some(d)
}

/// Suggest one scheduled worker per entry line of a crontab with text `body`.
pub fn crontab_suggestions(root: &str, body: &str) -> (out: Vec<SuggestionDraft>)
    ensures
        drafts_view(out@) == crontab_drafts(root@, body@),
{
    let cs = chars_of(body);
    let n = cs.len();
    let mut out: Vec<SuggestionDraft> = Vec::new();
    let mut i: usize = 0;
    let mut count: usize = 0;
    let ghost mut done: Seq<Seq<char>> = Seq::empty();
    loop
        invariant
            cs@ == body@,
            n == cs.len(),
            i <= n,
            count == done.len(),
            count <= i,
            done + pieces_from(cs@, '\n', i as int) == pieces_from(cs@, '\n', 0),
            drafts_view(out@) == cron_entries(root@, done),
        decreases n - i,
    {
        let e = find_in(&cs, '\n', i, n);
        proof {
            lemma_find_char(cs@, '\n', i as int);
            assert(find_char(cs@, '\n', i as int) == e) by {
                lemma_find_char(cs@.subrange(i as int, n as int), '\n', 0);
                assert forall|k: int| i <= k < e implies cs@[k] != '\n' by {
                    assert(cs@.subrange(i as int, n as int)[k - i] == cs@[k]);
                }
                if e < n {
                    assert(cs@.subrange(i as int, n as int)[e - i] == cs@[e as int]);
                }
                lemma_find_char_at(cs@, '\n', i as int, e as int);
            }
        }
        let r = cron_line(root, &cs, i, e, count);
        let ghost piece = cs@.subrange(i as int, e as int);
        match r {
            Some(d) => {
                let ghost before = out@;
                out.push(d);
                assert(drafts_view(out@) =~= drafts_view(before).push(d@));
            },
            None => {},
        }
        proof {
            assert((done.push(piece)).drop_last() == done);
            assert((done.push(piece)).last() == piece);
            done = done.push(piece);
        }
        if e == n {
            assert(pieces_from(cs@, '\n', 0) == done);
            return out;
        }
        assert(pieces_from(cs@, '\n', i as int) == seq![piece] + pieces_from(cs@, '\n', e + 1));
        assert(done.drop_last() + seq![piece] + pieces_from(cs@, '\n', e + 1) == done + pieces_from(cs@, '\n', e + 1));
        i = e + 1;
        count = count + 1;
    }
}

} // verus!
