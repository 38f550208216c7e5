//! Suggestions for a Laravel application (a folder with an `artisan` script),
//! with the queue connection that its `.env` file configures.

use crate::detect::{drafts_view, DraftView, SuggestionDraft};
use crate::procfile::lemma_find_char_at;
use crate::tasks::{lowercase, to_lowercase};
use crate::text::{
    chars_of, contains, contains_text, dash_spaces, dashed, find_char, find_in, lemma_find_char, pieces_from,
    string_of, trim, trim_bounds,
};
use crate::worker::{opt_text, run_mode_view, texts, OverlapPolicy, RunMode, RunModeView, Schedule};
use vstd::prelude::*;

verus! {

/// A Laravel suggestion: `php <args>` in `root`, named after its label.
pub open spec fn laravel_draft(root: Seq<char>, label: Seq<char>, args: Seq<Seq<char>>, mode: RunModeView) -> DraftView {
    DraftView {
        label,
        source: "laravel/artisan"@,
        name: dashed(lowercase(label)),
        command: "php"@,
        args,
        working_dir: root,
        run_mode: mode,
        group: None,
        tags: Seq::empty(),
    }
}

/// `v` without one pair of matching surrounding quotes (double or single).
pub open spec fn unquoted(v: Seq<char>) -> Seq<char> {
    if v.len() >= 2 && ((v[0] == '"' && v.last() == '"') || (v[0] == '\'' && v.last() == '\'')) {
        v.subrange(1, v.len() - 1)
    } else {
        v
    }
}

/// The value that one `.env` line gives `key`: the line, trimmed, starts with
/// `key=`; the rest, trimmed and unquoted, is the value. None when the line sets
/// another key or leaves the value empty.
pub open spec fn setting_value(line: Seq<char>, key: Seq<char>) -> Option<Seq<char>> {
    let t = trim(line);
    let p = key + "="@;
    if t.len() >= p.len() && t.take(p.len() as int) == p {
        let v = unquoted(trim(t.skip(p.len() as int)));
        if v.len() == 0 { None } else { Some(v) }
    } else {
        None
    }
}

/// The value that the first of `lines` setting `key` gives it.
pub open spec fn first_setting(lines: Seq<Seq<char>>, key: Seq<char>) -> Option<Seq<char>>
    decreases lines.len(),
{
    if lines.len() == 0 {
        None
    } else {
        match first_setting(lines.drop_last(), key) {
            Some(v) => Some(v),
            None => setting_value(lines.last(), key),
        }
    }
}

/// The queue connection that a `.env` text configures (`QUEUE_CONNECTION`).
pub open spec fn queue_connection(env: Seq<char>) -> Option<Seq<char>> {
    first_setting(pieces_from(env, '\n', 0), "QUEUE_CONNECTION"@)
}

/// The arguments of the queue worker: `artisan queue:work`, then the
/// connection when one is configured.
pub open spec fn queue_args(connection: Option<Seq<char>>) -> Seq<Seq<char>> {
    match connection {
        Some(c) => seq!["artisan"@, "queue:work"@, c],
        None => seq!["artisan"@, "queue:work"@],
    }
}

/// The Laravel suggestions: none without `artisan`; otherwise a queue worker
/// (two instances, on the configured queue connection) and the per-minute
/// scheduler, plus Horizon and Reverb when `composer.json` mentions them.
pub open spec fn laravel_drafts(
    root: Seq<char>,
    has_artisan: bool,
    composer: Seq<char>,
    connection: Option<Seq<char>>,
) -> Seq<DraftView> {
    if !has_artisan {
        Seq::empty()
    } else {
        let base = seq![
            laravel_draft(root, "Laravel queue worker"@, queue_args(connection), RunModeView::Daemon { concurrency: 2 }),
            laravel_draft(root, "Laravel scheduler"@, seq!["artisan"@, "schedule:run"@],
                RunModeView::Cron { expr: "* * * * *"@, overlap: OverlapPolicy::Skip }),
        ];
        let with_horizon = if contains_text(composer, "laravel/horizon"@) {
            base.push(laravel_draft(root, "Laravel Horizon"@, seq!["artisan"@, "horizon"@], RunModeView::Daemon { concurrency: 1 }))
        } else {
            base
        };
        if contains_text(composer, "laravel/reverb"@) {
            with_horizon.push(laravel_draft(root, "Laravel Reverb"@, seq!["artisan"@, "reverb:start"@], RunModeView::Daemon { concurrency: 1 }))
        } else {
            with_horizon
        }
    }
}

fn draft(root: &str, label: &str, args: Vec<String>, run_mode: RunMode) -> (d: SuggestionDraft)
    ensures
        d@ == laravel_draft(root@, label@, texts(args@), run_mode_view(run_mode)),
{
    let lower = to_lowercase(label);
    let d = SuggestionDraft {
        label: label.to_owned(),
        source: "laravel/artisan".to_owned(),
        name: dash_spaces(lower.as_str()),
        command: "php".to_owned(),
        args,
        working_dir: root.to_owned(),
        run_mode,
        group: None,
        tags: Vec::new(),
    };
    assert(texts(d.tags@) =~= Seq::<Seq<char>>::empty());
    d
}

fn artisan(arg: &str) -> (args: Vec<String>)
    ensures
        texts(args@) == seq!["artisan"@, arg@],
{
    let args = vec!["artisan".to_owned(), arg.to_owned()];
    assert(texts(args@) =~= seq!["artisan"@, arg@]);
    args
}

/// The value that the line `cs[from..to]` gives `key` (see `setting_value`).
fn line_setting(cs: &Vec<char>, from: usize, to: usize, key: &Vec<char>) -> (r: Option<String>)
    requires
        from <= to <= cs.len(),
    ensures
        opt_text(r) == setting_value(cs@.subrange(from as int, to as int), key@),
{
    let ghost line = cs@.subrange(from as int, to as int);
    let (a, b) = trim_bounds(cs, from, to);
    let ghost t = cs@.subrange(a as int, b as int);
    let ghost p = key@ + "="@;
    proof {
        reveal_strlit("=");
    }
    let n = key.len();
    if b - a <= n {
        return None;
    }
    assert(p.len() == n + 1 && p[n as int] == '=');
    let mut i: usize = 0;
    while i < n
        invariant
            i <= n == key.len(),
            a + n + 1 <= b <= cs.len(),
            t == cs@.subrange(a as int, b as int),
            from <= to <= cs.len(),
            trim(cs@.subrange(from as int, to as int)) == t,
            p == key@ + "="@,
            p.len() == n + 1,
            forall|k: int| 0 <= k < i ==> cs@[a + k] == key@[k],
        decreases n - i,
    {
        if cs[a + i] != key[i] {
            assert(t.take(p.len() as int)[i as int] != p[i as int]);
            return None;
        }
        i = i + 1;
    }
    if cs[a + n] != '=' {
        assert(t.take(p.len() as int)[n as int] != p[n as int]);
        return None;
    }
    assert(t.take(p.len() as int) =~= p);
    let (c0, d0) = trim_bounds(cs, a + n + 1, b);
    assert(t.skip(p.len() as int) =~= cs@.subrange(a + n + 1, b as int));
    let mut c = c0;
    let mut d = d0;
    if d0 - c0 >= 2 && ((cs[c0] == '"' && cs[d0 - 1] == '"') || (cs[c0] == '\'' && cs[d0 - 1] == '\'')) {
        c = c0 + 1;
        d = d0 - 1;
        assert(cs@.subrange(c as int, d as int) =~= unquoted(cs@.subrange(c0 as int, d0 as int)));
    } else {
        assert(cs@.subrange(c as int, d as int) =~= unquoted(cs@.subrange(c0 as int, d0 as int)));
    }
    if c == d {
        return None;
    }
    Some(string_of(cs, c, d))
}

/// The queue connection that the `.env` text `env` configures (see `queue_connection`).
pub fn queue_connection_of(env: &str) -> (r: Option<String>)
    ensures
        opt_text(r) == queue_connection(env@),
{
    proof {
        reveal_strlit("QUEUE_CONNECTION");
    }
    let key = chars_of("QUEUE_CONNECTION");
    let cs = chars_of(env);
    let n = cs.len();
    let mut found: Option<String> = None;
    let mut i: usize = 0;
    let ghost mut done: Seq<Seq<char>> = Seq::empty();
    loop
        invariant
            cs@ == env@,
            key@ == "QUEUE_CONNECTION"@,
            n == cs.len(),
            i <= n,
            done + pieces_from(cs@, '\n', i as int) == pieces_from(cs@, '\n', 0),
            opt_text(found) == first_setting(done, key@),
        decreases n - i,
    {
        let e = find_in(&cs, '\n', i, n);
        proof {
            lemma_find_char(cs@, '\n', i as int);
            assert(find_char(cs@, '\n', i as int) == e) by {
                lemma_find_char(cs@.subrange(i as int, n as int), '\n', 0);
                assert forall|k: int| i <= k < e implies cs@[k] != '\n' by {
                    assert(cs@.subrange(i as int, n as int)[k - i] == cs@[k]);
                }
                if e < n {
                    assert(cs@.subrange(i as int, n as int)[e - i] == cs@[e as int]);
                }
                lemma_find_char_at(cs@, '\n', i as int, e as int);
            }
        }
        let ghost piece = cs@.subrange(i as int, e as int);
        if found.is_none() {
            found = line_setting(&cs, i, e, &key);
        }
        proof {
            assert((done.push(piece)).drop_last() == done);
            assert((done.push(piece)).last() == piece);
            done = done.push(piece);
        }
        if e == n {
            assert(pieces_from(cs@, '\n', 0) == done);
            return found;
        }
        assert(pieces_from(cs@, '\n', i as int) == seq![piece] + pieces_from(cs@, '\n', e + 1));
        assert(done.drop_last() + seq![piece] + pieces_from(cs@, '\n', e + 1) == done + pieces_from(cs@, '\n', e + 1));
        i = e + 1;
    }
}

/// Suggest the Laravel workers of a folder (see `laravel_drafts`); `connection`
/// is the queue connection its `.env` configures, if any.
pub fn laravel_suggestions(root: &str, has_artisan: bool, composer: &str, connection: &Option<String>) -> (out: Vec<SuggestionDraft>)
    ensures
        drafts_view(out@) == laravel_drafts(root@, has_artisan, composer@, opt_text(*connection)),
{
    if !has_artisan {
        let out: Vec<SuggestionDraft> = Vec::new();
        assert(drafts_view(out@) =~= Seq::<DraftView>::empty());
        return out;
    }
    proof {
        reveal_strlit("* * * * *");
    }
    let mut queue = artisan("queue:work");
    match connection {
        Some(c) => {
            let ghost before = queue@;
            let cc = c.clone();
            queue.push(cc);
            assert(texts(queue@) =~= texts(before).push(c@));
            assert(texts(queue@) =~= queue_args(opt_text(*connection)));
        },
        None => {},
    }
    let mut out = vec![
        draft(root, "Laravel queue worker", queue, RunMode::Daemon { concurrency: 2 }),
        draft(root, "Laravel scheduler", artisan("schedule:run"), RunMode::Scheduled {
            schedule: Schedule::Cron("* * * * *".to_owned()),
            overlap: OverlapPolicy::Skip,
        }),
    ];
    if contains(composer, "laravel/horizon") {
        out.push(draft(root, "Laravel Horizon", artisan("horizon"), RunMode::Daemon { concurrency: 1 }));
    }
    if contains(composer, "laravel/reverb") {
        out.push(draft(root, "Laravel Reverb", artisan("reverb:start"), RunMode::Daemon { concurrency: 1 }));
    }
    assert(drafts_view(out@) =~= laravel_drafts(root@, has_artisan, composer@, opt_text(*connection)));
    out
}

} // verus!
