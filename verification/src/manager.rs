//! Bookkeeping of the manager: which workers run, with how many instances,
//! where their logs go.

use crate::paths::{joined, join};
use crate::text::{decimal, lemma_lex_irreflexive, lemma_lex_total, lemma_lex_trans, lex_lt, push_decimal, str_eq, text_lt};
use crate::worker::RunMode;
use vstd::prelude::*;
use vstd::string::StringExecFns;

verus! {

/// Instances a worker runs: its concurrency (at least one) in daemon mode, one otherwise.
pub open spec fn instance_count_for(m: RunMode) -> u32 {
    match m {
        RunMode::Daemon { concurrency } => if concurrency < 1 { 1 } else { concurrency },
        _ => 1,
    }
}

/// How many instances to start for a worker in this run mode.
pub fn instances_for(m: &RunMode) -> (n: u32)
    ensures
        n == instance_count_for(*m),
        n >= 1,
{
    match m {
        RunMode::Daemon { concurrency } => if *concurrency < 1 { 1 } else { *concurrency },
        _ => 1,
    }
}

/// The log file of instance `index` of worker `name`: `<log_dir>/<name>-<index>.log`.
pub open spec fn instance_log(log_dir: Seq<char>, name: Seq<char>, index: u32) -> Seq<char> {
    joined(log_dir, name + "-"@ + decimal(index as nat) + ".log"@)
}

/// Where instance `index` of worker `name` writes its log.
pub fn instance_log_path(log_dir: &str, name: &str, index: u32) -> (p: String)
    ensures
        p@ == instance_log(log_dir@, name@, index),
{
    let mut file = name.to_owned();
    file.append("-");
    push_decimal(&mut file, index as u64);
    file.append(".log");
    join(log_dir, file.as_str())
}

/// Names strictly increase along `s`.
pub open spec fn sorted<S>(s: Seq<(String, S)>) -> bool {
    forall|i: int, j: int| 0 <= i < j < s.len() ==> lex_lt((#[trigger] s[i]).0@, (#[trigger] s[j]).0@)
}

/// The map from names to payloads that the entries `s` hold.
pub open spec fn to_map<S>(s: Seq<(String, S)>) -> Map<Seq<char>, S>
    decreases s.len(),
{
    if s.len() == 0 {
        Map::empty()
    } else {
        to_map(s.drop_last()).insert(s.last().0@, s.last().1)
    }
}

proof fn lemma_to_map<S>(s: Seq<(String, S)>)
    requires
        sorted(s),
    ensures
        forall|k: Seq<char>| to_map(s).contains_key(k) <==> exists|i: int| 0 <= i < s.len() && (#[trigger] s[i]).0@ == k,
        forall|i: int| 0 <= i < s.len() ==> to_map(s)[(#[trigger] s[i]).0@] == s[i].1,
    decreases s.len(),
{
    if s.len() > 0 {
        let p = s.drop_last();
        assert(sorted(p)) by {
            assert forall|i: int, j: int| 0 <= i < j < p.len() implies lex_lt((#[trigger] p[i]).0@, (#[trigger] p[j]).0@) by {
                assert(p[i] == s[i] && p[j] == s[j]);
            }
        }
        lemma_to_map(p);
        let last = s.len() - 1;
        assert forall|k: Seq<char>| to_map(s).contains_key(k) <==> exists|i: int| 0 <= i < s.len() && (#[trigger] s[i]).0@ == k by {
            if to_map(p).contains_key(k) {
                let i = choose|i: int| 0 <= i < p.len() && (#[trigger] p[i]).0@ == k;
                assert(s[i] == p[i]);
            }
            if exists|i: int| 0 <= i < s.len() && (#[trigger] s[i]).0@ == k {
                let i = choose|i: int| 0 <= i < s.len() && (#[trigger] s[i]).0@ == k;
                if i < last {
                    assert(p[i] == s[i]);
                }
            }
        }
        assert forall|i: int| 0 <= i < s.len() implies to_map(s)[(#[trigger] s[i]).0@] == s[i].1 by {
            if i < last {
                assert(p[i] == s[i]);
                assert(lex_lt(s[i].0@, s[last].0@));
                lemma_lex_irreflexive(s[i].0@);
            }
        }
    }
}

/// The running workers, keyed by name, each with a payload `S` (its instances).
/// Held as a list sorted strictly by name, so that every name occurs once and
/// lookups are by name: vstd gives `HashMap` and `BTreeMap` no specification
/// that relates a `String` key's text to its entry, so those maps cannot carry
/// the laws of this table.
pub struct WorkerTable<S> {
    entries: Vec<(String, S)>,
}

impl<S> WorkerTable<S> {
    #[verifier::type_invariant]
    spec fn well_formed(self) -> bool {
        sorted(self.entries@)
    }

    /// The entries, in increasing name order.
    pub closed spec fn entries_of(self) -> Seq<(String, S)> {
        self.entries@
    }

    /// The table as a map from names to payloads.
    pub open spec fn map_of(self) -> Map<Seq<char>, S> {
        to_map(self.entries_of())
    }

    pub fn new() -> (t: Self)
        ensures
            t.entries_of().len() == 0,
            t.map_of() == Map::<Seq<char>, S>::empty(),
    {
        WorkerTable { entries: Vec::new() }
    }

    /// The entries in increasing name order.
    pub fn entries(&self) -> (e: &Vec<(String, S)>)
        ensures
            e@ == self.entries_of(),
            sorted(e@),
            forall|k: Seq<char>| self.map_of().contains_key(k) <==> exists|i: int| 0 <= i < e@.len() && (#[trigger] e@[i]).0@ == k,
            forall|i: int| 0 <= i < e@.len() ==> self.map_of()[(#[trigger] e@[i]).0@] == e@[i].1,
    {
        proof {
            use_type_invariant(self);
            lemma_to_map(self.entries@);
        }
        &self.entries
    }

    /// Number of workers in the table.
    pub fn len(&self) -> (n: usize)
        ensures
            n == self.entries_of().len(),
    {
        self.entries.len()
    }

    /// Position of the first entry whose name does not sort before `name`.
    fn position(&self, name: &str) -> (k: usize)
        ensures
            k <= self.entries_of().len(),
            forall|j: int| 0 <= j < k ==> lex_lt((#[trigger] self.entries_of()[j]).0@, name@),
            k < self.entries_of().len() ==> !lex_lt(self.entries_of()[k as int].0@, name@),
    {
        let mut k: usize = 0;
        while k < self.entries.len() && text_lt(self.entries[k].0.as_str(), name)
            invariant
                k <= self.entries.len(),
                forall|j: int| 0 <= j < k ==> lex_lt((#[trigger] self.entries@[j]).0@, name@),
            decreases self.entries.len() - k,
        {
            k = k + 1;
        }
        k
    }

    /// The payload of worker `name`.
    pub fn get(&self, name: &str) -> (r: Option<&S>)
        ensures
            match r {
                Some(x) => self.map_of().contains_key(name@) && self.map_of()[name@] == *x,
                None => !self.map_of().contains_key(name@),
            },
    {
        proof {
            use_type_invariant(self);
            lemma_to_map(self.entries@);
        }
        let k = self.position(name);
        if k < self.entries.len() && str_eq(self.entries[k].0.as_str(), name) {
            return Some(&self.entries[k].1);
        }
        proof {
            assert forall|i: int| 0 <= i < self.entries@.len() implies (#[trigger] self.entries@[i]).0@ != name@ by {
                if i < k {
                    lemma_lex_irreflexive(name@);
                } else if i > k {
                    if self.entries@[i].0@ == name@ {
                        lemma_lex_total(self.entries@[k as int].0@, name@);
                        lemma_lex_irreflexive(name@);
                        assert(lex_lt(self.entries@[k as int].0@, self.entries@[i].0@));
                    }
                }
            }
        }
        None
    }

    /// Put `v` under `name`, returning the payload it replaces.
    pub fn insert(&mut self, name: String, v: S) -> (old_v: Option<S>)
        ensures
            final(self).map_of() == old(self).map_of().insert(name@, v),
            match old_v {
                Some(x) => old(self).map_of().contains_key(name@) && old(self).map_of()[name@] == x,
                None => !old(self).map_of().contains_key(name@),
            },
            final(self).entries_of().len() == old(self).entries_of().len()
                + (if old(self).map_of().contains_key(name@) { 0int } else { 1int }),
    {
        proof {
            use_type_invariant(&*self);
            lemma_to_map(self.entries@);
        }
        let k = self.position(name.as_str());
        let ghost s = self.entries@;
        if k < self.entries.len() && str_eq(self.entries[k].0.as_str(), name.as_str()) {
            let mut entries = Vec::new();
            std::mem::swap(&mut entries, &mut self.entries);
            let (_, old_v) = entries.remove(k);
            let ghost e = (name, v);
            entries.insert(k, (name, v));
            proof {
                assert(entries@ == s.update(k as int, e));
                assert(sorted(entries@)) by {
                    assert forall|i: int, j: int| 0 <= i < j < entries@.len() implies lex_lt((#[trigger] entries@[i]).0@, (#[trigger] entries@[j]).0@) by {
                        assert(i != k ==> entries@[i] == s[i]);
                        assert(j != k ==> entries@[j] == s[j]);
                    }
                }
                lemma_to_map(entries@);
                assert(to_map(entries@) =~= to_map(s).insert(name@, v)) by {
                    assert forall|key: Seq<char>| to_map(entries@).contains_key(key) <==> to_map(s).insert(name@, v).contains_key(key) by {
                        if exists|i: int| 0 <= i < s.len() && (#[trigger] s[i]).0@ == key {
                            let i = choose|i: int| 0 <= i < s.len() && (#[trigger] s[i]).0@ == key;
                            assert(entries@[i].0@ == key);
                        }
                        if exists|i: int| 0 <= i < entries@.len() && (#[trigger] entries@[i]).0@ == key {
                            let i = choose|i: int| 0 <= i < entries@.len() && (#[trigger] entries@[i]).0@ == key;
                            assert(s[i].0@ == key);
                        }
                    }
                    assert forall|key: Seq<char>| #[trigger] to_map(entries@).contains_key(key) implies to_map(entries@)[key] == to_map(s).insert(name@, v)[key] by {
                        let i = choose|i: int| 0 <= i < entries@.len() && (#[trigger] entries@[i]).0@ == key;
                        assert(s[i].0@ == key);
                    }
                }
            }
            self.entries = entries;
            Some(old_v)
        } else {
            proof {
                if k < s.len() {
                    lemma_lex_total(s[k as int].0@, name@);
                }
                assert forall|i: int| 0 <= i < s.len() implies (#[trigger] s[i]).0@ != name@ by {
                    lemma_lex_irreflexive(name@);
                    if i > k && s[i].0@ == name@ {
                        assert(lex_lt(s[k as int].0@, s[i].0@));
                    }
                }
            }
            let mut entries = Vec::new();
            std::mem::swap(&mut entries, &mut self.entries);
            let ghost e = (name, v);
            entries.insert(k, (name, v));
            proof {
                assert(entries@ == s.insert(k as int, e));
                assert(sorted(entries@)) by {
                    assert forall|i: int, j: int| 0 <= i < j < entries@.len() implies lex_lt((#[trigger] entries@[i]).0@, (#[trigger] entries@[j]).0@) by {
                        if j == k {
                            assert(entries@[i] == s[i]);
                        } else if i == k {
                            assert(entries@[j] == s[j - 1]);
                            if j - 1 > k {
                                assert(lex_lt(s[k as int].0@, s[j - 1].0@));
                                lemma_lex_trans(name@, s[k as int].0@, s[j - 1].0@);
                            }
                        } else if i < k && j > k {
                            assert(entries@[i] == s[i] && entries@[j] == s[j - 1]);
                            if i < j - 1 {
                                assert(lex_lt(s[i].0@, s[j - 1].0@));
                            }
                        } else if j < k {
                            assert(entries@[i] == s[i] && entries@[j] == s[j]);
                        } else {
                            assert(entries@[i] == s[i - 1] && entries@[j] == s[j - 1]);
                        }
                    }
                }
                lemma_to_map(entries@);
                assert(to_map(entries@) =~= to_map(s).insert(name@, v)) by {
                    assert forall|key: Seq<char>| to_map(entries@).contains_key(key) <==> to_map(s).insert(name@, v).contains_key(key) by {
                        if exists|i: int| 0 <= i < s.len() && (#[trigger] s[i]).0@ == key {
                            let i = choose|i: int| 0 <= i < s.len() && (#[trigger] s[i]).0@ == key;
                            if i < k {
                                assert(entries@[i].0@ == key);
                            } else {
                                assert(entries@[i + 1].0@ == key);
                            }
                        }
                        if key == name@ {
                            assert(entries@[k as int].0@ == key);
                        }
                        if exists|i: int| 0 <= i < entries@.len() && (#[trigger] entries@[i]).0@ == key {
                            let i = choose|i: int| 0 <= i < entries@.len() && (#[trigger] entries@[i]).0@ == key;
                            if i < k {
                                assert(s[i].0@ == key);
                            } else if i > k {
                                assert(s[i - 1].0@ == key);
                            }
                        }
                    }
                    assert forall|key: Seq<char>| #[trigger] to_map(entries@).contains_key(key) implies to_map(entries@)[key] == to_map(s).insert(name@, v)[key] by {
                        let i = choose|i: int| 0 <= i < entries@.len() && (#[trigger] entries@[i]).0@ == key;
                        if i < k {
                            assert(s[i].0@ == key);
                        } else if i > k {
                            assert(s[i - 1].0@ == key);
                        }
                    }
                }
            }
            self.entries = entries;
            None
        }
    }

    /// Take worker `name` out of the table, returning its payload.
    pub fn remove(&mut self, name: &str) -> (old_v: Option<S>)
        ensures
            final(self).map_of() == old(self).map_of().remove(name@),
            match old_v {
                Some(x) => old(self).map_of().contains_key(name@) && old(self).map_of()[name@] == x,
                None => !old(self).map_of().contains_key(name@),
            },
    {
        proof {
            use_type_invariant(&*self);
            lemma_to_map(self.entries@);
        }
        let k = self.position(name);
        let ghost s = self.entries@;
        if k < self.entries.len() && str_eq(self.entries[k].0.as_str(), name) {
            let mut entries = Vec::new();
            std::mem::swap(&mut entries, &mut self.entries);
            let (_, old_v) = entries.remove(k);
            proof {
                assert(entries@ == s.remove(k as int));
                assert(sorted(entries@)) by {
                    assert forall|i: int, j: int| 0 <= i < j < entries@.len() implies lex_lt((#[trigger] entries@[i]).0@, (#[trigger] entries@[j]).0@) by {
                        let a = if i < k { i } else { i + 1 };
                        let b = if j < k { j } else { j + 1 };
                        assert(entries@[i] == s[a] && entries@[j] == s[b]);
                    }
                }
                lemma_to_map(entries@);
                lemma_lex_irreflexive(name@);
                assert(to_map(entries@) =~= to_map(s).remove(name@)) by {
                    assert forall|key: Seq<char>| to_map(entries@).contains_key(key) <==> to_map(s).remove(name@).contains_key(key) by {
                        if exists|i: int| 0 <= i < s.len() && (#[trigger] s[i]).0@ == key {
                            let i = choose|i: int| 0 <= i < s.len() && (#[trigger] s[i]).0@ == key;
                            if i < k {
                                assert(entries@[i].0@ == key);
                            } else if i > k {
                                assert(entries@[i - 1].0@ == key);
                            }
                        }
                        if exists|i: int| 0 <= i < entries@.len() && (#[trigger] entries@[i]).0@ == key {
                            let i = choose|i: int| 0 <= i < entries@.len() && (#[trigger] entries@[i]).0@ == key;
                            if i < k {
                                assert(s[i].0@ == key);
                                assert(lex_lt(s[i].0@, s[k as int].0@));
                            } else {
                                assert(s[i + 1].0@ == key);
                                assert(lex_lt(s[k as int].0@, s[i + 1].0@));
                            }
                        }
                    }
                    assert forall|key: Seq<char>| #[trigger] to_map(entries@).contains_key(key) implies to_map(entries@)[key] == to_map(s).remove(name@)[key] by {
                        let i = choose|i: int| 0 <= i < entries@.len() && (#[trigger] entries@[i]).0@ == key;
                        if i < k {
                            assert(s[i].0@ == key);
                        } else {
                            assert(s[i + 1].0@ == key);
                        }
                    }
                }
            }
            self.entries = entries;
            return Some(old_v);
        }
        proof {
            if k < s.len() {
                lemma_lex_total(s[k as int].0@, name@);
            }
            assert forall|i: int| 0 <= i < s.len() implies (#[trigger] s[i]).0@ != name@ by {
                lemma_lex_irreflexive(name@);
                if i > k && s[i].0@ == name@ {
                    assert(lex_lt(s[k as int].0@, s[i].0@));
                }
            }
            assert(to_map(s).remove(name@) =~= to_map(s));
        }
        None
    }

    /// Empty the table, handing back its entries in name order.
    pub fn drain(&mut self) -> (all: Vec<(String, S)>)
        ensures
            all@ == old(self).entries_of(),
            final(self).entries_of().len() == 0,
            final(self).map_of() == Map::<Seq<char>, S>::empty(),
    {
        let mut all = Vec::new();
        std::mem::swap(&mut all, &mut self.entries);
        all
    }
}

} // verus!
