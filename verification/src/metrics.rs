//! Metric samples grouped into one series per instance.

use vstd::prelude::*;

verus! {

/// The rows that a list of series stands for: each point of each series,
/// paired with the series' instance, in order.
pub open spec fn expand<P>(groups: Seq<(u32, Vec<P>)>) -> Seq<(u32, P)>
    decreases groups.len(),
{
    if groups.len() == 0 {
        Seq::empty()
    } else {
        let g = groups.last();
        expand(groups.drop_last()) + g.1@.map_values(|p: P| (g.0, p))
    }
}

/// Every series has a point, and neighbouring series are of different instances.
pub open spec fn well_grouped<P>(groups: Seq<(u32, Vec<P>)>) -> bool {
    &&& forall|k: int| 0 <= k < groups.len() ==> (#[trigger] groups[k]).1@.len() > 0
    &&& forall|k: int| 0 < k < groups.len() ==> (#[trigger] groups[k]).0 != groups[k - 1].0
}

proof fn lemma_expand_push<P>(groups: Seq<(u32, Vec<P>)>, g: (u32, Vec<P>))
    ensures
        expand(groups.push(g)) == expand(groups) + g.1@.map_values(|p: P| (g.0, p)),
{
    assert(groups.push(g).drop_last() == groups);
}

/// Group rows of (instance, point), already ordered by instance, into one
/// series per run of equal instances. The rows come back unchanged when the
/// series are expanded again.
pub fn group_by_instance<P: Copy>(rows: &Vec<(u32, P)>) -> (out: Vec<(u32, Vec<P>)>)
    ensures
        expand(out@) == rows@,
        well_grouped(out@),
{
    let mut out: Vec<(u32, Vec<P>)> = Vec::new();
    let mut cur: Vec<P> = Vec::new();
    let mut cur_inst: u32 = 0;
    let mut i: usize = 0;
    while i < rows.len()
        invariant
            i <= rows.len(),
            i == 0 ==> cur@.len() == 0,
            i > 0 ==> cur@.len() > 0 && cur_inst == rows@[i - 1].0,
            cur@.len() == 0 ==> i == 0,
            expand(out@) + cur@.map_values(|p: P| (cur_inst, p)) == rows@.take(i as int),
            well_grouped(out@),
            out@.len() > 0 && cur@.len() > 0 ==> out@.last().0 != cur_inst,
        decreases rows.len() - i,
    {
        let (inst, p) = rows[i];
        assert(rows@.take(i + 1) == rows@.take(i as int).push((inst, p)));
        if cur.len() > 0 && inst != cur_inst {
            let ghost prev_out = out@;
            let ghost prev_cur = cur@;
            let mut done: Vec<P> = Vec::new();
            std::mem::swap(&mut done, &mut cur);
            out.push((cur_inst, done));
            proof {
                lemma_expand_push(prev_out, (cur_inst, done));
            }
        }
        let ghost before = cur@;
        cur.push(p);
        assert(cur@.map_values(|q: P| (inst, q)) == before.map_values(|q: P| (inst, q)).push((inst, p)));
        cur_inst = inst;
        i = i + 1;
    }
    if cur.len() > 0 {
        let ghost prev_out = out@;
        out.push((cur_inst, cur));
        proof {
            lemma_expand_push(prev_out, (cur_inst, cur));
        }
    } else {
        assert(cur@.map_values(|p: P| (cur_inst, p)) == Seq::<(u32, P)>::empty());
    }
    assert(rows@.take(rows.len() as int) == rows@);
    out
}

} // verus!
