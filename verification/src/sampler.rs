//! The resource sampler's decisions: which processes to sample on a tick,
//! and on which ticks old samples are pruned.

use crate::event::{InstanceStatus, WorkerStatusCore};
use vstd::prelude::*;

verus! {

/// Seconds between two samples.
pub const SAMPLE_INTERVAL_SECS: u64 = 2;

/// Old samples are pruned on every tick whose number is a multiple of this:
/// roughly hourly, at one tick every `SAMPLE_INTERVAL_SECS` seconds.
pub const PRUNE_EVERY_TICKS: u64 = 1800;

/// One live process to sample: the worker, the instance and its process id.
pub struct SampleTarget {
    pub worker: String,
    pub instance: u32,
    pub pid: u32,
}

/// The targets of one worker's instances: those with a process id, in order.
pub open spec fn instance_targets(name: Seq<char>, insts: Seq<InstanceStatus>) -> Seq<(Seq<char>, u32, u32)>
    decreases insts.len(),
{
    if insts.len() == 0 {
        Seq::empty()
    } else {
        let rest = instance_targets(name, insts.drop_last());
        match insts.last().pid {
            Some(pid) => rest.push((name, insts.last().index, pid)),
            None => rest,
        }
    }
}

/// The targets of a status snapshot: worker by worker, instance by instance.
pub open spec fn targets_of(snapshot: Seq<WorkerStatusCore>) -> Seq<(Seq<char>, u32, u32)>
    decreases snapshot.len(),
{
    if snapshot.len() == 0 {
        Seq::empty()
    } else {
        targets_of(snapshot.drop_last()) + instance_targets(
            snapshot.last().name@,
            snapshot.last().instances@,
        )
    }
}

/// A target as a value of the model.
pub open spec fn target_view(t: SampleTarget) -> (Seq<char>, u32, u32) {
    (t.worker@, t.instance, t.pid)
}

/// Every instance of `snapshot` that has a process id, in snapshot order.
pub fn sample_targets(snapshot: &Vec<WorkerStatusCore>) -> (r: Vec<SampleTarget>)
    ensures
        r@.map_values(|t: SampleTarget| target_view(t)) == targets_of(snapshot@),
{
    let mut r: Vec<SampleTarget> = Vec::new();
    let mut i: usize = 0;
    while i < snapshot.len()
        invariant
            i <= snapshot.len(),
            r@.map_values(|t: SampleTarget| target_view(t)) == targets_of(snapshot@.take(i as int)),
        decreases snapshot.len() - i,
    {
        let w = &snapshot[i];
        let ghost before = r@.map_values(|t: SampleTarget| target_view(t));
        let mut j: usize = 0;
        while j < w.instances.len()
            invariant
                j <= w.instances.len(),
                r@.map_values(|t: SampleTarget| target_view(t)) == before + instance_targets(
                    w.name@,
                    w.instances@.take(j as int),
                ),
            decreases w.instances.len() - j,
        {
            let inst = w.instances[j];
            assert(w.instances@.take(j + 1).drop_last() == w.instances@.take(j as int));
            if let Some(pid) = inst.pid {
                r.push(SampleTarget { worker: w.name.clone(), instance: inst.index, pid });
                assert(r@.map_values(|t: SampleTarget| target_view(t)) == (before + instance_targets(
                    w.name@,
                    w.instances@.take(j as int),
                )).push((w.name@, inst.index, pid)));
            }
            j = j + 1;
        }
        assert(w.instances@.take(w.instances.len() as int) == w.instances@);
        assert(snapshot@.take(i + 1).drop_last() == snapshot@.take(i as int));
        i = i + 1;
    }
    assert(snapshot@.take(snapshot.len() as int) == snapshot@);
    r
}

/// The sampler's tick counter.
pub struct SamplerClock {
    ticks: u64,
}

impl SamplerClock {
    /// Ticks made so far.
    pub closed spec fn ticks_of(&self) -> u64 {
        self.ticks
    }

    /// Ticks made so far.
    pub fn ticks(&self) -> (n: u64)
        ensures
            n == self.ticks_of(),
    {
        self.ticks
    }

    /// A clock that has not ticked.
    pub fn new() -> (c: Self)
        ensures
            c.ticks_of() == 0,
    {
        SamplerClock { ticks: 0 }
    }

    /// Count one tick made at `now` (seconds since the epoch). On every
    /// `PRUNE_EVERY_TICKS`-th tick the answer is the cutoff below which samples
    /// are pruned: `now - retain_secs`, or 0 where that would be negative.
    pub fn tick(&mut self, now: u64, retain_secs: u64) -> (prune: Option<u64>)
        requires
            old(self).ticks_of() < u64::MAX,
        ensures
            final(self).ticks_of() == old(self).ticks_of() + 1,
            prune == if final(self).ticks_of() % PRUNE_EVERY_TICKS == 0 {
                Some(if now >= retain_secs { (now - retain_secs) as u64 } else { 0u64 })
            } else {
                None::<u64>
            },
    {
        self.ticks = self.ticks + 1;
        if self.ticks % PRUNE_EVERY_TICKS == 0 {
            Some(now.saturating_sub(retain_secs))
        } else {
            None
        }
    }
}

} // verus!
