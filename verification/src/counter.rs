//! The classic counter workload, run over the protocol models.
//!
//! The sharpest observable difference between the naive protocol and the
//! compare-and-swap protocol is a shared counter that every critical section
//! increments: with real exclusion the final value equals the number of
//! completed sections exactly, while the naive protocol can lose updates.
//! This module runs that workload over the step relations of `protocol`,
//! with each critical section split into its two memory accesses — read the
//! counter, write back the read value plus one.  It proves that under the
//! compare-and-swap protocol the counter is exact in every interleaving of
//! any number of threads, that the naive protocol is exact too as long as a
//! single thread drives it, and it exhibits a naive interleaving of two
//! threads in which two completed increments leave the counter at one.

use vstd::prelude::*;
use crate::mutex::{LOCKED, UNLOCKED};

verus! {

/// Where a thread stands in its acquire–increment–release cycle.
pub enum Work {
    /// Not contending.
    Idle,
    /// Naive protocol only: observed the flag unlocked; the claiming store
    /// is still to come.
    ReadyToStore,
    /// Holds the lock; has not yet read the counter.
    Reading,
    /// Holds the lock; read `temp` from the counter and will write back
    /// `temp + 1`.
    Writing { temp: nat },
    /// Holds the lock; wrote the counter back and will now release.
    Unlocking,
}

/// A snapshot of the flag, every thread's position in the cycle, and the
/// shared counter.
pub struct CState {
    /// The lock cell's flag.
    pub flag: bool,
    /// Each thread's position, keyed by thread identity.
    pub work: Map<int, Work>,
    /// The shared counter the critical sections increment.
    pub value: nat,
    /// How many increment sections have run to completion (released).
    pub done: nat,
}

impl CState {
    /// Thread `t` is inside its critical section.
    pub open spec fn holding(self, t: int) -> bool {
        self.work[t] is Reading || self.work[t] is Writing || self.work[t] is Unlocking
    }

    /// The starting state: flag unlocked, every thread idle, counter zero.
    pub open spec fn init(self) -> bool {
        &&& self.flag == UNLOCKED
        &&& forall|t: int| self.work[t] is Idle
        &&& self.value == 0
        &&& self.done == 0
    }
}

/// A winning compare-and-swap: one indivisible step from idle to holding.
pub open spec fn acquire_wins(pre: CState, post: CState, t: int) -> bool {
    &&& pre.work[t] is Idle
    &&& pre.flag == UNLOCKED
    &&& post.flag == LOCKED
    &&& post.work == pre.work.insert(t, Work::Reading)
    &&& post.value == pre.value
    &&& post.done == pre.done
}

/// The naive observing load: the flag reads unlocked but does not move.
pub open spec fn observe(pre: CState, post: CState, t: int) -> bool {
    &&& pre.work[t] is Idle
    &&& pre.flag == UNLOCKED
    &&& post.flag == pre.flag
    &&& post.work == pre.work.insert(t, Work::ReadyToStore)
    &&& post.value == pre.value
    &&& post.done == pre.done
}

/// The naive claiming store: unconditional, whatever the flag holds by now.
pub open spec fn enter(pre: CState, post: CState, t: int) -> bool {
    &&& pre.work[t] is ReadyToStore
    &&& post.flag == LOCKED
    &&& post.work == pre.work.insert(t, Work::Reading)
    &&& post.value == pre.value
    &&& post.done == pre.done
}

/// The critical section's first memory access: read the counter.
pub open spec fn read_counter(pre: CState, post: CState, t: int) -> bool {
    &&& pre.work[t] is Reading
    &&& post.flag == pre.flag
    &&& post.work == pre.work.insert(t, Work::Writing { temp: pre.value })
    &&& post.value == pre.value
    &&& post.done == pre.done
}

/// The critical section's second memory access: write back what was read,
/// plus one — not the counter's current value plus one.
pub open spec fn write_back(pre: CState, post: CState, t: int) -> bool {
    &&& pre.work[t] is Writing
    &&& post.flag == pre.flag
    &&& post.work == pre.work.insert(t, Work::Unlocking)
    &&& post.value == pre.work[t]->temp + 1
    &&& post.done == pre.done
}

/// The unlock store, completing the section.
pub open spec fn unlock(pre: CState, post: CState, t: int) -> bool {
    &&& pre.work[t] is Unlocking
    &&& post.flag == UNLOCKED
    &&& post.work == pre.work.insert(t, Work::Idle)
    &&& post.value == pre.value
    &&& post.done == pre.done + 1
}

/// One step of the counter workload under the compare-and-swap protocol.
pub open spec fn cas_counter_step(pre: CState, post: CState, t: int) -> bool {
    ||| acquire_wins(pre, post, t)
    ||| read_counter(pre, post, t)
    ||| write_back(pre, post, t)
    ||| unlock(pre, post, t)
}

/// One step of the counter workload under the naive protocol.
pub open spec fn naive_counter_step(pre: CState, post: CState, t: int) -> bool {
    ||| observe(pre, post, t)
    ||| enter(pre, post, t)
    ||| read_counter(pre, post, t)
    ||| write_back(pre, post, t)
    ||| unlock(pre, post, t)
}

/// Some thread takes a compare-and-swap workload step at position `i`.
pub open spec fn cas_counter_step_taken(tr: Seq<CState>, i: int) -> bool {
    exists|t: int| #[trigger] cas_counter_step(tr[i], tr[i + 1], t)
}

/// Some thread takes a naive workload step at position `i`.
pub open spec fn naive_counter_step_taken(tr: Seq<CState>, i: int) -> bool {
    exists|t: int| #[trigger] naive_counter_step(tr[i], tr[i + 1], t)
}

/// A finite execution of the counter workload under compare-and-swap.
pub open spec fn cas_counter_execution(tr: Seq<CState>) -> bool {
    &&& tr.len() > 0
    &&& tr[0].init()
    &&& forall|i: int| 0 <= i < tr.len() - 1 ==> #[trigger] cas_counter_step_taken(tr, i)
}

/// A finite execution of the counter workload under the naive protocol.
pub open spec fn naive_counter_execution(tr: Seq<CState>) -> bool {
    &&& tr.len() > 0
    &&& tr[0].init()
    &&& forall|i: int| 0 <= i < tr.len() - 1 ==> #[trigger] naive_counter_step_taken(tr, i)
}

/// The inductive invariant of the compare-and-swap workload: one holder at
/// most, a locked flag exactly while there is one, no naive two-step window,
/// and the counter in lock-step with the completed sections — equal while
/// the holder has not written, one ahead once it has.
pub open spec fn counter_inv(s: CState) -> bool {
    &&& forall|t1: int, t2: int|
        #![trigger s.work[t1], s.work[t2]]
        s.holding(t1) && s.holding(t2) ==> t1 == t2
    &&& forall|t: int| #![trigger s.work[t]] s.holding(t) ==> s.flag == LOCKED
    &&& forall|t: int| !(#[trigger] s.work[t] is ReadyToStore)
    &&& s.flag == UNLOCKED ==> s.value == s.done
    &&& forall|t: int| #![trigger s.work[t]] s.work[t] is Reading ==> s.value == s.done
    &&& forall|t: int|
        #![trigger s.work[t]]
        s.work[t] is Writing ==> s.work[t]->temp == s.done && s.value == s.done
    &&& forall|t: int| #![trigger s.work[t]] s.work[t] is Unlocking ==> s.value == s.done + 1
}

/// The initial state satisfies the invariant.
pub proof fn lemma_counter_init_inv(s: CState)
    requires
        s.init(),
    ensures
        counter_inv(s),
{
}

/// Inserting one thread's new position leaves every other thread's alone.
proof fn lemma_work_unchanged(pre: Map<int, Work>, post: Map<int, Work>, t: int, w: Work)
    requires
        post == pre.insert(t, w),
    ensures
        forall|u: int| u != t ==> #[trigger] post[u] == pre[u],
        post[t] == w,
{
}

/// Every compare-and-swap workload step preserves the invariant.
pub proof fn lemma_counter_step_preserves_inv(pre: CState, post: CState, t: int)
    requires
        counter_inv(pre),
        cas_counter_step(pre, post, t),
    ensures
        counter_inv(post),
{
    if acquire_wins(pre, post, t) {
        lemma_work_unchanged(pre.work, post.work, t, Work::Reading);
        assert forall|u: int| u != t implies !pre.holding(u) && !post.holding(u) by {
            assert(post.work[u] == pre.work[u]);
            assert(pre.holding(u) ==> pre.flag == LOCKED);
        }
    } else if read_counter(pre, post, t) {
        lemma_work_unchanged(pre.work, post.work, t, Work::Writing { temp: pre.value });
        assert(pre.holding(t));
        assert forall|u: int| u != t implies !pre.holding(u) && !post.holding(u) by {
            assert(post.work[u] == pre.work[u]);
            assert(pre.holding(u) ==> u == t);
        }
    } else if write_back(pre, post, t) {
        lemma_work_unchanged(pre.work, post.work, t, Work::Unlocking);
        assert(pre.holding(t));
        assert(pre.work[t]->temp == pre.done && pre.value == pre.done);
        assert forall|u: int| u != t implies !pre.holding(u) && !post.holding(u) by {
            assert(post.work[u] == pre.work[u]);
            assert(pre.holding(u) ==> u == t);
        }
        assert(post.value == post.done + 1);
    } else {
        lemma_work_unchanged(pre.work, post.work, t, Work::Idle);
        assert(pre.holding(t));
        assert(pre.value == pre.done + 1);
        assert forall|u: int| !post.holding(u) by {
            if u != t {
                assert(post.work[u] == pre.work[u]);
                assert(pre.holding(u) ==> u == t);
            }
        }
        assert(post.value == post.done);
    }
}

/// The invariant holds at every position of every execution.
pub proof fn lemma_counter_inv_at(tr: Seq<CState>, i: int)
    requires
        cas_counter_execution(tr),
        0 <= i < tr.len(),
    ensures
        counter_inv(tr[i]),
    decreases i,
{
    if i == 0 {
        lemma_counter_init_inv(tr[0]);
    } else {
        lemma_counter_inv_at(tr, i - 1);
        assert(cas_counter_step_taken(tr, i - 1));
        let t = choose|t: int| #[trigger] cas_counter_step(tr[i - 1], tr[i], t);
        lemma_counter_step_preserves_inv(tr[i - 1], tr[i], t);
    }
}

/// No lost updates under compare-and-swap: in every state of every
/// execution in which the flag is free — in particular at the end, when all
/// threads have finished — the counter equals exactly the number of
/// completed increment sections, whatever the interleaving and however many
/// threads took part.
pub proof fn lemma_cas_counter_exact(tr: Seq<CState>, i: int)
    requires
        cas_counter_execution(tr),
        0 <= i < tr.len(),
        tr[i].flag == UNLOCKED,
    ensures
        tr[i].value == tr[i].done,
{
    lemma_counter_inv_at(tr, i);
}

/// The exactness theorem on a concrete run: two threads each complete one
/// increment section under the compare-and-swap protocol, and the counter
/// ends at two — the exact opposite of the naive protocol's lost update.
pub proof fn lemma_cas_counter_execution_exists() -> (tr: Seq<CState>)
    ensures
        cas_counter_execution(tr),
        tr[tr.len() - 1].flag == UNLOCKED,
        tr[tr.len() - 1].done == 2,
        tr[tr.len() - 1].value == 2,
{
    let idle = Map::<int, Work>::total(|t: int| Work::Idle);
    let s0 = CState { flag: UNLOCKED, work: idle, value: 0, done: 0 };
    let s1 = CState { flag: LOCKED, work: s0.work.insert(0, Work::Reading), value: 0, done: 0 };
    let s2 = CState {
        flag: LOCKED,
        work: s1.work.insert(0, Work::Writing { temp: 0 }),
        value: 0,
        done: 0,
    };
    let s3 = CState { flag: LOCKED, work: s2.work.insert(0, Work::Unlocking), value: 1, done: 0 };
    let s4 = CState { flag: UNLOCKED, work: s3.work.insert(0, Work::Idle), value: 1, done: 1 };
    let s5 = CState { flag: LOCKED, work: s4.work.insert(1, Work::Reading), value: 1, done: 1 };
    let s6 = CState {
        flag: LOCKED,
        work: s5.work.insert(1, Work::Writing { temp: 1 }),
        value: 1,
        done: 1,
    };
    let s7 = CState { flag: LOCKED, work: s6.work.insert(1, Work::Unlocking), value: 2, done: 1 };
    let s8 = CState { flag: UNLOCKED, work: s7.work.insert(1, Work::Idle), value: 2, done: 2 };
    let tr = seq![s0, s1, s2, s3, s4, s5, s6, s7, s8];
    assert(cas_counter_step_taken(tr, 0)) by {
        assert(acquire_wins(tr[0], tr[0int + 1], 0));
        assert(cas_counter_step(tr[0], tr[0int + 1], 0));
    }
    assert(cas_counter_step_taken(tr, 1)) by {
        assert(read_counter(tr[1], tr[1int + 1], 0));
        assert(cas_counter_step(tr[1], tr[1int + 1], 0));
    }
    assert(cas_counter_step_taken(tr, 2)) by {
        assert(tr[2].work[0]->temp == 0);
        assert(write_back(tr[2], tr[2int + 1], 0));
        assert(cas_counter_step(tr[2], tr[2int + 1], 0));
    }
    assert(cas_counter_step_taken(tr, 3)) by {
        assert(unlock(tr[3], tr[3int + 1], 0));
        assert(cas_counter_step(tr[3], tr[3int + 1], 0));
    }
    assert(cas_counter_step_taken(tr, 4)) by {
        assert(acquire_wins(tr[4], tr[4int + 1], 1));
        assert(cas_counter_step(tr[4], tr[4int + 1], 1));
    }
    assert(cas_counter_step_taken(tr, 5)) by {
        assert(read_counter(tr[5], tr[5int + 1], 1));
        assert(cas_counter_step(tr[5], tr[5int + 1], 1));
    }
    assert(cas_counter_step_taken(tr, 6)) by {
        assert(tr[6].work[1]->temp == 1);
        assert(write_back(tr[6], tr[6int + 1], 1));
        assert(cas_counter_step(tr[6], tr[6int + 1], 1));
    }
    assert(cas_counter_step_taken(tr, 7)) by {
        assert(unlock(tr[7], tr[7int + 1], 1));
        assert(cas_counter_step(tr[7], tr[7int + 1], 1));
    }
    tr
}

/// A naive-protocol execution in which only thread `w` ever takes a step:
/// the non-contending case.
pub open spec fn naive_solo_execution(tr: Seq<CState>, w: int) -> bool {
    &&& tr.len() > 0
    &&& tr[0].init()
    &&& forall|i: int| 0 <= i < tr.len() - 1 ==> #[trigger] naive_counter_step(tr[i], tr[i + 1], w)
}

/// The inductive invariant of the non-contending naive workload: every
/// other thread stays idle, and the sole thread's position determines the
/// flag and the counter exactly.
pub open spec fn solo_inv(s: CState, w: int) -> bool {
    &&& forall|u: int| u != w ==> #[trigger] s.work[u] is Idle
    &&& s.work[w] is Idle ==> s.flag == UNLOCKED && s.value == s.done
    &&& s.work[w] is ReadyToStore ==> s.flag == UNLOCKED && s.value == s.done
    &&& s.work[w] is Reading ==> s.flag == LOCKED && s.value == s.done
    &&& s.work[w] is Writing ==> s.flag == LOCKED && s.work[w]->temp == s.done && s.value
        == s.done
    &&& s.work[w] is Unlocking ==> s.flag == LOCKED && s.value == s.done + 1
}

/// Every step the sole thread takes preserves the solo invariant: with
/// nobody to interleave, the naive load-then-store window is harmless.
pub proof fn lemma_solo_step_preserves_inv(pre: CState, post: CState, w: int)
    requires
        solo_inv(pre, w),
        naive_counter_step(pre, post, w),
    ensures
        solo_inv(post, w),
{
    assert forall|u: int| u != w implies #[trigger] post.work[u] is Idle by {
        assert(post.work[u] == pre.work[u]);
    }
}

/// The solo invariant holds at every position of a non-contending
/// execution.
pub proof fn lemma_solo_inv_at(tr: Seq<CState>, w: int, i: int)
    requires
        naive_solo_execution(tr, w),
        0 <= i < tr.len(),
    ensures
        solo_inv(tr[i], w),
    decreases i,
{
    if i > 0 {
        lemma_solo_inv_at(tr, w, i - 1);
        assert(naive_counter_step(tr[i - 1], tr[i - 1 + 1], w));
        lemma_solo_step_preserves_inv(tr[i - 1], tr[i], w);
    }
}

/// Without contention the naive protocol is exact after all: in any
/// execution driven by a single thread, whenever the flag is free the
/// counter equals the number of completed increment sections.  Its defect
/// is strictly a contention defect.
pub proof fn lemma_naive_solo_exact(tr: Seq<CState>, w: int, i: int)
    requires
        naive_solo_execution(tr, w),
        0 <= i < tr.len(),
        tr[i].flag == UNLOCKED,
    ensures
        tr[i].value == tr[i].done,
{
    lemma_solo_inv_at(tr, w, i);
}

/// A lost update under the naive protocol: an execution of two threads in
/// which both observe the unlocked flag, both enter, both read zero, and
/// both write back one — two completed increment sections, counter one.
pub proof fn lemma_naive_loses_update() -> (tr: Seq<CState>)
    ensures
        naive_counter_execution(tr),
        tr[tr.len() - 1].flag == UNLOCKED,
        tr[tr.len() - 1].done == 2,
        tr[tr.len() - 1].value == 1,
{
    let idle = Map::<int, Work>::total(|t: int| Work::Idle);
    let s0 = CState { flag: UNLOCKED, work: idle, value: 0, done: 0 };
    let s1 = CState { flag: UNLOCKED, work: s0.work.insert(0, Work::ReadyToStore), value: 0, done: 0 };
    let s2 = CState { flag: UNLOCKED, work: s1.work.insert(1, Work::ReadyToStore), value: 0, done: 0 };
    let s3 = CState { flag: LOCKED, work: s2.work.insert(0, Work::Reading), value: 0, done: 0 };
    let s4 = CState { flag: LOCKED, work: s3.work.insert(1, Work::Reading), value: 0, done: 0 };
    let s5 = CState {
        flag: LOCKED,
        work: s4.work.insert(0, Work::Writing { temp: 0 }),
        value: 0,
        done: 0,
    };
    let s6 = CState {
        flag: LOCKED,
        work: s5.work.insert(1, Work::Writing { temp: 0 }),
        value: 0,
        done: 0,
    };
    let s7 = CState { flag: LOCKED, work: s6.work.insert(0, Work::Unlocking), value: 1, done: 0 };
    let s8 = CState { flag: LOCKED, work: s7.work.insert(1, Work::Unlocking), value: 1, done: 0 };
    let s9 = CState { flag: UNLOCKED, work: s8.work.insert(0, Work::Idle), value: 1, done: 1 };
    let s10 = CState { flag: UNLOCKED, work: s9.work.insert(1, Work::Idle), value: 1, done: 2 };
    let tr = seq![s0, s1, s2, s3, s4, s5, s6, s7, s8, s9, s10];
    assert(naive_counter_step_taken(tr, 0)) by {
        assert(observe(tr[0], tr[0int + 1], 0));
        assert(naive_counter_step(tr[0], tr[0int + 1], 0));
    }
    assert(naive_counter_step_taken(tr, 1)) by {
        assert(observe(tr[1], tr[1int + 1], 1));
        assert(naive_counter_step(tr[1], tr[1int + 1], 1));
    }
    assert(naive_counter_step_taken(tr, 2)) by {
        assert(enter(tr[2], tr[2int + 1], 0));
        assert(naive_counter_step(tr[2], tr[2int + 1], 0));
    }
    assert(naive_counter_step_taken(tr, 3)) by {
        assert(enter(tr[3], tr[3int + 1], 1));
        assert(naive_counter_step(tr[3], tr[3int + 1], 1));
    }
    assert(naive_counter_step_taken(tr, 4)) by {
        assert(read_counter(tr[4], tr[4int + 1], 0));
        assert(naive_counter_step(tr[4], tr[4int + 1], 0));
    }
    assert(naive_counter_step_taken(tr, 5)) by {
        assert(read_counter(tr[5], tr[5int + 1], 1));
        assert(naive_counter_step(tr[5], tr[5int + 1], 1));
    }
    assert(naive_counter_step_taken(tr, 6)) by {
        assert(tr[6].work[0]->temp == 0);
        assert(write_back(tr[6], tr[6int + 1], 0));
        assert(naive_counter_step(tr[6], tr[6int + 1], 0));
    }
    assert(naive_counter_step_taken(tr, 7)) by {
        assert(tr[7].work[1]->temp == 0);
        assert(write_back(tr[7], tr[7int + 1], 1));
        assert(naive_counter_step(tr[7], tr[7int + 1], 1));
    }
    assert(naive_counter_step_taken(tr, 8)) by {
        assert(unlock(tr[8], tr[8int + 1], 0));
        assert(naive_counter_step(tr[8], tr[8int + 1], 0));
    }
    assert(naive_counter_step_taken(tr, 9)) by {
        assert(unlock(tr[9], tr[9int + 1], 1));
        assert(naive_counter_step(tr[9], tr[9int + 1], 1));
    }
    tr
}

} // verus!
