//! A model of what the memory orderings publish across critical sections.
//!
//! Mutual exclusion alone does not make a lock correct: on weakly-ordered
//! hardware a relaxed flag transition carries no memory effects with it, so
//! a thread that wins the lock may still miss the previous holder's writes.
//! This module extends the compare-and-swap protocol of `protocol` with an
//! abstract account of visibility.  `writes` counts the critical-section
//! writes performed so far; `seen` gives, per thread, the longest prefix of
//! that write history the thread is guaranteed to observe; `published` gives
//! the prefix the flag itself carries.  A release-store moves the holder's
//! prefix into the flag, and an acquire-load moves the flag's prefix into
//! the acquirer — the happens-before edge.  Relaxed stores and loads move
//! nothing.  Over this model the module proves that under acquire/release
//! pairing every holder observes the whole write history, and that with
//! relaxed orderings a holder can be left with a stale view.

use vstd::prelude::*;
use crate::mutex::{LOCKED, MemOrder, UNLOCKED};
use crate::protocol::Phase;

verus! {

/// The larger of two prefix lengths.
pub open spec fn max_nat(a: nat, b: nat) -> nat {
    if a >= b {
        a
    } else {
        b
    }
}

/// A snapshot of the compare-and-swap protocol together with the abstract
/// visibility bookkeeping.
pub struct VState {
    /// The lock cell's flag.
    pub flag: bool,
    /// The phase of each thread, keyed by thread identity.
    pub phase: Map<int, Phase>,
    /// How many critical-section writes have been performed, ever.
    pub writes: nat,
    /// The prefix of the write history that the flag carries: what the
    /// last release-store published.
    pub published: nat,
    /// Per thread, the prefix of the write history it is guaranteed to
    /// observe.
    pub seen: Map<int, nat>,
}

impl VState {
    /// Thread `t` is inside the critical section.
    pub open spec fn critical(self, t: int) -> bool {
        self.phase[t] is Critical
    }

    /// The starting state: flag unlocked, every thread idle, nothing
    /// written, nothing published, nothing seen.
    pub open spec fn init(self) -> bool {
        &&& self.flag == UNLOCKED
        &&& forall|t: int| self.phase[t] is Idle
        &&& self.writes == 0
        &&& self.published == 0
        &&& forall|t: int| self.seen[t] == 0
    }
}

/// A winning compare-and-swap with the given success ordering.  Only an
/// acquire takes over the prefix the flag carries; a relaxed win leaves the
/// winner's view as it was.
pub open spec fn acquire(pre: VState, post: VState, t: int, order: MemOrder) -> bool {
    &&& pre.phase[t] is Idle
    &&& pre.flag == UNLOCKED
    &&& post.flag == LOCKED
    &&& post.phase == pre.phase.insert(t, Phase::Critical)
    &&& post.writes == pre.writes
    &&& post.published == pre.published
    &&& post.seen == pre.seen.insert(
        t,
        if order is Acquire {
            max_nat(pre.seen[t], pre.published)
        } else {
            pre.seen[t]
        },
    )
}

/// One plain (non-atomic) write by the holder inside its critical section.
/// The write extends the history; it extends the writer's guaranteed prefix
/// only if the writer already observed everything before it.
pub open spec fn write(pre: VState, post: VState, t: int) -> bool {
    &&& pre.phase[t] is Critical
    &&& post.flag == pre.flag
    &&& post.phase == pre.phase
    &&& post.writes == pre.writes + 1
    &&& post.published == pre.published
    &&& post.seen == pre.seen.insert(
        t,
        if pre.seen[t] == pre.writes {
            (pre.writes + 1) as nat
        } else {
            pre.seen[t]
        },
    )
}

/// The holder's unlock store with the given ordering.  Only a release
/// hands the holder's guaranteed prefix to the flag; a relaxed store
/// unlocks without publishing anything.
pub open spec fn release_store(pre: VState, post: VState, t: int, order: MemOrder) -> bool {
    &&& pre.phase[t] is Critical
    &&& post.flag == UNLOCKED
    &&& post.phase == pre.phase.insert(t, Phase::Idle)
    &&& post.writes == pre.writes
    &&& post.seen == pre.seen
    &&& post.published == (if order is Release {
        pre.seen[t]
    } else {
        pre.published
    })
}

/// One step of the fully ordered protocol: acquire on the winning
/// exchange, release on the unlock store.
pub open spec fn ordered_step(pre: VState, post: VState, t: int) -> bool {
    ||| acquire(pre, post, t, MemOrder::Acquire)
    ||| write(pre, post, t)
    ||| release_store(pre, post, t, MemOrder::Release)
}

/// One step of the relaxed protocol: the same exchanges and stores, all of
/// them relaxed.
pub open spec fn relaxed_step(pre: VState, post: VState, t: int) -> bool {
    ||| acquire(pre, post, t, MemOrder::Relaxed)
    ||| write(pre, post, t)
    ||| release_store(pre, post, t, MemOrder::Relaxed)
}

/// Some thread takes an ordered step between positions `i` and `i + 1`.
pub open spec fn ordered_step_taken(tr: Seq<VState>, i: int) -> bool {
    exists|t: int| #[trigger] ordered_step(tr[i], tr[i + 1], t)
}

/// Some thread takes a relaxed step between positions `i` and `i + 1`.
pub open spec fn relaxed_step_taken(tr: Seq<VState>, i: int) -> bool {
    exists|t: int| #[trigger] relaxed_step(tr[i], tr[i + 1], t)
}

/// A finite execution of the fully ordered protocol.
pub open spec fn ordered_execution(tr: Seq<VState>) -> bool {
    &&& tr.len() > 0
    &&& tr[0].init()
    &&& forall|i: int| 0 <= i < tr.len() - 1 ==> #[trigger] ordered_step_taken(tr, i)
}

/// A finite execution of the relaxed protocol.
pub open spec fn relaxed_execution(tr: Seq<VState>) -> bool {
    &&& tr.len() > 0
    &&& tr[0].init()
    &&& forall|i: int| 0 <= i < tr.len() - 1 ==> #[trigger] relaxed_step_taken(tr, i)
}

/// The inductive invariant of the fully ordered protocol: no view runs
/// ahead of the history, the critical section holds at most one thread, an
/// unlocked flag carries the whole history, and a holder sees the whole
/// history.
pub open spec fn ordered_inv(s: VState) -> bool {
    &&& forall|t: int| #[trigger] s.seen[t] <= s.writes
    &&& s.published <= s.writes
    &&& forall|t1: int, t2: int| s.critical(t1) && s.critical(t2) ==> t1 == t2
    &&& forall|t: int| s.critical(t) ==> s.flag == LOCKED
    &&& (s.flag == UNLOCKED ==> s.published == s.writes)
    &&& forall|t: int| s.critical(t) ==> #[trigger] s.seen[t] == s.writes
}

/// The initial state satisfies the invariant.
pub proof fn lemma_ordered_init_inv(s: VState)
    requires
        s.init(),
    ensures
        ordered_inv(s),
{
}

/// Every ordered step preserves the invariant: the acquire finds the whole
/// history at the flag because the release of the previous holder put it
/// there.
pub proof fn lemma_ordered_step_preserves_inv(pre: VState, post: VState, t: int)
    requires
        ordered_inv(pre),
        ordered_step(pre, post, t),
    ensures
        ordered_inv(post),
{
    if acquire(pre, post, t, MemOrder::Acquire) {
        assert(post.seen[t] == pre.writes);
        assert forall|u: int| post.critical(u) implies u == t by {
            if u != t {
                assert(post.phase[u] == pre.phase[u]);
                assert(pre.critical(u));
            }
        }
        assert forall|u: int| #[trigger] post.seen[u] <= post.writes by {
            if u != t {
                assert(post.seen[u] == pre.seen[u]);
            }
        }
    } else if write(pre, post, t) {
        assert(pre.critical(t));
        assert(pre.seen[t] == pre.writes);
        assert forall|u1: int, u2: int| post.critical(u1) && post.critical(u2) implies u1
            == u2 by {
            assert(pre.critical(u1));
            assert(pre.critical(u2));
        }
        assert forall|u: int| #[trigger] post.seen[u] <= post.writes by {
            if u != t {
                assert(post.seen[u] == pre.seen[u]);
            }
        }
        assert forall|u: int| post.critical(u) implies #[trigger] post.seen[u] == post.writes by {
            assert(pre.critical(u) && pre.critical(t));
        }
    } else {
        assert(pre.critical(t));
        assert(pre.seen[t] == pre.writes);
        assert forall|u: int| !post.critical(u) by {
            if u != t {
                assert(post.phase[u] == pre.phase[u]);
                assert(pre.critical(u) ==> u == t);
            }
        }
    }
}

/// The invariant holds at every position of every ordered execution.
pub proof fn lemma_ordered_inv_at(tr: Seq<VState>, i: int)
    requires
        ordered_execution(tr),
        0 <= i < tr.len(),
    ensures
        ordered_inv(tr[i]),
    decreases i,
{
    if i == 0 {
        lemma_ordered_init_inv(tr[0]);
    } else {
        lemma_ordered_inv_at(tr, i - 1);
        assert(ordered_step_taken(tr, i - 1));
        let t = choose|t: int| #[trigger] ordered_step(tr[i - 1], tr[i], t);
        lemma_ordered_step_preserves_inv(tr[i - 1], tr[i], t);
    }
}

/// Visibility under acquire/release pairing: in every state of every
/// ordered execution, a thread inside the critical section is guaranteed
/// to observe the entire write history — every write of every earlier
/// holder included.
pub proof fn lemma_release_acquire_publishes(tr: Seq<VState>, i: int, t: int)
    requires
        ordered_execution(tr),
        0 <= i < tr.len(),
        tr[i].critical(t),
    ensures
        tr[i].seen[t] == tr[i].writes,
{
    lemma_ordered_inv_at(tr, i);
}

/// The publication theorem on a concrete run: one thread writes under the
/// lock and releases, another acquires — and the acquire hands it the whole
/// history, the predecessor's write included.
pub proof fn lemma_ordered_execution_exists() -> (tr: Seq<VState>)
    ensures
        ordered_execution(tr),
        tr[tr.len() - 1].critical(1),
        tr[tr.len() - 1].writes == 1,
        tr[tr.len() - 1].seen[1] == 1,
{
    let idle = Map::<int, Phase>::total(|t: int| Phase::Idle);
    let zero = Map::<int, nat>::total(|t: int| 0nat);
    let s0 = VState { flag: UNLOCKED, phase: idle, writes: 0, published: 0, seen: zero };
    let s1 = VState {
        flag: LOCKED,
        phase: s0.phase.insert(0, Phase::Critical),
        writes: 0,
        published: 0,
        seen: s0.seen.insert(0, 0),
    };
    let s2 = VState {
        flag: LOCKED,
        phase: s1.phase,
        writes: 1,
        published: 0,
        seen: s1.seen.insert(0, 1),
    };
    let s3 = VState {
        flag: UNLOCKED,
        phase: s2.phase.insert(0, Phase::Idle),
        writes: 1,
        published: 1,
        seen: s2.seen,
    };
    let s4 = VState {
        flag: LOCKED,
        phase: s3.phase.insert(1, Phase::Critical),
        writes: 1,
        published: 1,
        seen: s3.seen.insert(1, 1),
    };
    let tr = seq![s0, s1, s2, s3, s4];
    assert(ordered_step_taken(tr, 0)) by {
        assert(max_nat(s0.seen[0], s0.published) == 0);
        assert(acquire(tr[0], tr[0int + 1], 0, MemOrder::Acquire));
        assert(ordered_step(tr[0], tr[0int + 1], 0));
    }
    assert(ordered_step_taken(tr, 1)) by {
        assert(s1.seen[0] == 0);
        assert(write(tr[1], tr[1int + 1], 0));
        assert(ordered_step(tr[1], tr[1int + 1], 0));
    }
    assert(ordered_step_taken(tr, 2)) by {
        assert(s2.seen[0] == 1);
        assert(release_store(tr[2], tr[2int + 1], 0, MemOrder::Release));
        assert(ordered_step(tr[2], tr[2int + 1], 0));
    }
    assert(ordered_step_taken(tr, 3)) by {
        assert(max_nat(s3.seen[1], s3.published) == 1);
        assert(acquire(tr[3], tr[3int + 1], 1, MemOrder::Acquire));
        assert(ordered_step(tr[3], tr[3int + 1], 1));
    }
    tr
}

/// With every operation relaxed, the lock still excludes, but it does not
/// publish: there is an execution — one thread writes and unlocks, another
/// wins the lock — whose last state has a holder guaranteed to see none of
/// the single write already in the history.
pub proof fn lemma_relaxed_admits_stale_view() -> (tr: Seq<VState>)
    ensures
        relaxed_execution(tr),
        tr[tr.len() - 1].critical(1),
        tr[tr.len() - 1].seen[1] < tr[tr.len() - 1].writes,
{
    let idle = Map::<int, Phase>::total(|t: int| Phase::Idle);
    let zero = Map::<int, nat>::total(|t: int| 0nat);
    let s0 = VState { flag: UNLOCKED, phase: idle, writes: 0, published: 0, seen: zero };
    let s1 = VState {
        flag: LOCKED,
        phase: s0.phase.insert(0, Phase::Critical),
        writes: 0,
        published: 0,
        seen: s0.seen.insert(0, 0),
    };
    let s2 = VState {
        flag: LOCKED,
        phase: s1.phase,
        writes: 1,
        published: 0,
        seen: s1.seen.insert(0, 1),
    };
    let s3 = VState {
        flag: UNLOCKED,
        phase: s2.phase.insert(0, Phase::Idle),
        writes: 1,
        published: 0,
        seen: s2.seen,
    };
    let s4 = VState {
        flag: LOCKED,
        phase: s3.phase.insert(1, Phase::Critical),
        writes: 1,
        published: 0,
        seen: s3.seen.insert(1, 0),
    };
    let tr = seq![s0, s1, s2, s3, s4];
    assert(relaxed_step_taken(tr, 0)) by {
        assert(acquire(tr[0], tr[0int + 1], 0, MemOrder::Relaxed));
        assert(relaxed_step(tr[0], tr[0int + 1], 0));
    }
    assert(relaxed_step_taken(tr, 1)) by {
        assert(write(tr[1], tr[1int + 1], 0));
        assert(relaxed_step(tr[1], tr[1int + 1], 0));
    }
    assert(relaxed_step_taken(tr, 2)) by {
        assert(release_store(tr[2], tr[2int + 1], 0, MemOrder::Relaxed));
        assert(relaxed_step(tr[2], tr[2int + 1], 0));
    }
    assert(relaxed_step_taken(tr, 3)) by {
        assert(acquire(tr[3], tr[3int + 1], 1, MemOrder::Relaxed));
        assert(relaxed_step(tr[3], tr[3int + 1], 1));
    }
    tr
}

} // verus!
