//! A model of the acquire/release protocols under concurrent interleaving.
//!
//! The executable entry points hold the cell through `&mut`, so their
//! contracts cannot speak of contention.  This module does: a [`State`]
//! records the flag and the phase of every thread, each protocol is a step
//! relation over such states, and an execution is any finite interleaving of
//! steps.  Over that model the module proves what separates the variants:
//! the compare-and-swap protocol excludes two holders from every execution,
//! the naive protocol admits an execution with two holders, a sole
//! contender always gets in, and no acquisition — a re-entering holder's
//! included — can begin while the flag is locked.

use vstd::prelude::*;
use crate::mutex::{LOCKED, UNLOCKED};

verus! {

/// Where a thread stands in its acquire/release protocol.
pub enum Phase {
    /// Not contending and not holding the lock.
    Idle,
    /// Naive protocol only: the thread has observed the flag unlocked and
    /// will store it locked as a separate, later step.
    ReadyToStore,
    /// Inside the critical section.
    Critical,
}

/// A snapshot of the flag and of every thread's phase.
pub struct State {
    /// The lock cell's flag.
    pub flag: bool,
    /// The phase of each thread, keyed by thread identity.
    pub phase: Map<int, Phase>,
}

impl State {
    /// Thread `t` is inside the critical section.
    pub open spec fn critical(self, t: int) -> bool {
        self.phase[t] is Critical
    }

    /// The starting state: flag unlocked, every thread idle.
    pub open spec fn init(self) -> bool {
        &&& self.flag == UNLOCKED
        &&& forall|t: int| self.phase[t] is Idle
    }
}

/// A winning compare-and-swap: in one indivisible step the thread sees the
/// flag unlocked and stores it locked, entering the critical section.
pub open spec fn cas_acquire(pre: State, post: State, t: int) -> bool {
    &&& pre.phase[t] is Idle
    &&& pre.flag == UNLOCKED
    &&& post.flag == LOCKED
    &&& post.phase == pre.phase.insert(t, Phase::Critical)
}

/// The holder's unlock store, common to every protocol variant.
pub open spec fn release(pre: State, post: State, t: int) -> bool {
    &&& pre.phase[t] is Critical
    &&& post.flag == UNLOCKED
    &&& post.phase == pre.phase.insert(t, Phase::Idle)
}

/// One step of the compare-and-swap protocol, taken by thread `t`.
pub open spec fn cas_step(pre: State, post: State, t: int) -> bool {
    cas_acquire(pre, post, t) || release(pre, post, t)
}

/// The naive load: the thread observes the flag unlocked, but the flag
/// itself does not move — claiming it is a separate, later step.
pub open spec fn naive_observe(pre: State, post: State, t: int) -> bool {
    &&& pre.phase[t] is Idle
    &&& pre.flag == UNLOCKED
    &&& post.flag == pre.flag
    &&& post.phase == pre.phase.insert(t, Phase::ReadyToStore)
}

/// The naive store: having once observed the flag unlocked, the thread
/// stores it locked unconditionally — whatever the flag holds by now.
pub open spec fn naive_enter(pre: State, post: State, t: int) -> bool {
    &&& pre.phase[t] is ReadyToStore
    &&& post.flag == LOCKED
    &&& post.phase == pre.phase.insert(t, Phase::Critical)
}

/// One step of the naive protocol, taken by thread `t`.
pub open spec fn naive_step(pre: State, post: State, t: int) -> bool {
    naive_observe(pre, post, t) || naive_enter(pre, post, t) || release(pre, post, t)
}

/// Some thread takes a compare-and-swap protocol step between positions
/// `i` and `i + 1` of the trace.
pub open spec fn cas_step_taken(tr: Seq<State>, i: int) -> bool {
    exists|t: int| #[trigger] cas_step(tr[i], tr[i + 1], t)
}

/// Some thread takes a naive protocol step between positions `i` and
/// `i + 1` of the trace.
pub open spec fn naive_step_taken(tr: Seq<State>, i: int) -> bool {
    exists|t: int| #[trigger] naive_step(tr[i], tr[i + 1], t)
}

/// A finite execution of the compare-and-swap protocol: it starts in the
/// initial state and every move is a step of some thread.
pub open spec fn cas_execution(tr: Seq<State>) -> bool {
    &&& tr.len() > 0
    &&& tr[0].init()
    &&& forall|i: int| 0 <= i < tr.len() - 1 ==> #[trigger] cas_step_taken(tr, i)
}

/// A finite execution of the naive protocol.
pub open spec fn naive_execution(tr: Seq<State>) -> bool {
    &&& tr.len() > 0
    &&& tr[0].init()
    &&& forall|i: int| 0 <= i < tr.len() - 1 ==> #[trigger] naive_step_taken(tr, i)
}

/// The inductive invariant of the compare-and-swap protocol: the critical
/// section holds at most one thread, and the flag is locked exactly while
/// it holds one.
pub open spec fn exclusive_inv(s: State) -> bool {
    &&& forall|t1: int, t2: int| s.critical(t1) && s.critical(t2) ==> t1 == t2
    &&& forall|t: int| s.critical(t) ==> s.flag == LOCKED
    &&& (s.flag == LOCKED ==> exists|t: int| s.critical(t))
}

/// The initial state satisfies the invariant.
pub proof fn lemma_cas_init_inv(s: State)
    requires
        s.init(),
    ensures
        exclusive_inv(s),
{
}

/// Every compare-and-swap protocol step preserves the invariant: a winning
/// exchange requires the flag unlocked, which the invariant ties to an
/// empty critical section, and a release empties it again.
pub proof fn lemma_cas_step_preserves_inv(pre: State, post: State, t: int)
    requires
        exclusive_inv(pre),
        cas_step(pre, post, t),
    ensures
        exclusive_inv(post),
{
    if cas_acquire(pre, post, t) {
        assert forall|u: int| post.critical(u) implies u == t by {
            if u != t {
                assert(post.phase[u] == pre.phase[u]);
                assert(pre.critical(u));
            }
        }
        assert(post.critical(t));
    } else {
        assert(pre.critical(t));
        assert forall|u: int| !post.critical(u) by {
            if u != t {
                assert(post.phase[u] == pre.phase[u]);
                assert(pre.critical(u) ==> u == t);
            }
        }
    }
}

/// The invariant holds at every position of every execution.
pub proof fn lemma_cas_inv_at(tr: Seq<State>, i: int)
    requires
        cas_execution(tr),
        0 <= i < tr.len(),
    ensures
        exclusive_inv(tr[i]),
    decreases i,
{
    if i == 0 {
        lemma_cas_init_inv(tr[0]);
    } else {
        lemma_cas_inv_at(tr, i - 1);
        assert(cas_step_taken(tr, i - 1));
        let t = choose|t: int| #[trigger] cas_step(tr[i - 1], tr[i], t);
        lemma_cas_step_preserves_inv(tr[i - 1], tr[i], t);
    }
}

/// Mutual exclusion: in no state of any execution of the compare-and-swap
/// protocol are two distinct threads inside the critical section.
pub proof fn lemma_cas_mutual_exclusion(tr: Seq<State>, i: int, t1: int, t2: int)
    requires
        cas_execution(tr),
        0 <= i < tr.len(),
        tr[i].critical(t1),
        tr[i].critical(t2),
    ensures
        t1 == t2,
{
    lemma_cas_inv_at(tr, i);
}

/// The exclusion theorem is about real executions, not an empty set: here
/// is one in which one thread takes and returns the lock and another takes
/// it after — each holding it in its turn.
pub proof fn lemma_cas_execution_exists() -> (tr: Seq<State>)
    ensures
        cas_execution(tr),
        tr[1].critical(0),
        tr[tr.len() - 1].critical(1),
{
    let idle = Map::<int, Phase>::total(|t: int| Phase::Idle);
    let s0 = State { flag: UNLOCKED, phase: idle };
    let s1 = State { flag: LOCKED, phase: s0.phase.insert(0, Phase::Critical) };
    let s2 = State { flag: UNLOCKED, phase: s1.phase.insert(0, Phase::Idle) };
    let s3 = State { flag: LOCKED, phase: s2.phase.insert(1, Phase::Critical) };
    let tr = seq![s0, s1, s2, s3];
    assert(cas_step_taken(tr, 0)) by {
        assert(cas_acquire(tr[0], tr[0int + 1], 0));
        assert(cas_step(tr[0], tr[0int + 1], 0));
    }
    assert(cas_step_taken(tr, 1)) by {
        assert(release(tr[1], tr[1int + 1], 0));
        assert(cas_step(tr[1], tr[1int + 1], 0));
    }
    assert(cas_step_taken(tr, 2)) by {
        assert(cas_acquire(tr[2], tr[2int + 1], 1));
        assert(cas_step(tr[2], tr[2int + 1], 1));
    }
    tr
}

/// The naive protocol violates mutual exclusion: there is an execution —
/// two threads, each observing the unlocked flag before either stores —
/// that ends with both threads inside the critical section.
pub proof fn lemma_naive_admits_race() -> (tr: Seq<State>)
    ensures
        naive_execution(tr),
        tr[tr.len() - 1].critical(0),
        tr[tr.len() - 1].critical(1),
{
    let idle = Map::<int, Phase>::total(|t: int| Phase::Idle);
    let s0 = State { flag: UNLOCKED, phase: idle };
    let s1 = State { flag: UNLOCKED, phase: s0.phase.insert(0, Phase::ReadyToStore) };
    let s2 = State { flag: UNLOCKED, phase: s1.phase.insert(1, Phase::ReadyToStore) };
    let s3 = State { flag: LOCKED, phase: s2.phase.insert(0, Phase::Critical) };
    let s4 = State { flag: LOCKED, phase: s3.phase.insert(1, Phase::Critical) };
    let tr = seq![s0, s1, s2, s3, s4];
    assert(naive_step_taken(tr, 0)) by {
        assert(naive_step(tr[0], tr[0int + 1], 0));
    }
    assert(naive_step_taken(tr, 1)) by {
        assert(naive_step(tr[1], tr[1int + 1], 1));
    }
    assert(naive_step_taken(tr, 2)) by {
        assert(naive_step(tr[2], tr[2int + 1], 0));
    }
    assert(naive_step_taken(tr, 3)) by {
        assert(naive_step(tr[3], tr[3int + 1], 1));
    }
    tr
}

/// Progress: when nobody is inside the critical section, one
/// compare-and-swap puts a contending thread in — a sole contender never
/// spins more than that single exchange.
pub proof fn lemma_cas_sole_contender_acquires(s: State, t: int) -> (post: State)
    requires
        exclusive_inv(s),
        forall|u: int| !s.critical(u),
        s.phase[t] is Idle,
    ensures
        cas_acquire(s, post, t),
        post.critical(t),
{
    let post = State { flag: LOCKED, phase: s.phase.insert(t, Phase::Critical) };
    post
}

/// Progress for the naive protocol: from an unlocked flag, an idle thread
/// reaches the critical section in its two steps — one observing load and
/// one store.
pub proof fn lemma_naive_sole_contender_acquires(s: State, t: int) -> (mid_post: (State, State))
    requires
        s.flag == UNLOCKED,
        s.phase[t] is Idle,
    ensures
        naive_observe(s, mid_post.0, t),
        naive_enter(mid_post.0, mid_post.1, t),
        mid_post.1.critical(t),
{
    let mid = State { flag: UNLOCKED, phase: s.phase.insert(t, Phase::ReadyToStore) };
    let post = State { flag: LOCKED, phase: mid.phase.insert(t, Phase::Critical) };
    (mid, post)
}

/// Deadlock on re-entry: while the flag is locked, no thread can begin an
/// acquisition — neither a winning exchange nor the naive observing load —
/// and no step but a release unlocks the flag.  A holder that calls back
/// into the lock can never release while it waits, so it spins forever.
pub proof fn lemma_locked_blocks_acquisition(s: State, post: State, u: int)
    requires
        s.flag == LOCKED,
    ensures
        !cas_acquire(s, post, u),
        !naive_observe(s, post, u),
        cas_step(s, post, u) && !release(s, post, u) ==> post.flag == LOCKED,
        naive_step(s, post, u) && !release(s, post, u) ==> post.flag == LOCKED,
{
}

/// The re-entry case itself, under the compare-and-swap protocol: in any
/// reachable state some thread is inside the critical section — itself or
/// another — and then no acquisition by any thread can succeed.
pub proof fn lemma_cas_reentry_blocked(tr: Seq<State>, i: int, t: int)
    requires
        cas_execution(tr),
        0 <= i < tr.len(),
        tr[i].critical(t),
    ensures
        forall|post: State, u: int| !cas_acquire(tr[i], post, u),
{
    lemma_cas_inv_at(tr, i);
}

} // verus!
