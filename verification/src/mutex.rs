//! The lock cell and its three acquire/release protocols.
//!
//! The cell owns a two-valued flag and the protected payload.  Each entry
//! point acquires the flag, runs a caller-supplied operation on an exclusive
//! reference to the payload, and releases the flag.  The cell is held here
//! through `&mut`, so every acquisition is proved to succeed at once and the
//! three variants are proved to run the operation exactly once on the stored
//! value.  What each protocol would do under concurrent sharing — where the
//! naive variant admits two holders and the relaxed variant fails to publish
//! the holder's writes — is the subject of the `protocol` and `visibility`
//! models, which the doc comment of each variant points to.
//!
//! Two limitations are policy, not accident.  A panic inside the supplied
//! operation propagates and leaves the flag locked: there is no poisoning
//! and no unlock on unwind.  And no entry point is re-entrant: here the
//! exclusive borrow already rules a nested call out, and under concurrent
//! sharing a holder that calls back in can never be granted the flag again
//! (`protocol::lemma_locked_blocks_acquisition`) — it hangs.

use vstd::prelude::*;

verus! {

/// The flag value that marks the cell as held by a caller.
pub const LOCKED: bool = true;

/// The flag value that marks the cell as free.
pub const UNLOCKED: bool = false;

/// The memory-ordering strength handed to a flag operation.
///
/// For a cell reached through `&mut` no other thread can observe the flag,
/// so the choice has no sequential effect; under concurrent sharing it is
/// the whole difference between the protocol variants.  The `visibility`
/// module models exactly what each choice publishes.
pub enum MemOrder {
    /// Atomicity of the single operation, and nothing about the order in
    /// which surrounding memory effects become visible elsewhere.
    Relaxed,
    /// No later memory operation is perceived as occurring before this one.
    Acquire,
    /// No earlier memory operation is perceived as occurring after this one.
    Release,
}

/// A spin-lock cell: a two-valued flag co-located with the value it protects.
///
/// The flag's transition from [`UNLOCKED`] to [`LOCKED`] is the sole
/// authority to touch the payload: the payload is reached only inside the
/// `with_lock` entry points, never through a getter.
pub struct Mutex<T> {
    locked: bool,
    v: T,
}

impl<T> View for Mutex<T> {
    type V = T;

    closed spec fn view(&self) -> T {
        self.v
    }
}

impl<T> Mutex<T> {
    /// The flag is free: no critical section is running.
    ///
    /// Construction establishes this and every entry point restores it on
    /// return, so every cell a caller can hold satisfies it.
    pub closed spec fn unlocked(&self) -> bool {
        self.locked == UNLOCKED
    }

    /// Builds a cell holding `t`, with the flag initially unlocked.
    pub fn new(t: T) -> (m: Mutex<T>)
        ensures
            m@ == t,
            m.unlocked(),
    {
        Mutex { locked: UNLOCKED, v: t }
    }

    /// One read of the flag, as the spin loops perform it.
    fn load(&self, order: MemOrder) -> (b: bool)
        ensures
            b == self.locked,
    {
        self.locked
    }

    /// One write of the flag, as lock and unlock perform it.
    fn store(&mut self, val: bool, order: MemOrder)
        ensures
            final(self).locked == val,
            final(self).v == old(self).v,
    {
        self.locked = val;
    }

    /// One compare-and-swap of the flag: if it equals `current`, replace it
    /// with `new` and report the value seen as success; otherwise leave it
    /// alone and report the value seen as failure.  Check and replacement
    /// are a single step — there is no window between them.
    fn compare_exchange(
        &mut self,
        current: bool,
        new: bool,
        success: MemOrder,
        failure: MemOrder,
    ) -> (r: Result<bool, bool>)
        ensures
            final(self).v == old(self).v,
            old(self).locked == current ==> final(self).locked == new && r == Ok::<bool, bool>(
                current,
            ),
            old(self).locked != current ==> final(self).locked == old(self).locked && r == Err::<
                bool,
                bool,
            >(old(self).locked),
    {
        if self.locked == current {
            self.locked = new;
            Ok(current)
        } else {
            Err(self.locked)
        }
    }

    /// Naive protocol: spin while the flag reads locked, then store the
    /// flag locked, run `f`, and store the flag unlocked.
    ///
    /// The load that observes the flag unlocked and the store that claims it
    /// are two separate steps.  Under `&mut` the pair is harmless and this
    /// variant meets the same contract as the others; under concurrent
    /// sharing two threads can both pass the load before either stores, and
    /// [`crate::protocol::lemma_naive_admits_race`] exhibits exactly that
    /// interleaving — and [`crate::counter::lemma_naive_loses_update`] an
    /// interleaving in which it loses an update.  Without contention the
    /// window is harmless ([`crate::counter::lemma_naive_solo_exact`]).  All
    /// flag operations are relaxed, so even the winner publishes nothing
    /// (see `visibility`).
    pub fn with_lock<R, F: FnOnce(&mut T) -> R>(&mut self, f: F) -> (r: R)
        requires
            old(self).unlocked(),
            forall|m: &mut T|
                mut_ref_current(m) == old(self)@ ==> #[trigger] call_requires(f, (m,)),
        ensures
            final(self).unlocked(),
            exists|m: &mut T|
                #[trigger] call_ensures(f, (m,), r) && mut_ref_current(m) == old(self)@
                    && mut_ref_future(m) == final(self)@,
    {
        while self.load(MemOrder::Relaxed) != UNLOCKED
            invariant
                self.unlocked(),
                self@ == old(self)@,
            decreases 0nat,
        {
        }
        self.store(LOCKED, MemOrder::Relaxed);
        let ret = f(&mut self.v);
        self.store(UNLOCKED, MemOrder::Relaxed);
        ret
    }

    /// Compare-and-swap protocol, relaxed throughout: retry an atomic
    /// "unlocked, so now locked" exchange until it succeeds, run `f`, and
    /// store the flag unlocked.
    ///
    /// The exchange closes the naive variant's window — check and claim are
    /// one step, [`crate::protocol::lemma_cas_mutual_exclusion`] proves
    /// that no interleaving of this protocol puts two threads inside the
    /// critical section, and [`crate::counter::lemma_cas_counter_exact`]
    /// that no interleaving loses an update.  A failed exchange falls into an inner loop of
    /// plain loads, retrying the costlier exchange only once the flag reads
    /// unlocked again.  Every operation is still relaxed, so the winner is
    /// not guaranteed to observe the previous holder's writes;
    /// [`crate::visibility::lemma_relaxed_admits_stale_view`] exhibits that
    /// failure.
    pub fn with_lock_2<R, F: FnOnce(&mut T) -> R>(&mut self, f: F) -> (r: R)
        requires
            old(self).unlocked(),
            forall|m: &mut T|
                mut_ref_current(m) == old(self)@ ==> #[trigger] call_requires(f, (m,)),
        ensures
            final(self).unlocked(),
            exists|m: &mut T|
                #[trigger] call_ensures(f, (m,), r) && mut_ref_current(m) == old(self)@
                    && mut_ref_future(m) == final(self)@,
    {
        let mut won = self.compare_exchange(
            UNLOCKED,
            LOCKED,
            MemOrder::Relaxed,
            MemOrder::Relaxed,
        ).is_ok();
        while !won
            invariant
                won,
                self@ == old(self)@,
            decreases 0nat,
        {
            // The retry path of the protocol.  Under an exclusive borrow the
            // first exchange always wins, so this body is proved unreachable;
            // it is kept because it is the spin-wait structure that matters
            // under sharing: wait on cheap loads, contend only when the flag
            // was seen free.
            while self.load(MemOrder::Relaxed) == LOCKED
                invariant
                    self.unlocked(),
                decreases 0nat,
            {
            }
            won = self.compare_exchange(
                UNLOCKED,
                LOCKED,
                MemOrder::Relaxed,
                MemOrder::Relaxed,
            ).is_ok();
        }
        let ret = f(&mut self.v);
        self.store(UNLOCKED, MemOrder::Relaxed);
        ret
    }

    /// Compare-and-swap protocol with acquire/release ordering: the
    /// recommended entry point, and the only variant fit for general
    /// concurrent use.
    ///
    /// The retry structure is that of [`Mutex::with_lock_2`]; the difference
    /// is that the winning exchange acquires and the unlock store releases,
    /// pairing each release of one holder with the acquire of the next.
    /// [`crate::visibility::lemma_release_acquire_publishes`] proves that
    /// under this pairing every holder observes every earlier holder's
    /// writes.  The failed-exchange branch and the inner spin loads stay
    /// relaxed: failure claims nothing, and the inner read is only a local
    /// staleness check.
    pub fn with_lock_3<R, F: FnOnce(&mut T) -> R>(&mut self, f: F) -> (r: R)
        requires
            old(self).unlocked(),
            forall|m: &mut T|
                mut_ref_current(m) == old(self)@ ==> #[trigger] call_requires(f, (m,)),
        ensures
            final(self).unlocked(),
            exists|m: &mut T|
                #[trigger] call_ensures(f, (m,), r) && mut_ref_current(m) == old(self)@
                    && mut_ref_future(m) == final(self)@,
    {
        let mut won = self.compare_exchange(
            UNLOCKED,
            LOCKED,
            MemOrder::Acquire,
            MemOrder::Relaxed,
        ).is_ok();
        while !won
            invariant
                won,
                self@ == old(self)@,
            decreases 0nat,
        {
            // The retry path of the protocol.  Under an exclusive borrow the
            // first exchange always wins, so this body is proved unreachable;
            // it is kept because it is the spin-wait structure that matters
            // under sharing: wait on cheap loads, contend only when the flag
            // was seen free.
            while self.load(MemOrder::Relaxed) == LOCKED
                invariant
                    self.unlocked(),
                decreases 0nat,
            {
            }
            won = self.compare_exchange(
                UNLOCKED,
                LOCKED,
                MemOrder::Acquire,
                MemOrder::Relaxed,
            ).is_ok();
        }
        let ret = f(&mut self.v);
        self.store(UNLOCKED, MemOrder::Release);
        ret
    }
}

} // verus!
