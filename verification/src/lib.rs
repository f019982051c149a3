//! A minimal spin-lock mutex, in three variants of increasing correctness.
//!
//! The lock cell couples a two-valued flag with a protected payload; the
//! flag's transition from unlocked to locked is the sole authority to touch
//! the payload.  Three entry points share that layout and differ only in the
//! acquire/release protocol: a naive load-then-store, a compare-and-swap
//! retried until success, and the same compare-and-swap with acquire/release
//! memory ordering.  The protocol itself — why the naive variant races, why
//! the compare-and-swap excludes, and why only the ordered variant publishes
//! the critical section's writes — is modelled and proved in `protocol`,
//! `counter` and `visibility`.
//!
//! Waiting is pure busy-waiting: no scheduler parking, no timeout, no
//! fairness.  That suits only very short critical sections — a waiting
//! thread burns its core, and a holder that never returns starves every
//! waiter for good.

pub mod counter;
pub mod mutex;
pub mod protocol;
pub mod visibility;
