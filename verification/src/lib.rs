//! A persistent background-job engine with a transactional event outbox.
//!
//! Jobs are durable records leased by competing workers; a lease is a
//! time-bounded exclusive claim that expires on its own, which is the sole
//! crash-recovery mechanism. A job body checkpoints progress and publishes
//! outbox events through a transactional unit, so business writes, child
//! jobs, checkpoints and events become visible atomically on commit.

pub mod context;
pub mod errors;
pub mod laws;
pub mod outbox;
pub mod record;
pub mod registry;
pub mod retry;
pub mod scheduler;
pub mod store;
pub mod txn;

use vstd::prelude::*;

verus! {

/// Adds without overflow: sticks at `u64::MAX` instead of wrapping.
pub open spec fn sat_add(a: u64, b: u64) -> u64 {
    if a + b > u64::MAX {
        u64::MAX
    } else {
        (a + b) as u64
    }
}

/// Executable counterpart of [`sat_add`].
pub fn saturating_add(a: u64, b: u64) -> (r: u64)
    ensures
        r == sat_add(a, b),
{
    if a > u64::MAX - b {
        u64::MAX
    } else {
        a + b
    }
}

/// A fresh byte buffer with the same contents.
pub fn copy_payload(src: &Vec<u8>) -> (r: Vec<u8>)
    ensures
        r@ == src@,
{
    let r = src.clone();
    proof {
        assert(r@ =~= src@);
    }
    r
}

} // verus!
