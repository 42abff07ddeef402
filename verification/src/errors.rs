//! The engine's error values, each tied by contract to the exact inputs on
//! which it is returned.

use vstd::prelude::*;

verus! {

/// Everything that can go wrong inside the engine itself.
///
/// `JobIdInUse`: a job with the given id already exists (or is staged).
/// `DuplicateKey`: a business row with the given key already exists (or is
/// staged) — the uniqueness conflict that idempotent job bodies must treat
/// as already-done. `CommitConflict`: a concurrently committed transaction
/// took a staged job id or row key first. `LostLease`: the caller no longer
/// holds the job's lease, so its writes were refused. `DuplicateJobType`: the
/// registry already has an entry for the given type tag.
#[derive(Clone, Copy, Debug, PartialEq, Eq, Structural)]
pub enum EngineError {
    JobIdInUse,
    DuplicateKey,
    CommitConflict,
    LostLease,
    DuplicateJobType,
}

} // verus!
