//! The engine's guarantees, stated and proved once over the transition
//! predicates that the executable operations are contracted to: lease
//! exclusivity, attempt-neutral rescheduling, error backoff, and the
//! finality of a spent retry budget. Outbox ordering laws live in
//! [`crate::outbox`].

use vstd::prelude::*;

use crate::record::{eligible, is_terminal, leases, JobRecord, JobStatus};
use crate::retry::{backoff_ms, exhausted, RetrySettings};
use crate::sat_add;
use crate::scheduler::{settles, AttemptOutcome};

verus! {

/// A running job under an unexpired lease is not eligible, so no acquisition
/// — by any worker, the holder included — can succeed on it: at most one
/// worker holds a live lease on a job at any instant.
pub proof fn lemma_unexpired_lease_excludes(j: JobRecord, now: u64)
    requires
        j.status == JobStatus::Running,
        (j.lease matches Some(l) && now < l.expires_at),
    ensures
        !eligible(j, now),
{
}

/// Once a worker acquires a lease, the record it leaves behind is ineligible
/// at every instant before the lease expires: the holder runs alone until
/// expiry, which is the engine's mutual-exclusion guarantee.
pub proof fn lemma_lease_is_exclusive(
    j0: JobRecord,
    j1: JobRecord,
    worker: u64,
    now: u64,
    lease_ms: u64,
    t: u64,
)
    requires
        leases(j0, j1, worker, now, lease_ms),
        t < sat_add(now, lease_ms),
    ensures
        !eligible(j1, t),
{
}

/// Taking or renewing a lease never touches the checkpoint: only a commit
/// does, so a checkpoint is exactly as durable as the transaction that wrote
/// it.
pub proof fn lemma_lease_preserves_checkpoint(
    j0: JobRecord,
    j1: JobRecord,
    worker: u64,
    now: u64,
    lease_ms: u64,
)
    requires
        leases(j0, j1, worker, now, lease_ms),
    ensures
        j1.execution_state == j0.execution_state,
        j1.attempts == j0.attempts,
{
}

/// A cooperative reschedule by `d` milliseconds leaves the attempt count
/// unchanged and the job ineligible at every instant before `now + d`.
pub proof fn lemma_reschedule_defers(
    j0: JobRecord,
    j1: JobRecord,
    ck: Seq<u8>,
    d: u64,
    rs: RetrySettings,
    now: u64,
    t: u64,
)
    requires
        settles(j0, j1, ck, AttemptOutcome::RescheduleIn(d), rs, now),
        t < sat_add(now, d),
    ensures
        j1.attempts == j0.attempts,
        !eligible(j1, t),
{
}

/// An error with retry budget left spends exactly one attempt and leaves the
/// job ineligible until the backoff-computed delay has passed.
pub proof fn lemma_error_backoff(
    j0: JobRecord,
    j1: JobRecord,
    ck: Seq<u8>,
    rs: RetrySettings,
    now: u64,
    t: u64,
)
    requires
        settles(j0, j1, ck, AttemptOutcome::Errored, rs, now),
        !exhausted(rs, sat_add(j0.attempts, 1)),
        j0.attempts < u64::MAX,
        t < sat_add(now, backoff_ms(rs, (j0.attempts + 1) as u64)),
    ensures
        j1.attempts == j0.attempts + 1,
        !eligible(j1, t),
{
}

/// An error that spends the last of the retry budget fails the job
/// terminally: the record is ineligible at every instant from then on.
pub proof fn lemma_exhausted_is_terminal(
    j0: JobRecord,
    j1: JobRecord,
    ck: Seq<u8>,
    rs: RetrySettings,
    now: u64,
)
    requires
        settles(j0, j1, ck, AttemptOutcome::Errored, rs, now),
        exhausted(rs, sat_add(j0.attempts, 1)),
    ensures
        j1.status == JobStatus::FailedTerminal,
        forall|t: u64| !eligible(j1, t),
{
}

/// No record in a terminal state — completed, terminally failed or cancelled
/// — is eligible at any instant, so it is never again leased or polled.
pub proof fn lemma_terminal_never_eligible(j: JobRecord)
    requires
        is_terminal(j.status),
    ensures
        forall|t: u64| !eligible(j, t),
{
}

} // verus!
