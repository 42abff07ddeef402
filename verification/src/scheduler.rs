//! Settling an attempt: how the outcome a job body reports becomes the
//! job's next durable state, in the same commit as the body's remaining
//! staged writes, with the lease released.
//!
//! The outcome classes: `Complete` ends the job; `RescheduleIn` is a
//! cooperative, attempt-neutral deferral; `Errored` spends one attempt and
//! either backs the job off or, when the budget is gone, fails it for good.

use vstd::prelude::*;

use crate::context::CurrentJob;
use crate::outbox::events_extended;
use crate::record::{JobRecord, JobStatus};
use crate::retry::{backoff_ms, exhausted, warn_due, RetrySettings};
use crate::sat_add;
use crate::store::{
    created_from, job_index, lease_held, lemma_job_index_of, op_conflicts, Store,
};

verus! {

/// What one execution of a job body came to.
#[derive(Clone, Copy, Debug, PartialEq, Eq, Structural)]
pub enum AttemptOutcome {
    /// The job is done and never runs again.
    Complete,
    /// Not a failure: run again after this many milliseconds; the attempt
    /// count is not spent.
    RescheduleIn(u64),
    /// An unexpected failure: one attempt is spent.
    Errored,
}

/// What settling an attempt came to. `warn` is the warning-level signal owed
/// to the operator once errors pile up; `fatal` says the retry budget is gone
/// and the job was failed for good.
#[derive(Clone, Copy, Debug, PartialEq, Eq, Structural)]
pub enum SettleResult {
    Settled { warn: bool, fatal: bool },
    /// The lease was no longer this worker's; nothing was written.
    LostLease,
    /// A concurrent commit took a staged id or key first; nothing was
    /// written.
    Conflict,
}

/// How settling rewrites the job record. `ck` is the checkpoint the record
/// ends up carrying. The lease is released. `Complete` marks the job done,
/// spending one attempt. `RescheduleIn(d)` puts the job back to pending,
/// eligible `d` milliseconds from `now`, with the attempt count untouched.
/// `Errored` spends one attempt; with budget left the job is retryable after
/// the backoff delay, otherwise it is failed terminally and never runs again.
pub open spec fn settles(
    j0: JobRecord,
    j1: JobRecord,
    ck: Seq<u8>,
    outcome: AttemptOutcome,
    rs: RetrySettings,
    now: u64,
) -> bool {
    &&& j1.id == j0.id
    &&& j1.job_type == j0.job_type
    &&& j1.config == j0.config
    &&& j1.execution_state@ == ck
    &&& j1.lease is None
    &&& match outcome {
        AttemptOutcome::Complete => {
            &&& j1.status == JobStatus::Completed
            &&& j1.attempts == sat_add(j0.attempts, 1)
            &&& j1.next_run_at == j0.next_run_at
        },
        AttemptOutcome::RescheduleIn(d) => {
            &&& j1.status == JobStatus::Pending
            &&& j1.attempts == j0.attempts
            &&& j1.next_run_at == sat_add(now, d)
        },
        AttemptOutcome::Errored => {
            &&& j1.attempts == sat_add(j0.attempts, 1)
            &&& if exhausted(rs, sat_add(j0.attempts, 1)) {
                j1.status == JobStatus::FailedTerminal && j1.next_run_at == j0.next_run_at
            } else {
                j1.status == JobStatus::FailedRetryable && j1.next_run_at == sat_add(
                    now,
                    backoff_ms(rs, sat_add(j0.attempts, 1)),
                )
            }
        },
    }
}

/// Persists the outcome of an attempt and releases the lease, in the same
/// commit as the context's staged checkpoint, rows, events and child jobs —
/// so a crash never splits an attempt's outcome from its writes. The write
/// is conditional: a worker that lost its lease, or a staged id or key
/// meanwhile taken, settles nothing.
pub fn settle_attempt(
    store: &mut Store,
    ctx: CurrentJob,
    outcome: AttemptOutcome,
    settings: &RetrySettings,
    now: u64,
) -> (r: SettleResult)
    requires
        old(store).outbox().len() + ctx.op_spec().staged_events().len() <= u64::MAX,
    ensures
        match r {
            SettleResult::Settled { warn, fatal } => {
                let i = job_index(old(store).jobs(), ctx.job_id());
                let j0 = old(store).jobs()[i];
                let staged = ctx.op_spec().staged_jobs();
                &&& lease_held(old(store).jobs(), ctx.job_id(), ctx.worker())
                &&& !op_conflicts(
                    old(store).jobs(),
                    old(store).rows(),
                    staged,
                    ctx.op_spec().staged_rows(),
                )
                &&& final(store).jobs().len() == old(store).jobs().len() + staged.len()
                &&& forall|k: int|
                    0 <= k < old(store).jobs().len() && k != i ==> final(store).jobs()[k] == old(
                        store,
                    ).jobs()[k]
                &&& forall|k: int|
                    0 <= k < staged.len() ==> created_from(
                        #[trigger] final(store).jobs()[old(store).jobs().len() + k],
                        staged[k],
                    )
                &&& settles(
                    j0,
                    final(store).jobs()[i],
                    if ctx.has_pending() {
                        ctx.checkpoint()
                    } else {
                        j0.execution_state@
                    },
                    outcome,
                    *settings,
                    now,
                )
                &&& final(store).rows() == old(store).rows() + ctx.op_spec().staged_rows()
                &&& events_extended(
                    old(store).outbox(),
                    final(store).outbox(),
                    ctx.op_spec().staged_events(),
                    now,
                )
                &&& warn == (outcome is Errored && warn_due(*settings, sat_add(j0.attempts, 1)))
                &&& fatal == (outcome is Errored && exhausted(*settings, sat_add(j0.attempts, 1)))
            },
            SettleResult::LostLease => {
                &&& *final(store) == *old(store)
                &&& !lease_held(old(store).jobs(), ctx.job_id(), ctx.worker())
            },
            SettleResult::Conflict => {
                &&& *final(store) == *old(store)
                &&& lease_held(old(store).jobs(), ctx.job_id(), ctx.worker())
                &&& op_conflicts(
                    old(store).jobs(),
                    old(store).rows(),
                    ctx.op_spec().staged_jobs(),
                    ctx.op_spec().staged_rows(),
                )
            },
        },
{
    let (job_id, worker, _snapshot, pending, op) = ctx.into_parts();
    if !store.holds_lease(job_id, worker) {
        return SettleResult::LostLease;
    }
    if op.conflicts_with(store) {
        return SettleResult::Conflict;
    }
    let ghost i = job_index(old(store).jobs(), job_id);
    let cr = store.commit_op(op, now);
    match cr {
        Err(_) => {
            proof {
                assert(false);
            }
            SettleResult::Conflict
        },
        Ok(_) => {
            let ghost jmid = store.jobs();
            proof {
                use_type_invariant(&*store);
                assert(jmid[i] == old(store).jobs()[i]);
                lemma_job_index_of(jmid, i, job_id);
            }
            let idx = match store.find_index(job_id) {
                Some(x) => x,
                None => {
                    proof {
                        assert(false);
                    }
                    0
                },
            };
            let rec = store.take_job(idx);
            let JobRecord {
                id: rid,
                job_type,
                config,
                execution_state,
                status: _,
                attempts,
                lease: _,
                next_run_at,
            } = rec;
            let new_state: Vec<u8> = match pending {
                Some(st) => st,
                None => execution_state,
            };
            let new_attempts = crate::saturating_add(attempts, 1);
            let warn = settings.is_warn_due(new_attempts);
            let (status2, attempts2, next_run2, warn2, fatal2): (JobStatus, u64, u64, bool, bool) =
                match outcome {
                AttemptOutcome::Complete => (
                    JobStatus::Completed,
                    new_attempts,
                    next_run_at,
                    false,
                    false,
                ),
                AttemptOutcome::RescheduleIn(d) => (
                    JobStatus::Pending,
                    attempts,
                    crate::saturating_add(now, d),
                    false,
                    false,
                ),
                AttemptOutcome::Errored => {
                    if settings.is_exhausted(new_attempts) {
                        (JobStatus::FailedTerminal, new_attempts, next_run_at, warn, true)
                    } else {
                        let delay = settings.backoff(new_attempts);
                        (
                            JobStatus::FailedRetryable,
                            new_attempts,
                            crate::saturating_add(now, delay),
                            warn,
                            false,
                        )
                    }
                },
            };
            let rec2 = JobRecord {
                id: rid,
                job_type,
                config,
                execution_state: new_state,
                status: status2,
                attempts: attempts2,
                lease: None,
                next_run_at: next_run2,
            };
            proof {
                assert forall|k: int|
                    0 <= k < store.jobs().len() implies (#[trigger] store.jobs()[k]).id
                    != rec2.id by {
                    if k < idx as int {
                        assert(store.jobs()[k] == jmid[k]);
                    } else {
                        assert(store.jobs()[k] == jmid[k + 1]);
                    }
                }
            }
            store.put_job(idx, rec2);
            proof {
                assert(store.jobs() =~= jmid.update(i, rec2));
            }
            SettleResult::Settled { warn: warn2, fatal: fatal2 }
        },
    }
}

} // verus!
