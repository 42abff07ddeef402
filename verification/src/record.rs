//! Durable job records: identity, type tag, opaque payloads, status,
//! attempt count, lease and next-eligible-run time, with the eligibility
//! predicate that gates every lease acquisition.

use vstd::prelude::*;

verus! {

/// Lifecycle status of a job record.
///
/// `FailedRetryable` marks a failed attempt with retry budget left;
/// `FailedTerminal` marks a job whose retries are used up, which never runs
/// again. `Completed`, `FailedTerminal` and `Cancelled` are terminal; records
/// are kept for audit, never deleted.
#[derive(Clone, Copy, Debug, PartialEq, Eq, Structural)]
pub enum JobStatus {
    Pending,
    Running,
    Completed,
    FailedRetryable,
    FailedTerminal,
    Cancelled,
}

/// A time-bounded exclusive claim on a job: the worker that holds it may
/// execute the job until `expires_at`. Expiry is the sole crash-recovery
/// mechanism: a lease held past it makes the job leasable again.
#[derive(Clone, Copy, Debug, PartialEq, Eq, Structural)]
pub struct Lease {
    pub owner: u64,
    pub expires_at: u64,
}

/// One durable job instance.
///
/// `config` is the immutable opaque payload set at creation;
/// `execution_state` is the mutable opaque checkpoint, empty until the job
/// body first writes one. `attempts` counts settled executions that ended in
/// `Complete` or an error; a cooperative reschedule is attempt-neutral.
#[derive(Clone, Debug)]
pub struct JobRecord {
    pub id: u64,
    pub job_type: String,
    pub config: Vec<u8>,
    pub execution_state: Vec<u8>,
    pub status: JobStatus,
    pub attempts: u64,
    pub lease: Option<Lease>,
    pub next_run_at: u64,
}

/// True when no live claim covers the job at `now`: either no lease is set,
/// or the one set has expired.
pub open spec fn lease_expired(j: JobRecord, now: u64) -> bool {
    match j.lease {
        Some(l) => l.expires_at <= now,
        None => true,
    }
}

/// True of statuses in which a job never runs again.
pub open spec fn is_terminal(st: JobStatus) -> bool {
    st == JobStatus::Completed || st == JobStatus::FailedTerminal || st == JobStatus::Cancelled
}

/// The eligibility predicate: a job may be leased at `now` iff it is pending
/// or failed-retryable with its next-eligible-run time reached, or it is
/// running under a lease that has expired (a crashed or stalled worker).
pub open spec fn eligible(j: JobRecord, now: u64) -> bool {
    ||| (j.status == JobStatus::Pending && j.next_run_at <= now)
    ||| (j.status == JobStatus::Running && lease_expired(j, now))
    ||| (j.status == JobStatus::FailedRetryable && j.next_run_at <= now)
}

/// How acquiring (or renewing) a lease rewrites a record: the job becomes
/// running under a lease for `worker` that expires `lease_ms` after `now`;
/// identity, payloads, checkpoint, attempt count and next-eligible-run time
/// are untouched.
pub open spec fn leases(j0: JobRecord, j1: JobRecord, worker: u64, now: u64, lease_ms: u64) -> bool {
    &&& j1.id == j0.id
    &&& j1.job_type == j0.job_type
    &&& j1.config == j0.config
    &&& j1.execution_state == j0.execution_state
    &&& j1.attempts == j0.attempts
    &&& j1.next_run_at == j0.next_run_at
    &&& j1.status == JobStatus::Running
    &&& j1.lease == Some(Lease { owner: worker, expires_at: crate::sat_add(now, lease_ms) })
}

impl JobRecord {
    /// A fresh record: pending, unleased, no attempts, empty checkpoint,
    /// eligible from `next_run_at` on.
    pub fn new(id: u64, job_type: String, config: Vec<u8>, next_run_at: u64) -> (j: JobRecord)
        ensures
            j.id == id,
            j.job_type == job_type,
            j.config == config,
            j.execution_state@ == Seq::<u8>::empty(),
            j.status == JobStatus::Pending,
            j.attempts == 0,
            j.lease is None,
            j.next_run_at == next_run_at,
    {
        JobRecord {
            id,
            job_type,
            config,
            execution_state: Vec::new(),
            status: JobStatus::Pending,
            attempts: 0,
            lease: None,
            next_run_at,
        }
    }

    /// Decides [`is_terminal`] for this record's status.
    pub fn status_is_terminal(&self) -> (b: bool)
        ensures
            b == is_terminal(self.status),
    {
        match self.status {
            JobStatus::Completed => true,
            JobStatus::FailedTerminal => true,
            JobStatus::Cancelled => true,
            _ => false,
        }
    }

    /// Decides [`eligible`] for this record at `now`.
    pub fn is_eligible(&self, now: u64) -> (b: bool)
        ensures
            b == eligible(*self, now),
    {
        match self.status {
            JobStatus::Pending => self.next_run_at <= now,
            JobStatus::Running => match self.lease {
                Some(l) => l.expires_at <= now,
                None => true,
            },
            JobStatus::FailedRetryable => self.next_run_at <= now,
            _ => false,
        }
    }
}

} // verus!
