//! The durable store: the job table, the outbox log and the business rows,
//! behind one consistent transactional boundary. All coordination between
//! workers happens through conditional writes against this store; there is
//! no other shared state.

use vstd::prelude::*;

use crate::context::CurrentJob;
use crate::errors::EngineError;
use crate::outbox::{events_extended, outbox_wf, OutboxEvent};
use crate::record::{eligible, leases, JobRecord, JobStatus, Lease};
use crate::txn::{BizRow, NewJob, TxUnit};

verus! {

/// True when a job with the given id is in the table.
pub open spec fn has_job(jobs: Seq<JobRecord>, id: u64) -> bool {
    exists|k: int| 0 <= k < jobs.len() && (#[trigger] jobs[k]).id == id
}

/// The index of the job with the given id; with well-formed (distinct) ids
/// and `has_job`, the one index that holds it.
pub open spec fn job_index(jobs: Seq<JobRecord>, id: u64) -> int {
    choose|k: int| 0 <= k < jobs.len() && (#[trigger] jobs[k]).id == id
}

/// Job ids are pairwise distinct.
pub open spec fn jobs_wf(jobs: Seq<JobRecord>) -> bool {
    forall|a: int, b: int|
        0 <= a < b < jobs.len() ==> (#[trigger] jobs[a]).id != (#[trigger] jobs[b]).id
}

/// True when a business row with the given key is in the store.
pub open spec fn has_row(rows: Seq<BizRow>, key: u64) -> bool {
    exists|k: int| 0 <= k < rows.len() && (#[trigger] rows[k]).key == key
}

/// The index of the row with the given key; with well-formed (distinct) keys
/// and `has_row`, the one index that holds it.
pub open spec fn row_index(rows: Seq<BizRow>, key: u64) -> int {
    choose|k: int| 0 <= k < rows.len() && (#[trigger] rows[k]).key == key
}

/// Business-row keys are pairwise distinct.
pub open spec fn rows_wf(rows: Seq<BizRow>) -> bool {
    forall|a: int, b: int|
        0 <= a < b < rows.len() ==> (#[trigger] rows[a]).key != (#[trigger] rows[b]).key
}

/// True when the job with this id exists, is running, and is leased to this
/// worker — the condition every conditional write of a worker re-checks.
pub open spec fn lease_held(jobs: Seq<JobRecord>, id: u64, worker: u64) -> bool {
    &&& has_job(jobs, id)
    &&& {
        let j = jobs[job_index(jobs, id)];
        &&& j.status == JobStatus::Running
        &&& j.lease matches Some(l) && l.owner == worker
    }
}

/// How a staged job creation materialises at commit: a pending, unleased
/// record with no attempts and an empty checkpoint.
pub open spec fn created_from(j: JobRecord, nj: NewJob) -> bool {
    &&& j.id == nj.id
    &&& j.job_type == nj.job_type
    &&& j.config == nj.config
    &&& j.execution_state@ == Seq::<u8>::empty()
    &&& j.status == JobStatus::Pending
    &&& j.attempts == 0
    &&& j.lease is None
    &&& j.next_run_at == nj.next_run_at
}

/// How a commit extends the job table: existing records are untouched and
/// the staged creations are appended in stage order.
pub open spec fn jobs_extended(j0: Seq<JobRecord>, j1: Seq<JobRecord>, staged: Seq<NewJob>) -> bool {
    &&& j1.len() == j0.len() + staged.len()
    &&& forall|k: int| 0 <= k < j0.len() ==> #[trigger] j1[k] == j0[k]
    &&& forall|k: int|
        0 <= k < staged.len() ==> created_from(#[trigger] j1[j0.len() + k], staged[k])
}

/// True when committing these staged writes into a store with the given
/// jobs and rows would break uniqueness: a concurrent commit won some id or
/// key first.
pub open spec fn op_conflicts(
    jobs: Seq<JobRecord>,
    rows: Seq<BizRow>,
    staged_jobs: Seq<NewJob>,
    staged_rows: Seq<BizRow>,
) -> bool {
    ||| exists|k: int| 0 <= k < staged_jobs.len() && has_job(jobs, (#[trigger] staged_jobs[k]).id)
    ||| exists|k: int| 0 <= k < staged_rows.len() && has_row(rows, (#[trigger] staged_rows[k]).key)
}

/// True when every eligible job left out of the poll result `r` has a
/// next-eligible-run time no earlier than every job in it: the result is a
/// prefix of the eligible set in next-run order, not an arbitrary sample.
pub open spec fn batch_is_earliest(jobs: Seq<JobRecord>, r: Seq<u64>, now: u64) -> bool {
    forall|k: int, m: int|
        0 <= k < jobs.len() && eligible(#[trigger] jobs[k], now) && !r.contains(jobs[k].id) && 0
            <= m < r.len() ==> jobs[job_index(jobs, #[trigger] r[m])].next_run_at
            <= jobs[k].next_run_at
}

/// `batch_is_earliest` over table indexes instead of ids: every eligible job
/// whose index is not picked starts no earlier than every picked one.
spec fn picked_are_earliest(jobs: Seq<JobRecord>, picked: Seq<usize>, now: u64) -> bool {
    forall|k: int, m: int|
        0 <= k < jobs.len() && eligible(#[trigger] jobs[k], now) && !picked.contains(k as usize)
            && 0 <= m < picked.len() ==> jobs[(#[trigger] picked[m]) as int].next_run_at
            <= jobs[k].next_run_at
}

/// With distinct ids, an index that holds the id is the one `job_index`
/// denotes.
pub proof fn lemma_job_index_of(jobs: Seq<JobRecord>, i: int, id: u64)
    requires
        jobs_wf(jobs),
        0 <= i < jobs.len(),
        jobs[i].id == id,
    ensures
        has_job(jobs, id),
        job_index(jobs, id) == i,
{
    assert(has_job(jobs, id));
    let k = job_index(jobs, id);
    if k < i {
        assert(jobs[k].id != jobs[i].id);
    } else if k > i {
        assert(jobs[i].id != jobs[k].id);
    }
}

/// The one durable, shared store. Job ids and row keys are unique, and the
/// outbox is a gapless log numbered from 1 — invariants every operation
/// preserves.
#[derive(Debug)]
pub struct Store {
    job_rows: Vec<JobRecord>,
    events: Vec<OutboxEvent>,
    biz_rows: Vec<BizRow>,
}

impl Store {
    /// The job table, in creation order.
    pub closed spec fn jobs(&self) -> Seq<JobRecord> {
        self.job_rows@
    }

    /// The committed outbox log, in commit order.
    pub closed spec fn outbox(&self) -> Seq<OutboxEvent> {
        self.events@
    }

    /// The committed business rows, in commit order.
    pub closed spec fn rows(&self) -> Seq<BizRow> {
        self.biz_rows@
    }

    /// What every operation preserves: distinct job ids, distinct row keys,
    /// and a gapless outbox numbered from 1.
    #[verifier::type_invariant]
    pub open spec fn wf(self) -> bool {
        jobs_wf(self.jobs()) && rows_wf(self.rows()) && outbox_wf(self.outbox())
    }

    /// An empty store.
    pub fn new() -> (s: Store)
        ensures
            s.jobs() == Seq::<JobRecord>::empty(),
            s.outbox() == Seq::<OutboxEvent>::empty(),
            s.rows() == Seq::<BizRow>::empty(),
    {
        let s = Store { job_rows: Vec::new(), events: Vec::new(), biz_rows: Vec::new() };
        proof {
            assert(s.jobs() =~= Seq::<JobRecord>::empty());
            assert(s.outbox() =~= Seq::<OutboxEvent>::empty());
            assert(s.rows() =~= Seq::<BizRow>::empty());
        }
        s
    }

    /// The index of the job with this id, if present. With the store's
    /// distinct ids, the returned index is `job_index`.
    pub(crate) fn find_index(&self, id: u64) -> (r: Option<usize>)
        ensures
            match r {
                Some(i) => {
                    &&& has_job(self.jobs(), id)
                    &&& i < self.jobs().len()
                    &&& self.jobs()[i as int].id == id
                    &&& i == job_index(self.jobs(), id)
                },
                None => !has_job(self.jobs(), id),
            },
    {
        proof {
            use_type_invariant(&*self);
        }
        let mut k: usize = 0;
        while k < self.job_rows.len()
            invariant
                k <= self.job_rows.len(),
                forall|m: int| 0 <= m < k ==> (#[trigger] self.jobs()[m]).id != id,
            decreases self.job_rows.len() - k,
        {
            if self.job_rows[k].id == id {
                proof {
                    use_type_invariant(&*self);
                    let j = job_index(self.jobs(), id);
                    assert(0 <= j < self.jobs().len() && self.jobs()[j].id == id);
                }
                return Some(k);
            }
            k = k + 1;
        }
        None
    }

    /// How many job records the table holds.
    pub fn job_count(&self) -> (n: usize)
        ensures
            n == self.jobs().len(),
    {
        self.job_rows.len()
    }

    /// The job record at table index `i`.
    pub fn job_at(&self, i: usize) -> (j: &JobRecord)
        requires
            i < self.jobs().len(),
        ensures
            *j == self.jobs()[i as int],
    {
        &self.job_rows[i]
    }

    /// True when a job with this id exists.
    pub fn contains_job(&self, id: u64) -> (b: bool)
        ensures
            b == has_job(self.jobs(), id),
    {
        match self.find_index(id) {
            Some(_) => true,
            None => false,
        }
    }

    /// The job record with this id, if present.
    pub fn get_job(&self, id: u64) -> (r: Option<&JobRecord>)
        ensures
            match r {
                Some(j) => has_job(self.jobs(), id) && *j == self.jobs()[job_index(
                    self.jobs(),
                    id,
                )],
                None => !has_job(self.jobs(), id),
            },
    {
        match self.find_index(id) {
            Some(i) => Some(&self.job_rows[i]),
            None => None,
        }
    }

    /// True when a business row with this key exists.
    pub fn contains_row(&self, key: u64) -> (b: bool)
        ensures
            b == has_row(self.rows(), key),
    {
        let mut k: usize = 0;
        while k < self.biz_rows.len()
            invariant
                k <= self.biz_rows.len(),
                forall|m: int| 0 <= m < k ==> (#[trigger] self.rows()[m]).key != key,
            decreases self.biz_rows.len() - k,
        {
            if self.biz_rows[k].key == key {
                return true;
            }
            k = k + 1;
        }
        false
    }

    /// The value of the business row with this key, if present.
    pub fn get_row(&self, key: u64) -> (r: Option<&Vec<u8>>)
        ensures
            match r {
                Some(v) => has_row(self.rows(), key) && *v == self.rows()[row_index(
                    self.rows(),
                    key,
                )].value,
                None => !has_row(self.rows(), key),
            },
    {
        proof {
            use_type_invariant(&*self);
        }
        let mut k: usize = 0;
        while k < self.biz_rows.len()
            invariant
                k <= self.biz_rows.len(),
                forall|m: int| 0 <= m < k ==> (#[trigger] self.rows()[m]).key != key,
            decreases self.biz_rows.len() - k,
        {
            if self.biz_rows[k].key == key {
                proof {
                    use_type_invariant(&*self);
                    let j = row_index(self.rows(), key);
                    assert(0 <= j < self.rows().len() && self.rows()[j].key == key);
                }
                return Some(&self.biz_rows[k].value);
            }
            k = k + 1;
        }
        None
    }

    /// Creates a job directly (outside any transactional unit): the record is
    /// pending, unleased, with no attempts and an empty checkpoint, eligible
    /// from `next_run_at` on. Fails, changing nothing, iff the id is taken.
    pub fn create_job(
        &mut self,
        id: u64,
        job_type: String,
        config: Vec<u8>,
        next_run_at: u64,
    ) -> (r: Result<(), EngineError>)
        ensures
            match r {
                Ok(_) => {
                    &&& !has_job(old(self).jobs(), id)
                    &&& final(self).jobs() == old(self).jobs().push(final(self).jobs().last())
                    &&& {
                        let j = final(self).jobs().last();
                        &&& j.id == id
                        &&& j.job_type == job_type
                        &&& j.config == config
                        &&& j.execution_state@ == Seq::<u8>::empty()
                        &&& j.status == JobStatus::Pending
                        &&& j.attempts == 0
                        &&& j.lease is None
                        &&& j.next_run_at == next_run_at
                    }
                    &&& final(self).outbox() == old(self).outbox()
                    &&& final(self).rows() == old(self).rows()
                },
                Err(e) => {
                    &&& e == EngineError::JobIdInUse
                    &&& has_job(old(self).jobs(), id)
                    &&& *final(self) == *old(self)
                },
            },
    {
        proof {
            use_type_invariant(&*self);
        }
        if self.contains_job(id) {
            return Err(EngineError::JobIdInUse);
        }
        let rec = JobRecord::new(id, job_type, config, next_run_at);
        let mut jr: Vec<JobRecord> = Vec::new();
        core::mem::swap(&mut jr, &mut self.job_rows);
        jr.push(rec);
        core::mem::swap(&mut jr, &mut self.job_rows);
        Ok(())
    }

    /// Removes and returns the job at index `i`; the caller must put a record
    /// with the same id back to keep the table complete.
    pub(crate) fn take_job(&mut self, i: usize) -> (j: JobRecord)
        requires
            i < old(self).jobs().len(),
        ensures
            j == old(self).jobs()[i as int],
            final(self).jobs() == old(self).jobs().remove(i as int),
            final(self).outbox() == old(self).outbox(),
            final(self).rows() == old(self).rows(),
    {
        proof {
            use_type_invariant(&*self);
        }
        let mut jr: Vec<JobRecord> = Vec::new();
        core::mem::swap(&mut jr, &mut self.job_rows);
        let j = jr.remove(i);
        core::mem::swap(&mut jr, &mut self.job_rows);
        j
    }

    /// Inserts a job record at index `i`; its id must be fresh.
    pub(crate) fn put_job(&mut self, i: usize, j: JobRecord)
        requires
            i <= old(self).jobs().len(),
            forall|k: int|
                0 <= k < old(self).jobs().len() ==> (#[trigger] old(self).jobs()[k]).id != j.id,
        ensures
            final(self).jobs() == old(self).jobs().insert(i as int, j),
            final(self).outbox() == old(self).outbox(),
            final(self).rows() == old(self).rows(),
    {
        proof {
            use_type_invariant(&*self);
        }
        let mut jr: Vec<JobRecord> = Vec::new();
        core::mem::swap(&mut jr, &mut self.job_rows);
        jr.insert(i, j);
        core::mem::swap(&mut jr, &mut self.job_rows);
    }

    /// True when the job with this id is running under this worker's lease.
    pub fn holds_lease(&self, id: u64, worker: u64) -> (b: bool)
        ensures
            b == lease_held(self.jobs(), id, worker),
    {
        match self.find_index(id) {
            None => false,
            Some(i) => self.job_rows[i].status == JobStatus::Running && (
            match self.job_rows[i].lease {
                Some(l) => l.owner == worker,
                None => false,
            }),
        }
    }

    /// Overwrites the checkpoint of the job with this id; everything else
    /// about the record is untouched.
    pub(crate) fn set_job_state(&mut self, id: u64, state: Vec<u8>)
        requires
            has_job(old(self).jobs(), id),
        ensures
            final(self).jobs().len() == old(self).jobs().len(),
            forall|k: int|
                0 <= k < old(self).jobs().len() && k != job_index(old(self).jobs(), id)
                    ==> final(self).jobs()[k] == old(self).jobs()[k],
            ({
                let i = job_index(old(self).jobs(), id);
                let j0 = old(self).jobs()[i];
                let j1 = final(self).jobs()[i];
                &&& j1.id == j0.id
                &&& j1.job_type == j0.job_type
                &&& j1.config == j0.config
                &&& j1.execution_state == state
                &&& j1.status == j0.status
                &&& j1.attempts == j0.attempts
                &&& j1.lease == j0.lease
                &&& j1.next_run_at == j0.next_run_at
            }),
            final(self).outbox() == old(self).outbox(),
            final(self).rows() == old(self).rows(),
    {
        proof {
            use_type_invariant(&*self);
        }
        let i = match self.find_index(id) {
            Some(i) => i,
            None => {
                proof {
                    assert(false);
                }
                0
            },
        };
        let rec = self.take_job(i);
        let rec2 = JobRecord { execution_state: state, ..rec };
        proof {
            assert forall|k: int| 0 <= k < self.jobs().len() implies (#[trigger] self.jobs()[k]).id
                != rec2.id by {
                if k < i as int {
                    assert(self.jobs()[k] == old(self).jobs()[k]);
                } else {
                    assert(self.jobs()[k] == old(self).jobs()[k + 1]);
                }
            }
        }
        self.put_job(i, rec2);
        proof {
            assert(self.jobs() =~= old(self).jobs().update(i as int, rec2));
        }
    }

    /// Opens a fresh transactional unit against this store.
    pub fn begin_op(&self) -> (op: TxUnit)
        ensures
            op.is_clean(),
    {
        TxUnit::new()
    }

    /// The number of committed outbox events (also the highest sequence
    /// number assigned so far).
    pub fn outbox_len(&self) -> (n: usize)
        ensures
            n == self.outbox().len(),
    {
        self.events.len()
    }

    /// Commits a transactional unit: every staged business row, child job
    /// and outbox event becomes visible at once, the events numbered
    /// consecutively after the log in commit order. Fails, changing nothing,
    /// iff a concurrent commit already took a staged id or key. Sequence
    /// numbers are `u64`, which bounds how far the log can grow.
    pub fn commit_op(&mut self, op: TxUnit, now: u64) -> (r: Result<(), EngineError>)
        requires
            old(self).outbox().len() + op.staged_events().len() <= u64::MAX,
        ensures
            match r {
                Ok(_) => {
                    &&& !op_conflicts(
                        old(self).jobs(),
                        old(self).rows(),
                        op.staged_jobs(),
                        op.staged_rows(),
                    )
                    &&& jobs_extended(old(self).jobs(), final(self).jobs(), op.staged_jobs())
                    &&& final(self).rows() == old(self).rows() + op.staged_rows()
                    &&& events_extended(
                        old(self).outbox(),
                        final(self).outbox(),
                        op.staged_events(),
                        now,
                    )
                },
                Err(e) => {
                    &&& e == EngineError::CommitConflict
                    &&& op_conflicts(
                        old(self).jobs(),
                        old(self).rows(),
                        op.staged_jobs(),
                        op.staged_rows(),
                    )
                    &&& *final(self) == *old(self)
                },
            },
    {
        proof {
            use_type_invariant(&*self);
        }
        if op.conflicts_with(self) {
            return Err(EngineError::CommitConflict);
        }
        let ghost sjobs = op.staged_jobs();
        let ghost srows = op.staged_rows();
        let ghost sevents = op.staged_events();
        let (mut new_jobs, mut new_rows, mut new_events) = op.into_parts();

        // Business rows.
        let mut br: Vec<BizRow> = Vec::new();
        core::mem::swap(&mut br, &mut self.biz_rows);
        proof {
            assert(srows.subrange(0, srows.len() as int) =~= srows);
            assert(br@ =~= old(self).rows() + srows.subrange(0, 0));
        }
        while new_rows.len() > 0
            invariant
                new_rows@.len() <= srows.len(),
                br@ == old(self).rows() + srows.subrange(
                    0,
                    srows.len() - new_rows@.len(),
                ),
                new_rows@ == srows.subrange(srows.len() - new_rows@.len(), srows.len() as int),
            decreases new_rows.len(),
        {
            let ghost done = srows.len() - new_rows@.len();
            let row = new_rows.remove(0);
            br.push(row);
            proof {
                assert(row == srows[done]);
                assert(new_rows@ =~= srows.subrange(done + 1, srows.len() as int));
                assert(br@ =~= old(self).rows() + srows.subrange(0, done + 1));
            }
        }
        proof {
            assert(srows.subrange(0, srows.len() as int) =~= srows);
            assert(br@ == old(self).rows() + srows);
            assert forall|a: int, b: int| 0 <= a < b < br@.len() implies (#[trigger] br@[a]).key
                != (#[trigger] br@[b]).key by {
                let n0 = old(self).rows().len();
                if b >= n0 && !has_row(old(self).rows(), srows[b - n0].key) && a < n0 {
                    assert(br@[a] == old(self).rows()[a]);
                }
            }
        }
        core::mem::swap(&mut br, &mut self.biz_rows);

        // Child jobs.
        let mut jr: Vec<JobRecord> = Vec::new();
        core::mem::swap(&mut jr, &mut self.job_rows);
        proof {
            assert(sjobs.subrange(0, sjobs.len() as int) =~= sjobs);
        }
        while new_jobs.len() > 0
            invariant
                new_jobs@.len() <= sjobs.len(),
                jobs_extended(
                    old(self).jobs(),
                    jr@,
                    sjobs.subrange(0, sjobs.len() - new_jobs@.len()),
                ),
                new_jobs@ == sjobs.subrange(sjobs.len() - new_jobs@.len(), sjobs.len() as int),
            decreases new_jobs.len(),
        {
            let ghost done = sjobs.len() - new_jobs@.len();
            let nj = new_jobs.remove(0);
            proof {
                assert(nj == sjobs[done]);
                assert(new_jobs@ =~= sjobs.subrange(done + 1, sjobs.len() as int));
            }
            let NewJob { id, job_type, config, next_run_at } = nj;
            let rec = JobRecord::new(id, job_type, config, next_run_at);
            jr.push(rec);
            proof {
                assert(sjobs.subrange(0, done + 1).drop_last() =~= sjobs.subrange(0, done));
                assert(jobs_extended(old(self).jobs(), jr@, sjobs.subrange(0, done + 1)));
            }
        }
        proof {
            assert(sjobs.subrange(0, sjobs.len() as int) =~= sjobs);
            let n0 = old(self).jobs().len();
            assert forall|a: int, b: int| 0 <= a < b < jr@.len() implies (#[trigger] jr@[a]).id
                != (#[trigger] jr@[b]).id by {
                if b >= n0 {
                    assert(created_from(jr@[n0 + (b - n0)], sjobs[b - n0]));
                    assert(!has_job(old(self).jobs(), sjobs[b - n0].id));
                    if a < n0 {
                        assert(jr@[a] == old(self).jobs()[a]);
                    } else {
                        assert(created_from(jr@[n0 + (a - n0)], sjobs[a - n0]));
                    }
                }
            }
        }
        core::mem::swap(&mut jr, &mut self.job_rows);

        // Outbox events.
        let mut evs: Vec<OutboxEvent> = Vec::new();
        core::mem::swap(&mut evs, &mut self.events);
        proof {
            assert(sevents.subrange(0, sevents.len() as int) =~= sevents);
        }
        while new_events.len() > 0
            invariant
                new_events@.len() <= sevents.len(),
                old(self).outbox().len() + sevents.len() <= u64::MAX,
                events_extended(
                    old(self).outbox(),
                    evs@,
                    sevents.subrange(0, sevents.len() - new_events@.len()),
                    now,
                ),
                new_events@ == sevents.subrange(
                    sevents.len() - new_events@.len(),
                    sevents.len() as int,
                ),
            decreases new_events.len(),
        {
            let ghost done = sevents.len() - new_events@.len();
            let payload = new_events.remove(0);
            proof {
                assert(payload == sevents[done]);
                assert(new_events@ =~= sevents.subrange(done + 1, sevents.len() as int));
            }
            let seq = evs.len() as u64 + 1;
            evs.push(OutboxEvent { seq, payload, recorded_at: now });
            proof {
                assert(sevents.subrange(0, done + 1).drop_last() =~= sevents.subrange(0, done));
                assert(events_extended(
                    old(self).outbox(),
                    evs@,
                    sevents.subrange(0, done + 1),
                    now,
                ));
            }
        }
        proof {
            assert(sevents.subrange(0, sevents.len() as int) =~= sevents);
            use_type_invariant(&*self);
            assert forall|i: int| 0 <= i < evs@.len() implies (#[trigger] evs@[i]).seq == i
                + 1 by {
                let n0 = old(self).outbox().len();
                if i < n0 {
                    assert(evs@[i] == old(self).outbox()[i]);
                } else {
                    assert(evs@[n0 + (i - n0)].seq == n0 + (i - n0) + 1);
                }
            }
        }
        core::mem::swap(&mut evs, &mut self.events);
        Ok(())
    }

    /// Tries to acquire a lease on the job with this id: the optimistic
    /// check-and-set that makes one worker the job's only executor until the
    /// lease expires. Succeeds, handing back an execution context preloaded
    /// with the job's checkpoint, iff the job exists and is eligible at
    /// `now`; otherwise the store is untouched.
    pub fn try_acquire_lease(&mut self, id: u64, worker: u64, now: u64, lease_ms: u64) -> (r:
        Option<CurrentJob>)
        ensures
            match r {
                Some(ctx) => {
                    let i = job_index(old(self).jobs(), id);
                    &&& has_job(old(self).jobs(), id)
                    &&& eligible(old(self).jobs()[i], now)
                    &&& final(self).jobs().len() == old(self).jobs().len()
                    &&& forall|k: int|
                        0 <= k < old(self).jobs().len() && k != i ==> final(self).jobs()[k] == old(
                            self,
                        ).jobs()[k]
                    &&& leases(old(self).jobs()[i], final(self).jobs()[i], worker, now, lease_ms)
                    &&& final(self).outbox() == old(self).outbox()
                    &&& final(self).rows() == old(self).rows()
                    &&& ctx.job_id() == id
                    &&& ctx.worker() == worker
                    &&& ctx.checkpoint() == old(self).jobs()[i].execution_state@
                    &&& !ctx.has_pending()
                    &&& ctx.op_spec().is_clean()
                },
                None => {
                    &&& *final(self) == *old(self)
                    &&& forall|k: int|
                        0 <= k < old(self).jobs().len() && (#[trigger] old(self).jobs()[k]).id
                            == id ==> !eligible(old(self).jobs()[k], now)
                },
            },
    {
        proof {
            use_type_invariant(&*self);
        }
        let io = self.find_index(id);
        match io {
            None => None,
            Some(i) => {
                if !self.job_rows[i].is_eligible(now) {
                    proof {
                        assert forall|k: int|
                            0 <= k < self.jobs().len() && (#[trigger] self.jobs()[k]).id
                                == id implies !eligible(self.jobs()[k], now) by {
                            assert(k == i as int);
                        }
                    }
                    return None;
                }
                let snapshot = crate::copy_payload(&self.job_rows[i].execution_state);
                let rec = self.take_job(i);
                let rec2 = JobRecord {
                    status: JobStatus::Running,
                    lease: Some(
                        Lease { owner: worker, expires_at: crate::saturating_add(now, lease_ms) },
                    ),
                    ..rec
                };
                proof {
                    assert forall|k: int|
                        0 <= k < self.jobs().len() implies (#[trigger] self.jobs()[k]).id
                        != rec2.id by {
                        if k < i as int {
                            assert(self.jobs()[k] == old(self).jobs()[k]);
                        } else {
                            assert(self.jobs()[k] == old(self).jobs()[k + 1]);
                        }
                    }
                }
                self.put_job(i, rec2);
                proof {
                    assert(self.jobs() =~= old(self).jobs().update(i as int, rec2));
                }
                Some(CurrentJob::new_leased(id, worker, snapshot))
            },
        }
    }

    /// The committed events with sequence numbers greater than `after`, in
    /// ascending sequence order: everything a consumer that has seen up to
    /// `after` still owes its listeners. Restartable from any previously
    /// seen number; `0` reads the log from the start.
    pub fn next_events(&self, after: u64) -> (r: Vec<OutboxEvent>)
        ensures
            after < self.outbox().len() ==> r@.len() == self.outbox().len() - after,
            after >= self.outbox().len() ==> r@.len() == 0,
            forall|k: int|
                0 <= k < r@.len() ==> {
                    &&& (#[trigger] r@[k]).seq == after + k + 1
                    &&& r@[k].seq == self.outbox()[after + k].seq
                    &&& r@[k].payload@ == self.outbox()[after + k].payload@
                    &&& r@[k].recorded_at == self.outbox()[after + k].recorded_at
                },
            forall|a: int, b: int| 0 <= a < b < r@.len() ==> r@[a].seq < r@[b].seq,
    {
        proof {
            use_type_invariant(&*self);
        }
        let mut r: Vec<OutboxEvent> = Vec::new();
        if after >= self.events.len() as u64 {
            return r;
        }
        let mut k: usize = after as usize;
        while k < self.events.len()
            invariant
                after <= k <= self.outbox().len(),
                r@.len() == k - after,
                outbox_wf(self.outbox()),
                forall|m: int|
                    0 <= m < r@.len() ==> {
                        &&& (#[trigger] r@[m]).seq == self.outbox()[after + m].seq
                        &&& r@[m].payload@ == self.outbox()[after + m].payload@
                        &&& r@[m].recorded_at == self.outbox()[after + m].recorded_at
                    },
            decreases self.events.len() - k,
        {
            let ev = OutboxEvent {
                seq: self.events[k].seq,
                payload: crate::copy_payload(&self.events[k].payload),
                recorded_at: self.events[k].recorded_at,
            };
            r.push(ev);
            k = k + 1;
        }
        r
    }

    /// The ids of the jobs eligible for leasing at `now`, ordered by their
    /// next-eligible-run time ascending, at most `batch` of them: the
    /// earliest of the eligible set. When the result is not full, it holds
    /// every eligible job.
    pub fn poll_eligible(&self, now: u64, batch: usize) -> (r: Vec<u64>)
        ensures
            r@.len() <= batch,
            batch_is_earliest(self.jobs(), r@, now),
            forall|k: int|
                0 <= k < r@.len() ==> has_job(self.jobs(), #[trigger] r@[k]) && eligible(
                    self.jobs()[job_index(self.jobs(), r@[k])],
                    now,
                ),
            forall|a: int, b: int| 0 <= a < b < r@.len() ==> r@[a] != r@[b],
            forall|a: int, b: int|
                0 <= a < b < r@.len() ==> self.jobs()[job_index(self.jobs(), r@[a])].next_run_at
                    <= self.jobs()[job_index(self.jobs(), r@[b])].next_run_at,
            r@.len() < batch ==> forall|k: int|
                0 <= k < self.jobs().len() && eligible(#[trigger] self.jobs()[k], now)
                    ==> r@.contains(self.jobs()[k].id),
    {
        proof {
            use_type_invariant(&*self);
        }
        let mut picked: Vec<usize> = Vec::new();
        let mut i: usize = 0;
        while i < self.job_rows.len()
            invariant
                i <= self.job_rows.len(),
                forall|k: int|
                    0 <= k < picked@.len() ==> (#[trigger] picked@[k]) < i && eligible(
                        self.jobs()[picked@[k] as int],
                        now,
                    ),
                forall|a: int, b: int| 0 <= a < b < picked@.len() ==> picked@[a] != picked@[b],
                forall|a: int, b: int|
                    0 <= a < b < picked@.len() ==> self.jobs()[picked@[a] as int].next_run_at
                        <= self.jobs()[picked@[b] as int].next_run_at,
                forall|k: int|
                    0 <= k < i && eligible(#[trigger] self.jobs()[k], now) ==> picked@.contains(
                        k as usize,
                    ),
            decreases self.job_rows.len() - i,
        {
            if self.job_rows[i].is_eligible(now) {
                let target = self.job_rows[i].next_run_at;
                let mut p: usize = 0;
                while p < picked.len() && self.job_rows[picked[p]].next_run_at <= target
                    invariant
                        p <= picked.len(),
                        i < self.job_rows.len(),
                        forall|k: int|
                            0 <= k < picked@.len() ==> (#[trigger] picked@[k]) < i && eligible(
                                self.jobs()[picked@[k] as int],
                                now,
                            ),
                        forall|a: int, b: int|
                            0 <= a < b < picked@.len() ==> self.jobs()[picked@[a] as int].next_run_at
                                <= self.jobs()[picked@[b] as int].next_run_at,
                        forall|q: int|
                            0 <= q < p ==> self.jobs()[(#[trigger] picked@[q]) as int].next_run_at
                                <= target,
                    decreases picked.len() - p,
                {
                    p = p + 1;
                }
                let ghost picked0 = picked@;
                picked.insert(p, i);
                proof {
                    assert forall|x: usize| picked0.contains(x) implies picked@.contains(x) by {
                        let m = choose|m: int| 0 <= m < picked0.len() && picked0[m] == x;
                        if m < p as int {
                            assert(picked@[m] == x);
                        } else {
                            assert(picked@[m + 1] == x);
                        }
                    }
                    assert(picked@[p as int] == i);
                    assert forall|k: int|
                        0 <= k < i + 1 && eligible(#[trigger] self.jobs()[k], now) implies picked@
                        .contains(k as usize) by {
                        if k < i as int {
                            assert(picked0.contains(k as usize));
                        } else {
                            assert(picked@[p as int] == k as usize);
                        }
                    }
                }
            }
            i = i + 1;
        }
        proof {
            assert forall|k: int, m: int|
                0 <= k < self.jobs().len() && eligible(#[trigger] self.jobs()[k], now)
                    && !picked@.contains(k as usize) && 0 <= m
                    < picked@.len() implies self.jobs()[(#[trigger] picked@[m]) as int].next_run_at
                <= self.jobs()[k].next_run_at by {
                assert(picked@.contains(k as usize));
            }
            assert(picked_are_earliest(self.jobs(), picked@, now));
        }
        let total: usize = self.job_rows.len();
        while picked.len() > batch
            invariant
                self.jobs().len() == total as int,
                forall|k: int|
                    0 <= k < picked@.len() ==> (#[trigger] picked@[k]) < self.jobs().len()
                        && eligible(self.jobs()[picked@[k] as int], now),
                forall|a: int, b: int| 0 <= a < b < picked@.len() ==> picked@[a] != picked@[b],
                forall|a: int, b: int|
                    0 <= a < b < picked@.len() ==> self.jobs()[picked@[a] as int].next_run_at
                        <= self.jobs()[picked@[b] as int].next_run_at,
                picked@.len() >= batch || forall|k: int|
                    0 <= k < self.jobs().len() && eligible(#[trigger] self.jobs()[k], now)
                        ==> picked@.contains(k as usize),
                picked_are_earliest(self.jobs(), picked@, now),
            decreases picked.len(),
        {
            let ghost pre = picked@;
            picked.pop();
            proof {
                assert forall|k: int, m: int|
                    0 <= k < self.jobs().len() && eligible(#[trigger] self.jobs()[k], now)
                        && !picked@.contains(k as usize) && 0 <= m < picked@.len() implies self
                    .jobs()[(#[trigger] picked@[m]) as int].next_run_at
                    <= self.jobs()[k].next_run_at by {
                    assert(picked@[m] == pre[m]);
                    if pre.contains(k as usize) {
                        let q = choose|q: int| 0 <= q < pre.len() && pre[q] == k as usize;
                        if q < pre.len() - 1 {
                            assert(picked@[q] == k as usize);
                            assert(false);
                        }
                        // Only the popped element left the set: the one with
                        // the largest next-run time, so the rest still come
                        // no later.
                        assert(self.jobs()[pre[m] as int].next_run_at <= self.jobs()[pre[q] as int].next_run_at);
                        assert(pre[q] as int == k);
                    } else {
                        assert(self.jobs()[(pre[m]) as int].next_run_at
                            <= self.jobs()[k].next_run_at);
                    }
                }
                assert(picked_are_earliest(self.jobs(), picked@, now));
            }
        }
        let ghost pseq = picked@;
        let mut r: Vec<u64> = Vec::new();
        let mut m: usize = 0;
        while m < picked.len()
            invariant
                m <= picked.len(),
                picked@ == pseq,
                forall|k: int|
                    0 <= k < pseq.len() ==> (#[trigger] pseq[k]) < self.jobs().len() && eligible(
                        self.jobs()[pseq[k] as int],
                        now,
                    ),
                r@.len() == m,
                forall|k: int| 0 <= k < m ==> (#[trigger] r@[k]) == self.jobs()[pseq[k] as int].id,
            decreases picked.len() - m,
        {
            r.push(self.job_rows[picked[m]].id);
            m = m + 1;
        }
        proof {
            use_type_invariant(&*self);
            assert forall|k: int| 0 <= k < r@.len() implies has_job(self.jobs(), #[trigger] r@[k])
                && eligible(self.jobs()[job_index(self.jobs(), r@[k])], now) && job_index(
                self.jobs(),
                r@[k],
            ) == pseq[k] by {
                lemma_job_index_of(self.jobs(), pseq[k] as int, r@[k]);
            }
            assert forall|a: int, b: int| 0 <= a < b < r@.len() implies r@[a] != r@[b] by {
                assert(pseq[a] != pseq[b]);
                if pseq[a] < pseq[b] {
                    assert(self.jobs()[pseq[a] as int].id != self.jobs()[pseq[b] as int].id);
                } else {
                    assert(self.jobs()[pseq[b] as int].id != self.jobs()[pseq[a] as int].id);
                }
            }
            if r@.len() < batch {
                assert forall|k: int|
                    0 <= k < self.jobs().len() && eligible(#[trigger] self.jobs()[k], now) implies r@
                    .contains(self.jobs()[k].id) by {
                    assert(pseq.contains(k as usize));
                    let m0 = choose|m0: int| 0 <= m0 < pseq.len() && pseq[m0] == k as usize;
                    assert(r@[m0] == self.jobs()[k].id);
                }
            }
            assert forall|k: int, m: int|
                #![trigger eligible(self.jobs()[k], now), r@[m]]
                0 <= k < self.jobs().len() && eligible(self.jobs()[k], now) && !r@.contains(
                    self.jobs()[k].id,
                ) && 0 <= m < r@.len() implies self.jobs()[job_index(
                self.jobs(),
                r@[m],
            )].next_run_at <= self.jobs()[k].next_run_at by {
                if pseq.contains(k as usize) {
                    let q = choose|q: int| 0 <= q < pseq.len() && pseq[q] == k as usize;
                    assert(r@[q] == self.jobs()[k].id);
                    assert(false);
                }
                assert(self.jobs()[(pseq[m]) as int].next_run_at <= self.jobs()[k].next_run_at);
            }
        }
        r
    }

    /// Renews this worker's own lease on a running job, for a worker that
    /// anticipates outrunning its lease. Idempotent, and fails safely —
    /// changing nothing — when the lease is no longer this worker's.
    pub fn renew_lease(&mut self, id: u64, worker: u64, now: u64, lease_ms: u64) -> (r: bool)
        ensures
            r == lease_held(old(self).jobs(), id, worker),
            r ==> {
                let i = job_index(old(self).jobs(), id);
                &&& final(self).jobs().len() == old(self).jobs().len()
                &&& forall|k: int|
                    0 <= k < old(self).jobs().len() && k != i ==> final(self).jobs()[k] == old(
                        self,
                    ).jobs()[k]
                &&& leases(old(self).jobs()[i], final(self).jobs()[i], worker, now, lease_ms)
            },
            !r ==> *final(self) == *old(self),
            final(self).outbox() == old(self).outbox(),
            final(self).rows() == old(self).rows(),
    {
        proof {
            use_type_invariant(&*self);
        }
        let io = self.find_index(id);
        match io {
            None => false,
            Some(i) => {
                let held = self.job_rows[i].status == JobStatus::Running && (match self.job_rows[i].lease {
                    Some(l) => l.owner == worker,
                    None => false,
                });
                if !held {
                    return false;
                }
                let rec = self.take_job(i);
                let rec2 = JobRecord {
                    status: JobStatus::Running,
                    lease: Some(
                        Lease { owner: worker, expires_at: crate::saturating_add(now, lease_ms) },
                    ),
                    ..rec
                };
                proof {
                    assert forall|k: int|
                        0 <= k < self.jobs().len() implies (#[trigger] self.jobs()[k]).id
                        != rec2.id by {
                        if k < i as int {
                            assert(self.jobs()[k] == old(self).jobs()[k]);
                        } else {
                            assert(self.jobs()[k] == old(self).jobs()[k + 1]);
                        }
                    }
                }
                self.put_job(i, rec2);
                proof {
                    assert(self.jobs() =~= old(self).jobs().update(i as int, rec2));
                }
                true
            },
        }
    }
}

} // verus!
