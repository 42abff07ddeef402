//! The transactional unit: a begin/commit-scoped batch of staged writes.
//! Business rows, outbox events and child-job creations staged here become
//! visible atomically when the unit commits, and not at all when it is
//! dropped — that is the engine's whole durability story.

use vstd::prelude::*;

use crate::errors::EngineError;
use crate::store::{has_job, has_row, Store};

verus! {

/// A business row: an opaque value under a unique key. Stands for the
/// application data a job body writes in the same transaction as its
/// checkpoint and events.
#[derive(Debug)]
pub struct BizRow {
    pub key: u64,
    pub value: Vec<u8>,
}

/// A job creation staged inside a transactional unit: the record it will
/// become is pending, unleased and eligible from `next_run_at` on.
#[derive(Debug)]
pub struct NewJob {
    pub id: u64,
    pub job_type: String,
    pub config: Vec<u8>,
    pub next_run_at: u64,
}

/// True when a staged job creation with the given id is present.
pub open spec fn has_staged_job(staged: Seq<NewJob>, id: u64) -> bool {
    exists|k: int| 0 <= k < staged.len() && (#[trigger] staged[k]).id == id
}

/// True when a staged row with the given key is present.
pub open spec fn has_staged_row(staged: Seq<BizRow>, key: u64) -> bool {
    exists|k: int| 0 <= k < staged.len() && (#[trigger] staged[k]).key == key
}

/// Staged job creations carry pairwise distinct ids.
pub open spec fn staged_jobs_wf(staged: Seq<NewJob>) -> bool {
    forall|a: int, b: int|
        0 <= a < b < staged.len() ==> (#[trigger] staged[a]).id != (#[trigger] staged[b]).id
}

/// Staged rows carry pairwise distinct keys.
pub open spec fn staged_rows_wf(staged: Seq<BizRow>) -> bool {
    forall|a: int, b: int|
        0 <= a < b < staged.len() ==> (#[trigger] staged[a]).key != (#[trigger] staged[b]).key
}

/// A transactional unit holding staged, not yet visible writes: business
/// rows, outbox event payloads, and child-job creations. Writes stage only
/// after passing the uniqueness checks against the store they were staged
/// against; a concurrent commit can still beat them to a key, which the
/// commit itself re-checks.
#[derive(Debug)]
pub struct TxUnit {
    new_jobs: Vec<NewJob>,
    rows: Vec<BizRow>,
    events: Vec<Vec<u8>>,
}

impl TxUnit {
    /// The job creations staged so far, in stage order.
    pub closed spec fn staged_jobs(&self) -> Seq<NewJob> {
        self.new_jobs@
    }

    /// The business rows staged so far, in stage order.
    pub closed spec fn staged_rows(&self) -> Seq<BizRow> {
        self.rows@
    }

    /// The event payloads staged so far, in stage order.
    pub closed spec fn staged_events(&self) -> Seq<Vec<u8>> {
        self.events@
    }

    /// True when nothing is staged.
    pub open spec fn is_clean(&self) -> bool {
        &&& self.staged_jobs() == Seq::<NewJob>::empty()
        &&& self.staged_rows() == Seq::<BizRow>::empty()
        &&& self.staged_events() == Seq::<Vec<u8>>::empty()
    }

    #[verifier::type_invariant]
    spec fn wf(self) -> bool {
        staged_jobs_wf(self.staged_jobs()) && staged_rows_wf(self.staged_rows())
    }

    /// A fresh, empty unit.
    pub fn new() -> (op: TxUnit)
        ensures
            op.is_clean(),
    {
        let op = TxUnit { new_jobs: Vec::new(), rows: Vec::new(), events: Vec::new() };
        proof {
            assert(op.staged_jobs() =~= Seq::<NewJob>::empty());
            assert(op.staged_rows() =~= Seq::<BizRow>::empty());
            assert(op.staged_events() =~= Seq::<Vec<u8>>::empty());
        }
        op
    }

    /// Stages an outbox event. The payload becomes visible, with its sequence
    /// number assigned in commit order, only when this unit commits.
    pub fn publish(&mut self, payload: Vec<u8>)
        ensures
            final(self).staged_events() == old(self).staged_events().push(payload),
            final(self).staged_jobs() == old(self).staged_jobs(),
            final(self).staged_rows() == old(self).staged_rows(),
    {
        proof {
            use_type_invariant(&*self);
        }
        let mut evs: Vec<Vec<u8>> = Vec::new();
        core::mem::swap(&mut evs, &mut self.events);
        evs.push(payload);
        core::mem::swap(&mut evs, &mut self.events);
    }

    /// Stages the creation of a child job, checking the id against both the
    /// given store and this unit's own staged creations. The new job becomes
    /// visible and eligible only when this unit commits into that store.
    pub fn create_job_in_op(
        &mut self,
        store: &Store,
        id: u64,
        job_type: String,
        config: Vec<u8>,
        next_run_at: u64,
    ) -> (r: Result<(), EngineError>)
        ensures
            match r {
                Ok(_) => {
                    &&& !has_job(store.jobs(), id)
                    &&& !has_staged_job(old(self).staged_jobs(), id)
                    &&& final(self).staged_jobs() == old(self).staged_jobs().push(
                        (NewJob { id, job_type, config, next_run_at }),
                    )
                    &&& final(self).staged_rows() == old(self).staged_rows()
                    &&& final(self).staged_events() == old(self).staged_events()
                },
                Err(e) => {
                    &&& e == EngineError::JobIdInUse
                    &&& has_job(store.jobs(), id) || has_staged_job(
                        old(self).staged_jobs(),
                        id,
                    )
                    &&& *final(self) == *old(self)
                },
            },
    {
        proof {
            use_type_invariant(&*self);
        }
        if store.contains_job(id) {
            return Err(EngineError::JobIdInUse);
        }
        if self.contains_staged_job(id) {
            return Err(EngineError::JobIdInUse);
        }
        let mut js: Vec<NewJob> = Vec::new();
        core::mem::swap(&mut js, &mut self.new_jobs);
        js.push(NewJob { id, job_type, config, next_run_at });
        core::mem::swap(&mut js, &mut self.new_jobs);
        Ok(())
    }

    /// Stages a business row under a unique key, checking the key against
    /// both the given store and this unit's own staged rows. A `DuplicateKey`
    /// error is the uniqueness conflict an idempotent job body treats as
    /// work already done by a previous attempt.
    pub fn insert_row(&mut self, store: &Store, key: u64, value: Vec<u8>) -> (r: Result<
        (),
        EngineError,
    >)
        ensures
            match r {
                Ok(_) => {
                    &&& !has_row(store.rows(), key)
                    &&& !has_staged_row(old(self).staged_rows(), key)
                    &&& final(self).staged_rows() == old(self).staged_rows().push(
                        (BizRow { key, value }),
                    )
                    &&& final(self).staged_jobs() == old(self).staged_jobs()
                    &&& final(self).staged_events() == old(self).staged_events()
                },
                Err(e) => {
                    &&& e == EngineError::DuplicateKey
                    &&& has_row(store.rows(), key) || has_staged_row(old(self).staged_rows(), key)
                    &&& *final(self) == *old(self)
                },
            },
    {
        proof {
            use_type_invariant(&*self);
        }
        if store.contains_row(key) {
            return Err(EngineError::DuplicateKey);
        }
        if self.contains_staged_row(key) {
            return Err(EngineError::DuplicateKey);
        }
        let mut rs: Vec<BizRow> = Vec::new();
        core::mem::swap(&mut rs, &mut self.rows);
        rs.push(BizRow { key, value });
        core::mem::swap(&mut rs, &mut self.rows);
        Ok(())
    }

    /// How many event payloads are staged.
    pub fn staged_event_count(&self) -> (n: usize)
        ensures
            n == self.staged_events().len(),
    {
        self.events.len()
    }

    /// True when a job creation with this id is already staged here.
    pub fn contains_staged_job(&self, id: u64) -> (b: bool)
        ensures
            b == has_staged_job(self.staged_jobs(), id),
    {
        let mut k: usize = 0;
        while k < self.new_jobs.len()
            invariant
                k <= self.new_jobs.len(),
                forall|m: int| 0 <= m < k ==> (#[trigger] self.staged_jobs()[m]).id != id,
            decreases self.new_jobs.len() - k,
        {
            if self.new_jobs[k].id == id {
                return true;
            }
            k = k + 1;
        }
        false
    }

    /// True when a row with this key is already staged here.
    pub fn contains_staged_row(&self, key: u64) -> (b: bool)
        ensures
            b == has_staged_row(self.staged_rows(), key),
    {
        let mut k: usize = 0;
        while k < self.rows.len()
            invariant
                k <= self.rows.len(),
                forall|m: int| 0 <= m < k ==> (#[trigger] self.staged_rows()[m]).key != key,
            decreases self.rows.len() - k,
        {
            if self.rows[k].key == key {
                return true;
            }
            k = k + 1;
        }
        false
    }

    /// True when a concurrently committed transaction already took one of
    /// this unit's staged job ids or row keys, so committing it into the
    /// given store would break uniqueness.
    pub fn conflicts_with(&self, store: &Store) -> (b: bool)
        ensures
            b == crate::store::op_conflicts(
                store.jobs(),
                store.rows(),
                self.staged_jobs(),
                self.staged_rows(),
            ),
    {
        let mut k: usize = 0;
        while k < self.new_jobs.len()
            invariant
                k <= self.new_jobs.len(),
                forall|m: int|
                    0 <= m < k ==> !has_job(store.jobs(), (#[trigger] self.staged_jobs()[m]).id),
            decreases self.new_jobs.len() - k,
        {
            if store.contains_job(self.new_jobs[k].id) {
                return true;
            }
            k = k + 1;
        }
        let mut m: usize = 0;
        while m < self.rows.len()
            invariant
                m <= self.rows.len(),
                forall|q: int|
                    0 <= q < m ==> !has_row(store.rows(), (#[trigger] self.staged_rows()[q]).key),
            decreases self.rows.len() - m,
        {
            if store.contains_row(self.rows[m].key) {
                return true;
            }
            m = m + 1;
        }
        false
    }

    /// Hands the staged writes over to a commit, in stage order.
    pub(crate) fn into_parts(self) -> (parts: (Vec<NewJob>, Vec<BizRow>, Vec<Vec<u8>>))
        ensures
            parts.0@ == self.staged_jobs(),
            parts.1@ == self.staged_rows(),
            parts.2@ == self.staged_events(),
            staged_jobs_wf(parts.0@),
            staged_rows_wf(parts.1@),
    {
        proof {
            use_type_invariant(&self);
        }
        (self.new_jobs, self.rows, self.events)
    }
}

} // verus!
