//! The execution context handed to a running job body. It carries the
//! checkpoint read at lease time, the checkpoint update the body stages, and
//! the transactional unit through which the body mixes business writes,
//! outbox events and child-job creations into one commit. Nothing staged
//! here is durable until the context commits it.

use vstd::prelude::*;

use crate::errors::EngineError;
use crate::outbox::events_extended;
use crate::store::{job_index, lease_held, op_conflicts, created_from, Store};
use crate::txn::TxUnit;

verus! {

/// The context of one leased execution of one job.
///
/// `checkpoint()` is the execution state the body currently sees: the staged
/// update if one exists, else the state read when the lease was taken.
/// Committing is the body's (or the scheduler's) responsibility; dropping the
/// context without committing loses exactly the staged writes and nothing
/// else.
#[derive(Debug)]
pub struct CurrentJob {
    job_id: u64,
    worker: u64,
    snapshot: Vec<u8>,
    pending_state: Option<Vec<u8>>,
    op: TxUnit,
}

impl CurrentJob {
    /// The id of the job this context executes.
    pub closed spec fn job_id(&self) -> u64 {
        self.job_id
    }

    /// The worker that holds the lease this context runs under.
    pub closed spec fn worker(&self) -> u64 {
        self.worker
    }

    /// The checkpoint as read from the store when the lease was taken (or as
    /// last committed through this context).
    pub closed spec fn snapshot(&self) -> Seq<u8> {
        self.snapshot@
    }

    /// True when the body has staged a checkpoint update that has not yet
    /// committed.
    pub closed spec fn has_pending(&self) -> bool {
        self.pending_state is Some
    }

    /// The execution state the body currently sees: the staged update if one
    /// exists, else the snapshot.
    pub open spec fn checkpoint(&self) -> Seq<u8> {
        if self.has_pending() {
            self.pending()
        } else {
            self.snapshot()
        }
    }

    /// The staged checkpoint update.
    pub closed spec fn pending(&self) -> Seq<u8> {
        self.pending_state->0@
    }

    /// The transactional unit with this context's staged writes.
    pub closed spec fn op_spec(&self) -> TxUnit {
        self.op
    }

    /// A context freshly bound to a newly acquired lease: checkpoint as given,
    /// no staged update, an empty transactional unit.
    pub(crate) fn new_leased(job_id: u64, worker: u64, snapshot: Vec<u8>) -> (c: CurrentJob)
        ensures
            c.job_id() == job_id,
            c.worker() == worker,
            c.snapshot() == snapshot@,
            !c.has_pending(),
            c.op_spec().is_clean(),
    {
        CurrentJob { job_id, worker, snapshot, pending_state: None, op: TxUnit::new() }
    }

    /// The persisted execution state as this attempt currently sees it; empty
    /// on a first attempt that has never checkpointed.
    pub fn execution_state(&self) -> (s: &Vec<u8>)
        ensures
            s@ == self.checkpoint(),
    {
        match &self.pending_state {
            Some(p) => p,
            None => &self.snapshot,
        }
    }

    /// Stages a new checkpoint. It is durable only once this context commits,
    /// atomically with every other write staged in the same unit.
    pub fn update_execution_state(&mut self, state: Vec<u8>)
        ensures
            final(self).has_pending(),
            final(self).checkpoint() == state@,
            final(self).job_id() == old(self).job_id(),
            final(self).worker() == old(self).worker(),
            final(self).snapshot() == old(self).snapshot(),
            final(self).op_spec() == old(self).op_spec(),
    {
        self.pending_state = Some(state);
    }

    /// Read access to the transactional unit.
    pub fn op_ref(&self) -> (r: &TxUnit)
        ensures
            *r == self.op_spec(),
    {
        &self.op
    }

    /// The transactional unit, for the body to stage business rows, outbox
    /// events and child jobs into this attempt's commit.
    pub fn op_mut(&mut self) -> (r: &mut TxUnit)
        ensures
            *r == old(self).op_spec(),
            final(self).op_spec() == *final(r),
            final(self).job_id() == old(self).job_id(),
            final(self).worker() == old(self).worker(),
            final(self).snapshot() == old(self).snapshot(),
            final(self).has_pending() == old(self).has_pending(),
            final(self).checkpoint() == old(self).checkpoint(),
    {
        &mut self.op
    }

    /// Commits this attempt's transactional unit, together with the staged
    /// checkpoint update if there is one: business rows, child jobs, outbox
    /// events and checkpoint become durable at once, and the unit starts
    /// afresh. The write is conditional — it is refused, changing nothing
    /// durable, when this worker no longer holds the job's lease
    /// (`LostLease`) or a concurrent commit took a staged id or key first
    /// (`CommitConflict`).
    pub fn commit_op(&mut self, store: &mut Store, now: u64) -> (r: Result<(), EngineError>)
        requires
            old(store).outbox().len() + old(self).op_spec().staged_events().len() <= u64::MAX,
        ensures
            match r {
                Ok(_) => {
                    let i = job_index(old(store).jobs(), old(self).job_id());
                    let j0 = old(store).jobs()[i];
                    let j1 = final(store).jobs()[i];
                    let staged = old(self).op_spec().staged_jobs();
                    &&& lease_held(old(store).jobs(), old(self).job_id(), old(self).worker())
                    &&& !op_conflicts(
                        old(store).jobs(),
                        old(store).rows(),
                        staged,
                        old(self).op_spec().staged_rows(),
                    )
                    &&& final(store).jobs().len() == old(store).jobs().len() + staged.len()
                    &&& forall|k: int|
                        0 <= k < old(store).jobs().len() && k != i ==> final(store).jobs()[k]
                            == old(store).jobs()[k]
                    &&& forall|k: int|
                        0 <= k < staged.len() ==> created_from(
                            #[trigger] final(store).jobs()[old(store).jobs().len() + k],
                            staged[k],
                        )
                    &&& j1.id == j0.id
                    &&& j1.job_type == j0.job_type
                    &&& j1.config == j0.config
                    &&& j1.status == j0.status
                    &&& j1.attempts == j0.attempts
                    &&& j1.lease == j0.lease
                    &&& j1.next_run_at == j0.next_run_at
                    &&& if old(self).has_pending() {
                        j1.execution_state@ == old(self).checkpoint()
                    } else {
                        j1.execution_state == j0.execution_state
                    }
                    &&& final(store).rows() == old(store).rows() + old(self).op_spec().staged_rows()
                    &&& events_extended(
                        old(store).outbox(),
                        final(store).outbox(),
                        old(self).op_spec().staged_events(),
                        now,
                    )
                    &&& final(self).job_id() == old(self).job_id()
                    &&& final(self).worker() == old(self).worker()
                    &&& final(self).snapshot() == old(self).checkpoint()
                    &&& !final(self).has_pending()
                    &&& final(self).op_spec().is_clean()
                },
                Err(e) => {
                    &&& *final(store) == *old(store)
                    &&& *final(self) == *old(self)
                    &&& (e == EngineError::LostLease || e == EngineError::CommitConflict)
                    &&& (e == EngineError::LostLease <==> !lease_held(
                        old(store).jobs(),
                        old(self).job_id(),
                        old(self).worker(),
                    ))
                    &&& e == EngineError::CommitConflict ==> op_conflicts(
                        old(store).jobs(),
                        old(store).rows(),
                        old(self).op_spec().staged_jobs(),
                        old(self).op_spec().staged_rows(),
                    )
                },
            },
    {
        if !store.holds_lease(self.job_id, self.worker) {
            return Err(EngineError::LostLease);
        }
        if self.op.conflicts_with(store) {
            return Err(EngineError::CommitConflict);
        }
        let ghost i = job_index(store.jobs(), self.job_id);
        let mut op = TxUnit::new();
        core::mem::swap(&mut op, &mut self.op);
        let cr = store.commit_op(op, now);
        match cr {
            Err(e) => {
                proof {
                    assert(false);
                }
                Err(e)
            },
            Ok(_) => {
                let pending = self.pending_state.take();
                match pending {
                    Some(st) => {
                        let st2 = crate::copy_payload(&st);
                        proof {
                            use_type_invariant(&*store);
                            assert(store.jobs()[i].id == self.job_id);
                            crate::store::lemma_job_index_of(store.jobs(), i, self.job_id);
                        }
                        store.set_job_state(self.job_id, st);
                        self.snapshot = st2;
                    },
                    None => {},
                }
                Ok(())
            },
        }
    }

    /// Splits the context into its parts for settling.
    pub(crate) fn into_parts(self) -> (parts: (u64, u64, Vec<u8>, Option<Vec<u8>>, TxUnit))
        ensures
            parts.0 == self.job_id(),
            parts.1 == self.worker(),
            parts.2@ == self.snapshot(),
            parts.3 is Some <==> self.has_pending(),
            self.has_pending() ==> parts.3->0@ == self.pending(),
            parts.4 == self.op_spec(),
    {
        (self.job_id, self.worker, self.snapshot, self.pending_state, self.op)
    }
}

} // verus!
