//! The job registry: which job-type tags the running process knows, and the
//! retry policy attached to each. The scheduler never names concrete job
//! kinds; it resolves a persisted record's type tag here. A persisted,
//! still-active job whose tag is not registered is a deployment fault found
//! at startup, before any job would stall silently.

use vstd::prelude::*;

use crate::errors::EngineError;
use crate::record::is_terminal;
use crate::retry::RetrySettings;
use crate::store::Store;

verus! {

/// One registration: a job-type tag and the retry policy for jobs of that
/// type.
#[derive(Debug)]
pub struct RegistryEntry {
    pub job_type: String,
    pub settings: RetrySettings,
}

/// True when an entry for this tag is present.
pub open spec fn registered(entries: Seq<RegistryEntry>, tag: Seq<char>) -> bool {
    exists|k: int| 0 <= k < entries.len() && (#[trigger] entries[k]).job_type@ == tag
}

/// The index of the entry for this tag; with well-formed (distinct) tags and
/// `registered`, the one index that holds it.
pub open spec fn entry_index(entries: Seq<RegistryEntry>, tag: Seq<char>) -> int {
    choose|k: int| 0 <= k < entries.len() && (#[trigger] entries[k]).job_type@ == tag
}

/// Registered tags are pairwise distinct.
pub open spec fn entries_wf(entries: Seq<RegistryEntry>) -> bool {
    forall|a: int, b: int|
        0 <= a < b < entries.len() ==> (#[trigger] entries[a]).job_type@ != (
        #[trigger] entries[b]).job_type@
}

/// The registry of known job types, keyed by tag.
#[derive(Debug)]
pub struct JobRegistry {
    items: Vec<RegistryEntry>,
}

impl JobRegistry {
    /// The registrations, in registration order.
    pub closed spec fn entries(&self) -> Seq<RegistryEntry> {
        self.items@
    }

    #[verifier::type_invariant]
    spec fn wf(self) -> bool {
        entries_wf(self.entries())
    }

    /// An empty registry.
    pub fn new() -> (r: JobRegistry)
        ensures
            r.entries() == Seq::<RegistryEntry>::empty(),
    {
        let r = JobRegistry { items: Vec::new() };
        proof {
            assert(r.entries() =~= Seq::<RegistryEntry>::empty());
        }
        r
    }

    /// Associates a job-type tag with its retry policy. Fails, changing
    /// nothing, iff the tag is already registered.
    pub fn register(&mut self, job_type: String, settings: RetrySettings) -> (r: Result<
        (),
        EngineError,
    >)
        ensures
            match r {
                Ok(_) => {
                    &&& !registered(old(self).entries(), job_type@)
                    &&& final(self).entries() == old(self).entries().push(
                        (RegistryEntry { job_type, settings }),
                    )
                },
                Err(e) => {
                    &&& e == EngineError::DuplicateJobType
                    &&& registered(old(self).entries(), job_type@)
                    &&& *final(self) == *old(self)
                },
            },
    {
        proof {
            use_type_invariant(&*self);
        }
        if self.is_registered(&job_type) {
            return Err(EngineError::DuplicateJobType);
        }
        let mut items: Vec<RegistryEntry> = Vec::new();
        core::mem::swap(&mut items, &mut self.items);
        items.push(RegistryEntry { job_type, settings });
        core::mem::swap(&mut items, &mut self.items);
        Ok(())
    }

    /// True when this tag is registered.
    pub fn is_registered(&self, job_type: &String) -> (b: bool)
        ensures
            b == registered(self.entries(), job_type@),
    {
        let mut k: usize = 0;
        while k < self.items.len()
            invariant
                k <= self.items.len(),
                forall|m: int| 0 <= m < k ==> (#[trigger] self.entries()[m]).job_type@ != job_type@,
            decreases self.items.len() - k,
        {
            if self.items[k].job_type == *job_type {
                return true;
            }
            k = k + 1;
        }
        false
    }

    /// The retry policy registered for this tag: `Some` iff the tag is
    /// registered.
    pub fn resolve(&self, job_type: &String) -> (r: Option<RetrySettings>)
        ensures
            match r {
                Some(s) => registered(self.entries(), job_type@) && s == self.entries()[entry_index(
                    self.entries(),
                    job_type@,
                )].settings,
                None => !registered(self.entries(), job_type@),
            },
    {
        proof {
            use_type_invariant(&*self);
        }
        let mut k: usize = 0;
        while k < self.items.len()
            invariant
                k <= self.items.len(),
                forall|m: int| 0 <= m < k ==> (#[trigger] self.entries()[m]).job_type@ != job_type@,
            decreases self.items.len() - k,
        {
            if self.items[k].job_type == *job_type {
                proof {
                    use_type_invariant(&*self);
                    let e = entry_index(self.entries(), job_type@);
                    assert(0 <= e < self.entries().len() && self.entries()[e].job_type@
                        == job_type@);
                    if e < k as int {
                        assert(self.entries()[e].job_type@ != self.entries()[k as int].job_type@);
                    } else if e > k as int {
                        assert(self.entries()[k as int].job_type@ != self.entries()[e].job_type@);
                    }
                }
                return Some(self.items[k].settings);
            }
            k = k + 1;
        }
        None
    }

    /// The fail-fast startup check: every persisted job that is not in a
    /// terminal state must have its type tag registered, else it could never
    /// run again and would stall silently. Returns the id of an offending
    /// job.
    pub fn validate_persisted(&self, store: &Store) -> (r: Result<(), u64>)
        ensures
            match r {
                Ok(_) => forall|k: int|
                    0 <= k < store.jobs().len() ==> is_terminal(
                        (#[trigger] store.jobs()[k]).status,
                    ) || registered(self.entries(), store.jobs()[k].job_type@),
                Err(id) => exists|k: int|
                    {
                        &&& 0 <= k < store.jobs().len()
                        &&& (#[trigger] store.jobs()[k]).id == id
                        &&& !is_terminal(store.jobs()[k].status)
                        &&& !registered(self.entries(), store.jobs()[k].job_type@)
                    },
            },
    {
        let mut k: usize = 0;
        while k < store.job_count()
            invariant
                k <= store.jobs().len(),
                forall|m: int|
                    0 <= m < k ==> is_terminal((#[trigger] store.jobs()[m]).status) || registered(
                        self.entries(),
                        store.jobs()[m].job_type@,
                    ),
            decreases store.jobs().len() - k,
        {
            let j = store.job_at(k);
            if !j.status_is_terminal() {
                if !self.is_registered(&j.job_type) {
                    return Err(j.id);
                }
            }
            k = k + 1;
        }
        Ok(())
    }
}

} // verus!
