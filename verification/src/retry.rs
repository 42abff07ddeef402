//! Per-job-type retry policy: how many failed attempts are allowed, when a
//! warning is due, and the backoff delay between retries.

use vstd::prelude::*;

verus! {

/// Retry policy attached to a job type at registration time.
///
/// `n_attempts` is the maximum number of counted attempts before the job is
/// failed for good (`None` means unlimited retries). `n_warn_attempts` is the
/// attempt count at which a warning-level signal is raised. The backoff delay
/// doubles from `min_backoff_ms` on each further attempt, capped at
/// `max_backoff_ms`.
#[derive(Clone, Copy, Debug)]
pub struct RetrySettings {
    pub n_attempts: Option<u32>,
    pub n_warn_attempts: Option<u32>,
    pub min_backoff_ms: u64,
    pub max_backoff_ms: u64,
}

/// The delay, in milliseconds, before a job that has failed `attempt` times
/// becomes eligible again: `min_backoff_ms` doubled per further attempt,
/// capped at `max_backoff_ms`.
pub open spec fn backoff_ms(s: RetrySettings, attempt: u64) -> u64
    decreases attempt,
{
    if attempt <= 1 {
        if s.min_backoff_ms <= s.max_backoff_ms {
            s.min_backoff_ms
        } else {
            s.max_backoff_ms
        }
    } else {
        let prev = backoff_ms(s, (attempt - 1) as u64);
        if prev > s.max_backoff_ms / 2 {
            s.max_backoff_ms
        } else {
            (prev * 2) as u64
        }
    }
}

/// True when `attempts` counted attempts have used up the retry budget.
pub open spec fn exhausted(s: RetrySettings, attempts: u64) -> bool {
    match s.n_attempts {
        Some(m) => attempts >= m,
        None => false,
    }
}

/// True when `attempts` counted attempts are enough to owe the operator a
/// warning-level signal.
pub open spec fn warn_due(s: RetrySettings, attempts: u64) -> bool {
    match s.n_warn_attempts {
        Some(w) => attempts >= w,
        None => false,
    }
}

impl RetrySettings {
    /// Computes the backoff delay for the given attempt count.
    pub fn backoff(&self, attempt: u64) -> (d: u64)
        ensures
            d == backoff_ms(*self, attempt),
    {
        let mut cur: u64 = if self.min_backoff_ms <= self.max_backoff_ms {
            self.min_backoff_ms
        } else {
            self.max_backoff_ms
        };
        let mut i: u64 = 1;
        while i < attempt
            invariant
                1 <= i,
                if attempt <= 1 { i == 1 } else { i <= attempt },
                cur == backoff_ms(*self, i),
            decreases attempt - i,
        {
            if cur > self.max_backoff_ms / 2 {
                cur = self.max_backoff_ms;
            } else {
                cur = cur * 2;
            }
            i = i + 1;
        }
        proof {
            if attempt == 0 {
                assert(backoff_ms(*self, 0) == backoff_ms(*self, 1));
            }
        }
        cur
    }

    /// True when `attempts` counted attempts have used up the retry budget.
    pub fn is_exhausted(&self, attempts: u64) -> (b: bool)
        ensures
            b == exhausted(*self, attempts),
    {
        match self.n_attempts {
            Some(m) => attempts >= m as u64,
            None => false,
        }
    }

    /// True when a warning-level signal is due after `attempts` attempts.
    pub fn is_warn_due(&self, attempts: u64) -> (b: bool)
        ensures
            b == warn_due(*self, attempts),
    {
        match self.n_warn_attempts {
            Some(w) => attempts >= w as u64,
            None => false,
        }
    }
}

impl Default for RetrySettings {
    /// Thirty attempts, a warning after three, backoff doubling from one
    /// second up to a minute.
    fn default() -> (s: Self)
        ensures
            s.n_attempts == Some(30u32),
            s.n_warn_attempts == Some(3u32),
            s.min_backoff_ms == 1000u64,
            s.max_backoff_ms == 60000u64,
    {
        RetrySettings {
            n_attempts: Some(30),
            n_warn_attempts: Some(3),
            min_backoff_ms: 1000,
            max_backoff_ms: 60000,
        }
    }
}

/// The backoff delay never exceeds `max_backoff_ms`.
pub proof fn lemma_backoff_capped(s: RetrySettings, attempt: u64)
    ensures
        backoff_ms(s, attempt) <= s.max_backoff_ms,
    decreases attempt,
{
    if attempt > 1 {
        lemma_backoff_capped(s, (attempt - 1) as u64);
    }
}

} // verus!
