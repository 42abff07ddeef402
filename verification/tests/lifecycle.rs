use job_engine::record::{JobRecord, JobStatus, Lease};
use job_engine::retry::RetrySettings;
use job_engine::scheduler::{settle_attempt, AttemptOutcome, SettleResult};
use job_engine::store::Store;

fn settings(max: Option<u32>, warn: Option<u32>) -> RetrySettings {
    RetrySettings { n_attempts: max, n_warn_attempts: warn, min_backoff_ms: 1000, max_backoff_ms: 60000 }
}

fn make_job(store: &mut Store, id: u64) {
    store
        .create_job(id, String::from("sync"), vec![1, 2, 3], 0)
        .expect("job id must be free");
}

#[test]
fn create_then_poll_then_complete() {
    let mut store = Store::new();
    make_job(&mut store, 1);
    let due = store.poll_eligible(0, 10);
    assert_eq!(due, vec![1]);
    let ctx = store.try_acquire_lease(1, 77, 0, 10_000).expect("eligible");
    assert_eq!(store.get_job(1).unwrap().status, JobStatus::Running);
    let r = settle_attempt(&mut store, ctx, AttemptOutcome::Complete, &settings(Some(3), None), 5);
    assert_eq!(r, SettleResult::Settled { warn: false, fatal: false });
    let j = store.get_job(1).unwrap();
    assert_eq!(j.status, JobStatus::Completed);
    assert_eq!(j.attempts, 1);
    assert!(j.lease.is_none());
    assert!(store.poll_eligible(1_000_000, 10).is_empty());
}

#[test]
fn lease_is_exclusive_until_expiry() {
    let mut store = Store::new();
    make_job(&mut store, 1);
    let ctx1 = store.try_acquire_lease(1, 1, 0, 10_000).expect("first worker wins");
    // A concurrent poller loses the race while the lease is live.
    assert!(store.try_acquire_lease(1, 2, 0, 10_000).is_none());
    assert!(store.try_acquire_lease(1, 2, 9_999, 10_000).is_none());
    // Even the holder cannot double-lease its own job.
    assert!(store.try_acquire_lease(1, 1, 5_000, 10_000).is_none());
    // Expiry makes the job eligible again: crash recovery.
    let ctx2 = store.try_acquire_lease(1, 2, 10_000, 10_000).expect("lease expired");
    // The stale worker's settle is refused and writes nothing.
    let r = settle_attempt(&mut store, ctx1, AttemptOutcome::Complete, &settings(None, None), 11_000);
    assert_eq!(r, SettleResult::LostLease);
    let j = store.get_job(1).unwrap();
    assert_eq!(j.status, JobStatus::Running);
    assert_eq!(j.lease, Some(Lease { owner: 2, expires_at: 20_000 }));
    // The live worker settles normally.
    let r = settle_attempt(&mut store, ctx2, AttemptOutcome::Complete, &settings(None, None), 11_000);
    assert_eq!(r, SettleResult::Settled { warn: false, fatal: false });
    assert_eq!(store.get_job(1).unwrap().status, JobStatus::Completed);
}

#[test]
fn reschedule_is_attempt_neutral_and_defers() {
    let mut store = Store::new();
    make_job(&mut store, 1);
    let ctx = store.try_acquire_lease(1, 7, 50, 10_000).unwrap();
    let r = settle_attempt(&mut store, ctx, AttemptOutcome::RescheduleIn(500), &settings(Some(3), None), 50);
    assert_eq!(r, SettleResult::Settled { warn: false, fatal: false });
    let j = store.get_job(1).unwrap();
    assert_eq!(j.status, JobStatus::Pending);
    assert_eq!(j.attempts, 0);
    assert_eq!(j.next_run_at, 550);
    assert!(store.poll_eligible(549, 10).is_empty());
    assert!(store.try_acquire_lease(1, 7, 549, 10_000).is_none());
    assert_eq!(store.poll_eligible(550, 10), vec![1]);
}

#[test]
fn error_backs_off_and_spends_one_attempt() {
    let mut store = Store::new();
    make_job(&mut store, 1);
    let rs = settings(Some(3), Some(1));
    let ctx = store.try_acquire_lease(1, 7, 100, 10_000).unwrap();
    let r = settle_attempt(&mut store, ctx, AttemptOutcome::Errored, &rs, 100);
    // One error with n_warn_attempts = 1 raises the warning signal.
    assert_eq!(r, SettleResult::Settled { warn: true, fatal: false });
    let j = store.get_job(1).unwrap();
    assert_eq!(j.status, JobStatus::FailedRetryable);
    assert_eq!(j.attempts, 1);
    assert_eq!(j.next_run_at, 100 + 1000);
    assert!(store.poll_eligible(1099, 10).is_empty());
    assert_eq!(store.poll_eligible(1100, 10), vec![1]);
}

#[test]
fn exhausted_retries_fail_terminally() {
    let mut store = Store::new();
    make_job(&mut store, 1);
    let rs = settings(Some(3), Some(2));
    let mut now: u64 = 0;
    for attempt in 1..=3u64 {
        now += 100_000;
        let ctx = store.try_acquire_lease(1, 7, now, 10_000).expect("retryable");
        let r = settle_attempt(&mut store, ctx, AttemptOutcome::Errored, &rs, now);
        let fatal = attempt == 3;
        let warn = attempt >= 2;
        assert_eq!(r, SettleResult::Settled { warn, fatal });
        assert_eq!(store.get_job(1).unwrap().attempts, attempt);
    }
    let j = store.get_job(1).unwrap();
    assert_eq!(j.status, JobStatus::FailedTerminal);
    // Never eligible again, at any time.
    assert!(store.poll_eligible(u64::MAX, 10).is_empty());
    assert!(store.try_acquire_lease(1, 8, u64::MAX, 10).is_none());
}

#[test]
fn reschedule_then_complete_counts_one_attempt() {
    // Scenario: first attempt asks to run again in five seconds; once the
    // delay has passed the job is re-leased and completes.
    let mut store = Store::new();
    store
        .create_job(1, String::from("report-poll"), vec![9], 0)
        .unwrap();
    let rs = settings(Some(10), Some(3));
    let ctx = store.try_acquire_lease(1, 4, 1_000, 30_000).expect("fresh job");
    let r = settle_attempt(&mut store, ctx, AttemptOutcome::RescheduleIn(5_000), &rs, 1_000);
    assert_eq!(r, SettleResult::Settled { warn: false, fatal: false });
    assert!(store.poll_eligible(5_999, 10).is_empty());
    assert_eq!(store.poll_eligible(6_000, 10), vec![1]);
    let ctx = store.try_acquire_lease(1, 4, 6_000, 30_000).expect("delay passed");
    let r = settle_attempt(&mut store, ctx, AttemptOutcome::Complete, &rs, 6_100);
    assert_eq!(r, SettleResult::Settled { warn: false, fatal: false });
    let j = store.get_job(1).unwrap();
    assert_eq!(j.status, JobStatus::Completed);
    // A cooperative reschedule does not count as an attempt; the completing
    // run does.
    assert_eq!(j.attempts, 1);
}

#[test]
fn poll_orders_by_next_run_and_bounds_batch() {
    let mut store = Store::new();
    store.create_job(10, String::from("a"), vec![], 30).unwrap();
    store.create_job(11, String::from("b"), vec![], 10).unwrap();
    store.create_job(12, String::from("c"), vec![], 20).unwrap();
    store.create_job(13, String::from("d"), vec![], 99).unwrap();
    assert_eq!(store.poll_eligible(50, 10), vec![11, 12, 10]);
    assert_eq!(store.poll_eligible(50, 2), vec![11, 12]);
    assert!(store.poll_eligible(9, 10).is_empty());
    assert!(store.poll_eligible(50, 0).is_empty());
}

#[test]
fn renew_extends_own_lease_only() {
    let mut store = Store::new();
    make_job(&mut store, 1);
    let _ctx = store.try_acquire_lease(1, 5, 0, 100).unwrap();
    assert_eq!(store.get_job(1).unwrap().lease, Some(Lease { owner: 5, expires_at: 100 }));
    // The holder renews; another worker cannot.
    assert!(store.renew_lease(1, 5, 50, 100));
    assert_eq!(store.get_job(1).unwrap().lease, Some(Lease { owner: 5, expires_at: 150 }));
    assert!(!store.renew_lease(1, 6, 60, 100));
    assert_eq!(store.get_job(1).unwrap().lease, Some(Lease { owner: 5, expires_at: 150 }));
    // Renewal is idempotent: repeating it just re-extends from `now`.
    assert!(store.renew_lease(1, 5, 50, 100));
    assert_eq!(store.get_job(1).unwrap().lease, Some(Lease { owner: 5, expires_at: 150 }));
    // After reassignment the old owner's renewal fails safely.
    let _ctx2 = store.try_acquire_lease(1, 9, 200, 100).expect("expired");
    assert!(!store.renew_lease(1, 5, 210, 100));
    assert!(store.renew_lease(1, 9, 210, 100));
}

#[test]
fn create_job_rejects_taken_id() {
    let mut store = Store::new();
    make_job(&mut store, 1);
    let r = store.create_job(1, String::from("other"), vec![], 0);
    assert_eq!(r, Err(job_engine::errors::EngineError::JobIdInUse));
    assert_eq!(store.job_count(), 1);
}

#[test]
fn eligibility_rules_on_raw_records() {
    let base = JobRecord {
        id: 1,
        job_type: String::from("t"),
        config: vec![],
        execution_state: vec![],
        status: JobStatus::Pending,
        attempts: 0,
        lease: None,
        next_run_at: 100,
    };
    assert!(!base.is_eligible(99));
    assert!(base.is_eligible(100));
    let running_live = JobRecord {
        status: JobStatus::Running,
        lease: Some(Lease { owner: 1, expires_at: 500 }),
        ..base
    };
    assert!(!running_live.is_eligible(499));
    // An expired lease — crashed or stalled worker — makes the job
    // immediately eligible regardless of next_run_at.
    assert!(running_live.is_eligible(500));
    let running_unleased = JobRecord { status: JobStatus::Running, lease: None, ..running_live };
    assert!(running_unleased.is_eligible(0));
    let retryable = JobRecord { status: JobStatus::FailedRetryable, ..running_unleased };
    assert!(!retryable.is_eligible(99));
    assert!(retryable.is_eligible(101));
    for st in [JobStatus::Completed, JobStatus::FailedTerminal, JobStatus::Cancelled] {
        let terminal = JobRecord { status: st, ..retryable.clone() };
        assert!(!terminal.is_eligible(u64::MAX));
    }
}

#[test]
fn concurrent_acquisition_grants_one_lease_per_window() {
    // Many workers race on one job over many lease windows: within each
    // window exactly one acquisition succeeds, and it is the only live lease.
    let mut store = Store::new();
    make_job(&mut store, 1);
    let lease_ms = 1_000u64;
    for window in 0..20u64 {
        let now = window * lease_ms;
        let mut granted = 0;
        for worker in 0..5u64 {
            if let Some(ctx) = store.try_acquire_lease(1, worker, now, lease_ms) {
                granted += 1;
                assert!(store.holds_lease(1, worker));
                drop(ctx);
            } else {
                assert!(!store.holds_lease(1, worker));
            }
        }
        assert_eq!(granted, 1);
        // Until the window ends, nobody else gets in.
        assert!(store.try_acquire_lease(1, 99, now + lease_ms - 1, lease_ms).is_none());
    }
}

#[test]
fn poll_keeps_all_jobs_with_equal_next_run() {
    let mut store = Store::new();
    store.create_job(1, String::from("a"), vec![], 5).unwrap();
    store.create_job(2, String::from("b"), vec![], 5).unwrap();
    store.create_job(3, String::from("c"), vec![], 5).unwrap();
    let mut due = store.poll_eligible(5, 10);
    due.sort();
    assert_eq!(due, vec![1, 2, 3]);
}

#[test]
fn reschedule_delay_saturates() {
    let mut store = Store::new();
    make_job(&mut store, 1);
    let ctx = store.try_acquire_lease(1, 7, 100, 10_000).unwrap();
    let r = settle_attempt(&mut store, ctx, AttemptOutcome::RescheduleIn(u64::MAX), &settings(None, None), 100);
    assert_eq!(r, SettleResult::Settled { warn: false, fatal: false });
    assert_eq!(store.get_job(1).unwrap().next_run_at, u64::MAX);
    assert!(store.poll_eligible(u64::MAX - 1, 10).is_empty());
    assert_eq!(store.poll_eligible(u64::MAX, 10), vec![1]);
}
