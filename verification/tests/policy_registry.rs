use job_engine::errors::EngineError;
use job_engine::registry::JobRegistry;
use job_engine::retry::RetrySettings;
use job_engine::saturating_add;
use job_engine::scheduler::{settle_attempt, AttemptOutcome};
use job_engine::store::Store;

#[test]
fn backoff_doubles_and_caps() {
    let rs = RetrySettings {
        n_attempts: Some(30),
        n_warn_attempts: Some(3),
        min_backoff_ms: 1000,
        max_backoff_ms: 60000,
    };
    assert_eq!(rs.backoff(0), 1000);
    assert_eq!(rs.backoff(1), 1000);
    assert_eq!(rs.backoff(2), 2000);
    assert_eq!(rs.backoff(3), 4000);
    assert_eq!(rs.backoff(4), 8000);
    assert_eq!(rs.backoff(5), 16000);
    assert_eq!(rs.backoff(6), 32000);
    assert_eq!(rs.backoff(7), 60000);
    assert_eq!(rs.backoff(8), 60000);
    assert_eq!(rs.backoff(64), 60000);
}

#[test]
fn backoff_clamps_floor_to_cap() {
    let rs = RetrySettings {
        n_attempts: None,
        n_warn_attempts: None,
        min_backoff_ms: 5000,
        max_backoff_ms: 1000,
    };
    assert_eq!(rs.backoff(1), 1000);
    assert_eq!(rs.backoff(5), 1000);
}

#[test]
fn default_retry_settings() {
    let rs = RetrySettings::default();
    assert_eq!(rs.n_attempts, Some(30));
    assert_eq!(rs.n_warn_attempts, Some(3));
    assert_eq!(rs.min_backoff_ms, 1000);
    assert_eq!(rs.max_backoff_ms, 60000);
}

#[test]
fn retry_budget_accounting() {
    let rs = RetrySettings { n_attempts: Some(2), n_warn_attempts: Some(1), ..RetrySettings::default() };
    assert!(!rs.is_exhausted(0));
    assert!(!rs.is_exhausted(1));
    assert!(rs.is_exhausted(2));
    assert!(rs.is_warn_due(1));
    assert!(!rs.is_warn_due(0));
    let unlimited = RetrySettings { n_attempts: None, n_warn_attempts: None, ..rs };
    assert!(!unlimited.is_exhausted(u64::MAX));
    assert!(!unlimited.is_warn_due(u64::MAX));
}

#[test]
fn unlimited_retries_never_go_terminal() {
    let mut store = Store::new();
    store.create_job(1, String::from("t"), vec![], 0).unwrap();
    let rs = RetrySettings { n_attempts: None, n_warn_attempts: None, min_backoff_ms: 10, max_backoff_ms: 10 };
    let mut now: u64 = 0;
    for attempt in 1..=50u64 {
        now += 1_000;
        let ctx = store.try_acquire_lease(1, 1, now, 100).expect("still retryable");
        let r = settle_attempt(&mut store, ctx, AttemptOutcome::Errored, &rs, now);
        assert_eq!(
            r,
            job_engine::scheduler::SettleResult::Settled { warn: false, fatal: false }
        );
        assert_eq!(store.get_job(1).unwrap().attempts, attempt);
        assert_eq!(
            store.get_job(1).unwrap().status,
            job_engine::record::JobStatus::FailedRetryable
        );
    }
}

#[test]
fn registry_registers_resolves_and_rejects_duplicates() {
    let mut reg = JobRegistry::new();
    let rs = RetrySettings { n_attempts: Some(10), n_warn_attempts: Some(3), ..RetrySettings::default() };
    reg.register(String::from("find-new-report-run"), rs).unwrap();
    assert!(reg.is_registered(&String::from("find-new-report-run")));
    assert!(!reg.is_registered(&String::from("unknown")));
    let got = reg.resolve(&String::from("find-new-report-run")).expect("registered");
    assert_eq!(got.n_attempts, Some(10));
    assert_eq!(got.n_warn_attempts, Some(3));
    assert!(reg.resolve(&String::from("unknown")).is_none());
    assert_eq!(
        reg.register(String::from("find-new-report-run"), RetrySettings::default()),
        Err(EngineError::DuplicateJobType)
    );
}

#[test]
fn startup_fails_fast_on_unregistered_active_job_type() {
    let mut store = Store::new();
    store.create_job(1, String::from("known"), vec![], 0).unwrap();
    store.create_job(2, String::from("forgotten"), vec![], 0).unwrap();
    let mut reg = JobRegistry::new();
    reg.register(String::from("known"), RetrySettings::default()).unwrap();
    assert_eq!(reg.validate_persisted(&store), Err(2));
    // Once the forgotten job is terminal it no longer blocks startup.
    let ctx = store.try_acquire_lease(2, 1, 0, 100).unwrap();
    let rs = RetrySettings { n_attempts: Some(1), ..RetrySettings::default() };
    settle_attempt(&mut store, ctx, AttemptOutcome::Errored, &rs, 0);
    assert_eq!(
        store.get_job(2).unwrap().status,
        job_engine::record::JobStatus::FailedTerminal
    );
    assert_eq!(reg.validate_persisted(&store), Ok(()));
    // And with the type registered, validation passes outright.
    reg.register(String::from("forgotten"), RetrySettings::default()).unwrap();
    assert_eq!(reg.validate_persisted(&store), Ok(()));
}

#[test]
fn saturating_add_sticks_at_max() {
    assert_eq!(saturating_add(1, 2), 3);
    assert_eq!(saturating_add(u64::MAX, 1), u64::MAX);
    assert_eq!(saturating_add(u64::MAX - 1, 1), u64::MAX);
    assert_eq!(saturating_add(u64::MAX, u64::MAX), u64::MAX);
    assert_eq!(saturating_add(0, 0), 0);
}
