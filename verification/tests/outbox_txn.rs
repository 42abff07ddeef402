use job_engine::errors::EngineError;
use job_engine::record::JobStatus;
use job_engine::retry::RetrySettings;
use job_engine::scheduler::{settle_attempt, AttemptOutcome, SettleResult};
use job_engine::store::Store;

fn rs() -> RetrySettings {
    RetrySettings { n_attempts: Some(5), n_warn_attempts: None, min_backoff_ms: 100, max_backoff_ms: 1000 }
}

#[test]
fn sequence_numbers_follow_commit_order() {
    let mut store = Store::new();
    // T1 commits before T2 begins: T1's event gets the lower number.
    let mut t1 = store.begin_op();
    t1.publish(vec![1]);
    store.commit_op(t1, 10).unwrap();
    let mut t2 = store.begin_op();
    t2.publish(vec![2]);
    t2.publish(vec![3]);
    store.commit_op(t2, 20).unwrap();
    let evs = store.next_events(0);
    assert_eq!(evs.len(), 3);
    assert_eq!(evs[0].seq, 1);
    assert_eq!(evs[1].seq, 2);
    assert_eq!(evs[2].seq, 3);
    assert_eq!(evs[0].payload, vec![1]);
    assert_eq!(evs[1].payload, vec![2]);
    assert_eq!(evs[2].payload, vec![3]);
    assert_eq!(evs[0].recorded_at, 10);
    assert_eq!(evs[2].recorded_at, 20);
    // Strictly increasing for any consumer, restartable from any cursor.
    let tail = store.next_events(1);
    assert_eq!(tail.len(), 2);
    assert_eq!(tail[0].seq, 2);
    assert_eq!(tail[1].seq, 3);
    assert!(store.next_events(3).is_empty());
    assert!(store.next_events(u64::MAX).is_empty());
}

#[test]
fn nothing_is_visible_before_commit() {
    let mut store = Store::new();
    let mut op = store.begin_op();
    op.insert_row(&store, 7, vec![7, 7]).unwrap();
    op.publish(vec![1]);
    op.create_job_in_op(&store, 2, String::from("child"), vec![], 0).unwrap();
    assert!(store.get_row(7).is_none());
    assert_eq!(store.outbox_len(), 0);
    assert!(store.get_job(2).is_none());
    assert!(store.poll_eligible(u64::MAX, 10).is_empty());
    store.commit_op(op, 50).unwrap();
    assert_eq!(store.get_row(7).unwrap(), &vec![7u8, 7]);
    assert_eq!(store.outbox_len(), 1);
    let child = store.get_job(2).unwrap();
    assert_eq!(child.status, JobStatus::Pending);
    assert_eq!(child.attempts, 0);
    assert_eq!(store.poll_eligible(50, 10), vec![2]);
}

#[test]
fn kill_before_commit_loses_row_event_and_checkpoint() {
    // Scenario: the job body writes a business row, publishes an event and
    // stages a checkpoint in one transaction, then the process dies before
    // commit. After recovery nothing of it exists and the job is
    // re-leasable at its pre-attempt checkpoint.
    let mut store = Store::new();
    store.create_job(1, String::from("ingest"), vec![], 0).unwrap();
    {
        let mut ctx = store.try_acquire_lease(1, 1, 0, 1_000).unwrap();
        assert!(ctx.execution_state().is_empty());
        ctx.update_execution_state(vec![42]);
        let op = ctx.op_mut();
        op.insert_row(&store, 7, vec![1]).unwrap();
        op.publish(vec![2]);
        assert_eq!(ctx.execution_state(), &vec![42u8]);
        // The worker is killed here: the context is dropped uncommitted.
    }
    assert!(store.get_row(7).is_none());
    assert_eq!(store.outbox_len(), 0);
    assert_eq!(store.get_job(1).unwrap().execution_state, Vec::<u8>::new());
    // The lease must first expire, then another worker resumes from the
    // pre-attempt checkpoint.
    assert!(store.try_acquire_lease(1, 2, 999, 1_000).is_none());
    let ctx2 = store.try_acquire_lease(1, 2, 1_000, 1_000).expect("lease expired");
    assert!(ctx2.execution_state().is_empty());
}

#[test]
fn checkpoint_is_durable_iff_committed() {
    let mut store = Store::new();
    store.create_job(1, String::from("cursor"), vec![], 0).unwrap();
    let mut ctx = store.try_acquire_lease(1, 1, 0, 1_000).unwrap();
    ctx.update_execution_state(vec![5]);
    ctx.commit_op(&mut store, 10).unwrap();
    assert_eq!(store.get_job(1).unwrap().execution_state, vec![5u8]);
    // A later staged update that never commits stays invisible.
    ctx.update_execution_state(vec![6]);
    drop(ctx);
    assert_eq!(store.get_job(1).unwrap().execution_state, vec![5u8]);
    // The next attempt reads the last committed checkpoint.
    let ctx2 = store.try_acquire_lease(1, 2, 1_000, 1_000).expect("expired");
    assert_eq!(ctx2.execution_state(), &vec![5u8]);
}

#[test]
fn settle_commits_staged_writes_with_outcome() {
    let mut store = Store::new();
    store.create_job(1, String::from("fanout"), vec![], 0).unwrap();
    let mut ctx = store.try_acquire_lease(1, 1, 0, 1_000).unwrap();
    ctx.update_execution_state(vec![9]);
    let op = ctx.op_mut();
    op.publish(vec![4]);
    op.create_job_in_op(&store, 2, String::from("child"), vec![8], 77).unwrap();
    let r = settle_attempt(&mut store, ctx, AttemptOutcome::Complete, &rs(), 30);
    assert_eq!(r, SettleResult::Settled { warn: false, fatal: false });
    let j = store.get_job(1).unwrap();
    assert_eq!(j.status, JobStatus::Completed);
    assert_eq!(j.execution_state, vec![9u8]);
    let child = store.get_job(2).unwrap();
    assert_eq!(child.job_type, String::from("child"));
    assert_eq!(child.config, vec![8u8]);
    assert_eq!(child.next_run_at, 77);
    let evs = store.next_events(0);
    assert_eq!(evs.len(), 1);
    assert_eq!(evs[0].payload, vec![4]);
    assert_eq!(evs[0].recorded_at, 30);
}

#[test]
fn duplicate_row_key_is_refused_at_staging() {
    let mut store = Store::new();
    let mut op = store.begin_op();
    op.insert_row(&store, 7, vec![1]).unwrap();
    assert_eq!(op.insert_row(&store, 7, vec![2]), Err(EngineError::DuplicateKey));
    store.commit_op(op, 0).unwrap();
    let mut op2 = store.begin_op();
    assert_eq!(op2.insert_row(&store, 7, vec![3]), Err(EngineError::DuplicateKey));
    assert!(op2.insert_row(&store, 8, vec![3]).is_ok());
}

#[test]
fn concurrent_commit_conflict_is_refused_atomically() {
    let mut store = Store::new();
    let mut a = store.begin_op();
    let mut b = store.begin_op();
    a.insert_row(&store, 7, vec![1]).unwrap();
    b.insert_row(&store, 7, vec![2]).unwrap();
    b.publish(vec![9]);
    store.commit_op(a, 0).unwrap();
    // The loser's whole unit is refused: no row, no event.
    assert_eq!(store.commit_op(b, 1), Err(EngineError::CommitConflict));
    assert_eq!(store.get_row(7).unwrap(), &vec![1u8]);
    assert_eq!(store.outbox_len(), 0);
}

#[test]
fn staged_child_job_id_collisions_are_refused() {
    let mut store = Store::new();
    store.create_job(1, String::from("t"), vec![], 0).unwrap();
    let mut op = store.begin_op();
    assert_eq!(
        op.create_job_in_op(&store, 1, String::from("t"), vec![], 0),
        Err(EngineError::JobIdInUse)
    );
    op.create_job_in_op(&store, 2, String::from("t"), vec![], 0).unwrap();
    assert_eq!(
        op.create_job_in_op(&store, 2, String::from("t"), vec![], 0),
        Err(EngineError::JobIdInUse)
    );
}

#[test]
fn stale_worker_commit_is_refused() {
    let mut store = Store::new();
    store.create_job(1, String::from("t"), vec![], 0).unwrap();
    let mut ctx1 = store.try_acquire_lease(1, 1, 0, 100).unwrap();
    ctx1.update_execution_state(vec![1]);
    // The lease expires and is reassigned; the stale worker's mid-run commit
    // must fail safely.
    let _ctx2 = store.try_acquire_lease(1, 2, 100, 100).expect("expired");
    assert_eq!(ctx1.commit_op(&mut store, 150), Err(EngineError::LostLease));
    assert_eq!(store.get_job(1).unwrap().execution_state, Vec::<u8>::new());
}

#[test]
fn duplicate_key_from_prior_attempt_is_treated_as_complete() {
    // Scenario: the first attempt commits its business row mid-run, then the
    // worker dies before settling. The retry hits the uniqueness conflict,
    // recognizes the work as already done, and reports Complete — no retry
    // loop.
    let mut store = Store::new();
    store.create_job(1, String::from("create-once"), vec![], 0).unwrap();
    {
        let mut ctx = store.try_acquire_lease(1, 1, 0, 1_000).unwrap();
        ctx.op_mut().insert_row(&store, 7, vec![1]).unwrap();
        ctx.commit_op(&mut store, 5).unwrap();
        // Killed before settling: the job stays Running until the lease
        // expires, but the row is durable.
    }
    assert_eq!(store.get_row(7).unwrap(), &vec![1u8]);
    let mut ctx = store.try_acquire_lease(1, 2, 1_000, 1_000).expect("expired");
    // The retry's business write reports the conflict…
    let outcome = match ctx.op_mut().insert_row(&store, 7, vec![1]) {
        Err(EngineError::DuplicateKey) => AttemptOutcome::Complete,
        Ok(()) => AttemptOutcome::RescheduleIn(0),
        Err(_) => AttemptOutcome::Errored,
    };
    // …and the body settles as Complete.
    let r = settle_attempt(&mut store, ctx, outcome, &rs(), 1_001);
    assert_eq!(r, SettleResult::Settled { warn: false, fatal: false });
    let j = store.get_job(1).unwrap();
    assert_eq!(j.status, JobStatus::Completed);
    assert!(store.poll_eligible(u64::MAX, 10).is_empty());
}
