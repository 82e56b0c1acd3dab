use yq::dequeue::sleep_secs;
use yq::{DequeueAtStatus, DequeueStatus, SleepOn, Store};

const DEFAULT_LOCK_MS: i64 = 3600;

fn handle_of(status: DequeueStatus) -> (i64, String) {
    match status {
        DequeueStatus::Handle(h) => (h.mid, h.mcontent),
        other => panic!("expected a handle, got {:?}", other),
    }
}

#[test]
fn backoff_timeouts() {
    assert_eq!(sleep_secs(0), 1);
    assert_eq!(sleep_secs(1), 3);
    assert_eq!(sleep_secs(5), 15);
    assert_eq!(sleep_secs(7), 18);
    assert_eq!(sleep_secs(20), 18);
    assert_eq!(sleep_secs(-3), 1);
    assert_eq!(sleep_secs(6), 18);
}

#[test]
fn mids_are_distinct_and_increasing() {
    let mut store = Store::new();
    let m1 = store.enqueue("job-1".to_string(), -1);
    let m2 = store.enqueue("job-2".to_string(), -1);
    let m3 = store.enqueue_at("job-3".to_string(), 500);
    let m4 = store.enqueue("job-4".to_string(), -1);
    assert!(m1 < m2 && m2 < m3 && m3 < m4);
}

#[test]
fn three_jobs_dequeue_in_order_then_sleep() {
    let mut store = Store::new();
    store.enqueue("job-1".to_string(), -1);
    store.enqueue("job-2".to_string(), -1);
    store.enqueue("job-3".to_string(), -1);
    let now: i64 = 0;
    let (m1, c1) = handle_of(store.dequeue(now, DEFAULT_LOCK_MS));
    let (m2, c2) = handle_of(store.dequeue(now, DEFAULT_LOCK_MS));
    let (m3, c3) = handle_of(store.dequeue(now, DEFAULT_LOCK_MS));
    assert_eq!(c1, "job-1");
    assert_eq!(c2, "job-2");
    assert_eq!(c3, "job-3");
    // acknowledge all three; the maintenance sweep then drains their
    // circle entries one by one
    store.finish(m1);
    store.finish(m2);
    store.finish(m3);
    for _ in 0..3 {
        assert!(matches!(store.dequeue(now, DEFAULT_LOCK_MS), DequeueStatus::Skip(_)));
    }
    // with the ready list and the circle both empty, the fourth real
    // attempt reports one dry run
    match store.dequeue(now, DEFAULT_LOCK_MS) {
        DequeueStatus::Sleep(s) => {
            assert_eq!(s.ndry_runs, 1);
            assert_eq!(s.sleep_on, SleepOn::SleepOnA);
        },
        other => panic!("expected sleep, got {:?}", other),
    }
}

#[test]
fn scheduled_job_invisible_until_promoted() {
    let mut store = Store::new();
    let now: i64 = 100;
    store.enqueue_at("later".to_string(), now + 10);
    assert!(matches!(store.promote_due(now), DequeueAtStatus::NoJob));
    // before promotion the job is invisible to workers
    assert!(matches!(store.dequeue(now, DEFAULT_LOCK_MS), DequeueStatus::Sleep(_)));
    match store.promote_due(now + 10) {
        DequeueAtStatus::Dequeued(n) => assert_eq!(n, 1),
        other => panic!("expected a promotion, got {:?}", other),
    }
    let (_, content) = handle_of(store.dequeue(now, DEFAULT_LOCK_MS));
    assert_eq!(content, "later");
}

#[test]
fn two_due_jobs_promote_together() {
    let mut store = Store::new();
    let run_at: i64 = 500;
    store.enqueue_at("first".to_string(), run_at);
    store.enqueue_at("second".to_string(), run_at);
    match store.promote_due(run_at) {
        DequeueAtStatus::Dequeued(n) => assert_eq!(n, 2),
        other => panic!("expected a promotion, got {:?}", other),
    }
    let (_, c1) = handle_of(store.dequeue(run_at, DEFAULT_LOCK_MS));
    let (_, c2) = handle_of(store.dequeue(run_at, DEFAULT_LOCK_MS));
    assert_eq!(c1, "first");
    assert_eq!(c2, "second");
}

#[test]
fn schedule_promotes_in_run_at_order() {
    let mut store = Store::new();
    store.enqueue_at("late".to_string(), 300);
    store.enqueue_at("early".to_string(), 100);
    match store.promote_due(400) {
        DequeueAtStatus::Dequeued(n) => assert_eq!(n, 2),
        other => panic!("expected a promotion, got {:?}", other),
    }
    let (_, c1) = handle_of(store.dequeue(400, DEFAULT_LOCK_MS));
    assert_eq!(c1, "early");
}

#[test]
fn live_lock_blocks_a_second_claim() {
    let mut store = Store::new();
    store.enqueue("only".to_string(), -1);
    let (mid, _) = handle_of(store.dequeue(0, DEFAULT_LOCK_MS));
    // while the lock is live, the sweep only rotates the circle
    match store.dequeue(DEFAULT_LOCK_MS - 1, DEFAULT_LOCK_MS) {
        DequeueStatus::Skip(k) => {
            assert_eq!(k.reason, "locked");
            assert_eq!(k.mid, mid.to_string());
        },
        other => panic!("expected a skip, got {:?}", other),
    }
}

#[test]
fn expired_lock_is_redelivered() {
    let mut store = Store::new();
    store.enqueue("crashed".to_string(), -1);
    let (mid, _) = handle_of(store.dequeue(0, DEFAULT_LOCK_MS));
    // the worker never acknowledges; once the lock has run out the sweep
    // hands the job to someone else
    let (mid2, content) = handle_of(store.dequeue(DEFAULT_LOCK_MS, DEFAULT_LOCK_MS));
    assert_eq!(mid2, mid);
    assert_eq!(content, "crashed");
    // and it is claimed again, under a fresh lock
    assert!(matches!(
        store.dequeue(DEFAULT_LOCK_MS + 1, DEFAULT_LOCK_MS),
        DequeueStatus::Skip(_)
    ));
}

#[test]
fn per_job_lock_override_wins() {
    let mut store = Store::new();
    store.enqueue("quick".to_string(), 500);
    match store.dequeue(0, DEFAULT_LOCK_MS) {
        DequeueStatus::Handle(h) => assert_eq!(h.lock_ms, 500),
        other => panic!("expected a handle, got {:?}", other),
    }
    // the override, not the queue default, bounds the redelivery delay
    let (_, content) = handle_of(store.dequeue(500, DEFAULT_LOCK_MS));
    assert_eq!(content, "quick");
}

#[test]
fn finished_job_is_never_reoffered() {
    let mut store = Store::new();
    store.enqueue("done-once".to_string(), -1);
    let (mid, _) = handle_of(store.dequeue(0, DEFAULT_LOCK_MS));
    // the set insert replies one on the first finish, zero on a repeat
    assert!(store.finish(mid));
    assert!(!store.finish(mid));
    // long after the lock expired, the sweep drops it instead of
    // re-offering it
    match store.dequeue(DEFAULT_LOCK_MS * 10, DEFAULT_LOCK_MS) {
        DequeueStatus::Skip(k) => {
            assert_eq!(k.reason, "done");
            assert_eq!(k.mid, mid.to_string());
        },
        other => panic!("expected a skip, got {:?}", other),
    }
    // its circle entry is gone for good
    assert!(matches!(
        store.dequeue(DEFAULT_LOCK_MS * 10, DEFAULT_LOCK_MS),
        DequeueStatus::Sleep(_)
    ));
}

#[test]
fn failure_bookkeeping_records_data_and_error() {
    let mut store = Store::new();
    store.enqueue("will-fail".to_string(), -1);
    let (mid, content) = handle_of(store.dequeue(0, DEFAULT_LOCK_MS));
    store.fail(mid, Some(content), "handler exploded".to_string());
    assert_eq!(store.err_of(mid).unwrap(), "handler exploded");
    assert_eq!(store.err_message_of(mid).unwrap(), "will-fail");
    assert!(store.err_of(mid + 1).is_none());
}

#[test]
fn failure_without_content_leaves_the_content_map_alone() {
    let mut store = Store::new();
    store.enqueue("opaque".to_string(), -1);
    let (mid, _) = handle_of(store.dequeue(0, DEFAULT_LOCK_MS));
    // a dispatch-layer error carries no job data: only the error is kept
    store.fail(mid, None, "JobTypeMissing".to_string());
    assert_eq!(store.err_of(mid).unwrap(), "JobTypeMissing");
    assert!(store.err_message_of(mid).is_none());
}

#[test]
fn enqueue_wakes_one_parked_worker() {
    let mut store = Store::new();
    // a worker parks on the first channel; an enqueue drops a token there
    store.sleep_begin(SleepOn::SleepOnA);
    store.enqueue("wake-up".to_string(), -1);
    let woke = store.sleep_finish(SleepOn::SleepOnA);
    assert_eq!(woke, Some("1".to_string()));
    // the token was relayed to the opposite channel, not consumed: the
    // next sleeper there is woken by the same hand-off
    store.sleep_begin(SleepOn::SleepOnB);
    let woke2 = store.sleep_finish(SleepOn::SleepOnB);
    assert_eq!(woke2, Some("1".to_string()));
}

#[test]
fn sleeper_times_out_without_token() {
    let mut store = Store::new();
    store.sleep_begin(SleepOn::SleepOnB);
    assert_eq!(store.sleep_finish(SleepOn::SleepOnB), None);
}

#[test]
fn empty_attempts_alternate_channels() {
    let mut store = Store::new();
    let s1 = match store.dequeue(0, DEFAULT_LOCK_MS) {
        DequeueStatus::Sleep(s) => s,
        other => panic!("expected sleep, got {:?}", other),
    };
    let s2 = match store.dequeue(0, DEFAULT_LOCK_MS) {
        DequeueStatus::Sleep(s) => s,
        other => panic!("expected sleep, got {:?}", other),
    };
    assert_eq!(s1.ndry_runs, 1);
    assert_eq!(s2.ndry_runs, 2);
    assert_eq!(s1.sleep_on, SleepOn::SleepOnA);
    assert_eq!(s2.sleep_on, SleepOn::SleepOnB);
}

#[test]
fn claim_resets_dry_runs() {
    let mut store = Store::new();
    assert!(matches!(store.dequeue(0, DEFAULT_LOCK_MS), DequeueStatus::Sleep(_)));
    assert!(matches!(store.dequeue(0, DEFAULT_LOCK_MS), DequeueStatus::Sleep(_)));
    store.enqueue("work".to_string(), -1);
    handle_of(store.dequeue(0, DEFAULT_LOCK_MS));
    store.enqueue("more".to_string(), -1);
    handle_of(store.dequeue(0, DEFAULT_LOCK_MS));
    // the counter started over after the successful claims
    let (m1, _) = handle_of(store.dequeue(DEFAULT_LOCK_MS * 2, DEFAULT_LOCK_MS));
    store.finish(m1);
    let (m2, _) = handle_of(store.dequeue(DEFAULT_LOCK_MS * 2, DEFAULT_LOCK_MS));
    store.finish(m2);
    assert!(matches!(
        store.dequeue(DEFAULT_LOCK_MS * 2, DEFAULT_LOCK_MS),
        DequeueStatus::Skip(_)
    ));
    assert!(matches!(
        store.dequeue(DEFAULT_LOCK_MS * 2, DEFAULT_LOCK_MS),
        DequeueStatus::Skip(_)
    ));
    match store.dequeue(DEFAULT_LOCK_MS * 2, DEFAULT_LOCK_MS) {
        DequeueStatus::Sleep(s) => assert_eq!(s.ndry_runs, 1),
        other => panic!("expected sleep, got {:?}", other),
    }
}
