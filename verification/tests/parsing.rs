use yq::scheduler::{scheduler_step, SchedulerAction, SCHEDULER_IDLE_SECS};
use yq::worker::{ack_step, worker_step, WorkerAck, WorkerAction};
use yq::{
    DequeueAction, DequeueAtAction, DequeueAtStatus, DequeueSleep, DequeueStatus, EnqueueAction,
    EnqueueAtAction, EnqueueAtStatus, EnqueueStatus, FinishAction, Queue, ReplyValue, ScriptArg,
    SleepOn, SleepOnAction, YqError, YqRunJobError,
};

fn data(s: &str) -> ReplyValue {
    ReplyValue::Data(s.to_string())
}

#[test]
fn dequeue_reply_handle_parses() {
    let reply = ReplyValue::Bulk(vec![data("handle"), data("12"), data("payload"), ReplyValue::Int(60000)]);
    match DequeueStatus::from_reply(&reply).unwrap() {
        DequeueStatus::Handle(h) => {
            assert_eq!(h.mid, 12);
            assert_eq!(h.mcontent, "payload");
            assert_eq!(h.lock_ms, 60000);
        },
        other => panic!("expected a handle, got {:?}", other),
    }
}

#[test]
fn dequeue_reply_sleep_parses() {
    let reply = ReplyValue::Bulk(vec![data("sleep"), data("empty"), data("a"), ReplyValue::Int(3)]);
    match DequeueStatus::from_reply(&reply).unwrap() {
        DequeueStatus::Sleep(s) => {
            assert_eq!(s.reason, "empty");
            assert_eq!(s.sleep_on, SleepOn::SleepOnA);
            assert_eq!(s.ndry_runs, 3);
        },
        other => panic!("expected a sleep, got {:?}", other),
    }
    let reply_b = ReplyValue::Bulk(vec![data("sleep"), data("empty"), data("b"), ReplyValue::Int(1)]);
    match DequeueStatus::from_reply(&reply_b).unwrap() {
        DequeueStatus::Sleep(s) => assert_eq!(s.sleep_on, SleepOn::SleepOnB),
        other => panic!("expected a sleep, got {:?}", other),
    }
}

#[test]
fn dequeue_reply_skip_parses() {
    let reply = ReplyValue::Bulk(vec![data("skip"), data("locked"), data("7")]);
    match DequeueStatus::from_reply(&reply).unwrap() {
        DequeueStatus::Skip(k) => {
            assert_eq!(k.reason, "locked");
            assert_eq!(k.mid, "7");
        },
        other => panic!("expected a skip, got {:?}", other),
    }
}

#[test]
fn dequeue_reply_unknown_tag_parses_as_unknown() {
    let reply = ReplyValue::Bulk(vec![data("surprise")]);
    assert!(matches!(
        DequeueStatus::from_reply(&reply).unwrap(),
        DequeueStatus::Unknown(t) if t == "surprise"
    ));
}

#[test]
fn dequeue_reply_bad_shapes_are_rejected() {
    // not an array at all
    assert!(DequeueStatus::from_reply(&ReplyValue::Int(1)).is_err());
    // missing fields
    assert!(DequeueStatus::from_reply(&ReplyValue::Bulk(vec![data("sleep")])).is_err());
    // an integer where a datum is expected
    assert!(DequeueStatus::from_reply(&ReplyValue::Bulk(vec![ReplyValue::Int(0)])).is_err());
    // a mid that is not a number
    let bad_mid = ReplyValue::Bulk(vec![data("handle"), data("x9"), data("c"), ReplyValue::Int(1)]);
    assert!(DequeueStatus::from_reply(&bad_mid).is_err());
    // a dry-run count that is not an integer
    let bad_ndry = ReplyValue::Bulk(vec![data("sleep"), data("r"), data("a"), data("3")]);
    assert!(DequeueStatus::from_reply(&bad_ndry).is_err());
}

#[test]
fn enqueue_reply_parses() {
    let reply = ReplyValue::Bulk(vec![data("added"), data("a"), ReplyValue::Int(7)]);
    match EnqueueStatus::from_reply(&reply).unwrap() {
        EnqueueStatus::Added(a) => assert_eq!(a.mid, 7),
        other => panic!("expected added, got {:?}", other),
    }
    let odd = ReplyValue::Bulk(vec![data("nope")]);
    assert!(matches!(
        EnqueueStatus::from_reply(&odd).unwrap(),
        EnqueueStatus::Unknown(t) if t == "nope"
    ));
    assert!(EnqueueStatus::from_reply(&ReplyValue::Bulk(vec![data("added")])).is_err());
}

#[test]
fn enqueue_at_reply_parses() {
    let reply = ReplyValue::Bulk(vec![data("added"), ReplyValue::Int(9)]);
    assert!(matches!(
        EnqueueAtStatus::from_reply(&reply).unwrap(),
        EnqueueAtStatus::Added(9)
    ));
    assert!(EnqueueAtStatus::from_reply(&ReplyValue::Bulk(vec![data("added"), data("9")])).is_err());
}

#[test]
fn dequeue_at_reply_parses() {
    let dequeued = ReplyValue::Bulk(vec![data("dequeued"), ReplyValue::Int(3)]);
    assert!(matches!(
        DequeueAtStatus::from_reply(&dequeued).unwrap(),
        DequeueAtStatus::Dequeued(3)
    ));
    let nojob = ReplyValue::Bulk(vec![data("no-job")]);
    assert!(matches!(DequeueAtStatus::from_reply(&nojob).unwrap(), DequeueAtStatus::NoJob));
    let odd = ReplyValue::Bulk(vec![data("???")]);
    assert!(matches!(
        DequeueAtStatus::from_reply(&odd).unwrap(),
        DequeueAtStatus::Unknown(t) if t == "???"
    ));
}

#[test]
fn dequeue_call_names_its_keys_in_order() {
    let action = DequeueAction::new(Queue::default());
    let call = action.prepare_invoke(1700000000);
    let keys: Vec<&str> = call.keys.iter().map(|k| k.as_str()).collect();
    assert_eq!(
        keys,
        vec![
            "yq:0:messages",
            "yq:0:lock-times",
            "yq:0:locks",
            "yq:0:done",
            "yq:0:mids-ready",
            "yq:0:mid-circle",
            "yq:0:ndry-runs",
            "yq:0:isleep-b",
        ]
    );
    assert_eq!(
        call.args,
        vec![ScriptArg::Int(1700000000 * 1000), ScriptArg::Int(3600)]
    );
}

#[test]
fn enqueue_call_names_its_keys_in_order() {
    let action = EnqueueAction::new(Queue::default());
    let call = action.prepare_invoke("5:MyJob{}".to_string(), -1);
    let keys: Vec<&str> = call.keys.iter().map(|k| k.as_str()).collect();
    assert_eq!(
        keys,
        vec![
            "yq:0:mid-seq",
            "yq:0:messages",
            "yq:0:lock-times",
            "yq:0:mids-ready",
            "yq:0:mid-circle",
            "yq:0:isleep-a",
            "yq:0:isleep-b",
        ]
    );
    assert_eq!(
        call.args,
        vec![ScriptArg::Str("5:MyJob{}".to_string()), ScriptArg::Int(-1)]
    );
}

#[test]
fn enqueue_at_call_names_its_keys_in_order() {
    let action = EnqueueAtAction::new(Queue::default());
    let call = action.prepare_invoke("3:Job{}".to_string(), 1700000123);
    let keys: Vec<&str> = call.keys.iter().map(|k| k.as_str()).collect();
    assert_eq!(keys, vec!["yq:0:mid-seq", "yq:0:messages", "yq:schedule"]);
    assert_eq!(
        call.args,
        vec![ScriptArg::Str("3:Job{}".to_string()), ScriptArg::Int(1700000123)]
    );
}

#[test]
fn dequeue_at_call_names_its_keys_in_order() {
    let action = DequeueAtAction::new(Queue::default());
    let call = action.prepare_invoke(1700000456);
    let keys: Vec<&str> = call.keys.iter().map(|k| k.as_str()).collect();
    assert_eq!(keys, vec!["yq:0:mids-ready", "yq:0:mid-circle", "yq:schedule"]);
    assert_eq!(call.args, vec![ScriptArg::Int(1700000456)]);
}

#[test]
fn finish_and_sleep_commands_build() {
    let finish = FinishAction::new(Queue::default());
    let cmd = finish.prepare_invoke(12);
    assert_eq!(cmd.args_iter().count(), 3);

    let sleeper = SleepOnAction::new(Queue::default());
    let sleep = DequeueSleep::default();
    let cmd = sleeper.prepare_invoke(sleep);
    assert_eq!(cmd.args_iter().count(), 4);
}

#[test]
fn worker_follows_the_dequeue_status() {
    let sleep = DequeueStatus::Sleep(DequeueSleep::default());
    assert!(matches!(worker_step(sleep), WorkerAction::Sleep(_)));

    let handle = ReplyValue::Bulk(vec![data("handle"), data("4"), data("body"), ReplyValue::Int(1)]);
    let status = DequeueStatus::from_reply(&handle).unwrap();
    match worker_step(status) {
        WorkerAction::Run { mid, mcontent } => {
            assert_eq!(mid, 4);
            assert_eq!(mcontent, "body");
        },
        other => panic!("expected run, got {:?}", other),
    }

    let skip = ReplyValue::Bulk(vec![data("skip"), data("done"), data("4")]);
    let status = DequeueStatus::from_reply(&skip).unwrap();
    assert!(matches!(worker_step(status), WorkerAction::Retry));

    // an unrecognized reply is recoverable: the worker rests the short
    // default backoff, with the tag carried as the reason to log
    let unknown = DequeueStatus::Unknown("garbled".to_string());
    match worker_step(unknown) {
        WorkerAction::Sleep(s) => {
            assert_eq!(s.reason, "garbled");
            assert_eq!(s.sleep_on, SleepOn::SleepOnA);
            assert_eq!(s.ndry_runs, 1);
        },
        other => panic!("expected a recoverable sleep, got {:?}", other),
    }
}

#[test]
fn acknowledgement_routes_success_and_failure() {
    assert!(matches!(ack_step(5, Ok(())), WorkerAck::Finish { mid: 5 }));

    let handler_err = YqError::RunJobError(YqRunJobError::new(
        "{\"x\":1}".to_string(),
        "boom".to_string(),
    ));
    match ack_step(5, Err(handler_err)) {
        WorkerAck::Fail { mid, job_data, error } => {
            assert_eq!(mid, 5);
            assert_eq!(job_data, Some("{\"x\":1}".to_string()));
            assert_eq!(error, "boom");
        },
        other => panic!("expected fail, got {:?}", other),
    }

    // a dispatch-layer error carries no job data to preserve
    match ack_step(6, Err(YqError::JobTypeMissing("Missing".to_string()))) {
        WorkerAck::Fail { mid, job_data, error } => {
            assert_eq!(mid, 6);
            assert_eq!(job_data, None);
            assert_eq!(error, "JobTypeMissing");
        },
        other => panic!("expected fail, got {:?}", other),
    }
}

#[test]
fn scheduler_polls_and_rests() {
    assert_eq!(scheduler_step(&DequeueAtStatus::Dequeued(2)), SchedulerAction::PollAgain);
    assert_eq!(
        scheduler_step(&DequeueAtStatus::NoJob),
        SchedulerAction::SleepSecs(SCHEDULER_IDLE_SECS)
    );
    assert_eq!(
        scheduler_step(&DequeueAtStatus::Unknown("odd".to_string())),
        SchedulerAction::SleepSecs(10)
    );
}

#[test]
fn sleep_defaults_and_channel_tags() {
    let d = DequeueSleep::default();
    assert_eq!(d.reason, "");
    assert_eq!(d.sleep_on, SleepOn::SleepOnA);
    assert_eq!(d.ndry_runs, 1);
    assert_eq!(SleepOn::from_tag("a"), SleepOn::SleepOnA);
    assert_eq!(SleepOn::from_tag("b"), SleepOn::SleepOnB);
    assert_eq!(SleepOn::from_tag("anything"), SleepOn::SleepOnB);
}

#[test]
fn error_kinds_describe_themselves() {
    assert_eq!(YqError::Dequeue("io".to_string()).describe(), "Dequeue");
    assert_eq!(
        YqError::RunJobError(YqRunJobError::new("d".to_string(), "e".to_string())).describe(),
        "RunJobError"
    );
    assert_eq!(YqError::InvalidJobData("x".to_string()).describe(), "InvalidJobData");
}
