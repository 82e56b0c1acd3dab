use yq::redis_keys;
use yq::Queue;

#[test]
fn key_names_for_default_queue() {
    assert_eq!(redis_keys::mid_seq_key("yq", "0"), "yq:0:mid-seq");
    assert_eq!(redis_keys::messages_key("yq", "0"), "yq:0:messages");
    assert_eq!(redis_keys::lock_times_key("yq", "0"), "yq:0:lock-times");
    assert_eq!(redis_keys::locks_key("yq", "0"), "yq:0:locks");
    assert_eq!(redis_keys::err_messages_key("yq", "0"), "yq:0:err-msgs");
    assert_eq!(redis_keys::err_key("yq", "0"), "yq:0:err");
    assert_eq!(redis_keys::done_key("yq", "0"), "yq:0:done");
    assert_eq!(redis_keys::mids_ready_key("yq", "0"), "yq:0:mids-ready");
    assert_eq!(redis_keys::mid_circle_key("yq", "0"), "yq:0:mid-circle");
    assert_eq!(redis_keys::ndry_runs_key("yq", "0"), "yq:0:ndry-runs");
    assert_eq!(redis_keys::isleep_a_key("yq", "0"), "yq:0:isleep-a");
    assert_eq!(redis_keys::isleep_b_key("yq", "0"), "yq:0:isleep-b");
    assert_eq!(redis_keys::schedule_key("yq"), "yq:schedule");
}

#[test]
fn key_names_scope_to_prefix_and_queue() {
    assert_eq!(redis_keys::mid_seq_key("jobs", "high"), "jobs:high:mid-seq");
    assert_eq!(redis_keys::schedule_key("jobs"), "jobs:schedule");
}

#[test]
fn default_queue_carries_precomputed_keys() {
    let q = Queue::default();
    assert_eq!(q.queue_name, "0");
    assert_eq!(q.default_lock_ms, 3600);
    assert_eq!(q.mid_seq_key, "yq:0:mid-seq");
    assert_eq!(q.messages_key, "yq:0:messages");
    assert_eq!(q.lock_times_key, "yq:0:lock-times");
    assert_eq!(q.locks_key, "yq:0:locks");
    assert_eq!(q.done_key, "yq:0:done");
    assert_eq!(q.err_messages_key, "yq:0:err-msgs");
    assert_eq!(q.err_key, "yq:0:err");
    assert_eq!(q.mids_ready_key, "yq:0:mids-ready");
    assert_eq!(q.mid_circle_key, "yq:0:mid-circle");
    assert_eq!(q.ndry_runs_key, "yq:0:ndry-runs");
    assert_eq!(q.isleep_a_key, "yq:0:isleep-a");
    assert_eq!(q.isleep_b_key, "yq:0:isleep-b");
    assert_eq!(q.schedule_key, "yq:schedule");
}

#[test]
fn custom_queue_carries_its_own_keys() {
    let q = Queue::new("jobs", "mail");
    assert_eq!(q.queue_name, "mail");
    assert_eq!(q.messages_key, "jobs:mail:messages");
    assert_eq!(q.schedule_key, "jobs:schedule");
}
