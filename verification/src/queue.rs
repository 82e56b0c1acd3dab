//! A queue's identity and the precomputed names of its structures.
use crate::redis_keys;
use vstd::prelude::*;

verus! {

/// Prefix of the default queue.
pub const DEFAULT_PREFIX: &'static str = "yq";

/// Name of the default queue.
pub const DEFAULT_QUEUE: &'static str = "0";

/// Lock duration (ms) used when a job carries no override.
pub const DEFAULT_LOCK_MS: i64 = 60 * 60;

/// A queue scoped to `(prefix, queue_name)`, carrying the names of all of
/// its structures so that operations need not rebuild them.
#[derive(Clone)]
pub struct Queue {
    pub queue_name: String,
    pub default_lock_ms: i64,
    pub mid_seq_key: String,
    pub messages_key: String,
    pub lock_times_key: String,
    pub locks_key: String,
    pub done_key: String,
    pub err_messages_key: String,
    pub err_key: String,
    pub mids_ready_key: String,
    pub mid_circle_key: String,
    pub ndry_runs_key: String,
    pub isleep_a_key: String,
    pub isleep_b_key: String,
    pub schedule_key: String,
}

/// All key fields of `q` are the key-space names for `(prefix, name)`.
pub open spec fn queue_keys_for(q: Queue, prefix: Seq<char>, name: Seq<char>) -> bool {
    &&& q.queue_name@ == name
    &&& q.default_lock_ms == DEFAULT_LOCK_MS
    &&& q.mid_seq_key@ == redis_keys::spec_queue_key(prefix, name, "mid-seq"@)
    &&& q.messages_key@ == redis_keys::spec_queue_key(prefix, name, "messages"@)
    &&& q.lock_times_key@ == redis_keys::spec_queue_key(prefix, name, "lock-times"@)
    &&& q.locks_key@ == redis_keys::spec_queue_key(prefix, name, "locks"@)
    &&& q.done_key@ == redis_keys::spec_queue_key(prefix, name, "done"@)
    &&& q.err_messages_key@ == redis_keys::spec_queue_key(prefix, name, "err-msgs"@)
    &&& q.err_key@ == redis_keys::spec_queue_key(prefix, name, "err"@)
    &&& q.mids_ready_key@ == redis_keys::spec_queue_key(prefix, name, "mids-ready"@)
    &&& q.mid_circle_key@ == redis_keys::spec_queue_key(prefix, name, "mid-circle"@)
    &&& q.ndry_runs_key@ == redis_keys::spec_queue_key(prefix, name, "ndry-runs"@)
    &&& q.isleep_a_key@ == redis_keys::spec_queue_key(prefix, name, "isleep-a"@)
    &&& q.isleep_b_key@ == redis_keys::spec_queue_key(prefix, name, "isleep-b"@)
    &&& q.schedule_key@ == redis_keys::spec_prefix_key(prefix, "schedule"@)
}

impl Queue {
    pub fn new(prefix: &str, queue_name: &str) -> (q: Queue)
        ensures
            queue_keys_for(q, prefix@, queue_name@),
    {
        Queue {
            queue_name: queue_name.to_owned(),
            default_lock_ms: DEFAULT_LOCK_MS,
            mid_seq_key: redis_keys::mid_seq_key(prefix, queue_name),
            messages_key: redis_keys::messages_key(prefix, queue_name),
            lock_times_key: redis_keys::lock_times_key(prefix, queue_name),
            locks_key: redis_keys::locks_key(prefix, queue_name),
            done_key: redis_keys::done_key(prefix, queue_name),
            err_messages_key: redis_keys::err_messages_key(prefix, queue_name),
            err_key: redis_keys::err_key(prefix, queue_name),
            mids_ready_key: redis_keys::mids_ready_key(prefix, queue_name),
            mid_circle_key: redis_keys::mid_circle_key(prefix, queue_name),
            ndry_runs_key: redis_keys::ndry_runs_key(prefix, queue_name),
            isleep_a_key: redis_keys::isleep_a_key(prefix, queue_name),
            isleep_b_key: redis_keys::isleep_b_key(prefix, queue_name),
            schedule_key: redis_keys::schedule_key(prefix),
        }
    }
}

impl Default for Queue {
    /// The default queue: prefix `yq`, queue name `0`.
    fn default() -> (q: Queue)
        ensures
            queue_keys_for(q, DEFAULT_PREFIX@, DEFAULT_QUEUE@),
    {
        Queue::new(DEFAULT_PREFIX, DEFAULT_QUEUE)
    }
}

} // verus!
