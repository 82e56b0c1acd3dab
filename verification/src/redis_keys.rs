//! Deterministic naming of every store structure used by a queue.
//!
//! All structures of a queue live under `{prefix}:{queue_name}:...`; the
//! schedule of delayed jobs is shared by the whole prefix and is not scoped
//! to a queue name.
use vstd::prelude::*;
use vstd::string::StringExecFns;

verus! {

/// The name of a structure scoped to one queue: `{prefix}:{name}:{suffix}`.
pub open spec fn spec_queue_key(prefix: Seq<char>, name: Seq<char>, suffix: Seq<char>) -> Seq<
    char,
> {
    prefix + ":"@ + name + ":"@ + suffix
}

/// The name of a structure scoped to the whole prefix: `{prefix}:{suffix}`.
pub open spec fn spec_prefix_key(prefix: Seq<char>, suffix: Seq<char>) -> Seq<char> {
    prefix + ":"@ + suffix
}

fn queue_key(prefix: &str, queue_name: &str, suffix: &str) -> (key: String)
    ensures
        key@ == spec_queue_key(prefix@, queue_name@, suffix@),
{
    let mut key = prefix.to_owned();
    key.append(":");
    key.append(queue_name);
    key.append(":");
    key.append(suffix);
    key
}

// mid-seq       - int: the per-queue counter that assigns mids
pub fn mid_seq_key(prefix: &str, queue_name: &str) -> (key: String)
    ensures
        key@ == spec_queue_key(prefix@, queue_name@, "mid-seq"@),
{
    queue_key(prefix, queue_name, "mid-seq")
}

// messages      - hash: {mid mcontent} ; message content
pub fn messages_key(prefix: &str, queue_name: &str) -> (key: String)
    ensures
        key@ == spec_queue_key(prefix@, queue_name@, "messages"@),
{
    queue_key(prefix, queue_name, "messages")
}

// lock-times    - hash: {mid lock-ms}  ; optional mid-specific lock duration
pub fn lock_times_key(prefix: &str, queue_name: &str) -> (key: String)
    ensures
        key@ == spec_queue_key(prefix@, queue_name@, "lock-times"@),
{
    queue_key(prefix, queue_name, "lock-times")
}

// locks         - hash: {mid lock-expiry-time} ; active locks
pub fn locks_key(prefix: &str, queue_name: &str) -> (key: String)
    ensures
        key@ == spec_queue_key(prefix@, queue_name@, "locks"@),
{
    queue_key(prefix, queue_name, "locks")
}

// err-msgs      - hash: {mid mcontent} ; content of failed jobs
pub fn err_messages_key(prefix: &str, queue_name: &str) -> (key: String)
    ensures
        key@ == spec_queue_key(prefix@, queue_name@, "err-msgs"@),
{
    queue_key(prefix, queue_name, "err-msgs")
}

// err           - hash: {mid error} ; failure bookkeeping, awaiting gc, etc.
pub fn err_key(prefix: &str, queue_name: &str) -> (key: String)
    ensures
        key@ == spec_queue_key(prefix@, queue_name@, "err"@),
{
    queue_key(prefix, queue_name, "err")
}

// done          - mid set: awaiting gc, etc.
pub fn done_key(prefix: &str, queue_name: &str) -> (key: String)
    ensures
        key@ == spec_queue_key(prefix@, queue_name@, "done"@),
{
    queue_key(prefix, queue_name, "done")
}

// mids-ready    - list: mids for immediate handling     (push to left, pop from right)
pub fn mids_ready_key(prefix: &str, queue_name: &str) -> (key: String)
    ensures
        key@ == spec_queue_key(prefix@, queue_name@, "mids-ready"@),
{
    queue_key(prefix, queue_name, "mids-ready")
}

// mid-circle    - list: mids for maintenance processing (push to left, pop from right)
pub fn mid_circle_key(prefix: &str, queue_name: &str) -> (key: String)
    ensures
        key@ == spec_queue_key(prefix@, queue_name@, "mid-circle"@),
{
    queue_key(prefix, queue_name, "mid-circle")
}

// ndry-runs     - int: num times worker(s) have lapped the queue w/o work to do
pub fn ndry_runs_key(prefix: &str, queue_name: &str) -> (key: String)
    ensures
        key@ == spec_queue_key(prefix@, queue_name@, "ndry-runs"@),
{
    queue_key(prefix, queue_name, "ndry-runs")
}

// isleep-a      - list: 0/1 sentinel element for `interruptible-sleep`
pub fn isleep_a_key(prefix: &str, queue_name: &str) -> (key: String)
    ensures
        key@ == spec_queue_key(prefix@, queue_name@, "isleep-a"@),
{
    queue_key(prefix, queue_name, "isleep-a")
}

// isleep-b      - list: 0/1 sentinel element for `interruptible-sleep`
pub fn isleep_b_key(prefix: &str, queue_name: &str) -> (key: String)
    ensures
        key@ == spec_queue_key(prefix@, queue_name@, "isleep-b"@),
{
    queue_key(prefix, queue_name, "isleep-b")
}

// schedule      - sorted by run-at: delayed jobs of the whole prefix
pub fn schedule_key(prefix: &str) -> (key: String)
    ensures
        key@ == spec_prefix_key(prefix@, "schedule"@),
{
    let mut key = prefix.to_owned();
    key.append(":");
    key.append("schedule");
    key
}

} // verus!
