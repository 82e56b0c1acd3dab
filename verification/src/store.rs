//! The atomic store, modeled: every structure of one queue, and the
//! protocol's operations on them, each executing indivisibly.
//!
//! The deployed system keeps these structures in a remote key-addressable
//! store and runs each operation as one atomically applied server-side
//! script; correctness rests solely on that atomicity.  This module holds
//! the operations themselves — the enqueue/dequeue/finish/wake state
//! machine, the maintenance sweep, and the delayed-job schedule — over an
//! in-process image of the key space, so that each one is a verified
//! function of the store state.  A deployment provides the transport and
//! the atomicity; the semantics live here.
use crate::dequeue::{DequeueHandle, DequeueSkip, DequeueSleep, DequeueStatus, SleepOn};
use crate::dequeue_at::DequeueAtStatus;
use crate::helper::fmt_u64;
use crate::helper::spec_digits;
use std::collections::HashMap;
use std::collections::HashSet;
use vstd::prelude::*;

verus! {

broadcast use vstd::std_specs::hash::group_hash_axioms;

/// Upper bound on any lock duration (one year in milliseconds), so that a
/// lock expiry `now + duration` never leaves the range of its integer type.
pub const MAX_LOCK_MS: i64 = 31_536_000_000;

/// Latest instant (ms) the protocol accepts as `now`, leaving room for the
/// largest lock duration.
pub const MAX_NOW_MS: i64 = i64::MAX - MAX_LOCK_MS;

/// The abstract contents of one queue's key space.
#[verifier::ext_equal]
pub ghost struct StoreView {
    /// Last mid the counter assigned; zero when none yet.
    pub mid_seq: i64,
    /// Durable job payloads, by mid.
    pub messages: Map<i64, String>,
    /// Per-job lock-duration overrides, by mid.
    pub lock_times: Map<i64, i64>,
    /// Lock expiry timestamps (ms) of claimed jobs, by mid.
    pub locks: Map<i64, i64>,
    /// Fresh jobs awaiting first claim; index 0 is popped next.
    pub mids_ready: Seq<i64>,
    /// Every unfinished job, revisited round-robin; index 0 is popped next.
    pub mid_circle: Seq<i64>,
    /// Terminal success markers.
    pub done: Set<i64>,
    /// Error descriptions of failed jobs, by mid.
    pub err: Map<i64, String>,
    /// Contents of failed jobs, by mid.
    pub err_messages: Map<i64, String>,
    /// Consecutive dequeue attempts that found no claimable work.
    pub ndry_runs: i64,
    /// First wake-relay channel.
    pub isleep_a: Seq<Seq<char>>,
    /// Second wake-relay channel.
    pub isleep_b: Seq<Seq<char>>,
    /// Workers currently parked on the first channel.
    pub waiters_a: u32,
    /// Workers currently parked on the second channel.
    pub waiters_b: u32,
    /// Delayed jobs as `(mid, run_at)`, ordered by `run_at`.
    pub schedule: Seq<(i64, i64)>,
}

/// The mids held by the schedule, in order.
pub open spec fn sched_mids(schedule: Seq<(i64, i64)>) -> Seq<i64> {
    schedule.map_values(|e: (i64, i64)| e.0)
}

/// `mid` occurs somewhere in the store.
pub open spec fn known_mid(v: StoreView, mid: i64) -> bool {
    ||| v.messages.contains_key(mid)
    ||| v.lock_times.contains_key(mid)
    ||| v.locks.contains_key(mid)
    ||| v.mids_ready.contains(mid)
    ||| v.mid_circle.contains(mid)
    ||| v.done.contains(mid)
    ||| v.err.contains_key(mid)
    ||| v.err_messages.contains_key(mid)
    ||| sched_mids(v.schedule).contains(mid)
}

/// `mid` is claimed and its claim outlives `now_ms`.
pub open spec fn live_lock(v: StoreView, mid: i64, now_ms: i64) -> bool {
    v.locks.contains_key(mid) && v.locks[mid] > now_ms
}

/// The lock duration a claim of `mid` uses: its override if one was set at
/// enqueue time, the queue default otherwise.
pub open spec fn lock_dur(v: StoreView, mid: i64, default_lock_ms: i64) -> i64 {
    if v.lock_times.contains_key(mid) {
        v.lock_times[mid]
    } else {
        default_lock_ms
    }
}

/// Well-formedness of a store: what every operation preserves.
///
/// Mids are in range of the counter and never shared between the regions
/// that would let one job be handed out twice: a ready job is never locked,
/// a scheduled job is invisible to the ready path and the circle, a done
/// job was claimed.  The ready list is covered by the circle so that every
/// claimed job stays subject to the maintenance sweep, and the schedule is
/// ordered by run-at time.
pub open spec fn wf(v: StoreView) -> bool {
    &&& 0 <= v.mid_seq
    &&& 0 <= v.ndry_runs
    &&& forall|m: i64| #[trigger] v.messages.contains_key(m) ==> 1 <= m <= v.mid_seq
    &&& forall|m: i64| #[trigger]
        v.lock_times.contains_key(m) ==> 1 <= m <= v.mid_seq && 0 <= v.lock_times[m]
            <= MAX_LOCK_MS
    &&& forall|m: i64| #[trigger] v.locks.contains_key(m) ==> 1 <= m <= v.mid_seq
    &&& forall|m: i64| #[trigger] v.done.contains(m) ==> v.locks.contains_key(m)
    &&& forall|m: i64| #[trigger] v.err.contains_key(m) ==> 1 <= m <= v.mid_seq
    &&& forall|m: i64| #[trigger] v.err_messages.contains_key(m) ==> 1 <= m <= v.mid_seq
    &&& forall|i: int|
        0 <= i < v.mids_ready.len() ==> {
            let m = #[trigger] v.mids_ready[i];
            &&& 1 <= m <= v.mid_seq
            &&& v.mid_circle.contains(m)
            &&& v.messages.contains_key(m)
            &&& !v.locks.contains_key(m)
        }
    &&& forall|i: int, j: int|
        0 <= i < j < v.mids_ready.len() ==> v.mids_ready[i] != v.mids_ready[j]
    &&& forall|i: int|
        0 <= i < v.mid_circle.len() ==> {
            let m = #[trigger] v.mid_circle[i];
            &&& 1 <= m <= v.mid_seq
            &&& v.messages.contains_key(m)
        }
    &&& forall|i: int, j: int|
        0 <= i < j < v.mid_circle.len() ==> v.mid_circle[i] != v.mid_circle[j]
    &&& forall|i: int|
        0 <= i < v.schedule.len() ==> {
            let m = (#[trigger] v.schedule[i]).0;
            &&& 1 <= m <= v.mid_seq
            &&& v.messages.contains_key(m)
            &&& !v.locks.contains_key(m)
            &&& !v.mid_circle.contains(m)
        }
    &&& forall|i: int, j: int|
        0 <= i < j < v.schedule.len() ==> v.schedule[i].0 != v.schedule[j].0 && v.schedule[i].1
            <= v.schedule[j].1
}

/// How a successful enqueue wakes at most one parked worker: a sentinel is
/// pushed into whichever relay channel currently has a waiter, if any.
pub open spec fn wake_post(pre: StoreView, post: StoreView) -> bool {
    if pre.waiters_a > 0 {
        post.isleep_a == pre.isleep_a.push("1"@) && post.isleep_b == pre.isleep_b
    } else if pre.waiters_b > 0 {
        post.isleep_a == pre.isleep_a && post.isleep_b == pre.isleep_b.push("1"@)
    } else {
        post.isleep_a == pre.isleep_a && post.isleep_b == pre.isleep_b
    }
}

/// The transition an enqueue makes: a fresh mid from the counter, its
/// content stored, its override recorded when one was supplied, the mid
/// pushed onto the head of both the ready list and the circle, and at most
/// one parked worker woken.
pub open spec fn enqueue_post(
    pre: StoreView,
    content: String,
    lock_ms: i64,
    post: StoreView,
    mid: i64,
) -> bool {
    &&& mid == pre.mid_seq + 1
    &&& post.mid_seq == mid
    &&& post.messages == pre.messages.insert(mid, content)
    &&& post.lock_times == (if lock_ms >= 0 {
        pre.lock_times.insert(mid, lock_ms)
    } else {
        pre.lock_times
    })
    &&& post.locks == pre.locks
    &&& post.mids_ready == pre.mids_ready.push(mid)
    &&& post.mid_circle == pre.mid_circle.push(mid)
    &&& post.done == pre.done
    &&& post.err == pre.err
    &&& post.err_messages == pre.err_messages
    &&& post.ndry_runs == pre.ndry_runs
    &&& post.waiters_a == pre.waiters_a
    &&& post.waiters_b == pre.waiters_b
    &&& post.schedule == pre.schedule
    &&& wake_post(pre, post)
}

/// An enqueue leaves a well-formed store well-formed.
pub proof fn lemma_enqueue_preserves_wf(
    pre: StoreView,
    content: String,
    lock_ms: i64,
    post: StoreView,
    mid: i64,
)
    requires
        wf(pre),
        pre.mid_seq < i64::MAX,
        lock_ms >= 0 ==> lock_ms <= MAX_LOCK_MS,
        enqueue_post(pre, content, lock_ms, post, mid),
    ensures
        wf(post),
{
    assert forall|i: int| 0 <= i < post.mids_ready.len() implies {
        let m = #[trigger] post.mids_ready[i];
        &&& 1 <= m <= post.mid_seq
        &&& post.mid_circle.contains(m)
        &&& post.messages.contains_key(m)
        &&& !post.locks.contains_key(m)
    } by {
        if i < pre.mids_ready.len() {
            let m = pre.mids_ready[i];
            assert(pre.mid_circle.contains(m));
            let k = choose|k: int| 0 <= k < pre.mid_circle.len() && pre.mid_circle[k] == m;
            assert(post.mid_circle[k] == m);
        } else {
            assert(post.mids_ready[i] == mid);
            assert(post.mid_circle[post.mid_circle.len() - 1] == mid);
        }
    }
    assert forall|i: int| 0 <= i < post.mid_circle.len() implies {
        let m = #[trigger] post.mid_circle[i];
        &&& 1 <= m <= post.mid_seq
        &&& post.messages.contains_key(m)
    } by {
        if i < pre.mid_circle.len() {
            assert(pre.mid_circle[i] == post.mid_circle[i]);
        }
    }
    assert forall|i: int| 0 <= i < post.schedule.len() implies {
        let m = (#[trigger] post.schedule[i]).0;
        &&& 1 <= m <= post.mid_seq
        &&& post.messages.contains_key(m)
        &&& !post.locks.contains_key(m)
        &&& !post.mid_circle.contains(m)
    } by {
        let m = post.schedule[i].0;
        assert(!pre.mid_circle.contains(m));
        if post.mid_circle.contains(m) {
            let k = choose|k: int| 0 <= k < post.mid_circle.len() && post.mid_circle[k] == m;
            if k < pre.mid_circle.len() {
                assert(pre.mid_circle[k] == m);
            } else {
                assert(m == mid);
            }
        }
    }
}

/// Fields no dequeue ever changes.
pub open spec fn dequeue_frame(pre: StoreView, post: StoreView) -> bool {
    &&& post.mid_seq == pre.mid_seq
    &&& post.messages == pre.messages
    &&& post.lock_times == pre.lock_times
    &&& post.done == pre.done
    &&& post.err == pre.err
    &&& post.err_messages == pre.err_messages
    &&& post.isleep_a == pre.isleep_a
    &&& post.isleep_b == pre.isleep_b
    &&& post.waiters_a == pre.waiters_a
    &&& post.waiters_b == pre.waiters_b
    &&& post.schedule == pre.schedule
}

/// The channel an empty attempt tells the worker to sleep on: the two relay
/// channels alternate with successive dry runs.
pub open spec fn sleep_channel(ndry_runs: int) -> SleepOn {
    if ndry_runs % 2 == 1 {
        SleepOn::SleepOnA
    } else {
        SleepOn::SleepOnB
    }
}

/// The transition one dequeue attempt makes, in priority order.
///
/// Fast path: the tail of the ready list is claimed — a lock written at
/// `now + duration` — and handed out.  Maintenance sweep: the tail of the
/// circle is dropped if done, rotated and skipped if its lock is live, and
/// otherwise claimed, handed out, and rotated so it stays subject to future
/// sweeps.  With both lists empty, the dry-run counter grows and the worker
/// is told to sleep.  A claim resets the dry-run counter to zero.
pub open spec fn dequeue_post(
    pre: StoreView,
    now_ms: i64,
    default_lock_ms: i64,
    post: StoreView,
    r: DequeueStatus,
) -> bool {
    &&& dequeue_frame(pre, post)
    &&& if pre.mids_ready.len() > 0 {
        let mid = pre.mids_ready[0];
        let dur = lock_dur(pre, mid, default_lock_ms);
        &&& (r matches DequeueStatus::Handle(h) && h.mid == mid && h.mcontent@
            == pre.messages[mid]@ && h.lock_ms == dur)
        &&& post.locks == pre.locks.insert(mid, (now_ms + dur) as i64)
        &&& post.mids_ready == pre.mids_ready.drop_first()
        &&& post.mid_circle == pre.mid_circle
        &&& post.ndry_runs == 0
    } else if pre.mid_circle.len() > 0 {
        let mid = pre.mid_circle[0];
        if pre.done.contains(mid) {
            &&& (r matches DequeueStatus::Skip(k) && k.reason@ == "done"@ && k.mid@ == spec_digits(
                mid as int,
            ))
            &&& post.locks == pre.locks
            &&& post.mids_ready == pre.mids_ready
            &&& post.mid_circle == pre.mid_circle.drop_first()
            &&& post.ndry_runs == pre.ndry_runs
        } else if live_lock(pre, mid, now_ms) {
            &&& (r matches DequeueStatus::Skip(k) && k.reason@ == "locked"@ && k.mid@
                == spec_digits(mid as int))
            &&& post.locks == pre.locks
            &&& post.mids_ready == pre.mids_ready
            &&& post.mid_circle == pre.mid_circle.drop_first().push(mid)
            &&& post.ndry_runs == pre.ndry_runs
        } else {
            let dur = lock_dur(pre, mid, default_lock_ms);
            &&& (r matches DequeueStatus::Handle(h) && h.mid == mid && h.mcontent@
                == pre.messages[mid]@ && h.lock_ms == dur)
            &&& post.locks == pre.locks.insert(mid, (now_ms + dur) as i64)
            &&& post.mids_ready == pre.mids_ready
            &&& post.mid_circle == pre.mid_circle.drop_first().push(mid)
            &&& post.ndry_runs == 0
        }
    } else {
        &&& (r matches DequeueStatus::Sleep(sl) && sl.reason@ == "no-job"@ && sl.ndry_runs
            == pre.ndry_runs + 1 && sl.sleep_on == sleep_channel(pre.ndry_runs + 1))
        &&& post.locks == pre.locks
        &&& post.mids_ready == pre.mids_ready
        &&& post.mid_circle == pre.mid_circle
        &&& post.ndry_runs == pre.ndry_runs + 1
    }
}

/// A dequeue leaves a well-formed store well-formed.
pub proof fn lemma_dequeue_preserves_wf(
    pre: StoreView,
    now_ms: i64,
    default_lock_ms: i64,
    post: StoreView,
    r: DequeueStatus,
)
    requires
        wf(pre),
        dequeue_post(pre, now_ms, default_lock_ms, post, r),
    ensures
        wf(post),
{
    if pre.mids_ready.len() > 0 {
        let mid = pre.mids_ready[0];
        assert forall|i: int| 0 <= i < post.mids_ready.len() implies {
            let m = #[trigger] post.mids_ready[i];
            &&& 1 <= m <= post.mid_seq
            &&& post.mid_circle.contains(m)
            &&& post.messages.contains_key(m)
            &&& !post.locks.contains_key(m)
        } by {
            assert(post.mids_ready[i] == pre.mids_ready[i + 1]);
            assert(pre.mids_ready[i + 1] != mid);
        }
        assert forall|i: int| 0 <= i < post.schedule.len() implies !post.locks.contains_key(
            (#[trigger] post.schedule[i]).0,
        ) by {
            assert(pre.mid_circle.contains(mid));
            assert(!pre.mid_circle.contains(pre.schedule[i].0));
        }
    } else if pre.mid_circle.len() > 0 {
        let mid = pre.mid_circle[0];
        if pre.done.contains(mid) {
            assert forall|i: int| 0 <= i < post.mid_circle.len() implies {
                let m = #[trigger] post.mid_circle[i];
                &&& 1 <= m <= post.mid_seq
                &&& post.messages.contains_key(m)
            } by {
                assert(post.mid_circle[i] == pre.mid_circle[i + 1]);
            }
            assert forall|i: int| 0 <= i < post.schedule.len() implies !post.mid_circle.contains(
                (#[trigger] post.schedule[i]).0,
            ) by {
                let m = post.schedule[i].0;
                if post.mid_circle.contains(m) {
                    let k = choose|k: int|
                        0 <= k < post.mid_circle.len() && post.mid_circle[k] == m;
                    assert(pre.mid_circle[k + 1] == m);
                    assert(pre.mid_circle.contains(m));
                }
            }
        } else {
            // rotated circle, with a claim in the third branch
            assert forall|i: int| 0 <= i < post.mid_circle.len() implies {
                let m = #[trigger] post.mid_circle[i];
                &&& 1 <= m <= post.mid_seq
                &&& post.messages.contains_key(m)
            } by {
                if i < post.mid_circle.len() - 1 {
                    assert(post.mid_circle[i] == pre.mid_circle[i + 1]);
                } else {
                    assert(post.mid_circle[i] == mid);
                }
            }
            assert forall|i: int, j: int| 0 <= i < j < post.mid_circle.len() implies post
                .mid_circle[i] != post.mid_circle[j] by {
                assert(post.mid_circle[i] == pre.mid_circle[i + 1]);
                if j < post.mid_circle.len() - 1 {
                    assert(post.mid_circle[j] == pre.mid_circle[j + 1]);
                } else {
                    assert(post.mid_circle[j] == pre.mid_circle[0]);
                }
            }
            assert forall|i: int| 0 <= i < post.schedule.len() implies !post.mid_circle.contains(
                (#[trigger] post.schedule[i]).0,
            ) by {
                let m = post.schedule[i].0;
                if post.mid_circle.contains(m) {
                    let k = choose|k: int|
                        0 <= k < post.mid_circle.len() && post.mid_circle[k] == m;
                    if k < post.mid_circle.len() - 1 {
                        assert(pre.mid_circle[k + 1] == m);
                    } else {
                        assert(pre.mid_circle[0] == m);
                    }
                    assert(pre.mid_circle.contains(m));
                }
            }
            if !live_lock(pre, mid, now_ms) {
                assert forall|i: int| 0 <= i < post.schedule.len() implies !post.locks.contains_key(
                    (#[trigger] post.schedule[i]).0,
                ) by {
                    assert(pre.mid_circle.contains(mid));
                    assert(!pre.mid_circle.contains(pre.schedule[i].0));
                }
            }
        }
    }
}

/// The transition a finish makes: the mid enters the terminal success set;
/// nothing else moves.  Its circle entry is collected lazily by a later
/// sweep.
pub open spec fn finish_post(pre: StoreView, post: StoreView, mid: i64) -> bool {
    &&& post.done == pre.done.insert(mid)
    &&& post.mid_seq == pre.mid_seq
    &&& post.messages == pre.messages
    &&& post.lock_times == pre.lock_times
    &&& post.locks == pre.locks
    &&& post.mids_ready == pre.mids_ready
    &&& post.mid_circle == pre.mid_circle
    &&& post.err == pre.err
    &&& post.err_messages == pre.err_messages
    &&& post.ndry_runs == pre.ndry_runs
    &&& post.isleep_a == pre.isleep_a
    &&& post.isleep_b == pre.isleep_b
    &&& post.waiters_a == pre.waiters_a
    &&& post.waiters_b == pre.waiters_b
    &&& post.schedule == pre.schedule
}

/// The transition a fail makes: the error description enters the failure
/// bookkeeping, the job's content alongside it when the failure carries
/// one — and the content map stays untouched when it does not.  Nothing
/// else moves.
pub open spec fn fail_post(
    pre: StoreView,
    post: StoreView,
    mid: i64,
    content: Option<String>,
    error: String,
) -> bool {
    &&& post.err == pre.err.insert(mid, error)
    &&& post.err_messages == (match content {
        Some(c) => pre.err_messages.insert(mid, c),
        None => pre.err_messages,
    })
    &&& post.mid_seq == pre.mid_seq
    &&& post.messages == pre.messages
    &&& post.lock_times == pre.lock_times
    &&& post.locks == pre.locks
    &&& post.mids_ready == pre.mids_ready
    &&& post.mid_circle == pre.mid_circle
    &&& post.done == pre.done
    &&& post.ndry_runs == pre.ndry_runs
    &&& post.isleep_a == pre.isleep_a
    &&& post.isleep_b == pre.isleep_b
    &&& post.waiters_a == pre.waiters_a
    &&& post.waiters_b == pre.waiters_b
    &&& post.schedule == pre.schedule
}

/// A finish leaves a well-formed store well-formed.
pub proof fn lemma_finish_preserves_wf(pre: StoreView, post: StoreView, mid: i64)
    requires
        wf(pre),
        pre.locks.contains_key(mid),
        finish_post(pre, post, mid),
    ensures
        wf(post),
{
    assert(forall|m: i64| #[trigger] post.done.contains(m) ==> post.locks.contains_key(m));
    assert(forall|i: int|
        0 <= i < post.mids_ready.len() ==> {
            let m = #[trigger] post.mids_ready[i];
            &&& 1 <= m <= post.mid_seq
            &&& post.mid_circle.contains(m)
            &&& post.messages.contains_key(m)
            &&& !post.locks.contains_key(m)
        });
    assert(forall|i: int|
        0 <= i < post.mid_circle.len() ==> {
            let m = #[trigger] post.mid_circle[i];
            &&& 1 <= m <= post.mid_seq
            &&& post.messages.contains_key(m)
        });
    assert(forall|i: int|
        0 <= i < post.schedule.len() ==> {
            let m = (#[trigger] post.schedule[i]).0;
            &&& 1 <= m <= post.mid_seq
            &&& post.messages.contains_key(m)
            &&& !post.locks.contains_key(m)
            &&& !post.mid_circle.contains(m)
        });
}

/// A fail leaves a well-formed store well-formed.
pub proof fn lemma_fail_preserves_wf(
    pre: StoreView,
    post: StoreView,
    mid: i64,
    content: Option<String>,
    error: String,
)
    requires
        wf(pre),
        pre.locks.contains_key(mid),
        fail_post(pre, post, mid, content, error),
    ensures
        wf(post),
{
    assert(1 <= mid <= pre.mid_seq);
    assert(forall|m: i64| #[trigger] post.err.contains_key(m) ==> 1 <= m <= post.mid_seq);
    assert(forall|m: i64| #[trigger]
        post.err_messages.contains_key(m) ==> 1 <= m <= post.mid_seq);
    assert(forall|i: int|
        0 <= i < post.mids_ready.len() ==> {
            let m = #[trigger] post.mids_ready[i];
            &&& 1 <= m <= post.mid_seq
            &&& post.mid_circle.contains(m)
            &&& post.messages.contains_key(m)
            &&& !post.locks.contains_key(m)
        });
    assert(forall|i: int|
        0 <= i < post.mid_circle.len() ==> {
            let m = #[trigger] post.mid_circle[i];
            &&& 1 <= m <= post.mid_seq
            &&& post.messages.contains_key(m)
        });
    assert(forall|i: int|
        0 <= i < post.schedule.len() ==> {
            let m = (#[trigger] post.schedule[i]).0;
            &&& 1 <= m <= post.mid_seq
            &&& post.messages.contains_key(m)
            &&& !post.locks.contains_key(m)
            &&& !post.mid_circle.contains(m)
        });
}

/// Where a new `(mid, run_at)` entry lands in the schedule: after every
/// entry whose run-at time is at or before it.
pub open spec fn sched_insert_pos(schedule: Seq<(i64, i64)>, run_at: i64) -> int
    decreases schedule.len(),
{
    if schedule.len() == 0 {
        0
    } else if schedule[0].1 <= run_at {
        1 + sched_insert_pos(schedule.drop_first(), run_at)
    } else {
        0
    }
}

pub proof fn lemma_sched_insert_pos(schedule: Seq<(i64, i64)>, run_at: i64)
    requires
        forall|i: int, j: int|
            0 <= i < j < schedule.len() ==> (#[trigger] schedule[i]).1 <= (
            #[trigger] schedule[j]).1,
    ensures
        0 <= sched_insert_pos(schedule, run_at) <= schedule.len(),
        forall|i: int|
            0 <= i < sched_insert_pos(schedule, run_at) ==> (#[trigger] schedule[i]).1 <= run_at,
        forall|i: int|
            sched_insert_pos(schedule, run_at) <= i < schedule.len() ==> (
            #[trigger] schedule[i]).1 > run_at,
    decreases schedule.len(),
{
    if schedule.len() > 0 && schedule[0].1 <= run_at {
        assert forall|i: int, j: int|
            0 <= i < j < schedule.drop_first().len() implies (
        #[trigger] schedule.drop_first()[i]).1 <= (#[trigger] schedule.drop_first()[j]).1 by {
            assert(schedule.drop_first()[i] == schedule[i + 1]);
            assert(schedule.drop_first()[j] == schedule[j + 1]);
        }
        lemma_sched_insert_pos(schedule.drop_first(), run_at);
        assert forall|i: int| 0 <= i < sched_insert_pos(schedule, run_at) implies (
        #[trigger] schedule[i]).1 <= run_at by {
            if i > 0 {
                assert(schedule.drop_first()[i - 1] == schedule[i]);
            }
        }
        assert forall|i: int|
            sched_insert_pos(schedule, run_at) <= i < schedule.len() implies (
        #[trigger] schedule[i]).1 > run_at by {
            assert(schedule.drop_first()[i - 1] == schedule[i]);
        }
    }
}

/// If everything before `p` is due at or before `run_at` and `p` is the end
/// or strictly later, then `p` is the insertion position.
pub proof fn lemma_sched_pos_at(schedule: Seq<(i64, i64)>, run_at: i64, p: int)
    requires
        0 <= p <= schedule.len(),
        forall|j: int| 0 <= j < p ==> (#[trigger] schedule[j]).1 <= run_at,
        p < schedule.len() ==> schedule[p].1 > run_at,
    ensures
        sched_insert_pos(schedule, run_at) == p,
    decreases schedule.len(),
{
    if p == 0 {
    } else {
        assert(schedule[0].1 <= run_at);
        assert forall|j: int| 0 <= j < p - 1 implies (#[trigger] schedule.drop_first()[j]).1
            <= run_at by {
            assert(schedule.drop_first()[j] == schedule[j + 1]);
        }
        if p - 1 < schedule.drop_first().len() {
            assert(schedule.drop_first()[p - 1] == schedule[p]);
        }
        lemma_sched_pos_at(schedule.drop_first(), run_at, p - 1);
    }
}

/// The transition a delayed enqueue makes: a fresh mid from the counter,
/// its content stored, and `(mid, run_at)` inserted into the schedule in
/// run-at order.  The ready path, the circle and the wake channels are
/// untouched: the job is invisible to workers until promoted.
pub open spec fn enqueue_at_post(
    pre: StoreView,
    content: String,
    run_at: i64,
    post: StoreView,
    mid: i64,
) -> bool {
    &&& mid == pre.mid_seq + 1
    &&& post.mid_seq == mid
    &&& post.messages == pre.messages.insert(mid, content)
    &&& post.schedule == pre.schedule.insert(
        sched_insert_pos(pre.schedule, run_at),
        (mid, run_at),
    )
    &&& post.lock_times == pre.lock_times
    &&& post.locks == pre.locks
    &&& post.mids_ready == pre.mids_ready
    &&& post.mid_circle == pre.mid_circle
    &&& post.done == pre.done
    &&& post.err == pre.err
    &&& post.err_messages == pre.err_messages
    &&& post.ndry_runs == pre.ndry_runs
    &&& post.isleep_a == pre.isleep_a
    &&& post.isleep_b == pre.isleep_b
    &&& post.waiters_a == pre.waiters_a
    &&& post.waiters_b == pre.waiters_b
}

/// A delayed enqueue leaves a well-formed store well-formed.
pub proof fn lemma_enqueue_at_preserves_wf(
    pre: StoreView,
    content: String,
    run_at: i64,
    post: StoreView,
    mid: i64,
)
    requires
        wf(pre),
        pre.mid_seq < i64::MAX,
        enqueue_at_post(pre, content, run_at, post, mid),
    ensures
        wf(post),
{
    let pos = sched_insert_pos(pre.schedule, run_at);
    lemma_sched_insert_pos(pre.schedule, run_at);
    assert forall|i: int| 0 <= i < post.schedule.len() implies {
        let m = (#[trigger] post.schedule[i]).0;
        &&& 1 <= m <= post.mid_seq
        &&& post.messages.contains_key(m)
        &&& !post.locks.contains_key(m)
        &&& !post.mid_circle.contains(m)
    } by {
        if i < pos {
            assert(post.schedule[i] == pre.schedule[i]);
        } else if i == pos {
            assert(post.schedule[i] == (mid, run_at));
            if post.mid_circle.contains(mid) {
                let k = choose|k: int| 0 <= k < pre.mid_circle.len() && pre.mid_circle[k] == mid;
            }
        } else {
            assert(post.schedule[i] == pre.schedule[i - 1]);
        }
    }
    assert forall|i: int, j: int| 0 <= i < j < post.schedule.len() implies post.schedule[i].0
        != post.schedule[j].0 && post.schedule[i].1 <= post.schedule[j].1 by {
        let oi = if i < pos {
            pre.schedule[i]
        } else if i == pos {
            (mid, run_at)
        } else {
            pre.schedule[i - 1]
        };
        let oj = if j < pos {
            pre.schedule[j]
        } else if j == pos {
            (mid, run_at)
        } else {
            pre.schedule[j - 1]
        };
        assert(post.schedule[i] == oi);
        assert(post.schedule[j] == oj);
        if i < pos && j == pos {
            assert(pre.schedule[i].1 <= run_at);
            assert(pre.schedule[i].0 <= pre.mid_seq);
        } else if i == pos && j > pos {
            assert(pre.schedule[j - 1].1 > run_at);
            assert(pre.schedule[j - 1].0 <= pre.mid_seq);
        }
    }
    assert forall|i: int| 0 <= i < post.mids_ready.len() implies {
        let m = #[trigger] post.mids_ready[i];
        &&& 1 <= m <= post.mid_seq
        &&& post.mid_circle.contains(m)
        &&& post.messages.contains_key(m)
        &&& !post.locks.contains_key(m)
    } by {
        assert(pre.mids_ready[i] == post.mids_ready[i]);
    }
}

/// How many schedule entries are due at `now`: the length of the due
/// prefix, the schedule being ordered by run-at time.
pub open spec fn due_len(schedule: Seq<(i64, i64)>, now: i64) -> int
    decreases schedule.len(),
{
    if schedule.len() == 0 {
        0
    } else if schedule[0].1 <= now {
        1 + due_len(schedule.drop_first(), now)
    } else {
        0
    }
}

/// The transition one promotion attempt makes: every due entry leaves the
/// schedule and its mid is pushed onto the head of both the ready list and
/// the circle, in schedule order; the count of promoted jobs is reported,
/// or that nothing was due.
pub open spec fn promote_post(pre: StoreView, now: i64, post: StoreView, r: DequeueAtStatus) -> bool {
    let k = due_len(pre.schedule, now);
    &&& post.schedule == pre.schedule.skip(k)
    &&& post.mids_ready == pre.mids_ready + sched_mids(pre.schedule.take(k))
    &&& post.mid_circle == pre.mid_circle + sched_mids(pre.schedule.take(k))
    &&& (if k > 0 {
        r matches DequeueAtStatus::Dequeued(n) && n == k
    } else {
        r is NoJob
    })
    &&& post.mid_seq == pre.mid_seq
    &&& post.messages == pre.messages
    &&& post.lock_times == pre.lock_times
    &&& post.locks == pre.locks
    &&& post.done == pre.done
    &&& post.err == pre.err
    &&& post.err_messages == pre.err_messages
    &&& post.ndry_runs == pre.ndry_runs
    &&& post.isleep_a == pre.isleep_a
    &&& post.isleep_b == pre.isleep_b
    &&& post.waiters_a == pre.waiters_a
    &&& post.waiters_b == pre.waiters_b
}

/// A promotion leaves a well-formed store well-formed.
pub proof fn lemma_promote_preserves_wf(pre: StoreView, now: i64, post: StoreView, r: DequeueAtStatus)
    requires
        wf(pre),
        promote_post(pre, now, post, r),
    ensures
        wf(post),
{
    let k = due_len(pre.schedule, now);
    lemma_due_len_le(pre.schedule, now);
    let moved = sched_mids(pre.schedule.take(k));
    let pr = pre.mids_ready.len() as int;
    let pc = pre.mid_circle.len() as int;
    assert forall|i: int| 0 <= i < post.mid_circle.len() implies {
        let m = #[trigger] post.mid_circle[i];
        &&& 1 <= m <= post.mid_seq
        &&& post.messages.contains_key(m)
    } by {
        if i < pc {
            assert(post.mid_circle[i] == pre.mid_circle[i]);
        } else {
            assert(post.mid_circle[i] == moved[i - pc]);
            assert(moved[i - pc] == pre.schedule.take(k)[i - pc].0);
            assert(pre.schedule.take(k)[i - pc] == pre.schedule[i - pc]);
        }
    }
    assert forall|i: int, j: int| 0 <= i < j < post.mid_circle.len() implies post.mid_circle[i]
        != post.mid_circle[j] by {
        if i < pc && j >= pc {
            let m = pre.schedule[j - pc].0;
            assert(post.mid_circle[j] == pre.schedule.take(k)[j - pc].0);
            assert(pre.schedule.take(k)[j - pc] == pre.schedule[j - pc]);
            assert(!pre.mid_circle.contains(m));
            assert(post.mid_circle[i] == pre.mid_circle[i]);
        } else if i >= pc {
            assert(post.mid_circle[i] == pre.schedule.take(k)[i - pc].0);
            assert(post.mid_circle[j] == pre.schedule.take(k)[j - pc].0);
            assert(pre.schedule.take(k)[i - pc] == pre.schedule[i - pc]);
            assert(pre.schedule.take(k)[j - pc] == pre.schedule[j - pc]);
            assert(pre.schedule[i - pc].0 != pre.schedule[j - pc].0);
        }
    }
    assert forall|i: int| 0 <= i < post.mids_ready.len() implies {
        let m = #[trigger] post.mids_ready[i];
        &&& 1 <= m <= post.mid_seq
        &&& post.mid_circle.contains(m)
        &&& post.messages.contains_key(m)
        &&& !post.locks.contains_key(m)
    } by {
        if i < pr {
            assert(post.mids_ready[i] == pre.mids_ready[i]);
            let m = pre.mids_ready[i];
            assert(pre.mid_circle.contains(m));
            let c = choose|c: int| 0 <= c < pre.mid_circle.len() && pre.mid_circle[c] == m;
            assert(post.mid_circle[c] == m);
        } else {
            assert(post.mids_ready[i] == moved[i - pr]);
            assert(moved[i - pr] == pre.schedule.take(k)[i - pr].0);
            assert(pre.schedule.take(k)[i - pr] == pre.schedule[i - pr]);
            let m = pre.schedule[i - pr].0;
            assert(post.mid_circle[pc + (i - pr)] == pre.schedule.take(k)[i - pr].0);
        }
    }
    assert forall|i: int, j: int| 0 <= i < j < post.mids_ready.len() implies post.mids_ready[i]
        != post.mids_ready[j] by {
        if i < pr && j >= pr {
            let m = pre.schedule[j - pr].0;
            assert(post.mids_ready[j] == pre.schedule.take(k)[j - pr].0);
            assert(pre.schedule.take(k)[j - pr] == pre.schedule[j - pr]);
            assert(!pre.mid_circle.contains(m));
            assert(post.mids_ready[i] == pre.mids_ready[i]);
            assert(pre.mid_circle.contains(pre.mids_ready[i]));
        } else if i >= pr {
            assert(post.mids_ready[i] == pre.schedule.take(k)[i - pr].0);
            assert(post.mids_ready[j] == pre.schedule.take(k)[j - pr].0);
            assert(pre.schedule.take(k)[i - pr] == pre.schedule[i - pr]);
            assert(pre.schedule.take(k)[j - pr] == pre.schedule[j - pr]);
            assert(pre.schedule[i - pr].0 != pre.schedule[j - pr].0);
        }
    }
    assert forall|i: int| 0 <= i < post.schedule.len() implies {
        let m = (#[trigger] post.schedule[i]).0;
        &&& 1 <= m <= post.mid_seq
        &&& post.messages.contains_key(m)
        &&& !post.locks.contains_key(m)
        &&& !post.mid_circle.contains(m)
    } by {
        assert(post.schedule[i] == pre.schedule[k + i]);
        let m = pre.schedule[k + i].0;
        if post.mid_circle.contains(m) {
            let c = choose|c: int| 0 <= c < post.mid_circle.len() && post.mid_circle[c] == m;
            if c < pc {
                assert(pre.mid_circle[c] == m);
                assert(pre.mid_circle.contains(m));
            } else {
                assert(post.mid_circle[c] == pre.schedule.take(k)[c - pc].0);
                assert(pre.schedule.take(k)[c - pc] == pre.schedule[c - pc]);
                assert(pre.schedule[c - pc].0 != pre.schedule[k + i].0);
            }
        }
    }
    assert forall|i: int, j: int| 0 <= i < j < post.schedule.len() implies post.schedule[i].0
        != post.schedule[j].0 && post.schedule[i].1 <= post.schedule[j].1 by {
        assert(post.schedule[i] == pre.schedule[k + i]);
        assert(post.schedule[j] == pre.schedule[k + j]);
    }
}

pub proof fn lemma_due_len_le(schedule: Seq<(i64, i64)>, now: i64)
    ensures
        0 <= due_len(schedule, now) <= schedule.len(),
    decreases schedule.len(),
{
    if schedule.len() > 0 && schedule[0].1 <= now {
        lemma_due_len_le(schedule.drop_first(), now);
    }
}

/// The relay channels touched by a sleep on `sleep_on`: the one popped and
/// the one the token is handed to.
pub open spec fn relay_src_dst(v: StoreView, sleep_on: SleepOn) -> (Seq<Seq<char>>, Seq<
    Seq<char>,
>) {
    match sleep_on {
        SleepOn::SleepOnA => (v.isleep_a, v.isleep_b),
        SleepOn::SleepOnB => (v.isleep_b, v.isleep_a),
    }
}

/// Waiters parked on the channel a sleep on `sleep_on` blocks on.
pub open spec fn relay_waiters(v: StoreView, sleep_on: SleepOn) -> u32 {
    match sleep_on {
        SleepOn::SleepOnA => v.waiters_a,
        SleepOn::SleepOnB => v.waiters_b,
    }
}

/// The transition of parking on a relay channel: the channel's waiter count
/// grows; nothing else moves.
pub open spec fn sleep_begin_post(pre: StoreView, sleep_on: SleepOn, post: StoreView) -> bool {
    &&& relay_waiters(post, sleep_on) == relay_waiters(pre, sleep_on) + 1
    &&& relay_waiters(post, other_channel(sleep_on)) == relay_waiters(pre, other_channel(sleep_on))
    &&& post.mid_seq == pre.mid_seq
    &&& post.messages == pre.messages
    &&& post.lock_times == pre.lock_times
    &&& post.locks == pre.locks
    &&& post.mids_ready == pre.mids_ready
    &&& post.mid_circle == pre.mid_circle
    &&& post.done == pre.done
    &&& post.err == pre.err
    &&& post.err_messages == pre.err_messages
    &&& post.ndry_runs == pre.ndry_runs
    &&& post.isleep_a == pre.isleep_a
    &&& post.isleep_b == pre.isleep_b
    &&& post.schedule == pre.schedule
}

pub open spec fn other_channel(sleep_on: SleepOn) -> SleepOn {
    match sleep_on {
        SleepOn::SleepOnA => SleepOn::SleepOnB,
        SleepOn::SleepOnB => SleepOn::SleepOnA,
    }
}

/// The transition of leaving a relay channel, woken or timed out: the
/// waiter count shrinks; if a token was present it is popped from the
/// blocked channel and relayed onto the opposite one — handed onward, not
/// consumed — and returned to the woken worker.
pub open spec fn sleep_finish_post(
    pre: StoreView,
    sleep_on: SleepOn,
    post: StoreView,
    woke: Option<String>,
) -> bool {
    let src = relay_src_dst(pre, sleep_on).0;
    let dst = relay_src_dst(pre, sleep_on).1;
    let src2 = relay_src_dst(post, sleep_on).0;
    let dst2 = relay_src_dst(post, sleep_on).1;
    &&& relay_waiters(post, sleep_on) == relay_waiters(pre, sleep_on) - 1
    &&& relay_waiters(post, other_channel(sleep_on)) == relay_waiters(pre, other_channel(sleep_on))
    &&& (if src.len() > 0 {
        &&& (woke matches Some(t) && t@ == src[0])
        &&& src2 == src.drop_first()
        &&& dst2 == dst.push(src[0])
    } else {
        &&& woke is None
        &&& src2 == src
        &&& dst2 == dst
    })
    &&& post.mid_seq == pre.mid_seq
    &&& post.messages == pre.messages
    &&& post.lock_times == pre.lock_times
    &&& post.locks == pre.locks
    &&& post.mids_ready == pre.mids_ready
    &&& post.mid_circle == pre.mid_circle
    &&& post.done == pre.done
    &&& post.err == pre.err
    &&& post.err_messages == pre.err_messages
    &&& post.ndry_runs == pre.ndry_runs
    &&& post.schedule == pre.schedule
}

/// Well-formedness does not depend on the relay channels or waiter counts:
/// a transition that leaves everything else in place preserves it.
pub proof fn lemma_wf_unchanged_core(pre: StoreView, post: StoreView)
    requires
        wf(pre),
        post.mid_seq == pre.mid_seq,
        post.messages == pre.messages,
        post.lock_times == pre.lock_times,
        post.locks == pre.locks,
        post.mids_ready == pre.mids_ready,
        post.mid_circle == pre.mid_circle,
        post.done == pre.done,
        post.err == pre.err,
        post.err_messages == pre.err_messages,
        post.ndry_runs == pre.ndry_runs,
        post.schedule == pre.schedule,
    ensures
        wf(post),
{
    assert(forall|i: int|
        0 <= i < post.mids_ready.len() ==> {
            let m = #[trigger] post.mids_ready[i];
            &&& 1 <= m <= post.mid_seq
            &&& post.mid_circle.contains(m)
            &&& post.messages.contains_key(m)
            &&& !post.locks.contains_key(m)
        });
    assert(forall|i: int|
        0 <= i < post.mid_circle.len() ==> {
            let m = #[trigger] post.mid_circle[i];
            &&& 1 <= m <= post.mid_seq
            &&& post.messages.contains_key(m)
        });
    assert(forall|i: int|
        0 <= i < post.schedule.len() ==> {
            let m = (#[trigger] post.schedule[i]).0;
            &&& 1 <= m <= post.mid_seq
            &&& post.messages.contains_key(m)
            &&& !post.locks.contains_key(m)
            &&& !post.mid_circle.contains(m)
        });
}

/// The store of one queue: an in-process image of its key space, mutated
/// only by the protocol's atomic operations.
pub struct Store {
    mid_seq: i64,
    messages: HashMap<i64, String>,
    lock_times: HashMap<i64, i64>,
    locks: HashMap<i64, i64>,
    mids_ready: Vec<i64>,
    mid_circle: Vec<i64>,
    done: HashSet<i64>,
    err: HashMap<i64, String>,
    err_messages: HashMap<i64, String>,
    ndry_runs: i64,
    isleep_a: Vec<String>,
    isleep_b: Vec<String>,
    waiters_a: u32,
    waiters_b: u32,
    schedule: Vec<(i64, i64)>,
}

impl View for Store {
    type V = StoreView;

    closed spec fn view(&self) -> StoreView {
        StoreView {
            mid_seq: self.mid_seq,
            messages: self.messages@,
            lock_times: self.lock_times@,
            locks: self.locks@,
            mids_ready: self.mids_ready@,
            mid_circle: self.mid_circle@,
            done: self.done@,
            err: self.err@,
            err_messages: self.err_messages@,
            ndry_runs: self.ndry_runs,
            isleep_a: self.isleep_a@.map_values(|s: String| s@),
            isleep_b: self.isleep_b@.map_values(|s: String| s@),
            waiters_a: self.waiters_a,
            waiters_b: self.waiters_b,
            schedule: self.schedule@,
        }
    }
}

impl Store {
    /// An empty store: no jobs, no locks, no waiters, counter at zero.
    pub fn new() -> (s: Store)
        ensures
            wf(s@),
            s@.mid_seq == 0,
            s@.messages == Map::<i64, String>::empty(),
            s@.lock_times == Map::<i64, i64>::empty(),
            s@.locks == Map::<i64, i64>::empty(),
            s@.mids_ready == Seq::<i64>::empty(),
            s@.mid_circle == Seq::<i64>::empty(),
            s@.done == Set::<i64>::empty(),
            s@.err == Map::<i64, String>::empty(),
            s@.err_messages == Map::<i64, String>::empty(),
            s@.ndry_runs == 0,
            s@.isleep_a == Seq::<Seq<char>>::empty(),
            s@.isleep_b == Seq::<Seq<char>>::empty(),
            s@.waiters_a == 0,
            s@.waiters_b == 0,
            s@.schedule == Seq::<(i64, i64)>::empty(),
    {
        let s = Store {
            mid_seq: 0,
            messages: HashMap::new(),
            lock_times: HashMap::new(),
            locks: HashMap::new(),
            mids_ready: Vec::new(),
            mid_circle: Vec::new(),
            done: HashSet::new(),
            err: HashMap::new(),
            err_messages: HashMap::new(),
            ndry_runs: 0,
            isleep_a: Vec::new(),
            isleep_b: Vec::new(),
            waiters_a: 0,
            waiters_b: 0,
            schedule: Vec::new(),
        };
        proof {
            assert(s@.isleep_a =~= Seq::<Seq<char>>::empty());
            assert(s@.isleep_b =~= Seq::<Seq<char>>::empty());
        }
        s
    }

    /// Atomically admit a job into the ready path and wake a sleeper if one
    /// is parked.  `lock_ms` below zero means no per-job override.
    ///
    /// Returns the fresh mid.
    pub fn enqueue(&mut self, content: String, lock_ms: i64) -> (mid: i64)
        requires
            wf(old(self)@),
            old(self)@.mid_seq < i64::MAX,
            lock_ms >= 0 ==> lock_ms <= MAX_LOCK_MS,
        ensures
            wf(final(self)@),
            enqueue_post(old(self)@, content, lock_ms, final(self)@, mid),
    {
        let mid = self.mid_seq + 1;
        self.mid_seq = mid;
        self.messages.insert(mid, content);
        if lock_ms >= 0 {
            self.lock_times.insert(mid, lock_ms);
        }
        self.mids_ready.push(mid);
        self.mid_circle.push(mid);
        if self.waiters_a > 0 {
            self.isleep_a.push("1".to_owned());
        } else if self.waiters_b > 0 {
            self.isleep_b.push("1".to_owned());
        }
        proof {
            assert(self@.isleep_a =~= (if old(self)@.waiters_a > 0 {
                old(self)@.isleep_a.push("1"@)
            } else {
                old(self)@.isleep_a
            }));
            assert(self@.isleep_b =~= (if old(self)@.waiters_a == 0 && old(self)@.waiters_b > 0 {
                old(self)@.isleep_b.push("1"@)
            } else {
                old(self)@.isleep_b
            }));
            lemma_enqueue_preserves_wf(old(self)@, content, lock_ms, self@, mid);
        }
        mid
    }

    /// Atomically claim the next workable job, or sweep the circle, or
    /// report that the worker should sleep.
    pub fn dequeue(&mut self, now_ms: i64, default_lock_ms: i64) -> (r: DequeueStatus)
        requires
            wf(old(self)@),
            0 <= now_ms <= MAX_NOW_MS,
            0 <= default_lock_ms <= MAX_LOCK_MS,
            old(self)@.ndry_runs < i64::MAX,
        ensures
            wf(final(self)@),
            dequeue_post(old(self)@, now_ms, default_lock_ms, final(self)@, r),
    {
        let r = if self.mids_ready.len() > 0 {
            let mid = self.mids_ready.remove(0);
            proof {
                assert(self.mids_ready@ =~= old(self)@.mids_ready.drop_first());
            }
            let dur = match self.lock_times.get(&mid) {
                Some(d) => *d,
                None => default_lock_ms,
            };
            let mcontent = match self.messages.get(&mid) {
                Some(c) => c.clone(),
                None => {
                    proof {
                        assert(false);
                    }
                    String::new()
                },
            };
            proof {
                assert(old(self)@.lock_times.contains_key(mid) ==> 0 <= old(
                    self,
                )@.lock_times[mid] <= MAX_LOCK_MS);
                assert(0 <= dur <= MAX_LOCK_MS);
            }
            self.locks.insert(mid, now_ms + dur);
            self.ndry_runs = 0;
            DequeueStatus::Handle(DequeueHandle { mid, mcontent, lock_ms: dur })
        } else if self.mid_circle.len() > 0 {
            let mid = self.mid_circle.remove(0);
            proof {
                assert(self.mid_circle@ =~= old(self)@.mid_circle.drop_first());
            }
            if self.done.contains(&mid) {
                // lazy garbage collection: drop it from the circle for good
                DequeueStatus::Skip(
                    DequeueSkip { reason: "done".to_owned(), mid: fmt_u64(mid as u64) },
                )
            } else {
                let lock_live = match self.locks.get(&mid) {
                    Some(expiry) => *expiry > now_ms,
                    None => false,
                };
                self.mid_circle.push(mid);
                proof {
                    assert(self.mid_circle@ =~= old(self)@.mid_circle.drop_first().push(mid));
                }
                if lock_live {
                    DequeueStatus::Skip(
                        DequeueSkip { reason: "locked".to_owned(), mid: fmt_u64(mid as u64) },
                    )
                } else {
                    // no lock, or an expired one: presumed crash, reclaim it
                    let dur = match self.lock_times.get(&mid) {
                        Some(d) => *d,
                        None => default_lock_ms,
                    };
                    let mcontent = match self.messages.get(&mid) {
                        Some(c) => c.clone(),
                        None => {
                            proof {
                                assert(false);
                            }
                            String::new()
                        },
                    };
                    proof {
                        assert(old(self)@.lock_times.contains_key(mid) ==> 0 <= old(
                            self,
                        )@.lock_times[mid] <= MAX_LOCK_MS);
                        assert(0 <= dur <= MAX_LOCK_MS);
                    }
                    self.locks.insert(mid, now_ms + dur);
                    self.ndry_runs = 0;
                    DequeueStatus::Handle(DequeueHandle { mid, mcontent, lock_ms: dur })
                }
            }
        } else {
            self.ndry_runs = self.ndry_runs + 1;
            let sleep_on = if self.ndry_runs % 2 == 1 {
                SleepOn::SleepOnA
            } else {
                SleepOn::SleepOnB
            };
            DequeueStatus::Sleep(
                DequeueSleep {
                    reason: "no-job".to_owned(),
                    sleep_on,
                    ndry_runs: self.ndry_runs,
                },
            )
        };
        proof {
            lemma_dequeue_preserves_wf(old(self)@, now_ms, default_lock_ms, self@, r);
        }
        r
    }

    /// Atomically mark a claimed job irrevocably complete.
    ///
    /// Returns whether the mid was newly added to the done set — the set
    /// insert's one-or-zero reply; finishing twice changes nothing.
    pub fn finish(&mut self, mid: i64) -> (added: bool)
        requires
            wf(old(self)@),
            old(self)@.locks.contains_key(mid),
        ensures
            wf(final(self)@),
            finish_post(old(self)@, final(self)@, mid),
            added == !old(self)@.done.contains(mid),
    {
        let added = self.done.insert(mid);
        proof {
            lemma_finish_preserves_wf(old(self)@, self@, mid);
        }
        added
    }

    /// Atomically record a failed job for operator inspection: its error
    /// description, and its content when the failure carries one.
    pub fn fail(&mut self, mid: i64, content: Option<String>, error: String)
        requires
            wf(old(self)@),
            old(self)@.locks.contains_key(mid),
        ensures
            wf(final(self)@),
            fail_post(old(self)@, final(self)@, mid, content, error),
    {
        match content {
            Some(c) => {
                self.err_messages.insert(mid, c);
            },
            None => {},
        }
        self.err.insert(mid, error);
        proof {
            lemma_fail_preserves_wf(old(self)@, self@, mid, content, error);
        }
    }

    /// Atomically admit a job into the schedule for `run_at`, invisible to
    /// workers until promoted.
    ///
    /// Returns the fresh mid.
    pub fn enqueue_at(&mut self, content: String, run_at: i64) -> (mid: i64)
        requires
            wf(old(self)@),
            old(self)@.mid_seq < i64::MAX,
        ensures
            wf(final(self)@),
            enqueue_at_post(old(self)@, content, run_at, final(self)@, mid),
    {
        let mid = self.mid_seq + 1;
        self.mid_seq = mid;
        self.messages.insert(mid, content);
        let ghost pre_sched = self.schedule@;
        let mut pos: usize = 0;
        while pos < self.schedule.len() && self.schedule[pos].1 <= run_at
            invariant
                0 <= pos <= self.schedule.len(),
                self.schedule@ == pre_sched,
                forall|j: int| 0 <= j < pos ==> (#[trigger] pre_sched[j]).1 <= run_at,
            decreases self.schedule.len() - pos,
        {
            pos = pos + 1;
        }
        proof {
            lemma_sched_pos_at(pre_sched, run_at, pos as int);
        }
        self.schedule.insert(pos, (mid, run_at));
        proof {
            lemma_enqueue_at_preserves_wf(old(self)@, content, run_at, self@, mid);
        }
        mid
    }

    /// Atomically promote every due scheduled job into the ready path.
    ///
    /// Run by the scheduler loop, not by workers.
    pub fn promote_due(&mut self, now: i64) -> (r: DequeueAtStatus)
        requires
            wf(old(self)@),
            old(self)@.schedule.len() <= i64::MAX,
        ensures
            wf(final(self)@),
            promote_post(old(self)@, now, final(self)@, r),
    {
        let ghost pre = self@;
        let mut count: i64 = 0;
        while self.schedule.len() > 0 && self.schedule[0].1 <= now
            invariant
                0 <= count <= pre.schedule.len(),
                pre.schedule.len() <= i64::MAX,
                self.schedule@ == pre.schedule.skip(count as int),
                self.mids_ready@ == pre.mids_ready + sched_mids(pre.schedule.take(count as int)),
                self.mid_circle@ == pre.mid_circle + sched_mids(pre.schedule.take(count as int)),
                due_len(pre.schedule, now) == count + due_len(self.schedule@, now),
                self.mid_seq == pre.mid_seq,
                self.messages@ == pre.messages,
                self.lock_times@ == pre.lock_times,
                self.locks@ == pre.locks,
                self.done@ == pre.done,
                self.err@ == pre.err,
                self.err_messages@ == pre.err_messages,
                self.ndry_runs == pre.ndry_runs,
                self.isleep_a@.map_values(|s: String| s@) == pre.isleep_a,
                self.isleep_b@.map_values(|s: String| s@) == pre.isleep_b,
                self.waiters_a == pre.waiters_a,
                self.waiters_b == pre.waiters_b,
            decreases self.schedule.len(),
        {
            let ghost cur = self.schedule@;
            let e = self.schedule.remove(0);
            self.mids_ready.push(e.0);
            self.mid_circle.push(e.0);
            proof {
                assert(cur.len() == pre.schedule.len() - count);
                assert(count < pre.schedule.len());
            }
            count = count + 1;
            proof {
                assert(cur[0] == pre.schedule[(count - 1) as int]);
                assert(self.schedule@ =~= pre.schedule.skip(count as int));
                assert(sched_mids(pre.schedule.take(count as int)) =~= sched_mids(
                    pre.schedule.take((count - 1) as int),
                ).push(e.0));
                assert(self.mids_ready@ =~= pre.mids_ready + sched_mids(
                    pre.schedule.take(count as int),
                ));
                assert(self.mid_circle@ =~= pre.mid_circle + sched_mids(
                    pre.schedule.take(count as int),
                ));
            }
        }
        proof {
            assert(due_len(self.schedule@, now) == 0);
            assert(due_len(pre.schedule, now) == count);
        }
        let r = if count > 0 {
            DequeueAtStatus::Dequeued(count)
        } else {
            proof {
                assert(pre.schedule.take(0) =~= Seq::<(i64, i64)>::empty());
                assert(sched_mids(pre.schedule.take(0)) =~= Seq::<i64>::empty());
                assert(self.mids_ready@ =~= pre.mids_ready);
                assert(self.mid_circle@ =~= pre.mid_circle);
                assert(self.schedule@ =~= pre.schedule);
            }
            DequeueAtStatus::NoJob
        };
        proof {
            lemma_promote_preserves_wf(old(self)@, now, self@, r);
        }
        r
    }

    /// The last mid the counter assigned.
    pub fn mid_seq(&self) -> (m: i64)
        ensures
            m == self@.mid_seq,
    {
        self.mid_seq
    }

    /// How many consecutive dequeue attempts found no claimable work.
    pub fn ndry_runs(&self) -> (n: i64)
        ensures
            n == self@.ndry_runs,
    {
        self.ndry_runs
    }

    /// How many delayed jobs await promotion.
    pub fn schedule_len(&self) -> (n: usize)
        ensures
            n as nat == self@.schedule.len(),
    {
        self.schedule.len()
    }

    /// Whether `mid` has ever been claimed; lock entries stay behind after
    /// completion until externally collected.
    pub fn is_claimed(&self, mid: i64) -> (r: bool)
        ensures
            r == self@.locks.contains_key(mid),
    {
        match self.locks.get(&mid) {
            Some(_) => true,
            None => false,
        }
    }

    /// The recorded error description of a failed job, for operator
    /// inspection.
    pub fn err_of(&self, mid: i64) -> (r: Option<&String>)
        ensures
            r is Some <==> self@.err.contains_key(mid),
            r matches Some(s) ==> *s == self@.err[mid],
    {
        self.err.get(&mid)
    }

    /// The recorded content of a failed job, for operator inspection.
    pub fn err_message_of(&self, mid: i64) -> (r: Option<&String>)
        ensures
            r is Some <==> self@.err_messages.contains_key(mid),
            r matches Some(s) ==> *s == self@.err_messages[mid],
    {
        self.err_messages.get(&mid)
    }

    /// A worker parks on a relay channel, about to block on it.
    pub fn sleep_begin(&mut self, sleep_on: SleepOn)
        requires
            wf(old(self)@),
            relay_waiters(old(self)@, sleep_on) < u32::MAX,
        ensures
            wf(final(self)@),
            sleep_begin_post(old(self)@, sleep_on, final(self)@),
    {
        match sleep_on {
            SleepOn::SleepOnA => {
                self.waiters_a = self.waiters_a + 1;
            },
            SleepOn::SleepOnB => {
                self.waiters_b = self.waiters_b + 1;
            },
        }
        proof {
            lemma_wf_unchanged_core(old(self)@, self@);
        }
    }

    /// A parked worker leaves its channel: if a wake token is present it is
    /// popped and relayed onto the opposite channel — handed onward, not
    /// consumed — and returned; otherwise the worker timed out.
    pub fn sleep_finish(&mut self, sleep_on: SleepOn) -> (woke: Option<String>)
        requires
            wf(old(self)@),
            relay_waiters(old(self)@, sleep_on) > 0,
        ensures
            wf(final(self)@),
            sleep_finish_post(old(self)@, sleep_on, final(self)@, woke),
    {
        let woke = match sleep_on {
            SleepOn::SleepOnA => {
                self.waiters_a = self.waiters_a - 1;
                if self.isleep_a.len() > 0 {
                    let t = self.isleep_a.remove(0);
                    let t2 = t.clone();
                    self.isleep_b.push(t2);
                    proof {
                        assert(self@.isleep_a =~= old(self)@.isleep_a.drop_first());
                        assert(self@.isleep_b =~= old(self)@.isleep_b.push(
                            old(self)@.isleep_a[0],
                        ));
                    }
                    Some(t)
                } else {
                    None
                }
            },
            SleepOn::SleepOnB => {
                self.waiters_b = self.waiters_b - 1;
                if self.isleep_b.len() > 0 {
                    let t = self.isleep_b.remove(0);
                    let t2 = t.clone();
                    self.isleep_a.push(t2);
                    proof {
                        assert(self@.isleep_b =~= old(self)@.isleep_b.drop_first());
                        assert(self@.isleep_a =~= old(self)@.isleep_a.push(
                            old(self)@.isleep_b[0],
                        ));
                    }
                    Some(t)
                } else {
                    None
                }
            },
        };
        proof {
            lemma_wf_unchanged_core(old(self)@, self@);
        }
        woke
    }
}

} // verus!
