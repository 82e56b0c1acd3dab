//! The guarantees the protocol is built for, proved of its transitions.
//!
//! Each law quantifies over abstract store states related by the transition
//! predicates of the atomic operations, so it covers every store the
//! operations can reach — and, the operations being the only mutators and
//! each one indivisible, every interleaving of concurrent callers.
use crate::dequeue::{DequeueHandle, DequeueStatus};
use crate::store::{
    dequeue_post, enqueue_at_post, enqueue_post, known_mid, live_lock, lock_dur,
    lemma_dequeue_preserves_wf, sched_mids, wf, StoreView, MAX_LOCK_MS, MAX_NOW_MS,
};
use vstd::prelude::*;

verus! {

/// Mid uniqueness, first half: the mid an enqueue returns occurs nowhere in
/// the store it acted on — not among payloads, locks, lists, terminal sets
/// or the schedule — so no earlier call can have returned it.
pub proof fn lemma_enqueue_mid_fresh(
    pre: StoreView,
    content: String,
    lock_ms: i64,
    post: StoreView,
    mid: i64,
)
    requires
        wf(pre),
        enqueue_post(pre, content, lock_ms, post, mid),
    ensures
        !known_mid(pre, mid),
        mid == pre.mid_seq + 1,
        post.mid_seq == mid,
{
    assert(!pre.mids_ready.contains(mid)) by {
        if pre.mids_ready.contains(mid) {
            let i = choose|i: int| 0 <= i < pre.mids_ready.len() && pre.mids_ready[i] == mid;
        }
    }
    assert(!pre.mid_circle.contains(mid)) by {
        if pre.mid_circle.contains(mid) {
            let i = choose|i: int| 0 <= i < pre.mid_circle.len() && pre.mid_circle[i] == mid;
        }
    }
    assert(!sched_mids(pre.schedule).contains(mid)) by {
        if sched_mids(pre.schedule).contains(mid) {
            let i = choose|i: int|
                0 <= i < sched_mids(pre.schedule).len() && sched_mids(pre.schedule)[i] == mid;
            assert(pre.schedule[i].0 == mid);
        }
    }
}

/// The same freshness for a delayed enqueue, which draws from the same
/// counter.
pub proof fn lemma_enqueue_at_mid_fresh(
    pre: StoreView,
    content: String,
    run_at: i64,
    post: StoreView,
    mid: i64,
)
    requires
        wf(pre),
        enqueue_at_post(pre, content, run_at, post, mid),
    ensures
        !known_mid(pre, mid),
        mid == pre.mid_seq + 1,
        post.mid_seq == mid,
{
    assert(!pre.mids_ready.contains(mid)) by {
        if pre.mids_ready.contains(mid) {
            let i = choose|i: int| 0 <= i < pre.mids_ready.len() && pre.mids_ready[i] == mid;
        }
    }
    assert(!pre.mid_circle.contains(mid)) by {
        if pre.mid_circle.contains(mid) {
            let i = choose|i: int| 0 <= i < pre.mid_circle.len() && pre.mid_circle[i] == mid;
        }
    }
    assert(!sched_mids(pre.schedule).contains(mid)) by {
        if sched_mids(pre.schedule).contains(mid) {
            let i = choose|i: int|
                0 <= i < sched_mids(pre.schedule).len() && sched_mids(pre.schedule)[i] == mid;
            assert(pre.schedule[i].0 == mid);
        }
    }
}

/// Mid uniqueness, second half: two enqueues in sequence return strictly
/// increasing mids, whichever callers make them.
pub proof fn lemma_enqueue_mids_increase(
    v0: StoreView,
    c1: String,
    l1: i64,
    v1: StoreView,
    m1: i64,
    c2: String,
    l2: i64,
    v2: StoreView,
    m2: i64,
)
    requires
        enqueue_post(v0, c1, l1, v1, m1),
        enqueue_post(v1, c2, l2, v2, m2),
    ensures
        m1 < m2,
{
}

/// No double claim: a dequeue hands a job out only while it carries no live
/// lock, and writes a lock that expires at `now + duration`; a second claim
/// of the same mid, however it is reached, is possible only at or after
/// that expiry.
pub proof fn lemma_no_double_claim(
    v0: StoreView,
    now1: i64,
    dms1: i64,
    v1: StoreView,
    h1: DequeueHandle,
    now2: i64,
    dms2: i64,
    v2: StoreView,
    h2: DequeueHandle,
)
    requires
        wf(v0),
        0 <= now1 <= MAX_NOW_MS,
        0 <= dms1 <= MAX_LOCK_MS,
        dequeue_post(v0, now1, dms1, v1, DequeueStatus::Handle(h1)),
        dequeue_post(v1, now2, dms2, v2, DequeueStatus::Handle(h2)),
        h2.mid == h1.mid,
    ensures
        !live_lock(v0, h1.mid, now1),
        v1.locks.contains_key(h1.mid),
        v1.locks[h1.mid] == now1 + lock_dur(v0, h1.mid, dms1),
        now2 >= v1.locks[h1.mid],
{
    let mid = h1.mid;
    lemma_dequeue_preserves_wf(v0, now1, dms1, v1, DequeueStatus::Handle(h1));
    if v0.mids_ready.len() > 0 {
        assert(mid == v0.mids_ready[0]);
        assert(!v0.locks.contains_key(mid));
    } else {
        assert(v0.mid_circle.len() > 0);
        assert(mid == v0.mid_circle[0]);
        assert(!live_lock(v0, mid, now1));
    }
    let dur = lock_dur(v0, mid, dms1);
    assert(0 <= dur <= MAX_LOCK_MS) by {
        if v0.lock_times.contains_key(mid) {
        }
    }
    assert(v1.locks[mid] == now1 + dur);
    // the second claim cannot use the fast path: a ready mid is unlocked
    if v1.mids_ready.len() > 0 {
        assert(h2.mid == v1.mids_ready[0]);
        assert(!v1.locks.contains_key(v1.mids_ready[0]));
        assert(false);
    } else {
        assert(v1.mid_circle.len() > 0);
        assert(h2.mid == v1.mid_circle[0]);
        assert(!live_lock(v1, mid, now2));
    }
}

/// A scheduled job is invisible to workers: while a mid sits in the
/// schedule, no dequeue hands it out, whatever the time.
pub proof fn lemma_scheduled_invisible(
    v: StoreView,
    now_ms: i64,
    dms: i64,
    post: StoreView,
    r: DequeueStatus,
    mid: i64,
)
    requires
        wf(v),
        dequeue_post(v, now_ms, dms, post, r),
        sched_mids(v.schedule).contains(mid),
    ensures
        !(r matches DequeueStatus::Handle(h) && h.mid == mid),
{
    let i = choose|i: int|
        0 <= i < sched_mids(v.schedule).len() && sched_mids(v.schedule)[i] == mid;
    assert(v.schedule[i].0 == mid);
    assert(!v.mid_circle.contains(mid));
    if v.mids_ready.len() > 0 {
        assert(v.mid_circle.contains(v.mids_ready[0]));
    }
}

/// Eventual redelivery: with nothing in the ready list, the next mid the
/// circle sweep visits — not finished, its lock absent or expired — is
/// re-offered as a handle, and stays in the circle for future sweeps.
pub proof fn lemma_eventual_redelivery(
    v: StoreView,
    now_ms: i64,
    dms: i64,
    post: StoreView,
    r: DequeueStatus,
)
    requires
        wf(v),
        dequeue_post(v, now_ms, dms, post, r),
        v.mids_ready.len() == 0,
        v.mid_circle.len() > 0,
        !v.done.contains(v.mid_circle[0]),
        v.locks.contains_key(v.mid_circle[0]) ==> v.locks[v.mid_circle[0]] <= now_ms,
    ensures
        r matches DequeueStatus::Handle(h) && h.mid == v.mid_circle[0],
        post.mid_circle.contains(v.mid_circle[0]),
{
    let mid = v.mid_circle[0];
    assert(!live_lock(v, mid, now_ms));
    assert(post.mid_circle == v.mid_circle.drop_first().push(mid));
    assert(post.mid_circle[post.mid_circle.len() - 1] == mid);
}

/// Terminal idempotence: once a mid is in the done set, no dequeue returns
/// a handle for it again; when the circle sweep reaches it, it is skipped
/// and dropped from the circle for good.
pub proof fn lemma_terminal_idempotence(
    v: StoreView,
    now_ms: i64,
    dms: i64,
    post: StoreView,
    r: DequeueStatus,
    mid: i64,
)
    requires
        wf(v),
        dequeue_post(v, now_ms, dms, post, r),
        v.done.contains(mid),
    ensures
        !(r matches DequeueStatus::Handle(h) && h.mid == mid),
        (v.mids_ready.len() == 0 && v.mid_circle.len() > 0 && v.mid_circle[0] == mid) ==> ((
        r is Skip) && !post.mid_circle.contains(mid)),
{
    assert(v.locks.contains_key(mid));
    if v.mids_ready.len() > 0 {
        assert(!v.locks.contains_key(v.mids_ready[0]));
    } else if v.mid_circle.len() > 0 {
        let c = v.mid_circle[0];
        if c == mid {
            assert(v.done.contains(c));
            assert(post.mid_circle == v.mid_circle.drop_first());
            assert(!post.mid_circle.contains(mid)) by {
                if post.mid_circle.contains(mid) {
                    let i = choose|i: int|
                        0 <= i < post.mid_circle.len() && post.mid_circle[i] == mid;
                    assert(v.mid_circle[i + 1] == mid);
                    assert(v.mid_circle[0] == mid);
                }
            }
        } else {
            if v.done.contains(c) {
            } else if live_lock(v, c, now_ms) {
            } else {
            }
        }
    }
}

} // verus!
