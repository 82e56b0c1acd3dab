//! The worker-facing side of the protocol: claim outcomes, the finish and
//! sleep commands, and the dequeue script invocation.
use crate::helper::{parse_i64, spec_parse_i64, str_eq};
use crate::queue::Queue;
use crate::reply::{
    data_elem, elem_at, int_elem, read_reply_as_int, read_reply_as_str, ReplyError, ReplyValue,
};
use crate::script::{ScriptArg, ScriptCall};
use vstd::prelude::*;
use vstd::string::StringExecFns;

verus! {

/// Which of the two relay channels an idle worker should block on.
#[derive(Debug, Clone, Copy, PartialEq, Eq, Structural)]
pub enum SleepOn {
    SleepOnA,
    SleepOnB,
}

impl SleepOn {
    /// The channel named by a reply tag: `a` selects the first channel,
    /// anything else the second.
    pub fn from_tag(value: &str) -> (r: SleepOn)
        ensures
            r == (if value@ == "a"@ {
                SleepOn::SleepOnA
            } else {
                SleepOn::SleepOnB
            }),
    {
        proof {
            reveal_strlit("a");
        }
        let n = value.unicode_len();
        if n == 1 && value.get_char(0) == 'a' {
            proof {
                assert(value@ =~= "a"@);
            }
            SleepOn::SleepOnA
        } else {
            SleepOn::SleepOnB
        }
    }
}

/// Nothing was claimable: the worker should block on `sleep_on` with a
/// timeout derived from `ndry_runs`.
#[derive(Debug)]
pub struct DequeueSleep {
    pub reason: String,
    pub sleep_on: SleepOn,
    pub ndry_runs: i64,
}

impl Default for DequeueSleep {
    /// The sleep a worker falls back to when a dequeue attempt failed in
    /// transport: first channel, one dry run.
    fn default() -> (d: DequeueSleep)
        ensures
            d.reason@ == Seq::<char>::empty(),
            d.sleep_on == SleepOn::SleepOnA,
            d.ndry_runs == 1,
    {
        DequeueSleep { reason: String::new(), sleep_on: SleepOn::SleepOnA, ndry_runs: 1 }
    }
}

/// A claimed job: its mid, its opaque content, and the lock duration the
/// claim was made with.
#[derive(Debug)]
pub struct DequeueHandle {
    pub mid: i64,
    pub mcontent: String,
    pub lock_ms: i64,
}

/// The maintenance sweep examined one mid and found nothing to hand out;
/// try again immediately, no sleep needed.
#[derive(Debug)]
pub struct DequeueSkip {
    pub reason: String,
    pub mid: String,
}

/// Outcome of one dequeue attempt.
#[derive(Debug)]
pub enum DequeueStatus {
    Sleep(DequeueSleep),
    Handle(DequeueHandle),
    Skip(DequeueSkip),
    Unknown(String),
}

/// The reply shapes that parse as a dequeue status: a leading action tag,
/// then the fields of that action — reason, channel tag and dry-run count
/// for `sleep`; mid (a decimal datum), content and lock duration for
/// `handle`; reason and mid for `skip`.  An unrecognized tag still parses,
/// as `Unknown`.
pub open spec fn dequeue_status_shape_ok(values: Seq<ReplyValue>) -> bool {
    &&& data_elem(values, 0) is Some
    &&& (data_elem(values, 0) == Some("sleep"@) ==> data_elem(values, 1) is Some && data_elem(
        values,
        2,
    ) is Some && int_elem(values, 3) is Some)
    &&& (data_elem(values, 0) == Some("handle"@) ==> ({
        let ms = data_elem(values, 1);
        &&& ms is Some
        &&& spec_parse_i64(ms->Some_0) is Some
        &&& data_elem(values, 2) is Some
        &&& int_elem(values, 3) is Some
    }))
    &&& (data_elem(values, 0) == Some("skip"@) ==> data_elem(values, 1) is Some && data_elem(
        values,
        2,
    ) is Some)
}

/// What a parsed dequeue status holds, field by field, in terms of the
/// reply it came from.
pub open spec fn dequeue_status_matches(values: Seq<ReplyValue>, st: DequeueStatus) -> bool {
    match st {
        DequeueStatus::Sleep(sl) => {
            &&& data_elem(values, 0) == Some("sleep"@)
            &&& data_elem(values, 1) == Some(sl.reason@)
            &&& (data_elem(values, 2) matches Some(t) && sl.sleep_on == (if t == "a"@ {
                SleepOn::SleepOnA
            } else {
                SleepOn::SleepOnB
            }))
            &&& int_elem(values, 3) == Some(sl.ndry_runs)
        },
        DequeueStatus::Handle(h) => {
            &&& data_elem(values, 0) == Some("handle"@)
            &&& (data_elem(values, 1) matches Some(ms) && spec_parse_i64(ms) == Some(
                h.mid as int,
            ))
            &&& data_elem(values, 2) == Some(h.mcontent@)
            &&& int_elem(values, 3) == Some(h.lock_ms)
        },
        DequeueStatus::Skip(k) => {
            &&& data_elem(values, 0) == Some("skip"@)
            &&& data_elem(values, 1) == Some(k.reason@)
            &&& data_elem(values, 2) == Some(k.mid@)
        },
        DequeueStatus::Unknown(a) => {
            &&& (data_elem(values, 0) matches Some(t) && t == a@ && t != "sleep"@ && t
                != "handle"@ && t != "skip"@)
        },
    }
}

impl DequeueStatus {
    /// Parse a dequeue reply array.
    pub fn try_from(values: &Vec<ReplyValue>) -> (r: Result<DequeueStatus, ReplyError>)
        ensures
            r is Ok <==> dequeue_status_shape_ok(values@),
            r matches Ok(st) ==> dequeue_status_matches(values@, st),
    {
        proof {
            reveal_strlit("sleep");
            reveal_strlit("handle");
            reveal_strlit("skip");
            assert("sleep"@.len() == 5);
            assert("handle"@.len() == 6);
            assert("skip"@.len() == 4);
        }
        let action = match read_reply_as_str(
            elem_at(values, 0),
            "invalid dequeue status - invalid action",
        ) {
            Ok(a) => a,
            Err(e) => {
                return Err(e);
            },
        };
        if str_eq(action.as_str(), "sleep") {
            let reason = match read_reply_as_str(
                elem_at(values, 1),
                "invalid dequeue status - sleep - invalid reason",
            ) {
                Ok(a) => a,
                Err(e) => {
                    return Err(e);
                },
            };
            let sleep_on = match read_reply_as_str(
                elem_at(values, 2),
                "invalid dequeue status - sleep - invalid sleep_on",
            ) {
                Ok(a) => a,
                Err(e) => {
                    return Err(e);
                },
            };
            let ndry_runs = match read_reply_as_int(
                elem_at(values, 3),
                "invalid dequeue status - sleep - invalid ndry_runs",
            ) {
                Ok(a) => a,
                Err(e) => {
                    return Err(e);
                },
            };
            Ok(
                DequeueStatus::Sleep(
                    DequeueSleep {
                        reason: reason.clone(),
                        sleep_on: SleepOn::from_tag(sleep_on.as_str()),
                        ndry_runs,
                    },
                ),
            )
        } else if str_eq(action.as_str(), "handle") {
            let mid_s = match read_reply_as_str(
                elem_at(values, 1),
                "invalid dequeue status - handle - invalid mid",
            ) {
                Ok(a) => a,
                Err(e) => {
                    return Err(e);
                },
            };
            let mid = match parse_i64(mid_s.as_str()) {
                Some(m) => m,
                None => {
                    return Err(
                        ReplyError {
                            desc: "invalid dequeue status - handle - invalid mid".to_owned(),
                        },
                    );
                },
            };
            let mcontent = match read_reply_as_str(
                elem_at(values, 2),
                "invalid dequeue status - handle - invalid mcontent",
            ) {
                Ok(a) => a,
                Err(e) => {
                    return Err(e);
                },
            };
            let lock_ms = match read_reply_as_int(
                elem_at(values, 3),
                "invalid dequeue status - handle - invalid lock_ms",
            ) {
                Ok(a) => a,
                Err(e) => {
                    return Err(e);
                },
            };
            Ok(DequeueStatus::Handle(DequeueHandle { mid, mcontent: mcontent.clone(), lock_ms }))
        } else if str_eq(action.as_str(), "skip") {
            let reason = match read_reply_as_str(
                elem_at(values, 1),
                "invalid dequeue status - skip - invalid reason",
            ) {
                Ok(a) => a,
                Err(e) => {
                    return Err(e);
                },
            };
            let mid = match read_reply_as_str(
                elem_at(values, 2),
                "invalid dequeue status - skip - invalid mid",
            ) {
                Ok(a) => a,
                Err(e) => {
                    return Err(e);
                },
            };
            Ok(DequeueStatus::Skip(DequeueSkip { reason: reason.clone(), mid: mid.clone() }))
        } else {
            Ok(DequeueStatus::Unknown(action.clone()))
        }
    }

    /// Parse a whole dequeue reply: an array parses as an action row; any
    /// other shape is rejected.
    pub fn from_reply(v: &ReplyValue) -> (r: Result<DequeueStatus, ReplyError>)
        ensures
            v matches ReplyValue::Bulk(b) ==> ((r is Ok <==> dequeue_status_shape_ok(b@)) && (
            r matches Ok(st) ==> dequeue_status_matches(b@, st))),
            !(v is Bulk) ==> (r matches Err(e) && e.desc@
                == "invalid dequeue status - invalid value type"@),
    {
        match v {
            ReplyValue::Bulk(b) => DequeueStatus::try_from(b),
            _ => Err(
                ReplyError { desc: "invalid dequeue status - invalid value type".to_owned() },
            ),
        }
    }
}

/// Prepares the dequeue operation's script call against a queue's keys.
#[derive(Clone)]
pub struct DequeueAction {
    pub queue: Queue,
}

impl DequeueAction {
    pub fn new(queue: Queue) -> (a: DequeueAction)
        ensures
            a.queue == queue,
    {
        DequeueAction { queue }
    }

    /// The dequeue script call: payload, override, lock, done, ready,
    /// circle, dry-run and second-relay keys, with the current time in
    /// milliseconds and the queue's default lock duration as arguments.
    pub fn prepare_invoke(&self, now: i64) -> (call: ScriptCall)
        requires
            -9_223_372_036_854_775 <= now <= 9_223_372_036_854_775,
        ensures
            call.keys@.len() == 8,
            call.keys@[0]@ == self.queue.messages_key@,
            call.keys@[1]@ == self.queue.lock_times_key@,
            call.keys@[2]@ == self.queue.locks_key@,
            call.keys@[3]@ == self.queue.done_key@,
            call.keys@[4]@ == self.queue.mids_ready_key@,
            call.keys@[5]@ == self.queue.mid_circle_key@,
            call.keys@[6]@ == self.queue.ndry_runs_key@,
            call.keys@[7]@ == self.queue.isleep_b_key@,
            call.args@.len() == 2,
            (call.args@[0] matches ScriptArg::Int(n) && n == now * 1000),
            (call.args@[1] matches ScriptArg::Int(d) && d == self.queue.default_lock_ms),
    {
        let mut keys: Vec<String> = Vec::new();
        keys.push(self.queue.messages_key.clone());
        keys.push(self.queue.lock_times_key.clone());
        keys.push(self.queue.locks_key.clone());
        keys.push(self.queue.done_key.clone());
        keys.push(self.queue.mids_ready_key.clone());
        keys.push(self.queue.mid_circle_key.clone());
        keys.push(self.queue.ndry_runs_key.clone());
        keys.push(self.queue.isleep_b_key.clone());
        let mut args: Vec<ScriptArg> = Vec::new();
        args.push(ScriptArg::Int(now * 1000));
        args.push(ScriptArg::Int(self.queue.default_lock_ms));
        ScriptCall { keys, args }
    }
}

#[verifier::external_type_specification]
#[verifier::external_body]
pub struct ExCmd(redis::Cmd);

/// The set-insert store command for a key and a member: what the command
/// builder returns for them, a function of the two alone.
pub uninterp spec fn sadd_of(key: Seq<char>, member: i64) -> redis::Cmd;

/// Relies on redis's command builder: `cmd("SADD")` with a key and a member
/// argument assembles the set-insert command for them, depending on
/// nothing but the two; its result is named `sadd_of`.
#[verifier::external_body]
fn sadd_cmd(key: &str, member: i64) -> (c: redis::Cmd)
    ensures
        c == sadd_of(key@, member),
{
    let mut c = redis::cmd("SADD");
    c.arg(key).arg(member);
    c
}

/// The blocking pop-and-relay store command for a source key, a
/// destination key and a timeout: what the command builder returns for
/// them, a function of the three alone.
pub uninterp spec fn brpoplpush_of(src_key: Seq<char>, dst_key: Seq<char>, timeout_secs: i64) -> redis::Cmd;

/// Relies on redis's command builder: `cmd("BRPOPLPUSH")` with source key,
/// destination key and timeout arguments assembles the blocking
/// pop-and-relay command for them, depending on nothing but the three; its
/// result is named `brpoplpush_of`.
#[verifier::external_body]
fn brpoplpush_cmd(src_key: &str, dst_key: &str, timeout_secs: i64) -> (c: redis::Cmd)
    ensures
        c == brpoplpush_of(src_key@, dst_key@, timeout_secs),
{
    let mut c = redis::cmd("BRPOPLPUSH");
    c.arg(src_key).arg(dst_key).arg(timeout_secs);
    c
}

/// Prepares the finish operation: marking a job irrevocably complete.
#[derive(Clone)]
pub struct FinishAction {
    pub queue: Queue,
}

impl FinishAction {
    pub fn new(queue: Queue) -> (a: FinishAction)
        ensures
            a.queue == queue,
    {
        FinishAction { queue }
    }

    /// The store command that adds `job_id` to the queue's done set:
    /// exactly the set-insert command for the done key and the job's mid.
    pub fn prepare_invoke(&self, job_id: i64) -> (c: redis::Cmd)
        ensures
            c == sadd_of(self.queue.done_key@, job_id),
    {
        sadd_cmd(self.queue.done_key.as_str(), job_id)
    }
}

/// Prepares the sleep operation: blocking on a relay channel with a
/// timeout derived from the dry-run count.
#[derive(Clone)]
pub struct SleepOnAction {
    pub queue: Queue,
}

impl SleepOnAction {
    pub fn new(queue: Queue) -> (a: SleepOnAction)
        ensures
            a.queue == queue,
    {
        SleepOnAction { queue }
    }

    /// The store command that blocks popping the told channel and, when a
    /// token arrives, pushes it onto the opposite channel — a delivered
    /// wake token is relayed onward, not consumed — for at most
    /// `sleep_secs(ndry_runs)` seconds.
    pub fn prepare_invoke(&self, dequeue_sleep: DequeueSleep) -> (c: redis::Cmd)
        ensures
            c == (match dequeue_sleep.sleep_on {
                SleepOn::SleepOnA => brpoplpush_of(
                    self.queue.isleep_a_key@,
                    self.queue.isleep_b_key@,
                    spec_sleep_secs(dequeue_sleep.ndry_runs),
                ),
                SleepOn::SleepOnB => brpoplpush_of(
                    self.queue.isleep_b_key@,
                    self.queue.isleep_a_key@,
                    spec_sleep_secs(dequeue_sleep.ndry_runs),
                ),
            }),
    {
        let sleep_time = sleep_secs(dequeue_sleep.ndry_runs);
        let (src_key, dst_key) = match dequeue_sleep.sleep_on {
            SleepOn::SleepOnA => (self.queue.isleep_a_key.as_str(), self.queue.isleep_b_key.as_str()),
            SleepOn::SleepOnB => (self.queue.isleep_b_key.as_str(), self.queue.isleep_a_key.as_str()),
        };
        brpoplpush_cmd(src_key, dst_key, sleep_time)
    }
}

/// Seconds an idle worker sleeps for a given dry-run count: one right
/// after the first empty poll, three per dry run after that, eighteen at
/// most.
pub open spec fn spec_sleep_secs(ndry_runs: i64) -> i64 {
    if ndry_runs > 6 {
        18
    } else if ndry_runs <= 0 {
        1
    } else {
        (ndry_runs * 3) as i64
    }
}

/// Seconds an idle worker sleeps, as a function of how many consecutive
/// dequeue attempts found no claimable work.
///
/// Backoff grows with the dry spell and is capped: one second right after
/// the first empty poll, three seconds per dry run after that, never more
/// than eighteen.
pub fn sleep_secs(ndry_runs: i64) -> (secs: i64)
    ensures
        secs == spec_sleep_secs(ndry_runs),
        ndry_runs > 6 ==> secs == 18,
        ndry_runs <= 0 ==> secs == 1,
        0 < ndry_runs <= 6 ==> secs == ndry_runs * 3,
{
    if ndry_runs > 6 {
        18
    } else if ndry_runs <= 0 {
        1
    } else {
        ndry_runs * 3
    }
}

} // verus!
