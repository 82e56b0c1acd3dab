//! The producer-facing side of the protocol for delayed jobs: admitting a
//! job into the schedule, invisible to workers until promoted.
use crate::helper::str_eq;
use crate::queue::Queue;
use crate::reply::{
    data_elem, elem_at, int_elem, read_reply_as_int, read_reply_as_str, ReplyError, ReplyValue,
};
use crate::script::{ScriptArg, ScriptCall};
use vstd::prelude::*;

verus! {

/// Outcome of a delayed enqueue.
#[derive(Debug)]
pub enum EnqueueAtStatus {
    /// The job was admitted into the schedule under this mid.
    Added(i64),
    /// The reply had a shape the client does not recognize; carries the
    /// unrecognized action tag.
    Unknown(String),
}

/// The reply shapes that parse as a delayed-enqueue status: the `added` tag
/// and the fresh mid.  An unrecognized tag still parses, as `Unknown`.
pub open spec fn enqueue_at_status_shape_ok(values: Seq<ReplyValue>) -> bool {
    &&& data_elem(values, 0) is Some
    &&& (data_elem(values, 0) == Some("added"@) ==> int_elem(values, 1) is Some)
}

/// What a parsed delayed-enqueue status holds in terms of the reply it came
/// from.
pub open spec fn enqueue_at_status_matches(values: Seq<ReplyValue>, st: EnqueueAtStatus) -> bool {
    match st {
        EnqueueAtStatus::Added(mid) => {
            &&& data_elem(values, 0) == Some("added"@)
            &&& int_elem(values, 1) == Some(mid)
        },
        EnqueueAtStatus::Unknown(t) => {
            &&& (data_elem(values, 0) matches Some(x) && x == t@ && x != "added"@)
        },
    }
}

impl EnqueueAtStatus {
    /// Parse a delayed-enqueue reply array.
    pub fn try_from(values: &Vec<ReplyValue>) -> (r: Result<EnqueueAtStatus, ReplyError>)
        ensures
            r is Ok <==> enqueue_at_status_shape_ok(values@),
            r matches Ok(st) ==> enqueue_at_status_matches(values@, st),
    {
        proof {
            reveal_strlit("added");
            assert("added"@.len() == 5);
        }
        let action = match read_reply_as_str(
            elem_at(values, 0),
            "invalid enqueue at status - invalid action",
        ) {
            Ok(a) => a,
            Err(e) => {
                return Err(e);
            },
        };
        if str_eq(action.as_str(), "added") {
            let mid = match read_reply_as_int(
                elem_at(values, 1),
                "invalid enqueue at status - invalid mid",
            ) {
                Ok(a) => a,
                Err(e) => {
                    return Err(e);
                },
            };
            Ok(EnqueueAtStatus::Added(mid))
        } else {
            Ok(EnqueueAtStatus::Unknown(action.clone()))
        }
    }

    /// Parse a whole delayed-enqueue reply: an array parses as an action
    /// row; any other shape is rejected.
    pub fn from_reply(v: &ReplyValue) -> (r: Result<EnqueueAtStatus, ReplyError>)
        ensures
            v matches ReplyValue::Bulk(b) ==> ((r is Ok <==> enqueue_at_status_shape_ok(b@)) && (
            r matches Ok(st) ==> enqueue_at_status_matches(b@, st))),
            !(v is Bulk) ==> (r matches Err(e) && e.desc@
                == "invalid enqueue at status - invalid value type"@),
    {
        match v {
            ReplyValue::Bulk(b) => EnqueueAtStatus::try_from(b),
            _ => Err(
                ReplyError { desc: "invalid enqueue at status - invalid value type".to_owned() },
            ),
        }
    }
}

/// Prepares the delayed-enqueue operation's script call against a queue's
/// keys.
#[derive(Clone)]
pub struct EnqueueAtAction {
    pub queue: Queue,
}

impl EnqueueAtAction {
    pub fn new(queue: Queue) -> (a: EnqueueAtAction)
        ensures
            a.queue == queue,
    {
        EnqueueAtAction { queue }
    }

    /// The delayed-enqueue script call: the counter, payload and schedule
    /// keys, with the encoded job and its run-at time as arguments.  The
    /// ready path and the wake channels are not among the keys: a scheduled
    /// job is invisible to workers until promoted.
    pub fn prepare_invoke(&self, job_data: String, run_at: i64) -> (call: ScriptCall)
        ensures
            call.keys@.len() == 3,
            call.keys@[0]@ == self.queue.mid_seq_key@,
            call.keys@[1]@ == self.queue.messages_key@,
            call.keys@[2]@ == self.queue.schedule_key@,
            call.args@.len() == 2,
            (call.args@[0] matches ScriptArg::Str(s) && s@ == job_data@),
            (call.args@[1] matches ScriptArg::Int(t) && t == run_at),
    {
        let mut keys: Vec<String> = Vec::new();
        keys.push(self.queue.mid_seq_key.clone());
        keys.push(self.queue.messages_key.clone());
        keys.push(self.queue.schedule_key.clone());
        let mut args: Vec<ScriptArg> = Vec::new();
        args.push(ScriptArg::Str(job_data));
        args.push(ScriptArg::Int(run_at));
        ScriptCall { keys, args }
    }
}

} // verus!
