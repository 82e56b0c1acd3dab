//! The scheduler-facing side of the protocol: promoting due jobs from the
//! schedule into the ready path.
use crate::helper::str_eq;
use crate::queue::Queue;
use crate::reply::{
    data_elem, elem_at, int_elem, read_reply_as_int, read_reply_as_str, ReplyError, ReplyValue,
};
use crate::script::{ScriptArg, ScriptCall};
use vstd::prelude::*;

verus! {

/// Outcome of one promotion attempt.
#[derive(Debug)]
pub enum DequeueAtStatus {
    /// This many due jobs were moved into the ready path.
    Dequeued(i64),
    /// Nothing was due.
    NoJob,
    /// The reply had a shape the client does not recognize; carries the
    /// unrecognized action tag.
    Unknown(String),
}

/// The reply shapes that parse as a promotion status: the `dequeued` tag
/// with a count, or the bare `no-job` tag.  An unrecognized tag still
/// parses, as `Unknown`.
pub open spec fn dequeue_at_status_shape_ok(values: Seq<ReplyValue>) -> bool {
    &&& data_elem(values, 0) is Some
    &&& (data_elem(values, 0) == Some("dequeued"@) ==> int_elem(values, 1) is Some)
}

/// What a parsed promotion status holds in terms of the reply it came from.
pub open spec fn dequeue_at_status_matches(values: Seq<ReplyValue>, st: DequeueAtStatus) -> bool {
    match st {
        DequeueAtStatus::Dequeued(count) => {
            &&& data_elem(values, 0) == Some("dequeued"@)
            &&& int_elem(values, 1) == Some(count)
        },
        DequeueAtStatus::NoJob => {
            &&& data_elem(values, 0) == Some("no-job"@)
        },
        DequeueAtStatus::Unknown(t) => {
            &&& (data_elem(values, 0) matches Some(x) && x == t@ && x != "dequeued"@ && x
                != "no-job"@)
        },
    }
}

impl DequeueAtStatus {
    /// Parse a promotion reply array.
    pub fn try_from(values: &Vec<ReplyValue>) -> (r: Result<DequeueAtStatus, ReplyError>)
        ensures
            r is Ok <==> dequeue_at_status_shape_ok(values@),
            r matches Ok(st) ==> dequeue_at_status_matches(values@, st),
    {
        proof {
            reveal_strlit("dequeued");
            reveal_strlit("no-job");
            assert("dequeued"@.len() == 8);
            assert("no-job"@.len() == 6);
        }
        let action = match read_reply_as_str(
            elem_at(values, 0),
            "invalid dequeue at status - invalid action",
        ) {
            Ok(a) => a,
            Err(e) => {
                return Err(e);
            },
        };
        if str_eq(action.as_str(), "dequeued") {
            let count = match read_reply_as_int(
                elem_at(values, 1),
                "invalid dequeue at status - invalid count",
            ) {
                Ok(a) => a,
                Err(e) => {
                    return Err(e);
                },
            };
            Ok(DequeueAtStatus::Dequeued(count))
        } else if str_eq(action.as_str(), "no-job") {
            Ok(DequeueAtStatus::NoJob)
        } else {
            Ok(DequeueAtStatus::Unknown(action.clone()))
        }
    }

    /// Parse a whole promotion reply: an array parses as an action row; any
    /// other shape is rejected.
    pub fn from_reply(v: &ReplyValue) -> (r: Result<DequeueAtStatus, ReplyError>)
        ensures
            v matches ReplyValue::Bulk(b) ==> ((r is Ok <==> dequeue_at_status_shape_ok(b@)) && (
            r matches Ok(st) ==> dequeue_at_status_matches(b@, st))),
            !(v is Bulk) ==> (r matches Err(e) && e.desc@
                == "invalid dequeue at status - invalid value type"@),
    {
        match v {
            ReplyValue::Bulk(b) => DequeueAtStatus::try_from(b),
            _ => Err(
                ReplyError { desc: "invalid dequeue at status - invalid value type".to_owned() },
            ),
        }
    }
}

/// Prepares the promotion operation's script call against a queue's keys.
pub struct DequeueAtAction {
    pub queue: Queue,
}

impl DequeueAtAction {
    pub fn new(queue: Queue) -> (a: DequeueAtAction)
        ensures
            a.queue == queue,
    {
        DequeueAtAction { queue }
    }

    /// The promotion script call: the ready, circle and schedule keys, with
    /// the current time as its argument.
    pub fn prepare_invoke(&self, run_at: i64) -> (call: ScriptCall)
        ensures
            call.keys@.len() == 3,
            call.keys@[0]@ == self.queue.mids_ready_key@,
            call.keys@[1]@ == self.queue.mid_circle_key@,
            call.keys@[2]@ == self.queue.schedule_key@,
            call.args@.len() == 1,
            (call.args@[0] matches ScriptArg::Int(t) && t == run_at),
    {
        let mut keys: Vec<String> = Vec::new();
        keys.push(self.queue.mids_ready_key.clone());
        keys.push(self.queue.mid_circle_key.clone());
        keys.push(self.queue.schedule_key.clone());
        let mut args: Vec<ScriptArg> = Vec::new();
        args.push(ScriptArg::Int(run_at));
        ScriptCall { keys, args }
    }
}

} // verus!
