//! The producer-facing side of the protocol: admitting a job into the ready
//! path.
use crate::queue::Queue;
use crate::reply::{
    data_elem, elem_at, int_elem, read_reply_as_int, read_reply_as_str, ReplyError, ReplyValue,
};
use crate::helper::str_eq;
use crate::script::{ScriptArg, ScriptCall};
use vstd::prelude::*;

verus! {

/// Outcome of an enqueue.
#[derive(Debug)]
pub enum EnqueueStatus {
    Added(EnqueueStatusAdded),
    /// The reply had a shape the client does not recognize; carries the
    /// unrecognized action tag.
    Unknown(String),
}

/// The job was admitted under this mid.
#[derive(Debug)]
pub struct EnqueueStatusAdded {
    pub mid: i64,
}

/// The reply shapes that parse as an enqueue status: the `added` tag, the
/// channel a sleeper was woken on, and the fresh mid.  An unrecognized tag
/// still parses, as `Unknown`.
pub open spec fn enqueue_status_shape_ok(values: Seq<ReplyValue>) -> bool {
    &&& data_elem(values, 0) is Some
    &&& (data_elem(values, 0) == Some("added"@) ==> data_elem(values, 1) is Some && int_elem(
        values,
        2,
    ) is Some)
}

/// What a parsed enqueue status holds in terms of the reply it came from.
pub open spec fn enqueue_status_matches(values: Seq<ReplyValue>, st: EnqueueStatus) -> bool {
    match st {
        EnqueueStatus::Added(a) => {
            &&& data_elem(values, 0) == Some("added"@)
            &&& data_elem(values, 1) is Some
            &&& int_elem(values, 2) == Some(a.mid)
        },
        EnqueueStatus::Unknown(t) => {
            &&& (data_elem(values, 0) matches Some(x) && x == t@ && x != "added"@)
        },
    }
}

impl EnqueueStatus {
    /// Parse an enqueue reply array.
    pub fn try_from(values: &Vec<ReplyValue>) -> (r: Result<EnqueueStatus, ReplyError>)
        ensures
            r is Ok <==> enqueue_status_shape_ok(values@),
            r matches Ok(st) ==> enqueue_status_matches(values@, st),
    {
        proof {
            reveal_strlit("added");
            assert("added"@.len() == 5);
        }
        let action = match read_reply_as_str(
            elem_at(values, 0),
            "invalid enqueue status - invalid action",
        ) {
            Ok(a) => a,
            Err(e) => {
                return Err(e);
            },
        };
        if str_eq(action.as_str(), "added") {
            let _sleep_on = match read_reply_as_str(
                elem_at(values, 1),
                "invalid enqueue status - invalid sleep_on",
            ) {
                Ok(a) => a,
                Err(e) => {
                    return Err(e);
                },
            };
            let mid = match read_reply_as_int(
                elem_at(values, 2),
                "invalid enqueue status - invalid mid",
            ) {
                Ok(a) => a,
                Err(e) => {
                    return Err(e);
                },
            };
            Ok(EnqueueStatus::Added(EnqueueStatusAdded { mid }))
        } else {
            Ok(EnqueueStatus::Unknown(action.clone()))
        }
    }

    /// Parse a whole enqueue reply: an array parses as an action row; any
    /// other shape is rejected.
    pub fn from_reply(v: &ReplyValue) -> (r: Result<EnqueueStatus, ReplyError>)
        ensures
            v matches ReplyValue::Bulk(b) ==> ((r is Ok <==> enqueue_status_shape_ok(b@)) && (
            r matches Ok(st) ==> enqueue_status_matches(b@, st))),
            !(v is Bulk) ==> (r matches Err(e) && e.desc@
                == "invalid enqueue status - invalid value type"@),
    {
        match v {
            ReplyValue::Bulk(b) => EnqueueStatus::try_from(b),
            _ => Err(
                ReplyError { desc: "invalid enqueue status - invalid value type".to_owned() },
            ),
        }
    }
}

/// Prepares the enqueue operation's script call against a queue's keys.
#[derive(Clone)]
pub struct EnqueueAction {
    pub queue: Queue,
}

impl EnqueueAction {
    pub fn new(queue: Queue) -> (a: EnqueueAction)
        ensures
            a.queue == queue,
    {
        EnqueueAction { queue }
    }

    /// The enqueue script call: the counter, payload, override, ready,
    /// circle and both relay keys, with the encoded job and its lock
    /// override as arguments.
    pub fn prepare_invoke(&self, job_data: String, lock_ms: i64) -> (call: ScriptCall)
        ensures
            call.keys@.len() == 7,
            call.keys@[0]@ == self.queue.mid_seq_key@,
            call.keys@[1]@ == self.queue.messages_key@,
            call.keys@[2]@ == self.queue.lock_times_key@,
            call.keys@[3]@ == self.queue.mids_ready_key@,
            call.keys@[4]@ == self.queue.mid_circle_key@,
            call.keys@[5]@ == self.queue.isleep_a_key@,
            call.keys@[6]@ == self.queue.isleep_b_key@,
            call.args@.len() == 2,
            (call.args@[0] matches ScriptArg::Str(s) && s@ == job_data@),
            (call.args@[1] matches ScriptArg::Int(l) && l == lock_ms),
    {
        let mut keys: Vec<String> = Vec::new();
        keys.push(self.queue.mid_seq_key.clone());
        keys.push(self.queue.messages_key.clone());
        keys.push(self.queue.lock_times_key.clone());
        keys.push(self.queue.mids_ready_key.clone());
        keys.push(self.queue.mid_circle_key.clone());
        keys.push(self.queue.isleep_a_key.clone());
        keys.push(self.queue.isleep_b_key.clone());
        let mut args: Vec<ScriptArg> = Vec::new();
        args.push(ScriptArg::Str(job_data));
        args.push(ScriptArg::Int(lock_ms));
        ScriptCall { keys, args }
    }
}

} // verus!
