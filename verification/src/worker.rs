//! The decisions of the worker loop: what one dequeue outcome tells the
//! worker to do next, and how a finished job is acknowledged.
//!
//! The loop itself — clock reads, transport, blocking sleeps and handler
//! dispatch — runs outside the library and performs exactly the action
//! decided here, handing the next event back.
use crate::dequeue::{DequeueSleep, DequeueStatus, SleepOn};
use crate::error::{spec_describe, YqError};
use vstd::prelude::*;

verus! {

/// What a worker does after one dequeue attempt.
#[derive(Debug)]
pub enum WorkerAction {
    /// Block on the told relay channel, with backoff from the dry-run
    /// count.
    Sleep(DequeueSleep),
    /// Run the claimed job, then acknowledge it.
    Run { mid: i64, mcontent: String },
    /// Nothing to hand out this time: try again immediately, no sleep.
    Retry,
}

/// Decide the worker's next action from one dequeue outcome.
///
/// A reply of a shape the client does not recognize is a recoverable
/// protocol error, never fatal: the worker rests the short default backoff
/// — one dry run, first channel, as after a transport failure — and then
/// re-attempts, with the unrecognized tag carried as the sleep reason for
/// the caller's log.
pub fn worker_step(status: DequeueStatus) -> (a: WorkerAction)
    ensures
        (status matches DequeueStatus::Sleep(s) ==> (a matches WorkerAction::Sleep(s2) && s2
            == s)),
        (status matches DequeueStatus::Handle(h) ==> (a matches WorkerAction::Run {
            mid,
            mcontent,
        } && mid == h.mid && mcontent == h.mcontent)),
        (status is Skip ==> a is Retry),
        (status matches DequeueStatus::Unknown(d) ==> (a matches WorkerAction::Sleep(s2) && s2.reason
            == d && s2.sleep_on == SleepOn::SleepOnA && s2.ndry_runs == 1)),
{
    match status {
        DequeueStatus::Sleep(s) => WorkerAction::Sleep(s),
        DequeueStatus::Handle(h) => WorkerAction::Run { mid: h.mid, mcontent: h.mcontent },
        DequeueStatus::Skip(_) => WorkerAction::Retry,
        DequeueStatus::Unknown(d) => WorkerAction::Sleep(
            DequeueSleep { reason: d, sleep_on: SleepOn::SleepOnA, ndry_runs: 1 },
        ),
    }
}

/// How a worker acknowledges a job once its handler returned.
#[derive(Debug)]
pub enum WorkerAck {
    /// The handler succeeded: mark the job done.
    Finish { mid: i64 },
    /// The handler failed: record the error description, and the job's
    /// data when the failure carries it.
    Fail { mid: i64, job_data: Option<String>, error: String },
}

/// Decide the acknowledgement from a handler's outcome.
///
/// A handler failure carries the job's data and its own error text, and
/// both are recorded; any other error of the dispatch layer is recorded
/// under its kind alone, leaving the failed-content map untouched.
pub fn ack_step(mid: i64, outcome: Result<(), YqError>) -> (a: WorkerAck)
    ensures
        (outcome is Ok ==> (a matches WorkerAck::Finish { mid: m } && m == mid)),
        (outcome matches Err(YqError::RunJobError(r)) ==> (a matches WorkerAck::Fail {
            mid: m,
            job_data,
            error,
        } && m == mid && job_data == Some(r.job_data) && error == r.error)),
        (match outcome {
            Err(e) => !(e is RunJobError) ==> (a matches WorkerAck::Fail {
                mid: m,
                job_data,
                error,
            } && m == mid && job_data is None && error@ == spec_describe(e)),
            _ => true,
        }),
{
    match outcome {
        Ok(_) => WorkerAck::Finish { mid },
        Err(YqError::RunJobError(r)) => WorkerAck::Fail {
            mid,
            job_data: Some(r.job_data),
            error: r.error,
        },
        Err(other) => WorkerAck::Fail { mid, job_data: None, error: other.describe() },
    }
}

} // verus!
