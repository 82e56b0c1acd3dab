//! The decisions of the scheduler loop, which runs the promotion operation
//! continuously.
//!
//! On a successful promotion more jobs may already be due, so the loop
//! re-polls at once; with nothing due, or a reply it does not recognize, it
//! rests a short fixed interval; a transport failure is never fatal — the
//! loop logs, backs off a longer fixed interval, and starts over.
use crate::dequeue_at::DequeueAtStatus;
use vstd::prelude::*;

verus! {

/// Seconds the scheduler rests when nothing was due.
pub const SCHEDULER_IDLE_SECS: i64 = 10;

/// Seconds the scheduler backs off after a transport failure.
pub const SCHEDULER_ERROR_BACKOFF_SECS: i64 = 60;

/// What the scheduler loop does after one promotion attempt.
#[derive(Debug, PartialEq, Eq, Structural)]
pub enum SchedulerAction {
    /// Jobs were promoted: more may be due, poll again immediately.
    PollAgain,
    /// Rest this many seconds, then poll again.
    SleepSecs(i64),
}

/// Decide the scheduler's next action from one promotion outcome.
pub fn scheduler_step(status: &DequeueAtStatus) -> (a: SchedulerAction)
    ensures
        (status is Dequeued ==> a == SchedulerAction::PollAgain),
        (status is NoJob ==> a == SchedulerAction::SleepSecs(SCHEDULER_IDLE_SECS)),
        (status is Unknown ==> a == SchedulerAction::SleepSecs(SCHEDULER_IDLE_SECS)),
{
    match status {
        DequeueAtStatus::Dequeued(_) => SchedulerAction::PollAgain,
        DequeueAtStatus::NoJob => SchedulerAction::SleepSecs(SCHEDULER_IDLE_SECS),
        DequeueAtStatus::Unknown(_) => SchedulerAction::SleepSecs(SCHEDULER_IDLE_SECS),
    }
}

} // verus!
