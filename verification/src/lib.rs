//! A delayed, at-least-once job queue over an atomic key-addressable store.
//!
//! Producers enqueue typed job payloads, immediately or for a future
//! timestamp; independent workers claim, execute and acknowledge them, and
//! jobs whose worker died are recovered once their lock expires.  Every
//! structure the protocol touches lives under a deterministic key space, and
//! every mutation happens inside one atomic multi-key operation, which is the
//! sole concurrency primitive the design relies on.

pub mod dequeue;
pub mod dequeue_at;
pub mod enqueue;
pub mod enqueue_at;
pub mod error;
pub mod helper;
pub mod laws;
pub mod queue;
pub mod redis_keys;
pub mod reply;
pub mod scheduler;
pub mod script;
pub mod store;
pub mod worker;

pub use dequeue::{
    sleep_secs, DequeueAction, DequeueHandle, DequeueSkip, DequeueSleep, DequeueStatus,
    FinishAction, SleepOn, SleepOnAction,
};
pub use dequeue_at::{DequeueAtAction, DequeueAtStatus};
pub use enqueue::{EnqueueAction, EnqueueStatus, EnqueueStatusAdded};
pub use enqueue_at::{EnqueueAtAction, EnqueueAtStatus};
pub use error::{YqError, YqResult, YqRunJobError};
pub use helper::{decode_job, encode_job};
pub use queue::Queue;
pub use reply::{ReplyError, ReplyValue};
pub use script::{ScriptArg, ScriptCall};
pub use scheduler::{scheduler_step, SchedulerAction};
pub use store::Store;
pub use worker::{ack_step, worker_step, WorkerAck, WorkerAction};
