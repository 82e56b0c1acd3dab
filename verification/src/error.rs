//! Error taxonomy of the queue.
//!
//! Connection and setup problems are fatal to startup; protocol-level
//! surprises (a reply of an unexpected shape) are recoverable by the caller's
//! loop; job execution errors are routed to failure bookkeeping; best-effort
//! side channels only log.  Transport diagnostics are carried as plain text.
use vstd::prelude::*;

verus! {

pub type YqResult<T> = Result<T, YqError>;

#[derive(Debug, PartialEq, Eq)]
pub enum YqError {
    CreateRedisClient(String),
    GetRedisConn(String),
    Dequeue(String),
    DequeueAt(String),
    Enqueue(String),
    EnqueueAt(String),
    SerializeJob(String),
    DupJobType(String),
    JobTypeMissing(String),
    InvalidJobData(String),
    RunJobError(YqRunJobError),
    FailJobError(String),
}

/// The kind tag `describe` renders for each error.
pub open spec fn spec_describe(e: YqError) -> Seq<char> {
    match e {
        YqError::CreateRedisClient(_) => "CreateRedisClient"@,
        YqError::GetRedisConn(_) => "GetRedisConn"@,
        YqError::Dequeue(_) => "Dequeue"@,
        YqError::DequeueAt(_) => "DequeueAt"@,
        YqError::Enqueue(_) => "Enqueue"@,
        YqError::EnqueueAt(_) => "EnqueueAt"@,
        YqError::SerializeJob(_) => "SerializeJob"@,
        YqError::DupJobType(_) => "DupJobType"@,
        YqError::JobTypeMissing(_) => "JobTypeMissing"@,
        YqError::InvalidJobData(_) => "InvalidJobData"@,
        YqError::RunJobError(_) => "RunJobError"@,
        YqError::FailJobError(_) => "FailJobError"@,
    }
}

impl YqError {
    /// The error's kind as text, for logs and failure bookkeeping.
    pub fn describe(&self) -> (s: String)
        ensures
            s@ == spec_describe(*self),
    {
        match self {
            YqError::CreateRedisClient(_) => "CreateRedisClient".to_owned(),
            YqError::GetRedisConn(_) => "GetRedisConn".to_owned(),
            YqError::Dequeue(_) => "Dequeue".to_owned(),
            YqError::DequeueAt(_) => "DequeueAt".to_owned(),
            YqError::Enqueue(_) => "Enqueue".to_owned(),
            YqError::EnqueueAt(_) => "EnqueueAt".to_owned(),
            YqError::SerializeJob(_) => "SerializeJob".to_owned(),
            YqError::DupJobType(_) => "DupJobType".to_owned(),
            YqError::JobTypeMissing(_) => "JobTypeMissing".to_owned(),
            YqError::InvalidJobData(_) => "InvalidJobData".to_owned(),
            YqError::RunJobError(_) => "RunJobError".to_owned(),
            YqError::FailJobError(_) => "FailJobError".to_owned(),
        }
    }
}

/// A job handler reported failure: the job's serialized data and the error
/// description, as recorded in the failure bookkeeping.
#[derive(Debug, PartialEq, Eq)]
pub struct YqRunJobError {
    pub job_data: String,
    pub error: String,
}

impl YqRunJobError {
    pub fn new(job_data: String, error: String) -> (e: YqRunJobError)
        ensures
            e.job_data == job_data,
            e.error == error,
    {
        YqRunJobError { job_data, error }
    }
}

} // verus!
