//! The library's error types.

use vstd::prelude::*;

verus! {

/// A failure of the job store.
#[derive(Debug)]
pub enum StoreError {
    /// A row could not be inserted.
    Insert(String),
    /// The next job could not be fetched.
    Fetch(String),
    /// A successful job could not be deleted: no row has its id.
    Delete(String),
    /// A failed job could not be marked: no row has its id, or its counter
    /// cannot grow.
    Update(String),
}

/// A failure on the handler's side: a payload that does not decode, a job type
/// with no handler, an error of the handler, or a panic that was caught.
#[derive(Debug)]
pub struct PerformError {
    pub message: String,
}

impl PerformError {
    /// An error with the given message.
    pub fn new(message: String) -> (r: PerformError)
        ensures
            r.message@ == message@,
    {
        PerformError { message }
    }
}

/// Why a dispatch run stopped without reaching the end of the queue.
#[derive(Debug)]
pub enum FetchError {
    /// No unit of work reported back within the fetch timeout.
    Timeout,
    /// Every sender of the event channel went away.
    NoMessage,
    /// A unit of work could not load its job.
    FailedLoadingJob(StoreError),
}

/// Jobs were left failed in the table after a run.
#[derive(Debug)]
pub enum FailedJobsError {
    /// This many rows hold a failure.
    JobsFailed(usize),
}

} // verus!
