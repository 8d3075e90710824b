//! A persistent background-job runner: job rows, a store with skip-locked
//! dequeue, a registry of handlers keyed by job type, and the decisions that
//! drive the runner's dispatch loop and finish protocol.

pub mod error;
pub mod job;
pub mod registry;
pub mod runner;
pub mod store;

pub use error::{FailedJobsError, FetchError, PerformError, StoreError};
pub use job::BackgroundJob;
pub use registry::{Bridge, JobVTable, Registry, SyncOrAsync};
pub use runner::{Builder, Dispatch, Event, FinishAction, Runner, Step, Wakeup};
pub use store::MemoryStore;
