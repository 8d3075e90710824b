//! The runner's decisions: the counters of a dispatch loop and how each event
//! moves them, what a unit of work reports after its fetch, the finish
//! protocol, and the configuration that a runner is built from.

use vstd::prelude::*;
use crate::error::{FailedJobsError, FetchError, PerformError, StoreError};
use crate::job::BackgroundJob;
use crate::registry::{JobVTable, Registry, unknown_job_prefix};
use crate::store::{MemoryStore, bumped, delete_rows, fetch_post, has_id, update_rows};

verus! {

/// The fetch timeout when none is configured, in milliseconds.
pub const DEFAULT_TIMEOUT_MS: u64 = 5000;

/// What a unit of work reports to the dispatch loop after its fetch.
#[derive(Debug)]
pub enum Event {
    /// It locked a job and is about to run it.
    Working,
    /// The lane had no job left.
    NoJobAvailable,
    /// It could not load a job.
    ErrorLoadingJob(StoreError),
}

/// What woke the dispatch loop.
#[derive(Debug)]
pub enum Wakeup {
    /// An event arrived on the channel.
    Message(Event),
    /// The channel closed.
    Closed,
    /// The fetch timeout elapsed first.
    TimedOut,
}

/// What the dispatch loop does after a wakeup.
#[derive(Debug)]
pub enum Step {
    /// Refill the free slots and wait again.
    Continue,
    /// Return this from the run.
    Finished(Result<usize, FetchError>),
}

/// The counters of one dispatch run: units launched that have not reported
/// back, and units that reported that they are working.
pub struct Dispatch {
    max_tasks: usize,
    pending: usize,
    queued: usize,
}

/// What a wakeup does to the counters and what the loop does next.
pub open spec fn step_post(before: Dispatch, after: Dispatch, w: Wakeup, r: Step) -> bool {
    &&& after.max_tasks() == before.max_tasks()
    &&& match w {
        Wakeup::Message(Event::Working) => {
            &&& r is Continue
            &&& after.pending() == if before.pending() > 0 { before.pending() - 1 } else { 0 }
            &&& after.queued() == before.queued() + 1
        },
        Wakeup::Message(Event::NoJobAvailable) => {
            &&& r == Step::Finished(Ok(before.queued() as usize))
            &&& after == before
        },
        Wakeup::Message(Event::ErrorLoadingJob(e)) => {
            &&& r == Step::Finished(Err(FetchError::FailedLoadingJob(e)))
            &&& after == before
        },
        Wakeup::Closed => r == Step::Finished(Err(FetchError::NoMessage)) && after == before,
        Wakeup::TimedOut => r == Step::Finished(Err(FetchError::Timeout)) && after == before,
    }
}

impl Dispatch {
    /// The concurrency cap of the run.
    pub closed spec fn max_tasks(&self) -> nat {
        self.max_tasks as nat
    }

    /// Units launched that have not reported back.
    pub closed spec fn pending(&self) -> nat {
        self.pending as nat
    }

    /// Units that reported that they are working.
    pub closed spec fn queued(&self) -> nat {
        self.queued as nat
    }

    /// No more units are awaited than the cap allows.
    pub open spec fn well_formed(&self) -> bool {
        self.pending() <= self.max_tasks()
    }

    /// The counters at the start of a run.
    pub fn new(max_tasks: usize) -> (r: Dispatch)
        ensures
            r.well_formed(),
            r.max_tasks() == max_tasks,
            r.pending() == 0,
            r.queued() == 0,
    {
        Dispatch { max_tasks, pending: 0, queued: 0 }
    }

    /// Units that reported that they are working.
    pub fn queued_count(&self) -> (r: usize)
        ensures
            r == self.queued(),
    {
        self.queued
    }

    /// Units launched that have not reported back.
    pub fn pending_count(&self) -> (r: usize)
        ensures
            r == self.pending(),
    {
        self.pending
    }

    /// Takes the free slots: returns how many units to launch now, and counts
    /// them as pending.
    pub fn fill(&mut self) -> (r: usize)
        requires
            old(self).well_formed(),
        ensures
            final(self).well_formed(),
            r == old(self).max_tasks() - old(self).pending(),
            final(self).pending() == final(self).max_tasks(),
            final(self).max_tasks() == old(self).max_tasks(),
            final(self).queued() == old(self).queued(),
    {
        let n = self.max_tasks - self.pending;
        self.pending = self.max_tasks;
        n
    }

    /// Takes what woke the loop and says what to do next.
    pub fn step(&mut self, w: Wakeup) -> (r: Step)
        requires
            old(self).well_formed(),
            old(self).queued() < usize::MAX,
        ensures
            final(self).well_formed(),
            step_post(*old(self), *final(self), w, r),
    {
        match w {
            Wakeup::Message(Event::Working) => {
                if self.pending > 0 {
                    self.pending = self.pending - 1;
                }
                self.queued = self.queued + 1;
                Step::Continue
            },
            Wakeup::Message(Event::NoJobAvailable) => Step::Finished(Ok(self.queued)),
            Wakeup::Message(Event::ErrorLoadingJob(e)) => Step::Finished(Err(FetchError::FailedLoadingJob(e))),
            Wakeup::Closed => Step::Finished(Err(FetchError::NoMessage)),
            Wakeup::TimedOut => Step::Finished(Err(FetchError::Timeout)),
        }
    }
}

/// What a unit of work reports for the outcome of its fetch, and the job it
/// goes on with, if any.
pub fn get_next_job(fetched: Result<Option<BackgroundJob>, StoreError>) -> (r: (Event, Option<BackgroundJob>))
    ensures
        match fetched {
            Ok(Some(job)) => r.0 is Working && r.1 == Some(job),
            Ok(None) => r.0 is NoJobAvailable && r.1 is None,
            Err(e) => r.0 == Event::ErrorLoadingJob(e) && r.1 is None,
        },
{
    match fetched {
        Ok(Some(job)) => (Event::Working, Some(job)),
        Ok(None) => (Event::NoJobAvailable, None),
        Err(e) => (Event::ErrorLoadingJob(e), None),
    }
}

/// A unit of work's fetch from the in-memory table, in lane `is_async`.
pub fn fetch_from(store: &mut MemoryStore, is_async: bool) -> (r: (Event, Option<BackgroundJob>))
    requires
        old(store).well_formed(),
    ensures
        final(store).well_formed(),
        fetch_post(*old(store), *final(store), is_async, r.1),
        r.1 is Some <==> r.0 is Working,
        r.1 is None <==> r.0 is NoJobAvailable,
{
    let job = store.find_next_unlocked_job(is_async);
    get_next_job(Ok(job))
}

/// What the finish protocol does to a job's row.
#[derive(Debug, Clone, Copy, PartialEq, Eq, Structural)]
pub enum FinishAction {
    /// The handler succeeded: delete the row.
    DeleteJob,
    /// The handler failed: add one to the row's retry counter.
    MarkFailed,
}

/// The finish action for a handler's result.
pub fn finish_action(result: &Result<(), PerformError>) -> (r: FinishAction)
    ensures
        result is Ok <==> r is DeleteJob,
        result is Err <==> r is MarkFailed,
{
    match result {
        Ok(()) => FinishAction::DeleteJob,
        Err(_) => FinishAction::MarkFailed,
    }
}

/// What the finish protocol does to the table for a handler's result, and
/// what it returns.
pub open spec fn finish_post(
    before: MemoryStore,
    after: MemoryStore,
    job_id: i64,
    result: Result<(), PerformError>,
    r: Result<i64, StoreError>,
) -> bool {
    &&& after.locked() == before.locked().remove(job_id)
    &&& after.last_id() == before.last_id()
    &&& result is Ok ==> delete_rows(before.rows(), after.rows(), job_id, r is Ok)
    &&& result is Err ==> update_rows(before.rows(), after.rows(), job_id, r is Ok)
    &&& r matches Ok(id) ==> id == job_id
    &&& r matches Err(e) ==> (result is Ok ==> e is Delete) && (result is Err ==> e is Update)
}

/// The finish protocol on the in-memory table: delete the row of a job that
/// succeeded or bump the counter of one that failed, then end the unit's
/// transaction. Returns the id that the finish hook is called with, or the
/// error of the finishing step.
pub fn finish_work(store: &mut MemoryStore, job_id: i64, result: &Result<(), PerformError>) -> (r: Result<i64, StoreError>)
    requires
        old(store).well_formed(),
    ensures
        final(store).well_formed(),
        finish_post(*old(store), *final(store), job_id, *result, r),
{
    let done = match finish_action(result) {
        FinishAction::DeleteJob => store.delete_successful_job(job_id),
        FinishAction::MarkFailed => store.update_failed_job(job_id),
    };
    store.release(job_id);
    match done {
        Ok(()) => Ok(job_id),
        Err(e) => Err(e),
    }
}

/// The error for a handler that panicked, with the panic's message when it
/// has one.
pub fn try_to_extract_panic_info(message: Option<&str>) -> (r: PerformError)
    ensures
        match message {
            Some(m) => r.message@ == panic_prefix() + seq![':', ' '] + m@,
            None => r.message@ == panic_prefix(),
        },
{
    proof {
        reveal_strlit("job panicked");
        reveal_strlit("job panicked: ");
    }
    match message {
        Some(m) => {
            let text = String::from_str("job panicked: ").concat(m);
            assert(text@ =~= panic_prefix() + seq![':', ' '] + m@);
            PerformError::new(text)
        },
        None => PerformError::new(String::from_str("job panicked")),
    }
}

/// The message of a handler that panicked without a readable payload.
pub open spec fn panic_prefix() -> Seq<char> {
    seq!['j', 'o', 'b', ' ', 'p', 'a', 'n', 'i', 'c', 'k', 'e', 'd']
}

/// The outcome of a check for failed jobs, from the number of rows that hold
/// a failure.
pub fn check_for_failed_jobs(num_failed: usize) -> (r: Result<(), FailedJobsError>)
    ensures
        num_failed == 0 <==> r is Ok,
        r matches Err(FailedJobsError::JobsFailed(n)) ==> n == num_failed,
{
    if num_failed == 0 {
        Ok(())
    } else {
        Err(FailedJobsError::JobsFailed(num_failed))
    }
}

/// The configuration that a runner is built from.
pub struct Builder<Env, H> {
    environment: Env,
    num_threads: Option<usize>,
    max_tasks: Option<usize>,
    registry: Registry<H>,
    timeout_ms: Option<u64>,
}

impl<Env, H> Builder<Env, H> {
    /// The environment handed to every handler.
    pub closed spec fn env(&self) -> Env {
        self.environment
    }

    /// The size asked for the blocking pool, if any.
    pub closed spec fn threads_setting(&self) -> Option<usize> {
        self.num_threads
    }

    /// The concurrency cap asked for, if any.
    pub closed spec fn max_tasks_setting(&self) -> Option<usize> {
        self.max_tasks
    }

    /// The fetch timeout asked for, in milliseconds, if any.
    pub closed spec fn timeout_setting(&self) -> Option<u64> {
        self.timeout_ms
    }

    /// The handlers, by job type.
    pub closed spec fn handlers(&self) -> Map<Seq<char>, JobVTable<H>> {
        self.registry@
    }

    /// A configuration with the given environment and handlers and every
    /// other option left to its default.
    pub fn new(env: Env, registry: Registry<H>) -> (r: Builder<Env, H>)
        ensures
            r.env() == env,
            r.handlers() == registry@,
            r.threads_setting() is None,
            r.max_tasks_setting() is None,
            r.timeout_setting() is None,
    {
        Builder { environment: env, num_threads: None, max_tasks: None, registry, timeout_ms: None }
    }

    /// Adds a handler, replacing any of the same job type.
    pub fn register_job(self, entry: JobVTable<H>) -> (r: Builder<Env, H>)
        ensures
            r.handlers() == self.handlers().insert(entry.job_type@, entry),
            r.env() == self.env(),
            r.threads_setting() == self.threads_setting(),
            r.max_tasks_setting() == self.max_tasks_setting(),
            r.timeout_setting() == self.timeout_setting(),
    {
        let mut b = self;
        b.registry.register_job(entry);
        b
    }

    /// Sets the size of the blocking pool.
    pub fn num_threads(self, threads: usize) -> (r: Builder<Env, H>)
        ensures
            r.threads_setting() == Some(threads),
            r.env() == self.env(),
            r.handlers() == self.handlers(),
            r.max_tasks_setting() == self.max_tasks_setting(),
            r.timeout_setting() == self.timeout_setting(),
    {
        Builder { num_threads: Some(threads), ..self }
    }

    /// Sets the concurrency cap of a dispatch run.
    pub fn max_tasks(self, max_tasks: usize) -> (r: Builder<Env, H>)
        ensures
            r.max_tasks_setting() == Some(max_tasks),
            r.env() == self.env(),
            r.handlers() == self.handlers(),
            r.threads_setting() == self.threads_setting(),
            r.timeout_setting() == self.timeout_setting(),
    {
        Builder { max_tasks: Some(max_tasks), ..self }
    }

    /// Sets the fetch timeout, in milliseconds.
    pub fn timeout(self, timeout_ms: u64) -> (r: Builder<Env, H>)
        ensures
            r.timeout_setting() == Some(timeout_ms),
            r.env() == self.env(),
            r.handlers() == self.handlers(),
            r.threads_setting() == self.threads_setting(),
            r.max_tasks_setting() == self.max_tasks_setting(),
    {
        Builder { timeout_ms: Some(timeout_ms), ..self }
    }

    /// The size asked for the blocking pool, if any.
    pub fn threads(&self) -> (r: Option<usize>)
        ensures
            r == self.threads_setting(),
    {
        self.num_threads
    }

    /// The runner, once the blocking pool has been made with `pool_threads`
    /// threads: the cap defaults to the pool's size and the timeout to five
    /// seconds.
    pub fn build(self, pool_threads: usize) -> (r: Runner<Env, H>)
        ensures
            r.env() == self.env(),
            r.handlers() == self.handlers(),
            r.cap() == match self.max_tasks_setting() {
                Some(n) => n,
                None => pool_threads,
            },
            r.timeout() == match self.timeout_setting() {
                Some(t) => t,
                None => DEFAULT_TIMEOUT_MS,
            },
    {
        let max_tasks = match self.max_tasks {
            Some(n) => n,
            None => pool_threads,
        };
        let timeout_ms = match self.timeout_ms {
            Some(t) => t,
            None => DEFAULT_TIMEOUT_MS,
        };
        Runner { environment: self.environment, registry: self.registry, max_tasks, timeout_ms }
    }
}

/// The handler that a runner picks for a job, or the error of a job type with
/// no handler.
pub open spec fn target_post<Env, H>(runner: Runner<Env, H>, job: BackgroundJob, r: Result<&JobVTable<H>, PerformError>) -> bool {
    match r {
        Ok(v) => runner.handlers().contains_key(job.job_type@) && *v == runner.handlers()[job.job_type@],
        Err(e) => !runner.handlers().contains_key(job.job_type@)
            && e.message@ == unknown_job_prefix() + job.job_type@,
    }
}

/// A runner: the environment and handlers shared by every unit of work, the
/// concurrency cap of a dispatch run, and the fetch timeout.
pub struct Runner<Env, H> {
    environment: Env,
    registry: Registry<H>,
    max_tasks: usize,
    timeout_ms: u64,
}

impl<Env, H> Runner<Env, H> {
    /// The environment handed to every handler.
    pub closed spec fn env(&self) -> Env {
        self.environment
    }

    /// The handlers, by job type.
    pub closed spec fn handlers(&self) -> Map<Seq<char>, JobVTable<H>> {
        self.registry@
    }

    /// The concurrency cap of a dispatch run.
    pub closed spec fn cap(&self) -> usize {
        self.max_tasks
    }

    /// The fetch timeout, in milliseconds.
    pub closed spec fn timeout(&self) -> u64 {
        self.timeout_ms
    }

    /// A configuration with the given environment and handlers.
    pub fn builder(env: Env, registry: Registry<H>) -> (r: Builder<Env, H>)
        ensures
            r.env() == env,
            r.handlers() == registry@,
            r.threads_setting() is None,
            r.max_tasks_setting() is None,
            r.timeout_setting() is None,
    {
        Builder::new(env, registry)
    }

    /// The environment handed to every handler.
    pub fn environment(&self) -> (r: &Env)
        ensures
            *r == self.env(),
    {
        &self.environment
    }

    /// The concurrency cap of a dispatch run.
    pub fn max_tasks(&self) -> (r: usize)
        ensures
            r == self.cap(),
    {
        self.max_tasks
    }

    /// The fetch timeout, in milliseconds.
    pub fn timeout_ms(&self) -> (r: u64)
        ensures
            r == self.timeout(),
    {
        self.timeout_ms
    }

    /// The counters for a new dispatch run.
    pub fn start_dispatch(&self) -> (r: Dispatch)
        ensures
            r.well_formed(),
            r.max_tasks() == self.cap(),
            r.pending() == 0,
            r.queued() == 0,
    {
        Dispatch::new(self.max_tasks)
    }

    /// The handler for a job, or the error of a job type with no handler.
    pub fn perform_target(&self, job: &BackgroundJob) -> (r: Result<&JobVTable<H>, PerformError>)
        ensures
            target_post(*self, *job, r),
    {
        self.registry.lookup(job.job_type.as_str())
    }
}

/// No wakeup takes the dispatch loop past its cap: at every point the units
/// awaited number at most `max_tasks`.
pub proof fn lemma_cap_kept(d0: Dispatch, d1: Dispatch, w: Wakeup, r: Step)
    requires
        d0.well_formed(),
        step_post(d0, d1, w, r),
    ensures
        d1.well_formed(),
        d1.pending() <= d1.max_tasks(),
{
}

/// A job whose type has no handler fails, and the finish protocol, handed
/// that failure, keeps its row and adds one to its retry counter.
pub proof fn lemma_unknown_job_retained<Env, H>(
    runner: Runner<Env, H>,
    before: MemoryStore,
    after: MemoryStore,
    i: int,
    target: Result<&JobVTable<H>, PerformError>,
    result: Result<(), PerformError>,
    r: Result<i64, StoreError>,
)
    requires
        before.well_formed(),
        0 <= i < before.rows().len(),
        before.rows()[i].retries < i32::MAX,
        !runner.handlers().contains_key(before.rows()[i].job_type@),
        target_post(runner, before.rows()[i], target),
        target is Err ==> result == Err::<(), PerformError>(target->Err_0),
        finish_post(before, after, before.rows()[i].id, result, r),
    ensures
        target is Err,
        r is Ok,
        exists|k: int|
            0 <= k < after.rows().len() && after.rows()[k].id == before.rows()[i].id
                && after.rows()[k].retries == before.rows()[i].retries + 1,
{
    let rows = before.rows();
    let k = choose|k: int| 0 <= k < rows.len() && #[trigger] rows[k].id == rows[i].id
        && after.rows() == rows.update(k, after.rows()[k]) && bumped(rows[k], after.rows()[k]);
    if k != i {
        if k < i {
            assert(rows[k].id < rows[i].id);
        } else {
            assert(rows[i].id < rows[k].id);
        }
    }
    assert(after.rows()[k].id == rows[i].id);
}

/// The finish hook runs after the commit: when the finish protocol hands out
/// the id of a job that succeeded, its row is gone and no transaction holds it.
pub proof fn lemma_hook_after_commit(
    before: MemoryStore,
    after: MemoryStore,
    job_id: i64,
    result: Result<(), PerformError>,
    r: Result<i64, StoreError>,
)
    requires
        finish_post(before, after, job_id, result, r),
        result is Ok,
        r is Ok,
    ensures
        r->Ok_0 == job_id,
        !has_id(after.rows(), r->Ok_0),
        !after.locked().contains(r->Ok_0),
{
}

} // verus!
