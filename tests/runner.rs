use std::collections::VecDeque;

use coil::runner::{
    check_for_failed_jobs, fetch_from, finish_action, finish_work, get_next_job,
    try_to_extract_panic_info, DEFAULT_TIMEOUT_MS,
};
use coil::{
    BackgroundJob, Builder, Dispatch, Event, FailedJobsError, FetchError, FinishAction,
    JobVTable, MemoryStore, PerformError, Registry, Runner, Step, StoreError, SyncOrAsync, Wakeup,
};

type Handler = fn(&[u8]) -> Result<(), PerformError>;

fn succeed(_data: &[u8]) -> Result<(), PerformError> {
    Ok(())
}

// What the blocking lane's panic barrier hands on for a handler that panics
// with the message "boom".
fn boom(_data: &[u8]) -> Result<(), PerformError> {
    Err(try_to_extract_panic_info(Some("boom")))
}

fn dummy_data() -> Vec<u8> {
    // The encoding of the one-element list [0].
    vec![0x91, 0x00]
}

fn create_dummy_job(store: &mut MemoryStore, is_async: bool) -> i64 {
    store.enqueue("Foo".to_string(), dummy_data(), is_async).unwrap()
}

fn runner_with(entries: Vec<JobVTable<Handler>>, max_tasks: usize) -> Runner<(), Handler> {
    Runner::builder((), Registry::load(entries))
        .num_threads(2)
        .max_tasks(max_tasks)
        .timeout(5000)
        .build(2)
}

fn entry(name: &str, mode: SyncOrAsync, handler: Handler) -> JobVTable<Handler> {
    JobVTable::from_job(name.to_string(), mode, handler)
}

// Each unit of work fetches when it is launched and runs its handler only
// once the dispatch loop has returned, as units still in flight do.
fn run_lane(
    runner: &Runner<(), Handler>,
    store: &mut MemoryStore,
    is_async: bool,
    hook: &mut Vec<i64>,
) -> Result<usize, FetchError> {
    let mut dispatch = runner.start_dispatch();
    let mut events: VecDeque<Event> = VecDeque::new();
    let mut in_flight: Vec<BackgroundJob> = Vec::new();
    let outcome = loop {
        let n = dispatch.fill();
        for _ in 0..n {
            let (event, job) = fetch_from(store, is_async);
            events.push_back(event);
            if let Some(job) = job {
                in_flight.push(job);
            }
        }
        let wakeup = match events.pop_front() {
            Some(e) => Wakeup::Message(e),
            None => Wakeup::TimedOut,
        };
        if let Step::Finished(r) = dispatch.step(wakeup) {
            break r;
        }
    };
    for job in in_flight {
        let result = match runner.perform_target(&job) {
            Ok(vtable) => (vtable.handler)(&job.data),
            Err(e) => Err(e),
        };
        let id = finish_work(store, job.id, &result).unwrap();
        hook.push(id);
    }
    outcome
}

#[test]
fn async_jobs_are_locked_when_fetched() {
    let mut store = MemoryStore::new();
    let first_job_id = create_dummy_job(&mut store, true);
    let second_job_id = create_dummy_job(&mut store, true);
    let (e1, j1) = fetch_from(&mut store, true);
    let (e2, j2) = fetch_from(&mut store, true);
    assert!(matches!(e1, Event::Working));
    assert!(matches!(e2, Event::Working));
    assert_eq!(first_job_id, j1.unwrap().id);
    assert_eq!(second_job_id, j2.unwrap().id);
}

#[test]
fn sync_jobs_are_locked_when_fetched() {
    let mut store = MemoryStore::new();
    let first_job_id = create_dummy_job(&mut store, false);
    let second_job_id = create_dummy_job(&mut store, false);
    let (_, j1) = fetch_from(&mut store, false);
    let (_, j2) = fetch_from(&mut store, false);
    assert_eq!(first_job_id, j1.unwrap().id);
    assert_eq!(second_job_id, j2.unwrap().id);
}

#[test]
fn jobs_are_deleted_when_successfully_run() {
    let mut store = MemoryStore::new();
    create_dummy_job(&mut store, true);
    let (_, job) = fetch_from(&mut store, true);
    let job = job.unwrap();
    finish_work(&mut store, job.id, &Ok(())).unwrap();
    let remaining_jobs = store.len();
    assert_eq!(0, remaining_jobs);
}

#[test]
fn panicking_in_sync_jobs_updates_retry_counter() {
    let mut store = MemoryStore::new();
    let job_id = create_dummy_job(&mut store, false);
    let (_, job) = fetch_from(&mut store, false);
    let job = job.unwrap();
    finish_work(&mut store, job.id, &boom(&job.data)).unwrap();
    let tries = store.retries_of(job_id).unwrap();
    assert_eq!(1, tries);
}

#[test]
fn no_row_is_handed_out_twice() {
    let mut store = MemoryStore::new();
    let a = create_dummy_job(&mut store, true);
    let b = create_dummy_job(&mut store, true);
    let mut seen = Vec::new();
    let mut successes = 0;
    for _ in 0..4 {
        let (event, job) = fetch_from(&mut store, true);
        if let Some(job) = job {
            assert!(matches!(event, Event::Working));
            seen.push(job.id);
            successes += 1;
        } else {
            assert!(matches!(event, Event::NoJobAvailable));
        }
    }
    assert_eq!(2, successes);
    assert_eq!(vec![a, b], seen);
    assert!(store.is_locked(a));
    store.release(a);
    let (_, again) = fetch_from(&mut store, true);
    assert_eq!(a, again.unwrap().id);
}

#[test]
fn lanes_do_not_mix() {
    let mut store = MemoryStore::new();
    let sync_id = create_dummy_job(&mut store, false);
    let async_id = create_dummy_job(&mut store, true);
    let job = store.find_next_unlocked_job(true).unwrap();
    assert_eq!(async_id, job.id);
    assert!(job.is_async);
    assert!(store.find_next_unlocked_job(true).is_none());
    let job = store.find_next_unlocked_job(false).unwrap();
    assert_eq!(sync_id, job.id);
    assert!(!job.is_async);
}

#[test]
fn deletes_on_success() {
    let mut store = MemoryStore::new();
    let id = store.enqueue("noop".to_string(), vec![0xc0], true).unwrap();
    assert_eq!(1, id);
    let runner = runner_with(vec![entry("noop", SyncOrAsync::Async, succeed)], 1);
    let mut hook = Vec::new();
    let r = run_lane(&runner, &mut store, true, &mut hook);
    assert!(matches!(r, Ok(1)));
    assert_eq!(0, store.len());
    assert_eq!(vec![1], hook);
}

#[test]
fn retries_on_panic_blocking() {
    let mut store = MemoryStore::new();
    store.enqueue("noop".to_string(), vec![0xc0], true).unwrap();
    let id = store.enqueue("boom".to_string(), vec![0xc0], false).unwrap();
    assert_eq!(2, id);
    let runner = runner_with(vec![entry("boom", SyncOrAsync::Sync, boom)], 1);
    let mut hook = Vec::new();
    let r = run_lane(&runner, &mut store, false, &mut hook);
    assert!(matches!(r, Ok(1)));
    assert!(store.contains(2));
    assert_eq!(Some(1), store.retries_of(2));
    assert_eq!(1, store.failed_job_count());
}

#[test]
fn skip_locked_isolation() {
    let mut store = MemoryStore::new();
    for _ in 0..2 {
        store.enqueue("filler".to_string(), vec![], false).unwrap();
    }
    let three = store.enqueue("noop".to_string(), vec![], true).unwrap();
    let four = store.enqueue("noop".to_string(), vec![], true).unwrap();
    assert_eq!((3, 4), (three, four));
    let (_, first) = fetch_from(&mut store, true);
    let (_, second) = fetch_from(&mut store, true);
    let first = first.unwrap().id;
    let second = second.unwrap().id;
    assert_ne!(first, second);
    assert_eq!(vec![3, 4], {
        let mut v = vec![first, second];
        v.sort();
        v
    });
    assert_eq!(Ok(3), finish_work(&mut store, first, &Ok(())).map_err(|_| ()));
    assert_eq!(Ok(4), finish_work(&mut store, second, &Ok(())).map_err(|_| ()));
}

#[test]
fn unknown_job_type_is_retained() {
    let mut store = MemoryStore::new();
    for _ in 0..4 {
        store.enqueue("filler".to_string(), vec![], false).unwrap();
    }
    let id = store.enqueue("ghost".to_string(), vec![], true).unwrap();
    assert_eq!(5, id);
    let runner = runner_with(vec![entry("noop", SyncOrAsync::Async, succeed)], 1);
    let job = BackgroundJob { id: 5, job_type: "ghost".to_string(), data: vec![], is_async: true, retries: 0 };
    match runner.perform_target(&job) {
        Err(e) => assert_eq!("Unknown job type ghost", e.message),
        Ok(_) => panic!("a handler was found for an unknown job type"),
    }
    let mut hook = Vec::new();
    let r = run_lane(&runner, &mut store, true, &mut hook);
    assert!(matches!(r, Ok(1)));
    assert!(store.contains(5));
    assert_eq!(Some(1), store.retries_of(5));
}

#[test]
fn timeout_with_a_stalled_fetch() {
    let runner = Runner::builder((), Registry::<Handler>::new()).timeout(100).build(4);
    assert_eq!(100, runner.timeout_ms());
    let mut dispatch = runner.start_dispatch();
    assert_eq!(4, dispatch.fill());
    // No unit reports back before the timer fires.
    let r = dispatch.step(Wakeup::TimedOut);
    assert!(matches!(r, Step::Finished(Err(FetchError::Timeout))));
}

#[test]
fn graceful_end() {
    let mut store = MemoryStore::new();
    for _ in 0..3 {
        store.enqueue("noop".to_string(), vec![], true).unwrap();
    }
    let runner = runner_with(vec![entry("noop", SyncOrAsync::Async, succeed)], 2);
    let mut hook = Vec::new();
    let r = run_lane(&runner, &mut store, true, &mut hook);
    assert!(matches!(r, Ok(3)));
    assert_eq!(0, store.len());
    assert_eq!(vec![1, 2, 3], hook);
    let r = run_lane(&runner, &mut store, true, &mut hook);
    assert!(matches!(r, Ok(0)));
}

#[test]
fn dispatch_counts_working_units() {
    let mut d = Dispatch::new(3);
    assert_eq!(3, d.fill());
    assert_eq!(3, d.pending_count());
    assert!(matches!(d.step(Wakeup::Message(Event::Working)), Step::Continue));
    assert_eq!(2, d.pending_count());
    assert_eq!(1, d.queued_count());
    assert_eq!(1, d.fill());
    assert_eq!(3, d.pending_count());
    assert!(matches!(d.step(Wakeup::Message(Event::NoJobAvailable)), Step::Finished(Ok(1))));
}

#[test]
fn dispatch_stops_on_errors() {
    let mut d = Dispatch::new(2);
    d.fill();
    let r = d.step(Wakeup::Message(Event::ErrorLoadingJob(StoreError::Fetch("down".to_string()))));
    match r {
        Step::Finished(Err(FetchError::FailedLoadingJob(StoreError::Fetch(m)))) => assert_eq!("down", m),
        _ => panic!("the error was not passed on"),
    }
    assert!(matches!(d.step(Wakeup::Closed), Step::Finished(Err(FetchError::NoMessage))));
}

#[test]
fn zero_cap_launches_nothing() {
    let mut d = Dispatch::new(0);
    assert_eq!(0, d.fill());
    assert!(matches!(d.step(Wakeup::TimedOut), Step::Finished(Err(FetchError::Timeout))));
}

#[test]
fn fetch_outcomes_become_events() {
    let job = BackgroundJob { id: 7, job_type: "x".to_string(), data: vec![1], is_async: false, retries: 0 };
    let (e, j) = get_next_job(Ok(Some(job)));
    assert!(matches!(e, Event::Working));
    assert_eq!(7, j.unwrap().id);
    let (e, j) = get_next_job(Ok(None));
    assert!(matches!(e, Event::NoJobAvailable));
    assert!(j.is_none());
    let (e, j) = get_next_job(Err(StoreError::Fetch("lost".to_string())));
    assert!(matches!(e, Event::ErrorLoadingJob(StoreError::Fetch(_))));
    assert!(j.is_none());
}

#[test]
fn finish_actions_follow_the_result() {
    assert!(matches!(finish_action(&Ok(())), FinishAction::DeleteJob));
    let err = PerformError::new("bad".to_string());
    assert!(matches!(finish_action(&Err(err)), FinishAction::MarkFailed));
}

#[test]
fn finishing_a_missing_job_fails() {
    let mut store = MemoryStore::new();
    assert!(matches!(finish_work(&mut store, 9, &Ok(())), Err(StoreError::Delete(_))));
    let err = PerformError::new("bad".to_string());
    assert!(matches!(finish_work(&mut store, 9, &Err(err)), Err(StoreError::Update(_))));
    assert!(matches!(store.delete_successful_job(9), Err(StoreError::Delete(_))));
    assert!(matches!(store.update_failed_job(9), Err(StoreError::Update(_))));
}

#[test]
fn panic_messages() {
    assert_eq!("job panicked: boom", try_to_extract_panic_info(Some("boom")).message);
    assert_eq!("job panicked", try_to_extract_panic_info(None).message);
}

#[test]
fn failed_jobs_check() {
    assert!(check_for_failed_jobs(0).is_ok());
    assert!(matches!(check_for_failed_jobs(2), Err(FailedJobsError::JobsFailed(2))));
}

#[test]
fn builder_defaults() {
    let runner = Builder::new(7u32, Registry::<Handler>::new()).build(6);
    assert_eq!(6, runner.max_tasks());
    assert_eq!(DEFAULT_TIMEOUT_MS, runner.timeout_ms());
    assert_eq!(5000, runner.timeout_ms());
    assert_eq!(7, *runner.environment());
    let b = Builder::new((), Registry::<Handler>::new()).num_threads(3).max_tasks(9);
    assert_eq!(Some(3), b.threads());
    assert_eq!(9, b.build(3).max_tasks());
}
