//! The registry of handlers: a map from job-type name to the descriptor of the
//! handler that decodes and performs jobs of that type.

use vstd::prelude::*;
use crate::error::PerformError;

verus! {

/// Whether a handler is a straight-line function or one that completes later.
#[derive(Debug, Clone, Copy, PartialEq, Eq, Structural)]
pub enum SyncOrAsync {
    Sync,
    Async,
}

/// How a handler of one mode is run in a lane of a given mode.
#[derive(Debug, Clone, Copy, PartialEq, Eq, Structural)]
pub enum Bridge {
    /// A blocking handler in the blocking lane: call it.
    Direct,
    /// A blocking handler in the cooperative lane: call it and hand its result
    /// over as an already completed value.
    Ready,
    /// A cooperative handler in the cooperative lane: call it, then await it.
    Await,
    /// A cooperative handler in the blocking lane: call it, then block the
    /// worker thread until it completes.
    BlockOn,
}

impl SyncOrAsync {
    /// Whether this is the cooperative mode.
    pub fn is_async(&self) -> (r: bool)
        ensures
            r == (*self is Async),
    {
        match self {
            SyncOrAsync::Async => true,
            _ => false,
        }
    }

    /// How a handler of this mode runs when `requested` is the lane's mode.
    pub fn bridge(&self, requested: &SyncOrAsync) -> (r: Bridge)
        ensures
            (*self is Sync && *requested is Sync) ==> r is Direct,
            (*self is Sync && *requested is Async) ==> r is Ready,
            (*self is Async && *requested is Async) ==> r is Await,
            (*self is Async && *requested is Sync) ==> r is BlockOn,
    {
        match (self, requested) {
            (SyncOrAsync::Sync, SyncOrAsync::Sync) => Bridge::Direct,
            (SyncOrAsync::Sync, SyncOrAsync::Async) => Bridge::Ready,
            (SyncOrAsync::Async, SyncOrAsync::Async) => Bridge::Await,
            (SyncOrAsync::Async, SyncOrAsync::Sync) => Bridge::BlockOn,
        }
    }
}

/// The descriptor of one handler: the job type it serves, its mode, and the
/// handler itself.
pub struct JobVTable<H> {
    pub job_type: String,
    pub perform: SyncOrAsync,
    pub handler: H,
}

impl<H> JobVTable<H> {
    /// A descriptor for a handler of the given job type and mode.
    pub fn from_job(job_type: String, perform: SyncOrAsync, handler: H) -> (r: JobVTable<H>)
        ensures
            r == (JobVTable { job_type, perform, handler }),
    {
        JobVTable { job_type, perform, handler }
    }
}

/// The map that a list of descriptors gives when each is added in turn, a
/// later one replacing an earlier one of the same job type.
pub open spec fn table_of<H>(entries: Seq<JobVTable<H>>) -> Map<Seq<char>, JobVTable<H>>
    decreases entries.len(),
{
    if entries.len() == 0 {
        Map::empty()
    } else {
        table_of(entries.drop_last()).insert(entries.last().job_type@, entries.last())
    }
}

proof fn lemma_table_of<H>(s: Seq<JobVTable<H>>, k: Seq<char>)
    ensures
        table_of(s).contains_key(k) <==> exists|i: int| 0 <= i < s.len() && #[trigger] s[i].job_type@ == k,
        forall|i: int|
            0 <= i < s.len() && #[trigger] s[i].job_type@ == k
                && (forall|j: int| i < j < s.len() ==> #[trigger] s[j].job_type@ != k)
                ==> table_of(s)[k] == s[i],
    decreases s.len(),
{
    if s.len() > 0 {
        let p = s.drop_last();
        lemma_table_of(p, k);
        assert forall|i: int| 0 <= i < p.len() implies #[trigger] p[i] == s[i] by {}
        if exists|i: int| 0 <= i < s.len() && #[trigger] s[i].job_type@ == k {
            let i = choose|i: int| 0 <= i < s.len() && #[trigger] s[i].job_type@ == k;
            if i < s.len() - 1 {
                assert(p[i].job_type@ == k);
            }
        }
        if table_of(p).contains_key(k) {
            let i = choose|i: int| 0 <= i < p.len() && #[trigger] p[i].job_type@ == k;
            assert(s[i].job_type@ == k);
        }
        if s.last().job_type@ == k {
            assert(s[s.len() - 1].job_type@ == k);
        }
        assert forall|i: int|
            0 <= i < s.len() && #[trigger] s[i].job_type@ == k
                && (forall|j: int| i < j < s.len() ==> #[trigger] s[j].job_type@ != k)
            implies table_of(s)[k] == s[i] by {
            if i < s.len() - 1 {
                assert(s[s.len() - 1].job_type@ != k);
                assert forall|j: int| i < j < p.len() implies #[trigger] p[j].job_type@ != k by {
                    assert(s[j].job_type@ != k);
                }
                assert(p[i].job_type@ == k);
            }
        }
    }
}

/// Whether two strings hold the same characters.
fn same_text(a: &str, b: &str) -> (r: bool)
    ensures
        r == (a@ == b@),
{
    let n = a.unicode_len();
    if n != b.unicode_len() {
        return false;
    }
    let mut i: usize = 0;
    while i < n
        invariant
            n == a@.len(),
            n == b@.len(),
            i <= n,
            forall|j: int| 0 <= j < i ==> a@[j] == b@[j],
        decreases n - i,
    {
        if a.get_char(i) != b.get_char(i) {
            return false;
        }
        i = i + 1;
    }
    assert(a@ =~= b@);
    true
}

/// The handlers of one environment type, by job type.
pub struct Registry<H> {
    jobs: Vec<JobVTable<H>>,
}

impl<H> View for Registry<H> {
    type V = Map<Seq<char>, JobVTable<H>>;

    closed spec fn view(&self) -> Map<Seq<char>, JobVTable<H>> {
        table_of(self.jobs@)
    }
}

impl<H> Registry<H> {
    /// A registry with no handler.
    pub fn new() -> (r: Registry<H>)
        ensures
            r@ == Map::<Seq<char>, JobVTable<H>>::empty(),
    {
        Registry { jobs: Vec::new() }
    }

    /// A registry of the given descriptors, collected in this order; of two
    /// with the same job type the later one stays.
    pub fn load(entries: Vec<JobVTable<H>>) -> (r: Registry<H>)
        ensures
            r@ == table_of(entries@),
    {
        Registry { jobs: entries }
    }

    /// Adds a descriptor, replacing any of the same job type.
    pub fn register_job(&mut self, entry: JobVTable<H>)
        ensures
            final(self)@ == old(self)@.insert(entry.job_type@, entry),
    {
        self.jobs.push(entry);
        assert(self.jobs@.drop_last() =~= old(self).jobs@);
    }

    /// The descriptor of the handler for this job type.
    pub fn get(&self, job_type: &str) -> (r: Option<&JobVTable<H>>)
        ensures
            match r {
                Some(v) => self@.contains_key(job_type@) && *v == self@[job_type@],
                None => !self@.contains_key(job_type@),
            },
    {
        proof {
            lemma_table_of(self.jobs@, job_type@);
        }
        let mut i: usize = self.jobs.len();
        while i > 0
            invariant
                i <= self.jobs@.len(),
                forall|j: int| i <= j < self.jobs@.len() ==> #[trigger] self.jobs@[j].job_type@ != job_type@,
                table_of(self.jobs@).contains_key(job_type@) <==> exists|j: int|
                    0 <= j < self.jobs@.len() && #[trigger] self.jobs@[j].job_type@ == job_type@,
            decreases i,
        {
            i = i - 1;
            if same_text(self.jobs[i].job_type.as_str(), job_type) {
                assert(self.jobs@[i as int].job_type@ == job_type@);
                assert(forall|j: int| i < j < self.jobs@.len() ==> #[trigger] self.jobs@[j].job_type@ != job_type@);
                proof {
                    lemma_table_of(self.jobs@, job_type@);
                }
                return Some(&self.jobs[i]);
            }
        }
        None
    }

    /// The descriptor of the handler for this job type, or the error that a
    /// job of a type with no handler fails with.
    pub fn lookup(&self, job_type: &str) -> (r: Result<&JobVTable<H>, PerformError>)
        ensures
            match r {
                Ok(v) => self@.contains_key(job_type@) && *v == self@[job_type@],
                Err(e) => !self@.contains_key(job_type@)
                    && e.message@ == unknown_job_prefix() + job_type@,
            },
    {
        match self.get(job_type) {
            Some(v) => Ok(v),
            None => {
                let message = String::from_str("Unknown job type ").concat(job_type);
                proof {
                    reveal_strlit("Unknown job type ");
                }
                Err(PerformError::new(message))
            },
        }
    }
}

/// The text in front of the job type in the error for a job type with no handler.
pub open spec fn unknown_job_prefix() -> Seq<char> {
    seq!['U', 'n', 'k', 'n', 'o', 'w', 'n', ' ', 'j', 'o', 'b', ' ', 't', 'y', 'p', 'e', ' ']
}

} // verus!
