//! An in-memory job table with the semantics of the persisted one: ids are
//! assigned in ascending order, a dequeue takes the oldest row of a lane that
//! no open transaction holds and locks it, success deletes the row and failure
//! bumps its retry counter.

use vstd::prelude::*;
use crate::error::StoreError;
use crate::job::{BackgroundJob, same_job};

verus! {

/// Row ids grow strictly from the front of the table to its back.
pub open spec fn ids_ascending(rows: Seq<BackgroundJob>) -> bool {
    forall|i: int, j: int| 0 <= i < j < rows.len() ==> rows[i].id < rows[j].id
}

/// Some row has this id.
pub open spec fn has_id(rows: Seq<BackgroundJob>, id: i64) -> bool {
    exists|i: int| 0 <= i < rows.len() && rows[i].id == id
}

/// Row `i` belongs to the lane and no transaction holds it.
pub open spec fn available(rows: Seq<BackgroundJob>, locked: Set<i64>, is_async: bool, i: int) -> bool {
    &&& 0 <= i < rows.len()
    &&& rows[i].is_async == is_async
    &&& !locked.contains(rows[i].id)
}

/// Row `i` is the oldest available row of the lane.
pub open spec fn is_next_unlocked(rows: Seq<BackgroundJob>, locked: Set<i64>, is_async: bool, i: int) -> bool {
    &&& available(rows, locked, is_async, i)
    &&& forall|j: int| 0 <= j < i && (#[trigger] rows[j]).is_async == is_async ==> locked.contains(rows[j].id)
}

/// No row of the lane is available.
pub open spec fn lane_exhausted(rows: Seq<BackgroundJob>, locked: Set<i64>, is_async: bool) -> bool {
    forall|j: int| 0 <= j < rows.len() && (#[trigger] rows[j]).is_async == is_async ==> locked.contains(rows[j].id)
}

/// The number of rows that have failed at least once.
pub open spec fn failed_count(rows: Seq<BackgroundJob>) -> nat
    decreases rows.len(),
{
    if rows.len() == 0 {
        0
    } else {
        failed_count(rows.drop_last()) + if rows.last().retries > 0 { 1nat } else { 0nat }
    }
}

/// Row `b` is row `a` with its retry counter one higher.
pub open spec fn bumped(a: BackgroundJob, b: BackgroundJob) -> bool {
    &&& b.id == a.id
    &&& b.job_type == a.job_type
    &&& b.data == a.data
    &&& b.is_async == a.is_async
    &&& b.retries == a.retries + 1
}

/// What a dequeue in lane `is_async` hands out and leaves behind: the oldest
/// available row of the lane, now locked, or nothing when the lane has none.
pub open spec fn fetch_post(before: MemoryStore, after: MemoryStore, is_async: bool, r: Option<BackgroundJob>) -> bool {
    &&& after.rows() == before.rows()
    &&& after.last_id() == before.last_id()
    &&& match r {
        Some(job) => exists|i: int|
            #[trigger] is_next_unlocked(before.rows(), before.locked(), is_async, i)
                && same_job(job, before.rows()[i])
                && after.locked() == before.locked().insert(job.id),
        None => lane_exhausted(before.rows(), before.locked(), is_async)
            && after.locked() == before.locked(),
    }
}

/// What deleting the row with this id does to the rows: it goes, or, when
/// there is no such row, the call fails (`ok` is false) and nothing changes.
pub open spec fn delete_rows(before: Seq<BackgroundJob>, after: Seq<BackgroundJob>, id: i64, ok: bool) -> bool {
    &&& (ok <==> has_id(before, id))
    &&& ok ==> exists|i: int| 0 <= i < before.len() && #[trigger] before[i].id == id && after == before.remove(i)
    &&& ok ==> !has_id(after, id)
    &&& !ok ==> after == before
}

/// What marking the row with this id as failed does to the rows: its counter
/// grows by one and every other row stays; with no such row, or a counter at
/// its limit, the call fails (`ok` is false) and nothing changes.
pub open spec fn update_rows(before: Seq<BackgroundJob>, after: Seq<BackgroundJob>, id: i64, ok: bool) -> bool {
    &&& (ok <==> exists|i: int| 0 <= i < before.len() && #[trigger] before[i].id == id && before[i].retries < i32::MAX)
    &&& ok ==> exists|i: int|
        0 <= i < before.len() && #[trigger] before[i].id == id
            && after == before.update(i, after[i])
            && bumped(before[i], after[i])
    &&& !ok ==> after == before
}

/// What `delete_successful_job` does.
pub open spec fn delete_post(before: MemoryStore, after: MemoryStore, id: i64, r: Result<(), StoreError>) -> bool {
    &&& after.locked() == before.locked()
    &&& after.last_id() == before.last_id()
    &&& delete_rows(before.rows(), after.rows(), id, r is Ok)
    &&& r matches Err(e) ==> e is Delete
}

/// What `update_failed_job` does.
pub open spec fn update_post(before: MemoryStore, after: MemoryStore, id: i64, r: Result<(), StoreError>) -> bool {
    &&& after.locked() == before.locked()
    &&& after.last_id() == before.last_id()
    &&& update_rows(before.rows(), after.rows(), id, r is Ok)
    &&& r matches Err(e) ==> e is Update
}

/// The job table.
pub struct MemoryStore {
    rows: Vec<BackgroundJob>,
    locked: Vec<i64>,
    last_id: i64,
}

impl MemoryStore {
    /// The rows, oldest first.
    pub closed spec fn rows(&self) -> Seq<BackgroundJob> {
        self.rows@
    }

    /// The ids of the rows that open transactions hold.
    pub closed spec fn locked(&self) -> Set<i64> {
        Set::new(|id: i64| self.locked@.contains(id))
    }

    /// The id that was handed out last (0 before the first insert).
    pub closed spec fn last_id(&self) -> int {
        self.last_id as int
    }

    /// The lock list has no repeats and no row id exceeds the last one handed out.
    pub closed spec fn bookkeeping(&self) -> bool {
        &&& self.locked@.no_duplicates()
        &&& 0 <= self.last_id
        &&& forall|i: int| 0 <= i < self.rows@.len() ==> #[trigger] self.rows@[i].id <= self.last_id
    }

    /// The table's invariant.
    pub open spec fn well_formed(&self) -> bool {
        &&& ids_ascending(self.rows())
        &&& forall|i: int|
            0 <= i < self.rows().len() ==> {
                &&& #[trigger] self.rows()[i].id > 0
                &&& self.rows()[i].retries >= 0
                &&& self.rows()[i].job_type@.len() > 0
            }
        &&& self.bookkeeping()
    }

    /// An empty table.
    pub fn new() -> (r: MemoryStore)
        ensures
            r.well_formed(),
            r.rows() == Seq::<BackgroundJob>::empty(),
            r.locked() == Set::<i64>::empty(),
            r.last_id() == 0,
    {
        let r = MemoryStore { rows: Vec::new(), locked: Vec::new(), last_id: 0 };
        assert(r.locked() =~= Set::<i64>::empty());
        r
    }

    /// The number of rows.
    pub fn len(&self) -> (r: usize)
        ensures
            r == self.rows().len(),
    {
        self.rows.len()
    }

    /// The position of the row with this id, if there is one.
    fn position_of(&self, id: i64) -> (r: Option<usize>)
        ensures
            match r {
                Some(i) => i < self.rows().len() && self.rows()[i as int].id == id,
                None => !has_id(self.rows(), id),
            },
    {
        let mut i: usize = 0;
        while i < self.rows.len()
            invariant
                i <= self.rows@.len(),
                forall|j: int| 0 <= j < i ==> self.rows@[j].id != id,
            decreases self.rows@.len() - i,
        {
            if self.rows[i].id == id {
                return Some(i);
            }
            i = i + 1;
        }
        None
    }

    /// Whether a row with this id is in the table.
    pub fn contains(&self, id: i64) -> (r: bool)
        ensures
            r == has_id(self.rows(), id),
    {
        self.position_of(id).is_some()
    }

    /// The retry counter of the row with this id, if there is one.
    pub fn retries_of(&self, id: i64) -> (r: Option<i32>)
        ensures
            match r {
                Some(n) => exists|i: int|
                    0 <= i < self.rows().len() && self.rows()[i].id == id && self.rows()[i].retries == n,
                None => !has_id(self.rows(), id),
            },
    {
        match self.position_of(id) {
            Some(i) => Some(self.rows[i].retries),
            None => None,
        }
    }

    /// Whether an open transaction holds the row with this id.
    pub fn is_locked(&self, id: i64) -> (r: bool)
        ensures
            r == self.locked().contains(id),
    {
        let mut k: usize = 0;
        while k < self.locked.len()
            invariant
                k <= self.locked@.len(),
                forall|j: int| 0 <= j < k ==> self.locked@[j] != id,
            decreases self.locked@.len() - k,
        {
            if self.locked[k] == id {
                return true;
            }
            k = k + 1;
        }
        false
    }

    /// Inserts a job and returns its id, one above the last id handed out.
    /// Fails with `Insert` when the job type is empty or the ids are used up.
    pub fn enqueue(&mut self, job_type: String, data: Vec<u8>, is_async: bool) -> (r: Result<i64, StoreError>)
        requires
            old(self).well_formed(),
        ensures
            final(self).well_formed(),
            final(self).locked() == old(self).locked(),
            (r is Ok <==> (job_type@.len() > 0 && old(self).last_id() < i64::MAX)),
            r matches Ok(id) ==> {
                &&& id == old(self).last_id() + 1
                &&& final(self).last_id() == id
                &&& final(self).rows() == old(self).rows().push(
                    BackgroundJob { id, job_type, data, is_async, retries: 0 },
                )
            },
            r matches Err(e) ==> e is Insert && *final(self) == *old(self),
    {
        if job_type.as_str().unicode_len() == 0 {
            return Err(StoreError::Insert(String::from_str("job type is empty")));
        }
        if self.last_id == i64::MAX {
            return Err(StoreError::Insert(String::from_str("job ids are exhausted")));
        }
        let id = self.last_id + 1;
        self.last_id = id;
        self.rows.push(BackgroundJob { id, job_type, data, is_async, retries: 0 });
        assert(self.locked() =~= old(self).locked());
        Ok(id)
    }

    /// Takes the oldest row of the lane that no transaction holds, locks it
    /// and hands out a copy. `None` when the lane has no such row.
    pub fn find_next_unlocked_job(&mut self, is_async: bool) -> (r: Option<BackgroundJob>)
        requires
            old(self).well_formed(),
        ensures
            final(self).well_formed(),
            fetch_post(*old(self), *final(self), is_async, r),
            r matches Some(job) ==> job.is_async == is_async && !old(self).locked().contains(job.id),
    {
        let mut i: usize = 0;
        while i < self.rows.len()
            invariant
                self == old(self),
                self.well_formed(),
                i <= self.rows@.len(),
                forall|j: int| 0 <= j < i && (#[trigger] self.rows()[j]).is_async == is_async ==> self.locked().contains(self.rows()[j].id),
            decreases self.rows@.len() - i,
        {
            if self.rows[i].is_async == is_async && !self.is_locked(self.rows[i].id) {
                let job = self.rows[i].snapshot();
                assert(is_next_unlocked(self.rows(), self.locked(), is_async, i as int));
                let ghost before = self.locked@;
                self.locked.push(job.id);
                assert forall|x: i64| #[trigger] self.locked@.contains(x) <==> (before.contains(x) || x == job.id) by {
                    if before.contains(x) {
                        let m = choose|m: int| 0 <= m < before.len() && before[m] == x;
                        assert(self.locked@[m] == x);
                    }
                    if x == job.id {
                        assert(self.locked@[before.len() as int] == x);
                    }
                    if self.locked@.contains(x) {
                        let m = choose|m: int| 0 <= m < self.locked@.len() && self.locked@[m] == x;
                        if m < before.len() {
                            assert(before[m] == x);
                        }
                    }
                }
                assert(self.locked() =~= old(self).locked().insert(job.id));
                return Some(job);
            }
            i = i + 1;
        }
        None
    }

    /// Deletes the row of a job that succeeded.
    pub fn delete_successful_job(&mut self, id: i64) -> (r: Result<(), StoreError>)
        requires
            old(self).well_formed(),
        ensures
            final(self).well_formed(),
            delete_post(*old(self), *final(self), id, r),
    {
        match self.position_of(id) {
            None => Err(StoreError::Delete(String::from_str("no job with that id"))),
            Some(i) => {
                let ghost before = self.rows@;
                self.rows.remove(i);
                assert(self.locked() =~= old(self).locked());
                assert forall|k: int| 0 <= k < self.rows@.len() implies self.rows@[k].id != id by {
                    if k < i {
                        assert(before[k].id < before[i as int].id);
                    } else {
                        assert(self.rows@[k] == before[k + 1]);
                        assert(before[i as int].id < before[k + 1].id);
                    }
                }
                assert(forall|k: int| 0 <= k < self.rows@.len() ==> #[trigger] self.rows@[k] == before[if k < i { k } else { k + 1 }]);
                Ok(())
            },
        }
    }

    /// Adds one to the retry counter of a job that failed; the row stays.
    pub fn update_failed_job(&mut self, id: i64) -> (r: Result<(), StoreError>)
        requires
            old(self).well_formed(),
        ensures
            final(self).well_formed(),
            update_post(*old(self), *final(self), id, r),
    {
        match self.position_of(id) {
            None => Err(StoreError::Update(String::from_str("no job with that id"))),
            Some(i) => {
                if self.rows[i].retries == i32::MAX {
                    assert(forall|k: int| 0 <= k < self.rows@.len() && #[trigger] self.rows@[k].id == id ==> k == i);
                    return Err(StoreError::Update(String::from_str("retry counter is at its limit")));
                }
                let ghost before = self.rows@;
                let mut row = self.rows.remove(i);
                row.retries = row.retries + 1;
                self.rows.insert(i, row);
                assert(self.rows@ =~= before.update(i as int, self.rows@[i as int]));
                assert(self.locked() =~= old(self).locked());
                Ok(())
            },
        }
    }

    /// Ends the transaction that holds the row with this id, by commit or by
    /// rollback: the row can be dequeued again if it is still there.
    pub fn release(&mut self, id: i64)
        requires
            old(self).well_formed(),
        ensures
            final(self).well_formed(),
            final(self).rows() == old(self).rows(),
            final(self).last_id() == old(self).last_id(),
            final(self).locked() == old(self).locked().remove(id),
    {
        let mut k: usize = 0;
        while k < self.locked.len()
            invariant
                self == old(self),
                self.well_formed(),
                k <= self.locked@.len(),
                forall|j: int| 0 <= j < k ==> self.locked@[j] != id,
            decreases self.locked@.len() - k,
        {
            if self.locked[k] == id {
                let ghost before = self.locked@;
                self.locked.swap_remove(k);
                let ghost last: int = before.len() - 1;
                assert(before.no_duplicates());
                assert forall|m: int| 0 <= m < self.locked@.len() implies #[trigger] self.locked@[m] == before[if m == k { last } else { m }] by {}
                assert forall|m: int| 0 <= m < self.locked@.len() implies #[trigger] self.locked@[m] != id by {
                    if m == k {
                        assert(self.locked@[m] == before[last]);
                        assert(k != last);
                    } else {
                        assert(self.locked@[m] == before[m]);
                    }
                }
                assert forall|a: int, b: int| 0 <= a < b < self.locked@.len() implies self.locked@[a] != self.locked@[b] by {
                    assert(self.locked@[a] == before[if a == k { last } else { a }]);
                    assert(self.locked@[b] == before[if b == k { last } else { b }]);
                }
                assert forall|x: i64| x != id && before.contains(x) implies #[trigger] self.locked@.contains(x) by {
                    let m = choose|m: int| 0 <= m < before.len() && before[m] == x;
                    if m == before.len() - 1 {
                        assert(self.locked@[k as int] == x);
                    } else {
                        assert(self.locked@[m] == x);
                    }
                }
                assert(self.locked@.no_duplicates());
                assert(self.locked() =~= old(self).locked().remove(id));
                return;
            }
            k = k + 1;
        }
        assert(self.locked() =~= old(self).locked().remove(id));
    }

    /// The number of rows that have failed at least once.
    pub fn failed_job_count(&self) -> (r: usize)
        ensures
            r == failed_count(self.rows()),
    {
        let mut n: usize = 0;
        let mut i: usize = 0;
        while i < self.rows.len()
            invariant
                i <= self.rows@.len(),
                n == failed_count(self.rows@.subrange(0, i as int)),
                n <= i,
            decreases self.rows@.len() - i,
        {
            assert(self.rows@.subrange(0, i as int + 1).drop_last() =~= self.rows@.subrange(0, i as int));
            if self.rows[i].retries > 0 {
                n = n + 1;
            }
            i = i + 1;
        }
        assert(self.rows@.subrange(0, i as int) =~= self.rows@);
        n
    }
}

/// Over any number of dequeues with no release between them, no two hand out
/// the same row, and every row handed out is still held at the end.
pub proof fn lemma_fetches_exclusive(
    states: Seq<MemoryStore>,
    lanes: Seq<bool>,
    results: Seq<Option<BackgroundJob>>,
)
    requires
        states.len() == results.len() + 1,
        lanes.len() == results.len(),
        forall|k: int| 0 <= k < results.len() ==> fetch_post(states[k], states[k + 1], lanes[k], #[trigger] results[k]),
    ensures
        forall|a: int, b: int|
            0 <= a < b < results.len() && (#[trigger] results[a]) is Some && (#[trigger] results[b]) is Some
                ==> results[a]->Some_0.id != results[b]->Some_0.id,
        forall|a: int|
            0 <= a < results.len() && (#[trigger] results[a]) is Some
                ==> states.last().locked().contains(results[a]->Some_0.id),
    decreases results.len(),
{
    if results.len() > 0 {
        let n = results.len() - 1;
        let ps = states.drop_last();
        let pl = lanes.drop_last();
        let pr = results.drop_last();
        assert forall|k: int| 0 <= k < pr.len() implies fetch_post(ps[k], ps[k + 1], pl[k], #[trigger] pr[k]) by {
            assert(fetch_post(states[k], states[k + 1], lanes[k], results[k]));
        }
        lemma_fetches_exclusive(ps, pl, pr);
        let before = states[n];
        let after = states[n + 1];
        assert(fetch_post(before, after, lanes[n], results[n]));
        assert(ps.last() == before);
        assert forall|a: int| 0 <= a < n && (#[trigger] results[a]) is Some implies before.locked().contains(
            results[a]->Some_0.id,
        ) by {
            assert(pr[a] == results[a]);
        }
        if results[n] is Some {
            let j = results[n]->Some_0;
            let i = choose|i: int| #[trigger] is_next_unlocked(before.rows(), before.locked(), lanes[n], i)
                && same_job(j, before.rows()[i]) && after.locked() == before.locked().insert(j.id);
            assert(!before.locked().contains(j.id));
        }
        assert forall|a: int, b: int|
            0 <= a < b < results.len() && (#[trigger] results[a]) is Some && (#[trigger] results[b]) is Some
            implies results[a]->Some_0.id != results[b]->Some_0.id by {
            if b < n {
                assert(pr[a] == results[a] && pr[b] == results[b]);
            } else {
                assert(before.locked().contains(results[a]->Some_0.id));
            }
        }
        assert(states.last() == after);
    }
}

/// A dequeue comes back empty only when every row of its lane is held by an
/// open transaction.
pub proof fn lemma_fetch_empty_means_all_held(s0: MemoryStore, s1: MemoryStore, lane: bool, i: int)
    requires
        fetch_post(s0, s1, lane, None),
        0 <= i < s0.rows().len(),
        s0.rows()[i].is_async == lane,
    ensures
        s0.locked().contains(s0.rows()[i].id),
{
    assert(s0.rows()[i].is_async == lane);
}

/// The number of rows of the lane.
pub open spec fn lane_size(rows: Seq<BackgroundJob>, lane: bool) -> nat
    decreases rows.len(),
{
    if rows.len() == 0 {
        0
    } else {
        lane_size(rows.drop_last(), lane) + if rows.last().is_async == lane { 1nat } else { 0nat }
    }
}

/// The number of rows of the lane that open transactions hold.
pub open spec fn held_in_lane(rows: Seq<BackgroundJob>, locked: Set<i64>, lane: bool) -> nat
    decreases rows.len(),
{
    if rows.len() == 0 {
        0
    } else {
        held_in_lane(rows.drop_last(), locked, lane)
            + if rows.last().is_async == lane && locked.contains(rows.last().id) { 1nat } else { 0nat }
    }
}

/// The number of dequeues that handed out a row.
pub open spec fn handed_out(results: Seq<Option<BackgroundJob>>) -> nat
    decreases results.len(),
{
    if results.len() == 0 {
        0
    } else {
        handed_out(results.drop_last()) + if results.last() is Some { 1nat } else { 0nat }
    }
}

proof fn lemma_held_at_most_size(rows: Seq<BackgroundJob>, locked: Set<i64>, lane: bool)
    ensures
        held_in_lane(rows, locked, lane) <= lane_size(rows, lane),
    decreases rows.len(),
{
    if rows.len() > 0 {
        lemma_held_at_most_size(rows.drop_last(), locked, lane);
    }
}

proof fn lemma_exhausted_holds_all(rows: Seq<BackgroundJob>, locked: Set<i64>, lane: bool)
    requires
        lane_exhausted(rows, locked, lane),
    ensures
        held_in_lane(rows, locked, lane) == lane_size(rows, lane),
    decreases rows.len(),
{
    if rows.len() > 0 {
        let p = rows.drop_last();
        assert forall|j: int| 0 <= j < p.len() && (#[trigger] p[j]).is_async == lane implies locked.contains(p[j].id) by {
            assert(rows[j] == p[j]);
        }
        lemma_exhausted_holds_all(p, locked, lane);
        assert(rows[rows.len() - 1] == rows.last());
    }
}

proof fn lemma_lock_other_id(rows: Seq<BackgroundJob>, locked: Set<i64>, lane: bool, id: i64)
    requires
        !has_id(rows, id),
    ensures
        held_in_lane(rows, locked.insert(id), lane) == held_in_lane(rows, locked, lane),
    decreases rows.len(),
{
    if rows.len() > 0 {
        let p = rows.drop_last();
        assert(!has_id(p, id)) by {
            if has_id(p, id) {
                let k = choose|k: int| 0 <= k < p.len() && p[k].id == id;
                assert(rows[k].id == id);
            }
        }
        lemma_lock_other_id(p, locked, lane, id);
        assert(rows[rows.len() - 1].id != id);
    }
}

proof fn lemma_lock_one_more(rows: Seq<BackgroundJob>, locked: Set<i64>, lane: bool, i: int)
    requires
        ids_ascending(rows),
        0 <= i < rows.len(),
        rows[i].is_async == lane,
        !locked.contains(rows[i].id),
    ensures
        held_in_lane(rows, locked.insert(rows[i].id), lane) == held_in_lane(rows, locked, lane) + 1,
    decreases rows.len(),
{
    let p = rows.drop_last();
    let id = rows[i].id;
    if i == rows.len() - 1 {
        assert(!has_id(p, id)) by {
            if has_id(p, id) {
                let k = choose|k: int| 0 <= k < p.len() && p[k].id == id;
                assert(rows[k].id < rows[i].id);
            }
        }
        lemma_lock_other_id(p, locked, lane, id);
    } else {
        assert(p[i] == rows[i]);
        lemma_lock_one_more(p, locked, lane, i);
        assert(rows[i].id < rows[rows.len() - 1].id);
    }
}

/// Seed the lane with rows that no one holds and let units of work dequeue
/// from it, with no release between them: as many succeed as there are units
/// or rows, whichever is fewer, and the rows handed out are exactly the rows
/// of the lane now held.
pub proof fn lemma_fetch_count(
    states: Seq<MemoryStore>,
    lane: bool,
    results: Seq<Option<BackgroundJob>>,
)
    requires
        states.len() == results.len() + 1,
        states[0].well_formed(),
        held_in_lane(states[0].rows(), states[0].locked(), lane) == 0,
        forall|k: int| 0 <= k < results.len() ==> fetch_post(states[k], states[k + 1], lane, #[trigger] results[k]),
    ensures
        states.last().rows() == states[0].rows(),
        handed_out(results) == held_in_lane(states[0].rows(), states.last().locked(), lane),
        handed_out(results) == if results.len() < lane_size(states[0].rows(), lane) {
            results.len() as nat
        } else {
            lane_size(states[0].rows(), lane)
        },
    decreases results.len(),
{
    if results.len() > 0 {
        let n = results.len() - 1;
        let ps = states.drop_last();
        let pr = results.drop_last();
        assert forall|k: int| 0 <= k < pr.len() implies fetch_post(ps[k], ps[k + 1], lane, #[trigger] pr[k]) by {
            assert(fetch_post(states[k], states[k + 1], lane, results[k]));
        }
        lemma_fetch_count(ps, lane, pr);
        let rows = states[0].rows();
        let before = states[n];
        let after = states[n + 1];
        assert(ps.last() == before);
        assert(fetch_post(before, after, lane, results[n]));
        assert(results.last() == results[n]);
        lemma_held_at_most_size(rows, before.locked(), lane);
        lemma_held_at_most_size(rows, after.locked(), lane);
        match results[n] {
            Some(j) => {
                let i = choose|i: int| #[trigger] is_next_unlocked(before.rows(), before.locked(), lane, i)
                    && same_job(j, before.rows()[i]) && after.locked() == before.locked().insert(j.id);
                lemma_lock_one_more(rows, before.locked(), lane, i);
            },
            None => {
                lemma_exhausted_holds_all(rows, before.locked(), lane);
            },
        }
        assert(states.last() == after);
    }
}

} // verus!
