//! The job row as it stands in the job table.

use vstd::prelude::*;

verus! {

/// One persisted job: its id, the name of its handler, the encoded payload,
/// the lane it runs in and how often it has failed.
#[derive(Debug)]
pub struct BackgroundJob {
    pub id: i64,
    pub job_type: String,
    pub data: Vec<u8>,
    pub is_async: bool,
    pub retries: i32,
}

/// Two rows hold the same values, field by field.
pub open spec fn same_job(a: BackgroundJob, b: BackgroundJob) -> bool {
    &&& a.id == b.id
    &&& a.job_type@ == b.job_type@
    &&& a.data@ == b.data@
    &&& a.is_async == b.is_async
    &&& a.retries == b.retries
}

/// A copy of a byte string.
fn copy_bytes(b: &Vec<u8>) -> (r: Vec<u8>)
    ensures
        r@ == b@,
{
    let mut r: Vec<u8> = Vec::with_capacity(b.len());
    let mut i: usize = 0;
    while i < b.len()
        invariant
            i <= b@.len(),
            r@ == b@.subrange(0, i as int),
        decreases b@.len() - i,
    {
        r.push(b[i]);
        i = i + 1;
    }
    assert(r@ =~= b@);
    r
}

impl BackgroundJob {
    /// A copy of this row, as a reader of the table receives it.
    pub fn snapshot(&self) -> (r: BackgroundJob)
        ensures
            same_job(r, *self),
    {
        BackgroundJob {
            id: self.id,
            job_type: self.job_type.clone(),
            data: copy_bytes(&self.data),
            is_async: self.is_async,
            retries: self.retries,
        }
    }
}

} // verus!
