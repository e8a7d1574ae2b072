//! The workers that run long jobs beside the interface: a queue that they share
//! and their names. A job is a value that a worker knows how to run.

use vstd::prelude::*;
use vstd::string::*;
use crate::queue::{open_queue, send_job, JobEnd, JobQueue};
use crate::text::numbered;
#[allow(unused_imports)]
use crate::text::dec;

verus! {

/// How many workers there are: while a long job keeps one of them busy, the
/// other is there for short ones.
pub const DEFAULT_WORKERS: usize = 2;

/// The name of a worker.
pub open spec fn worker_name(i: nat) -> Seq<char> {
    "hxy-bg-"@ + dec(i)
}

/// The queue of the jobs.
#[verifier::reject_recursive_types(T)]
pub struct BackgroundPool<T> {
    pub jobs: JobQueue<T>,
}

/// What starting the workers takes: their queue, its other end for each of
/// them, and their names.
#[verifier::reject_recursive_types(T)]
pub struct Started<T> {
    pub pool: BackgroundPool<T>,
    pub rx: JobEnd<T>,
    pub names: Vec<String>,
}

/// Whether names are those of some workers, in order.
pub open spec fn names_workers(names: Seq<String>, workers: nat) -> bool {
    &&& names.len() == workers
    &&& forall|i: int| 0 <= i < names.len() ==> (#[trigger] names[i])@ == worker_name(i as nat)
}

/// Whether some workers can start: they have their names, and what they take jobs
/// from is the other end of the pool's queue, which no job went into yet.
pub open spec fn workers_ready<T>(started: Started<T>, workers: nat) -> bool {
    &&& names_workers(started.names@, workers)
    &&& started.pool.jobs.queue() == started.rx.queue()
    &&& started.pool.jobs.sent() == Seq::<T>::empty()
}

/// Whether one pool is another that was handed a job: it is the last one in the
/// queue, or it came back and the queue is as it was.
pub open spec fn job_handed<T>(
    before: BackgroundPool<T>,
    job: T,
    back: Option<T>,
    after: BackgroundPool<T>,
) -> bool {
    &&& after.jobs.queue() == before.jobs.queue()
    &&& match back {
        None => after.jobs.sent() == before.jobs.sent().push(job),
        Some(same) => same == job && after.jobs.sent() == before.jobs.sent(),
    }
}

impl<T> BackgroundPool<T> {
    /// Opens a queue for some workers.
    pub fn new(workers: usize) -> (r: Started<T>)
        requires
            workers > 0,
        ensures
            workers_ready(r, workers as nat),
    {
        let (jobs, rx) = open_queue();
        let mut names: Vec<String> = Vec::new();
        let mut i: usize = 0;
        while i < workers
            invariant
                i <= workers,
                names_workers(names@, i as nat),
            decreases workers - i,
        {
            names.push(numbered("hxy-bg-", i as u64));
            i = i + 1;
        }
        Started { pool: BackgroundPool { jobs }, rx, names }
    }

    /// Puts a job into the queue. It comes back where no worker is left.
    pub fn dispatch(&mut self, job: T) -> (r: Option<T>)
        ensures
            job_handed(*old(self), job, r, *final(self)),
    {
        match send_job(&mut self.jobs, job) {
            Ok(()) => None,
            Err(back) => Some(back),
        }
    }
}

/// Hands a job to the workers without waiting for it. It comes back where no
/// worker is left, to be dropped.
pub fn submit<T>(pool: &mut BackgroundPool<T>, job: T) -> (r: Option<T>)
    ensures
        job_handed(*old(pool), job, r, *final(pool)),
{
    pool.dispatch(job)
}

/// Opens the queue for as many workers as there usually are.
pub fn init<T>() -> (r: Started<T>)
    ensures
        workers_ready(r, DEFAULT_WORKERS as nat),
{
    BackgroundPool::new(DEFAULT_WORKERS)
}

/// Jobs stand in the queue in the order in which they were handed over.
pub proof fn law_jobs_in_order<T>(
    before: BackgroundPool<T>,
    first: T,
    mid: BackgroundPool<T>,
    second: T,
    after: BackgroundPool<T>,
)
    requires
        job_handed(before, first, None, mid),
        job_handed(mid, second, None, after),
    ensures
        after.jobs.sent() == before.jobs.sent() + seq![first, second],
{
    assert(after.jobs.sent() =~= before.jobs.sent() + seq![first, second]);
}

/// Workers have names of their own, numbered from zero, and take jobs from the queue
/// that the pool puts them into.
pub proof fn law_workers_share_one_queue<T>(started: Started<T>, workers: nat, i: int)
    requires
        workers_ready(started, workers),
    ensures
        started.names@.len() == workers,
        0 <= i < workers ==> started.names@[i]@ == "hxy-bg-"@ + dec(i as nat),
        started.pool.jobs.queue() == started.rx.queue(),
        started.pool.jobs.sent().len() == 0,
{
    if 0 <= i < workers {
        assert(started.names@[i]@ == worker_name(i as nat));
    }
}

} // verus!
