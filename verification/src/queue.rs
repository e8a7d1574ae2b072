//! The queue between those who have jobs and the workers who run them: a channel
//! with an end for jobs to go in at and an end for them to come out at. Which jobs
//! went in, and which two ends belong together, is only ever set here.

use vstd::prelude::*;
use crossbeam_channel::{Receiver, Sender};

verus! {

/// The end of a channel that jobs go in at.
#[verifier::external_type_specification]
#[verifier::external_body]
#[verifier::reject_recursive_types(T)]
pub struct ExSender<T>(crossbeam_channel::Sender<T>);

/// The end of a channel that jobs come out at.
#[verifier::external_type_specification]
#[verifier::external_body]
#[verifier::reject_recursive_types(T)]
pub struct ExReceiver<T>(crossbeam_channel::Receiver<T>);

/// The end of a queue that jobs go in at, with the jobs that went in.
#[verifier::reject_recursive_types(T)]
pub struct JobQueue<T> {
    tx: Sender<T>,
    sent: Ghost<Seq<T>>,
    queue: Ghost<int>,
}

/// The end of a queue that jobs come out at.
#[verifier::reject_recursive_types(T)]
pub struct JobEnd<T> {
    rx: Receiver<T>,
    queue: Ghost<int>,
}

impl<T> JobQueue<T> {
    /// The jobs that went in, in order.
    pub closed spec fn sent(&self) -> Seq<T> {
        self.sent@
    }

    /// Which queue it is an end of.
    pub closed spec fn queue(&self) -> int {
        self.queue@
    }
}

impl<T> JobEnd<T> {
    /// Which queue it is an end of.
    pub closed spec fn queue(&self) -> int {
        self.queue@
    }

    /// The outside value that jobs are taken from.
    pub closed spec fn receiver(&self) -> Receiver<T> {
        self.rx
    }

    /// Hands out the outside value that jobs are taken from.
    pub fn into_receiver(self) -> (r: Receiver<T>)
        ensures
            r == self.receiver(),
    {
        self.rx
    }
}

/// `crossbeam_channel::unbounded`: a channel that holds any number of jobs. Its
/// two ends belong to one queue, into which no job went yet.
#[verifier::external_body]
pub(crate) fn open_queue<T>() -> (r: (JobQueue<T>, JobEnd<T>))
    ensures
        r.0.queue() == r.1.queue(),
        r.0.sent() == Seq::<T>::empty(),
{
    let (tx, rx) = crossbeam_channel::unbounded();
    (
        JobQueue { tx, sent: Ghost(Seq::empty()), queue: Ghost(0) },
        JobEnd { rx, queue: Ghost(0) },
    )
}

/// `crossbeam_channel::Sender::send`: puts a job into the queue behind those that
/// went in before, or gives that very job back where nobody is left to take it.
/// Which of the two comes about depends on whether a worker still holds the other
/// end, and nothing is said of that.
#[verifier::external_body]
pub(crate) fn send_job<T>(queue: &mut JobQueue<T>, job: T) -> (r: Result<(), T>)
    ensures
        final(queue).queue() == old(queue).queue(),
        match r {
            Ok(_) => final(queue).sent() == old(queue).sent().push(job),
            Err(back) => back == job && final(queue).sent() == old(queue).sent(),
        },
{
    queue.tx.send(job).map_err(|e| e.into_inner())
}

} // verus!
