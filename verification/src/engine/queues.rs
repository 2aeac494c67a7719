//! The work-stealing queues of `crossbeam_deque`, as the engine sees them.
//!
//! Every queue is shared with other threads, so nothing is claimed about what
//! a call finds: the engine is verified for every answer a queue may give.

use crate::engine::job::Job;
use crossbeam_deque::{Injector, Steal, Stealer, Worker};
use vstd::prelude::*;

verus! {

/// `crossbeam_deque::Worker`: the owner's end of a per-worker queue.
#[verifier::external_type_specification]
#[verifier::external_body]
#[verifier::reject_recursive_types(T)]
pub struct ExWorker<T>(Worker<T>);

/// `crossbeam_deque::Stealer`: the end of a per-worker queue that peers use.
#[verifier::external_type_specification]
#[verifier::external_body]
#[verifier::reject_recursive_types(T)]
pub struct ExStealer<T>(Stealer<T>);

/// `crossbeam_deque::Injector`: the shared FIFO queue.
#[verifier::external_type_specification]
#[verifier::external_body]
#[verifier::reject_recursive_types(T)]
pub struct ExInjector<T>(Injector<T>);

/// `Worker::new_lifo` makes a queue whose owner pushes and pops at one end.
pub assume_specification<T>[ Worker::<T>::new_lifo ]() -> (queue: Worker<T>);

/// `Worker::stealer` hands out the stealing end of the same queue.
pub assume_specification<T>[ Worker::<T>::stealer ](queue: &Worker<T>) -> (stealer: Stealer<T>);

/// `Worker::push` adds a task at the owner's end.
pub assume_specification<T>[ Worker::<T>::push ](queue: &Worker<T>, task: T);

/// `Worker::pop` takes a task from the owner's end, if one is left.
pub assume_specification<T>[ Worker::<T>::pop ](queue: &Worker<T>) -> (task: Option<T>);

/// `Worker::is_empty` reads whether the queue held nothing at that moment.
pub assume_specification<T>[ Worker::<T>::is_empty ](queue: &Worker<T>) -> (empty: bool);

/// `Stealer::len` reads how many tasks the queue held at that moment.
pub assume_specification<T>[ Stealer::<T>::len ](stealer: &Stealer<T>) -> (len: usize);

/// `Injector::new` makes an empty shared queue.
pub assume_specification<T>[ Injector::<T>::new ]() -> (injector: Injector<T>);

/// `Injector::push` appends a task to the shared queue.
pub assume_specification<T>[ Injector::<T>::push ](injector: &Injector<T>, task: T);

/// `Injector::len` reads how many tasks the shared queue held at that moment.
pub assume_specification<T>[ Injector::<T>::len ](injector: &Injector<T>) -> (len: usize);

/// `Injector::is_empty` reads whether the shared queue held nothing at that moment.
pub assume_specification<T>[ Injector::<T>::is_empty ](injector: &Injector<T>) -> (empty: bool);

/// How one attempt to steal ended.
#[derive(Debug)]
pub enum StealOutcome {
    /// The queue was empty at the time of stealing.
    Empty,
    /// A job was taken.
    Success(Job),
    /// Another thread interfered; the attempt may be repeated.
    Retry,
}

/// How a search for work ended.
#[derive(Debug)]
pub enum Found {
    /// A job, from the own queue, from a peer or from the injector.
    Job(Job),
    /// No queue gave a job.
    Nothing,
    /// The injector was contended when it was asked for a batch of at most
    /// `limit` jobs: the same attempt is to be made again.
    Contended { limit: usize },
}

/// What an attempt on the injector with `limit` comes to when the injector
/// answers with `answer`: a job is found, an empty injector ends the search,
/// and a contended one asks for the same attempt again.
pub open spec fn attempted(limit: usize, answer: StealOutcome) -> Found {
    match answer {
        StealOutcome::Success(job) => Found::Job(job),
        StealOutcome::Empty => Found::Nothing,
        StealOutcome::Retry => Found::Contended { limit },
    }
}

/// What a search comes to when the own queue gives `popped`, the pass over
/// the peers `stolen`, and the injector `global`: the first of the three
/// that holds a job decides, and the later ones are not asked.
pub open spec fn first_found(popped: Option<Job>, stolen: Option<Job>, global: Found) -> Found {
    match popped {
        Some(job) => Found::Job(job),
        None => match stolen {
            Some(job) => Found::Job(job),
            None => global,
        },
    }
}

/// What follows one stealer's answer in a pass over the peers: a job ends
/// the pass, and an empty or a contended queue sends it on to the index
/// after `victim`.
pub open spec fn stolen_or_next(victim: usize, answer: StealOutcome) -> Result<Job, usize> {
    match answer {
        StealOutcome::Success(job) => Ok(job),
        _ => Err((victim + 1) as usize),
    }
}

/// One `Stealer::steal` on a peer's queue, its answer converted variant by
/// variant. Nothing is claimed of the answer.
#[verifier::external_body]
pub(crate) fn steal_from(stealer: &Stealer<Job>) -> (outcome: StealOutcome) {
    match stealer.steal() {
        Steal::Empty => StealOutcome::Empty,
        Steal::Success(job) => StealOutcome::Success(job),
        Steal::Retry => StealOutcome::Retry,
    }
}

/// One `Injector::steal_batch_with_limit_and_pop`, which takes a batch of no
/// more than `limit` jobs from the shared queue, puts all but one on `dest`
/// and hands that one out; its answer is converted variant by variant.
/// Nothing is claimed of the answer. A limit of zero makes the queue panic,
/// so a caller has to show a positive one.
#[verifier::external_body]
pub(crate) fn steal_batch(injector: &Injector<Job>, dest: &Worker<Job>, limit: usize) -> (outcome:
    StealOutcome)
    requires
        limit > 0,
{
    match injector.steal_batch_with_limit_and_pop(dest, limit) {
        Steal::Empty => StealOutcome::Empty,
        Steal::Success(job) => StealOutcome::Success(job),
        Steal::Retry => StealOutcome::Retry,
    }
}

} // verus!
