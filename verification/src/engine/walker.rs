//! The coordinator: sets a walk up, and reduces what the workers bring back.

use crate::config::Config;
use crate::engine::job::{FileKind, Job};
use crate::engine::state::WorkerState;
use crate::engine::sum::{lemma_sum_prefix, sum_of};
use crate::engine::worker::{depth_limit, WalkWorker, WorkerResult};
use crossbeam_deque::{Injector, Stealer, Worker};
use std::path::PathBuf;
use std::sync::atomic::AtomicI64;
use std::sync::Arc;
use vstd::prelude::*;

verus! {

/// The value of the termination counter before the first step: the root job
/// is outstanding.
pub const INITIAL_COUNT: i64 = 1;

/// Bytes in one block of disk usage.
pub const BLOCK_BYTES: u64 = 512;

/// Another handle on the same shared value, by `Arc::clone`.
#[verifier::external_body]
pub(crate) fn share<T>(handle: &Arc<T>) -> (other: Arc<T>)
    ensures
        other == *handle,
{
    handle.clone()
}

/// The text that `humansize::format_size` gives for a number of bytes with
/// its `DECIMAL` options.
pub uninterp spec fn decimal_size(bytes: u64) -> Seq<char>;

/// Formats a number of bytes with `humansize::format_size` and the `DECIMAL`
/// options. The text depends on the number of bytes alone.
#[verifier::external_body]
pub(crate) fn format_decimal(bytes: u64) -> (text: String)
    ensures
        text@ == decimal_size(bytes),
{
    humansize::format_size(bytes, humansize::DECIMAL)
}

/// Why a walk could not begin.
#[derive(Clone, Copy, Debug, PartialEq, Eq, Structural)]
pub enum WalkError {
    /// The metadata of the root path could not be read.
    RootUnreadable,
}

/// The job that a walk starts from: a regular file is examined as a file,
/// anything else is listed as a directory.
pub fn root_job(root: PathBuf, kind: FileKind) -> (job: Job)
    ensures
        job == (Job { path: root, parent: None, depth: 0, is_dir: !(kind is Regular) }),
{
    let is_dir = match kind {
        FileKind::Regular => false,
        _ => true,
    };
    Job::new(root, None, 0, is_dir)
}

/// A walk that is set up: the workers to run, one per thread, and the
/// termination counter that they share.
pub struct Walk {
    pub workers: Vec<WalkWorker>,
    pub counter: Arc<AtomicI64>,
}

/// The blocks that a joined worker brought back; a worker that failed brings none.
pub open spec fn blocks_of() -> spec_fn(Option<WorkerResult>) -> int {
    |r: Option<WorkerResult>|
        match r {
            Some(result) => result.total_blocks as int,
            None => 0,
        }
}

/// The sum of the blocks of all workers that were joined with a result.
pub open spec fn joined_blocks(results: Seq<Option<WorkerResult>>) -> int {
    sum_of(results, blocks_of())
}

pub struct Multithreaded {
    num_threads: usize,
    follow_symlinks: bool,
    max_depth: Option<usize>,
}

impl Multithreaded {
    pub closed spec fn threads(&self) -> nat {
        self.num_threads as nat
    }

    pub closed spec fn depth_cap(&self) -> Option<nat> {
        depth_limit(self.max_depth)
    }

    pub closed spec fn follows_symlinks(&self) -> bool {
        self.follow_symlinks
    }

    /// A walker for `num_threads` workers that does not follow symlinks and
    /// has no depth limit.
    pub fn new(num_threads: usize) -> (walker: Self)
        ensures
            walker.threads() == num_threads,
            walker.depth_cap().is_none(),
            !walker.follows_symlinks(),
    {
        Self { num_threads, follow_symlinks: false, max_depth: None }
    }

    /// The walker that a configuration asks for: its number of threads, its
    /// depth limit, and its choice about symlinks, which is carried along but
    /// has no effect.
    pub fn from_config(config: &Config) -> (walker: Self)
        ensures
            walker.threads() == config.performance_config.threads,
            walker.depth_cap() == depth_limit(config.traverse_config.max_depth),
            walker.follows_symlinks() == config.traverse_config.follow_symlinks,
    {
        Self {
            num_threads: config.performance_config.threads,
            follow_symlinks: config.traverse_config.follow_symlinks,
            max_depth: config.traverse_config.max_depth,
        }
    }

    /// The same walker with a depth limit: jobs deeper than `max_depth` are not listed.
    pub fn with_max_depth(self, max_depth: Option<usize>) -> (walker: Self)
        ensures
            walker.threads() == self.threads(),
            walker.depth_cap() == depth_limit(max_depth),
            walker.follows_symlinks() == self.follows_symlinks(),
    {
        Self { num_threads: self.num_threads, follow_symlinks: self.follow_symlinks, max_depth }
    }

    /// Sets up the walk of `root`, whose type is `root_kind`, or `None` where
    /// its metadata could not be read: one queue per worker, the root job in
    /// the injector, the counter at `INITIAL_COUNT`, and the workers in the
    /// order of their ids, none of which has done anything yet.
    pub fn walk(&self, root: PathBuf, root_kind: Option<FileKind>) -> (walk: Result<
        Walk,
        WalkError,
    >)
        ensures
            walk is Ok <==> root_kind is Some,
            walk matches Ok(w) ==> {
                &&& w.workers@.len() == self.threads()
                &&& forall|i: int|
                    0 <= i < w.workers@.len() ==> {
                        &&& (#[trigger] w.workers@[i])@ == WorkerState::fresh(
                            i as nat,
                            self.threads(),
                            self.follows_symlinks(),
                            self.depth_cap(),
                        )
                        &&& w.workers@[i]@.wf()
                        &&& w.workers@[i].peers() == self.threads()
                    }
            },
            walk matches Err(e) ==> e == WalkError::RootUnreadable,
    {
        let kind = match root_kind {
            Some(kind) => kind,
            None => {
                return Err(WalkError::RootUnreadable);
            },
        };
        let n: usize = self.num_threads;
        let global_injector: Arc<Injector<Job>> = Arc::new(Injector::new());
        let mut queues: Vec<Worker<Job>> = Vec::new();
        let mut stealers: Vec<Stealer<Job>> = Vec::new();
        let mut i: usize = 0;
        while i < n
            invariant
                i <= n,
                queues@.len() == i,
                stealers@.len() == i,
            decreases n - i,
        {
            let queue: Worker<Job> = Worker::new_lifo();
            let stealer = queue.stealer();
            queues.push(queue);
            stealers.push(stealer);
            i = i + 1;
        }
        let stealers = Arc::new(stealers);
        let counter = Arc::new(AtomicI64::new(INITIAL_COUNT));
        global_injector.push(root_job(root, kind));

        let mut workers: Vec<WalkWorker> = Vec::new();
        while queues.len() > 0
            invariant
                n == self.threads(),
                stealers.len() == n,
                queues@.len() + workers@.len() == n,
                forall|k: int|
                    0 <= k < workers@.len() ==> {
                        &&& (#[trigger] workers@[k])@ == WorkerState::fresh(
                            (queues@.len() + k) as nat,
                            self.threads(),
                            self.follows_symlinks(),
                            self.depth_cap(),
                        )
                        &&& workers@[k]@.wf()
                        &&& workers@[k].peers() == self.threads()
                    },
            decreases queues@.len(),
        {
            let id: usize = queues.len() - 1;
            let queue = queues.pop().unwrap();
            let worker = WalkWorker::new(
                id,
                queue,
                share(&stealers),
                share(&global_injector),
                n,
                self.follow_symlinks,
                self.max_depth,
            );
            let ghost before = workers@;
            workers.insert(0, worker);
            assert forall|k: int| 0 <= k < workers@.len() implies {
                &&& (#[trigger] workers@[k])@ == WorkerState::fresh(
                    (queues@.len() + k) as nat,
                    self.threads(),
                    self.follows_symlinks(),
                    self.depth_cap(),
                )
                &&& workers@[k]@.wf()
                &&& workers@[k].peers() == self.threads()
            } by {
                if k > 0 {
                    assert(workers@[k] == before[k - 1]);
                }
            }
        }
        Ok(Walk { workers, counter })
    }

    /// Adds up what the joined workers counted. A worker that failed counts
    /// nothing, so the total is a lower bound then. `None` where the sum does
    /// not fit in `u64`.
    pub fn total(results: &Vec<Option<WorkerResult>>) -> (total: Option<u64>)
        ensures
            match total {
                Some(blocks) => blocks == joined_blocks(results@),
                None => joined_blocks(results@) > u64::MAX,
            },
    {
        let n: usize = results.len();
        let mut total_blocks: u64 = 0;
        let mut i: usize = 0;
        while i < n
            invariant
                n == results@.len(),
                i <= n,
                total_blocks == joined_blocks(results@.take(i as int)),
            decreases n - i,
        {
            proof {
                assert(results@.take(i + 1).drop_last() =~= results@.take(i as int));
                lemma_sum_prefix(results@, blocks_of(), i + 1);
            }
            match &results[i] {
                Some(result) => {
                    if result.total_blocks > u64::MAX - total_blocks {
                        return None;
                    }
                    total_blocks = total_blocks + result.total_blocks;
                },
                None => {},
            }
            i = i + 1;
        }
        proof {
            assert(results@.take(n as int) =~= results@);
        }
        Some(total_blocks)
    }

    /// The disk usage of `total_blocks` blocks of 512 bytes, in words; `None`
    /// where the number of bytes does not fit in `u64`.
    pub fn disk_usage(total_blocks: u64) -> (text: Option<String>)
        ensures
            match text {
                Some(t) => total_blocks * BLOCK_BYTES <= u64::MAX && t@ == decimal_size(
                    (total_blocks * BLOCK_BYTES) as u64,
                ),
                None => total_blocks * BLOCK_BYTES > u64::MAX,
            },
    {
        if total_blocks > u64::MAX / BLOCK_BYTES {
            None
        } else {
            Some(format_decimal(total_blocks * BLOCK_BYTES))
        }
    }
}

} // verus!
