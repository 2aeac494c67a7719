//! The mathematical state of one worker and the transitions it can make.
//!
//! A worker never touches the file system or the scheduler itself. It is
//! resumed with a [`Reply`], updates its accounting, and answers with the
//! [`Request`] that its driver has to carry out next.

use crate::engine::job::{special, FileKind, Job, Metadata};
use crate::engine::queues::Found;
use std::path::PathBuf;
use vstd::prelude::*;

verus! {

/// Idle cycles `1..=SPIN_CYCLES` only spin.
pub const SPIN_CYCLES: usize = 10;

/// The idle cycle in which the local delta is published.
pub const SYNC_CYCLE: usize = 11;

/// The idle cycle to which a worker returns after a sleep.
pub const REARM_CYCLE: usize = 12;

/// Within the polling phase every cycle that is a multiple of this one yields first.
pub const YIELD_EVERY: usize = 10;

/// The last idle cycle of the polling phase.
pub const POLL_CYCLES: usize = 50;

/// The idle cycle that sleeps; the count of idle cycles never passes it.
pub const SLEEP_CYCLE: usize = 51;

/// The largest batch that one steal from the injector asks for.
pub const MAX_BATCH: usize = 32;

/// What reading one entry of an open directory gave.
#[derive(Debug)]
pub enum Listed {
    /// The directory has no further entry.
    End,
    /// The entry could not be read.
    Unreadable,
    /// An entry, with its type where that could be determined.
    Item { path: PathBuf, kind: Option<FileKind> },
}

/// What a worker saw when it looked for outstanding work.
#[derive(Debug)]
pub struct Observation {
    /// The value read from the termination counter.
    pub counter: i64,
    /// Whether the worker's own queue was empty.
    pub local_empty: bool,
    /// Whether the shared injector was empty.
    pub injector_empty: bool,
    /// The length that each stealer reported, in index order.
    pub stealer_lens: Vec<usize>,
}

impl Observation {
    /// No work was seen anywhere: the counter read exactly zero and every queue was empty.
    pub open spec fn quiescent(self) -> bool {
        &&& self.counter == 0
        &&& self.local_empty
        &&& self.injector_empty
        &&& forall|i: int| 0 <= i < self.stealer_lens@.len() ==> self.stealer_lens@[i] == 0
    }
}

/// What a worker asks of its driver.
#[derive(Debug)]
pub enum Request {
    /// Open `dir.path` for listing and answer with [`Reply::Opened`].
    Open { dir: Job },
    /// Read the next entry of the open directory and answer with [`Reply::Entry`].
    NextEntry { dir: Job },
    /// Read the metadata of `job.path` without following symlinks and answer
    /// with [`Reply::Metadata`]; `within` is the directory being listed, if any.
    Stat { job: Job, within: Option<Job> },
    /// Issue a spin hint and answer with [`Reply::Ready`].
    Spin,
    /// Yield to the scheduler and answer with [`Reply::Yielded`].
    Yield,
    /// Sleep for about 500 ns and answer with [`Reply::Slept`].
    Sleep,
    /// The injector was contended when it was asked for at most `limit`
    /// jobs: answer at once with [`Reply::Retry`] and the same limit.
    Retry { limit: usize },
    /// Nothing to do outside: answer with [`Reply::Ready`].
    Continue,
    /// The walk is over for this worker; `seen` is the observation that decided it.
    Exit { seen: Observation },
}

/// What the driver reports back to the worker.
#[derive(Debug)]
pub enum Reply {
    /// The start of a cycle.
    Ready,
    /// The start of another attempt on the injector, for at most `limit` jobs.
    Retry { limit: usize },
    /// The scheduler was yielded to.
    Yielded,
    /// The sleep is over.
    Slept,
    /// Whether `dir.path` could be opened for listing.
    Opened { dir: Job, ok: bool },
    /// The next entry of the directory `dir`.
    Entry { dir: Job, entry: Listed },
    /// The metadata of `job.path`, or `None` where it could not be read.
    Metadata { job: Job, within: Option<Job>, meta: Option<Metadata> },
}

/// The stages of the idle backoff.
#[derive(Clone, Copy, Debug, PartialEq, Eq, Structural)]
pub enum Backoff {
    /// Spin: work is expected at any moment.
    Spin,
    /// Publish the local delta.
    Sync,
    /// Check for termination.
    Poll,
    /// Yield, then check for termination.
    YieldThenPoll,
    /// Sleep, then check for termination.
    Sleep,
}

/// The stage of the backoff that idle cycle `cycle` belongs to.
pub open spec fn backoff(cycle: nat) -> Backoff {
    if cycle <= SPIN_CYCLES {
        Backoff::Spin
    } else if cycle == SYNC_CYCLE {
        Backoff::Sync
    } else if cycle <= POLL_CYCLES {
        if cycle % (YIELD_EVERY as nat) == 0 {
            Backoff::YieldThenPoll
        } else {
            Backoff::Poll
        }
    } else {
        Backoff::Sleep
    }
}

/// A job at `depth` lies beyond the limit `max_depth`: it is dropped unread.
pub open spec fn beyond(depth: nat, max_depth: Option<nat>) -> bool {
    max_depth matches Some(max) && depth > max
}

/// The job for the entry `path` found while listing `dir`.
pub open spec fn child_job(dir: Job, path: PathBuf, is_dir: bool) -> Job {
    Job { path, parent: Some(dir.path), depth: (dir.depth + 1) as usize, is_dir }
}

/// The accounting of one worker, as mathematical values.
pub struct WorkerState {
    pub id: nat,
    pub num_workers: nat,
    /// Reserved: symlinks are never followed, whatever this says.
    pub follow_symlinks: bool,
    pub max_depth: Option<nat>,
    /// Jobs produced minus jobs consumed that the global counter has not been told of.
    pub local_delta: int,
    pub dirs_processed: nat,
    pub files_processed: nat,
    pub errors_count: nat,
    /// Sum of the 512-byte blocks of the files that were not special.
    pub total_blocks: nat,
    /// Consecutive cycles without work.
    pub idle_cycles: nat,
}

impl WorkerState {
    /// A worker that has done nothing yet.
    pub open spec fn fresh(
        id: nat,
        num_workers: nat,
        follow_symlinks: bool,
        max_depth: Option<nat>,
    ) -> Self {
        WorkerState {
            id,
            num_workers,
            follow_symlinks,
            max_depth,
            local_delta: 0,
            dirs_processed: 0,
            files_processed: 0,
            errors_count: 0,
            total_blocks: 0,
            idle_cycles: 0,
        }
    }

    /// From the sync cycle on nothing is left unpublished, and the idle count
    /// stays within the backoff schedule.
    pub open spec fn wf(self) -> bool {
        &&& self.num_workers > 0
        &&& self.idle_cycles <= SLEEP_CYCLE
        &&& self.idle_cycles >= SYNC_CYCLE ==> self.local_delta == 0
    }

    /// A job at `depth` lies beyond the worker's depth limit.
    pub open spec fn too_deep(self, depth: nat) -> bool {
        beyond(depth, self.max_depth)
    }

    /// Takes a job out of the pool: one consumed, and the worker is no longer idle.
    pub open spec fn claim(self) -> Self {
        WorkerState { local_delta: self.local_delta - 1, idle_cycles: 0, ..self }
    }

    /// Puts a job into the pool: one produced, and the worker is not idle.
    pub open spec fn spawn(self) -> Self {
        WorkerState { local_delta: self.local_delta + 1, idle_cycles: 0, ..self }
    }

    pub open spec fn count_file(self) -> Self {
        WorkerState { files_processed: self.files_processed + 1nat, ..self }
    }

    pub open spec fn count_dir(self) -> Self {
        WorkerState { dirs_processed: self.dirs_processed + 1nat, ..self }
    }

    pub open spec fn count_error(self) -> Self {
        WorkerState { errors_count: self.errors_count + 1nat, ..self }
    }

    /// Accounts for the metadata of one file: unreadable metadata is an error,
    /// a special file is skipped, anything else adds its blocks.
    pub open spec fn record(self, meta: Option<Metadata>) -> Self {
        match meta {
            None => self.count_error(),
            Some(m) => if special(m.kind) {
                self
            } else {
                WorkerState { total_blocks: self.total_blocks + m.blocks as nat, ..self }
            },
        }
    }

    /// One more cycle without work; the count stops at the sleep cycle.
    pub open spec fn tick(self) -> Self {
        if self.idle_cycles >= SLEEP_CYCLE {
            WorkerState { idle_cycles: SLEEP_CYCLE as nat, ..self }
        } else {
            WorkerState { idle_cycles: self.idle_cycles + 1nat, ..self }
        }
    }

    /// The local delta has been added to the global counter.
    pub open spec fn synced(self) -> Self {
        WorkerState { local_delta: 0, ..self }
    }

    /// Back to the polling phase after a sleep.
    pub open spec fn rearmed(self) -> Self {
        WorkerState { idle_cycles: REARM_CYCLE as nat, ..self }
    }

    /// Starting on `job`: it counts as consumed whatever follows. A job beyond
    /// the depth limit is dropped, a file is counted and its metadata asked
    /// for, a directory is opened.
    pub open spec fn begin(self, job: Job) -> (WorkerState, Request) {
        let s = self.claim();
        if s.too_deep(job.depth as nat) {
            (s, Request::Continue)
        } else if !job.is_dir {
            (s.count_file(), Request::Stat { job, within: None })
        } else {
            (s, Request::Open { dir: job })
        }
    }

    /// After the attempt to open `dir`: a failure is an error and ends the job.
    pub open spec fn opened(self, dir: Job, ok: bool) -> (WorkerState, Request) {
        if ok {
            (self, Request::NextEntry { dir })
        } else {
            (self.count_error(), Request::Continue)
        }
    }

    /// After reading one entry of `dir`: the new state, the next request, and
    /// the job to push on the worker's own queue, if the entry is a directory.
    pub open spec fn listed(self, dir: Job, entry: Listed) -> (WorkerState, Request, Option<Job>) {
        match entry {
            Listed::End => (self.count_dir(), Request::Continue, None),
            Listed::Unreadable => (self.count_error(), Request::NextEntry { dir }, None),
            Listed::Item { path, kind } => match kind {
                None => (self.count_error(), Request::NextEntry { dir }, None),
                Some(FileKind::Directory) => (
                    self.spawn(),
                    Request::NextEntry { dir },
                    Some(child_job(dir, path, true)),
                ),
                Some(_) => (
                    self.count_file(),
                    Request::Stat { job: child_job(dir, path, false), within: Some(dir) },
                    None,
                ),
            },
        }
    }

    /// After reading a file's metadata; the listing of `within` goes on, if there is one.
    pub open spec fn stated(self, within: Option<Job>, meta: Option<Metadata>) -> (
        WorkerState,
        Request,
    ) {
        (
            self.record(meta),
            match within {
                Some(dir) => Request::NextEntry { dir },
                None => Request::Continue,
            },
        )
    }

    /// A cycle that found no work, where `seen` is what a termination check
    /// would observe: the new state, the next request, and the amount added to
    /// the global counter.
    pub open spec fn idled(self, seen: Observation) -> (WorkerState, Request, int) {
        let s = self.tick();
        match backoff(s.idle_cycles) {
            Backoff::Spin => (s, Request::Spin, 0),
            Backoff::Sync => (s.synced(), Request::Continue, s.local_delta),
            Backoff::Poll => (s, poll(seen), 0),
            Backoff::YieldThenPoll => (s, Request::Yield, 0),
            Backoff::Sleep => (s, Request::Sleep, 0),
        }
    }

    /// A termination check after a yield or a sleep. A worker that stays
    /// after a sleep goes back to the polling phase. Before the delta has been
    /// published no check is made: such a worker simply goes on.
    pub open spec fn polled(self, slept: bool, seen: Observation) -> (WorkerState, Request) {
        if self.idle_cycles < REARM_CYCLE {
            (self, Request::Continue)
        } else if !seen.quiescent() && slept {
            (self.rearmed(), Request::Continue)
        } else {
            (self, poll(seen))
        }
    }

    /// Going on from the outcome of a search for work, where `seen` is what
    /// a termination check would observe: a job is begun, a contended
    /// injector is tried again with the same limit and nothing else changes,
    /// and with nothing found the worker idles one cycle.
    pub open spec fn sought(self, found: Found, seen: Observation) -> (WorkerState, Request) {
        match found {
            Found::Job(job) => self.begin(job),
            Found::Contended { limit } => (self, Request::Retry { limit }),
            Found::Nothing => (self.idled(seen).0, self.idled(seen).1),
        }
    }

    /// What resuming with `reply` may lead to. Where the worker looks at the
    /// queues or the counter, any job and any observation is possible; but a
    /// first attempt on the injector asks for a fair batch, and a repeated
    /// one for what was asked before.
    pub open spec fn turn(self, reply: Reply, next: WorkerState, request: Request) -> bool {
        match reply {
            Reply::Ready => exists|found: Found, seen: Observation|
                fair_attempt(found) && #[trigger] self.sought(found, seen) == (next, request),
            Reply::Retry { limit } => exists|found: Found, seen: Observation|
                same_attempt(found, limit) && #[trigger] self.sought(found, seen) == (
                    next,
                    request,
                ),
            Reply::Yielded => exists|seen: Observation|
                #[trigger] self.polled(false, seen) == (next, request),
            Reply::Slept => exists|seen: Observation|
                #[trigger] self.polled(true, seen) == (next, request),
            Reply::Opened { dir, ok } => self.opened(dir, ok) == (next, request),
            Reply::Entry { dir, entry } => {
                let r = self.listed(dir, entry);
                r.0 == next && r.1 == request
            },
            Reply::Metadata { job, within, meta } => self.stated(within, meta) == (next, request),
        }
    }

    /// The counters have room for what `reply` may add to them.
    pub open spec fn accepts(self, reply: Reply) -> bool {
        match reply {
            Reply::Ready => self.local_delta > i64::MIN && self.files_processed < usize::MAX,
            Reply::Retry { limit } => limit > 0 && self.local_delta > i64::MIN
                && self.files_processed < usize::MAX,
            Reply::Yielded | Reply::Slept => true,
            Reply::Opened { dir, ok } => ok || self.errors_count < usize::MAX,
            Reply::Entry { dir, entry } => match entry {
                Listed::End => self.dirs_processed < usize::MAX,
                Listed::Unreadable => self.errors_count < usize::MAX,
                Listed::Item { path, kind } => match kind {
                    None => self.errors_count < usize::MAX,
                    Some(FileKind::Directory) => self.local_delta < i64::MAX && dir.depth
                        < usize::MAX,
                    Some(_) => self.files_processed < usize::MAX && dir.depth < usize::MAX,
                },
            },
            Reply::Metadata { job, within, meta } => match meta {
                None => self.errors_count < usize::MAX,
                Some(m) => special(m.kind) || self.total_blocks + m.blocks <= u64::MAX,
            },
        }
    }
}

/// A search that ends on a contended injector has asked it for a fair batch:
/// at least one job and at most `MAX_BATCH`.
pub open spec fn fair_attempt(found: Found) -> bool {
    found matches Found::Contended { limit } ==> 1 <= limit <= MAX_BATCH
}

/// A repeated attempt that ends on a contended injector has asked for `limit` again.
pub open spec fn same_attempt(found: Found, limit: usize) -> bool {
    found matches Found::Contended { limit: again } ==> again == limit
}

/// The outcome of a termination check: leave exactly when nothing was seen.
pub open spec fn poll(seen: Observation) -> Request {
    if seen.quiescent() {
        Request::Exit { seen }
    } else {
        Request::Continue
    }
}

/// Whatever the queues and the counter show, a turn keeps the worker well formed.
pub proof fn lemma_turn_keeps_wf(
    before: WorkerState,
    reply: Reply,
    after: WorkerState,
    request: Request,
)
    requires
        before.wf(),
        before.turn(reply, after, request),
    ensures
        after.wf(),
{
}

/// A worker leaves only on an observation that shows no work: the counter
/// read exactly zero, and every queue was empty. By then it has published
/// its own delta.
pub proof fn lemma_exit_only_when_quiescent(
    before: WorkerState,
    reply: Reply,
    after: WorkerState,
    request: Request,
)
    requires
        before.wf(),
        before.turn(reply, after, request),
        request is Exit,
    ensures
        request->seen.quiescent(),
        request->seen.counter == 0,
        after.local_delta == 0,
        after.idle_cycles >= REARM_CYCLE,
{
}

/// A counter that reads anything but zero, a negative value included, never
/// ends the loop.
pub proof fn lemma_nonzero_counter_never_exits(seen: Observation)
    requires
        seen.counter != 0,
    ensures
        poll(seen) == Request::Continue,
{
}

} // verus!
