//! One worker of the traversal: its queues, its accounting, and its loop,
//! taken one turn at a time.

use crate::engine::job::{clone_path, is_special_file, FileKind, Job, Metadata};
use crate::engine::queues::{
    attempted, first_found, steal_batch, steal_from, stolen_or_next, Found, StealOutcome,
};
use crate::engine::state::{
    backoff, fair_attempt, poll, Backoff, Listed, Observation, Reply, Request, WorkerState,
    MAX_BATCH, POLL_CYCLES, REARM_CYCLE, SLEEP_CYCLE, SPIN_CYCLES, SYNC_CYCLE, YIELD_EVERY,
};
use crossbeam_deque::{Injector, Stealer, Worker};
use std::sync::atomic::AtomicI64;
use std::sync::Arc;
use vstd::prelude::*;

verus! {

/// A fair share of the injector for one of `num_workers` workers: at least
/// one job, so that a steal makes progress, and at most `MAX_BATCH`.
pub open spec fn fair_batch(injector_len: nat, num_workers: nat) -> nat
    recommends
        num_workers > 0,
{
    let share = injector_len / num_workers;
    if share < 1 {
        1
    } else if share > MAX_BATCH {
        MAX_BATCH as nat
    } else {
        share
    }
}

pub fn batch_size(injector_len: usize, num_workers: usize) -> (size: usize)
    requires
        num_workers > 0,
    ensures
        size == fair_batch(injector_len as nat, num_workers as nat),
        1 <= size <= MAX_BATCH,
{
    let share: usize = injector_len / num_workers;
    if share < 1 {
        1
    } else if share > MAX_BATCH {
        MAX_BATCH
    } else {
        share
    }
}

/// Takes up one stealer's answer in a pass over the peers: the job that
/// ends the pass, or the index at which the pass goes on.
pub fn after_steal(victim: usize, answer: StealOutcome) -> (step: Result<Job, usize>)
    requires
        victim < usize::MAX,
    ensures
        step == stolen_or_next(victim, answer),
{
    match answer {
        StealOutcome::Success(job) => Ok(job),
        _ => Err(victim + 1),
    }
}

/// Takes up the injector's answer to an attempt with `limit`.
pub fn after_attempt(limit: usize, answer: StealOutcome) -> (found: Found)
    ensures
        found == attempted(limit, answer),
{
    match answer {
        StealOutcome::Success(job) => Found::Job(job),
        StealOutcome::Empty => Found::Nothing,
        StealOutcome::Retry => Found::Contended { limit },
    }
}

/// The idle cycle's stage, computed.
pub fn backoff_stage(cycle: usize) -> (stage: Backoff)
    ensures
        stage == backoff(cycle as nat),
{
    if cycle <= SPIN_CYCLES {
        Backoff::Spin
    } else if cycle == SYNC_CYCLE {
        Backoff::Sync
    } else if cycle <= POLL_CYCLES {
        if cycle % YIELD_EVERY == 0 {
            Backoff::YieldThenPoll
        } else {
            Backoff::Poll
        }
    } else {
        Backoff::Sleep
    }
}

/// The depth limit as a mathematical value.
pub open spec fn depth_limit(max_depth: Option<usize>) -> Option<nat> {
    match max_depth {
        Some(max) => Some(max as nat),
        None => None,
    }
}

impl Observation {
    /// Whether nothing was seen: the counter at zero and every queue empty.
    pub fn is_quiescent(&self) -> (r: bool)
        ensures
            r == self.quiescent(),
    {
        if self.counter != 0 || !self.local_empty || !self.injector_empty {
            return false;
        }
        let n: usize = self.stealer_lens.len();
        let mut i: usize = 0;
        while i < n
            invariant
                n == self.stealer_lens@.len(),
                i <= n,
                forall|k: int| 0 <= k < i ==> self.stealer_lens@[k] == 0,
            decreases n - i,
        {
            if self.stealer_lens[i] != 0 {
                return false;
            }
            i = i + 1;
        }
        true
    }

    /// The outcome of a termination check on this observation.
    pub fn verdict(self) -> (request: Request)
        ensures
            request == poll(self),
    {
        if self.is_quiescent() {
            Request::Exit { seen: self }
        } else {
            Request::Continue
        }
    }
}

/// What one worker hands to the coordinator when its loop is over.
#[derive(Clone, Copy, Debug, PartialEq, Eq, Structural)]
pub struct WorkerResult {
    pub total_blocks: u64,
    pub dirs_processed: usize,
    pub files_processed: usize,
    pub errors_count: usize,
}

impl WorkerResult {
    pub fn new(worker: &WalkWorker) -> (result: Self)
        ensures
            result.total_blocks == worker@.total_blocks,
            result.dirs_processed == worker@.dirs_processed,
            result.files_processed == worker@.files_processed,
            result.errors_count == worker@.errors_count,
    {
        Self {
            total_blocks: worker.total_blocks,
            dirs_processed: worker.dirs_processed,
            files_processed: worker.files_processed,
            errors_count: worker.errors_count,
        }
    }
}

/// Worker state
pub struct WalkWorker {
    id: usize,
    /// The worker's own queue
    inner: Worker<Job>,
    /// The shared global queue
    injector: Arc<Injector<Job>>,
    /// The stealing ends of all workers' queues, by worker index
    stealers: Arc<Vec<Stealer<Job>>>,
    num_workers: usize,
    follow_symlinks: bool,
    max_depth: Option<usize>,
    /// Work produced minus work consumed since the last sync
    local_work_delta: i64,
    dirs_processed: usize,
    files_processed: usize,
    errors_count: usize,
    total_blocks: u64,
    /// Consecutive cycles without work
    idle_cycles: usize,
}

impl View for WalkWorker {
    type V = WorkerState;

    closed spec fn view(&self) -> WorkerState {
        WorkerState {
            id: self.id as nat,
            num_workers: self.num_workers as nat,
            follow_symlinks: self.follow_symlinks,
            max_depth: depth_limit(self.max_depth),
            local_delta: self.local_work_delta as int,
            dirs_processed: self.dirs_processed as nat,
            files_processed: self.files_processed as nat,
            errors_count: self.errors_count as nat,
            total_blocks: self.total_blocks as nat,
            idle_cycles: self.idle_cycles as nat,
        }
    }
}

impl WalkWorker {
    pub fn new(
        id: usize,
        inner: Worker<Job>,
        stealers: Arc<Vec<Stealer<Job>>>,
        injector: Arc<Injector<Job>>,
        num_threads: usize,
        follow_symlinks: bool,
        max_depth: Option<usize>,
    ) -> (worker: Self)
        requires
            num_threads > 0,
        ensures
            worker@ == WorkerState::fresh(
                id as nat,
                num_threads as nat,
                follow_symlinks,
                depth_limit(max_depth),
            ),
            worker@.wf(),
            worker.peers() == stealers.len(),
    {
        Self {
            id,
            inner,
            injector,
            stealers,
            num_workers: num_threads,
            follow_symlinks,
            max_depth,
            local_work_delta: 0,
            dirs_processed: 0,
            files_processed: 0,
            errors_count: 0,
            total_blocks: 0,
            idle_cycles: 0,
        }
    }

    pub fn id(&self) -> (id: usize)
        ensures
            id == self@.id,
    {
        self.id
    }

    pub fn follows_symlinks(&self) -> (follow: bool)
        ensures
            follow == self@.follow_symlinks,
    {
        self.follow_symlinks
    }

    pub fn local_delta(&self) -> (delta: i64)
        ensures
            delta == self@.local_delta,
    {
        self.local_work_delta
    }

    pub fn dirs_processed(&self) -> (n: usize)
        ensures
            n == self@.dirs_processed,
    {
        self.dirs_processed
    }

    pub fn files_processed(&self) -> (n: usize)
        ensures
            n == self@.files_processed,
    {
        self.files_processed
    }

    pub fn errors_count(&self) -> (n: usize)
        ensures
            n == self@.errors_count,
    {
        self.errors_count
    }

    pub fn total_blocks(&self) -> (blocks: u64)
        ensures
            blocks == self@.total_blocks,
    {
        self.total_blocks
    }

    pub fn idle_cycles(&self) -> (cycles: usize)
        ensures
            cycles == self@.idle_cycles,
    {
        self.idle_cycles
    }

    /// Whether the counters have room for what `reply` may add to them.
    pub fn accepts(&self, reply: &Reply) -> (ok: bool)
        ensures
            ok == self@.accepts(*reply),
    {
        match reply {
            Reply::Ready => self.local_work_delta > i64::MIN && self.files_processed
                < usize::MAX,
            Reply::Retry { limit } => *limit > 0 && self.local_work_delta > i64::MIN
                && self.files_processed < usize::MAX,
            Reply::Yielded | Reply::Slept => true,
            Reply::Opened { dir, ok } => *ok || self.errors_count < usize::MAX,
            Reply::Entry { dir, entry } => match entry {
                Listed::End => self.dirs_processed < usize::MAX,
                Listed::Unreadable => self.errors_count < usize::MAX,
                Listed::Item { path, kind } => match kind {
                    None => self.errors_count < usize::MAX,
                    Some(FileKind::Directory) => self.local_work_delta < i64::MAX && dir.depth
                        < usize::MAX,
                    Some(_) => self.files_processed < usize::MAX && dir.depth < usize::MAX,
                },
            },
            Reply::Metadata { job, within, meta } => match meta {
                None => self.errors_count < usize::MAX,
                Some(m) => is_special_file(m.kind) || m.blocks <= u64::MAX - self.total_blocks,
            },
        }
    }

    fn too_deep(&self, depth: usize) -> (r: bool)
        ensures
            r == self@.too_deep(depth as nat),
    {
        match self.max_depth {
            Some(max) => depth > max,
            None => false,
        }
    }

    /// Starts on a job that was found: it is consumed, whatever follows.
    pub fn process_job(&mut self, job: Job) -> (request: Request)
        requires
            old(self)@.wf(),
            old(self)@.accepts(Reply::Ready),
        ensures
            (final(self)@, request) == old(self)@.begin(job),
            final(self)@.wf(),
    {
        self.local_work_delta = self.local_work_delta - 1;
        self.idle_cycles = 0;
        if self.too_deep(job.depth) {
            Request::Continue
        } else if !job.is_dir {
            self.files_processed = self.files_processed + 1;
            Request::Stat { job, within: None }
        } else {
            Request::Open { dir: job }
        }
    }

    /// Goes on after the attempt to open the directory of a job.
    pub fn process_open(&mut self, dir: Job, ok: bool) -> (request: Request)
        requires
            old(self)@.wf(),
            old(self)@.accepts(Reply::Opened { dir, ok }),
        ensures
            (final(self)@, request) == old(self)@.opened(dir, ok),
            final(self)@.wf(),
    {
        if ok {
            Request::NextEntry { dir }
        } else {
            self.errors_count = self.errors_count + 1;
            Request::Continue
        }
    }

    /// Accounts for one entry of the directory `dir` and decides what follows:
    /// the next request, and the job to push for a subdirectory.
    pub fn plan_entry(&mut self, dir: Job, entry: Listed) -> (plan: (Request, Option<Job>))
        requires
            old(self)@.wf(),
            old(self)@.accepts(Reply::Entry { dir, entry }),
        ensures
            (final(self)@, plan.0, plan.1) == old(self)@.listed(dir, entry),
            final(self)@.wf(),
    {
        match entry {
            Listed::End => {
                self.dirs_processed = self.dirs_processed + 1;
                (Request::Continue, None)
            },
            Listed::Unreadable => {
                self.errors_count = self.errors_count + 1;
                (Request::NextEntry { dir }, None)
            },
            Listed::Item { path, kind } => match kind {
                None => {
                    self.errors_count = self.errors_count + 1;
                    (Request::NextEntry { dir }, None)
                },
                Some(FileKind::Directory) => {
                    let child = Job::new(path, Some(clone_path(&dir.path)), dir.depth + 1, true);
                    self.local_work_delta = self.local_work_delta + 1;
                    self.idle_cycles = 0;
                    (Request::NextEntry { dir }, Some(child))
                },
                Some(_) => {
                    let child = Job::new(path, Some(clone_path(&dir.path)), dir.depth + 1, false);
                    self.files_processed = self.files_processed + 1;
                    (Request::Stat { job: child, within: Some(dir) }, None)
                },
            },
        }
    }

    /// Handles one entry of the directory `dir`: a subdirectory goes onto the
    /// worker's own queue, anything else is examined at once.
    pub fn process_entry(&mut self, dir: Job, entry: Listed) -> (request: Request)
        requires
            old(self)@.wf(),
            old(self)@.accepts(Reply::Entry { dir, entry }),
        ensures
            final(self)@ == old(self)@.listed(dir, entry).0,
            request == old(self)@.listed(dir, entry).1,
            final(self)@.wf(),
    {
        let (request, pushed) = self.plan_entry(dir, entry);
        match pushed {
            Some(child) => {
                self.inner.push(child);
            },
            None => {},
        }
        request
    }

    /// Accounts for a file whose metadata was read, or could not be read.
    pub fn process_file(&mut self, meta: Option<Metadata>)
        requires
            old(self)@.wf(),
            match meta {
                None => old(self)@.errors_count < usize::MAX,
                Some(m) => special_or_fits(m, old(self)@.total_blocks),
            },
        ensures
            final(self)@ == old(self)@.record(meta),
            final(self)@.wf(),
    {
        match meta {
            None => {
                self.errors_count = self.errors_count + 1;
            },
            Some(m) => {
                if !is_special_file(m.kind) {
                    self.total_blocks = self.total_blocks + m.blocks;
                }
            },
        }
    }

    /// How many stealers the worker knows, its own among them.
    pub closed spec fn peers(&self) -> nat {
        self.stealers.len() as nat
    }

    /// The first victim at or after index `from`: peers are tried in index
    /// order, and the worker skips itself.
    pub fn next_victim(&self, from: usize) -> (victim: Option<usize>)
        ensures
            victim == victim_from(self@.id, self.peers(), from as nat),
    {
        let n: usize = self.stealers.len();
        if from >= n {
            None
        } else if from != self.id {
            Some(from)
        } else if from + 1 < n {
            Some(from + 1)
        } else {
            None
        }
    }

    /// One pass over the peers' queues: the first job that a steal yields, if
    /// any; an empty or contended queue is passed over. Whatever the peers
    /// answer, the result is the first success among the answers of the
    /// victims in index order; a worker without a victim steals nothing.
    pub fn steal_from_victims(&self) -> (stolen: Option<Job>)
        ensures
            exists|answers: Seq<StealOutcome>|
                answers.len() == self.peers() && stolen == #[trigger] first_stolen(
                    answers,
                    self@.id,
                    0,
                ),
            victim_from(self@.id, self.peers(), 0) is None ==> stolen is None,
    {
        let n: usize = self.stealers.len();
        let mut from: usize = 0;
        let ghost mut answers: Seq<StealOutcome> = Seq::new(n as nat, |i: int| StealOutcome::Empty);
        loop
            invariant
                n == self.peers(),
                from <= n,
                answers.len() == n,
                forall|k: int| 0 <= k < n ==> !((#[trigger] answers[k]) is Success),
                from > 0 ==> victim_from(self@.id, self.peers(), 0) is Some,
            decreases n - from,
        {
            match self.next_victim(from) {
                None => {
                    proof {
                        lemma_nothing_stolen(answers, self@.id, 0);
                    }
                    return None;
                },
                Some(victim) => {
                    let answer = steal_from(&self.stealers[victim]);
                    proof {
                        answers = answers.update(victim as int, answer);
                    }
                    match after_steal(victim, answer) {
                        Ok(job) => {
                            proof {
                                lemma_first_stolen(answers, self@.id, 0, victim as int);
                            }
                            return Some(job);
                        },
                        Err(next) => {
                            from = next;
                        },
                    }
                },
            }
        }
    }

    /// One attempt on the injector for a batch of at most `limit` jobs; all
    /// but one of them land on the worker's own queue. Whatever the injector
    /// answers, a job is found, an empty injector ends the search, and a
    /// contended one asks for the same attempt again.
    pub fn attempt_global(&self, limit: usize) -> (found: Found)
        requires
            limit > 0,
        ensures
            exists|answer: StealOutcome| found == #[trigger] attempted(limit, answer),
    {
        let answer = steal_batch(&self.injector, &self.inner, limit);
        let found = after_attempt(limit, answer);
        assert(found == attempted(limit, answer));
        found
    }

    /// A first attempt on the injector, for a fair batch of what it holds:
    /// its length as it reads now, shared among the workers, at least one
    /// job and at most `MAX_BATCH`.
    pub fn steal_from_global(&self) -> (found: Found)
        requires
            self@.wf(),
        ensures
            exists|len: usize, answer: StealOutcome|
                found == #[trigger] attempted(
                    fair_batch(len as nat, self@.num_workers) as usize,
                    answer,
                ),
            fair_attempt(found),
    {
        let len = self.injector.len();
        let limit = batch_size(len, self.num_workers);
        let found = self.attempt_global(limit);
        proof {
            let answer = choose|answer: StealOutcome| found == #[trigger] attempted(limit, answer);
            assert(found == attempted(fair_batch(len as nat, self@.num_workers) as usize, answer));
        }
        found
    }

    /// Goes on after the pass over the peers: a stolen job is what was found,
    /// and without one the injector is asked.
    pub fn after_victims(&self, stolen: Option<Job>) -> (found: Found)
        requires
            self@.wf(),
        ensures
            exists|global: Found|
                fair_attempt(global) && found == #[trigger] first_found(None, stolen, global),
            stolen matches Some(job) ==> found == Found::Job(job),
            fair_attempt(found),
    {
        match stolen {
            Some(job) => {
                assert(Found::Job(job) == first_found(None, stolen, Found::Nothing));
                Found::Job(job)
            },
            None => {
                let global = self.steal_from_global();
                assert(global == first_found(None, stolen, global));
                global
            },
        }
    }

    /// Goes on after the own queue was asked: a popped job is what was found,
    /// and without one the peers are tried, then the injector.
    pub fn after_pop(&self, popped: Option<Job>) -> (found: Found)
        requires
            self@.wf(),
        ensures
            exists|stolen: Option<Job>, global: Found|
                fair_attempt(global) && found == #[trigger] first_found(popped, stolen, global),
            popped matches Some(job) ==> found == Found::Job(job),
            fair_attempt(found),
    {
        match popped {
            Some(job) => {
                assert(Found::Job(job) == first_found(popped, None, Found::Nothing));
                Found::Job(job)
            },
            None => {
                let stolen = self.steal_from_victims();
                let found = self.after_victims(stolen);
                proof {
                    let global = choose|global: Found|
                        fair_attempt(global) && found == #[trigger] first_found(
                            None,
                            stolen,
                            global,
                        );
                    assert(found == first_found(popped, stolen, global));
                }
                found
            },
        }
    }

    /// Looks for work: the own queue first, then the peers, then the
    /// injector. Whatever the queues give, the first of the three that gives
    /// a job decides, and the search ends on a contended injector only after
    /// asking it for a fair batch.
    pub fn find_work(&self) -> (found: Found)
        requires
            self@.wf(),
        ensures
            exists|popped: Option<Job>, stolen: Option<Job>, global: Found|
                fair_attempt(global) && found == #[trigger] first_found(popped, stolen, global),
            fair_attempt(found),
    {
        let popped = self.inner.pop();
        let found = self.after_pop(popped);
        proof {
            let (stolen, global) = choose|stolen: Option<Job>, global: Found|
                fair_attempt(global) && found == #[trigger] first_found(popped, stolen, global);
            assert(found == first_found(popped, stolen, global));
        }
        found
    }

    /// Reads the termination counter and the state of every queue: the own
    /// queue, the injector, and each stealer in index order. What is read is
    /// whatever the other threads have left there.
    pub fn observe(&self, global_job_counter: &Arc<AtomicI64>) -> (seen: Observation)
        ensures
            seen.stealer_lens@.len() == self.peers(),
    {
        let counter: i64 = global_job_counter.load(std::sync::atomic::Ordering::Acquire);
        let local_empty = self.inner.is_empty();
        let injector_empty = self.injector.is_empty();
        let n: usize = self.stealers.len();
        let mut stealer_lens: Vec<usize> = Vec::new();
        let mut i: usize = 0;
        while i < n
            invariant
                n == self.peers(),
                i <= n,
                stealer_lens@.len() == i,
            decreases n - i,
        {
            stealer_lens.push(self.stealers[i].len());
            i = i + 1;
        }
        Observation { counter, local_empty, injector_empty, stealer_lens }
    }

    /// Checks whether this worker should terminate: whether what it observes
    /// now is quiescent.
    pub fn should_terminate(&self, global_job_counter: &Arc<AtomicI64>) -> (r: bool)
        ensures
            exists|seen: Observation|
                seen.stealer_lens@.len() == self.peers() && r == #[trigger] seen.quiescent(),
    {
        let seen = self.observe(global_job_counter);
        let r = seen.is_quiescent();
        assert(r == seen.quiescent());
        r
    }

    fn tick(&mut self) -> (stage: Backoff)
        requires
            old(self)@.idle_cycles <= SLEEP_CYCLE,
        ensures
            final(self)@ == old(self)@.tick(),
            stage == backoff(final(self)@.idle_cycles),
    {
        if self.idle_cycles < SLEEP_CYCLE {
            self.idle_cycles = self.idle_cycles + 1;
        }
        backoff_stage(self.idle_cycles)
    }

    /// Takes the unpublished delta for the global counter and leaves zero.
    pub fn take_delta(&mut self) -> (delta: i64)
        ensures
            delta == old(self)@.local_delta,
            final(self)@ == old(self)@.synced(),
    {
        let delta = self.local_work_delta;
        self.local_work_delta = 0;
        delta
    }

    /// One cycle without work: spin, publish the delta, check for termination,
    /// or ask for a pause, as the idle count says.
    pub fn back_off(&mut self, global_job_counter: &Arc<AtomicI64>) -> (request: Request)
        requires
            old(self)@.wf(),
        ensures
            exists|seen: Observation|
                ({
                    let r = #[trigger] old(self)@.idled(seen);
                    r.0 == final(self)@ && r.1 == request
                }),
            final(self)@.wf(),
    {
        let ghost before = self@;
        match self.tick() {
            Backoff::Spin => {
                proof {
                    let seen: Observation = arbitrary();
                    assert(before.idled(seen).0 == self@);
                }
                Request::Spin
            },
            Backoff::Sync => {
                let delta = self.take_delta();
                if delta != 0 {
                    global_job_counter.fetch_add(delta, std::sync::atomic::Ordering::AcqRel);
                }
                proof {
                    let seen: Observation = arbitrary();
                    assert(before.idled(seen).0 == self@);
                }
                Request::Continue
            },
            Backoff::Poll => {
                let seen = self.observe(global_job_counter);
                proof {
                    assert(before.idled(seen).0 == self@);
                }
                seen.verdict()
            },
            Backoff::YieldThenPoll => {
                proof {
                    let seen: Observation = arbitrary();
                    assert(before.idled(seen).0 == self@);
                }
                Request::Yield
            },
            Backoff::Sleep => {
                proof {
                    let seen: Observation = arbitrary();
                    assert(before.idled(seen).0 == self@);
                }
                Request::Sleep
            },
        }
    }

    /// Decides on `seen`, observed after a yield or a sleep: leave, or stay,
    /// and after a sleep return to the polling phase. A worker that has not
    /// published its delta yet does not decide at all.
    pub fn after_pause(&mut self, slept: bool, seen: Observation) -> (request: Request)
        requires
            old(self)@.wf(),
        ensures
            (final(self)@, request) == old(self)@.polled(slept, seen),
            final(self)@.wf(),
    {
        if self.idle_cycles < REARM_CYCLE {
            Request::Continue
        } else if !seen.is_quiescent() && slept {
            self.idle_cycles = REARM_CYCLE;
            Request::Continue
        } else {
            seen.verdict()
        }
    }

    /// One turn of the worker's loop: takes up what the driver reports and
    /// runs until the next thing that only the driver can do.
    pub fn run_loop(&mut self, global_job_counter: &Arc<AtomicI64>, reply: Reply) -> (request:
        Request)
        requires
            old(self)@.wf(),
            old(self)@.accepts(reply),
        ensures
            old(self)@.turn(reply, final(self)@, request),
            final(self)@.wf(),
    {
        match reply {
            Reply::Ready => {
                let found = self.find_work();
                self.seek(global_job_counter, found)
            },
            Reply::Retry { limit } => {
                let found = self.attempt_global(limit);
                self.seek(global_job_counter, found)
            },
            Reply::Yielded => {
                let seen = self.observe(global_job_counter);
                self.after_pause(false, seen)
            },
            Reply::Slept => {
                let seen = self.observe(global_job_counter);
                self.after_pause(true, seen)
            },
            Reply::Opened { dir, ok } => self.process_open(dir, ok),
            Reply::Entry { dir, entry } => self.process_entry(dir, entry),
            Reply::Metadata { job, within, meta } => {
                self.process_file(meta);
                match within {
                    Some(dir) => Request::NextEntry { dir },
                    None => Request::Continue,
                }
            },
        }
    }

    /// Goes on from the outcome of a search for work: a job that was found
    /// is begun, a contended injector is tried again with the same limit and
    /// nothing else changes, and with nothing found the worker backs off.
    pub fn seek(&mut self, global_job_counter: &Arc<AtomicI64>, found: Found) -> (request: Request)
        requires
            old(self)@.wf(),
            old(self)@.accepts(Reply::Ready),
        ensures
            match found {
                Found::Job(job) => (final(self)@, request) == old(self)@.begin(job),
                Found::Contended { limit } => final(self)@ == old(self)@ && request
                    == Request::Retry { limit },
                Found::Nothing => exists|seen: Observation|
                    ({
                        let r = #[trigger] old(self)@.idled(seen);
                        r.0 == final(self)@ && r.1 == request
                    }),
            },
            exists|seen: Observation|
                #[trigger] old(self)@.sought(found, seen) == (final(self)@, request),
            final(self)@.wf(),
    {
        let ghost before = self@;
        match found {
            Found::Job(job) => {
                let request = self.process_job(job);
                proof {
                    let seen: Observation = arbitrary();
                    assert(before.sought(found, seen) == (self@, request));
                }
                request
            },
            Found::Contended { limit } => {
                proof {
                    let seen: Observation = arbitrary();
                    assert(before.sought(found, seen) == (self@, Request::Retry { limit }));
                }
                Request::Retry { limit }
            },
            Found::Nothing => {
                let request = self.back_off(global_job_counter);
                proof {
                    let seen = choose|seen: Observation|
                        ({
                            let r = #[trigger] before.idled(seen);
                            r.0 == self@ && r.1 == request
                        });
                    assert(before.sought(found, seen) == (self@, request));
                }
                request
            },
        }
    }
}

/// What one pass over the peers brings from index `from` on, where
/// `answers[i]` is what stealer `i` answers when it is asked: the job of the
/// first success among the stealers other than the worker's own. An empty
/// queue and a contended one count alike.
pub open spec fn first_stolen(answers: Seq<StealOutcome>, id: nat, from: nat) -> Option<Job>
    decreases answers.len() - from,
{
    if from >= answers.len() {
        None
    } else if from != id && answers[from as int] is Success {
        Some(answers[from as int]->0)
    } else {
        first_stolen(answers, id, from + 1)
    }
}

/// Where no stealer answers with a job, the pass brings none.
proof fn lemma_nothing_stolen(answers: Seq<StealOutcome>, id: nat, from: nat)
    requires
        forall|k: int| from <= k < answers.len() && k != id ==> !((#[trigger] answers[k]) is Success),
    ensures
        first_stolen(answers, id, from) is None,
    decreases answers.len() - from,
{
    if from < answers.len() {
        lemma_nothing_stolen(answers, id, from + 1);
    }
}

/// Where `victim` is the first stealer other than the worker's own that
/// answers with a job, the pass brings that job.
proof fn lemma_first_stolen(answers: Seq<StealOutcome>, id: nat, from: nat, victim: int)
    requires
        from <= victim < answers.len(),
        victim != id,
        answers[victim] is Success,
        forall|k: int| from <= k < victim && k != id ==> !((#[trigger] answers[k]) is Success),
    ensures
        first_stolen(answers, id, from) == Some(answers[victim]->0),
    decreases victim - from,
{
    if from < victim {
        lemma_first_stolen(answers, id, from + 1, victim);
    }
}

/// The first index at or after `from`, below `peers`, that is not `id`.
pub open spec fn victim_from(id: nat, peers: nat, from: nat) -> Option<usize> {
    if from >= peers {
        None
    } else if from != id {
        Some(from as usize)
    } else if from + 1 < peers {
        Some((from + 1) as usize)
    } else {
        None
    }
}

/// A file's blocks can be added to `total` without leaving `u64`, unless the
/// file is special and adds nothing.
pub open spec fn special_or_fits(m: Metadata, total: nat) -> bool {
    crate::engine::job::special(m.kind) || total + m.blocks <= u64::MAX
}

} // verus!
