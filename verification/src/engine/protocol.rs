//! The walk as a whole: a fleet of workers around one pool of jobs and one
//! termination counter, taken as a transition system.
//!
//! Each move is one worker's step on what the workers share: taking a job
//! out of the pool, reading one entry of a directory and perhaps putting a
//! job in, publishing a delta, or checking for termination. What a worker
//! does between two such steps touches only its own accounting, so it is
//! folded into the step before it. A termination check is taken as one step:
//! it sees the counter and all queues at one moment. Which queue a job lies
//! in makes no difference to the accounting, so the queues are one pool.
//!
//! The worker's part of every move is built from the transitions of
//! [`WorkerState`] that the executable worker is verified against; the lemmas
//! named `..._is_worker_turn(s)` say how.

use crate::engine::job::{FileKind, Job, Metadata};
use crate::engine::queues::Found;
use crate::engine::state::{
    backoff, beyond, Backoff, Listed, Observation, Reply, Request, WorkerState, REARM_CYCLE,
    SYNC_CYCLE,
};
use crate::engine::sum::{
    lemma_sum_bounded, lemma_sum_nonnegative, lemma_sum_push, lemma_sum_remove, lemma_sum_update,
    lemma_sum_zero, sum_of,
};
use crate::engine::tree::{
    effort, effort_entries, effort_entry, entries_in, file_gain,
    lemma_readable_walk_counts_every_entry, metadata_readable, one, readable, walk, walk_entries,
    walk_entry, Measure, Node, Slot,
};
use crate::engine::walker::{blocks_of, joined_blocks};
use crate::engine::worker::WorkerResult;
use vstd::prelude::*;

verus! {

/// A job in the pool, with the part of the tree that it stands for.
pub struct Task {
    pub node: Node,
    pub depth: nat,
}

/// A directory that a worker is in the middle of listing.
pub struct Listing {
    /// The entries not read yet.
    pub rest: Seq<Slot>,
    /// The depth of the directory.
    pub depth: nat,
}

/// One worker of the fleet.
pub struct Member {
    pub state: WorkerState,
    /// The directory being listed, if the worker holds a job.
    pub listing: Option<Listing>,
    /// Whether the worker has left its loop.
    pub exited: bool,
}

/// The whole walk at one moment.
pub struct Fleet {
    /// The tree that is being walked.
    pub root: Node,
    /// The depth limit that every worker was given.
    pub max_depth: Option<nat>,
    /// The value of the termination counter.
    pub counter: int,
    /// The jobs in the injector and in the workers' queues.
    pub pool: Seq<Task>,
    pub crew: Seq<Member>,
}

/// One atomic step of one worker.
pub enum Move {
    /// The worker finds the job at index `task` of the pool and starts on it.
    Take { worker: int, task: int },
    /// The worker reads the next entry of the directory that it is listing.
    Read { worker: int },
    /// The worker finds no work and counts one more idle cycle; in the sync
    /// cycle it publishes its delta.
    Idle { worker: int },
    /// The worker fails the termination check that follows a sleep and
    /// returns to the polling stage.
    Rearm { worker: int },
    /// The worker passes a termination check and leaves.
    Exit { worker: int },
}

/// The unpublished delta of a member.
pub open spec fn delta_of() -> spec_fn(Member) -> int {
    |m: Member| m.state.local_delta
}

/// A member's count of `what`.
pub open spec fn count_of(what: Measure) -> spec_fn(Member) -> int {
    |m: Member| m.state.measure(what) as int
}

/// What the sequential walk counts below a job of the pool.
pub open spec fn task_of(what: Measure, max_depth: Option<nat>) -> spec_fn(Task) -> int {
    |t: Task| walk(what, t.node, t.depth, max_depth) as int
}

/// What the sequential walk still counts for the directory in a member's
/// hand: the directory itself, and the entries not read yet.
pub open spec fn hand_of(what: Measure, max_depth: Option<nat>) -> spec_fn(Member) -> int {
    |m: Member|
        match m.listing {
            Some(l) => (one(what, Measure::Dirs) + walk_entries(what, l.rest, l.depth, max_depth))
                as int,
            None => 0,
        }
}

/// The walk before its first step: the root job in the pool, counted once by
/// the termination counter, and `workers` workers that have done nothing.
pub open spec fn start(root: Node, workers: nat, max_depth: Option<nat>) -> Fleet {
    Fleet {
        root,
        max_depth,
        counter: 1,
        pool: seq![Task { node: root, depth: 0 }],
        crew: Seq::new(
            workers,
            |i: int|
                Member {
                    state: WorkerState::fresh(i as nat, workers, false, max_depth),
                    listing: None,
                    exited: false,
                },
        ),
    }
}

impl Fleet {
    /// Worker `w` is looking for work: it has not left and holds no job.
    pub open spec fn seeking(self, w: int) -> bool {
        &&& 0 <= w < self.crew.len()
        &&& !self.crew[w].exited
        &&& self.crew[w].listing is None
    }

    pub open spec fn all_exited(self) -> bool {
        forall|w: int| 0 <= w < self.crew.len() ==> (#[trigger] self.crew[w]).exited
    }

    /// Whether the move can be made. A worker checks for termination only
    /// after the sync cycle, and leaves only when the counter reads zero and
    /// no queue holds a job.
    pub open spec fn enabled(self, m: Move) -> bool {
        match m {
            Move::Take { worker, task } => self.seeking(worker) && 0 <= task < self.pool.len(),
            Move::Read { worker } => {
                &&& 0 <= worker < self.crew.len()
                &&& !self.crew[worker].exited
                &&& self.crew[worker].listing is Some
            },
            Move::Idle { worker } => self.seeking(worker),
            Move::Rearm { worker } => {
                &&& self.seeking(worker)
                &&& self.crew[worker].state.idle_cycles >= REARM_CYCLE
            },
            Move::Exit { worker } => {
                &&& self.seeking(worker)
                &&& self.crew[worker].state.idle_cycles >= REARM_CYCLE
                &&& self.counter == 0
                &&& self.pool.len() == 0
            },
        }
    }

    /// The worker's side of taking `task`: the job is consumed; a file is
    /// examined, a directory opened.
    pub open spec fn taken(self, worker: int, task: Task) -> Member {
        let s = self.crew[worker].state.claim();
        let member = self.crew[worker];
        if beyond(task.depth, self.max_depth) {
            Member { state: s, ..member }
        } else {
            match task.node {
                Node::File { meta } => Member { state: s.count_file().record(meta), ..member },
                Node::Dir { entries: None } => Member { state: s.count_error(), ..member },
                Node::Dir { entries: Some(entries) } => Member {
                    state: s,
                    listing: Some(Listing { rest: entries, depth: task.depth }),
                    ..member
                },
            }
        }
    }

    pub open spec fn take(self, worker: int, task: int) -> Fleet {
        Fleet {
            pool: self.pool.remove(task),
            crew: self.crew.update(worker, self.taken(worker, self.pool[task])),
            ..self
        }
    }

    /// Reading one entry: a subdirectory becomes a job of the pool, a file is
    /// examined on the spot, and the end of the listing ends the job.
    pub open spec fn read(self, worker: int) -> Fleet {
        let member = self.crew[worker];
        let l = member.listing->0;
        let s = member.state;
        if l.rest.len() == 0 {
            Fleet {
                crew: self.crew.update(
                    worker,
                    Member { state: s.count_dir(), listing: None, ..member },
                ),
                ..self
            }
        } else {
            let later = Some(Listing { rest: l.rest.drop_first(), depth: l.depth });
            match l.rest[0] {
                Slot::Child { node: Node::Dir { entries } } => Fleet {
                    pool: self.pool.push(Task { node: Node::Dir { entries }, depth: l.depth + 1 }),
                    crew: self.crew.update(
                        worker,
                        Member { state: s.spawn(), listing: later, ..member },
                    ),
                    ..self
                },
                Slot::Child { node: Node::File { meta } } => Fleet {
                    crew: self.crew.update(
                        worker,
                        Member { state: s.count_file().record(meta), listing: later, ..member },
                    ),
                    ..self
                },
                _ => Fleet {
                    crew: self.crew.update(
                        worker,
                        Member { state: s.count_error(), listing: later, ..member },
                    ),
                    ..self
                },
            }
        }
    }

    /// One more idle cycle. In the sync cycle the delta moves into the counter.
    pub open spec fn idle(self, worker: int) -> Fleet {
        let member = self.crew[worker];
        let s = member.state.tick();
        match backoff(s.idle_cycles) {
            Backoff::Sync => Fleet {
                counter: self.counter + s.local_delta,
                crew: self.crew.update(worker, Member { state: s.synced(), ..member }),
                ..self
            },
            _ => Fleet { crew: self.crew.update(worker, Member { state: s, ..member }), ..self },
        }
    }

    pub open spec fn rearm(self, worker: int) -> Fleet {
        let member = self.crew[worker];
        Fleet {
            crew: self.crew.update(worker, Member { state: member.state.rearmed(), ..member }),
            ..self
        }
    }

    pub open spec fn exit(self, worker: int) -> Fleet {
        let member = self.crew[worker];
        Fleet { crew: self.crew.update(worker, Member { exited: true, ..member }), ..self }
    }

    pub open spec fn step(self, m: Move) -> Fleet {
        match m {
            Move::Take { worker, task } => self.take(worker, task),
            Move::Read { worker } => self.read(worker),
            Move::Idle { worker } => self.idle(worker),
            Move::Rearm { worker } => self.rearm(worker),
            Move::Exit { worker } => self.exit(worker),
        }
    }

    /// Whether the moves can be made one after the other.
    pub open spec fn feasible(self, moves: Seq<Move>) -> bool
        decreases moves.len(),
    {
        moves.len() > 0 ==> self.enabled(moves[0]) && self.step(moves[0]).feasible(
            moves.drop_first(),
        )
    }

    /// The fleet after the moves.
    pub open spec fn run(self, moves: Seq<Move>) -> Fleet
        decreases moves.len(),
    {
        if moves.len() == 0 {
            self
        } else {
            self.step(moves[0]).run(moves.drop_first())
        }
    }

    /// The sum of the deltas that the workers have not published.
    pub open spec fn unpublished(self) -> int {
        sum_of(self.crew, delta_of())
    }

    /// What the workers have counted of `what`, all together.
    pub open spec fn counted(self, what: Measure) -> int {
        sum_of(self.crew, count_of(what))
    }

    /// What the sequential walk counts of `what` below the jobs that wait in
    /// the pool or lie in a worker's hand.
    pub open spec fn pending(self, what: Measure) -> int {
        sum_of(self.pool, task_of(what, self.max_depth)) + sum_of(
            self.crew,
            hand_of(what, self.max_depth),
        )
    }

    pub open spec fn member_ok(self, w: int) -> bool {
        let m = self.crew[w];
        &&& m.state.wf()
        &&& m.state.max_depth == self.max_depth
        &&& m.exited ==> m.listing is None && m.state.idle_cycles >= REARM_CYCLE
    }

    /// What holds of the fleet at every moment of a walk.
    pub open spec fn inv(self) -> bool {
        &&& forall|w: int| 0 <= w < self.crew.len() ==> #[trigger] self.member_ok(w)
        &&& self.counter + self.unpublished() == self.pool.len()
        &&& self.crew.len() > 0 && self.all_exited() ==> self.pool.len() == 0
        &&& forall|what: Measure|
            #[trigger] self.counted(what) + self.pending(what) == walk(
                what,
                self.root,
                0,
                self.max_depth,
            )
    }
}

/// The start of a walk has the invariant.
pub proof fn lemma_start_inv(root: Node, workers: nat, max_depth: Option<nat>)
    requires
        workers > 0,
    ensures
        start(root, workers, max_depth).inv(),
{
    let f = start(root, workers, max_depth);
    assert forall|w: int| 0 <= w < f.crew.len() implies #[trigger] f.member_ok(w) by {}
    lemma_sum_zero(f.crew, delta_of());
    assert(!f.crew[0].exited);
    assert forall|what: Measure| #[trigger]
        f.counted(what) + f.pending(what) == walk(what, f.root, 0, f.max_depth) by {
        lemma_sum_zero(f.crew, count_of(what));
        lemma_sum_zero(f.crew, hand_of(what, max_depth));
        let empty = Seq::<Task>::empty();
        assert(f.pool =~= empty.push(Task { node: root, depth: 0 }));
        lemma_sum_push(empty, task_of(what, max_depth), Task { node: root, depth: 0 });
    }
}

/// Replacing one member moves every sum over the crew by that member's change.
proof fn lemma_replace(f: Fleet, w: int, member: Member, what: Measure)
    requires
        0 <= w < f.crew.len(),
    ensures
        sum_of(f.crew.update(w, member), delta_of()) == f.unpublished()
            - f.crew[w].state.local_delta + member.state.local_delta,
        sum_of(f.crew.update(w, member), count_of(what)) == f.counted(what)
            - f.crew[w].state.measure(what) + member.state.measure(what),
        sum_of(f.crew.update(w, member), hand_of(what, f.max_depth)) == sum_of(
            f.crew,
            hand_of(what, f.max_depth),
        ) - hand_of(what, f.max_depth)(f.crew[w]) + hand_of(what, f.max_depth)(member),
{
    lemma_sum_update(f.crew, delta_of(), w, member);
    lemma_sum_update(f.crew, count_of(what), w, member);
    lemma_sum_update(f.crew, hand_of(what, f.max_depth), w, member);
}

proof fn lemma_take_inv(f: Fleet, w: int, i: int)
    requires
        f.inv(),
        f.enabled(Move::Take { worker: w, task: i }),
    ensures
        f.take(w, i).inv(),
{
    let g = f.take(w, i);
    let t = f.pool[i];
    let member = f.taken(w, t);
    assert(f.member_ok(w));
    assert forall|v: int| 0 <= v < g.crew.len() implies #[trigger] g.member_ok(v) by {
        assert(f.member_ok(v));
    }
    lemma_replace(f, w, member, Measure::Blocks);
    f.pool.remove_ensures(i);
    assert(!g.crew[w].exited);
    assert forall|what: Measure| #[trigger]
        g.counted(what) + g.pending(what) == walk(what, g.root, 0, g.max_depth) by {
        assert(f.counted(what) + f.pending(what) == walk(what, f.root, 0, f.max_depth));
        lemma_replace(f, w, member, what);
        lemma_sum_remove(f.pool, task_of(what, f.max_depth), i);
    }
}

proof fn lemma_read_inv(f: Fleet, w: int)
    requires
        f.inv(),
        f.enabled(Move::Read { worker: w }),
    ensures
        f.read(w).inv(),
{
    let g = f.read(w);
    let member = g.crew[w];
    let l = f.crew[w].listing->0;
    assert(g.crew =~= f.crew.update(w, member));
    assert(f.member_ok(w));
    assert forall|v: int| 0 <= v < g.crew.len() implies #[trigger] g.member_ok(v) by {
        assert(f.member_ok(v));
    }
    lemma_replace(f, w, member, Measure::Blocks);
    assert(!g.crew[w].exited);
    assert forall|what: Measure| #[trigger]
        g.counted(what) + g.pending(what) == walk(what, g.root, 0, g.max_depth) by {
        assert(f.counted(what) + f.pending(what) == walk(what, f.root, 0, f.max_depth));
        lemma_replace(f, w, member, what);
        let before = hand_of(what, f.max_depth)(f.crew[w]);
        let after = hand_of(what, f.max_depth)(member);
        let gain = member.state.measure(what) - f.crew[w].state.measure(what);
        if l.rest.len() > 0 {
            let rest = walk_entries(what, l.rest.drop_first(), l.depth, f.max_depth);
            assert(before == one(what, Measure::Dirs) + walk_entry(
                what,
                l.rest[0],
                l.depth,
                f.max_depth,
            ) + rest);
            assert(after == one(what, Measure::Dirs) + rest);
            match l.rest[0] {
                Slot::Child { node: Node::Dir { entries } } => {
                    let task = Task { node: Node::Dir { entries }, depth: l.depth + 1 };
                    lemma_sum_push(f.pool, task_of(what, f.max_depth), task);
                    assert(g.pool == f.pool.push(task));
                    assert(gain == 0);
                },
                Slot::Child { node: Node::File { meta } } => {
                    assert(g.pool == f.pool);
                    assert(gain == file_gain(what, meta));
                },
                _ => {
                    assert(g.pool == f.pool);
                    assert(gain == one(what, Measure::Errors));
                },
            }
        } else {
            assert(g.pool == f.pool);
            assert(before == one(what, Measure::Dirs));
            assert(after == 0);
            assert(gain == one(what, Measure::Dirs));
        }
    }
}

/// A move of a worker that holds no job keeps the invariant where it leaves
/// the worker's counts alone, moves no more into the counter than it takes
/// out of the worker's delta, and lets the worker leave only from an empty
/// pool and after the sync cycle.
proof fn lemma_idle_move_inv(f: Fleet, g: Fleet, w: int)
    requires
        f.inv(),
        f.seeking(w),
        g == (Fleet { counter: g.counter, crew: f.crew.update(w, g.crew[w]), ..f }),
        g.crew[w].listing is None,
        g.crew[w].state.wf(),
        g.crew[w].state.max_depth == f.max_depth,
        forall|what: Measure|
            (#[trigger] g.crew[w].state.measure(what)) == f.crew[w].state.measure(what),
        g.counter + g.crew[w].state.local_delta == f.counter + f.crew[w].state.local_delta,
        g.crew[w].exited ==> f.pool.len() == 0 && g.crew[w].state.idle_cycles >= REARM_CYCLE,
    ensures
        g.inv(),
{
    let member = g.crew[w];
    assert forall|v: int| 0 <= v < g.crew.len() implies #[trigger] g.member_ok(v) by {
        assert(f.member_ok(v));
    }
    lemma_replace(f, w, member, Measure::Blocks);
    assert(g.crew.len() > 0 && g.all_exited() ==> g.crew[w].exited);
    assert forall|what: Measure| #[trigger]
        g.counted(what) + g.pending(what) == walk(what, g.root, 0, g.max_depth) by {
        assert(f.counted(what) + f.pending(what) == walk(what, f.root, 0, f.max_depth));
        assert(g.crew[w].state.measure(what) == f.crew[w].state.measure(what));
        lemma_replace(f, w, member, what);
    }
}

proof fn lemma_idle_inv(f: Fleet, w: int)
    requires
        f.inv(),
        f.enabled(Move::Idle { worker: w }),
    ensures
        f.idle(w).inv(),
{
    assert(f.member_ok(w));
    lemma_idle_move_inv(f, f.idle(w), w);
}

proof fn lemma_rearm_inv(f: Fleet, w: int)
    requires
        f.inv(),
        f.enabled(Move::Rearm { worker: w }),
    ensures
        f.rearm(w).inv(),
{
    assert(f.member_ok(w));
    lemma_idle_move_inv(f, f.rearm(w), w);
}

proof fn lemma_exit_inv(f: Fleet, w: int)
    requires
        f.inv(),
        f.enabled(Move::Exit { worker: w }),
    ensures
        f.exit(w).inv(),
{
    assert(f.member_ok(w));
    lemma_idle_move_inv(f, f.exit(w), w);
}

/// Every move that can be made keeps the invariant.
pub proof fn lemma_step_inv(f: Fleet, m: Move)
    requires
        f.inv(),
        f.enabled(m),
    ensures
        f.step(m).inv(),
{
    match m {
        Move::Take { worker, task } => lemma_take_inv(f, worker, task),
        Move::Read { worker } => lemma_read_inv(f, worker),
        Move::Idle { worker } => lemma_idle_inv(f, worker),
        Move::Rearm { worker } => lemma_rearm_inv(f, worker),
        Move::Exit { worker } => lemma_exit_inv(f, worker),
    }
}

/// The invariant holds after any moves that can be made.
pub proof fn lemma_run_inv(f: Fleet, moves: Seq<Move>)
    requires
        f.inv(),
        f.feasible(moves),
    ensures
        f.run(moves).inv(),
        f.run(moves).root == f.root,
        f.run(moves).max_depth == f.max_depth,
        f.run(moves).crew.len() == f.crew.len(),
    decreases moves.len(),
{
    if moves.len() > 0 {
        lemma_step_inv(f, moves[0]);
        lemma_run_inv(f.step(moves[0]), moves.drop_first());
    }
}

/// Once every worker has left, nothing is outstanding: the pool is empty, no
/// delta is unpublished, the termination counter is zero, and the workers
/// together have counted exactly what the sequential walk counts.
pub proof fn lemma_finished_walk(f: Fleet)
    requires
        f.inv(),
        f.crew.len() > 0,
        f.all_exited(),
    ensures
        f.pool.len() == 0,
        f.unpublished() == 0,
        f.counter == 0,
        forall|what: Measure| #[trigger] f.counted(what) == walk(what, f.root, 0, f.max_depth),
{
    assert forall|w: int| 0 <= w < f.crew.len() implies #[trigger] delta_of()(f.crew[w]) == 0 by {
        assert(f.member_ok(w));
    }
    lemma_sum_zero(f.crew, delta_of());
    assert forall|what: Measure| #[trigger]
        f.counted(what) == walk(what, f.root, 0, f.max_depth) by {
        assert(f.counted(what) + f.pending(what) == walk(what, f.root, 0, f.max_depth));
        assert forall|w: int| 0 <= w < f.crew.len() implies #[trigger] hand_of(
            what,
            f.max_depth,
        )(f.crew[w]) == 0 by {
            assert(f.member_ok(w));
        }
        lemma_sum_zero(f.crew, hand_of(what, f.max_depth));
        lemma_sum_zero(f.pool, task_of(what, f.max_depth));
    }
}

/// A worker that leaves has published everything: its local delta is zero,
/// and the counter that it read is zero, so never negative.
pub proof fn lemma_exit_is_clean(f: Fleet, worker: int)
    requires
        f.inv(),
        f.enabled(Move::Exit { worker }),
    ensures
        f.counter == 0,
        f.crew[worker].state.local_delta == 0,
        f.exit(worker).crew[worker].state.local_delta == 0,
        f.exit(worker).counter == 0,
{
    assert(f.member_ok(worker));
}

/// Correctness of the parallel walk: however many workers take part and in
/// whatever order they move, when all of them have left, the termination
/// counter reads zero and their counts add up to the sequential walk's.
pub proof fn theorem_walk_matches_sequential(
    root: Node,
    workers: nat,
    max_depth: Option<nat>,
    moves: Seq<Move>,
    what: Measure,
)
    requires
        workers > 0,
        start(root, workers, max_depth).feasible(moves),
        start(root, workers, max_depth).run(moves).all_exited(),
    ensures
        start(root, workers, max_depth).run(moves).counted(what) == walk(
            what,
            root,
            0,
            max_depth,
        ),
        start(root, workers, max_depth).run(moves).counter == 0,
        start(root, workers, max_depth).run(moves).pool.len() == 0,
{
    let f = start(root, workers, max_depth);
    lemma_start_inv(root, workers, max_depth);
    lemma_run_inv(f, moves);
    lemma_finished_walk(f.run(moves));
}

/// Two finished walks of the same tree under the same depth limit count the
/// same, whatever the number of workers and the order of their moves.
pub proof fn theorem_walk_is_repeatable(
    root: Node,
    max_depth: Option<nat>,
    workers_a: nat,
    moves_a: Seq<Move>,
    workers_b: nat,
    moves_b: Seq<Move>,
    what: Measure,
)
    requires
        workers_a > 0,
        workers_b > 0,
        start(root, workers_a, max_depth).feasible(moves_a),
        start(root, workers_b, max_depth).feasible(moves_b),
        start(root, workers_a, max_depth).run(moves_a).all_exited(),
        start(root, workers_b, max_depth).run(moves_b).all_exited(),
    ensures
        start(root, workers_a, max_depth).run(moves_a).counted(what) == start(
            root,
            workers_b,
            max_depth,
        ).run(moves_b).counted(what),
{
    theorem_walk_matches_sequential(root, workers_a, max_depth, moves_a, what);
    theorem_walk_matches_sequential(root, workers_b, max_depth, moves_b, what);
}

/// Conservation of entries: without a depth limit, a finished walk of a tree
/// in which every directory opens and every entry can be read and typed has
/// counted every entry once, as a directory or as a file; and it has counted
/// no error if the metadata of every file can be read.
pub proof fn theorem_every_entry_is_counted(root: Node, workers: nat, moves: Seq<Move>)
    requires
        workers > 0,
        readable(root),
        start(root, workers, None).feasible(moves),
        start(root, workers, None).run(moves).all_exited(),
    ensures
        ({
            let f = start(root, workers, None).run(moves);
            &&& f.counted(Measure::Dirs) + f.counted(Measure::Files) == entries_in(root)
            &&& metadata_readable(root) ==> f.counted(Measure::Errors) == 0
        }),
{
    theorem_walk_matches_sequential(root, workers, None, moves, Measure::Dirs);
    theorem_walk_matches_sequential(root, workers, None, moves, Measure::Files);
    theorem_walk_matches_sequential(root, workers, None, moves, Measure::Errors);
    lemma_readable_walk_counts_every_entry(root, 0);
}

/// At every moment of a walk the termination counter and the unpublished
/// deltas together count the jobs of the pool: those ever put into it minus
/// those ever taken out. So whenever the unpublished deltas cancel out, the
/// counter is that number, and not negative.
pub proof fn theorem_conservation(
    root: Node,
    workers: nat,
    max_depth: Option<nat>,
    moves: Seq<Move>,
)
    requires
        workers > 0,
        start(root, workers, max_depth).feasible(moves),
    ensures
        ({
            let f = start(root, workers, max_depth).run(moves);
            &&& f.counter + f.unpublished() == f.pool.len()
            &&& f.unpublished() == 0 ==> f.counter >= 0
        }),
{
    lemma_start_inv(root, workers, max_depth);
    lemma_run_inv(start(root, workers, max_depth), moves);
}

/// No walk gets stuck at its end: when the pool is empty and every worker
/// has reached the sync cycle, the counter is zero, and every worker that is
/// still there and has reached the polling stage can leave.
pub proof fn lemma_drained_fleet_can_leave(f: Fleet, worker: int)
    requires
        f.inv(),
        f.pool.len() == 0,
        forall|w: int| 0 <= w < f.crew.len() ==> (#[trigger] f.crew[w]).state.idle_cycles
            >= SYNC_CYCLE,
        f.seeking(worker),
        f.crew[worker].state.idle_cycles >= REARM_CYCLE,
    ensures
        f.counter == 0,
        f.enabled(Move::Exit { worker }),
{
    assert forall|w: int| 0 <= w < f.crew.len() implies #[trigger] delta_of()(f.crew[w]) == 0 by {
        assert(f.member_ok(w));
    }
    lemma_sum_zero(f.crew, delta_of());
}

/// How the driver reports a slot of a directory to a worker.
pub open spec fn reported_as(slot: Slot, entry: Listed) -> bool {
    match slot {
        Slot::Unreadable => entry is Unreadable,
        Slot::Untyped => entry matches Listed::Item { kind: None, .. },
        Slot::Child { node: Node::Dir { .. } } => entry matches Listed::Item {
            kind: Some(FileKind::Directory),
            ..
        },
        Slot::Child { node: Node::File { .. } } => entry matches Listed::Item { kind: Some(k), .. }
            && !(k is Directory),
    }
}

/// The metadata of the file that a listing goes on with, if it goes on with a file.
pub open spec fn file_at(rest: Seq<Slot>) -> Option<Option<Metadata>> {
    if rest.len() == 0 {
        None
    } else {
        match rest[0] {
            Slot::Child { node: Node::File { meta } } => Some(meta),
            _ => None,
        }
    }
}

/// `Take` is what a worker does with a job that it found: it begins the job,
/// and in its next turn takes up the file's metadata or the outcome of
/// opening the directory.
pub proof fn lemma_take_is_worker_turns(f: Fleet, worker: int, task: int, job: Job)
    requires
        f.enabled(Move::Take { worker, task }),
        f.crew[worker].state.max_depth == f.max_depth,
        job.depth == f.pool[task].depth,
        job.is_dir == (f.pool[task].node is Dir),
    ensures
        ({
            let before = f.crew[worker].state;
            let (begun, request) = before.begin(job);
            let after = f.take(worker, task).crew[worker].state;
            &&& before.turn(Reply::Ready, begun, request)
            &&& if beyond(job.depth as nat, f.max_depth) {
                request == Request::Continue && after == begun
            } else {
                match f.pool[task].node {
                    Node::File { meta } => {
                        &&& request == Request::Stat { job, within: None }
                        &&& after == begun.stated(None, meta).0
                    },
                    Node::Dir { entries } => {
                        &&& request == Request::Open { dir: job }
                        &&& after == begun.opened(job, entries is Some).0
                    },
                }
            }
        }),
{
    let before = f.crew[worker].state;
    let seen: Observation = arbitrary();
    assert(before.sought(Found::Job(job), seen) == before.begin(job));
}

/// `Read` is what a worker does with the next entry of its listing: a
/// subdirectory is pushed one level below the directory, a file is counted
/// and accounted for with its metadata in the next turn.
pub proof fn lemma_read_is_worker_turns(f: Fleet, worker: int, dir: Job, entry: Listed)
    requires
        f.enabled(Move::Read { worker }),
        dir.depth == f.crew[worker].listing->0.depth,
        dir.depth < usize::MAX,
        f.crew[worker].listing->0.rest.len() == 0 ==> entry is End,
        f.crew[worker].listing->0.rest.len() > 0 ==> reported_as(
            f.crew[worker].listing->0.rest[0],
            entry,
        ),
    ensures
        ({
            let before = f.crew[worker].state;
            let l = f.crew[worker].listing->0;
            let (seen, request, pushed) = before.listed(dir, entry);
            let after = f.read(worker).crew[worker].state;
            &&& before.turn(Reply::Entry { dir, entry }, seen, request)
            &&& match file_at(l.rest) {
                Some(meta) => {
                    &&& request matches Request::Stat { within: Some(d), .. } && d == dir
                    &&& after == seen.stated(Some(dir), meta).0
                    &&& pushed is None
                },
                None => after == seen,
            }
            &&& pushed matches Some(child) ==> {
                &&& child.is_dir
                &&& f.read(worker).pool == f.pool.push(
                    Task { node: l.rest[0]->node, depth: child.depth as nat },
                )
            }
            &&& pushed is None ==> f.read(worker).pool == f.pool
        }),
{
}

/// `Idle` is a turn of a worker that found no work, whatever it observes.
pub proof fn lemma_idle_is_worker_turn(f: Fleet, worker: int, seen: Observation)
    requires
        f.enabled(Move::Idle { worker }),
    ensures
        f.idle(worker).crew[worker].state == f.crew[worker].state.idled(seen).0,
        f.idle(worker).counter == f.counter + f.crew[worker].state.idled(seen).2,
        f.crew[worker].state.turn(
            Reply::Ready,
            f.crew[worker].state.idled(seen).0,
            f.crew[worker].state.idled(seen).1,
        ),
{
    let before = f.crew[worker].state;
    let r = before.idled(seen);
    assert(before.sought(Found::Nothing, seen) == (r.0, r.1));
}

/// `Rearm` is the turn after a sleep of a worker that sees work somewhere, and
/// `Exit` the turn after a pause of a worker that sees none.
pub proof fn lemma_poll_is_worker_turn(f: Fleet, worker: int, seen: Observation)
    requires
        f.seeking(worker),
        f.crew[worker].state.idle_cycles >= REARM_CYCLE,
    ensures
        !seen.quiescent() ==> f.crew[worker].state.polled(true, seen) == (
            f.rearm(worker).crew[worker].state,
            Request::Continue,
        ),
        seen.quiescent() ==> f.crew[worker].state.polled(true, seen) == (
            f.exit(worker).crew[worker].state,
            Request::Exit { seen },
        ),
        seen.quiescent() ==> f.crew[worker].state.polled(false, seen) == (
            f.exit(worker).crew[worker].state,
            Request::Exit { seen },
        ),
{
}

/// The steps that a job of the pool takes at most.
pub open spec fn task_effort() -> spec_fn(Task) -> int {
    |t: Task| effort(t.node) as int
}

/// The steps that the directory in a member's hand still takes at most.
pub open spec fn hand_effort() -> spec_fn(Member) -> int {
    |m: Member|
        match m.listing {
            Some(l) => (1 + effort_entries(l.rest)) as int,
            None => 0,
        }
}

impl Fleet {
    /// An upper bound on the steps that are left to take on jobs.
    pub open spec fn work_left(self) -> int {
        sum_of(self.pool, task_effort()) + sum_of(self.crew, hand_effort())
    }
}

/// Whether a move works on a job, rather than idling or leaving.
pub open spec fn productive(m: Move) -> bool {
    m is Take || m is Read
}

/// How many of the moves work on a job.
pub open spec fn productive_moves(moves: Seq<Move>) -> nat
    decreases moves.len(),
{
    if moves.len() == 0 {
        0
    } else if productive(moves[0]) {
        1 + productive_moves(moves.drop_first())
    } else {
        productive_moves(moves.drop_first())
    }
}

/// Every move on a job uses up work that is left, and no move makes more.
pub proof fn lemma_step_uses_work(f: Fleet, m: Move)
    requires
        f.enabled(m),
    ensures
        productive(m) ==> f.step(m).work_left() < f.work_left(),
        !productive(m) ==> f.step(m).work_left() == f.work_left(),
        f.step(m).work_left() >= 0,
{
    let g = f.step(m);
    lemma_sum_nonnegative(g.pool, task_effort());
    lemma_sum_nonnegative(g.crew, hand_effort());
    match m {
        Move::Take { worker, task } => {
            let t = f.pool[task];
            let member = f.taken(worker, t);
            lemma_sum_update(f.crew, hand_effort(), worker, member);
            lemma_sum_remove(f.pool, task_effort(), task);
            assert(task_effort()(t) >= 1 + hand_effort()(member));
        },
        Move::Read { worker } => {
            let l = f.crew[worker].listing->0;
            assert(g.crew =~= f.crew.update(worker, g.crew[worker]));
            lemma_sum_update(f.crew, hand_effort(), worker, g.crew[worker]);
            let before = hand_effort()(f.crew[worker]);
            let after = hand_effort()(g.crew[worker]);
            if l.rest.len() > 0 {
                assert(before == 1 + effort_entry(l.rest[0]) + effort_entries(l.rest.drop_first()));
                assert(after == 1 + effort_entries(l.rest.drop_first()));
                match l.rest[0] {
                    Slot::Child { node: Node::Dir { entries } } => {
                        let task = Task { node: Node::Dir { entries }, depth: l.depth + 1 };
                        lemma_sum_push(f.pool, task_effort(), task);
                        assert(g.pool == f.pool.push(task));
                    },
                    _ => {
                        assert(g.pool == f.pool);
                    },
                }
            } else {
                assert(g.pool == f.pool);
                assert(before == 1 && after == 0);
            }
        },
        Move::Idle { worker } => {
            assert(g.crew =~= f.crew.update(worker, g.crew[worker]));
            lemma_sum_update(f.crew, hand_effort(), worker, g.crew[worker]);
        },
        Move::Rearm { worker } => {
            lemma_sum_update(f.crew, hand_effort(), worker, g.crew[worker]);
        },
        Move::Exit { worker } => {
            lemma_sum_update(f.crew, hand_effort(), worker, g.crew[worker]);
        },
    }
}

/// The moves on jobs in any run are no more than the work that was left at its start.
pub proof fn lemma_run_uses_work(f: Fleet, moves: Seq<Move>)
    requires
        f.feasible(moves),
    ensures
        productive_moves(moves) <= f.work_left() - f.run(moves).work_left(),
        f.run(moves).work_left() >= 0,
    decreases moves.len(),
{
    if moves.len() == 0 {
        lemma_sum_nonnegative(f.pool, task_effort());
        lemma_sum_nonnegative(f.crew, hand_effort());
    } else {
        lemma_step_uses_work(f, moves[0]);
        lemma_run_uses_work(f.step(moves[0]), moves.drop_first());
    }
}

/// The work of a walk is finite: whatever the number of workers and the order
/// of their moves, they take no more steps on jobs than the tree has in
/// store. What is left to a worker after that is to idle and to leave.
pub proof fn theorem_work_is_bounded(
    root: Node,
    workers: nat,
    max_depth: Option<nat>,
    moves: Seq<Move>,
)
    requires
        start(root, workers, max_depth).feasible(moves),
    ensures
        productive_moves(moves) <= effort(root),
{
    let f = start(root, workers, max_depth);
    lemma_run_uses_work(f, moves);
    lemma_sum_zero(f.crew, hand_effort());
    let empty = Seq::<Task>::empty();
    assert(f.pool =~= empty.push(Task { node: root, depth: 0 }));
    lemma_sum_push(empty, task_effort(), Task { node: root, depth: 0 });
}

/// The idle cycles that a member still has to count before it may check for
/// termination.
pub open spec fn cycles_short() -> spec_fn(Member) -> int {
    |m: Member|
        if m.exited || m.state.idle_cycles >= REARM_CYCLE {
            0
        } else {
            REARM_CYCLE - m.state.idle_cycles
        }
}

/// One for a member that has not left.
pub open spec fn present() -> spec_fn(Member) -> int {
    |m: Member|
        if m.exited {
            0
        } else {
            1
        }
}

/// A move followed by feasible moves is feasible, and runs to where they end.
proof fn lemma_prepend(f: Fleet, m: Move, rest: Seq<Move>)
    requires
        f.enabled(m),
        f.step(m).feasible(rest),
    ensures
        f.feasible(seq![m] + rest),
        f.run(seq![m] + rest) == f.step(m).run(rest),
{
    let moves = seq![m] + rest;
    assert(moves[0] == m);
    assert(moves.drop_first() =~= rest);
}

/// From any moment of a walk there is a way to its end: the workers that hold
/// a directory read it, the jobs of the pool are taken, and when nothing is
/// left the workers count their idle cycles and leave. The moves returned
/// are one such continuation.
pub proof fn lemma_walk_can_finish(f: Fleet) -> (moves: Seq<Move>)
    requires
        f.inv(),
        f.crew.len() > 0,
    ensures
        f.feasible(moves),
        f.run(moves).all_exited(),
    decreases f.work_left(), sum_of(f.crew, cycles_short()), sum_of(f.crew, present()),
{
    lemma_sum_nonnegative(f.pool, task_effort());
    lemma_sum_nonnegative(f.crew, hand_effort());
    lemma_sum_nonnegative(f.crew, cycles_short());
    lemma_sum_nonnegative(f.crew, present());
    if exists|w: int| 0 <= w < f.crew.len() && (#[trigger] f.crew[w]).listing is Some {
        let w = choose|w: int| 0 <= w < f.crew.len() && (#[trigger] f.crew[w]).listing is Some;
        assert(f.member_ok(w));
        let m = Move::Read { worker: w };
        lemma_step_inv(f, m);
        lemma_step_uses_work(f, m);
        let rest = lemma_walk_can_finish(f.step(m));
        lemma_prepend(f, m, rest);
        seq![m] + rest
    } else if f.pool.len() > 0 {
        let w = choose|w: int| 0 <= w < f.crew.len() && !(#[trigger] f.crew[w]).exited;
        let m = Move::Take { worker: w, task: 0 };
        lemma_step_inv(f, m);
        lemma_step_uses_work(f, m);
        let rest = lemma_walk_can_finish(f.step(m));
        lemma_prepend(f, m, rest);
        seq![m] + rest
    } else if exists|w: int|
        0 <= w < f.crew.len() && !(#[trigger] f.crew[w]).exited && f.crew[w].state.idle_cycles
            < REARM_CYCLE {
        let w = choose|w: int|
            0 <= w < f.crew.len() && !(#[trigger] f.crew[w]).exited && f.crew[w].state.idle_cycles
                < REARM_CYCLE;
        let m = Move::Idle { worker: w };
        let g = f.step(m);
        lemma_step_inv(f, m);
        lemma_step_uses_work(f, m);
        assert(g.crew =~= f.crew.update(w, g.crew[w]));
        lemma_sum_update(f.crew, cycles_short(), w, g.crew[w]);
        lemma_sum_nonnegative(g.crew, cycles_short());
        let rest = lemma_walk_can_finish(g);
        lemma_prepend(f, m, rest);
        seq![m] + rest
    } else if exists|w: int| 0 <= w < f.crew.len() && !(#[trigger] f.crew[w]).exited {
        let w = choose|w: int| 0 <= w < f.crew.len() && !(#[trigger] f.crew[w]).exited;
        assert forall|v: int| 0 <= v < f.crew.len() implies (#[trigger] f.crew[v]).state.idle_cycles
            >= SYNC_CYCLE by {
            assert(f.member_ok(v));
        }
        lemma_drained_fleet_can_leave(f, w);
        let m = Move::Exit { worker: w };
        let g = f.step(m);
        lemma_step_inv(f, m);
        lemma_step_uses_work(f, m);
        lemma_sum_update(f.crew, cycles_short(), w, g.crew[w]);
        lemma_sum_update(f.crew, present(), w, g.crew[w]);
        lemma_sum_nonnegative(g.crew, present());
        let rest = lemma_walk_can_finish(g);
        lemma_prepend(f, m, rest);
        seq![m] + rest
    } else {
        Seq::empty()
    }
}

/// A walk can never get stuck: whatever the workers have done so far, there
/// are moves that take the walk from there to the point where all workers
/// have left.
pub proof fn theorem_walk_can_finish(
    root: Node,
    workers: nat,
    max_depth: Option<nat>,
    moves: Seq<Move>,
)
    requires
        workers > 0,
        start(root, workers, max_depth).feasible(moves),
    ensures
        exists|rest: Seq<Move>|
            #![trigger start(root, workers, max_depth).run(moves).feasible(rest)]
            start(root, workers, max_depth).run(moves).feasible(rest) && start(
                root,
                workers,
                max_depth,
            ).run(moves).run(rest).all_exited(),
{
    let f = start(root, workers, max_depth);
    lemma_start_inv(root, workers, max_depth);
    lemma_run_inv(f, moves);
    let rest = lemma_walk_can_finish(f.run(moves));
    assert(f.run(moves).feasible(rest));
}

/// The results as they come back from the crew: every worker that was
/// joined with a result brings the blocks that it counted.
pub open spec fn joined_from(results: Seq<Option<WorkerResult>>, crew: Seq<Member>) -> bool {
    &&& results.len() == crew.len()
    &&& forall|i: int|
        0 <= i < results.len() ==> ((#[trigger] results[i]) matches Some(r) ==> r.total_blocks
            == crew[i].state.total_blocks)
}

/// The coordinator's total never exceeds what the sequential walk counts, and
/// equals it when every worker was joined with its result.
pub proof fn theorem_total_matches_sequential(
    root: Node,
    workers: nat,
    max_depth: Option<nat>,
    moves: Seq<Move>,
    results: Seq<Option<WorkerResult>>,
)
    requires
        workers > 0,
        start(root, workers, max_depth).feasible(moves),
        start(root, workers, max_depth).run(moves).all_exited(),
        joined_from(results, start(root, workers, max_depth).run(moves).crew),
    ensures
        joined_blocks(results) <= walk(Measure::Blocks, root, 0, max_depth),
        (forall|i: int| 0 <= i < results.len() ==> (#[trigger] results[i]) is Some)
            ==> joined_blocks(results) == walk(Measure::Blocks, root, 0, max_depth),
{
    let f = start(root, workers, max_depth).run(moves);
    theorem_walk_matches_sequential(root, workers, max_depth, moves, Measure::Blocks);
    let counts = count_of(Measure::Blocks);
    assert forall|i: int| 0 <= i < results.len() implies #[trigger] blocks_of()(results[i])
        <= counts(f.crew[i]) by {}
    lemma_sum_bounded(results, blocks_of(), f.crew, counts);
    if forall|i: int| 0 <= i < results.len() ==> (#[trigger] results[i]) is Some {
        assert forall|i: int| 0 <= i < f.crew.len() implies #[trigger] counts(f.crew[i])
            <= blocks_of()(results[i]) by {
            assert(results[i] is Some);
        }
        lemma_sum_bounded(f.crew, counts, results, blocks_of());
    }
}

} // verus!
