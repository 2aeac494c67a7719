//! A file tree as the engine can come to know it, and the sequential walk
//! that the parallel one is measured against.

use crate::engine::job::{special, Metadata};
use crate::engine::state::{beyond, WorkerState};
use vstd::prelude::*;

verus! {

/// What the file system holds at one entry.
pub enum Node {
    /// Anything but a directory, with what reading its metadata gives:
    /// `None` where that fails.
    File { meta: Option<Metadata> },
    /// A directory, with what listing it gives: `None` where it cannot be opened.
    Dir { entries: Option<Seq<Slot>> },
}

/// What reading one entry of a directory gives.
pub enum Slot {
    /// The entry could not be read.
    Unreadable,
    /// The entry was read, but its type could not be determined.
    Untyped,
    /// An entry of known type, with what lies below it.
    Child { node: Node },
}

/// The four things a worker counts.
pub enum Measure {
    /// 512-byte blocks of the files that are not special.
    Blocks,
    /// Directories listed to their end.
    Dirs,
    /// Entries that are not directories.
    Files,
    /// Entries, directories and metadata that could not be read.
    Errors,
}

impl WorkerState {
    /// The worker's count of `what`.
    pub open spec fn measure(self, what: Measure) -> nat {
        match what {
            Measure::Blocks => self.total_blocks,
            Measure::Dirs => self.dirs_processed,
            Measure::Files => self.files_processed,
            Measure::Errors => self.errors_count,
        }
    }
}

/// One if `what` is the measure `unit`, else nothing.
pub open spec fn one(what: Measure, unit: Measure) -> nat {
    if what == unit {
        1
    } else {
        0
    }
}

/// What examining one file adds to the count of `what`.
pub open spec fn file_gain(what: Measure, meta: Option<Metadata>) -> nat {
    match what {
        Measure::Blocks => match meta {
            Some(m) => if special(m.kind) {
                0
            } else {
                m.blocks as nat
            },
            None => 0,
        },
        Measure::Dirs => 0,
        Measure::Files => 1,
        Measure::Errors => if meta is None {
            1
        } else {
            0
        },
    }
}

/// The sequential walk: what a single walker counts of `what` when it is
/// handed `node` as a job at `depth`. A job beyond the depth limit counts
/// nothing; a directory that cannot be opened is one error; a directory that
/// can is counted once, together with all of its entries.
pub open spec fn walk(what: Measure, node: Node, depth: nat, max_depth: Option<nat>) -> nat
    decreases node,
{
    if beyond(depth, max_depth) {
        0
    } else {
        match node {
            Node::File { meta } => file_gain(what, meta),
            Node::Dir { entries: None } => one(what, Measure::Errors),
            Node::Dir { entries: Some(entries) } => one(what, Measure::Dirs) + walk_entries(
                what,
                entries,
                depth,
                max_depth,
            ),
        }
    }
}

/// The sequential walk over the entries of a directory at `depth`: a file is
/// examined where it is found, a subdirectory is a job one level down, and an
/// entry that cannot be read or typed is one error.
pub open spec fn walk_entries(
    what: Measure,
    entries: Seq<Slot>,
    depth: nat,
    max_depth: Option<nat>,
) -> nat
    decreases entries,
{
    if entries.len() == 0 {
        0
    } else {
        walk_entry(what, entries[0], depth, max_depth) + walk_entries(
            what,
            entries.drop_first(),
            depth,
            max_depth,
        )
    }
}

/// The sequential walk over one entry of a directory at `depth`.
pub open spec fn walk_entry(what: Measure, entry: Slot, depth: nat, max_depth: Option<nat>) -> nat
    decreases entry,
{
    match entry {
        Slot::Unreadable => one(what, Measure::Errors),
        Slot::Untyped => one(what, Measure::Errors),
        Slot::Child { node } => match node {
            Node::File { meta } => file_gain(what, meta),
            Node::Dir { .. } => walk(what, node, depth + 1, max_depth),
        },
    }
}

/// How many steps a job for `node` takes at most: one to take it, and for a
/// directory that opens one for each entry, one for the end of the listing,
/// and what its subdirectories take in their turn.
pub open spec fn effort(node: Node) -> nat
    decreases node,
{
    match node {
        Node::File { .. } => 1,
        Node::Dir { entries: None } => 1,
        Node::Dir { entries: Some(entries) } => 2 + effort_entries(entries),
    }
}

/// How many steps the entries of a directory take at most.
pub open spec fn effort_entries(entries: Seq<Slot>) -> nat
    decreases entries,
{
    if entries.len() == 0 {
        0
    } else {
        effort_entry(entries[0]) + effort_entries(entries.drop_first())
    }
}

/// How many steps one entry of a directory takes at most.
pub open spec fn effort_entry(entry: Slot) -> nat
    decreases entry,
{
    match entry {
        Slot::Child { node } => match node {
            Node::Dir { .. } => 1 + effort(node),
            Node::File { .. } => 1,
        },
        _ => 1,
    }
}

/// Every directory of the tree can be opened and every entry read and typed.
pub open spec fn readable(node: Node) -> bool
    decreases node,
{
    match node {
        Node::File { .. } => true,
        Node::Dir { entries: None } => false,
        Node::Dir { entries: Some(entries) } => readable_entries(entries),
    }
}

pub open spec fn readable_entries(entries: Seq<Slot>) -> bool
    decreases entries,
{
    entries.len() > 0 ==> readable_entry(entries[0]) && readable_entries(entries.drop_first())
}

pub open spec fn readable_entry(entry: Slot) -> bool
    decreases entry,
{
    match entry {
        Slot::Child { node } => readable(node),
        _ => false,
    }
}

/// The number of entries of the tree, its root among them.
pub open spec fn entries_in(node: Node) -> nat
    decreases node,
{
    match node {
        Node::File { .. } => 1,
        Node::Dir { entries: None } => 1,
        Node::Dir { entries: Some(entries) } => 1 + entries_among(entries),
    }
}

pub open spec fn entries_among(entries: Seq<Slot>) -> nat
    decreases entries,
{
    if entries.len() == 0 {
        0
    } else {
        entries_below(entries[0]) + entries_among(entries.drop_first())
    }
}

pub open spec fn entries_below(entry: Slot) -> nat
    decreases entry,
{
    match entry {
        Slot::Child { node } => entries_in(node),
        _ => 1,
    }
}

/// The metadata of every file of the tree can be read.
pub open spec fn metadata_readable(node: Node) -> bool
    decreases node,
{
    match node {
        Node::File { meta } => meta is Some,
        Node::Dir { entries: None } => true,
        Node::Dir { entries: Some(entries) } => metadata_readable_entries(entries),
    }
}

pub open spec fn metadata_readable_entries(entries: Seq<Slot>) -> bool
    decreases entries,
{
    entries.len() > 0 ==> metadata_readable_entry(entries[0]) && metadata_readable_entries(
        entries.drop_first(),
    )
}

pub open spec fn metadata_readable_entry(entry: Slot) -> bool
    decreases entry,
{
    match entry {
        Slot::Child { node } => metadata_readable(node),
        _ => true,
    }
}

/// Without a depth limit, the sequential walk of a readable tree counts every
/// entry once, as a directory or as a file.
pub proof fn lemma_readable_walk_counts_every_entry(node: Node, depth: nat)
    requires
        readable(node),
    ensures
        walk(Measure::Dirs, node, depth, None) + walk(Measure::Files, node, depth, None)
            == entries_in(node),
        walk(Measure::Errors, node, depth, None) == 0 <==> metadata_readable(node),
    decreases node,
{
    match node {
        Node::Dir { entries: Some(entries) } => {
            lemma_readable_entries_counted(entries, depth);
        },
        _ => {},
    }
}

proof fn lemma_readable_entries_counted(entries: Seq<Slot>, depth: nat)
    requires
        readable_entries(entries),
    ensures
        walk_entries(Measure::Dirs, entries, depth, None) + walk_entries(
            Measure::Files,
            entries,
            depth,
            None,
        ) == entries_among(entries),
        walk_entries(Measure::Errors, entries, depth, None) == 0 <==> metadata_readable_entries(
            entries,
        ),
    decreases entries,
{
    if entries.len() > 0 {
        assert(readable_entry(entries[0]) && readable_entries(entries.drop_first()));
        let node = entries[0]->node;
        lemma_readable_walk_counts_every_entry(node, depth + 1);
        lemma_readable_entries_counted(entries.drop_first(), depth);
        assert(metadata_readable_entry(entries[0]) == metadata_readable(node));
        assert(entries_below(entries[0]) == entries_in(node));
        assert forall|what: Measure|
            walk_entries(what, entries, depth, None) == walk(what, node, depth + 1, None)
                + #[trigger] walk_entries(what, entries.drop_first(), depth, None) by {
            assert(walk_entry(what, entries[0], depth, None) == walk(what, node, depth + 1, None));
        }
    }
}

} // verus!
