//! Whole walks over trees held in memory, driven turn by turn.

use fdu::engine::job::{FileKind, Metadata};
use fdu::engine::state::{Listed, Reply, Request};
use fdu::engine::walker::Multithreaded;
use fdu::engine::worker::{WalkWorker, WorkerResult};
use std::collections::HashMap;
use std::path::{Path, PathBuf};
use std::sync::atomic::Ordering;

/// A file system in memory.
struct Tree {
    /// Directory path to its entries; `None` for a directory that cannot be opened.
    dirs: HashMap<PathBuf, Option<Vec<Listed>>>,
    /// Path to what lstat gives.
    meta: HashMap<PathBuf, Metadata>,
}

impl Tree {
    fn new() -> Tree {
        Tree { dirs: HashMap::new(), meta: HashMap::new() }
    }

    fn dir(&mut self, path: &str) {
        self.add(path, FileKind::Directory, 8);
        self.dirs.insert(PathBuf::from(path), Some(Vec::new()));
    }

    fn locked_dir(&mut self, path: &str) {
        self.add(path, FileKind::Directory, 8);
        self.dirs.insert(PathBuf::from(path), None);
    }

    fn file(&mut self, path: &str, kind: FileKind, blocks: u64) {
        self.add(path, kind, blocks);
    }

    fn add(&mut self, path: &str, kind: FileKind, blocks: u64) {
        let path = PathBuf::from(path);
        self.meta.insert(path.clone(), Metadata { kind, blocks });
        if let Some(parent) = path.parent() {
            if let Some(Some(entries)) = self.dirs.get_mut(parent) {
                entries.push(Listed::Item { path: path.clone(), kind: Some(kind) });
            }
        }
    }

    fn kind(&self, path: &Path) -> Option<FileKind> {
        self.meta.get(path).map(|m| m.kind)
    }

    fn listing(&self, path: &Path) -> Option<Vec<Listed>> {
        match self.dirs.get(path) {
            Some(Some(entries)) => Some(
                entries
                    .iter()
                    .map(|e| match e {
                        Listed::Item { path, kind } => Listed::Item { path: path.clone(), kind: *kind },
                        Listed::Unreadable => Listed::Unreadable,
                        Listed::End => Listed::End,
                    })
                    .collect(),
            ),
            _ => None,
        }
    }
}

/// What one finished walk brought back.
struct Outcome {
    results: Vec<WorkerResult>,
    total: u64,
    counter: i64,
    deltas: Vec<i64>,
}

impl Outcome {
    fn dirs(&self) -> usize {
        self.results.iter().map(|r| r.dirs_processed).sum()
    }

    fn files(&self) -> usize {
        self.results.iter().map(|r| r.files_processed).sum()
    }

    fn errors(&self) -> usize {
        self.results.iter().map(|r| r.errors_count).sum()
    }
}

/// Carries out one request against the tree and says what to report back;
/// `None` when the worker has left.
fn serve(tree: &Tree, open: &mut Vec<Listed>, request: Request) -> Option<Reply> {
    match request {
        Request::Open { dir } => match tree.listing(&dir.path) {
            Some(mut entries) => {
                entries.reverse();
                *open = entries;
                Some(Reply::Opened { dir, ok: true })
            }
            None => Some(Reply::Opened { dir, ok: false }),
        },
        Request::NextEntry { dir } => {
            let entry = open.pop().unwrap_or(Listed::End);
            Some(Reply::Entry { dir, entry })
        }
        Request::Stat { job, within } => {
            let meta = tree.meta.get(&job.path).copied();
            Some(Reply::Metadata { job, within, meta })
        }
        Request::Spin | Request::Continue => Some(Reply::Ready),
        Request::Yield => Some(Reply::Yielded),
        Request::Sleep => Some(Reply::Slept),
        Request::Retry { limit } => Some(Reply::Retry { limit }),
        Request::Exit { seen } => {
            assert_eq!(seen.counter, 0);
            assert!(seen.local_empty && seen.injector_empty);
            assert!(seen.stealer_lens.iter().all(|len| *len == 0));
            None
        }
    }
}

/// Walks `root` with `threads` workers that take their turns one after the
/// other, the first `lead` turns going to the first worker alone.
fn walk_with(tree: &Tree, root: &str, threads: usize, max_depth: Option<usize>, lead: usize) -> Outcome {
    let walker = Multithreaded::new(threads).with_max_depth(max_depth);
    let root = PathBuf::from(root);
    let kind = tree.kind(&root);
    let walk = walker.walk(root, kind).expect("the root exists");
    let counter = walk.counter;
    let mut workers: Vec<WalkWorker> = walk.workers;
    assert_eq!(workers.len(), threads);
    let mut replies: Vec<Option<Reply>> = workers.iter().map(|_| Some(Reply::Ready)).collect();
    let mut open: Vec<Vec<Listed>> = workers.iter().map(|_| Vec::new()).collect();
    let mut turns = 0usize;
    while replies.iter().any(|r| r.is_some()) {
        for i in 0..workers.len() {
            if turns < lead && i != 0 {
                continue;
            }
            if let Some(reply) = replies[i].take() {
                assert!(workers[i].accepts(&reply));
                let request = workers[i].run_loop(&counter, reply);
                replies[i] = serve(tree, &mut open[i], request);
            }
        }
        turns += 1;
        assert!(turns < 1_000_000, "the walk does not end");
    }
    let results: Vec<WorkerResult> = workers.iter().map(WorkerResult::new).collect();
    let joined: Vec<Option<WorkerResult>> = results.iter().map(|r| Some(*r)).collect();
    Outcome {
        total: Multithreaded::total(&joined).expect("the total fits"),
        counter: counter.load(Ordering::Acquire),
        deltas: workers.iter().map(|w| w.local_delta()).collect(),
        results,
    }
}

fn walk(tree: &Tree, root: &str, threads: usize, max_depth: Option<usize>) -> Outcome {
    walk_with(tree, root, threads, max_depth, 0)
}

fn chain(depth: usize) -> Tree {
    let mut tree = Tree::new();
    let mut path = String::from("root");
    tree.dir(&path);
    for _ in 0..depth {
        path.push_str("/a");
        tree.dir(&path);
    }
    path.push_str("/leaf");
    tree.file(&path, FileKind::Regular, 0);
    tree
}

fn mixed() -> Tree {
    let mut tree = Tree::new();
    tree.dir("root");
    tree.file("root/one", FileKind::Regular, 16);
    tree.file("root/two", FileKind::Regular, 16);
    tree.file("root/pipe", FileKind::Fifo, 0);
    tree.file("root/link", FileKind::Symlink, 8);
    tree
}

fn bushy() -> Tree {
    let mut tree = Tree::new();
    tree.dir("root");
    for a in 0..6 {
        let da = format!("root/d{}", a);
        tree.dir(&da);
        for b in 0..5 {
            let db = format!("{}/e{}", da, b);
            tree.dir(&db);
            for c in 0..4 {
                tree.file(&format!("{}/f{}", db, c), FileKind::Regular, (a + b + c) as u64);
            }
        }
        tree.file(&format!("{}/sock", da), FileKind::Socket, 8);
    }
    tree
}

#[test]
fn empty_directory() {
    let mut tree = Tree::new();
    tree.dir("root");
    let out = walk(&tree, "root", 2, None);
    assert_eq!(out.total, 0);
    assert_eq!(out.dirs(), 1);
    assert_eq!(out.files(), 0);
    assert_eq!(out.errors(), 0);
}

#[test]
fn single_file_root() {
    let mut tree = Tree::new();
    tree.file("root", FileKind::Regular, 8);
    let out = walk(&tree, "root", 2, None);
    assert_eq!(out.total, 8);
    assert_eq!(out.files(), 1);
    assert_eq!(out.dirs(), 0);
}

#[test]
fn flat_thousand_files() {
    let mut tree = Tree::new();
    tree.dir("root");
    for i in 0..1000 {
        tree.file(&format!("root/f{:04}", i), FileKind::Regular, 8);
    }
    let out = walk(&tree, "root", 4, None);
    assert_eq!(out.total, 8000);
    assert_eq!(out.files(), 1000);
    assert_eq!(out.dirs(), 1);
}

#[test]
fn deep_chain_stops_at_max_depth() {
    let tree = chain(50);
    let out = walk(&tree, "root", 2, Some(10));
    assert_eq!(out.dirs(), 11);
    assert_eq!(out.files(), 0);
    assert_eq!(out.errors(), 0);
    assert_eq!(out.counter, 0);
}

#[test]
fn deep_chain_without_limit_reaches_the_leaf() {
    let tree = chain(50);
    let out = walk(&tree, "root", 3, None);
    assert_eq!(out.dirs(), 51);
    assert_eq!(out.files(), 1);
    assert_eq!(out.total, 0);
}

#[test]
fn files_of_the_last_listed_directory_are_counted() {
    let mut tree = Tree::new();
    tree.dir("root");
    tree.file("root/f", FileKind::Regular, 8);
    tree.dir("root/d");
    tree.file("root/d/g", FileKind::Regular, 8);
    let out = walk(&tree, "root", 1, Some(0));
    assert_eq!(out.dirs(), 1);
    assert_eq!(out.files(), 1);
    assert_eq!(out.total, 8);
}

#[test]
fn special_files_are_ignored() {
    let out = walk(&mixed(), "root", 2, None);
    assert_eq!(out.total, 32);
    assert_eq!(out.files(), 4);
    assert_eq!(out.errors(), 0);
}

#[test]
fn permission_denied_subtree() {
    let mut tree = Tree::new();
    tree.dir("root");
    tree.locked_dir("root/a");
    tree.dir("root/b");
    tree.file("root/b/f", FileKind::Regular, 8);
    let out = walk(&tree, "root", 2, None);
    assert_eq!(out.total, 8);
    assert!(out.errors() >= 1);
    assert_eq!(out.errors(), 1);
    assert_eq!(out.dirs(), 2);
}

#[test]
fn unreadable_and_untyped_entries_are_errors() {
    let mut tree = Tree::new();
    tree.dir("root");
    tree.file("root/f", FileKind::Regular, 8);
    if let Some(Some(entries)) = tree.dirs.get_mut(Path::new("root")) {
        entries.push(Listed::Unreadable);
        entries.push(Listed::Item { path: PathBuf::from("root/x"), kind: None });
        entries.push(Listed::Item { path: PathBuf::from("root/gone"), kind: Some(FileKind::Regular) });
    }
    let out = walk(&tree, "root", 1, None);
    assert_eq!(out.total, 8);
    assert_eq!(out.errors(), 3);
    assert_eq!(out.files(), 2);
    assert_eq!(out.dirs(), 1);
}

#[test]
fn counter_is_zero_when_all_workers_have_left() {
    for threads in [1usize, 2, 4, 16] {
        let out = walk(&bushy(), "root", threads, None);
        assert_eq!(out.counter, 0);
        assert!(out.deltas.iter().all(|d| *d == 0));
    }
}

#[test]
fn every_entry_is_counted_once() {
    for threads in [1usize, 2, 4, 16] {
        let out = walk(&bushy(), "root", threads, None);
        assert_eq!(out.dirs(), 1 + 6 + 30);
        assert_eq!(out.files(), 120 + 6);
        assert_eq!(out.errors(), 0);
    }
}

#[test]
fn total_matches_the_sequential_sum() {
    let mut expected = 0u64;
    for a in 0..6u64 {
        for b in 0..5u64 {
            for c in 0..4u64 {
                expected += a + b + c;
            }
        }
    }
    for threads in [1usize, 2, 4, 16] {
        assert_eq!(walk(&bushy(), "root", threads, None).total, expected);
    }
}

#[test]
fn repeated_walks_give_the_same_total() {
    let first = walk(&bushy(), "root", 1, None).total;
    for threads in [1usize, 2, 3, 8, 64] {
        assert_eq!(walk(&bushy(), "root", threads, None).total, first);
        assert_eq!(walk_with(&bushy(), "root", threads, None, 40).total, first);
    }
}

#[test]
fn peers_steal_what_one_worker_produces() {
    let out = walk_with(&bushy(), "root", 4, None, 12);
    let busy = out.results.iter().filter(|r| r.dirs_processed > 0).count();
    assert!(busy > 1, "only one worker did all the work");
    assert_eq!(out.counter, 0);
}

#[test]
fn missing_root_is_fatal() {
    let walker = Multithreaded::new(2);
    let walk = walker.walk(PathBuf::from("nowhere"), None);
    assert!(matches!(walk, Err(fdu::engine::walker::WalkError::RootUnreadable)));
}

#[test]
fn no_workers_no_walk() {
    let tree = mixed();
    let out = walk(&tree, "root", 0, None);
    assert_eq!(out.total, 0);
    assert_eq!(out.counter, 1);
}
