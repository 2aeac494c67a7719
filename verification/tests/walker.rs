//! Setting a walk up and reducing its results.

use fdu::engine::job::FileKind;
use fdu::engine::queues::Found;
use fdu::engine::walker::{root_job, Multithreaded, WalkError, INITIAL_COUNT};
use fdu::engine::worker::WorkerResult;
use std::path::PathBuf;
use std::sync::atomic::Ordering;

fn blocks(total_blocks: u64) -> Option<WorkerResult> {
    Some(WorkerResult { total_blocks, dirs_processed: 0, files_processed: 0, errors_count: 0 })
}

#[test]
fn total_adds_joined_results() {
    assert_eq!(Multithreaded::total(&vec![blocks(8), None, blocks(16)]), Some(24));
    assert_eq!(Multithreaded::total(&vec![]), Some(0));
    assert_eq!(Multithreaded::total(&vec![None, None]), Some(0));
}

#[test]
fn total_of_survivors_is_a_lower_bound() {
    let all = Multithreaded::total(&vec![blocks(8), blocks(100), blocks(16)]).unwrap();
    let survivors = Multithreaded::total(&vec![blocks(8), None, blocks(16)]).unwrap();
    assert!(survivors <= all);
    assert_eq!(survivors, 24);
}

#[test]
fn total_that_does_not_fit_is_none() {
    assert_eq!(Multithreaded::total(&vec![blocks(u64::MAX), blocks(1)]), None);
    assert_eq!(Multithreaded::total(&vec![blocks(u64::MAX - 1), None, blocks(1)]), Some(u64::MAX));
}

#[test]
fn disk_usage_is_in_decimal_units_of_bytes() {
    assert_eq!(Multithreaded::disk_usage(0), Some(String::from("0 B")));
    assert_eq!(Multithreaded::disk_usage(1), Some(String::from("512 B")));
    assert_eq!(Multithreaded::disk_usage(8), Some(String::from("4.10 kB")));
    assert_eq!(Multithreaded::disk_usage(8000), Some(String::from("4.10 MB")));
    assert_eq!(Multithreaded::disk_usage(2_000_000), Some(String::from("1.02 GB")));
}

#[test]
fn disk_usage_that_does_not_fit_is_none() {
    assert_eq!(Multithreaded::disk_usage(u64::MAX / 512 + 1), None);
    assert!(Multithreaded::disk_usage(u64::MAX / 512).is_some());
}

#[test]
fn root_job_is_a_file_only_for_a_regular_file() {
    let job = root_job(PathBuf::from("r"), FileKind::Regular);
    assert!(!job.is_dir);
    assert_eq!(job.depth, 0);
    assert_eq!(job.parent, None);
    assert_eq!(job.path, PathBuf::from("r"));
    assert!(root_job(PathBuf::from("r"), FileKind::Directory).is_dir);
    assert!(root_job(PathBuf::from("r"), FileKind::Symlink).is_dir);
    assert!(root_job(PathBuf::from("r"), FileKind::Fifo).is_dir);
}

#[test]
fn walk_seeds_the_injector_and_the_counter() {
    let walk = Multithreaded::new(3).walk(PathBuf::from("root"), Some(FileKind::Directory)).unwrap();
    assert_eq!(INITIAL_COUNT, 1);
    assert_eq!(walk.counter.load(Ordering::Acquire), 1);
    assert_eq!(walk.workers.len(), 3);
    for (i, w) in walk.workers.iter().enumerate() {
        assert_eq!(w.id(), i);
        assert_eq!(w.total_blocks(), 0);
        let seen = w.observe(&walk.counter);
        assert!(seen.local_empty);
        assert!(!seen.injector_empty);
        assert_eq!(seen.stealer_lens, vec![0, 0, 0]);
    }
    match walk.workers[1].find_work() {
        Found::Job(job) => {
            assert_eq!(job.path, PathBuf::from("root"));
            assert_eq!(job.depth, 0);
            assert!(job.is_dir);
            assert_eq!(job.parent, None);
        }
        other => panic!("expected the root job, got {:?}", other),
    }
    assert!(matches!(walk.workers[0].find_work(), Found::Nothing));
}

#[test]
fn walk_of_an_unreadable_root_fails() {
    let walk = Multithreaded::new(3).walk(PathBuf::from("root"), None);
    assert!(matches!(walk, Err(WalkError::RootUnreadable)));
}

#[test]
fn stealers_are_shared_in_worker_order() {
    let mut walk = Multithreaded::new(3).walk(PathBuf::from("root"), Some(FileKind::Directory)).unwrap();
    let dir = root_job(PathBuf::from("root"), FileKind::Directory);
    let entry = fdu::engine::state::Listed::Item { path: PathBuf::from("root/d"), kind: Some(FileKind::Directory) };
    walk.workers[2].process_entry(dir, entry);
    let seen = walk.workers[0].observe(&walk.counter);
    assert_eq!(seen.stealer_lens, vec![0, 0, 1]);
}

#[test]
fn depth_limit_reaches_the_workers() {
    let mut walk = Multithreaded::new(1)
        .with_max_depth(Some(2))
        .walk(PathBuf::from("root"), Some(FileKind::Directory))
        .unwrap();
    let deep = fdu::engine::job::Job::new(PathBuf::from("a/b/c"), None, 3, true);
    assert!(matches!(walk.workers[0].process_job(deep), fdu::engine::state::Request::Continue));
}

#[test]
fn walker_is_built_from_a_configuration() {
    let cli = fdu::cli::Cli {
        paths: vec![PathBuf::from("root")],
        all: false,
        dirs_only: false,
        files_only: false,
        format: fdu::cli::SizeFormat::Human,
        apparent_size: false,
        block_size: None,
        total: false,
        max_depth: Some(1),
        min_depth: None,
        summarize: false,
        sort: None,
        reverse: false,
        include_patterns: vec![],
        exclude_patterns: vec![],
        threshold: None,
        count_links: false,
        dereference: true,
        one_file_system: false,
        threads: 3,
        cache_size_mb: 100,
        no_cache: false,
        buffer_errors: false,
        exclude_caches: false,
        output: None,
        show_time: false,
        trace: false,
    };
    let config = fdu::config::Config::from_cli(&cli, &vec![true], None).unwrap();
    let mut walk = Multithreaded::from_config(&config)
        .walk(PathBuf::from("root"), Some(FileKind::Directory))
        .unwrap();
    assert_eq!(walk.workers.len(), 3);
    assert!(walk.workers[0].follows_symlinks());
    let deep = fdu::engine::job::Job::new(PathBuf::from("a/b"), None, 2, true);
    assert!(matches!(walk.workers[0].process_job(deep), fdu::engine::state::Request::Continue));
    let edge = fdu::engine::job::Job::new(PathBuf::from("a"), None, 1, true);
    assert!(matches!(walk.workers[0].process_job(edge), fdu::engine::state::Request::Open { .. }));
    assert!(!Multithreaded::new(1)
        .walk(PathBuf::from("root"), Some(FileKind::Directory))
        .unwrap()
        .workers[0]
        .follows_symlinks());
}
