//! The configuration that a command line amounts to, and the rules it must meet.

use crate::cli::{Cli, SortField};
use crate::engine::job::clone_path;
use regex::Regex;
use std::path::PathBuf;
use vstd::prelude::*;

verus! {

/// The largest depth that `--max-depth` and `--min-depth` accept.
pub const MAX_DEPTH: usize = 1000;

/// The largest number of threads that can be asked for.
pub const MAX_THREADS: usize = 1000;

/// The cap on the hard-link cache, in MiB.
pub const MAX_CACHE_MB: usize = 10_000;

/// Bytes in one MiB.
pub const MIB: usize = 1024 * 1024;

/// `regex::Regex`: a compiled pattern.
#[verifier::external_type_specification]
#[verifier::external_body]
pub struct ExRegex(Regex);

/// `regex::Error`: why a pattern did not compile.
#[verifier::external_type_specification]
#[verifier::external_body]
pub struct ExRegexError(regex::Error);

/// Whether `Regex::new` accepts the pattern: whether it is well formed and
/// compiles within the default size limit.
pub uninterp spec fn pattern_compiles(pattern: Seq<char>) -> bool;

/// Compiles a pattern with `Regex::new`, which succeeds or fails by the
/// pattern alone.
#[verifier::external_body]
pub(crate) fn compile(pattern: &str) -> (compiled: Result<Regex, regex::Error>)
    ensures
        compiled is Ok <==> pattern_compiles(pattern@),
{
    Regex::new(pattern)
}

/// The number of CPUs that `num_cpus::get` finds available to this process.
#[verifier::external_body]
pub(crate) fn available_cpus() -> (cpus: usize) {
    num_cpus::get()
}

/// Why a command line was refused.
#[derive(Clone, Copy, Debug, PartialEq, Eq, Structural)]
pub enum ConfigError {
    /// None of the given paths exists.
    NoExistingPath,
    /// The threshold is not a size.
    InvalidThreshold,
    /// The include pattern at this index does not compile.
    InvalidIncludePattern(usize),
    /// The exclude pattern at this index does not compile.
    InvalidExcludePattern(usize),
    /// A maximum depth of zero.
    MaxDepthZero,
    /// A maximum depth above `MAX_DEPTH`.
    MaxDepthTooLarge,
    /// A minimum depth above `MAX_DEPTH`.
    MinDepthTooLarge,
    /// More than `MAX_THREADS` threads.
    TooManyThreads,
}

#[derive(Debug, Clone)]
pub struct OutputConfig {
    pub all: bool,
    pub dirs_only: bool,
    pub files_only: bool,
    pub apparent_size: bool,
    pub show_time: bool,
    pub sort_field: Option<SortField>,
    pub reverse: bool,
    pub threshold: Option<u64>,
    pub total: bool,
    pub summarize: bool,
}

impl OutputConfig {
    /// The output settings of `cli`, where `threshold` is what its threshold
    /// came to in bytes, if it names one.
    pub open spec fn of(cli: Cli, threshold: Option<u64>) -> OutputConfig {
        OutputConfig {
            all: cli.all,
            dirs_only: cli.dirs_only,
            files_only: cli.files_only,
            apparent_size: cli.apparent_size,
            show_time: cli.show_time,
            sort_field: cli.sort,
            reverse: cli.reverse,
            threshold,
            total: cli.total,
            summarize: cli.summarize,
        }
    }

    /// What the output settings of `cli` come to, given the outcome of
    /// reading its threshold.
    pub open spec fn outcome(cli: Cli, threshold: Option<Option<u64>>) -> Result<
        OutputConfig,
        ConfigError,
    > {
        match threshold {
            None => Ok(OutputConfig::of(cli, None)),
            Some(Some(bytes)) => Ok(OutputConfig::of(cli, Some(bytes))),
            Some(None) => Err(ConfigError::InvalidThreshold),
        }
    }

    /// Builds the output settings. `threshold` is `None` where the command
    /// line names no threshold; otherwise it holds what the threshold came to
    /// in bytes, or `None` where it is no size, which refuses the command line.
    pub fn from_cli(cli: &Cli, threshold: Option<Option<u64>>) -> (config: Result<
        Self,
        ConfigError,
    >)
        ensures
            config == OutputConfig::outcome(*cli, threshold),
    {
        let threshold = match threshold {
            None => None,
            Some(Some(bytes)) => Some(bytes),
            Some(None) => {
                return Err(ConfigError::InvalidThreshold);
            },
        };
        Ok(
            OutputConfig {
                all: cli.all,
                dirs_only: cli.dirs_only,
                files_only: cli.files_only,
                apparent_size: cli.apparent_size,
                show_time: cli.show_time,
                sort_field: cli.sort,
                reverse: cli.reverse,
                threshold,
                total: cli.total,
                summarize: cli.summarize,
            },
        )
    }
}

#[derive(Debug, Clone)]
pub struct FilterConfig {
    pub exclude_patterns: Vec<Regex>,
    pub include_patterns: Vec<Regex>,
    pub exclude_caches: bool,
}

/// Every pattern compiles.
pub open spec fn all_compile(patterns: Seq<String>) -> bool {
    forall|i: int| 0 <= i < patterns.len() ==> pattern_compiles(#[trigger] patterns[i]@)
}

/// The pattern at `index` is the first that does not compile.
pub open spec fn first_failure(patterns: Seq<String>, index: int) -> bool {
    &&& 0 <= index < patterns.len()
    &&& !pattern_compiles(patterns[index]@)
    &&& forall|i: int| 0 <= i < index ==> pattern_compiles(#[trigger] patterns[i]@)
}

/// Compiles the patterns in order: all of them, or the index of the first
/// that does not compile.
pub fn compile_all(patterns: &Vec<String>) -> (compiled: Result<Vec<Regex>, usize>)
    ensures
        match compiled {
            Ok(regexes) => all_compile(patterns@) && regexes@.len() == patterns@.len(),
            Err(index) => first_failure(patterns@, index as int),
        },
{
    let n: usize = patterns.len();
    let mut regexes: Vec<Regex> = Vec::new();
    let mut i: usize = 0;
    while i < n
        invariant
            n == patterns@.len(),
            i <= n,
            regexes@.len() == i,
            forall|k: int| 0 <= k < i ==> pattern_compiles(#[trigger] patterns@[k]@),
        decreases n - i,
    {
        match compile(patterns[i].as_str()) {
            Ok(regex) => {
                regexes.push(regex);
            },
            Err(_) => {
                return Err(i);
            },
        }
        i = i + 1;
    }
    Ok(regexes)
}

impl FilterConfig {
    /// Compiles the include patterns, then the exclude patterns; the first
    /// pattern that does not compile refuses the command line.
    pub fn from_cli(cli: &Cli) -> (config: Result<Self, ConfigError>)
        ensures
            match config {
                Ok(c) => {
                    &&& all_compile(cli.include_patterns@)
                    &&& all_compile(cli.exclude_patterns@)
                    &&& c.include_patterns@.len() == cli.include_patterns@.len()
                    &&& c.exclude_patterns@.len() == cli.exclude_patterns@.len()
                    &&& c.exclude_caches == cli.exclude_caches
                },
                Err(ConfigError::InvalidIncludePattern(i)) => first_failure(
                    cli.include_patterns@,
                    i as int,
                ),
                Err(ConfigError::InvalidExcludePattern(i)) => all_compile(cli.include_patterns@)
                    && first_failure(cli.exclude_patterns@, i as int),
                Err(_) => false,
            },
    {
        let include_patterns = match compile_all(&cli.include_patterns) {
            Ok(regexes) => regexes,
            Err(index) => {
                return Err(ConfigError::InvalidIncludePattern(index));
            },
        };
        let exclude_patterns = match compile_all(&cli.exclude_patterns) {
            Ok(regexes) => regexes,
            Err(index) => {
                return Err(ConfigError::InvalidExcludePattern(index));
            },
        };
        Ok(FilterConfig { exclude_patterns, include_patterns, exclude_caches: cli.exclude_caches })
    }
}

#[derive(Debug, Clone)]
pub struct TraverseConfig {
    pub max_depth: Option<usize>,
    pub min_depth: Option<usize>,
    pub follow_symlinks: bool,
    pub cross_filesystems: bool,
    pub count_hard_links: bool,
}

impl TraverseConfig {
    /// What the traversal settings of `cli` come to: the maximum depth must
    /// lie in `1..=MAX_DEPTH`, the minimum depth in `0..=MAX_DEPTH`, and the
    /// maximum depth is looked at first.
    pub open spec fn of(cli: Cli) -> Result<TraverseConfig, ConfigError> {
        if cli.max_depth == Some(0usize) {
            Err(ConfigError::MaxDepthZero)
        } else if cli.max_depth matches Some(max) && max > MAX_DEPTH {
            Err(ConfigError::MaxDepthTooLarge)
        } else if cli.min_depth matches Some(min) && min > MAX_DEPTH {
            Err(ConfigError::MinDepthTooLarge)
        } else {
            Ok(
                TraverseConfig {
                    max_depth: cli.max_depth,
                    min_depth: cli.min_depth,
                    follow_symlinks: cli.dereference,
                    cross_filesystems: !cli.one_file_system,
                    count_hard_links: cli.count_links,
                },
            )
        }
    }

    pub fn from_cli(cli: &Cli) -> (config: Result<Self, ConfigError>)
        ensures
            config == TraverseConfig::of(*cli),
    {
        if let Some(max_depth) = cli.max_depth {
            if max_depth == 0 {
                return Err(ConfigError::MaxDepthZero);
            }
            if max_depth > MAX_DEPTH {
                return Err(ConfigError::MaxDepthTooLarge);
            }
        }
        if let Some(min_depth) = cli.min_depth {
            if min_depth > MAX_DEPTH {
                return Err(ConfigError::MinDepthTooLarge);
            }
        }
        Ok(
            TraverseConfig {
                max_depth: cli.max_depth,
                min_depth: cli.min_depth,
                follow_symlinks: cli.dereference,
                cross_filesystems: !cli.one_file_system,
                count_hard_links: cli.count_links,
            },
        )
    }
}

#[derive(Debug, Clone)]
pub struct PerformanceConfig {
    pub threads: usize,
    pub batch_size: usize,
    pub channel_buffer: usize,
    pub cache_size_bytes: usize,
    pub use_cache: bool,
    pub buffer_errors: bool,
}

/// The size of the hard-link cache in bytes: the request in MiB, capped at
/// `MAX_CACHE_MB`, and `usize::MAX` where the product does not fit.
pub open spec fn cache_bytes(cache_size_mb: usize) -> usize {
    let mb = if cache_size_mb < MAX_CACHE_MB {
        cache_size_mb
    } else {
        MAX_CACHE_MB
    };
    if mb * MIB > usize::MAX {
        usize::MAX
    } else {
        (mb * MIB) as usize
    }
}

impl PerformanceConfig {
    /// What the performance settings of `cli` come to on a machine with
    /// `cpus` CPUs: zero threads asks for one thread per CPU.
    pub open spec fn of(cli: Cli, cpus: usize) -> Result<PerformanceConfig, ConfigError> {
        if cli.threads > MAX_THREADS {
            Err(ConfigError::TooManyThreads)
        } else {
            Ok(
                PerformanceConfig {
                    threads: if cli.threads == 0 {
                        cpus
                    } else {
                        cli.threads
                    },
                    batch_size: 64,
                    channel_buffer: 1000,
                    cache_size_bytes: cache_bytes(cli.cache_size_mb),
                    use_cache: !cli.no_cache,
                    buffer_errors: cli.buffer_errors,
                },
            )
        }
    }

    /// The settings for a machine whose number of CPUs is given.
    pub fn with_cpus(cli: &Cli, cpus: usize) -> (config: Result<Self, ConfigError>)
        ensures
            config == PerformanceConfig::of(*cli, cpus),
    {
        let threads = if cli.threads == 0 {
            cpus
        } else {
            if cli.threads > MAX_THREADS {
                return Err(ConfigError::TooManyThreads);
            }
            cli.threads
        };
        let cache_size_mb = if cli.cache_size_mb < MAX_CACHE_MB {
            cli.cache_size_mb
        } else {
            MAX_CACHE_MB
        };
        let cache_size_bytes = if cache_size_mb > usize::MAX / MIB {
            usize::MAX
        } else {
            cache_size_mb * MIB
        };
        Ok(
            PerformanceConfig {
                threads,
                batch_size: 64,
                channel_buffer: 1000,
                cache_size_bytes,
                use_cache: !cli.no_cache,
                buffer_errors: cli.buffer_errors,
            },
        )
    }

    /// The settings for this machine: the number of CPUs is asked for only
    /// where the command line leaves the number of threads open.
    pub fn from_cli(cli: &Cli) -> (config: Result<Self, ConfigError>)
        ensures
            exists|cpus: usize| config == #[trigger] PerformanceConfig::of(*cli, cpus),
            cli.threads != 0 ==> config == PerformanceConfig::of(*cli, 0),
    {
        if cli.threads == 0 {
            let cpus = available_cpus();
            let config = PerformanceConfig::with_cpus(cli, cpus);
            assert(config == PerformanceConfig::of(*cli, cpus));
            config
        } else {
            PerformanceConfig::with_cpus(cli, 0)
        }
    }
}

#[derive(Debug, Clone)]
pub struct Config {
    pub paths: Vec<PathBuf>,
    pub output_config: OutputConfig,
    pub filter_config: FilterConfig,
    pub traverse_config: TraverseConfig,
    pub performance_config: PerformanceConfig,
}

/// Whether the path at `index` was found to exist; a path without a flag was not.
pub open spec fn found(exists: Seq<bool>, index: int) -> bool {
    0 <= index < exists.len() && exists[index]
}

/// The paths that exist, in the order in which they were given.
pub open spec fn existing(paths: Seq<PathBuf>, exists: Seq<bool>) -> Seq<PathBuf>
    decreases paths.len(),
{
    if paths.len() == 0 {
        Seq::empty()
    } else if found(exists, paths.len() - 1) {
        existing(paths.drop_last(), exists).push(paths.last())
    } else {
        existing(paths.drop_last(), exists)
    }
}

/// Keeps the paths whose flag in `exists` is set.
pub fn existing_paths(paths: &Vec<PathBuf>, exists: &Vec<bool>) -> (kept: Vec<PathBuf>)
    ensures
        kept@ == existing(paths@, exists@),
{
    let n: usize = paths.len();
    let mut kept: Vec<PathBuf> = Vec::new();
    let mut i: usize = 0;
    while i < n
        invariant
            n == paths@.len(),
            i <= n,
            kept@ == existing(paths@.take(i as int), exists@),
        decreases n - i,
    {
        proof {
            assert(paths@.take(i + 1).drop_last() =~= paths@.take(i as int));
        }
        if i < exists.len() && exists[i] {
            kept.push(clone_path(&paths[i]));
        }
        i = i + 1;
    }
    proof {
        assert(paths@.take(n as int) =~= paths@);
    }
    kept
}

impl Config {
    /// Builds the configuration. `exists` says of each path of `cli`, in
    /// order, whether it exists, and `threshold` is the outcome of reading
    /// `cli.threshold` as a size, as [`OutputConfig::from_cli`] takes it. The
    /// command line is refused where no path
    /// exists; then the output, filter, traversal and performance settings
    /// are built in this order, and the first that fails refuses it.
    pub fn from_cli(
        cli: &Cli,
        exists: &Vec<bool>,
        threshold: Option<Option<u64>>,
    ) -> (config: Result<Self, ConfigError>)
        ensures
            config is Ok <==> config_accepted(*cli, exists@, threshold),
            config matches Ok(c) ==> {
                &&& c.paths@ == existing(cli.paths@, exists@)
                &&& c.paths@.len() > 0
                &&& Ok::<OutputConfig, ConfigError>(c.output_config) == OutputConfig::outcome(
                    *cli,
                    threshold,
                )
                &&& all_compile(cli.include_patterns@)
                &&& all_compile(cli.exclude_patterns@)
                &&& c.filter_config.include_patterns@.len() == cli.include_patterns@.len()
                &&& c.filter_config.exclude_patterns@.len() == cli.exclude_patterns@.len()
                &&& c.filter_config.exclude_caches == cli.exclude_caches
                &&& Ok::<TraverseConfig, ConfigError>(c.traverse_config) == TraverseConfig::of(*cli)
                &&& exists|cpus: usize|
                    Ok::<PerformanceConfig, ConfigError>(c.performance_config)
                        == #[trigger] PerformanceConfig::of(*cli, cpus)
            },
            config matches Err(e) ==> config_refused(*cli, exists@, threshold, e),
    {
        let paths = existing_paths(&cli.paths, exists);
        if paths.len() == 0 {
            return Err(ConfigError::NoExistingPath);
        }
        let output_config = match OutputConfig::from_cli(cli, threshold) {
            Ok(c) => c,
            Err(e) => {
                return Err(e);
            },
        };
        let filter_config = match FilterConfig::from_cli(cli) {
            Ok(c) => c,
            Err(e) => {
                return Err(e);
            },
        };
        let traverse_config = match TraverseConfig::from_cli(cli) {
            Ok(c) => c,
            Err(e) => {
                return Err(e);
            },
        };
        let performance_config = match PerformanceConfig::from_cli(cli) {
            Ok(c) => c,
            Err(e) => {
                return Err(e);
            },
        };
        Ok(Config { paths, output_config, filter_config, traverse_config, performance_config })
    }
}

/// A command line is accepted where a path exists, the threshold is a size,
/// every pattern compiles, and the depths and the threads are within bounds.
pub open spec fn config_accepted(
    cli: Cli,
    exists: Seq<bool>,
    threshold: Option<Option<u64>>,
) -> bool {
    &&& existing(cli.paths@, exists).len() > 0
    &&& threshold != Some(None::<u64>)
    &&& all_compile(cli.include_patterns@)
    &&& all_compile(cli.exclude_patterns@)
    &&& TraverseConfig::of(cli) is Ok
    &&& cli.threads <= MAX_THREADS
}

/// The reason `e` for which a command line is refused is the first that
/// applies: no existing path, the threshold, an include pattern, an exclude
/// pattern, the depths, the threads.
pub open spec fn config_refused(
    cli: Cli,
    exists: Seq<bool>,
    threshold: Option<Option<u64>>,
    e: ConfigError,
) -> bool {
    if existing(cli.paths@, exists).len() == 0 {
        e == ConfigError::NoExistingPath
    } else if threshold == Some(None::<u64>) {
        e == ConfigError::InvalidThreshold
    } else if !all_compile(cli.include_patterns@) {
        match e {
            ConfigError::InvalidIncludePattern(i) => first_failure(cli.include_patterns@, i as int),
            _ => false,
        }
    } else if !all_compile(cli.exclude_patterns@) {
        match e {
            ConfigError::InvalidExcludePattern(i) => first_failure(cli.exclude_patterns@, i as int),
            _ => false,
        }
    } else {
        match TraverseConfig::of(cli) {
            Err(t) => e == t,
            Ok(_) => e == ConfigError::TooManyThreads && cli.threads > MAX_THREADS,
        }
    }
}

} // verus!
