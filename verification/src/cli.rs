//! The command line as a plain value.

use std::path::PathBuf;
use vstd::prelude::*;

verus! {

/// Everything the command line can say.
#[derive(Debug)]
pub struct Cli {
    /// Paths to analyze
    pub paths: Vec<PathBuf>,
    /// Display all files and directories
    pub all: bool,
    /// Display only directories
    pub dirs_only: bool,
    /// Display only files
    pub files_only: bool,
    /// Size display format
    pub format: SizeFormat,
    /// Display apparent size
    pub apparent_size: bool,
    /// Block size
    pub block_size: Option<String>,
    /// Produce grand total
    pub total: bool,
    /// Maximum depth
    pub max_depth: Option<usize>,
    /// Minimum depth
    pub min_depth: Option<usize>,
    /// Display only a total for each path provided
    pub summarize: bool,
    /// Sort by field
    pub sort: Option<SortField>,
    /// Reverse sort order
    pub reverse: bool,
    /// Include patterns
    pub include_patterns: Vec<String>,
    /// Exclude patterns
    pub exclude_patterns: Vec<String>,
    /// Threshold size
    pub threshold: Option<String>,
    /// Count hard links
    pub count_links: bool,
    /// Dereference (follow) symlinks
    pub dereference: bool,
    /// Don't cross filesystem boundaries
    pub one_file_system: bool,
    /// Number of threads
    pub threads: usize,
    /// Cache size in MB (for hard links)
    pub cache_size_mb: usize,
    /// Disable cache for hard links
    pub no_cache: bool,
    /// Buffer errors
    pub buffer_errors: bool,
    /// Exclude cache directories
    pub exclude_caches: bool,
    /// Output format
    pub output: Option<OutputFormat>,
    /// Show modification time
    pub show_time: bool,
    pub trace: bool,
}

#[derive(Clone, Copy, Debug, PartialEq, Eq, Structural)]
pub enum SizeFormat {
    Human,
    Si,
    Blocks,
    Bytes,
    Binary,
    Hex,
    Kilo,
    Mega,
    Giga,
}

#[derive(Clone, Copy, Debug, PartialEq, Eq, Structural)]
pub enum SortField {
    Name,
    Size,
    Count,
    Time,
}

#[derive(Clone, Copy, Debug, PartialEq, Eq, Structural)]
pub enum OutputFormat {
    Raw,
    Json,
}

} // verus!
