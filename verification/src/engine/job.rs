//! Work units and the plain values in which the file system's answers arrive.

use std::path::PathBuf;
use vstd::prelude::*;

verus! {

/// `std::path::PathBuf`, carried through the engine without looking inside.
#[verifier::external_type_specification]
#[verifier::external_body]
pub struct ExPathBuf(std::path::PathBuf);

/// Duplicates a path with `PathBuf::clone`; the copy denotes the same path.
#[verifier::external_body]
pub(crate) fn clone_path(path: &PathBuf) -> (copy: PathBuf)
    ensures
        copy == *path,
{
    path.clone()
}

/// The type of a file system entry, read without following symlinks.
#[derive(Clone, Copy, Debug, PartialEq, Eq, Structural)]
pub enum FileKind {
    Regular,
    Directory,
    Symlink,
    BlockDevice,
    CharDevice,
    Fifo,
    Socket,
    Other,
}

/// Whether an entry of this type is left out of the disk usage: anything that
/// is a device, a FIFO, a socket or a symlink.
pub open spec fn special(kind: FileKind) -> bool {
    kind is BlockDevice || kind is CharDevice || kind is Fifo || kind is Socket
        || kind is Symlink
}

pub fn is_special_file(kind: FileKind) -> (r: bool)
    ensures
        r == special(kind),
{
    match kind {
        FileKind::BlockDevice => true,
        FileKind::CharDevice => true,
        FileKind::Fifo => true,
        FileKind::Socket => true,
        FileKind::Symlink => true,
        _ => false,
    }
}

/// What `lstat` tells of an entry: its type and its size in 512-byte blocks.
#[derive(Clone, Copy, Debug, PartialEq, Eq, Structural)]
pub struct Metadata {
    pub kind: FileKind,
    pub blocks: u64,
}

/// A single file system entry to examine.
#[derive(Debug)]
pub struct Job {
    pub path: PathBuf,
    pub parent: Option<PathBuf>,
    pub depth: usize,
    pub is_dir: bool,
}

impl Job {
    pub fn new(path: PathBuf, parent: Option<PathBuf>, depth: usize, is_dir: bool) -> (job: Self)
        ensures
            job == (Job { path, parent, depth, is_dir }),
    {
        Self { path, parent, depth, is_dir }
    }
}

} // verus!
