//! The traversal engine.
//!
//! - [`job`]: the unit of work and what the file system says of an entry.
//! - [`queues`]: the work-stealing queues that the workers share.
//! - [`state`]: one worker's accounting as mathematical values, and the
//!   transitions of its loop.
//! - [`worker`]: the worker itself, one turn of its loop at a time.
//! - [`walker`]: the coordinator, which sets a walk up and adds up its results.
//! - [`tree`]: a file tree as a mathematical value, and the sequential walk.
//! - [`protocol`]: all workers together as a transition system, with the
//!   proofs that a walk counts what the sequential walk counts, that the
//!   termination counter is zero when it ends, and that it can always end.
//! - [`sum`]: sums over sequences.

pub mod job;
pub mod protocol;
pub mod queues;
pub mod state;
pub mod sum;
pub mod tree;
pub mod walker;
pub mod worker;
