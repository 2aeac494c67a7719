//! A parallel disk-usage analyzer.
//!
//! The [`engine`] walks a directory tree with a pool of workers that steal
//! work from each other and decide by themselves, over one shared counter,
//! when the walk is complete. The workers are driven from outside: they ask
//! for every read of the file system and for every pause, and account for
//! what they are told. [`cli`], [`config`] and [`utils`] hold the command
//! line as plain values and the rules that it must meet.

pub mod cli;
pub mod config;
pub mod engine;
pub mod utils;
