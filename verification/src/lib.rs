//! Orchestration of a map, sort and reduce pipeline whose phases are carried
//! out by external worker programs.
//!
//! The library decides; it performs no input or output itself. Its callers
//! launch the workers, move the bytes and touch the disk, and hand back what
//! came of it.
//!
//! - `pipeline` drives a run: map, store, load, sort, store, load, reduce,
//!   store, load.
//! - `runner` plans a phase and gathers what its workers wrote.
//! - `balance` deals records out to the workers of a phase.
//! - `simple` and `parallel` are the two configurations, each with a store of
//!   its own: slots in memory, or one file for each phase.
//! - `phase`, `files`, `text` and `error` hold what the others share.

pub mod balance;
pub mod error;
pub mod files;
pub mod parallel;
pub mod phase;
pub mod pipeline;
pub mod runner;
pub mod simple;
pub mod text;
