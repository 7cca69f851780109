//! A line-oriented command queue: each non-empty input line is one shell
//! command, executed with a bounded degree of parallelism, and the run does
//! not end before every launched command has been awaited.
//!
//! This crate holds the verified core: configuration derivation, the
//! blank-line policy of the line source, the admission/completion state
//! machine that bounds concurrency and tracks every job to completion, and
//! the exact text of the per-job diagnostics. The asynchronous plumbing
//! (argument parsing, opening the input, spawning processes) lives outside.

pub mod config;
pub mod dispatch;
pub mod executor;
pub mod lines;
