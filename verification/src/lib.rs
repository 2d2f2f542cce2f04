//! A credential-testing engine: every host of a registry is tried with every
//! credential of a word list, and a host that has yielded a valid credential
//! is not probed again.
//!
//! The library holds the rules of a run: which hosts exist, which tasks are
//! to be tried, when a task is skipped, which results are reported and how.
//! The network and the worker threads belong to the caller.

pub mod args;
pub mod credential;
pub mod dispatch;
pub mod plan;
pub mod pool;
pub mod probe;
pub mod registry;
pub mod report;
pub mod task_space;
