//! The settings of a run.

use crate::pool::{capacity_for, resolve_capacity, text_of, worker_capacity};
use crate::report::Reporter;
use vstd::prelude::*;

verus! {

/// What the command line says: where the hosts and the word list are, how
/// many workers to use, and how much to report.
#[derive(Debug)]
pub struct Args {
    /// The file with one host address per line.
    pub hostlist: String,
    /// The file with one `username:password` per line.
    pub wordlist: String,
    /// The number of workers, as it was typed.
    pub threads: Option<String>,
    /// How often the verbose flag was given.
    pub verbose: i32,
}

impl Args {
    /// The reporter of the run: it reports failures if the verbose flag was
    /// given at least once.
    pub fn reporter(&self) -> (reporter: Reporter)
        ensures
            reporter.verbose() == (self.verbose > 0),
    {
        Reporter::new(self.verbose)
    }

    /// The size of the pool on a machine with the given number of processing
    /// units.
    pub fn capacity(&self, units: usize) -> (capacity: usize)
        ensures
            capacity == capacity_for(text_of(self.threads), units),
    {
        resolve_capacity(&self.threads, units)
    }

    /// The size of the pool on this machine. It is the typed number of workers
    /// where that is a positive count, and at least 1 in any case.
    pub fn worker_capacity(&self) -> (capacity: usize)
        ensures
            capacity >= 1,
            exists|units: usize|
                units >= 1 && capacity == capacity_for(text_of(self.threads), units),
    {
        worker_capacity(&self.threads)
    }
}

} // verus!
