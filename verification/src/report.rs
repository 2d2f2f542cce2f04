//! The lines of the report.
//!
//! A success is always reported. A failure is reported only when the run is
//! verbose. What is reported is one line of text; to print it is the
//! caller's part.

use crate::dispatch::{EventView, ResultEvent};
use crate::probe::{OutcomeView, ProbeOutcome};
use vstd::prelude::*;
use vstd::string::*;

verus! {

/// The line for a credential that a host accepted.
pub open spec fn passed_line(
    address: Seq<char>,
    username: Seq<char>,
    password: Seq<char>,
) -> Seq<char> {
    "PASSED Host: "@ + address + ", Combo: "@ + username + ":"@ + password
}

/// The line for a probe that failed, with the reason.
pub open spec fn failed_line(
    address: Seq<char>,
    username: Seq<char>,
    password: Seq<char>,
    reason: Seq<char>,
) -> Seq<char> {
    "FAILED Host: "@ + address + ", Combo: "@ + username + ":"@ + password + ", Cause: "@
        + reason
}

/// The line that an event is reported with, if it is reported at all.
pub open spec fn line_for(verbose: bool, event: EventView) -> Option<Seq<char>> {
    match event.outcome {
        OutcomeView::Success => Some(
            passed_line(event.host.address, event.credential.username, event.credential.password),
        ),
        OutcomeView::Failure(reason) => if verbose {
            Some(
                failed_line(
                    event.host.address,
                    event.credential.username,
                    event.credential.password,
                    reason,
                ),
            )
        } else {
            None
        },
    }
}

/// The view of a line that may be missing.
pub open spec fn line_view(line: Option<String>) -> Option<Seq<char>> {
    match line {
        Some(text) => Some(text@),
        None => None,
    }
}

/// Turns events into lines, with failures only when verbose.
#[derive(Clone, Copy, Debug)]
pub struct Reporter {
    verbose: bool,
}

impl Reporter {
    /// Whether failures are reported.
    pub closed spec fn verbose(&self) -> bool {
        self.verbose
    }

    /// The reporter for a verbosity level: verbose from level 1 on.
    pub fn new(verbosity: i32) -> (reporter: Self)
        ensures
            reporter.verbose() == (verbosity > 0),
    {
        Reporter { verbose: verbosity > 0 }
    }

    /// Whether failures are reported.
    pub fn is_verbose(&self) -> (verbose: bool)
        ensures
            verbose == self.verbose(),
    {
        self.verbose
    }

    /// The line to print for an event: always one for a success, one for a
    /// failure only when verbose.
    pub fn report(&self, event: &ResultEvent) -> (line: Option<String>)
        ensures
            line_view(line) == line_for(self.verbose(), event@),
            event.outcome is Failure && !self.verbose() ==> line is None,
            event.outcome is Success || self.verbose() ==> line is Some,
    {
        match &event.outcome {
            ProbeOutcome::Success => {
                let mut line = String::from_str("PASSED Host: ");
                line.append(event.host.address.as_str());
                line.append(", Combo: ");
                line.append(event.credential.username.as_str());
                line.append(":");
                line.append(event.credential.password.as_str());
                Some(line)
            },
            ProbeOutcome::Failure(reason) => {
                if self.verbose {
                    let mut line = String::from_str("FAILED Host: ");
                    line.append(event.host.address.as_str());
                    line.append(", Combo: ");
                    line.append(event.credential.username.as_str());
                    line.append(":");
                    line.append(event.credential.password.as_str());
                    line.append(", Cause: ");
                    line.append(reason.as_str());
                    Some(line)
                } else {
                    None
                }
            },
        }
    }
}

} // verus!
