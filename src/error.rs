use crate::version::Version;
use vstd::prelude::*;

verus! {

/// The team that held the ball at the start of a sequence cannot be told:
/// a play comes before any kickoff or turnover.
#[derive(Debug, Clone, Copy, PartialEq, Eq, Structural)]
pub struct IndeterminateDeltaError;

/// A game does not name the two teams that it should.
#[derive(Debug, Clone, Copy, PartialEq, Eq, Structural)]
pub enum TeamsError {
    /// The number of teams found, other than two.
    NumberFound(usize),
}

/// A game log that cannot be used.
#[derive(Debug, Clone, PartialEq, Eq)]
pub enum LogFileError {
    /// A game names a number of teams other than two.
    TeamCount(usize),
    /// The oldest game of the log is older than the oldest readable format;
    /// the version found.
    CompatibilityCheck(Version),
}

} // verus!
