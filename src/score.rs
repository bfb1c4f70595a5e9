use crate::event::Team;
use vstd::prelude::*;

verus! {

/// A change of a team's score.
#[derive(Debug, Clone, Copy, PartialEq, Eq, Structural)]
pub struct ScoreChange {
    pub team: Team,
    pub score: u8,
}

} // verus!
