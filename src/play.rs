use crate::action::Action;
use crate::terrain::TerrainState;
use vstd::prelude::*;

verus! {

/// The down on which a play is run.
#[derive(Debug, Clone, Copy, PartialEq, Eq, Structural)]
pub enum Down {
    First,
    Second,
    Third,
    Fourth,
}

/// An offensive snap and where it left the ball.
///
/// `down` and `terrain` are optional because some recorded plays lack them;
/// such a play is incomplete and never takes part in a delta.
#[derive(Debug, Clone, Copy, PartialEq, Eq, Structural)]
pub struct Play {
    pub action: Action,
    pub down: Option<Down>,
    pub terrain: Option<TerrainState>,
}

impl Play {
    /// The synthetic play that a kickoff or a turnover starts from.
    pub open spec fn opening() -> Play {
        Play {
            action: Action::Unknown,
            down: Some(Down::First),
            terrain: Some(TerrainState::Yards(10)),
        }
    }

    pub open spec fn wf(self) -> bool {
        match self.terrain {
            Some(t) => t.wf(),
            None => true,
        }
    }

    /// A play is complete when both its down and its terrain were recorded.
    pub open spec fn is_complete(self) -> bool {
        self.down.is_some() && self.terrain.is_some()
    }
}

impl Default for Play {
    /// The play that a kickoff or a turnover stands for: first down, ten
    /// yards to go.
    fn default() -> (r: Self)
        ensures
            r == (Play {
                action: Action::Unknown,
                down: Some(Down::First),
                terrain: Some(TerrainState::Yards(10)),
            }),
    {
        Play {
            action: Action::Unknown,
            down: Some(Down::First),
            terrain: Some(TerrainState::Yards(10)),
        }
    }
}

} // verus!
