use vstd::prelude::*;

verus! {

/// Field position of the ball.
///
/// Only `Yards` carries a number usable in arithmetic; the other states are
/// markers that a recorded game uses where the distance was not measured.
#[derive(Debug, Clone, Copy, PartialEq, Eq, Structural)]
pub enum TerrainState {
    Yards(u8),
    GoalLine,
    Inches,
    Unknown,
}

impl TerrainState {
    /// A terrain is well formed when a yard count lies on the field (`0..=100`).
    pub open spec fn wf(self) -> bool {
        match self {
            TerrainState::Yards(n) => n <= 100,
            _ => true,
        }
    }

    /// The yard count of a numeric terrain, zero for a marker.
    pub open spec fn yards_or_zero(self) -> int {
        match self {
            TerrainState::Yards(n) => n as int,
            _ => 0,
        }
    }

    /// Returns `true` when the yard count, if any, lies on the field.
    pub fn is_valid(&self) -> (r: bool)
        ensures
            r == self.wf(),
    {
        match self {
            TerrainState::Yards(n) => *n <= 100,
            _ => true,
        }
    }
}

impl Default for TerrainState {
    fn default() -> (r: Self)
        ensures
            r == TerrainState::Yards(10),
    {
        TerrainState::Yards(10)
    }
}

} // verus!
