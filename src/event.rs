use crate::period::Quarter;
use crate::play::{Down, Play};
use crate::terrain::TerrainState;
use vstd::prelude::*;

verus! {

/// A participant of the games recorded.
#[derive(Debug, Clone, Copy, PartialEq, Eq, Structural)]
pub enum Team {
    ArizonaState,
    /// Left the project; kept so that older logs still read.
    BoiseState,
    Colorado,
    Iowa,
    Nebraska,
    /// Left the project; kept so that older logs still read.
    SouthCarolina,
    Syracuse,
    TexasAnM,
}

/// The kinds of score.
#[derive(Debug, Clone, Copy, PartialEq, Eq, Structural)]
pub enum ScorePoints {
    Touchdown,
    FieldGoal,
    Safety,
    PatFail,
    PatTouchdown,
    PatFieldGoal,
    PatSafety,
}

impl ScorePoints {
    pub open spec fn spec_points(self) -> u8 {
        match self {
            ScorePoints::Touchdown => 6,
            ScorePoints::FieldGoal => 3,
            ScorePoints::Safety => 2,
            ScorePoints::PatFail => 0,
            ScorePoints::PatTouchdown => 2,
            ScorePoints::PatFieldGoal => 1,
            ScorePoints::PatSafety => 1,
        }
    }

    /// The points that this kind of score is worth.
    pub fn to_points(&self) -> (r: u8)
        ensures
            r == self.spec_points(),
    {
        match self {
            ScorePoints::Touchdown => 6,
            ScorePoints::FieldGoal => 3,
            ScorePoints::Safety => 2,
            ScorePoints::PatFail => 0,
            ScorePoints::PatTouchdown => 2,
            ScorePoints::PatFieldGoal => 1,
            ScorePoints::PatSafety => 1,
        }
    }
}

impl Default for ScorePoints {
    fn default() -> (r: Self)
        ensures
            r == ScorePoints::Touchdown,
    {
        ScorePoints::Touchdown
    }
}

/// One recorded moment of a game.
///
/// `Kickoff` and `Turnover` carry the team that takes the ball: these two are
/// the boundaries between possessions.
#[derive(Debug, Clone, Copy, PartialEq, Eq, Structural)]
pub enum Event {
    Kickoff(Team),
    Play(Play),
    Turnover(Team),
    Penalty(TerrainState),
    Score(ScorePoints),
    Quarter(Quarter),
}

impl Event {
    /// Every yard count that the event holds lies on the field.
    pub open spec fn wf(self) -> bool {
        match self {
            Event::Play(p) => p.wf(),
            Event::Penalty(t) => t.wf(),
            _ => true,
        }
    }

    /// The team that a boundary event hands the ball to.
    pub open spec fn spec_team(self) -> Option<Team> {
        match self {
            Event::Kickoff(t) => Some(t),
            Event::Turnover(t) => Some(t),
            _ => None,
        }
    }

    /// The play context that an event reduces to, if any: a complete play
    /// stands for itself, a kickoff or a turnover for the opening play.
    pub open spec fn context(self) -> Option<Play> {
        match self {
            Event::Play(p) => if p.is_complete() {
                Some(p)
            } else {
                None
            },
            Event::Kickoff(_) => Some(Play::opening()),
            Event::Turnover(_) => Some(Play::opening()),
            _ => None,
        }
    }

    /// The yards gained from `self` to `following`, where defined.
    ///
    /// When the following play is a first down, the whole distance that was
    /// still to go counts as gained, which needs a numeric preceding terrain.
    /// Otherwise the gain is the distance to go before less the distance to
    /// go after, a terrain marker counting as zero yards. A turnover ends the
    /// possession, so nothing is gained into it.
    pub open spec fn yard_change(self, following: Event) -> Option<int> {
        if following is Turnover {
            None
        } else {
            match (self.context(), following.context()) {
                (Some(a), Some(b)) => if b.down == Some(Down::First) {
                    match a.terrain {
                        Some(TerrainState::Yards(n)) => Some(n as int),
                        _ => None,
                    }
                } else {
                    Some(a.terrain.unwrap().yards_or_zero() - b.terrain.unwrap().yards_or_zero())
                },
                _ => None,
            }
        }
    }

    /// Returns `true` when every yard count in the event lies on the field.
    pub fn is_valid(&self) -> (r: bool)
        ensures
            r == self.wf(),
    {
        match self {
            Event::Play(p) => match &p.terrain {
                Some(t) => t.is_valid(),
                None => true,
            },
            Event::Penalty(t) => t.is_valid(),
            _ => true,
        }
    }

    /// Returns the team for the variants that carry one.
    pub fn team(&self) -> (r: Option<Team>)
        ensures
            r == self.spec_team(),
    {
        match self {
            Event::Kickoff(team) => Some(*team),
            Event::Turnover(team) => Some(*team),
            _ => None,
        }
    }

    /// Returns the quarter of a period marker.
    pub fn quarter(&self) -> (r: Option<Quarter>)
        ensures
            r == (match *self {
                Event::Quarter(q) => Some(q),
                _ => None,
            }),
    {
        match self {
            Event::Quarter(q) => Some(*q),
            _ => None,
        }
    }

    /// Converts an event into the play context it stands for, if there is one.
    pub fn to_play(&self) -> (r: Option<Play>)
        ensures
            r == self.context(),
    {
        match self {
            Event::Play(play) => {
                if play.down.is_none() || play.terrain.is_none() {
                    None
                } else {
                    Some(*play)
                }
            },
            Event::Kickoff(_) | Event::Turnover(_) => Some(Play::default()),
            _ => None,
        }
    }

    /// Returns the terrain delta between `self` and the `following` event, or
    /// `None` where no delta is defined between them.
    pub fn delta(&self, following: &Event) -> (r: Option<i8>)
        requires
            self.wf(),
            following.wf(),
        ensures
            r.is_some() == self.yard_change(*following).is_some(),
            r.is_some() ==> r.unwrap() as int == self.yard_change(*following).unwrap(),
    {
        let preceding = match self.to_play() {
            Some(p) => p,
            None => return None,
        };
        if let Event::Turnover(_) = following {
            return None;
        }
        let following = match following.to_play() {
            Some(p) => p,
            None => return None,
        };
        let before = match preceding.terrain {
            Some(t) => t,
            None => return None,
        };
        let after = match following.terrain {
            Some(t) => t,
            None => return None,
        };
        if following.down == Some(Down::First) {
            match before {
                TerrainState::Yards(yards) => Some(yards as i8),
                _ => None,
            }
        } else {
            let a: u8 = match before {
                TerrainState::Yards(yards) => yards,
                _ => 0,
            };
            let b: u8 = match after {
                TerrainState::Yards(yards) => yards,
                _ => 0,
            };
            Some(a as i8 - b as i8)
        }
    }
}

/// An event that reduces to no play context has no delta to itself.
pub proof fn lemma_no_self_delta_without_context(e: Event)
    requires
        e.context() is None,
    ensures
        e.yard_change(e) is None,
{
}

/// Nothing is gained into a turnover, whatever precedes it.
pub proof fn lemma_no_delta_into_turnover(preceding: Event, team: Team)
    ensures
        preceding.yard_change(Event::Turnover(team)) is None,
{
}

/// A play that lacks both its down and its terrain has no delta to anything.
pub proof fn lemma_no_delta_from_incomplete_play(play: Play, following: Event)
    requires
        play.down is None,
        play.terrain is None,
    ensures
        Event::Play(play).yard_change(following) is None,
{
}

/// Every event of `s` is well formed.
pub open spec fn all_wf(s: Seq<Event>) -> bool {
    forall|i: int| 0 <= i < s.len() ==> (#[trigger] s[i]).wf()
}

} // verus!
