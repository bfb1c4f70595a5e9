use crate::deltas::{deltas_for_team, team_deltas};
use crate::error::{IndeterminateDeltaError, TeamsError};
use crate::event::{all_wf, Event, Team};
use crate::period::Quarter;
use crate::play::Play;
use crate::possession::{partition, partitioned, team_events_of};
use crate::version::Version;
use vstd::prelude::*;

verus! {

/// Options that a recorded game carries.
#[derive(Debug, Clone, Copy, PartialEq, Eq, Structural)]
pub enum Flags {
    IgnoreActions,
    IgnoreTeam(Team),
    IgnoreScore,
    Interval(u8),
    SheerDumbFuckingLuck,
}

/// One recorded game: its format version, its options and its events in order.
#[derive(Debug, Clone)]
pub struct Game {
    pub version: Version,
    pub flags: Vec<Flags>,
    pub events: Vec<Event>,
}

/// The events of one team's possessions.
#[derive(Debug, Clone)]
pub struct TeamEvents(pub Vec<Event>);

/// The plays of one team.
#[derive(Debug, Clone)]
pub struct TeamPlays(pub Vec<Play>);

/// The events of one period of a game.
#[derive(Debug, Clone)]
pub struct Period {
    pub period: Quarter,
    pub events: Vec<Event>,
}

/// The plays among `s`, in order.
pub open spec fn plays_of(s: Seq<Event>) -> Seq<Play>
    decreases s.len(),
{
    if s.len() == 0 {
        Seq::empty()
    } else {
        match s.last() {
            Event::Play(p) => plays_of(s.drop_last()).push(p),
            _ => plays_of(s.drop_last()),
        }
    }
}

/// The number of penalties among `s`.
pub open spec fn penalty_count(s: Seq<Event>) -> nat
    decreases s.len(),
{
    if s.len() == 0 {
        0
    } else {
        penalty_count(s.drop_last()) + if s.last() is Penalty {
            1nat
        } else {
            0nat
        }
    }
}

/// After `s`, the period `q` is under way: the last period marker of `s`
/// marks `q`.
pub open spec fn in_period(s: Seq<Event>, q: Quarter) -> bool
    decreases s.len(),
{
    if s.len() == 0 {
        false
    } else if s.last() is Quarter {
        s.last() == Event::Quarter(q)
    } else {
        in_period(s.drop_last(), q)
    }
}

/// The events of `s` that fall in period `q`, its marker included.
pub open spec fn period_events(s: Seq<Event>, q: Quarter) -> Seq<Event>
    decreases s.len(),
{
    if s.len() == 0 {
        Seq::empty()
    } else if in_period(s, q) {
        period_events(s.drop_last(), q).push(s.last())
    } else {
        period_events(s.drop_last(), q)
    }
}

/// The teams that the options of a game say to ignore, in order.
pub open spec fn ignored_teams(flags: Seq<Flags>) -> Seq<Team>
    decreases flags.len(),
{
    if flags.len() == 0 {
        Seq::empty()
    } else {
        match flags.last() {
            Flags::IgnoreTeam(t) => ignored_teams(flags.drop_last()).push(t),
            _ => ignored_teams(flags.drop_last()),
        }
    }
}

/// The teams that the boundaries of `s` hand the ball to, each once, in the
/// order first met, those of `ignore` left out.
pub open spec fn teams_met(s: Seq<Event>, ignore: Seq<Team>) -> Seq<Team>
    decreases s.len(),
{
    if s.len() == 0 {
        Seq::empty()
    } else {
        let earlier = teams_met(s.drop_last(), ignore);
        match s.last().spec_team() {
            Some(t) => if !ignore.contains(t) && !earlier.contains(t) {
                earlier.push(t)
            } else {
                earlier
            },
            None => earlier,
        }
    }
}

/// Returns `true` when `t` stands in `v`.
fn contains_team(v: &Vec<Team>, t: Team) -> (r: bool)
    ensures
        r == v@.contains(t),
{
    let mut i: usize = 0;
    while i < v.len()
        invariant
            i <= v.len(),
            forall|j: int| 0 <= j < i ==> v@[j] != t,
        decreases v.len() - i,
    {
        if v[i] == t {
            return true;
        }
        i = i + 1;
    }
    false
}

/// Returns the plays among `events`, in order.
pub fn plays_in(events: &Vec<Event>) -> (r: Vec<Play>)
    ensures
        r@ == plays_of(events@),
{
    let mut r: Vec<Play> = Vec::new();
    let mut i: usize = 0;
    while i < events.len()
        invariant
            i <= events.len(),
            r@ == plays_of(events@.take(i as int)),
        decreases events.len() - i,
    {
        proof {
            assert(events@.take(i + 1).drop_last() =~= events@.take(i as int));
        }
        if let Event::Play(p) = events[i] {
            r.push(p);
        }
        i = i + 1;
    }
    proof {
        assert(events@.take(events@.len() as int) =~= events@);
    }
    r
}

impl Game {
    /// Every yard count of the game lies on the field.
    pub open spec fn wf(&self) -> bool {
        all_wf(self.events@)
    }

    /// Returns `true` when every yard count of the game lies on the field.
    pub fn is_valid(&self) -> (r: bool)
        ensures
            r == self.wf(),
    {
        let mut i: usize = 0;
        while i < self.events.len()
            invariant
                i <= self.events.len(),
                forall|j: int| 0 <= j < i ==> (#[trigger] self.events@[j]).wf(),
            decreases self.events.len() - i,
        {
            if !self.events[i].is_valid() {
                return false;
            }
            i = i + 1;
        }
        true
    }

    /// Returns the teams that played, in the order first met, the ignored
    /// ones left out. Fails unless two are found or some team is ignored.
    pub fn teams(&self) -> (r: Result<Vec<Team>, TeamsError>)
        ensures
            ({
                let found = teams_met(self.events@, ignored_teams(self.flags@));
                &&& r.is_ok() == (found.len() == 2 || ignored_teams(self.flags@).len() != 0)
                &&& r matches Ok(v) ==> v@ == found
                &&& r matches Err(TeamsError::NumberFound(n)) ==> n == found.len()
            }),
    {
        let mut ignore: Vec<Team> = Vec::new();
        let mut i: usize = 0;
        while i < self.flags.len()
            invariant
                i <= self.flags.len(),
                ignore@ == ignored_teams(self.flags@.take(i as int)),
            decreases self.flags.len() - i,
        {
            proof {
                assert(self.flags@.take(i + 1).drop_last() =~= self.flags@.take(i as int));
            }
            if let Flags::IgnoreTeam(t) = self.flags[i] {
                ignore.push(t);
            }
            i = i + 1;
        }
        proof {
            assert(self.flags@.take(self.flags@.len() as int) =~= self.flags@);
        }
        let mut teams: Vec<Team> = Vec::new();
        let mut k: usize = 0;
        while k < self.events.len()
            invariant
                k <= self.events.len(),
                ignore@ == ignored_teams(self.flags@),
                teams@ == teams_met(self.events@.take(k as int), ignore@),
            decreases self.events.len() - k,
        {
            proof {
                assert(self.events@.take(k + 1).drop_last() =~= self.events@.take(k as int));
            }
            if let Some(t) = self.events[k].team() {
                if !contains_team(&ignore, t) && !contains_team(&teams, t) {
                    teams.push(t);
                }
            }
            k = k + 1;
        }
        proof {
            assert(self.events@.take(self.events@.len() as int) =~= self.events@);
        }
        if teams.len() == 2 || ignore.len() != 0 {
            Ok(teams)
        } else {
            Err(TeamsError::NumberFound(teams.len()))
        }
    }

    /// Returns the events relevant to a team's deltas and score: those of
    /// its possessions, as `partition` gives them.
    ///
    /// Fails where a play comes before any kickoff or turnover, unless the
    /// caller assumes the team known. The events before the first boundary
    /// are then kept when that boundary is the other side's, and dropped when
    /// it is the team's own.
    pub fn team_events(&self, team: Team, assume_team_known: bool) -> (r: Result<
        TeamEvents,
        IndeterminateDeltaError,
    >)
        ensures
            r.is_ok() == partitioned(self.events@, team, assume_team_known).is_some(),
            r matches Ok(v) ==> v.0@ == partitioned(self.events@, team, assume_team_known).unwrap(),
    {
        match partition(&self.events, team, assume_team_known) {
            Ok(v) => Ok(TeamEvents(v)),
            Err(e) => Err(e),
        }
    }

    /// Returns all of the terrain deltas of a team, as `deltas_for_team`
    /// gives them: the opening possession is assumed known.
    pub fn deltas(&self, team: Team) -> (r: Vec<i8>)
        requires
            self.wf(),
        ensures
            r@.map_values(|v: i8| v as int) == team_deltas(self.events@, team),
    {
        deltas_for_team(&self.events, team)
    }

    /// Returns all of the plays of a team, in order. Fails as `team_events`
    /// does.
    pub fn team_plays(&self, team: Team, assume_team_known: bool) -> (r: Result<
        TeamPlays,
        IndeterminateDeltaError,
    >)
        ensures
            r.is_ok() == partitioned(self.events@, team, assume_team_known).is_some(),
            r matches Ok(v) ==> v.0@ == plays_of(
                partitioned(self.events@, team, assume_team_known).unwrap(),
            ),
    {
        let events = match self.team_events(team, assume_team_known) {
            Ok(v) => v,
            Err(e) => return Err(e),
        };
        Ok(TeamPlays(plays_in(&events.0)))
    }

    /// Returns the number of penalties that a team experienced. Fails as
    /// `team_events` does.
    pub fn penalties(&self, team: Team, assume_team_known: bool) -> (r: Result<
        usize,
        IndeterminateDeltaError,
    >)
        ensures
            r.is_ok() == partitioned(self.events@, team, assume_team_known).is_some(),
            r matches Ok(n) ==> n == penalty_count(
                partitioned(self.events@, team, assume_team_known).unwrap(),
            ),
    {
        let events = match self.team_events(team, assume_team_known) {
            Ok(v) => v.0,
            Err(e) => return Err(e),
        };
        let mut count: usize = 0;
        let mut i: usize = 0;
        while i < events.len()
            invariant
                i <= events.len(),
                count == penalty_count(events@.take(i as int)),
                count <= i,
            decreases events.len() - i,
        {
            proof {
                assert(events@.take(i + 1).drop_last() =~= events@.take(i as int));
            }
            if let Event::Penalty(_) = events[i] {
                count = count + 1;
            }
            i = i + 1;
        }
        proof {
            assert(events@.take(events@.len() as int) =~= events@);
        }
        Ok(count)
    }

    /// Returns the requested period: the events from its marker up to the
    /// next period marker.
    pub fn get_period(&self, quarter: Quarter) -> (r: Period)
        ensures
            r.period == quarter,
            r.events@ == period_events(self.events@, quarter),
    {
        let mut record = false;
        let mut events: Vec<Event> = Vec::new();
        let mut i: usize = 0;
        while i < self.events.len()
            invariant
                i <= self.events.len(),
                record == in_period(self.events@.take(i as int), quarter),
                events@ == period_events(self.events@.take(i as int), quarter),
            decreases self.events.len() - i,
        {
            let e = self.events[i];
            proof {
                assert(self.events@.take(i + 1).drop_last() =~= self.events@.take(i as int));
            }
            if let Event::Quarter(q) = e {
                record = q == quarter;
            }
            if record {
                events.push(e);
            }
            i = i + 1;
        }
        proof {
            assert(self.events@.take(self.events@.len() as int) =~= self.events@);
        }
        Period { period: quarter, events }
    }

    /// Returns the number of plays of a team in each of the four regular
    /// quarters, in order. A quarter may open in the middle of a possession,
    /// so each is partitioned with the opening possession assumed known.
    pub fn quarter_play_counts(&self, team: Team) -> (r: Vec<usize>)
        ensures
            r@ == seq![
                plays_of(team_events_of(period_events(self.events@, Quarter::First), team)).len() as usize,
                plays_of(team_events_of(period_events(self.events@, Quarter::Second), team)).len() as usize,
                plays_of(team_events_of(period_events(self.events@, Quarter::Third), team)).len() as usize,
                plays_of(team_events_of(period_events(self.events@, Quarter::Fourth), team)).len() as usize,
            ],
    {
        let mut r: Vec<usize> = Vec::new();
        r.push(self.get_period(Quarter::First).play_count(team));
        r.push(self.get_period(Quarter::Second).play_count(team));
        r.push(self.get_period(Quarter::Third).play_count(team));
        r.push(self.get_period(Quarter::Fourth).play_count(team));
        r
    }
}

impl Period {
    /// Returns the events of the period relevant to a team's deltas and
    /// score, as `Game::team_events` does.
    pub fn team_events(&self, team: Team, assume_team_known: bool) -> (r: Result<
        Vec<Event>,
        IndeterminateDeltaError,
    >)
        ensures
            r.is_ok() == partitioned(self.events@, team, assume_team_known).is_some(),
            r matches Ok(v) ==> v@ == partitioned(self.events@, team, assume_team_known).unwrap(),
    {
        partition(&self.events, team, assume_team_known)
    }

    /// Returns the number of plays of a team in the period. Fails as
    /// `team_events` does.
    pub fn team_plays(&self, team: Team, assume_team_known: bool) -> (r: Result<
        usize,
        IndeterminateDeltaError,
    >)
        ensures
            r.is_ok() == partitioned(self.events@, team, assume_team_known).is_some(),
            r matches Ok(n) ==> n == plays_of(
                partitioned(self.events@, team, assume_team_known).unwrap(),
            ).len(),
    {
        let events = match self.team_events(team, assume_team_known) {
            Ok(v) => v,
            Err(e) => return Err(e),
        };
        Ok(plays_in(&events).len())
    }

    /// The number of plays of a team in the period, the opening possession
    /// assumed known.
    fn play_count(&self, team: Team) -> (r: usize)
        ensures
            r as int == plays_of(team_events_of(self.events@, team)).len(),
    {
        match self.team_plays(team, true) {
            Ok(n) => n,
            Err(_) => 0,
        }
    }

    /// Returns `true` if the period is an overtime.
    pub fn is_overtime(&self) -> (r: bool)
        ensures
            r == (self.period is Overtime),
    {
        matches!(self.period, Quarter::Overtime(_))
    }
}

} // verus!
