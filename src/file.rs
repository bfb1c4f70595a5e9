use crate::action::{known_actions, lemma_known_actions_rank, Action};
use crate::deltas::{
    credit_of_action, credited_yards, drop_quarters, lemma_team_events_len, lemma_team_events_wf,
    lemma_without_quarters_len, lemma_without_quarters_wf, without_quarters,
};
use crate::possession::partition;
use crate::terrain::TerrainState;
use crate::error::LogFileError;
use crate::event::Team;
use crate::game::{ignored_teams, plays_of, teams_met, Game};
use crate::play::Play;
use crate::possession::team_events_of;
use crate::version::{min_ver, precedes, spec_min_ver, Version};
use vstd::prelude::*;

verus! {

/// The games of a log, in order.
#[derive(Debug, Clone)]
pub struct LogFile(pub Vec<Game>);

/// The actions of `plays`, in order.
pub open spec fn actions_of(plays: Seq<Play>) -> Seq<Action>
    decreases plays.len(),
{
    if plays.len() == 0 {
        Seq::empty()
    } else {
        actions_of(plays.drop_last()).push(plays.last().action)
    }
}

/// The actions of all plays of `team` over `games`, game after game.
pub open spec fn log_actions(games: Seq<Game>, team: Team) -> Seq<Action>
    decreases games.len(),
{
    if games.len() == 0 {
        Seq::empty()
    } else {
        log_actions(games.drop_last(), team) + actions_of(
            plays_of(team_events_of(games.last().events@, team)),
        )
    }
}

/// How many times `a` stands in `s`.
pub open spec fn count_of(s: Seq<Action>, a: Action) -> nat
    decreases s.len(),
{
    if s.len() == 0 {
        0
    } else {
        count_of(s.drop_last(), a) + if s.last() == a {
            1nat
        } else {
            0nat
        }
    }
}

/// No known action stands in `s`.
pub open spec fn no_known_action(s: Seq<Action>) -> bool {
    forall|a: Action| a != Action::Unknown ==> count_of(s, a) == 0
}

/// `r` is the known action that stands most often in `s`, the earliest in
/// declaration order among equals; `Unknown` where no known action stands.
pub open spec fn is_most_frequent(s: Seq<Action>, r: Action) -> bool {
    if no_known_action(s) {
        r == Action::Unknown
    } else {
        &&& r != Action::Unknown
        &&& count_of(s, r) > 0
        &&& forall|a: Action|
            a != Action::Unknown ==> count_of(s, a) <= count_of(s, r) && (count_of(s, a)
                == count_of(s, r) ==> r.rank() <= a.rank())
    }
}

/// `r` is the known action that stands least often, but at least once, in
/// `s`, the earliest in declaration order among equals; `Unknown` where no
/// known action stands.
pub open spec fn is_least_frequent(s: Seq<Action>, r: Action) -> bool {
    if no_known_action(s) {
        r == Action::Unknown
    } else {
        &&& r != Action::Unknown
        &&& count_of(s, r) > 0
        &&& forall|a: Action|
            a != Action::Unknown && count_of(s, a) > 0 ==> count_of(s, r) <= count_of(s, a) && (
            count_of(s, a) == count_of(s, r) ==> r.rank() <= a.rank())
    }
}

/// The game names two teams, or ignores some.
pub open spec fn teams_ok(g: Game) -> bool {
    teams_met(g.events@, ignored_teams(g.flags@)).len() == 2 || ignored_teams(g.flags@).len() != 0
}

/// The oldest version among `games`; the greatest version where there is none.
pub open spec fn oldest_version(games: Seq<Game>) -> (u64, u64, u64, Seq<char>)
    decreases games.len(),
{
    if games.len() == 0 {
        (u64::MAX, u64::MAX, u64::MAX, Seq::empty())
    } else {
        let earlier = oldest_version(games.drop_last());
        if precedes(games.last().version@, earlier) {
            games.last().version@
        } else {
            earlier
        }
    }
}

/// The number of events over all of `games`.
pub open spec fn event_count(games: Seq<Game>) -> nat
    decreases games.len(),
{
    if games.len() == 0 {
        0
    } else {
        event_count(games.drop_last()) + games.last().events@.len()
    }
}

/// The yards credited to the plays of `a` by `team` over `games`: in each
/// game the team's events are partitioned out with the opening possession
/// assumed known, period markers are left out, and each play of `a` is
/// credited with the delta from it to the next event.
pub open spec fn log_credit(games: Seq<Game>, team: Team, a: Action) -> int
    decreases games.len(),
{
    if games.len() == 0 {
        0
    } else {
        log_credit(games.drop_last(), team, a) + credited_yards(
            without_quarters(team_events_of(games.last().events@, team)),
            a,
        )
    }
}

/// `r` is the known action whose plays were credited the most yards, above
/// zero, the earliest in declaration order among equals, with those yards
/// capped at 255; `Unknown` and no yards where no action gained.
pub open spec fn is_most_effective(games: Seq<Game>, team: Team, r: (Action, TerrainState)) -> bool {
    if forall|a: Action| a != Action::Unknown ==> #[trigger] log_credit(games, team, a) <= 0 {
        r == (Action::Unknown, TerrainState::Yards(0))
    } else {
        &&& r.0 != Action::Unknown
        &&& log_credit(games, team, r.0) > 0
        &&& r.1 == TerrainState::Yards(
            if log_credit(games, team, r.0) > 255 {
                255
            } else {
                log_credit(games, team, r.0) as u8
            },
        )
        &&& forall|a: Action|
            a != Action::Unknown ==> #[trigger] log_credit(games, team, a) <= log_credit(
                games,
                team,
                r.0,
            ) && (
            log_credit(games, team, a) == log_credit(games, team, r.0) ==> r.0.rank() <= a.rank())
    }
}

proof fn lemma_event_count_prefix(games: Seq<Game>, i: int)
    requires
        0 <= i <= games.len(),
    ensures
        event_count(games.take(i)) <= event_count(games),
    decreases games.len(),
{
    if i < games.len() {
        assert(games.drop_last().take(i) =~= games.take(i));
        lemma_event_count_prefix(games.drop_last(), i);
    } else {
        assert(games.take(i) =~= games);
    }
}

/// Returns how many times `a` stands in `s`.
pub fn count_action(s: &Vec<Action>, a: Action) -> (r: usize)
    ensures
        r == count_of(s@, a),
{
    let mut count: usize = 0;
    let mut i: usize = 0;
    while i < s.len()
        invariant
            i <= s.len(),
            count == count_of(s@.take(i as int), a),
            count <= i,
        decreases s.len() - i,
    {
        proof {
            assert(s@.take(i + 1).drop_last() =~= s@.take(i as int));
        }
        if s[i] == a {
            count = count + 1;
        }
        i = i + 1;
    }
    proof {
        assert(s@.take(s@.len() as int) =~= s@);
    }
    count
}

impl LogFile {
    /// Every game of the log is well formed.
    pub open spec fn wf(&self) -> bool {
        forall|i: int| 0 <= i < self.0@.len() ==> (#[trigger] self.0@[i]).wf()
    }

    /// Returns the actions of all plays of a team, game after game, each game
    /// partitioned with its opening possession assumed known.
    pub fn team_actions(&self, team: Team) -> (r: Vec<Action>)
        ensures
            r@ == log_actions(self.0@, team),
    {
        let mut r: Vec<Action> = Vec::new();
        let mut g: usize = 0;
        while g < self.0.len()
            invariant
                g <= self.0.len(),
                r@ == log_actions(self.0@.take(g as int), team),
            decreases self.0.len() - g,
        {
            let plays = match self.0[g].team_plays(team, true) {
                Ok(p) => p.0,
                Err(_) => Vec::new(),
            };
            let ghost before = r@;
            proof {
                assert(self.0@.take(g + 1).drop_last() =~= self.0@.take(g as int));
            }
            let mut i: usize = 0;
            while i < plays.len()
                invariant
                    i <= plays.len(),
                    r@ == before + actions_of(plays@.take(i as int)),
                decreases plays.len() - i,
            {
                proof {
                    assert(plays@.take(i + 1).drop_last() =~= plays@.take(i as int));
                    assert(before + actions_of(plays@.take(i + 1)) =~= (before + actions_of(
                        plays@.take(i as int),
                    )).push(plays@[i as int].action));
                }
                r.push(plays[i].action);
                i = i + 1;
            }
            proof {
                assert(plays@.take(plays@.len() as int) =~= plays@);
            }
            g = g + 1;
        }
        proof {
            assert(self.0@.take(self.0@.len() as int) =~= self.0@);
        }
        r
    }

    /// Returns the most common action of a team over the log, the earliest
    /// in declaration order among equals; `Action::Unknown` where the team
    /// has no play of a known action.
    pub fn most_frequent_action(&self, team: Team) -> (r: Action)
        ensures
            is_most_frequent(log_actions(self.0@, team), r),
    {
        let actions = self.team_actions(team);
        let known = Action::known();
        let mut best = Action::Unknown;
        let mut frequency: usize = 0;
        let mut k: usize = 0;
        proof {
            lemma_known_actions_rank(Action::Unknown);
        }
        while k < known.len()
            invariant
                k <= known.len(),
                known@ == known_actions(),
                known_actions().len() == 16,
                forall|i: int|
                    0 <= i < 16 ==> known_actions()[i].rank() == i && known_actions()[i]
                        != Action::Unknown,
                (best == Action::Unknown) == (frequency == 0),
                best != Action::Unknown ==> count_of(actions@, best) == frequency && best.rank()
                    < k,
                forall|j: int|
                    0 <= j < k ==> count_of(actions@, #[trigger] known_actions()[j]) <= frequency
                        && (count_of(actions@, known_actions()[j]) == frequency && frequency > 0
                        ==> best.rank() <= j),
            decreases known.len() - k,
        {
            let found = count_action(&actions, known[k]);
            if found > frequency {
                frequency = found;
                best = known[k];
            }
            k = k + 1;
        }
        proof {
            assert forall|a: Action| a != Action::Unknown implies count_of(actions@, a)
                <= frequency && (count_of(actions@, a) == frequency && frequency > 0 ==> best.rank()
                <= a.rank()) by {
                lemma_known_actions_rank(a);
                assert(known_actions()[a.rank() as int] == a);
            }
        }
        best
    }

    /// Returns the least common action of a team over the log among those it
    /// played at least once, the earliest in declaration order among equals;
    /// `Action::Unknown` where the team has no play of a known action.
    pub fn least_frequent_action(&self, team: Team) -> (r: Action)
        ensures
            is_least_frequent(log_actions(self.0@, team), r),
    {
        let actions = self.team_actions(team);
        let known = Action::known();
        let mut best = Action::Unknown;
        let mut frequency: usize = 0;
        let mut k: usize = 0;
        proof {
            lemma_known_actions_rank(Action::Unknown);
        }
        while k < known.len()
            invariant
                k <= known.len(),
                known@ == known_actions(),
                known_actions().len() == 16,
                forall|i: int|
                    0 <= i < 16 ==> known_actions()[i].rank() == i && known_actions()[i]
                        != Action::Unknown,
                (best == Action::Unknown) == (frequency == 0),
                best != Action::Unknown ==> count_of(actions@, best) == frequency && best.rank()
                    < k,
                forall|j: int|
                    0 <= j < k && count_of(actions@, #[trigger] known_actions()[j]) > 0 ==> (
                    frequency > 0 && frequency <= count_of(actions@, known_actions()[j]) && (
                    count_of(actions@, known_actions()[j]) == frequency ==> best.rank() <= j)),
            decreases known.len() - k,
        {
            let found = count_action(&actions, known[k]);
            if found != 0 && (frequency == 0 || found < frequency) {
                frequency = found;
                best = known[k];
            }
            k = k + 1;
        }
        proof {
            assert forall|a: Action| a != Action::Unknown && count_of(actions@, a) > 0 implies (
            frequency > 0 && frequency <= count_of(actions@, a) && (count_of(actions@, a)
                == frequency ==> best.rank() <= a.rank())) by {
                lemma_known_actions_rank(a);
                assert(known_actions()[a.rank() as int] == a);
            }
        }
        best
    }

    /// Returns the yards credited to the plays of `a` by `team` over the log.
    pub fn action_credit(&self, team: Team, a: Action) -> (r: i128)
        requires
            self.wf(),
            event_count(self.0@) <= usize::MAX,
        ensures
            r == log_credit(self.0@, team, a),
    {
        let mut total: i128 = 0;
        let mut g: usize = 0;
        while g < self.0.len()
            invariant
                g <= self.0.len(),
                self.wf(),
                event_count(self.0@) <= usize::MAX,
                total == log_credit(self.0@.take(g as int), team, a),
                -128 * event_count(self.0@.take(g as int)) <= total <= 128 * event_count(
                    self.0@.take(g as int),
                ),
            decreases self.0.len() - g,
        {
            let game = &self.0[g];
            proof {
                assert(self.0@.take(g + 1).drop_last() =~= self.0@.take(g as int));
                lemma_event_count_prefix(self.0@, g + 1);
                assert(self.0@[g as int].wf());
                lemma_team_events_wf(game.events@, team);
                lemma_team_events_len(game.events@, team);
                lemma_without_quarters_wf(team_events_of(game.events@, team));
                lemma_without_quarters_len(team_events_of(game.events@, team));
            }
            let kept = match partition(&game.events, team, true) {
                Ok(v) => v,
                Err(_) => Vec::new(),
            };
            let plays = drop_quarters(&kept);
            let c = credit_of_action(&plays, a);
            total = total + c;
            g = g + 1;
        }
        proof {
            assert(self.0@.take(self.0@.len() as int) =~= self.0@);
        }
        total
    }

    /// Returns the known action whose plays gained a team the most yards
    /// over the log, and those yards, capped at 255. Each play is credited
    /// with the delta from it to the next event of the team's possessions,
    /// period markers left out. The earliest action in declaration order wins
    /// among equals; `Action::Unknown` and no yards where no action gained.
    pub fn most_effective_play(&self, team: Team) -> (r: (Action, TerrainState))
        requires
            self.wf(),
            event_count(self.0@) <= usize::MAX,
        ensures
            is_most_effective(self.0@, team, r),
    {
        let known = Action::known();
        let mut best = Action::Unknown;
        let mut best_total: i128 = 0;
        let mut k: usize = 0;
        proof {
            lemma_known_actions_rank(Action::Unknown);
        }
        while k < known.len()
            invariant
                k <= known.len(),
                self.wf(),
                event_count(self.0@) <= usize::MAX,
                known@ == known_actions(),
                known_actions().len() == 16,
                forall|i: int|
                    0 <= i < 16 ==> known_actions()[i].rank() == i && known_actions()[i]
                        != Action::Unknown,
                (best == Action::Unknown) == (best_total == 0),
                best_total >= 0,
                best != Action::Unknown ==> log_credit(self.0@, team, best) == best_total
                    && best.rank() < k,
                forall|j: int|
                    0 <= j < k ==> log_credit(self.0@, team, #[trigger] known_actions()[j])
                        <= best_total && (log_credit(self.0@, team, known_actions()[j])
                        == best_total && best_total > 0 ==> best.rank() <= j),
            decreases known.len() - k,
        {
            let total = self.action_credit(team, known[k]);
            if total > best_total {
                best_total = total;
                best = known[k];
            }
            k = k + 1;
        }
        proof {
            assert forall|a: Action| a != Action::Unknown implies log_credit(self.0@, team, a)
                <= best_total && (log_credit(self.0@, team, a) == best_total && best_total > 0
                ==> best.rank() <= a.rank()) by {
                lemma_known_actions_rank(a);
                assert(known_actions()[a.rank() as int] == a);
            }
        }
        let yards: u8 = if best_total > 255 {
            255
        } else {
            best_total as u8
        };
        (best, TerrainState::Yards(yards))
    }

    /// Returns the log unchanged when every game names two teams or ignores
    /// some; otherwise the number of teams found in the first game that
    /// does not.
    pub fn check_teams(self) -> (r: Result<LogFile, LogFileError>)
        ensures
            r.is_ok() == (forall|i: int| 0 <= i < self.0@.len() ==> teams_ok(#[trigger] self.0@[i])),
            r matches Ok(l) ==> l.0@ == self.0@,
            r matches Err(e) ==> exists|i: int|
                0 <= i < self.0@.len() && !teams_ok(#[trigger] self.0@[i]) && (forall|j: int|
                    0 <= j < i ==> teams_ok(#[trigger] self.0@[j])) && e == LogFileError::TeamCount(
                    teams_met(self.0@[i].events@, ignored_teams(self.0@[i].flags@)).len() as usize,
                ),
    {
        let mut i: usize = 0;
        while i < self.0.len()
            invariant
                i <= self.0.len(),
                forall|j: int| 0 <= j < i ==> teams_ok(#[trigger] self.0@[j]),
            decreases self.0.len() - i,
        {
            match self.0[i].teams() {
                Ok(_) => {},
                Err(crate::error::TeamsError::NumberFound(n)) => {
                    return Err(LogFileError::TeamCount(n));
                },
            }
            i = i + 1;
        }
        Ok(self)
    }

    /// Returns the oldest format version among the games of the log; the
    /// greatest version where the log holds no game.
    pub fn get_min_ver(&self) -> (r: Version)
        ensures
            r@ == oldest_version(self.0@),
    {
        let mut lowest = Version::new(u64::MAX, u64::MAX, u64::MAX);
        let mut i: usize = 0;
        while i < self.0.len()
            invariant
                i <= self.0.len(),
                lowest@ == oldest_version(self.0@.take(i as int)),
            decreases self.0.len() - i,
        {
            proof {
                assert(self.0@.take(i + 1).drop_last() =~= self.0@.take(i as int));
            }
            if self.0[i].version.is_before(&lowest) {
                lowest = self.0[i].version.copied();
            }
            i = i + 1;
        }
        proof {
            assert(self.0@.take(self.0@.len() as int) =~= self.0@);
        }
        lowest
    }

    /// Returns `true` when no game of the log is older than the oldest
    /// readable format.
    pub fn is_compatible(&self) -> (r: bool)
        ensures
            r == !precedes(oldest_version(self.0@), spec_min_ver()),
    {
        !self.get_min_ver().is_before(&min_ver())
    }

    /// Returns the log unchanged when it is compatible; otherwise the oldest
    /// version found.
    pub fn ensure_compatible(self) -> (r: Result<LogFile, LogFileError>)
        ensures
            r.is_ok() == !precedes(oldest_version(self.0@), spec_min_ver()),
            r matches Ok(l) ==> l.0@ == self.0@,
            r matches Err(e) ==> e matches LogFileError::CompatibilityCheck(v) && v@
                == oldest_version(self.0@),
    {
        let oldest = self.get_min_ver();
        if oldest.is_before(&min_ver()) {
            Err(LogFileError::CompatibilityCheck(oldest))
        } else {
            Ok(self)
        }
    }
}

} // verus!
