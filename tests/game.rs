use gamelog::{
    IndeterminateDeltaError, gains, losses, tally, Action, Down, Event, Flags, Game, Play, Quarter, ScorePoints, Tally,
    Team, TeamsError, TerrainState, Version,
};

fn play(down: Down, yards: u8) -> Event {
    Event::Play(Play {
        action: Action::Unknown,
        down: Some(down),
        terrain: Some(TerrainState::Yards(yards)),
    })
}

fn game(flags: Vec<Flags>, events: Vec<Event>) -> Game {
    Game {
        version: Version::new(0, 6, 0),
        flags,
        events,
    }
}

fn two_period_game() -> Game {
    game(
        vec![],
        vec![
            Event::Quarter(Quarter::First),
            Event::Kickoff(Team::Nebraska),
            play(Down::First, 10),
            play(Down::Second, 13),
            play(Down::Third, 8),
            Event::Turnover(Team::ArizonaState),
            play(Down::First, 10),
            play(Down::Second, 10),
            Event::Turnover(Team::Nebraska),
            play(Down::Second, 12),
            Event::Quarter(Quarter::Second),
            play(Down::First, 10),
            Event::Penalty(TerrainState::Yards(5)),
            Event::Turnover(Team::ArizonaState),
        ],
    )
}

#[test]
fn game_deltas_per_team() {
    let g = two_period_game();
    assert!(g.is_valid());
    assert_eq!(g.deltas(Team::Nebraska), vec![10, -3, 5, -2, 12]);
    assert_eq!(g.deltas(Team::ArizonaState), vec![10, 0]);
}

#[test]
fn game_team_plays_and_penalties() {
    let g = two_period_game();
    assert_eq!(g.team_plays(Team::Nebraska, false).unwrap().0.len(), 5);
    assert_eq!(g.team_plays(Team::ArizonaState, false).unwrap().0.len(), 2);
    assert_eq!(g.penalties(Team::Nebraska, false), Ok(1));
    assert_eq!(g.penalties(Team::ArizonaState, false), Ok(0));
    assert_eq!(g.team_events(Team::ArizonaState, false).unwrap().0.len(), 7);
}

#[test]
fn game_periods() {
    let g = two_period_game();
    let second = g.get_period(Quarter::Second);
    assert_eq!(second.period, Quarter::Second);
    assert_eq!(
        second.events,
        vec![
            Event::Quarter(Quarter::Second),
            play(Down::First, 10),
            Event::Penalty(TerrainState::Yards(5)),
            Event::Turnover(Team::ArizonaState),
        ]
    );
    assert!(!second.is_overtime());
    assert_eq!(second.team_plays(Team::Nebraska, true), Ok(1));
    assert_eq!(second.team_plays(Team::Nebraska, false), Err(IndeterminateDeltaError));
    assert_eq!(g.get_period(Quarter::First).events.len(), 10);
    assert!(g.get_period(Quarter::Third).events.is_empty());
    assert!(g.get_period(Quarter::Overtime(1)).is_overtime());
    assert_eq!(g.quarter_play_counts(Team::Nebraska), vec![4, 1, 0, 0]);
}

#[test]
fn game_teams() {
    let a = game(
        vec![],
        vec![
            Event::Kickoff(Team::Nebraska),
            Event::Turnover(Team::ArizonaState),
            Event::Kickoff(Team::Nebraska),
        ],
    );
    assert_eq!(a.teams(), Ok(vec![Team::Nebraska, Team::ArizonaState]));
    let b = game(
        vec![],
        vec![
            Event::Kickoff(Team::Nebraska),
            Event::Turnover(Team::ArizonaState),
            Event::Kickoff(Team::BoiseState),
        ],
    );
    assert_eq!(b.teams(), Err(TeamsError::NumberFound(3)));
    let c = game(
        vec![Flags::IgnoreTeam(Team::Nebraska)],
        vec![
            Event::Kickoff(Team::Nebraska),
            Event::Turnover(Team::ArizonaState),
            Event::Kickoff(Team::Nebraska),
        ],
    );
    assert_eq!(c.teams(), Ok(vec![Team::ArizonaState]));
    let d = game(
        vec![Flags::IgnoreTeam(Team::Nebraska)],
        vec![Event::Kickoff(Team::Nebraska)],
    );
    assert_eq!(d.teams(), Ok(vec![]));
    let e = game(vec![Flags::IgnoreScore], vec![Event::Score(ScorePoints::Touchdown)]);
    assert_eq!(e.teams(), Err(TeamsError::NumberFound(0)));
}

#[test]
fn invalid_yards_are_reported() {
    let g = game(vec![], vec![Event::Kickoff(Team::Iowa), play(Down::Second, 120)]);
    assert!(!g.is_valid());
}

#[test]
fn tallies_of_deltas() {
    let deltas: Vec<i8> = vec![10, -3, 5, 0, -2, 12];
    assert_eq!(tally(&deltas), Tally { sum: 22, count: 6 });
    assert_eq!(gains(&deltas), vec![10, 5, 12]);
    assert_eq!(losses(&deltas), vec![-3, -2]);
    assert_eq!(tally(&gains(&deltas)), Tally { sum: 27, count: 3 });
    assert_eq!(tally(&losses(&deltas)), Tally { sum: -5, count: 2 });
    let wide: Vec<i8> = vec![127; 300];
    assert_eq!(tally(&wide), Tally { sum: 38100, count: 300 });
    assert_eq!(tally(&vec![]), Tally { sum: 0, count: 0 });
}

#[test]
fn game_team_events_report_unknown_opening() {
    let g = game(vec![], vec![play(Down::First, 10)]);
    assert!(g.team_events(Team::Iowa, false).is_err());
    assert_eq!(g.team_events(Team::Iowa, true).unwrap().0, vec![play(Down::First, 10)]);
    assert_eq!(g.team_plays(Team::Iowa, false).map(|p| p.0.len()), Err(IndeterminateDeltaError));
    assert_eq!(g.penalties(Team::Iowa, false), Err(IndeterminateDeltaError));
    assert_eq!(g.penalties(Team::Iowa, true), Ok(0));
    let p = g.get_period(Quarter::First);
    assert!(p.events.is_empty());
    assert_eq!(p.team_events(Team::Iowa, false), Ok(vec![]));
}
