use gamelog::{
    min_ver, Action, Down, Event, Flags, Game, LogFile, LogFileError, Play, Team, TerrainState,
    Version,
};

fn game(version: Version, events: Vec<Event>) -> Game {
    Game {
        version,
        flags: vec![],
        events,
    }
}

fn with_action(action: Action) -> Event {
    Event::Play(Play {
        action,
        ..Default::default()
    })
}

#[test]
fn most_frequent_action() {
    let a = LogFile(vec![Game {
        events: vec![
            Event::Kickoff(Team::Nebraska),
            Event::Play(Play {
                action: Action::Mesh,
                ..Default::default()
            }),
            Event::Play(Play {
                action: Action::Mesh,
                ..Default::default()
            }),
            Event::Play(Play {
                action: Action::Mesh,
                ..Default::default()
            }),
            Event::Play(Play {
                action: Action::Curls,
                ..Default::default()
            }),
            Event::Play(Play {
                action: Action::Curls,
                ..Default::default()
            }),
            Event::Play(Play {
                action: Action::SlotOut,
                ..Default::default()
            }),
            Event::Kickoff(Team::ArizonaState),
        ],
        version: Version::new(0, 0, 0),
        flags: vec![],
    }]);

    assert!(a.most_frequent_action(Team::Nebraska) == Action::Mesh)
}

#[test]
fn least_frequent_action() {
    let a = LogFile(vec![Game {
        events: vec![
            Event::Kickoff(Team::Nebraska),
            Event::Play(Play {
                action: Action::Mesh,
                ..Default::default()
            }),
            Event::Play(Play {
                action: Action::Mesh,
                ..Default::default()
            }),
            Event::Play(Play {
                action: Action::Mesh,
                ..Default::default()
            }),
            Event::Play(Play {
                action: Action::Curls,
                ..Default::default()
            }),
            Event::Play(Play {
                action: Action::Curls,
                ..Default::default()
            }),
            Event::Play(Play {
                action: Action::SlotOut,
                ..Default::default()
            }),
            Event::Kickoff(Team::ArizonaState),
        ],
        version: Version::new(0, 0, 0),
        flags: vec![],
    }]);

    assert!(a.least_frequent_action(Team::Nebraska) == Action::SlotOut)
}

#[test]
fn frequent_actions_ties_and_absence() {
    let log = LogFile(vec![
        game(
            Version::new(0, 6, 0),
            vec![
                Event::Kickoff(Team::Iowa),
                with_action(Action::SlotOut),
                with_action(Action::Curls),
                with_action(Action::Unknown),
                with_action(Action::Unknown),
                with_action(Action::Unknown),
                Event::Turnover(Team::Colorado),
                with_action(Action::Mesh),
            ],
        ),
        game(
            Version::new(0, 7, 1),
            vec![Event::Kickoff(Team::Iowa), with_action(Action::SlotOut), with_action(Action::HailMary)],
        ),
    ]);
    assert_eq!(
        log.team_actions(Team::Iowa),
        vec![
            Action::SlotOut,
            Action::Curls,
            Action::Unknown,
            Action::Unknown,
            Action::Unknown,
            Action::SlotOut,
            Action::HailMary,
        ]
    );
    assert_eq!(log.most_frequent_action(Team::Iowa), Action::SlotOut);
    assert_eq!(log.least_frequent_action(Team::Iowa), Action::Curls);
    assert_eq!(log.most_frequent_action(Team::Colorado), Action::Mesh);
    assert_eq!(log.most_frequent_action(Team::Nebraska), Action::Unknown);
    assert_eq!(log.least_frequent_action(Team::Nebraska), Action::Unknown);
}

#[test]
fn check_teams_reports_first_bad_game() {
    let good = game(
        Version::new(0, 6, 0),
        vec![Event::Kickoff(Team::Iowa), Event::Turnover(Team::Colorado)],
    );
    let lone = game(Version::new(0, 6, 0), vec![Event::Kickoff(Team::Iowa)]);
    let ignored = Game {
        version: Version::new(0, 6, 0),
        flags: vec![Flags::IgnoreTeam(Team::Iowa)],
        events: vec![Event::Kickoff(Team::Iowa)],
    };
    assert!(LogFile(vec![good.clone(), ignored.clone()]).check_teams().is_ok());
    match LogFile(vec![good, lone, ignored]).check_teams() {
        Err(e) => assert_eq!(e, LogFileError::TeamCount(1)),
        Ok(_) => panic!("a game with one team passed"),
    }
}

fn pre(major: u64, minor: u64, patch: u64, pre: &str) -> Version {
    Version {
        major,
        minor,
        patch,
        pre: pre.to_string(),
    }
}

#[test]
fn versions_and_compatibility() {
    assert_eq!(min_ver(), Version::new(0, 2, 0));
    let log = LogFile(vec![
        game(Version::new(1, 0, 0), vec![]),
        game(Version::new(0, 3, 0), vec![]),
        game(Version::new(0, 7, 0), vec![]),
    ]);
    assert_eq!(log.get_min_ver(), Version::new(0, 3, 0));
    assert!(log.is_compatible());
    assert!(log.ensure_compatible().is_ok());
    let only = LogFile(vec![game(Version::new(0, 3, 0), vec![])]);
    assert!(only.ensure_compatible().is_ok());
    let old = LogFile(vec![
        game(Version::new(0, 2, 0), vec![]),
        game(Version::new(0, 1, 9), vec![]),
    ]);
    assert!(!old.is_compatible());
    match old.ensure_compatible() {
        Err(e) => assert_eq!(e, LogFileError::CompatibilityCheck(Version::new(0, 1, 9))),
        Ok(_) => panic!("an old log passed"),
    }
    let empty = LogFile(vec![]);
    assert_eq!(empty.get_min_ver(), Version::new(u64::MAX, u64::MAX, u64::MAX));
    assert!(Version::new(0, 1, 9).is_before(&Version::new(0, 2, 0)));
    assert!(!Version::new(0, 2, 0).is_before(&Version::new(0, 2, 0)));
}

#[test]
fn pre_releases_precede_their_release() {
    assert!(pre(0, 2, 0, "alpha").is_before(&Version::new(0, 2, 0)));
    assert!(!Version::new(0, 2, 0).is_before(&pre(0, 2, 0, "alpha")));
    assert!(pre(0, 3, 0, "alpha").is_before(&pre(0, 3, 0, "beta")));
    assert!(pre(0, 3, 0, "alpha.2").is_before(&pre(0, 3, 0, "alpha.10")));
    assert!(!pre(0, 3, 0, "beta").is_before(&pre(0, 3, 0, "alpha")));
    assert!(Version::new(0, 2, 9).is_before(&pre(0, 3, 0, "alpha")));
    let log = LogFile(vec![
        game(Version::new(0, 4, 0), vec![]),
        game(pre(0, 2, 0, "rc.1"), vec![]),
    ]);
    assert_eq!(log.get_min_ver(), pre(0, 2, 0, "rc.1"));
    match log.ensure_compatible() {
        Err(e) => assert_eq!(e, LogFileError::CompatibilityCheck(pre(0, 2, 0, "rc.1"))),
        Ok(_) => panic!("a pre-release of the minimum passed"),
    }
}

fn snap(action: Action, down: Down, yards: u8) -> Event {
    Event::Play(Play {
        action,
        down: Some(down),
        terrain: Some(TerrainState::Yards(yards)),
    })
}

#[test]
fn most_effective_play_credits_each_play() {
    let log = LogFile(vec![
        game(
            Version::new(0, 6, 0),
            vec![
                Event::Kickoff(Team::Iowa),
                snap(Action::Mesh, Down::First, 10),
                snap(Action::Curls, Down::Second, 4),
                snap(Action::Mesh, Down::Third, 7),
                snap(Action::SlotOut, Down::First, 10),
                Event::Turnover(Team::Colorado),
            ],
        ),
        game(
            Version::new(0, 6, 0),
            vec![
                Event::Kickoff(Team::Iowa),
                snap(Action::Curls, Down::First, 10),
                snap(Action::Curls, Down::Second, 9),
                Event::Turnover(Team::Colorado),
            ],
        ),
    ]);
    // Mesh: 10 - 4 and 7 into a first down; Curls: 4 - 7, then 10 - 9.
    assert_eq!(log.action_credit(Team::Iowa, Action::Mesh), 13);
    assert_eq!(log.action_credit(Team::Iowa, Action::Curls), -2);
    assert_eq!(log.action_credit(Team::Iowa, Action::SlotOut), 0);
    assert_eq!(
        log.most_effective_play(Team::Iowa),
        (Action::Mesh, TerrainState::Yards(13))
    );
    assert_eq!(
        log.most_effective_play(Team::Colorado),
        (Action::Unknown, TerrainState::Yards(0))
    );
}

#[test]
fn most_effective_play_caps_yards() {
    let mut events = vec![Event::Kickoff(Team::Iowa)];
    for _ in 0..30 {
        events.push(snap(Action::PowerZero, Down::Second, 10));
        events.push(snap(Action::HailMary, Down::First, 10));
    }
    let log = LogFile(vec![game(Version::new(0, 6, 0), events)]);
    assert_eq!(log.action_credit(Team::Iowa, Action::PowerZero), 300);
    assert_eq!(
        log.most_effective_play(Team::Iowa),
        (Action::PowerZero, TerrainState::Yards(255))
    );
}
