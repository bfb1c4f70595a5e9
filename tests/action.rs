use gamelog::{App, Action, Key, Playset};

#[test]
fn action_classes() {
    assert!(Action::PlayActionBoot.is_play_action());
    assert!(!Action::Mesh.is_play_action());
    assert!(Action::HalfbackSweep.is_halfback());
    assert!(!Action::PowerZero.is_halfback());
    assert!(Action::SpeedOption.is_run());
    assert!(!Action::SpeedOption.is_pass());
    assert!(Action::HailMary.is_pass());
    assert!(Action::Unknown.is_unknown());
    assert!(!Action::Curls.is_unknown());
}

#[test]
fn action_playsets_and_keys() {
    assert_eq!(Action::SlantBubble.playset(), Some(Playset::PistolSpread));
    assert_eq!(Action::HalfbackSlipScreen.playset(), Some(Playset::ShotgunTripleWingsOffset));
    assert_eq!(Action::PlayActionComebacks.playset(), Some(Playset::ShotgunDoubleFlex));
    assert_eq!(Action::PowerZero.playset(), Some(Playset::IFormNormal));
    assert_eq!(Action::FleaFlicker.playset(), Some(Playset::IFormTight));
    assert_eq!(Action::Unknown.playset(), None);
    assert_eq!(Action::HailMary.playset(), None);
    assert_eq!(Action::CrackStudentBodyRightTackle.key(), Some(Key::X));
    assert_eq!(Action::Mesh.key(), Some(Key::Square));
    assert_eq!(Action::HalfbackSlipScreen.key(), Some(Key::Triangle));
    assert_eq!(Action::Unknown.key(), None);
    assert_eq!(Action::HailMary.key(), None);
    assert_eq!(Action::known().len(), 16);
    assert!(!Action::known().contains(&Action::Unknown));
}

#[test]
fn app_exits_on_q_press() {
    let mut app = App { exit: false };
    app.handle_key(false, Some('q'));
    assert!(!app.exit);
    app.handle_key(true, Some('x'));
    assert!(!app.exit);
    app.handle_key(true, None);
    assert!(!app.exit);
    app.handle_key(true, Some('q'));
    assert!(app.exit);
    app.handle_key(true, Some('x'));
    assert!(app.exit);
}
