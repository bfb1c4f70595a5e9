use vstd::prelude::*;

verus! {

/// A called play, as named in the playbook.
#[derive(Debug, Clone, Copy, PartialEq, Eq, Structural)]
pub enum Action {
    CrackStudentBodyRightTackle,
    Curls,
    FleaFlicker,
    HailMary,
    HalfbackSlam,
    HalfbackSlipScreen,
    HalfbackSweep,
    Mesh,
    PlayActionBoot,
    PlayActionComebacks,
    PlayActionPowerZero,
    PowerZero,
    SlantBubble,
    SlotOut,
    SpeedOption,
    StrongFlood,
    Unknown,
}

/// The formation that a play is called from.
#[derive(Debug, Clone, Copy, PartialEq, Eq, Structural)]
pub enum Playset {
    PistolSpread,
    ShotgunTripleWingsOffset,
    ShotgunDoubleFlex,
    IFormNormal,
    IFormTight,
}

/// The controller button that selects a play within its formation.
#[derive(Debug, Clone, Copy, PartialEq, Eq, Structural)]
pub enum Key {
    Square,
    X,
    Triangle,
}

/// The known actions in declaration order; `Unknown` is not among them.
pub open spec fn known_actions() -> Seq<Action> {
    seq![
        Action::CrackStudentBodyRightTackle,
        Action::Curls,
        Action::FleaFlicker,
        Action::HailMary,
        Action::HalfbackSlam,
        Action::HalfbackSlipScreen,
        Action::HalfbackSweep,
        Action::Mesh,
        Action::PlayActionBoot,
        Action::PlayActionComebacks,
        Action::PlayActionPowerZero,
        Action::PowerZero,
        Action::SlantBubble,
        Action::SlotOut,
        Action::SpeedOption,
        Action::StrongFlood,
    ]
}

impl Action {
    /// Position of an action in declaration order.
    pub open spec fn rank(self) -> nat {
        match self {
            Action::CrackStudentBodyRightTackle => 0,
            Action::Curls => 1,
            Action::FleaFlicker => 2,
            Action::HailMary => 3,
            Action::HalfbackSlam => 4,
            Action::HalfbackSlipScreen => 5,
            Action::HalfbackSweep => 6,
            Action::Mesh => 7,
            Action::PlayActionBoot => 8,
            Action::PlayActionComebacks => 9,
            Action::PlayActionPowerZero => 10,
            Action::PowerZero => 11,
            Action::SlantBubble => 12,
            Action::SlotOut => 13,
            Action::SpeedOption => 14,
            Action::StrongFlood => 15,
            Action::Unknown => 16,
        }
    }

    pub open spec fn spec_is_play_action(self) -> bool {
        match self {
            Action::PlayActionBoot | Action::PlayActionComebacks | Action::PlayActionPowerZero => true,
            _ => false,
        }
    }

    pub open spec fn spec_is_halfback(self) -> bool {
        match self {
            Action::HalfbackSlam | Action::HalfbackSlipScreen | Action::HalfbackSweep => true,
            _ => false,
        }
    }

    pub open spec fn spec_is_run(self) -> bool {
        match self {
            Action::HalfbackSlam | Action::SpeedOption | Action::HalfbackSweep | Action::PowerZero
            | Action::CrackStudentBodyRightTackle => true,
            _ => false,
        }
    }

    /// The formation of each action. `Unknown` and `HailMary` have none.
    pub open spec fn spec_playset(self) -> Option<Playset> {
        match self {
            Action::SlantBubble | Action::HalfbackSlam | Action::PlayActionBoot => Some(
                Playset::PistolSpread,
            ),
            Action::StrongFlood | Action::SpeedOption | Action::HalfbackSlipScreen => Some(
                Playset::ShotgunTripleWingsOffset,
            ),
            Action::SlotOut | Action::HalfbackSweep | Action::PlayActionComebacks => Some(
                Playset::ShotgunDoubleFlex,
            ),
            Action::Curls | Action::PowerZero | Action::PlayActionPowerZero => Some(
                Playset::IFormNormal,
            ),
            Action::Mesh | Action::CrackStudentBodyRightTackle | Action::FleaFlicker => Some(
                Playset::IFormTight,
            ),
            _ => None,
        }
    }

    /// The key of each action: every run is on `X`. `Unknown` and `HailMary`
    /// have none.
    pub open spec fn spec_key(self) -> Option<Key> {
        if self.spec_is_run() {
            Some(Key::X)
        } else {
            match self {
                Action::SlantBubble | Action::StrongFlood | Action::SlotOut | Action::Curls
                | Action::Mesh => Some(Key::Square),
                Action::PlayActionBoot | Action::HalfbackSlipScreen | Action::PlayActionComebacks
                | Action::PlayActionPowerZero | Action::FleaFlicker => Some(Key::Triangle),
                _ => None,
            }
        }
    }

    /// Returns `true` if `self` is a play action.
    pub fn is_play_action(&self) -> (r: bool)
        ensures
            r == self.spec_is_play_action(),
    {
        matches!(self, Action::PlayActionBoot | Action::PlayActionComebacks | Action::PlayActionPowerZero)
    }

    /// Returns `true` if `self` is a halfback play.
    pub fn is_halfback(&self) -> (r: bool)
        ensures
            r == self.spec_is_halfback(),
    {
        matches!(self, Action::HalfbackSlam | Action::HalfbackSlipScreen | Action::HalfbackSweep)
    }

    /// Returns `true` if `self` is a running play.
    pub fn is_run(&self) -> (r: bool)
        ensures
            r == self.spec_is_run(),
    {
        matches!(
            self,
            Action::HalfbackSlam | Action::SpeedOption | Action::HalfbackSweep | Action::PowerZero
                | Action::CrackStudentBodyRightTackle
        )
    }

    /// Returns `true` if `self` is a passing play, that is not a run.
    pub fn is_pass(&self) -> (r: bool)
        ensures
            r == !self.spec_is_run(),
    {
        !self.is_run()
    }

    /// Returns `true` if `self` is `Action::Unknown`.
    pub fn is_unknown(&self) -> (r: bool)
        ensures
            r == (*self == Action::Unknown),
    {
        matches!(self, Action::Unknown)
    }

    /// Returns the `Playset` that this action belongs to.
    /// Returns `None` for `Action::Unknown` and for `Action::HailMary`,
    /// which no formation holds.
    pub fn playset(&self) -> (r: Option<Playset>)
        ensures
            r == self.spec_playset(),
            *self == Action::Unknown ==> r.is_none(),
    {
        if self.is_unknown() {
            return None;
        }
        match self {
            Action::SlantBubble | Action::HalfbackSlam | Action::PlayActionBoot => Some(
                Playset::PistolSpread,
            ),
            Action::StrongFlood | Action::SpeedOption | Action::HalfbackSlipScreen => Some(
                Playset::ShotgunTripleWingsOffset,
            ),
            Action::SlotOut | Action::HalfbackSweep | Action::PlayActionComebacks => Some(
                Playset::ShotgunDoubleFlex,
            ),
            Action::Curls | Action::PowerZero | Action::PlayActionPowerZero => Some(
                Playset::IFormNormal,
            ),
            Action::Mesh | Action::CrackStudentBodyRightTackle | Action::FleaFlicker => Some(
                Playset::IFormTight,
            ),
            _ => None,
        }
    }

    /// Returns the `Key` that this action is called with.
    /// Returns `None` for `Action::Unknown` and for `Action::HailMary`.
    pub fn key(&self) -> (r: Option<Key>)
        ensures
            r == self.spec_key(),
    {
        if self.is_unknown() {
            return None;
        }
        if self.is_run() {
            return Some(Key::X);
        }
        match self {
            Action::SlantBubble | Action::StrongFlood | Action::SlotOut | Action::Curls
            | Action::Mesh => Some(Key::Square),
            Action::PlayActionBoot | Action::HalfbackSlipScreen | Action::PlayActionComebacks
            | Action::PlayActionPowerZero | Action::FleaFlicker => Some(Key::Triangle),
            _ => None,
        }
    }

    /// The known actions in declaration order, `Unknown` left out.
    pub fn known() -> (r: Vec<Action>)
        ensures
            r@ == known_actions(),
    {
        let r = vec![
            Action::CrackStudentBodyRightTackle,
            Action::Curls,
            Action::FleaFlicker,
            Action::HailMary,
            Action::HalfbackSlam,
            Action::HalfbackSlipScreen,
            Action::HalfbackSweep,
            Action::Mesh,
            Action::PlayActionBoot,
            Action::PlayActionComebacks,
            Action::PlayActionPowerZero,
            Action::PowerZero,
            Action::SlantBubble,
            Action::SlotOut,
            Action::SpeedOption,
            Action::StrongFlood,
        ];
        assert(r@ =~= known_actions());
        r
    }
}

/// Each known action stands in `known_actions` at its rank.
pub proof fn lemma_known_actions_rank(a: Action)
    ensures
        a != Action::Unknown ==> a.rank() < known_actions().len() && known_actions()[a.rank() as int] == a,
        known_actions().len() == 16,
        forall|i: int| 0 <= i < 16 ==> known_actions()[i].rank() == i && known_actions()[i] != Action::Unknown,
{
}

} // verus!
