use crate::error::IndeterminateDeltaError;
use crate::event::{Event, Team};
use vstd::prelude::*;

verus! {

/// Who holds the ball, as far as a scan of the events has told.
#[derive(Debug, Clone, Copy, PartialEq, Eq, Structural)]
pub enum Possession {
    /// No kickoff or turnover has been met yet.
    Undetermined,
    /// The team asked about holds the ball.
    RecordingTeam,
    /// The other side holds the ball.
    RecordingOpponent,
}

/// What a scan does on one event.
#[derive(Debug, Clone, Copy, PartialEq, Eq, Structural)]
pub struct Transition {
    /// The possession after the event.
    pub next: Possession,
    /// Drop every event kept so far: they were the other side's.
    pub discard_earlier: bool,
    /// Append the event to those kept.
    pub keep: bool,
}

impl Possession {
    /// The transition on `e` when the events of `team` are sought.
    ///
    /// A boundary of `team` starts its possession and is always kept; the
    /// first boundary met, when it is `team`'s, tells that all before it was
    /// the other side's. A boundary of the other side ends the team's
    /// possession and is kept only where it does so, as its terminator. Any
    /// other event is kept while the other side does not hold the ball.
    pub open spec fn spec_step(self, e: Event, team: Team) -> Transition {
        match e.spec_team() {
            Some(t) => if t == team {
                Transition {
                    next: Possession::RecordingTeam,
                    discard_earlier: self == Possession::Undetermined,
                    keep: true,
                }
            } else {
                Transition {
                    next: Possession::RecordingOpponent,
                    discard_earlier: false,
                    keep: self != Possession::RecordingOpponent,
                }
            },
            None => Transition {
                next: self,
                discard_earlier: false,
                keep: self != Possession::RecordingOpponent,
            },
        }
    }

    /// The transition on `e` when the events of `team` are sought.
    pub fn step(&self, e: &Event, team: &Team) -> (r: Transition)
        ensures
            r == self.spec_step(*e, *team),
    {
        match e.team() {
            Some(t) => {
                if t == *team {
                    Transition {
                        next: Possession::RecordingTeam,
                        discard_earlier: *self == Possession::Undetermined,
                        keep: true,
                    }
                } else {
                    Transition {
                        next: Possession::RecordingOpponent,
                        discard_earlier: false,
                        keep: *self != Possession::RecordingOpponent,
                    }
                }
            },
            None => Transition {
                next: *self,
                discard_earlier: false,
                keep: *self != Possession::RecordingOpponent,
            },
        }
    }
}

/// The possession reached and the events kept after scanning `s` for `team`.
pub open spec fn scan(s: Seq<Event>, team: Team) -> (Possession, Seq<Event>)
    decreases s.len(),
{
    if s.len() == 0 {
        (Possession::Undetermined, Seq::empty())
    } else {
        let (p, kept) = scan(s.drop_last(), team);
        let t = p.spec_step(s.last(), team);
        let base = if t.discard_earlier {
            Seq::empty()
        } else {
            kept
        };
        (t.next, if t.keep {
            base.push(s.last())
        } else {
            base
        })
    }
}

/// The events of `s` that belong to `team`'s possessions.
pub open spec fn team_events_of(s: Seq<Event>, team: Team) -> Seq<Event> {
    scan(s, team).1
}

/// No kickoff or turnover stands in `s`.
pub open spec fn no_boundary(s: Seq<Event>) -> bool {
    forall|i: int| 0 <= i < s.len() ==> (#[trigger] s[i]).spec_team() is None
}

/// A play comes before any kickoff or turnover, so that nobody can tell
/// which side held the ball at the start.
pub open spec fn opens_with_play(s: Seq<Event>) -> bool {
    exists|i: int| 0 <= i < s.len() && (#[trigger] s[i]) is Play && no_boundary(s.take(i))
}

/// The outcome of partitioning: `None` where the opening possession cannot
/// be told and the caller did not assume it.
pub open spec fn partitioned(s: Seq<Event>, team: Team, assume_team_known: bool) -> Option<
    Seq<Event>,
> {
    if !assume_team_known && opens_with_play(s) {
        None
    } else {
        Some(team_events_of(s, team))
    }
}

/// The possession stays undetermined exactly while no boundary has been met.
pub proof fn lemma_undetermined_iff_no_boundary(s: Seq<Event>, team: Team)
    ensures
        (scan(s, team).0 == Possession::Undetermined) == no_boundary(s),
    decreases s.len(),
{
    if s.len() > 0 {
        lemma_undetermined_iff_no_boundary(s.drop_last(), team);
        if no_boundary(s) {
            assert forall|i: int| 0 <= i < s.drop_last().len() implies (#[trigger] s.drop_last()[i]).spec_team() is None by {
                assert(s.drop_last()[i] == s[i]);
            }
        }
        if no_boundary(s.drop_last()) && s.last().spec_team() is None {
            assert forall|i: int| 0 <= i < s.len() implies (#[trigger] s[i]).spec_team() is None by {
                if i < s.len() - 1 {
                    assert(s[i] == s.drop_last()[i]);
                }
            }
        }
    }
}

/// A play opens `s.push(e)` when it opens `s`, or when `e` is a play met
/// before any boundary.
pub proof fn lemma_opens_with_play_push(s: Seq<Event>, e: Event)
    ensures
        opens_with_play(s.push(e)) == (opens_with_play(s) || (no_boundary(s) && e is Play)),
{
    let t = s.push(e);
    if opens_with_play(s) {
        let i = choose|i: int| 0 <= i < s.len() && (#[trigger] s[i]) is Play && no_boundary(s.take(i));
        assert(t.take(i) =~= s.take(i));
        assert(t[i] == s[i]);
    }
    if no_boundary(s) && e is Play {
        assert(t.take(s.len() as int) =~= s);
        assert(t[s.len() as int] == e);
    }
    if opens_with_play(t) {
        let i = choose|i: int| 0 <= i < t.len() && (#[trigger] t[i]) is Play && no_boundary(t.take(i));
        if i < s.len() {
            assert(t.take(i) =~= s.take(i));
            assert(t[i] == s[i]);
        } else {
            assert(t.take(i) =~= s);
        }
    }
}

/// Returns the events of `events` that belong to `team`'s possessions, in
/// their order, each opposing boundary kept only where it ends a possession
/// of `team`.
///
/// Fails where a play comes before any kickoff or turnover, unless the caller
/// assumes the team known. The events before the first boundary are kept
/// when that boundary is the other side's, and dropped when it is `team`'s
/// own.
pub fn partition(events: &Vec<Event>, team: Team, assume_team_known: bool) -> (r: Result<
    Vec<Event>,
    IndeterminateDeltaError,
>)
    ensures
        r.is_ok() == partitioned(events@, team, assume_team_known).is_some(),
        r.is_ok() ==> r.unwrap()@ == partitioned(events@, team, assume_team_known).unwrap(),
{
    let mut kept: Vec<Event> = Vec::new();
    let mut state = Possession::Undetermined;
    let mut ambiguous = false;
    let mut i: usize = 0;
    while i < events.len()
        invariant
            i <= events.len(),
            scan(events@.take(i as int), team) == (state, kept@),
            ambiguous == opens_with_play(events@.take(i as int)),
        decreases events.len() - i,
    {
        let e = events[i];
        proof {
            assert(events@.take(i + 1).drop_last() =~= events@.take(i as int));
            lemma_undetermined_iff_no_boundary(events@.take(i as int), team);
            lemma_opens_with_play_push(events@.take(i as int), e);
            assert(events@.take(i + 1) =~= events@.take(i as int).push(e));
        }
        if state == Possession::Undetermined && matches!(e, Event::Play(_)) {
            ambiguous = true;
        }
        let t = state.step(&e, &team);
        if t.discard_earlier {
            kept = Vec::new();
        }
        if t.keep {
            kept.push(e);
        }
        state = t.next;
        i = i + 1;
    }
    proof {
        assert(events@.take(events@.len() as int) =~= events@);
    }
    if ambiguous && !assume_team_known {
        Err(IndeterminateDeltaError)
    } else {
        Ok(kept)
    }
}

/// `e` is a kickoff or turnover that hands the ball to a team other than `team`.
pub open spec fn is_opposing_boundary(e: Event, team: Team) -> bool {
    e.spec_team() is Some && e.spec_team() != Some(team)
}

/// In `out`, every boundary of the other side is the last event of a block:
/// whatever follows it is a boundary of `team`.
pub open spec fn opposing_boundaries_terminal(out: Seq<Event>, team: Team) -> bool {
    forall|i: int|
        0 <= i < out.len() - 1 && is_opposing_boundary(#[trigger] out[i], team) ==> out[i
            + 1].spec_team() == Some(team)
}

proof fn lemma_opposing_boundaries_terminal_scan(s: Seq<Event>, team: Team)
    ensures
        opposing_boundaries_terminal(scan(s, team).1, team),
        scan(s, team).1.len() > 0 && is_opposing_boundary(scan(s, team).1.last(), team)
            ==> scan(s, team).0 == Possession::RecordingOpponent,
    decreases s.len(),
{
    if s.len() > 0 {
        let s0 = s.drop_last();
        lemma_opposing_boundaries_terminal_scan(s0, team);
        let (p, kept) = scan(s0, team);
        let e = s.last();
        let t = p.spec_step(e, team);
        let base = if t.discard_earlier {
            Seq::<Event>::empty()
        } else {
            kept
        };
        let out = scan(s, team).1;
        if t.keep {
            assert(out == base.push(e));
            assert forall|i: int|
                0 <= i < out.len() - 1 && is_opposing_boundary(#[trigger] out[i], team) implies out[i
                + 1].spec_team() == Some(team) by {
                assert(out[i] == base[i]);
                if i + 1 < base.len() {
                    assert(out[i + 1] == base[i + 1]);
                } else {
                    assert(base.last() == base[i]);
                }
            }
        }
    }
}

/// Every boundary of the other side that partitioning keeps for `team` ends
/// a block: the next event kept, if any, is a boundary of `team`.
pub proof fn lemma_partition_opposing_boundaries_terminal(
    events: Seq<Event>,
    team: Team,
    assume_team_known: bool,
)
    requires
        partitioned(events, team, assume_team_known) is Some,
    ensures
        opposing_boundaries_terminal(partitioned(events, team, assume_team_known).unwrap(), team),
{
    lemma_opposing_boundaries_terminal_scan(events, team);
}

proof fn lemma_scan_of_kept(s: Seq<Event>, team: Team)
    ensures
        scan(scan(s, team).1, team) == scan(s, team),
        opens_with_play(scan(s, team).1) ==> opens_with_play(s),
    decreases s.len(),
{
    if s.len() > 0 {
        let s0 = s.drop_last();
        let e = s.last();
        lemma_scan_of_kept(s0, team);
        let (p, kept) = scan(s0, team);
        let t = p.spec_step(e, team);
        let out = scan(s, team).1;
        assert(s0.push(e) =~= s);
        lemma_opens_with_play_push(s0, e);
        lemma_undetermined_iff_no_boundary(s0, team);
        lemma_undetermined_iff_no_boundary(kept, team);
        if t.keep && !t.discard_earlier {
            assert(out.drop_last() =~= kept);
            assert(out.last() == e);
            assert(scan(out, team) == scan(s, team));
            lemma_opens_with_play_push(kept, e);
        } else if t.keep {
            assert(out.drop_last() =~= Seq::<Event>::empty());
            assert(out.last() == e);
            assert(p == Possession::Undetermined);
            assert(scan(out.drop_last(), team) == (Possession::Undetermined, Seq::<Event>::empty()));
            assert(scan(out, team) == scan(s, team));
            lemma_opens_with_play_push(Seq::<Event>::empty(), e);
            assert(!opens_with_play(Seq::<Event>::empty()));
        } else {
            assert(out == kept);
            assert(scan(out, team) == scan(s, team));
        }
    }
}

/// Partitioning the events kept for `team` again, for the same team and with
/// the same assumption, keeps them all and changes nothing.
pub proof fn lemma_partition_idempotent(events: Seq<Event>, team: Team, assume_team_known: bool)
    requires
        partitioned(events, team, assume_team_known) is Some,
    ensures
        partitioned(partitioned(events, team, assume_team_known).unwrap(), team, assume_team_known)
            == partitioned(events, team, assume_team_known),
{
    lemma_scan_of_kept(events, team);
}

} // verus!
