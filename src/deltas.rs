use crate::action::Action;
use crate::event::{all_wf, Event, Team};
use crate::possession::scan;
use crate::possession::{partition, team_events_of};
use vstd::prelude::*;

verus! {

/// `s` with its period markers left out.
pub open spec fn without_quarters(s: Seq<Event>) -> Seq<Event>
    decreases s.len(),
{
    if s.len() == 0 {
        Seq::empty()
    } else if s.last() is Quarter {
        without_quarters(s.drop_last())
    } else {
        without_quarters(s.drop_last()).push(s.last())
    }
}

/// The defined deltas between consecutive events of `s`, in order; the pairs
/// with no delta are skipped.
pub open spec fn yard_changes(s: Seq<Event>) -> Seq<int>
    decreases s.len(),
{
    if s.len() < 2 {
        Seq::empty()
    } else {
        match s[s.len() - 2].yard_change(s.last()) {
            Some(d) => yard_changes(s.drop_last()).push(d),
            None => yard_changes(s.drop_last()),
        }
    }
}

/// The deltas of `team` over the events `s` of one game: those between
/// consecutive events of its possessions, period markers left out.
pub open spec fn team_deltas(s: Seq<Event>, team: Team) -> Seq<int> {
    yard_changes(without_quarters(team_events_of(s, team)))
}

/// The events kept for a team come from `s`, so they are as well formed.
pub proof fn lemma_team_events_wf(s: Seq<Event>, team: Team)
    requires
        all_wf(s),
    ensures
        all_wf(team_events_of(s, team)),
    decreases s.len(),
{
    if s.len() > 0 {
        let s0 = s.drop_last();
        assert forall|i: int| 0 <= i < s0.len() implies (#[trigger] s0[i]).wf() by {
            assert(s0[i] == s[i]);
        }
        lemma_team_events_wf(s0, team);
        assert(s.last() == s[s.len() - 1]);
    }
}

/// `s` with its period markers left out is no longer than `s`.
pub proof fn lemma_without_quarters_len(s: Seq<Event>)
    ensures
        without_quarters(s).len() <= s.len(),
    decreases s.len(),
{
    if s.len() > 0 {
        lemma_without_quarters_len(s.drop_last());
    }
}

/// The events kept for a team are no more than the events scanned.
pub proof fn lemma_team_events_len(s: Seq<Event>, team: Team)
    ensures
        team_events_of(s, team).len() <= s.len(),
    decreases s.len(),
{
    if s.len() > 0 {
        lemma_team_events_len(s.drop_last(), team);
        assert(scan(s, team).1.len() <= scan(s.drop_last(), team).1.len() + 1);
    }
}

/// The yards credited to the plays of `a` over `s`: each play is credited
/// with the delta from it to the event that follows it, where one is defined.
pub open spec fn credited_yards(s: Seq<Event>, a: Action) -> int
    decreases s.len(),
{
    if s.len() < 2 {
        0
    } else {
        let e = s[s.len() - 2];
        credited_yards(s.drop_last(), a) + if e is Play && e->Play_0.action == a && e.yard_change(
            s.last(),
        ) is Some {
            e.yard_change(s.last()).unwrap()
        } else {
            0
        }
    }
}

/// Returns the yards credited to the plays of `a` over `events`.
pub fn credit_of_action(events: &Vec<Event>, a: Action) -> (r: i128)
    requires
        all_wf(events@),
    ensures
        r == credited_yards(events@, a),
        -128 * events@.len() <= r <= 128 * events@.len(),
{
    let mut r: i128 = 0;
    if events.len() < 2 {
        return r;
    }
    let mut i: usize = 1;
    while i < events.len()
        invariant
            1 <= i <= events.len(),
            all_wf(events@),
            r == credited_yards(events@.take(i as int), a),
            -128 * i <= r <= 128 * i,
        decreases events.len() - i,
    {
        proof {
            let t = events@.take(i + 1);
            assert(t.drop_last() =~= events@.take(i as int));
            assert(t[t.len() - 2] == events@[i - 1]);
            assert(t.last() == events@[i as int]);
        }
        if let Event::Play(p) = events[i - 1] {
            if p.action == a {
                if let Some(d) = events[i - 1].delta(&events[i]) {
                    r = r + d as i128;
                }
            }
        }
        i = i + 1;
    }
    proof {
        assert(events@.take(events@.len() as int) =~= events@);
    }
    r
}

/// Returns `events` with the period markers left out.
pub fn drop_quarters(events: &Vec<Event>) -> (r: Vec<Event>)
    ensures
        r@ == without_quarters(events@),
{
    let mut r: Vec<Event> = Vec::new();
    let mut i: usize = 0;
    while i < events.len()
        invariant
            i <= events.len(),
            r@ == without_quarters(events@.take(i as int)),
        decreases events.len() - i,
    {
        let e = events[i];
        proof {
            assert(events@.take(i + 1).drop_last() =~= events@.take(i as int));
        }
        if !matches!(e, Event::Quarter(_)) {
            r.push(e);
        }
        i = i + 1;
    }
    proof {
        assert(events@.take(events@.len() as int) =~= events@);
    }
    r
}

pub proof fn lemma_without_quarters_wf(s: Seq<Event>)
    requires
        all_wf(s),
    ensures
        all_wf(without_quarters(s)),
    decreases s.len(),
{
    if s.len() > 0 {
        let s0 = s.drop_last();
        assert forall|i: int| 0 <= i < s0.len() implies (#[trigger] s0[i]).wf() by {
            assert(s0[i] == s[i]);
        }
        lemma_without_quarters_wf(s0);
        assert(s.last() == s[s.len() - 1]);
    }
}

/// Returns the defined deltas between consecutive events, in order.
pub fn pairwise_deltas(events: &Vec<Event>) -> (r: Vec<i8>)
    requires
        all_wf(events@),
    ensures
        r@.map_values(|v: i8| v as int) == yard_changes(events@),
{
    let mut r: Vec<i8> = Vec::new();
    if events.len() < 2 {
        proof {
            assert(r@.map_values(|v: i8| v as int) =~= Seq::<int>::empty());
        }
        return r;
    }
    let mut i: usize = 1;
    proof {
        assert(r@.map_values(|v: i8| v as int) =~= yard_changes(events@.take(1)));
    }
    while i < events.len()
        invariant
            1 <= i <= events.len(),
            all_wf(events@),
            r@.map_values(|v: i8| v as int) == yard_changes(events@.take(i as int)),
        decreases events.len() - i,
    {
        let ghost old_r = r@;
        proof {
            let t = events@.take(i + 1);
            assert(t.drop_last() =~= events@.take(i as int));
            assert(t[t.len() - 2] == events@[i - 1]);
            assert(t.last() == events@[i as int]);
        }
        match events[i - 1].delta(&events[i]) {
            Some(d) => {
                r.push(d);
                proof {
                    assert(r@.map_values(|v: i8| v as int) =~= old_r.map_values(|v: i8| v as int).push(
                        d as int,
                    ));
                }
            },
            None => {},
        }
        i = i + 1;
    }
    proof {
        assert(events@.take(events@.len() as int) =~= events@);
    }
    r
}

/// Returns the deltas of `team` over the events of one game: its possessions
/// are partitioned out with the opening possession assumed known (see
/// `partition`), period markers are left out, and the defined deltas between
/// consecutive events are listed in order.
pub fn deltas_for_team(events: &Vec<Event>, team: Team) -> (r: Vec<i8>)
    requires
        all_wf(events@),
    ensures
        r@.map_values(|v: i8| v as int) == team_deltas(events@, team),
{
    let kept = match partition(events, team, true) {
        Ok(v) => v,
        Err(_) => Vec::new(),
    };
    proof {
        lemma_team_events_wf(events@, team);
    }
    let plays = drop_quarters(&kept);
    proof {
        lemma_without_quarters_wf(kept@);
    }
    pairwise_deltas(&plays)
}

} // verus!
