mod action;
mod deltas;
mod error;
mod event;
mod file;
mod game;
mod period;
mod play;
mod possession;
mod score;
mod stats;
mod terrain;
mod tui;
mod version;

pub use action::{known_actions, lemma_known_actions_rank, Action, Key, Playset};
pub use deltas::{
    credit_of_action, credited_yards, deltas_for_team, drop_quarters, lemma_team_events_len,
    lemma_team_events_wf, lemma_without_quarters_len, lemma_without_quarters_wf, pairwise_deltas,
    team_deltas, without_quarters, yard_changes,
};
pub use error::{IndeterminateDeltaError, LogFileError, TeamsError};
pub use event::{
    all_wf, lemma_no_delta_from_incomplete_play, lemma_no_delta_into_turnover,
    lemma_no_self_delta_without_context, Event, ScorePoints, Team,
};
pub use file::{
    actions_of, count_action, count_of, event_count, is_least_frequent, is_most_effective,
    is_most_frequent, log_actions, log_credit, no_known_action, oldest_version, teams_ok, LogFile,
};
pub use game::{
    ignored_teams, in_period, penalty_count, period_events, plays_in, plays_of, teams_met, Flags,
    Game, Period, TeamEvents, TeamPlays,
};
pub use period::Quarter;
pub use play::{Down, Play};
pub use possession::{
    is_opposing_boundary, lemma_opens_with_play_push, lemma_partition_idempotent,
    lemma_partition_opposing_boundaries_terminal, lemma_undetermined_iff_no_boundary, no_boundary,
    opens_with_play, opposing_boundaries_terminal, partition, partitioned, scan, team_events_of,
    Possession, Transition,
};
pub use score::ScoreChange;
pub use stats::{gains, gains_of, losses, losses_of, sum_of, tally, Tally};
pub use terrain::TerrainState;
pub use tui::App;
pub use version::{min_ver, pre_release_precedes, precedes, spec_min_ver, Version};
