//! What the application holds of the stored data, and what a refresh brings.

use vstd::prelude::*;

use crate::domain::matches::Match;
use crate::domain::standings::StandingRow;
use crate::domain::stats::PlayerStat;
use crate::domain::team::Team;
use crate::domain::timeline::TimelineEvent;

verus! {

/// Everything the screens show, as last loaded from storage.
#[derive(Debug)]
pub struct AppSnapshot {
    pub teams: Vec<Team>,
    pub matches: Vec<Match>,
    pub standings: Vec<StandingRow>,
    pub top_scorers: Vec<PlayerStat>,
    pub timeline_events: Vec<TimelineEvent>,
}

impl AppSnapshot {
    /// No data at all.
    pub fn empty() -> (r: Self)
        ensures
            r.teams@.len() == 0,
            r.matches@.len() == 0,
            r.standings@.len() == 0,
            r.top_scorers@.len() == 0,
            r.timeline_events@.len() == 0,
    {
        AppSnapshot {
            teams: Vec::new(),
            matches: Vec::new(),
            standings: Vec::new(),
            top_scorers: Vec::new(),
            timeline_events: Vec::new(),
        }
    }
}

/// What one refresh fetched, to be saved.
#[derive(Debug)]
pub struct SyncResult {
    pub teams: Vec<Team>,
    pub matches: Vec<Match>,
    pub standings: Vec<StandingRow>,
    pub top_scorers: Vec<PlayerStat>,
    pub timeline_events: Vec<TimelineEvent>,
}

impl SyncResult {
    /// Nothing fetched.
    pub fn empty() -> (r: Self)
        ensures
            r.teams@.len() == 0,
            r.matches@.len() == 0,
            r.standings@.len() == 0,
            r.top_scorers@.len() == 0,
            r.timeline_events@.len() == 0,
    {
        SyncResult {
            teams: Vec::new(),
            matches: Vec::new(),
            standings: Vec::new(),
            top_scorers: Vec::new(),
            timeline_events: Vec::new(),
        }
    }
}

} // verus!
