//! Fixtures and results.

use vstd::prelude::*;

use crate::domain::ids::{GroupId, MatchId, StageId, TeamId};
use crate::domain::time::Timestamp;

verus! {

#[derive(Clone, Copy, Debug, Eq, Hash, PartialEq, Structural)]
pub enum MatchStatus {
    Scheduled,
    Live,
    FullTime,
    ExtraTime,
    Penalties,
    Postponed,
    Cancelled,
    Unknown(u16),
}

/// One fixture of the tournament.
#[derive(Debug)]
pub struct Match {
    pub id: MatchId,
    pub match_number: u16,
    pub stage_id: StageId,
    pub stage_name: String,
    pub group_id: Option<GroupId>,
    pub group_name: Option<String>,
    pub utc_start: Timestamp,
    /// The kick-off in the venue's time zone, in `jiff`'s zoned text form.
    pub local_start: Option<String>,
    pub home_team_id: Option<TeamId>,
    pub away_team_id: Option<TeamId>,
    pub home_team_name: String,
    pub away_team_name: String,
    pub home_score: Option<u8>,
    pub away_score: Option<u8>,
    pub home_penalty_score: Option<u8>,
    pub away_penalty_score: Option<u8>,
    pub status: MatchStatus,
    pub minute: Option<String>,
    pub stadium_name: Option<String>,
    pub attendance: Option<u32>,
    pub winner_team_id: Option<TeamId>,
}

pub fn clone_text_option(o: &Option<String>) -> (r: Option<String>)
    ensures
        r == *o,
{
    match o {
        Some(s) => Some(s.clone()),
        None => None,
    }
}

pub fn clone_team_option(o: &Option<TeamId>) -> (r: Option<TeamId>)
    ensures
        r == *o,
{
    match o {
        Some(s) => Some(s.clone()),
        None => None,
    }
}

impl Clone for Match {
    fn clone(&self) -> (r: Self)
        ensures
            r == *self,
    {
        Match {
            id: self.id.clone(),
            match_number: self.match_number,
            stage_id: self.stage_id.clone(),
            stage_name: self.stage_name.clone(),
            group_id: match &self.group_id {
                Some(g) => Some(g.clone()),
                None => None,
            },
            group_name: clone_text_option(&self.group_name),
            utc_start: self.utc_start,
            local_start: clone_text_option(&self.local_start),
            home_team_id: clone_team_option(&self.home_team_id),
            away_team_id: clone_team_option(&self.away_team_id),
            home_team_name: self.home_team_name.clone(),
            away_team_name: self.away_team_name.clone(),
            home_score: self.home_score,
            away_score: self.away_score,
            home_penalty_score: self.home_penalty_score,
            away_penalty_score: self.away_penalty_score,
            status: self.status,
            minute: clone_text_option(&self.minute),
            stadium_name: clone_text_option(&self.stadium_name),
            attendance: self.attendance,
            winner_team_id: clone_team_option(&self.winner_team_id),
        }
    }
}

} // verus!
