//! Match timelines.

use vstd::prelude::*;

use crate::domain::ids::{MatchId, TeamId};
use crate::domain::matches::{clone_team_option, clone_text_option};

verus! {

/// One event of a match timeline; `event_index` counts from 1 in the order
/// FIFA lists the events.
#[derive(Debug)]
pub struct TimelineEvent {
    pub match_id: MatchId,
    pub event_index: u16,
    pub event_type: Option<u16>,
    pub team_id: Option<TeamId>,
    pub player_id: Option<String>,
    pub minute: Option<String>,
    pub description: Option<String>,
}

impl Clone for TimelineEvent {
    fn clone(&self) -> (r: Self)
        ensures
            r == *self,
    {
        TimelineEvent {
            match_id: self.match_id.clone(),
            event_index: self.event_index,
            event_type: self.event_type,
            team_id: clone_team_option(&self.team_id),
            player_id: clone_text_option(&self.player_id),
            minute: clone_text_option(&self.minute),
            description: clone_text_option(&self.description),
        }
    }
}

} // verus!
