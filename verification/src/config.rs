//! Which competition and season the application follows.

use vstd::prelude::*;

verus! {

/// FIFA's identifiers of a competition and season, with the name the
/// application shows.
#[derive(Clone, Copy, Debug)]
pub struct TournamentConfig {
    pub competition_id: &'static str,
    pub season_id: &'static str,
    pub name: &'static str,
}

/// The FIFA World Cup 2026.
pub fn world_cup_2026() -> (r: TournamentConfig)
    ensures
        r.competition_id@ == "17"@,
        r.season_id@ == "285023"@,
        r.name@ == "FIFA World Cup 2026 TUI"@,
{
    TournamentConfig {
        competition_id: "17",
        season_id: "285023",
        name: "FIFA World Cup 2026 TUI",
    }
}

} // verus!
