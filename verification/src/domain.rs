//! Tournament domain model.

pub mod ids;
pub mod matches;
pub mod standings;
pub mod stats;
pub mod team;
pub mod time;
pub mod timeline;
pub mod tournament;

pub use ids::{GroupId, MatchId, StageId, TeamId};
pub use matches::{Match, MatchStatus};
pub use standings::{QualificationState, StandingRow};
pub use stats::PlayerStat;
pub use team::Team;
pub use time::{LocalDate, Timestamp};
pub use timeline::TimelineEvent;
pub use tournament::{Confederation, Group, Stage, UnknownValue, ValueKind};
