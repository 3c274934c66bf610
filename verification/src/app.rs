//! The application's state: screens, filters, selections, and how commands
//! and refresh events change them.

pub mod views;

pub use views::{
    AppCommand, CountriesFilter, FocusPane, InputMode, KeyScope, KnockoutRoundFilter,
    MatchesFilter, Screen, SortOrder, SourceState, SourceStatus, StandingsFilter, StatsTab,
    TimeMode, TimelineFilter,
};
pub mod selection;
pub mod state;
pub mod time_label;
pub mod participant;
pub mod bracket_view;
pub mod timeline;
pub mod timeline_text;
pub mod timeline_lines;
pub mod standings_view;
pub mod commands;
pub mod matches_view;
pub mod guarantees;

pub use state::App;
