//! What a command of the user asks of the refresh worker, decided on the
//! state before the command is carried out.

use vstd::prelude::*;

use crate::app::state::{resource_views, screen_resources, selected_entry, App};
use crate::app::views::{AppCommand, Screen};
use crate::domain::matches::MatchStatus;
use crate::sync::coordinator::{RefreshReason, RefreshRequest};
use crate::sync::resource::{ResourceKey, ResourceView};

verus! {

/// Whether the matches screen's selected match has timeline details to
/// fetch: there is a selected match, and it is not a scheduled match that
/// is still to come.
pub open spec fn timeline_to_fetch(app: App) -> Option<Seq<char>> {
    match selected_entry(app.matches_listed(), app@.match_cursor) {
        Some(p) => if app.data().matches@[p as int].status == MatchStatus::Scheduled
            && app.data().matches@[p as int].utc_start@ > app.clock() {
            None
        } else {
            Some(app.data().matches@[p as int].id@)
        },
        None => None,
    }
}

/// The refresh a command asks for: `Refresh` asks, by force, for every
/// resource the screen shows (when it shows any); opening the details of a
/// match that has been played or is under way asks for its timeline; no
/// other command asks for anything.
pub fn refresh_for_command(app: &App, command: &AppCommand) -> (r: Option<RefreshRequest>)
    requires
        app.wf(),
    ensures
        *command == AppCommand::Refresh ==> (if screen_resources(app@.screen, app@.standing_groups).len() == 0 {
            r is None
        } else {
            r matches Some(q) && resource_views(q.resources@) == screen_resources(app@.screen, app@.standing_groups)
                && q.reason == RefreshReason::Manual && q.force
        }),
        *command == AppCommand::OpenDetails ==> (match (if app@.screen == Screen::Matches {
            timeline_to_fetch(*app)
        } else {
            None
        }) {
            Some(id) => r matches Some(q) && q.resources@.len() == 1 && q.resources@[0]@ == ResourceView::Timeline(id)
                && q.reason == RefreshReason::ScreenEnter && !q.force,
            None => r is None,
        }),
        *command != AppCommand::Refresh && *command != AppCommand::OpenDetails ==> r is None,
{
    match command {
        AppCommand::Refresh => {
            let resources = app.refresh_resources();
            if resources.len() == 0 {
                None
            } else {
                Some(RefreshRequest { resources, reason: RefreshReason::Manual, force: true })
            }
        },
        AppCommand::OpenDetails => {
            if app.screen() != Screen::Matches || app.selected_match_is_future() {
                return None;
            }
            match app.selected_match_id() {
                Some(id) => {
                    let mut resources: Vec<ResourceKey> = Vec::new();
                    resources.push(ResourceKey::Timeline(id));
                    Some(RefreshRequest { resources, reason: RefreshReason::ScreenEnter, force: false })
                },
                None => None,
            }
        },
        _ => None,
    }
}

} // verus!
