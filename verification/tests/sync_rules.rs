use footui::domain::{GroupId, MatchId, Timestamp};
use footui::sync::policy::{decide, RefreshPolicyInput, RefreshPolicyReason, ScheduleContext};
use footui::sync::resource::ResourceKey;
use footui::sync::coordinator::{CoordinatorState, CoordinatorStep, RefreshEvent, RefreshRequest};

fn ts(seconds: i64) -> Timestamp {
    Timestamp::from_second(seconds).expect("timestamp")
}

#[test]
fn standings_wait_until_relevant_group_window() {
    let now = ts(1_000);
    let next_group_match = ts(1_000 + 7 * 24 * 60 * 60);
    let decision = decide(RefreshPolicyInput {
        resource: ResourceKey::StandingsGroup(GroupId::from("289275")),
        now,
        last_success_at: Some(now),
        force: false,
        schedule: ScheduleContext {
            tournament_started: true,
            resource_next_match_at: Some(next_group_match),
            ..ScheduleContext::default()
        },
    });

    assert!(!decision.should_refresh);
    assert_eq!(decision.reason, RefreshPolicyReason::WaitingForRelevantMatchWindow);
    assert_eq!(decision.next_refresh_after, next_group_match.checked_add_seconds(-2 * 60 * 60));
}

#[test]
fn live_timeline_refreshes_every_minute() {
    let now = ts(1_000);
    let decision = decide(RefreshPolicyInput {
        resource: ResourceKey::Timeline("400000001".into()),
        now,
        last_success_at: Some(ts(930)),
        force: false,
        schedule: ScheduleContext { resource_live: true, ..ScheduleContext::default() },
    });

    assert!(decision.should_refresh);
    assert_eq!(decision.next_refresh_after, Some(ts(990)));
}

#[test]
fn teams_are_static_after_tournament_start() {
    let now = ts(1_000);
    let decision = decide(RefreshPolicyInput {
        resource: ResourceKey::Teams,
        now,
        last_success_at: Some(ts(1_000 - 24 * 60 * 60)),
        force: false,
        schedule: ScheduleContext { tournament_started: true, ..ScheduleContext::default() },
    });

    assert!(!decision.should_refresh);
    assert_eq!(decision.reason, RefreshPolicyReason::Fresh);
}

#[test]
fn resource_keys_are_stable_storage_strings() {
    assert_eq!(ResourceKey::Teams.storage_key(), "teams");
    assert_eq!(ResourceKey::StandingsGroup(GroupId::from("289275")).storage_key(), "standings:group:289275");
    assert_eq!(ResourceKey::Timeline(MatchId::from("400000001")).storage_key(), "timeline:400000001");
}

#[test]
fn standings_resource_expands_to_all_twelve_groups() {
    assert_eq!(ResourceKey::all_standings_groups().len(), 12);
    assert_eq!(ResourceKey::all_standings_groups()[0].storage_key(), "standings:group:289275");
}

#[test]
fn coordinator_dedupes_duplicate_resources_in_request() {

    let mut state = CoordinatorState::new();
    let steps = state.handle_request(RefreshRequest::manual(vec![ResourceKey::Stages, ResourceKey::Stages]), 0, None);

    let mut saw_started = false;
    let mut saw_deduped = false;
    let mut saw_succeeded = false;
    for step in steps {
        match step {
            CoordinatorStep::Emit(RefreshEvent::Started { resource }) if resource == ResourceKey::Stages => {
                saw_started = true;
            }
            CoordinatorStep::Emit(RefreshEvent::Deduped { resource }) if resource == ResourceKey::Stages => {
                saw_deduped = true;
            }
            CoordinatorStep::Run(resource) if resource == ResourceKey::Stages => {
                // The host runs the refresh (stages need no download) and
                // reports it done.
                state.handle_done(&resource);
                saw_succeeded = true;
            }
            _ => {}
        }
    }

    assert!(saw_started);
    assert!(saw_deduped);
    assert!(saw_succeeded);
}
