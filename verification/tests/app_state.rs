use footui::app::matches_view::{match_list_lines, ListTone};
use footui::app::time_label::{date_time_labels, relative_time_label};
use footui::app::{
    App, AppCommand, CountriesFilter, FocusPane, InputMode, KeyScope, KnockoutRoundFilter,
    MatchesFilter, Screen, SortOrder, SourceState, StandingsFilter, TimelineFilter,
};
use footui::config::world_cup_2026;
use footui::domain::{
    Confederation, Group, Match, MatchId, MatchStatus, StageId, StandingRow, Team, TeamId,
    TimelineEvent, Timestamp,
};
use footui::repository::AppSnapshot;
use footui::sync::coordinator::RefreshEvent;
use footui::sync::resource::ResourceKey;

/// A clock reading before the tournament, so that its matches lie ahead.
fn before_kickoff() -> Timestamp {
    Timestamp::parse("2026-06-01T00:00:00Z").expect("timestamp")
}

fn scroll_down(max: u16, visible_lines: u16) -> AppCommand {
    AppCommand::ScrollDown { max, visible_lines }
}

fn scroll_up(max: u16, visible_lines: u16) -> AppCommand {
    AppCommand::ScrollUp { max, visible_lines }
}

#[test]
fn navigation_command_changes_screen() {
    let mut app = App::new(world_cup_2026());

    app.handle_command(AppCommand::Navigate(Screen::Matches));

    assert_eq!(app.screen(), Screen::Matches);
    assert_eq!(app.input_mode(), InputMode::Normal);
}

#[test]
fn country_filters_can_select_multiple_associations() {
    let mut app = App::new(world_cup_2026());
    app.handle_command(AppCommand::Navigate(Screen::Countries));

    app.handle_command(AppCommand::ToggleCountryFilter(CountriesFilter::Afc));
    app.handle_command(AppCommand::ToggleCountryFilter(CountriesFilter::Conmebol));
    assert_eq!(app.country_filters(), &[CountriesFilter::Afc, CountriesFilter::Conmebol]);
    assert_eq!(app.country_filter_label(), "AFC, CONMEBOL");

    app.handle_command(AppCommand::ToggleCountryFilter(CountriesFilter::All));
    assert!(app.country_filters().is_empty());
    assert_eq!(app.country_filter_label(), "All");
}

#[test]
fn country_filters_collapse_to_all_when_every_association_is_selected() {
    let mut app = App::new(world_cup_2026());
    app.handle_command(AppCommand::Navigate(Screen::Countries));

    for filter in CountriesFilter::all().iter().copied().filter(|filter| !filter.is_all()) {
        app.handle_command(AppCommand::ToggleCountryFilter(filter));
    }

    assert!(app.country_filters().is_empty());
    assert_eq!(app.country_filter_label(), "All");
}

#[test]
fn standing_groups_can_select_multiple_groups() {
    let mut app = App::new(world_cup_2026());
    app.handle_command(AppCommand::Navigate(Screen::Standings));

    app.handle_command(AppCommand::ToggleStandingGroup(StandingsFilter::GroupA));
    app.handle_command(AppCommand::ToggleStandingGroup(StandingsFilter::GroupC));
    assert_eq!(app.standing_groups(), &[StandingsFilter::GroupA, StandingsFilter::GroupC]);
    assert_eq!(app.standing_group_label(), "Group A, Group C");

    app.handle_command(AppCommand::ToggleStandingGroup(StandingsFilter::AllGroups));
    assert!(app.standing_groups().is_empty());
    assert_eq!(app.standing_group_label(), "All groups");
}

#[test]
fn knockout_rounds_can_select_multiple_rounds() {
    let mut app = App::new(world_cup_2026());
    app.handle_command(AppCommand::Navigate(Screen::Knockouts));

    app.handle_command(AppCommand::ToggleKnockoutRound(KnockoutRoundFilter::RoundOf32));
    app.handle_command(AppCommand::ToggleKnockoutRound(KnockoutRoundFilter::Final));
    assert_eq!(app.knockout_rounds(), &[KnockoutRoundFilter::RoundOf32, KnockoutRoundFilter::Final]);
    assert_eq!(app.knockout_round_label(), "Round of 32, Final");

    app.handle_command(AppCommand::ToggleKnockoutRound(KnockoutRoundFilter::All));
    assert!(app.knockout_rounds().is_empty());
    assert_eq!(app.knockout_round_label(), "All rounds");
}

fn standing_rows(app: &App) -> Vec<(String, u8, String)> {
    app.visible_standings()
        .iter()
        .map(|row| (row.group_name.clone(), row.position, row.team_name.clone()))
        .collect()
}

fn row(group: &str, position: u8, team: &str) -> (String, u8, String) {
    (group.to_string(), position, team.to_string())
}

#[test]
fn visible_standings_filter_and_sort_by_group() {
    let mut app = App::new(world_cup_2026());
    app.set_snapshot(AppSnapshot {
        standings: vec![
            sample_standing(Group::C, "43920", "Japan", 2),
            sample_standing(Group::A, "43911", "Mexico", 2),
            sample_standing(Group::C, "43921", "Switzerland", 1),
            sample_standing(Group::A, "43922", "Argentina", 1),
        ],
        ..AppSnapshot::empty()
    });

    assert_eq!(
        standing_rows(&app),
        vec![
            row("Group A", 1, "Argentina"),
            row("Group A", 2, "Mexico"),
            row("Group C", 1, "Switzerland"),
            row("Group C", 2, "Japan"),
        ]
    );

    app.handle_command(AppCommand::Navigate(Screen::Standings));
    app.handle_command(AppCommand::ToggleSort);
    assert_eq!(
        standing_rows(&app),
        vec![
            row("Group C", 1, "Switzerland"),
            row("Group C", 2, "Japan"),
            row("Group A", 1, "Argentina"),
            row("Group A", 2, "Mexico"),
        ]
    );

    app.handle_command(AppCommand::ToggleStandingGroup(StandingsFilter::GroupA));
    assert_eq!(
        app.visible_standings().iter().map(|row| row.team_name.as_str()).collect::<Vec<_>>(),
        vec!["Argentina", "Mexico"]
    );
}

#[test]
fn focused_standing_group_opens_matching_matches_filter() {
    let mut group_c_match = sample_match("4002", 2, "Japan", "Switzerland", "2026-06-12T19:00:00Z");
    group_c_match.group_id = Some(Group::C.id());
    group_c_match.group_name = Some("Group C".to_string());

    let mut app = App::new(world_cup_2026());
    app.set_snapshot(AppSnapshot {
        standings: vec![
            sample_standing(Group::A, "43911", "Mexico", 1),
            sample_standing(Group::C, "43920", "Japan", 1),
        ],
        matches: vec![
            sample_match("4001", 1, "Mexico", "Argentina", "2026-06-11T19:00:00Z"),
            group_c_match,
        ],
        ..AppSnapshot::empty()
    });

    app.handle_command(AppCommand::Navigate(Screen::Standings));
    app.handle_command(AppCommand::FocusNext);
    app.handle_command(scroll_down(100, 20));
    app.handle_command(AppCommand::OpenSelectedStandingGroupMatches);

    assert_eq!(app.screen(), Screen::Matches);
    assert_eq!(app.focus_pane(), FocusPane::Content);
    assert_eq!(app.match_group_label(), "Group C");
    assert_eq!(
        app.visible_matches().iter().map(|m| m.home_team_name.as_str()).collect::<Vec<_>>(),
        vec!["Japan"]
    );
}

#[test]
fn standing_group_selection_scroll_returns_to_helper_lines_at_top() {
    let mut app = App::new(world_cup_2026());
    app.set_snapshot(AppSnapshot {
        standings: vec![
            sample_standing(Group::A, "a1", "Mexico", 1),
            sample_standing(Group::A, "a2", "Canada", 2),
            sample_standing(Group::A, "a3", "Switzerland", 3),
            sample_standing(Group::A, "a4", "Qatar", 4),
            sample_standing(Group::B, "b1", "Argentina", 1),
            sample_standing(Group::B, "b2", "Japan", 2),
            sample_standing(Group::B, "b3", "France", 3),
            sample_standing(Group::B, "b4", "Egypt", 4),
            sample_standing(Group::C, "c1", "Brazil", 1),
            sample_standing(Group::C, "c2", "Spain", 2),
            sample_standing(Group::C, "c3", "Uruguay", 3),
            sample_standing(Group::C, "c4", "Ghana", 4),
        ],
        ..AppSnapshot::empty()
    });
    app.handle_command(AppCommand::Navigate(Screen::Standings));
    app.handle_command(AppCommand::FocusNext);

    app.handle_command(scroll_down(18, 6));
    app.handle_command(scroll_down(18, 6));
    assert_eq!(app.selected_standing_group_id(), Some(Group::C.id()));
    assert_eq!(app.content_scroll(), 18);

    app.handle_command(scroll_up(18, 6));
    app.handle_command(scroll_up(18, 6));
    assert_eq!(app.selected_standing_group_id(), Some(Group::A.id()));
    assert_eq!(app.content_scroll(), 0);
}

#[test]
fn best_third_advancement_uses_fifa_rank_as_final_tiebreaker() {
    let mut app = App::new(world_cup_2026());
    app.set_snapshot(AppSnapshot {
        teams: vec![
            sample_ranked_team("t1", "One", "ONE", 1),
            sample_ranked_team("t2", "Two", "TWO", 2),
            sample_ranked_team("t3", "Three", "THR", 3),
            sample_ranked_team("t4", "Four", "FOU", 4),
            sample_ranked_team("t5", "Five", "FIV", 80),
            sample_ranked_team("t6", "Six", "SIX", 70),
            sample_ranked_team("t7", "Seven", "SEV", 60),
            sample_ranked_team("t8", "Eight", "EIG", 10),
            sample_ranked_team("t9", "Nine", "NIN", 90),
        ],
        standings: vec![
            sample_third_standing(Group::A, "t1", "One", 6, 0, 1, -1),
            sample_third_standing(Group::B, "t2", "Two", 5, 0, 1, -1),
            sample_third_standing(Group::C, "t3", "Three", 4, 2, 3, -1),
            sample_third_standing(Group::D, "t4", "Four", 3, 2, 3, -1),
            sample_third_standing(Group::E, "t5", "Five", 3, 1, 5, -1),
            sample_third_standing(Group::F, "t6", "Six", 3, 1, 5, -1),
            sample_third_standing(Group::G, "t7", "Seven", 3, 1, 5, -1),
            sample_third_standing(Group::H, "t8", "Eight", 3, 1, 5, -1),
            sample_third_standing(Group::I, "t9", "Nine", 3, 1, 5, -1),
        ],
        ..AppSnapshot::empty()
    });

    let eight = app
        .visible_standings()
        .into_iter()
        .find(|row| row.team_name == "Eight")
        .expect("eighth-best third");
    assert!(app.standing_row_is_advancing(eight));

    let nine = app
        .visible_standings()
        .into_iter()
        .find(|row| row.team_name == "Nine")
        .expect("ninth-best third");
    assert!(!app.standing_row_is_advancing(nine));
}

#[test]
fn favorite_filter_is_global() {
    let mut app = App::new(world_cup_2026());

    app.handle_command(AppCommand::ToggleFavoriteOnly);
    assert!(app.favorite_only());
}

#[test]
fn space_command_toggles_key_scope() {
    let mut app = App::new(world_cup_2026());

    app.handle_command(AppCommand::ToggleKeyScope);
    assert_eq!(app.key_scope(), KeyScope::Screen);

    app.handle_command(AppCommand::ToggleKeyScope);
    assert_eq!(app.key_scope(), KeyScope::Global);
}

#[test]
fn focus_commands_cycle_panels() {
    let mut app = App::new(world_cup_2026());
    app.handle_command(AppCommand::Navigate(Screen::Countries));

    app.handle_command(AppCommand::FocusNext);
    assert_eq!(app.focus_pane(), FocusPane::Content);

    app.handle_command(AppCommand::FocusNext);
    assert_eq!(app.focus_pane(), FocusPane::Detail);

    app.handle_command(AppCommand::FocusNext);
    assert_eq!(app.focus_pane(), FocusPane::Unfocused);
}

#[test]
fn scroll_commands_apply_to_focused_screen_panel() {
    let mut app = App::new(world_cup_2026());
    app.handle_command(AppCommand::Navigate(Screen::Countries));

    app.handle_command(AppCommand::FocusNext);
    app.handle_command(scroll_down(3, 5));
    app.handle_command(scroll_down(3, 5));
    assert_eq!(app.content_scroll(), 2);
    assert_eq!(app.detail_scroll(), 0);

    app.handle_command(AppCommand::Navigate(Screen::Matches));
    assert_eq!(app.content_scroll(), 0);

    app.handle_command(AppCommand::Navigate(Screen::Countries));
    assert_eq!(app.content_scroll(), 2);

    app.handle_command(AppCommand::FocusNext);
    app.handle_command(scroll_up(3, 5));
    assert_eq!(app.content_scroll(), 1);
}

#[test]
fn scroll_down_does_not_accumulate_beyond_max() {
    let mut app = App::new(world_cup_2026());
    app.handle_command(AppCommand::Navigate(Screen::Countries));
    app.handle_command(AppCommand::FocusNext);

    for _ in 0..5 {
        app.handle_command(scroll_down(2, 5));
    }

    assert_eq!(app.content_scroll(), 2);

    app.handle_command(scroll_up(2, 5));
    assert_eq!(app.content_scroll(), 1);
}

#[test]
fn knockout_focus_cycles_columns_and_arrows_scroll_content() {
    let mut app = App::new(world_cup_2026());
    app.handle_command(AppCommand::Navigate(Screen::Knockouts));

    app.handle_command(AppCommand::FocusNext);
    assert_eq!(app.knockout_column_cursor(), 0);
    assert_eq!(app.knockout_match_cursor(), 0);

    app.handle_command(AppCommand::FocusNext);
    assert_eq!(app.knockout_column_cursor(), 1);
    assert_eq!(app.knockout_match_cursor(), 0);
    assert!(app.content_horizontal_scroll() > 0);

    let focused_column = app.knockout_column_cursor();
    app.handle_command(AppCommand::ScrollRight { max: 80 });
    assert_eq!(app.knockout_column_cursor(), focused_column);
    assert_eq!(app.content_horizontal_scroll(), 54);
    app.handle_command(AppCommand::ScrollLeft { max: 80 });
    assert_eq!(app.knockout_column_cursor(), focused_column);
    assert_eq!(app.content_horizontal_scroll(), 27);

    let scroll_before = app.content_scroll();
    app.handle_command(scroll_down(40, 10));
    assert_eq!(app.knockout_match_cursor(), 0);
    assert_eq!(app.content_scroll(), scroll_before + 1);

    app.handle_command(AppCommand::FocusPrevious);
    assert_eq!(app.knockout_column_cursor(), 0);
    assert_eq!(app.knockout_match_cursor(), 0);
}

#[test]
fn refresh_resources_are_screen_specific() {
    let mut app = App::new(world_cup_2026());
    assert_eq!(app.refresh_resources().len(), 16);

    app.handle_command(AppCommand::Navigate(Screen::Countries));
    assert_eq!(app.refresh_resources(), vec![ResourceKey::Teams, ResourceKey::Stages]);

    app.handle_command(AppCommand::Navigate(Screen::Matches));
    assert_eq!(app.refresh_resources().len(), 13);
    assert_eq!(app.refresh_resources()[0], ResourceKey::Matches);

    app.handle_command(AppCommand::Navigate(Screen::Standings));
    assert_eq!(app.refresh_resources().len(), 12);

    app.handle_command(AppCommand::ToggleStandingGroup(StandingsFilter::GroupA));
    assert_eq!(app.refresh_resources(), vec![ResourceKey::StandingsGroup(Group::A.id())]);

    app.handle_command(AppCommand::Navigate(Screen::Knockouts));
    assert_eq!(app.refresh_resources().len(), 13);
    assert_eq!(app.refresh_resources()[0], ResourceKey::Matches);
}

#[test]
fn refresh_events_update_source_status() {
    let mut app = App::new(world_cup_2026());

    app.handle_refresh_event(RefreshEvent::Started { resource: ResourceKey::Teams });
    assert_eq!(app.source_status().state, SourceState::Refreshing);
    assert_eq!(app.source_status().pending_refreshes, 1);

    app.handle_refresh_event(RefreshEvent::Succeeded {
        resource: ResourceKey::Teams,
        at: "2026-06-18T00:00:00Z".to_string(),
    });
    assert_eq!(app.source_status().state, SourceState::Cached);
    assert_eq!(app.source_status().pending_refreshes, 0);
    assert_eq!(app.source_status().last_updated.as_deref(), Some("2026-06-18T00:00:00Z"));

    app.handle_refresh_event(RefreshEvent::Offline {
        resource: ResourceKey::Matches,
        error: "network unreachable".to_string(),
    });
    assert_eq!(app.source_status().state, SourceState::Offline);
}

#[test]
fn sort_toggle_applies_to_countries_and_standings() {
    let mut app = App::new(world_cup_2026());
    app.handle_command(AppCommand::Navigate(Screen::Countries));

    app.handle_command(AppCommand::ToggleSort);
    assert_eq!(app.countries_sort(), SortOrder::Desc);
    assert_eq!(app.standings_sort(), SortOrder::Asc);

    app.handle_command(AppCommand::Navigate(Screen::Standings));
    app.handle_command(AppCommand::ToggleSort);
    assert_eq!(app.countries_sort(), SortOrder::Desc);
    assert_eq!(app.standings_sort(), SortOrder::Desc);
}

#[test]
fn search_mode_collects_and_submits_text() {
    let mut app = App::new(world_cup_2026());
    app.handle_command(AppCommand::Navigate(Screen::Countries));

    app.handle_command(AppCommand::StartSearch);
    app.handle_command(AppCommand::SearchInput('a'));
    app.handle_command(AppCommand::SearchInput('r'));
    app.handle_command(AppCommand::SubmitSearch);

    assert_eq!(app.input_mode(), InputMode::Normal);
}

#[test]
fn visible_teams_apply_filters_search_and_sort() {
    let mut app = App::new(world_cup_2026());
    app.set_snapshot(AppSnapshot {
        teams: vec![
            sample_team("43922", "Argentina", "ARG", Confederation::Conmebol),
            sample_team("43911", "Mexico", "MEX", Confederation::Concacaf),
        ],
        ..AppSnapshot::empty()
    });
    app.handle_command(AppCommand::Navigate(Screen::Countries));

    app.handle_command(AppCommand::ToggleCountryFilter(CountriesFilter::Conmebol));
    assert_eq!(app.visible_teams()[0].name, "Argentina");

    app.handle_command(AppCommand::StartSearch);
    app.handle_command(AppCommand::SearchInput('m'));
    app.handle_command(AppCommand::SearchInput('e'));
    app.handle_command(AppCommand::SearchInput('x'));
    app.handle_command(AppCommand::SubmitSearch);
    assert!(app.visible_teams().is_empty());
}

#[test]
fn country_selection_moves_and_toggles_favorite() {
    let mut app = App::new(world_cup_2026());
    app.set_snapshot(AppSnapshot {
        teams: vec![
            sample_team("43922", "Argentina", "ARG", Confederation::Conmebol),
            sample_team("43911", "Mexico", "MEX", Confederation::Concacaf),
        ],
        ..AppSnapshot::empty()
    });
    app.handle_command(AppCommand::Navigate(Screen::Countries));
    app.handle_command(AppCommand::FocusNext);

    assert_eq!(app.selected_country_action().map(|(_, name, _)| name), Some("Argentina".to_string()));

    app.handle_command(scroll_down(10, 5));
    assert_eq!(app.selected_country_action().map(|(_, name, _)| name), Some("Mexico".to_string()));

    app.handle_command(AppCommand::ToggleSelectedCountryFavorite);
    assert_eq!(app.selected_country_action().map(|(_, _, favorite)| favorite), Some(true));

    app.handle_command(AppCommand::ToggleCountryFilter(CountriesFilter::Conmebol));
    assert_eq!(app.content_scroll(), 0);
    assert_eq!(app.selected_country_action().map(|(_, name, _)| name), Some("Argentina".to_string()));
}

#[test]
fn quit_requires_confirmation() {
    let mut app = App::new(world_cup_2026());

    app.handle_command(AppCommand::Quit);
    assert!(app.is_running());
    assert!(app.quit_confirm_open());

    app.handle_command(AppCommand::CloseOverlay);
    assert!(app.is_running());
    assert_eq!(app.input_mode(), InputMode::Normal);

    app.handle_command(AppCommand::Quit);
    app.handle_command(AppCommand::ConfirmQuit);
    assert!(!app.is_running());
}

#[test]
fn match_selection_moves_with_focused_content() {
    let mut app = App::new(world_cup_2026());
    app.set_clock(before_kickoff());
    app.set_snapshot(AppSnapshot {
        matches: vec![
            sample_match("4001", 1, "Argentina", "France", "2026-06-18T12:00:00Z"),
            sample_match("4002", 2, "Mexico", "Canada", "2026-06-19T12:00:00Z"),
        ],
        ..AppSnapshot::empty()
    });
    app.handle_command(AppCommand::Navigate(Screen::Matches));
    app.handle_command(AppCommand::FocusNext);

    assert_eq!(app.selected_match_id(), Some(MatchId::from("4001")));

    app.handle_command(scroll_down(10, 5));
    assert_eq!(app.selected_match_id(), Some(MatchId::from("4002")));

    app.handle_command(AppCommand::ToggleMatchGroup(StandingsFilter::GroupA));
    assert_eq!(app.content_scroll(), 0);
    assert_eq!(app.selected_match_id(), Some(MatchId::from("4001")));
}

#[test]
fn match_selection_scroll_returns_to_helper_lines_at_top() {
    let mut app = App::new(world_cup_2026());
    app.set_clock(before_kickoff());
    app.set_snapshot(AppSnapshot {
        matches: vec![
            sample_match("4001", 1, "Argentina", "France", "2026-06-18T12:00:00Z"),
            sample_match("4002", 2, "Mexico", "Canada", "2026-06-19T12:00:00Z"),
            sample_match("4003", 3, "Japan", "Spain", "2026-06-20T12:00:00Z"),
            sample_match("4004", 4, "Brazil", "Germany", "2026-06-21T12:00:00Z"),
            sample_match("4005", 5, "Uruguay", "Italy", "2026-06-22T12:00:00Z"),
            sample_match("4006", 6, "Qatar", "Canada", "2026-06-23T12:00:00Z"),
        ],
        ..AppSnapshot::empty()
    });
    app.handle_command(AppCommand::Navigate(Screen::Matches));
    app.handle_command(AppCommand::FocusNext);

    for _ in 0..5 {
        app.handle_command(scroll_down(10, 6));
    }
    assert!(app.content_scroll() > 0);

    for _ in 0..5 {
        app.handle_command(scroll_up(10, 6));
    }
    assert_eq!(app.selected_match_id(), Some(MatchId::from("4001")));
    assert_eq!(app.content_scroll(), 0);
}

#[test]
fn visible_matches_combine_date_and_group_filters() {
    let mut past_group_a = sample_match("4001", 1, "Argentina", "France", "2000-06-18T12:00:00Z");
    past_group_a.group_id = Some(Group::A.id());
    past_group_a.group_name = Some("Group A".to_string());

    let mut future_group_a = sample_match("4002", 2, "Mexico", "Canada", "2999-06-19T12:00:00Z");
    future_group_a.group_id = Some(Group::A.id());
    future_group_a.group_name = Some("Group A".to_string());

    let mut past_group_b = sample_match("4003", 3, "Japan", "Switzerland", "2000-06-20T12:00:00Z");
    past_group_b.group_id = Some(Group::B.id());
    past_group_b.group_name = Some("Group B".to_string());

    let mut app = App::new(world_cup_2026());
    app.set_snapshot(AppSnapshot {
        matches: vec![past_group_a, future_group_a, past_group_b],
        ..AppSnapshot::empty()
    });
    app.handle_command(AppCommand::Navigate(Screen::Matches));

    app.handle_command(AppCommand::SelectMatchesFilter(MatchesFilter::Past));
    app.handle_command(AppCommand::ToggleMatchGroup(StandingsFilter::GroupA));

    assert_eq!(
        app.visible_matches().iter().map(|m| m.id.clone()).collect::<Vec<_>>(),
        vec![MatchId::from("4001")]
    );
}

#[test]
fn automatic_refresh_skips_matches_outside_relevant_window() {
    let mut app = App::new(world_cup_2026());
    app.set_snapshot(AppSnapshot {
        teams: vec![sample_team("43922", "Argentina", "ARG", Confederation::Conmebol)],
        matches: vec![sample_match("4001", 1, "Argentina", "France", "2999-06-18T12:00:00Z")],
        ..AppSnapshot::empty()
    });

    assert!(app.startup_refresh_resources().is_empty());
    assert!(app.background_refresh_resources().is_empty());
}

#[test]
fn automatic_match_refresh_includes_related_standings_groups() {
    let mut live_match = sample_match("4001", 1, "Argentina", "France", "2999-06-18T12:00:00Z");
    live_match.group_id = Some(Group::D.id());
    live_match.group_name = Some("Group D".to_string());
    live_match.status = MatchStatus::Live;

    let mut app = App::new(world_cup_2026());
    app.set_snapshot(AppSnapshot {
        teams: vec![sample_team("43922", "Argentina", "ARG", Confederation::Conmebol)],
        matches: vec![live_match],
        ..AppSnapshot::empty()
    });

    assert_eq!(
        app.background_refresh_resources(),
        vec![ResourceKey::Matches, ResourceKey::StandingsGroup(Group::D.id())]
    );
}

#[test]
fn future_match_details_stay_closed() {
    let mut app = App::new(world_cup_2026());
    app.set_snapshot(AppSnapshot {
        matches: vec![sample_match("4001", 1, "Argentina", "France", "2999-06-18T12:00:00Z")],
        ..AppSnapshot::empty()
    });
    app.handle_command(AppCommand::Navigate(Screen::Matches));

    app.handle_command(AppCommand::OpenDetails);

    assert!(!app.detail_open());
    assert_eq!(app.message(), "Future matches have no details yet.");
}

#[test]
fn selected_match_timeline_events_are_newest_first() {
    let mut app = App::new(world_cup_2026());
    app.set_clock(before_kickoff());
    app.set_snapshot(AppSnapshot {
        matches: vec![sample_match("4001", 1, "Argentina", "France", "2026-06-18T12:00:00Z")],
        timeline_events: vec![
            sample_timeline_event("4001", 1, Some(7), "0'"),
            sample_timeline_event("4001", 2, Some(0), "9'"),
        ],
        ..AppSnapshot::empty()
    });
    app.handle_command(AppCommand::Navigate(Screen::Matches));

    let event_indexes = app
        .selected_match_timeline_events()
        .iter()
        .map(|event| event.event_index)
        .collect::<Vec<_>>();

    assert_eq!(event_indexes, vec![2, 1]);
}

#[test]
fn match_detail_view_resets_timeline_filter_to_all() {
    let mut app = App::new(world_cup_2026());
    app.set_snapshot(AppSnapshot {
        matches: vec![
            sample_match("4001", 1, "Argentina", "France", "2026-06-18T12:00:00Z"),
            sample_match("4002", 2, "Mexico", "Canada", "2026-06-19T12:00:00Z"),
        ],
        ..AppSnapshot::empty()
    });
    app.handle_command(AppCommand::Navigate(Screen::Matches));
    app.handle_command(AppCommand::OpenDetails);
    app.handle_command(AppCommand::ToggleTimelineFilter(TimelineFilter::Goals));
    assert_eq!(app.timeline_filters(), &[TimelineFilter::Goals]);

    app.handle_command(AppCommand::OpenDetails);
    assert!(app.timeline_filters().is_empty());

    app.handle_command(AppCommand::ToggleTimelineFilter(TimelineFilter::RedCards));
    assert_eq!(app.timeline_filters(), &[TimelineFilter::RedCards]);
    app.handle_command(AppCommand::FocusPrevious);
    app.handle_command(scroll_down(10, 5));
    assert_eq!(app.selected_match_id(), Some(MatchId::from("4002")));
    assert!(app.timeline_filters().is_empty());
}

#[test]
fn match_detail_filters_are_composable() {
    let mut app = App::new(world_cup_2026());
    app.handle_command(AppCommand::Navigate(Screen::Matches));
    app.handle_command(AppCommand::OpenDetails);

    app.handle_command(AppCommand::ToggleTimelineFilter(TimelineFilter::Substitutions));
    app.handle_command(AppCommand::ToggleTimelineFilter(TimelineFilter::Goals));
    assert_eq!(app.timeline_filters(), &[TimelineFilter::Goals, TimelineFilter::Substitutions]);
    assert_eq!(app.timeline_filter_label(), "goals, subs");

    app.handle_command(AppCommand::ToggleTimelineFilter(TimelineFilter::Goals));
    assert_eq!(app.timeline_filters(), &[TimelineFilter::Substitutions]);
}

#[test]
fn last_sync_label_uses_display_time_mode() {
    let mut app = App::new(world_cup_2026());
    app.set_last_sync(Some("2000-01-01T12:00:00Z".to_string()));

    let absolute = app.last_sync_label();
    assert_ne!(absolute, "2000-01-01T12:00:00Z");
    assert!(!absolute.contains('T'));

    app.handle_command(AppCommand::ToggleTimeMode);
    assert!(app.last_sync_label().contains("ago"));
}

#[test]
fn relative_time_includes_hours_when_days_are_not_exact() {
    let now = Timestamp::parse("2026-06-19T12:00:00Z").expect("timestamp");
    let future = Timestamp::parse("2026-06-21T10:00:00Z").expect("timestamp");
    let past = Timestamp::parse("2026-06-17T14:00:00Z").expect("timestamp");

    assert_eq!(relative_time_label(future, now), "in 1d22h");
    assert_eq!(relative_time_label(past, now), "1d22h ago");
}

fn sample_team(id: &'static str, name: &'static str, abbreviation: &'static str, confederation: Confederation) -> Team {
    Team {
        id: TeamId::from(id),
        name: name.to_string(),
        abbreviation: abbreviation.to_string(),
        country_code: abbreviation.to_string(),
        confederation,
        flag_url_template: None,
        fifa_rank: None,
        favorite: false,
    }
}

fn sample_match(
    id: &'static str,
    match_number: u16,
    home_team_name: &'static str,
    away_team_name: &'static str,
    utc_start: &'static str,
) -> Match {
    Match {
        id: MatchId::from(id),
        match_number,
        stage_id: StageId::from("289273"),
        stage_name: "First Stage".to_string(),
        group_id: Some(Group::A.id()),
        group_name: Some("Group A".to_string()),
        utc_start: Timestamp::parse(utc_start).expect("timestamp"),
        local_start: None,
        home_team_id: None,
        away_team_id: None,
        home_team_name: home_team_name.to_string(),
        away_team_name: away_team_name.to_string(),
        home_score: None,
        away_score: None,
        home_penalty_score: None,
        away_penalty_score: None,
        status: MatchStatus::Scheduled,
        minute: None,
        stadium_name: None,
        attendance: None,
        winner_team_id: None,
    }
}

fn sample_timeline_event(match_id: &'static str, event_index: u16, event_type: Option<u16>, minute: &'static str) -> TimelineEvent {
    TimelineEvent {
        match_id: MatchId::from(match_id),
        event_index,
        event_type,
        team_id: None,
        player_id: None,
        minute: Some(minute.to_string()),
        description: Some("Event".to_string()),
    }
}

fn sample_standing(group: Group, team_id: &'static str, team_name: &'static str, position: u8) -> StandingRow {
    StandingRow {
        group_id: group.id(),
        group_name: group.name().to_string(),
        team_id: TeamId::from(team_id),
        team_name: team_name.to_string(),
        position,
        played: 1,
        won: if position == 1 { 1 } else { 0 },
        drawn: 0,
        lost: if position == 1 { 0 } else { 1 },
        goals_for: if position == 1 { 2 } else { 0 },
        goals_against: if position == 1 { 0 } else { 2 },
        goal_difference: if position == 1 { 2 } else { -2 },
        points: if position == 1 { 3 } else { 0 },
        qualification_status: None,
        fair_play: Some(-(position as i16)),
    }
}

fn sample_ranked_team(id: &'static str, name: &'static str, abbreviation: &'static str, fifa_rank: u16) -> Team {
    let mut team = sample_team(id, name, abbreviation, Confederation::Uefa);
    team.fifa_rank = Some(fifa_rank);
    team
}

fn sample_third_standing(
    group: Group,
    team_id: &'static str,
    team_name: &'static str,
    points: i16,
    goal_difference: i16,
    goals_for: i16,
    fair_play: i16,
) -> StandingRow {
    StandingRow {
        group_id: group.id(),
        group_name: group.name().to_string(),
        team_id: TeamId::from(team_id),
        team_name: team_name.to_string(),
        position: 3,
        played: 3,
        won: 1,
        drawn: 0,
        lost: 2,
        goals_for,
        goals_against: goals_for - goal_difference,
        goal_difference,
        points,
        qualification_status: None,
        fair_play: Some(fair_play),
    }
}

#[test]
fn details_pane_messages_follow_the_screen() {
    let mut app = App::new(world_cup_2026());
    app.handle_command(AppCommand::OpenDetails);
    assert_eq!(app.message(), "Home has no detail row.");

    app.handle_command(AppCommand::Navigate(Screen::Standings));
    app.handle_command(AppCommand::OpenDetails);
    assert!(!app.detail_open());
    assert_eq!(app.message(), "Standings has no detail pane. Focus a group and press m for matches.");

    app.set_snapshot(AppSnapshot {
        teams: vec![sample_team("43922", "Argentina", "ARG", Confederation::Conmebol)],
        ..AppSnapshot::empty()
    });
    app.handle_command(AppCommand::Navigate(Screen::Countries));
    app.handle_command(AppCommand::OpenDetails);
    assert!(app.detail_open());
    assert_eq!(app.focus_pane(), FocusPane::Detail);
    assert_eq!(app.message(), "Country details: Argentina.");

    app.handle_command(AppCommand::Navigate(Screen::Stats));
    app.handle_command(AppCommand::OpenDetails);
    assert_eq!(app.message(), "Stats detail placeholder open.");
}

#[test]
fn past_match_details_open_with_both_teams() {
    let mut app = App::new(world_cup_2026());
    app.set_snapshot(AppSnapshot {
        matches: vec![sample_match("4001", 1, "Argentina", "France", "2022-12-18T15:00:00Z")],
        ..AppSnapshot::empty()
    });
    app.handle_command(AppCommand::Navigate(Screen::Matches));
    app.handle_command(AppCommand::SelectMatchesFilter(MatchesFilter::Past));
    app.handle_command(AppCommand::OpenDetails);
    assert!(app.detail_open());
    assert_eq!(app.message(), "Match details: Argentina vs France.");
}

#[test]
fn bracket_focus_names_the_column_and_leaves_after_the_last() {
    let mut app = App::new(world_cup_2026());
    app.handle_command(AppCommand::Navigate(Screen::Knockouts));
    app.handle_command(AppCommand::ToggleKnockoutRound(KnockoutRoundFilter::Final));

    app.handle_command(AppCommand::FocusNext);
    assert_eq!(app.message(), "Focused KO column: final / third. Use arrows to scroll.");
    assert_eq!(app.content_horizontal_scroll(), 0);

    app.handle_command(AppCommand::FocusNext);
    assert_eq!(app.focus_pane(), FocusPane::Unfocused);
    assert_eq!(app.message(), "Focus: none.");
}

#[test]
fn shift_tab_undoes_tab_on_countries() {
    let mut app = App::new(world_cup_2026());
    app.handle_command(AppCommand::Navigate(Screen::Countries));
    app.handle_command(AppCommand::FocusNext);
    let before = app.focus_pane();
    app.handle_command(AppCommand::FocusNext);
    app.handle_command(AppCommand::FocusPrevious);
    assert_eq!(app.focus_pane(), before);
}

#[test]
fn toggling_a_group_twice_restores_the_selection() {
    let mut app = App::new(world_cup_2026());
    app.handle_command(AppCommand::Navigate(Screen::Standings));
    app.handle_command(AppCommand::ToggleStandingGroup(StandingsFilter::GroupB));
    app.handle_command(AppCommand::ToggleStandingGroup(StandingsFilter::GroupE));
    app.handle_command(AppCommand::ToggleStandingGroup(StandingsFilter::GroupE));
    assert_eq!(app.standing_groups(), &[StandingsFilter::GroupB]);
}

#[test]
fn relative_match_times_use_the_clock_reading() {
    let mut app = App::new(world_cup_2026());
    app.set_clock(Timestamp::parse("2026-06-11T17:00:00Z").expect("timestamp"));
    let m = sample_match("4001", 1, "Mexico", "South Africa", "2026-06-11T19:00:00Z");
    app.handle_command(AppCommand::ToggleTimeMode);
    assert_eq!(app.match_time_label(&m), "in 2h0m");
    assert_eq!(app.match_date_key(&m).len(), 10);
}

#[test]
fn confirm_quit_stops_the_application() {
    let mut app = App::new(world_cup_2026());
    app.handle_command(AppCommand::ConfirmQuit);
    assert!(!app.is_running());
}

#[test]
fn panning_right_stops_at_the_panel_limit() {
    let mut app = App::new(world_cup_2026());
    app.handle_command(AppCommand::Navigate(Screen::Countries));
    app.handle_command(AppCommand::FocusNext);
    for _ in 0..10 {
        app.handle_command(AppCommand::ScrollRight { max: 7 });
    }
    assert_eq!(app.content_horizontal_scroll(), 7);
    app.handle_command(AppCommand::ScrollLeft { max: 7 });
    assert_eq!(app.content_horizontal_scroll(), 3);
}

#[test]
fn matches_list_counts_rows_and_notes_an_empty_store() {
    let app = App::new(world_cup_2026());
    let list = match_list_lines(&app);
    assert_eq!(list.title, "Matches (0/0)");
    assert_eq!(list.lines.len(), 2);
    assert_eq!(list.lines[0][0].text, "No matches stored yet.");
}

#[test]
fn matches_list_shades_days_and_narrows_to_the_open_match() {
    let mut app = App::new(world_cup_2026());
    app.set_snapshot(AppSnapshot {
        matches: vec![
            sample_match("4001", 1, "Argentina", "France", "2026-06-18T12:00:00Z"),
            sample_match("4002", 2, "Mexico", "Canada", "2026-06-18T13:00:00Z"),
            sample_match("4003", 3, "Spain", "Japan", "2026-06-20T12:00:00Z"),
        ],
        ..AppSnapshot::empty()
    });
    app.set_clock(Timestamp::parse("2026-07-01T00:00:00Z").expect("timestamp"));
    app.handle_command(AppCommand::Navigate(Screen::Matches));
    let list = match_list_lines(&app);
    assert_eq!(list.title, "Matches (3/3)");
    assert_eq!(list.lines.len(), 4);
    assert_eq!(list.lines[0][0].tone, ListTone::Heading);
    assert_eq!(list.lines[1][0].tone, ListTone::Time(false, true));
    assert_eq!(list.lines[2][0].tone, ListTone::Time(false, false));
    assert_eq!(list.lines[3][0].tone, ListTone::Time(true, false));
    assert_eq!(list.lines[1][2].text, "ARG ");

    app.handle_command(AppCommand::OpenDetails);
    let list = match_list_lines(&app);
    assert_eq!(list.title, "Matches (1/3)");
    assert_eq!(list.lines.len(), 2);
}

#[test]
fn absolute_match_labels_are_local_day_and_clock() {
    let app = App::new(world_cup_2026());
    let m = sample_match("4001", 1, "Argentina", "France", "2026-06-18T12:00:00Z");

    let key = app.match_date_key(&m);
    let key_chars: Vec<char> = key.chars().collect();
    assert_eq!(key_chars.len(), 10);
    assert_eq!(key_chars[4], '-');
    assert_eq!(key_chars[7], '-');

    let label = app.match_time_label(&m);
    let label_chars: Vec<char> = label.chars().collect();
    assert_eq!(label_chars.len(), 16);
    assert!(label.starts_with(&key));
    assert_eq!(label_chars[10], ' ');
    assert_eq!(label_chars[13], ':');

    let (day, clock) = date_time_labels(&m);
    let day_chars: Vec<char> = day.chars().collect();
    let clock_chars: Vec<char> = clock.chars().collect();
    assert_eq!(day_chars.len(), 5);
    assert_eq!(day_chars[2], '/');
    assert_eq!(clock_chars.len(), 5);
    assert_eq!(clock_chars[2], ':');
    assert!(label.ends_with(&clock));
}

#[test]
fn empty_search_query_lists_every_team() {
    let mut app = App::new(world_cup_2026());
    assert_eq!(app.normalized_search_query(), "");
    app.set_snapshot(AppSnapshot {
        teams: vec![
            sample_team("43911", "Mexico", "MEX", Confederation::Concacaf),
            sample_team("43922", "Argentina", "ARG", Confederation::Conmebol),
        ],
        ..AppSnapshot::empty()
    });
    assert_eq!(app.visible_teams().len(), 2);
}
