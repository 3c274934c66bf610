use footui::app::{AppCommand, FocusPane, KnockoutRoundFilter};
use footui::bracket::mirrored_columns;
use footui::domain::{Confederation, Team, TeamId};
use footui::fifa::{endpoint_url, map_teams, FifaLocalizedText, FifaRankingRow, FifaTeam};
use footui::panel::{apply_scroll_max, country_cell, mirrored_bracket_body_height, team_name_width, time_cell, PanelMetrics};
use footui::panel::center;
use footui::app::state::{next_knockout_column_scroll, previous_knockout_column_scroll};
use footui::app::{SourceState, SourceStatus};

fn team(name: &str) -> Team {
    Team {
        id: TeamId::from(name),
        name: name.to_string(),
        abbreviation: "XXX".to_string(),
        country_code: "XXX".to_string(),
        confederation: Confederation::Uefa,
        flag_url_template: None,
        fifa_rank: None,
        favorite: false,
    }
}

fn payload(id: &str, name: &str) -> FifaTeam {
    FifaTeam {
        id_team: id.to_string(),
        id_confederation: "UEFA".to_string(),
        name: vec![FifaLocalizedText { locale: Some("en-GB".to_string()), description: Some(name.to_string()) }],
        id_country: "FRA".to_string(),
        short_club_name: None,
        abbreviation: Some("FRA".to_string()),
        picture_url: None,
    }
}

#[test]
fn cells_cut_mark_and_pad() {
    assert_eq!(country_cell("Argentina", 12, false), "Argentina   ");
    assert_eq!(country_cell("Argentina", 6, true), ">Arge~");
    assert_eq!(time_cell("in 2h", 8, true), ">in 2h  ");
}

#[test]
fn name_column_fits_the_longest_name() {
    let a = team("Bosnia and Herzegovina");
    let b = team("Iran");
    assert_eq!(team_name_width(&[&a, &b]), 23);
    assert_eq!(team_name_width(&[]), 5);
}

#[test]
fn bracket_body_reaches_the_lowest_card() {
    assert_eq!(mirrored_bracket_body_height(&[]), 3);
    let columns = mirrored_columns(&[KnockoutRoundFilter::RoundOf32]);
    assert_eq!(mirrored_bracket_body_height(&columns), 31);
}

#[test]
fn scroll_commands_take_the_focused_panel_limits() {
    let m = PanelMetrics {
        content_max_scroll: 9,
        detail_max_scroll: 4,
        content_max_horizontal_scroll: 30,
        detail_max_horizontal_scroll: 2,
        content_visible_lines: 12,
        detail_visible_lines: 6,
    };
    assert_eq!(
        apply_scroll_max(AppCommand::ScrollDown { max: 0, visible_lines: 0 }, FocusPane::Content, m),
        AppCommand::ScrollDown { max: 9, visible_lines: 12 }
    );
    assert_eq!(apply_scroll_max(AppCommand::ScrollLeft { max: 0 }, FocusPane::Detail, m), AppCommand::ScrollLeft { max: 2 });
    assert_eq!(
        apply_scroll_max(AppCommand::ScrollUp { max: 5, visible_lines: 5 }, FocusPane::Unfocused, m),
        AppCommand::ScrollUp { max: 0, visible_lines: 0 }
    );
    assert_eq!(apply_scroll_max(AppCommand::ToggleHelp, FocusPane::Content, m), AppCommand::ToggleHelp);
}

#[test]
fn endpoints_join_base_and_path_with_one_slash() {
    assert_eq!(endpoint_url("https://api.fifa.com/api/v3/", "/calendar/matches"), "https://api.fifa.com/api/v3/calendar/matches");
    assert_eq!(endpoint_url("http://x", "y"), "http://x/y");
}

#[test]
fn teams_take_the_rank_of_their_last_ranking_line() {
    let teams = vec![payload("1", "France"), payload("2", "Spain")];
    let rankings = vec![
        FifaRankingRow { id_team: "1".to_string(), rank: Some(5) },
        FifaRankingRow { id_team: "1".to_string(), rank: Some(2) },
    ];
    let mapped = map_teams(&teams, &rankings).unwrap();
    assert_eq!(mapped[0].fifa_rank, Some(2));
    assert_eq!(mapped[1].fifa_rank, None);
    let broken = vec![payload("3", "Italy"), payload("", "Nobody")];
    assert!(map_teams(&broken, &rankings).is_err());
}

#[test]
fn centered_cells_pad_both_sides_or_cut() {
    assert_eq!(center("M73", 7), "  M73  ");
    assert_eq!(center("M73", 6), " M73  ");
    assert_eq!(center("Round of 32", 5), "Roun~");
}

#[test]
fn bracket_pans_a_column_at_a_time() {
    assert_eq!(next_knockout_column_scroll(0, 80), 27);
    assert_eq!(next_knockout_column_scroll(30, 80), 54);
    assert_eq!(next_knockout_column_scroll(60, 70), 70);
    assert_eq!(previous_knockout_column_scroll(54), 27);
    assert_eq!(previous_knockout_column_scroll(30), 27);
    assert_eq!(previous_knockout_column_scroll(0), 0);
}

#[test]
fn initial_source_status_is_empty() {
    let status = SourceStatus::initial();
    assert_eq!(status.state, SourceState::Empty);
    assert_eq!(status.pending_refreshes, 0);
    assert!(status.last_updated.is_none());
}

#[test]
fn shortcut_labels_split_into_plain_and_marked_parts() {
    use_segments();
}

fn use_segments() {
    let parts = footui::panel::shortcut_segments("S[o]rt ");
    assert_eq!(parts, vec![("S".to_string(), false), ("o".to_string(), true), ("rt ".to_string(), false)]);
    let parts = footui::panel::shortcut_segments("last [s]ync");
    assert_eq!(parts, vec![("last ".to_string(), false), ("s".to_string(), true), ("ync".to_string(), false)]);
    assert_eq!(footui::panel::shortcut_segments("[]x"), vec![("x".to_string(), false)]);
    assert_eq!(footui::panel::shortcut_segments("a[bc"), vec![("a".to_string(), false), ("bc".to_string(), true)]);
}
