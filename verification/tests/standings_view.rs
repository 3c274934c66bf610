use footui::app::standings_view::{row_line, standing_lines, Cell, CellTone, RankMark};
use footui::app::App;
use footui::config::world_cup_2026;
use footui::domain::{Group, QualificationState, StandingRow, TeamId};
use footui::repository::AppSnapshot;

fn joined(cells: &[Cell]) -> String {
    cells.iter().map(|c| c.text.as_str()).collect()
}

fn sample_standing(group: Group, team_id: &'static str, team_name: &'static str, position: u8) -> StandingRow {
    StandingRow {
        group_id: group.id(),
        group_name: group.name().to_string(),
        team_id: TeamId::from(team_id),
        team_name: team_name.to_string(),
        position,
        played: 3,
        won: 2,
        drawn: 1,
        lost: 0,
        goals_for: 5,
        goals_against: 1,
        goal_difference: 4,
        points: 7,
        qualification_status: None,
        fair_play: Some(-2),
    }
}

#[test]
fn disqualified_standings_rows_are_red() {
    let row = sample_standing(Group::A, "usa", "USA", 4);
    let cells = row_line(&row, 12, false, false, QualificationState::Disqualified);
    assert_eq!(cells[0].tone, CellTone::Rank(RankMark::Out));
    assert_eq!(cells[1].tone, CellTone::Team(QualificationState::Disqualified));
}

#[test]
fn a_team_row_lines_its_figures_up_under_the_heads() {
    let row = sample_standing(Group::A, "mex", "Mexico", 1);
    let cells = row_line(&row, 10, true, true, QualificationState::Qualified);
    assert_eq!(joined(&cells), "#1 Mexico   3  2  1  0   5   1   +4   -2    7   * ");
    assert_eq!(cells[0].tone, CellTone::Rank(RankMark::Advancing));
    assert_eq!(cells[4].tone, CellTone::Favorite(true));
}

#[test]
fn each_group_opens_with_its_title_and_heads() {
    let mut app = App::new(world_cup_2026());
    app.set_snapshot(AppSnapshot {
        standings: vec![
            sample_standing(Group::A, "mex", "Mexico", 1),
            sample_standing(Group::A, "rsa", "South Africa", 2),
            sample_standing(Group::B, "can", "Canada", 1),
        ],
        ..AppSnapshot::empty()
    });
    let rows = app.visible_standings();
    let lines = standing_lines(&app, &rows);
    let texts: Vec<String> = lines.iter().map(|l| joined(l)).collect();
    assert_eq!(texts.len(), 8);
    assert_eq!(texts[0], ">Group A");
    assert_eq!(texts[1], format!("Country{}  P  W  D  L  GF  GA   GD  TCS  Pts  Fav", " ".repeat(8)));
    assert!(texts[2].starts_with("#1 Mexico"));
    assert!(texts[3].starts_with("#2 South Africa"));
    assert_eq!(texts[4], "");
    assert_eq!(texts[5], " Group B");
}
