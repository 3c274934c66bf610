use footui::app::bracket_view::{bracket_lines, CanvasRow, CardPart, CardTone, Look};
use footui::app::{App, KnockoutRoundFilter};
use footui::config::world_cup_2026;
use footui::domain::{
    Confederation, Group, Match, MatchId, MatchStatus, Stage, StandingRow, Team, TeamId, Timestamp,
};
use footui::repository::AppSnapshot;

fn text(rows: &[CanvasRow]) -> String {
    rows.iter().flat_map(|row| row.parts.iter()).map(|part| part.text.as_str()).collect()
}

fn part<'a>(rows: &'a [CanvasRow], content: &str) -> Option<&'a CardPart> {
    rows.iter().flat_map(|row| row.parts.iter()).find(|part| part.text == content)
}

fn sample_team(id: &'static str, name: &'static str, abbreviation: &'static str) -> Team {
    Team {
        id: TeamId::from(id),
        name: name.to_string(),
        abbreviation: abbreviation.to_string(),
        country_code: abbreviation.to_string(),
        confederation: Confederation::Concacaf,
        flag_url_template: None,
        fifa_rank: None,
        favorite: false,
    }
}

fn sample_knockout_match() -> Match {
    Match {
        id: MatchId::from("m81"),
        match_number: 81,
        stage_id: Stage::RoundOf32.id(),
        stage_name: Stage::RoundOf32.name().to_string(),
        group_id: None,
        group_name: None,
        utc_start: Timestamp::parse("2026-07-01T12:00:00Z").expect("timestamp"),
        local_start: None,
        home_team_id: Some(TeamId::from("arg")),
        away_team_id: Some(TeamId::from("fra")),
        home_team_name: "Argentina".to_string(),
        away_team_name: "France".to_string(),
        home_score: Some(3),
        away_score: Some(1),
        home_penalty_score: None,
        away_penalty_score: None,
        status: MatchStatus::FullTime,
        minute: None,
        stadium_name: None,
        attendance: None,
        winner_team_id: Some(TeamId::from("arg")),
    }
}

fn sample_standing(group: Group, team_id: &'static str, team_name: &'static str, position: u8) -> StandingRow {
    StandingRow {
        group_id: group.id(),
        group_name: group.name().to_string(),
        team_id: TeamId::from(team_id),
        team_name: team_name.to_string(),
        position,
        played: 3,
        won: 1,
        drawn: 1,
        lost: 1,
        goals_for: 3,
        goals_against: 3,
        goal_difference: 0,
        points: 4,
        qualification_status: None,
        fair_play: None,
    }
}

#[test]
fn bracket_uses_standings_and_best_third_placeholders() {
    let mut app = App::new(world_cup_2026());
    app.set_snapshot(AppSnapshot {
        teams: vec![sample_team("mex", "Mexico", "MEX"), sample_team("can", "Canada", "CAN")],
        standings: vec![
            sample_standing(Group::A, "mex", "Mexico", 2),
            sample_standing(Group::B, "can", "Canada", 2),
        ],
        ..AppSnapshot::empty()
    });

    let text = text(&bracket_lines(&app, &[KnockoutRoundFilter::RoundOf32]));

    assert!(text.contains("M73"));
    assert!(text.contains("MEX"));
    assert!(text.contains("CAN"));
    assert!(text.contains("3ABCDF"));
}

#[test]
fn group_position_participants_show_slot_and_dim_unconfirmed_teams() {
    let mut confirmed_mexico = sample_standing(Group::E, "mex", "Mexico", 1);
    confirmed_mexico.qualification_status = Some("ConfirmedQualified".to_string());
    let projected_canada = sample_standing(Group::A, "can", "Canada", 1);
    let mut app = App::new(world_cup_2026());
    app.set_snapshot(AppSnapshot {
        teams: vec![sample_team("mex", "Mexico", "MEX"), sample_team("can", "Canada", "CAN")],
        standings: vec![confirmed_mexico, projected_canada],
        ..AppSnapshot::empty()
    });

    let lines = bracket_lines(&app, &[KnockoutRoundFilter::RoundOf32]);
    let text = text(&lines);
    assert!(text.contains("1E-MEX"));
    assert!(text.contains("1A-CAN"));

    let mexico = part(&lines, "1E-MEX").expect("confirmed group winner");
    assert_eq!(mexico.tone, CardTone::Team(Look::Through, false));

    let canada = part(&lines, "1A-CAN").expect("projected group winner");
    assert_eq!(canada.tone, CardTone::Team(Look::Unsettled, false));
}

#[test]
fn group_position_participants_show_disqualified_teams_in_red() {
    let mut disqualified_usa = sample_standing(Group::E, "usa", "USA", 1);
    disqualified_usa.qualification_status = Some("ConfirmedDisqualified".to_string());
    let mut app = App::new(world_cup_2026());
    app.set_snapshot(AppSnapshot {
        teams: vec![sample_team("usa", "USA", "USA")],
        standings: vec![disqualified_usa],
        ..AppSnapshot::empty()
    });

    let lines = bracket_lines(&app, &[KnockoutRoundFilter::RoundOf32]);
    let usa = part(&lines, "1E-USA").expect("disqualified group seed");

    assert_eq!(usa.tone, CardTone::Team(Look::Eliminated, false));
}

#[test]
fn bracket_renders_mirrored_left_and_right_rounds() {
    let app = App::new(world_cup_2026());
    let text = text(&bracket_lines(&app, &KnockoutRoundFilter::selectable()));

    assert_eq!(text.matches("Round of 32").count(), 2);
    assert!(text.contains("M74"));
    assert!(text.contains("M76"));
    assert!(text.find("Final / Third") < text.rfind("Round of 32"));
}

#[test]
fn single_round_selection_keeps_left_and_right_sides() {
    let app = App::new(world_cup_2026());
    let text = text(&bracket_lines(&app, &[KnockoutRoundFilter::RoundOf32]));

    assert_eq!(text.matches("Round of 32").count(), 2);
    assert!(text.contains("M74"));
    assert!(text.contains("M76"));
}

#[test]
fn bracket_right_aligns_short_upstream_placeholders() {
    let app = App::new(world_cup_2026());
    let lines = bracket_lines(&app, &[KnockoutRoundFilter::Final]);
    let text = text(&lines);

    assert!(text.contains("W101 |"));
    assert!(text.contains("W102 |"));
    assert!(!text.contains("W101  |"));
    assert!(!text.contains("W102  |"));

    let placeholder = part(&lines, "W101").expect("upstream placeholder");
    assert_eq!(placeholder.tone, CardTone::Team(Look::Unknown, false));
}

#[test]
fn final_and_third_place_use_distinct_border_colors_and_score_placeholders() {
    let app = App::new(world_cup_2026());
    let final_lines = bracket_lines(&app, &[KnockoutRoundFilter::Final]);
    let final_border = part(&final_lines, "|").expect("final border");
    assert_eq!(final_border.tone, CardTone::Frame(KnockoutRoundFilter::Final));

    let third_lines = bracket_lines(&app, &[KnockoutRoundFilter::ThirdPlace]);
    let third_border = part(&third_lines, "|").expect("third-place border");
    assert_eq!(third_border.tone, CardTone::Frame(KnockoutRoundFilter::ThirdPlace));

    let placeholder_score = part(&final_lines, "-").expect("score placeholder");
    assert_eq!(placeholder_score.tone, CardTone::NoScore);
}

#[test]
fn bracket_renders_scores_and_favorite_underline_without_yellow_text() {
    let mut france = sample_team("fra", "France", "FRA");
    france.favorite = true;
    let mut app = App::new(world_cup_2026());
    app.set_snapshot(AppSnapshot {
        teams: vec![sample_team("arg", "Argentina", "ARG"), france],
        matches: vec![sample_knockout_match()],
        ..AppSnapshot::empty()
    });

    let lines = bracket_lines(&app, &[KnockoutRoundFilter::RoundOf32]);
    let text = text(&lines);
    assert!(text.contains("ARG"));
    assert!(text.contains("FRA"));
    assert!(text.contains("3"));
    assert!(text.contains("1"));

    let arg = part(&lines, "ARG").expect("winner team code");
    assert_eq!(arg.tone, CardTone::Team(Look::Winner, false));

    let arg_score = part(&lines, "3").expect("winner score");
    assert_eq!(arg_score.tone, CardTone::Score(Look::Winner, false));

    let france = part(&lines, "FRA").expect("favorite team code");
    assert_ne!(france.tone, CardTone::Frame(KnockoutRoundFilter::Final));
    assert!(matches!(france.tone, CardTone::Team(_, true)));
}

#[test]
fn cards_stand_at_their_column_and_row() {
    let app = App::new(world_cup_2026());
    let lines = bracket_lines(&app, &[KnockoutRoundFilter::Final]);
    // The title row, then the final's card three lines high at its row.
    assert_eq!(text(&lines[..1]), "      Final / Third      ");
    assert_eq!(lines[1..].iter().filter(|row| row.width > 0).count(), 3);
    assert!(lines[1..].iter().all(|row| row.width == 0 || row.width == 25));
    assert_eq!(text(&lines[13..14]), "|         M104          |");
}
