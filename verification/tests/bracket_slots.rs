use footui::app::participant::{resolve_participant, resolve_upstream_result, side_won, Participant, Side, UpstreamResult};
use footui::app::{App, KnockoutRoundFilter};
use footui::bracket::{match_def, mirrored_columns, ParticipantSource};
use footui::config::world_cup_2026;
use footui::domain::{
    Confederation, Group, Match, MatchId, MatchStatus, QualificationState, StageId, StandingRow, Team, TeamId,
    Timestamp,
};
use footui::repository::AppSnapshot;

fn team(id: &str, name: &str, code: &str) -> Team {
    Team {
        id: TeamId::from(id),
        name: name.to_string(),
        abbreviation: code.to_string(),
        country_code: code.to_string(),
        confederation: Confederation::Concacaf,
        flag_url_template: None,
        fifa_rank: None,
        favorite: false,
    }
}

fn standing(group: Group, team_id: &str, team_name: &str, position: u8) -> StandingRow {
    StandingRow {
        group_id: group.id(),
        group_name: group.name().to_string(),
        team_id: TeamId::from(team_id),
        team_name: team_name.to_string(),
        position,
        played: 3,
        won: 2,
        drawn: 0,
        lost: 1,
        goals_for: 4,
        goals_against: 2,
        goal_difference: 2,
        points: 6,
        qualification_status: None,
        fair_play: None,
    }
}

fn knockout_match(number: u16, home: Option<&str>, away: Option<&str>) -> Match {
    Match {
        id: MatchId::from(format!("m{number}").as_str()),
        match_number: number,
        stage_id: StageId::from("289287"),
        stage_name: "Round of 32".to_string(),
        group_id: None,
        group_name: None,
        utc_start: Timestamp::parse("2026-06-28T19:00:00Z").expect("timestamp"),
        local_start: None,
        home_team_id: home.map(TeamId::from),
        away_team_id: away.map(TeamId::from),
        home_team_name: "Home side".to_string(),
        away_team_name: "Away side".to_string(),
        home_score: None,
        away_score: None,
        home_penalty_score: None,
        away_penalty_score: None,
        status: MatchStatus::Scheduled,
        minute: None,
        stadium_name: None,
        attendance: None,
        winner_team_id: None,
    }
}

#[test]
fn group_slot_names_the_team_holding_the_position() {
    let mut mexico = standing(Group::E, "mex", "Mexico", 1);
    mexico.qualification_status = Some("ConfirmedQualified".to_string());
    let mut app = App::new(world_cup_2026());
    app.set_snapshot(AppSnapshot {
        teams: vec![team("mex", "Mexico", "MEX"), team("can", "Canada", "CAN")],
        standings: vec![mexico, standing(Group::A, "can", "Canada", 1)],
        ..AppSnapshot::empty()
    });

    let p = resolve_participant(&app, None, Side::Home, ParticipantSource::GroupPosition { group: Group::E, position: 1 });
    assert_eq!(p.code, "1E-MEX");
    assert_eq!(p.qualification_state, QualificationState::Qualified);
    assert_eq!(p.team_id, Some(TeamId::from("mex")));
    assert!(!p.winner);

    let p = resolve_participant(&app, None, Side::Home, ParticipantSource::GroupPosition { group: Group::A, position: 1 });
    assert_eq!(p.code, "1A-CAN");
    assert_eq!(p.qualification_state, QualificationState::Open);
}

#[test]
fn empty_slots_show_where_their_team_comes_from() {
    let app = App::new(world_cup_2026());

    let group = resolve_participant(&app, None, Side::Home, ParticipantSource::GroupPosition { group: Group::B, position: 2 });
    assert_eq!(group.code, "2B");
    assert_eq!(group.team_id, None);

    let third = resolve_participant(&app, None, Side::Away, match_def(74).away);
    assert!(third.code.starts_with('3'));
    assert_eq!(third.qualification_state, QualificationState::Open);

    let winner = resolve_participant(&app, None, Side::Home, ParticipantSource::Winner(73));
    assert_eq!(winner.code, "W73");
    let runner_up = resolve_participant(&app, None, Side::Home, ParticipantSource::RunnerUp(101));
    assert_eq!(runner_up.code, "RU101");
}

#[test]
fn best_third_slot_lists_its_groups() {
    let app = App::new(world_cup_2026());
    let p = resolve_participant(
        &app,
        None,
        Side::Away,
        ParticipantSource::BestThird([Group::A, Group::B, Group::C, Group::D, Group::F]),
    );
    assert_eq!(p.code, "3ABCDF");
}

#[test]
fn earlier_match_sends_its_winner_and_runner_up() {
    let mut m73 = knockout_match(73, Some("mex"), Some("can"));
    m73.winner_team_id = Some(TeamId::from("can"));
    let mut app = App::new(world_cup_2026());
    app.set_snapshot(AppSnapshot {
        teams: vec![team("mex", "Mexico", "MEX"), team("can", "Canada", "CAN")],
        matches: vec![m73],
        ..AppSnapshot::empty()
    });

    let winner = resolve_upstream_result(&app, 73, UpstreamResult::Winner, "W73".to_string());
    assert_eq!(winner.code, "CAN");
    assert_eq!(winner.qualification_state, QualificationState::Qualified);
    let runner_up = resolve_upstream_result(&app, 73, UpstreamResult::RunnerUp, "RU73".to_string());
    assert_eq!(runner_up.code, "MEX");
    let unknown = resolve_upstream_result(&app, 80, UpstreamResult::Winner, "W80".to_string());
    assert_eq!(unknown.code, "W80");
}

#[test]
fn named_side_carries_score_and_shootout_winner() {
    let mut m = knockout_match(89, Some("mex"), Some("can"));
    m.home_score = Some(1);
    m.away_score = Some(1);
    m.home_penalty_score = Some(3);
    m.away_penalty_score = Some(4);
    let app = App::new(world_cup_2026());

    let home = resolve_participant(&app, Some(&m), Side::Home, ParticipantSource::Winner(73));
    let away = resolve_participant(&app, Some(&m), Side::Away, ParticipantSource::Winner(74));
    assert_eq!(home.score, Some(1));
    assert!(!home.winner);
    assert!(away.winner);
    assert!(side_won(&m, Side::Away, &TeamId::from("can")));
    assert!(!side_won(&m, Side::Home, &TeamId::from("mex")));
}

#[test]
fn placeholder_names_no_team() {
    let p = Participant::placeholder("W90".to_string());
    assert_eq!(p.code, "W90");
    assert_eq!(p.score, None);
    assert!(!p.favorite);
}

fn listed(rounds: &[KnockoutRoundFilter]) -> Vec<u16> {
    mirrored_columns(rounds).into_iter().flat_map(|c| c.matches).collect()
}

#[test]
fn bracket_lists_each_knockout_match_once() {
    let mut all = listed(&[KnockoutRoundFilter::RoundOf32, KnockoutRoundFilter::RoundOf16, KnockoutRoundFilter::QuarterFinal, KnockoutRoundFilter::SemiFinal, KnockoutRoundFilter::ThirdPlace, KnockoutRoundFilter::Final]);
    assert_eq!(all.len(), 32);
    all.sort();
    assert_eq!(all, (73..=104).collect::<Vec<u16>>());

    let mut semis_and_final = listed(&[KnockoutRoundFilter::Final, KnockoutRoundFilter::SemiFinal, KnockoutRoundFilter::SemiFinal]);
    semis_and_final.sort();
    assert_eq!(semis_and_final, vec![101, 102, 104]);
    assert_eq!(listed(&[KnockoutRoundFilter::SemiFinal, KnockoutRoundFilter::Final]), listed(&[KnockoutRoundFilter::Final, KnockoutRoundFilter::SemiFinal, KnockoutRoundFilter::SemiFinal]));
}
