use footui::domain::{Confederation, Group, MatchId, MatchStatus, Stage, TeamId, ValueKind};
use footui::fifa::{
    map_match, map_player_stat, map_stages, map_standing_row, map_team, map_timeline_response, FifaLocalizedText,
    FifaMatch, FifaMatchTeam, FifaPlayerInfo, FifaPlayerStat, FifaRankingRow, FifaStadium,
    FifaStandingRow, FifaTeam, FifaTimelineEvent, FifaTimelineResponse, Field,
};

fn en(text: &str) -> Vec<FifaLocalizedText> {
    vec![FifaLocalizedText { locale: Some("en-GB".to_string()), description: Some(text.to_string()) }]
}

fn some(text: &str) -> Option<String> {
    Some(text.to_string())
}

fn bare_match(id_stage: &str, id_match: &str, match_number: i64, date: &str) -> FifaMatch {
    FifaMatch {
        id_stage: id_stage.to_string(),
        id_group: None,
        id_match: id_match.to_string(),
        match_number: Some(match_number),
        stage_name: Vec::new(),
        group_name: Vec::new(),
        date: date.to_string(),
        home: None,
        away: None,
        home_team_score: None,
        away_team_score: None,
        home_team_penalty_score: None,
        away_team_penalty_score: None,
        match_status: None,
        result_type: None,
        match_time: None,
        stadium: None,
        attendance: None,
        winner: None,
        placeholder_a: None,
        placeholder_b: None,
    }
}

#[test]
fn maps_team_payload() {
    let team = FifaTeam {
        id_team: "43922".to_string(),
        id_confederation: "CONMEBOL".to_string(),
        name: en("Argentina"),
        id_country: "ARG".to_string(),
        short_club_name: some("Argentina"),
        abbreviation: some("ARG"),
        picture_url: some("https://api.fifa.com/api/v3/picture/flags-{format}-{size}/ARG"),
    };

    let ranking = FifaRankingRow { id_team: "43922".to_string(), rank: Some(1) };
    let team = map_team(&team, Some(&ranking)).unwrap();

    assert_eq!(team.id, TeamId::from("43922"));
    assert_eq!(team.name, "Argentina");
    assert_eq!(team.abbreviation, "ARG");
    assert_eq!(team.country_code, "ARG");
    assert_eq!(team.confederation, Confederation::Conmebol);
    assert_eq!(team.fifa_rank, Some(1));
    assert!(!team.favorite);
}

#[test]
fn maps_match_payload() {
    let mut payload = bare_match("289273", "400021443", 1, "2026-06-11T19:00:00Z");
    payload.id_group = some("289275");
    payload.stage_name = en("First Stage");
    payload.group_name = en("Group A");
    payload.home = Some(FifaMatchTeam {
        score: Some(2),
        id_team: some("43911"),
        team_name: en("Mexico"),
        short_club_name: some("Mexico"),
        abbreviation: some("MEX"),
    });
    payload.away = Some(FifaMatchTeam {
        score: Some(0),
        id_team: some("43883"),
        team_name: en("South Africa"),
        short_club_name: some("South Africa"),
        abbreviation: some("RSA"),
    });
    payload.home_team_score = Some(2);
    payload.away_team_score = Some(0);
    payload.match_status = Some(0);
    payload.result_type = Some(1);
    payload.match_time = some("98'");
    payload.stadium = Some(FifaStadium { name: en("Mexico City Stadium") });
    payload.attendance = some("80824");
    payload.winner = some("43911");

    let m = map_match(&payload).unwrap();

    assert_eq!(m.id, MatchId::from("400021443"));
    assert_eq!(m.match_number, 1);
    assert_eq!(m.stage_id, Stage::FirstStage.id());
    assert_eq!(m.group_id, Some(Group::A.id()));
    assert_eq!(m.home_team_name, "Mexico");
    assert_eq!(m.away_team_name, "South Africa");
    assert_eq!(m.home_score, Some(2));
    assert_eq!(m.away_score, Some(0));
    assert_eq!(m.status, MatchStatus::FullTime);
    assert_eq!(m.minute.as_deref(), Some("98'"));
    assert_eq!(m.stadium_name.as_deref(), Some("Mexico City Stadium"));
    assert_eq!(m.attendance, Some(80824));
    assert_eq!(m.winner_team_id, Some(TeamId::from("43911")));
}

#[test]
fn maps_future_match_placeholders_without_team_ids() {
    let mut payload = bare_match("289287", "400021500", 73, "2026-06-28T19:00:00Z");
    payload.stage_name = en("Round of 32");
    payload.match_status = Some(1);
    payload.result_type = Some(0);
    payload.placeholder_a = some("Winner Group A");
    payload.placeholder_b = some("Runner-up Group B");

    let m = map_match(&payload).unwrap();

    assert_eq!(m.status, MatchStatus::Scheduled);
    assert_eq!(m.home_team_id, None);
    assert_eq!(m.away_team_id, None);
    assert_eq!(m.home_team_name, "Winner Group A");
    assert_eq!(m.away_team_name, "Runner-up Group B");
}

#[test]
fn maps_standing_payload() {
    let payload = FifaStandingRow {
        id_group: "289275".to_string(),
        id_team: "43911".to_string(),
        group: en("Group A"),
        team: Some(FifaTeam {
            id_team: "43911".to_string(),
            id_confederation: "CONCACAF".to_string(),
            name: en("Mexico"),
            id_country: "MEX".to_string(),
            short_club_name: some("Mexico"),
            abbreviation: some("MEX"),
            picture_url: None,
        }),
        position: Some(2),
        played: Some(1),
        won: Some(1),
        drawn: Some(0),
        lost: Some(0),
        goals_for: Some(2),
        goals_against: Some(0),
        goal_difference: Some(2),
        points: Some(3),
        qualification_status: some("CouldQualify"),
        team_conduct_score: Some(-5),
    };

    let row = map_standing_row(&payload).unwrap();

    assert_eq!(row.group_id, Group::A.id());
    assert_eq!(row.team_id, TeamId::from("43911"));
    assert_eq!(row.team_name, "Mexico");
    assert_eq!(row.position, 2);
    assert_eq!(row.points, 3);
    assert_eq!(row.goal_difference, 2);
    assert_eq!(row.fair_play, Some(-5));
}

#[test]
fn maps_player_stat_payload() {
    let payload = FifaPlayerStat {
        player_info: FifaPlayerInfo {
            id_player: "229397".to_string(),
            id_country: "ARG".to_string(),
            player_name: en("Lionel MESSI"),
            id_team: "43922".to_string(),
        },
        rank: Some(1),
        matches_played: Some(1),
        actual_minutes_played: Some(83),
        goals_scored: Some(3),
        assists: Some(0),
        total_attempts: Some(6),
        attempts_on_target: Some(4),
    };

    let stat = map_player_stat(&payload).unwrap();

    assert_eq!(stat.player_id, "229397");
    assert_eq!(stat.player_name, "Lionel MESSI");
    assert_eq!(stat.team_id, TeamId::from("43922"));
    assert_eq!(stat.country_code, "ARG");
    assert_eq!(stat.rank, 1);
    assert_eq!(stat.goals, 3);
    assert_eq!(stat.assists, 0);
    assert_eq!(stat.attempts_on_target, 4);
}

#[test]
fn maps_timeline_payload() {
    let payload = FifaTimelineResponse {
        id_match: "400021443".to_string(),
        event: vec![FifaTimelineEvent {
            id_team: some("43883"),
            id_player: some("395050"),
            match_minute: some("3'"),
            event_type: Some(18),
            event_description: en("MODIBA (South Africa) commits a foul."),
        }],
    };

    let events = map_timeline_response(&payload).unwrap();

    assert_eq!(events.len(), 1);
    assert_eq!(events[0].match_id, MatchId::from("400021443"));
    assert_eq!(events[0].event_index, 1);
    assert_eq!(events[0].event_type, Some(18));
    assert_eq!(events[0].team_id, Some(TeamId::from("43883")));
    assert_eq!(events[0].player_id.as_deref(), Some("395050"));
    assert_eq!(events[0].minute.as_deref(), Some("3'"));
    assert_eq!(events[0].description.as_deref(), Some("MODIBA (South Africa) commits a foul."));
}

#[test]
fn rejects_unknown_fixed_tournament_ids() {
    let payload = bare_match("999", "400021443", 1, "2026-06-11T19:00:00Z");

    assert!(map_match(&payload).is_err());
}

#[test]
fn payload_fields_are_named_as_fifa_spells_them() {
    assert_eq!(Field::GoalsDiference.name(), "GoalsDiference");
    assert_eq!(Field::IdTeam.name(), "IdTeam");
}

fn ids(values: &[&str]) -> Vec<String> {
    values.iter().map(|v| v.to_string()).collect()
}

#[test]
fn stages_come_back_in_tournament_order() {
    let stages = map_stages(&ids(&["289292", "289273", "289290", "289287", "289291", "289289", "289288"]))
        .expect("known stages");
    assert_eq!(
        stages,
        vec![
            Stage::FirstStage,
            Stage::RoundOf32,
            Stage::RoundOf16,
            Stage::QuarterFinal,
            Stage::SemiFinal,
            Stage::ThirdPlace,
            Stage::Final,
        ]
    );
}

#[test]
fn repeated_stage_ids_are_kept() {
    let stages = map_stages(&ids(&["289290", "289273", "289290"])).expect("known stages");
    assert_eq!(stages, vec![Stage::FirstStage, Stage::SemiFinal, Stage::SemiFinal]);
    assert_eq!(map_stages(&[]).expect("no stages"), Vec::<Stage>::new());
}

#[test]
fn first_unknown_stage_id_is_the_error() {
    let err = map_stages(&ids(&["289273", "999", "888"])).expect_err("unknown stage");
    assert_eq!(err.kind, ValueKind::StageId);
    assert_eq!(err.value, "999");
}
