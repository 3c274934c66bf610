use footui::app::participant::Side;
use footui::app::timeline::{
    card_totals_for_team, clean_timeline_description, score_label, timeline_event_kind,
    timeline_event_matches_filter, timeline_event_matches_filters, timeline_event_side, timeline_side_width,
    winning_side, TimelineEventKind, TimelineSide,
};
use footui::app::timeline_lines::{
    match_detail_header_line, timeline_event_lines, timeline_marker_line, timeline_spine_line,
};
use footui::app::App;
use footui::config::world_cup_2026;
use footui::app::timeline_text::{TextPart, Tone};
use footui::app::TimelineFilter;
use footui::domain::{Group, Match, MatchId, MatchStatus, StageId, TeamId, TimelineEvent, Timestamp};

fn event(description: &'static str) -> TimelineEvent {
    TimelineEvent {
        match_id: MatchId::from("4001"),
        event_index: 1,
        event_type: Some(7),
        team_id: None,
        player_id: None,
        minute: Some("77'".to_string()),
        description: Some(description.to_string()),
    }
}

fn typed(event_type: u16, team: Option<&str>, description: &'static str) -> TimelineEvent {
    TimelineEvent { event_type: Some(event_type), team_id: team.map(TeamId::from), ..event(description) }
}

fn sample_match() -> Match {
    Match {
        id: MatchId::from("4001"),
        match_number: 1,
        stage_id: StageId::from("289273"),
        stage_name: "First Stage".to_string(),
        group_id: Some(Group::A.id()),
        group_name: Some("Group A".to_string()),
        utc_start: Timestamp::parse("2026-06-11T19:00:00Z").expect("timestamp"),
        local_start: None,
        home_team_id: Some(TeamId::from("mex")),
        away_team_id: Some(TeamId::from("rsa")),
        home_team_name: "Mexico".to_string(),
        away_team_name: "South Africa".to_string(),
        home_score: Some(2),
        away_score: Some(1),
        home_penalty_score: None,
        away_penalty_score: None,
        status: MatchStatus::FullTime,
        minute: None,
        stadium_name: None,
        attendance: None,
        winner_team_id: None,
    }
}

#[test]
fn timeline_filters_var_goal_review_noise() {
    assert!(!timeline_event_matches_filter(&event("Goal awarded following VAR Review."), TimelineFilter::All));
    assert!(!timeline_event_matches_filter(&event("Goal disallowed following VAR Review."), TimelineFilter::All));
}

#[test]
fn descriptions_decide_half_time_and_own_goals() {
    assert_eq!(timeline_event_kind(&event("Half-time whistle")), Some(TimelineEventKind::HalfTime));
    assert_eq!(timeline_event_kind(&typed(0, None, "Own Goal by Smith")), Some(TimelineEventKind::OwnGoal));
    assert_eq!(timeline_event_kind(&typed(2, None, "Booked")), Some(TimelineEventKind::YellowCard));
    assert_eq!(timeline_event_kind(&typed(18, None, "A foul")), None);
    assert_eq!(timeline_event_kind(&event("Drinks break")), None);
}

#[test]
fn goals_filter_keeps_half_time_marker() {
    let half_time = event("End of first half");
    assert!(timeline_event_matches_filter(&half_time, TimelineFilter::Goals));
    assert!(!timeline_event_matches_filter(&half_time, TimelineFilter::RedCards));
    assert!(timeline_event_matches_filters(&typed(5, None, "Change"), &[]));
    assert!(timeline_event_matches_filters(&typed(5, None, "Change"), &[TimelineFilter::Goals, TimelineFilter::Substitutions]));
    assert!(!timeline_event_matches_filters(&typed(5, None, "Change"), &[TimelineFilter::Goals]));
}

#[test]
fn descriptions_are_flattened_and_trimmed() {
    assert_eq!(clean_timeline_description("  Goal\nby Messi  "), "Goal by Messi");
}

#[test]
fn cards_are_counted_per_team() {
    let events = vec![
        typed(2, Some("mex"), "Yellow"),
        typed(2, Some("mex"), "Yellow"),
        typed(3, Some("mex"), "Red"),
        typed(2, Some("rsa"), "Yellow"),
    ];
    let refs: Vec<&TimelineEvent> = events.iter().collect();
    let mex = TeamId::from("mex");
    let totals = card_totals_for_team(&refs, Some(&mex));
    assert_eq!((totals.red, totals.yellow), (1, 2));
    let none = card_totals_for_team(&refs, None);
    assert_eq!((none.red, none.yellow), (0, 0));
}

#[test]
fn own_goals_stand_on_the_other_side() {
    let m = sample_match();
    let own_goal = typed(0, Some("mex"), "own goal");
    assert_eq!(timeline_event_side(&m, &own_goal, TimelineEventKind::OwnGoal), TimelineSide::Away);
    assert_eq!(timeline_event_side(&m, &typed(0, Some("rsa"), "Goal"), TimelineEventKind::Goal), TimelineSide::Away);
    assert_eq!(timeline_event_side(&m, &typed(0, Some("mex"), "Goal"), TimelineEventKind::Goal), TimelineSide::Home);
    assert_eq!(timeline_event_side(&m, &event("Kick-off"), TimelineEventKind::Key), TimelineSide::Neutral);
}

#[test]
fn side_width_and_score_label() {
    assert_eq!(timeline_side_width(80), 31);
    assert_eq!(timeline_side_width(10), 8);
    let m = sample_match();
    assert_eq!(score_label(&m), "2-1");
    assert_eq!(winning_side(&m), Some(Side::Home));
    let pending = Match { home_score: None, ..sample_match() };
    assert_eq!(score_label(&pending), "vs");
}

fn joined(parts: &[TextPart]) -> String {
    parts.iter().map(|part| part.text.as_str()).collect()
}

#[test]
fn half_time_marker_spans_the_panel() {
    let line = timeline_marker_line(20, " HALF TIME ");
    assert_eq!(joined(&line), "---- HALF TIME -----");
    assert!(line.iter().all(|part| part.tone == Tone::Marker));
    assert_eq!(joined(&timeline_marker_line(4, " HALF TIME ")), " HALF TIME ");
}

#[test]
fn spine_stands_after_the_home_side_and_its_minute_band() {
    let line = timeline_spine_line(60);
    assert_eq!(joined(&line), format!("{}|", " ".repeat(29)));
    assert_eq!(line[1].tone, Tone::Axis);
}

#[test]
fn home_events_stand_left_of_the_spine_and_away_events_right() {
    let m = sample_match();
    let home = timeline_event_lines(&m, &typed(0, Some("mex"), "Goal! Raul Jimenez"), 100);
    assert_eq!(home.len(), 1);
    let text = joined(&home[0]);
    assert!(!text.starts_with(" "));
    assert!(text.contains("    77' |"));
    assert!(text.ends_with(&format!("|{}", " ".repeat(49))));

    let away = timeline_event_lines(&m, &typed(2, Some("rsa"), "Yellow card for Teboho Mokoena"), 100);
    assert_eq!(away.len(), 1);
    let text = joined(&away[0]);
    assert!(text.starts_with(&format!("{}|    77' ", " ".repeat(49))));

    let half = timeline_event_lines(&m, &event("Half-time whistle"), 30);
    assert_eq!(half.len(), 1);
    assert_eq!(joined(&half[0]), "--------- HALF TIME ----------");
}

#[test]
fn match_header_puts_teams_and_cards_left_and_context_right() {
    let app = App::new(world_cup_2026());
    let m = sample_match();
    let red = typed(3, Some("rsa"), "Red card for Teboho Mokoena");
    let events = vec![&red];
    let parts = match_detail_header_line(&app, &m, 80, &events);
    let text = joined(&parts);
    assert!(text.starts_with("MEX 2-1 SOU | (0-0) / ("));
    assert!(text.ends_with(" | full-time"));
    assert!(text.contains("Group A | "));
    assert_eq!(text.chars().count(), 80);
    assert_eq!(parts[1].tone, Tone::Score);
}
