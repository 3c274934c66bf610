use footui::app::timeline::TimelineEventKind;
use footui::app::timeline_text::{
    primary_name, split_once_case_insensitive, split_token_to_width, strip_prefix_case_insensitive,
    substitution_names, timeline_event_parts, timeline_side_spans, wrap_parts, wrap_tokens, TextPart, Tone,
};

fn texts(parts: &[TextPart]) -> Vec<String> {
    parts.iter().map(|p| p.text.clone()).collect()
}

#[test]
fn primary_name_stops_at_the_first_marker() {
    assert_eq!(primary_name("MESSI (Argentina) scores!"), "MESSI");
    assert_eq!(primary_name("  Kane is shown a yellow card.  "), "Kane");
    assert_eq!(primary_name("Goal..."), "Goal");
}

#[test]
fn substitutions_name_both_players_in_any_phrasing() {
    assert_eq!(
        substitution_names("Substitution: ALVAREZ (In) comes off the bench to replace MESSI (Out)."),
        ("ALVAREZ".to_string(), "MESSI".to_string())
    );
    assert_eq!(substitution_names("Smith replaced by Jones"), ("Jones".to_string(), "Smith".to_string()));
    assert_eq!(substitution_names("Lee comes on for Park"), ("Lee".to_string(), "Park".to_string()));
    assert_eq!(substitution_names("Something else"), ("Something else".to_string(), "unknown".to_string()));
}

#[test]
fn case_insensitive_helpers() {
    assert_eq!(strip_prefix_case_insensitive("SUBSTITUTION: a", "substitution:"), " a");
    assert_eq!(strip_prefix_case_insensitive("sub", "substitution:"), "sub");
    assert_eq!(
        split_once_case_insensitive("A REPLACES B", " replaces "),
        Some(("A".to_string(), "B".to_string()))
    );
    assert_eq!(split_once_case_insensitive("A and B", " replaces "), None);
}

#[test]
fn tokens_alternate_words_and_spaces() {
    assert_eq!(wrap_tokens("ab  cd e"), vec!["ab", "  ", "cd", " ", "e"]);
    assert!(wrap_tokens("").is_empty());
    assert_eq!(split_token_to_width("abcdefg", 3), vec!["abc", "def", "g"]);
    assert_eq!(split_token_to_width("abc", 5), vec!["abc"]);
    assert_eq!(split_token_to_width("abc", 0), vec!["", "abc"]);
}

#[test]
fn goal_and_substitution_parts() {
    let goal = timeline_event_parts(TimelineEventKind::OwnGoal, "Smith (Team) scores");
    assert_eq!(texts(&goal), vec!["GOAL ", "Smith (OG)"]);
    let sub = timeline_event_parts(TimelineEventKind::Substitution, "Lee replaces Park");
    assert_eq!(texts(&sub), vec!["-> ", "Lee", "\n", "<- ", "Park"]);
    assert_eq!(sub[0].tone, Tone::Incoming);
}

#[test]
fn wrapping_keeps_lines_within_the_column() {
    let parts = vec![
        TextPart { text: "GOAL ".to_string(), tone: Tone::Plain },
        TextPart { text: "Alexander-Arnold scores".to_string(), tone: Tone::Plain },
    ];
    let lines = wrap_parts(&parts, 8);
    for line in &lines {
        let width: usize = line.iter().map(|p| p.text.chars().count()).sum();
        assert!(width <= 8);
    }
    assert_eq!(texts(&lines[0]), vec!["GOAL", " "]);
    let breaks = vec![
        TextPart { text: "a".to_string(), tone: Tone::Plain },
        TextPart { text: "\n".to_string(), tone: Tone::Plain },
        TextPart { text: "b".to_string(), tone: Tone::Plain },
    ];
    let lines = wrap_parts(&breaks, 20);
    assert_eq!(lines.len(), 2);
    let empty = wrap_parts(&[], 10);
    assert_eq!(empty.len(), 1);
    assert_eq!(texts(&empty[0]), vec![""]);
}

#[test]
fn side_spans_pad_towards_the_spine() {
    let line = vec![TextPart { text: "abc".to_string(), tone: Tone::Plain }];
    assert_eq!(texts(&timeline_side_spans(line.clone(), 6, true)), vec!["   ", "abc"]);
    assert_eq!(texts(&timeline_side_spans(line, 6, false)), vec!["abc", "   "]);
}
