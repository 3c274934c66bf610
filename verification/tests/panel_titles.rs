use footui::app::time_label::relative_time_label;
use footui::domain::Timestamp;
use footui::panel::{max_horizontal_scroll, max_scroll, max_scroll_for_visible, scroll_title, PanelMetrics};

#[test]
fn titles_hint_the_ways_left_to_scroll() {
    assert_eq!(scroll_title("Matches", 0, 0), "Matches");
    assert_eq!(scroll_title("Matches", 0, 5), "Matches ↓ more");
    assert_eq!(scroll_title("Matches", 2, 5), "Matches ↑↓ more");
    assert_eq!(scroll_title("Matches", 5, 5), "Matches ↑ more");
}

#[test]
fn scroll_limits_leave_the_last_page_visible() {
    assert_eq!(max_scroll_for_visible(30, 10), 20);
    assert_eq!(max_scroll_for_visible(5, 10), 0);
    assert_eq!(max_scroll_for_visible(200_000, 0), u16::MAX);
    assert_eq!(max_scroll(30, 12), 20);
}

#[test]
fn merged_metrics_take_the_larger_figures() {
    let a = PanelMetrics { content_max_scroll: 3, detail_visible_lines: 9, ..PanelMetrics::default() };
    let b = PanelMetrics { content_max_scroll: 7, detail_visible_lines: 2, ..PanelMetrics::default() };
    let m = a.merge(b);
    assert_eq!(m.content_max_scroll, 7);
    assert_eq!(m.detail_visible_lines, 9);
    assert_eq!(m, b.merge(a));
}

#[test]
fn relative_labels_round_to_the_nearest_second() {
    let now = Timestamp::parse("2026-06-19T12:00:00Z").expect("timestamp");
    let soon = Timestamp::parse("2026-06-19T12:00:30Z").expect("timestamp");
    let hour = Timestamp::parse("2026-06-19T13:30:00Z").expect("timestamp");
    let just = Timestamp::parse("2026-06-19T11:59:59.4Z").expect("timestamp");
    assert_eq!(relative_time_label(soon, now), "in 30s");
    assert_eq!(relative_time_label(hour, now), "in 1h30m");
    assert_eq!(relative_time_label(just, now), "1s ago");
    assert_eq!(relative_time_label(now, now), "in 1s");
    let almost = Timestamp::parse("2026-06-19T11:59:59.6Z").expect("timestamp");
    assert_eq!(relative_time_label(almost, now), "in 1s");
}

#[test]
fn horizontal_scroll_reaches_the_widest_line_inside_the_border() {
    assert_eq!(max_horizontal_scroll(&[10, 42, 7], 22), 22);
    assert_eq!(max_horizontal_scroll(&[10, 12], 40), 0);
    assert_eq!(max_horizontal_scroll(&[], 1), 0);
    assert_eq!(max_horizontal_scroll(&[5], 1), 5);
    assert_eq!(max_horizontal_scroll(&[100_000], 2), u16::MAX);
}
