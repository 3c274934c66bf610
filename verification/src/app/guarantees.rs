//! What holds of the screen state machine across commands: Shift-Tab undoes
//! Tab, scrolling and panning stay within the panel, and a filter toggled
//! twice is back where it was.

use vstd::prelude::*;

use crate::app::selection::{groups_ordered, timeline_ordered};
use crate::domain::standings::{qualification_of, text_option_view, QualificationState, StandingRow};
use crate::repository::AppSnapshot;
use crate::domain::matches::Match;
use crate::domain::team::Team;
use crate::domain::time::LocalDate;
use crate::text::trim;
use crate::app::state::{
    advancing, best_third_ids, block_scroll, match_shown, content_pan_target, detail_pan_target, next_focus, previous_focus, command_holds, App, AppView,
};
use crate::app::views::{
    screen_position, standings_filter_rank, timeline_filter_rank, AppCommand, FocusPane, MatchesFilter, Screen, StandingsFilter,
    TimelineFilter,
};

verus! {

/// Shift-Tab undoes Tab, and Tab undoes Shift-Tab, on every screen whose
/// panels Tab cycles (the bracket walks its columns instead): only the
/// message differs. Home and standings have no detail pane to start from.
#[verifier::spinoff_prover]
#[verifier::rlimit(40)]
pub proof fn shift_tab_undoes_tab(a: App, b: App, c: App, forward: bool)
    requires
        a@.screen != Screen::Knockouts,
        (a@.screen == Screen::Home || a@.screen == Screen::Standings) ==> a@.focus_pane != FocusPane::Detail,
        command_holds(a, b, if forward { AppCommand::FocusNext } else { AppCommand::FocusPrevious }),
        command_holds(b, c, if forward { AppCommand::FocusPrevious } else { AppCommand::FocusNext }),
    ensures
        c@ == (AppView { message: c@.message, ..a@ }),
{
    let f = a@.focus_pane;
    let s = a@.screen;
    assert(previous_focus(s, next_focus(s, f)) == f);
    assert(next_focus(s, previous_focus(s, f)) == f);
}

/// Tab comes back to where it started: after two presses on screens with a
/// single panel (home, standings), after three on the others whose panels
/// it cycles; only the message differs.
#[verifier::spinoff_prover]
#[verifier::rlimit(40)]
pub proof fn tab_cycles_back(a: App, b: App, c: App, d: App)
    requires
        a@.screen != Screen::Knockouts,
        (a@.screen == Screen::Home || a@.screen == Screen::Standings) ==> a@.focus_pane != FocusPane::Detail,
        command_holds(a, b, AppCommand::FocusNext),
        command_holds(b, c, AppCommand::FocusNext),
        command_holds(c, d, AppCommand::FocusNext),
    ensures
        (a@.screen == Screen::Home || a@.screen == Screen::Standings) ==> c@ == (AppView { message: c@.message, ..a@ }),
        !(a@.screen == Screen::Home || a@.screen == Screen::Standings) ==> d@ == (AppView { message: d@.message, ..a@ }),
{
    let f = a@.focus_pane;
    let s = a@.screen;
    assert(next_focus(s, next_focus(s, f)) == f || next_focus(s, next_focus(s, next_focus(s, f))) == f);
}

/// Left and Right never leave the focused panel panned past its limit.
#[verifier::spinoff_prover]
#[verifier::rlimit(40)]
pub proof fn panning_stays_within_limits(a: App, b: App, left: bool, max: u16)
    requires
        a.wf(),
        command_holds(a, b, if left { AppCommand::ScrollLeft { max } } else { AppCommand::ScrollRight { max } }),
    ensures
        a@.focus_pane == FocusPane::Content ==> b@.scroll[screen_position(a@.screen)].content_x <= max,
        a@.focus_pane == FocusPane::Detail ==> b@.scroll[screen_position(a@.screen)].detail_x <= max,
        a@.focus_pane == FocusPane::Unfocused ==> b@.scroll == a@.scroll,
{
    a.lemma_wf_view();
    assert(content_pan_target(a@, left, max) <= max);
    assert(detail_pan_target(a@, left, max) <= max);
}

/// Up and Down never leave the focused panel scrolled past its limit,
/// whether they move a list's cursor or scroll a line.
#[verifier::spinoff_prover]
#[verifier::rlimit(40)]
pub proof fn scrolling_stays_within_limits(a: App, b: App, up: bool, max: u16, visible_lines: u16)
    requires
        a.wf(),
        command_holds(
            a,
            b,
            if up { AppCommand::ScrollUp { max, visible_lines } } else { AppCommand::ScrollDown { max, visible_lines } },
        ),
    ensures
        a@.focus_pane == FocusPane::Content ==> b@.scroll[screen_position(a@.screen)].content <= max,
        a@.focus_pane == FocusPane::Detail ==> b@.scroll[screen_position(a@.screen)].detail <= max,
        a@.focus_pane == FocusPane::Unfocused ==> b@.scroll == a@.scroll,
{
    a.lemma_wf_view();
}

/// Two selections ordered by the same injective rank that hold the same
/// values are the same.
proof fn lemma_ordered_by_members<A>(s: Seq<A>, t: Seq<A>, rank: spec_fn(A) -> int)
    requires
        forall|a: int, b: int| 0 <= a < b < s.len() ==> rank(#[trigger] s[a]) < rank(#[trigger] s[b]),
        forall|a: int, b: int| 0 <= a < b < t.len() ==> rank(#[trigger] t[a]) < rank(#[trigger] t[b]),
        forall|x: A, y: A| #![trigger rank(x), rank(y)] rank(x) == rank(y) ==> x == y,
        forall|x: A| s.contains(x) <==> t.contains(x),
    ensures
        s == t,
    decreases s.len() + t.len(),
{
    if s.len() == 0 {
        if t.len() > 0 {
            assert(t.contains(t[0]));
        }
        assert(t =~= s);
    } else if t.len() == 0 {
        assert(s.contains(s[0]));
    } else {
        assert(s.contains(s[0]));
        assert(t.contains(t[0]));
        let j = choose|j: int| 0 <= j < t.len() && t[j] == s[0];
        let i = choose|i: int| 0 <= i < s.len() && s[i] == t[0];
        if j > 0 {
            assert(rank(t[0]) < rank(t[j]));
        }
        if i > 0 {
            assert(rank(s[0]) < rank(s[i]));
        }
        assert(s[0] == t[0]);
        let s1 = s.drop_first();
        let t1 = t.drop_first();
        assert forall|x: A| s1.contains(x) <==> t1.contains(x) by {
            if s1.contains(x) {
                let k = choose|k: int| 0 <= k < s1.len() && s1[k] == x;
                assert(s[k + 1] == x);
                assert(rank(s[0]) < rank(s[k + 1]));
                assert(t.contains(x));
                let m = choose|m: int| 0 <= m < t.len() && t[m] == x;
                assert(m != 0);
                assert(t1[m - 1] == x);
            }
            if t1.contains(x) {
                let k = choose|k: int| 0 <= k < t1.len() && t1[k] == x;
                assert(t[k + 1] == x);
                assert(rank(t[0]) < rank(t[k + 1]));
                assert(s.contains(x));
                let m = choose|m: int| 0 <= m < s.len() && s[m] == x;
                assert(m != 0);
                assert(s1[m - 1] == x);
            }
        }
        lemma_ordered_by_members(s1, t1, rank);
        assert(s =~= seq![s[0]] + s1);
        assert(t =~= seq![t[0]] + t1);
    }
}

/// Toggling the same kind of timeline event twice gives back the events
/// shown before; only the message and the detail scroll may differ.
#[verifier::spinoff_prover]
#[verifier::rlimit(40)]
pub proof fn timeline_toggle_twice_restores(a: App, b: App, c: App, f: TimelineFilter)
    requires
        a.wf(),
        b.wf(),
        c.wf(),
        command_holds(a, b, AppCommand::ToggleTimelineFilter(f)),
        command_holds(b, c, AppCommand::ToggleTimelineFilter(f)),
    ensures
        c@ == (AppView { message: c@.message, scroll: c@.scroll, ..a@ }),
{
    a.lemma_wf_view();
    b.lemma_wf_view();
    c.lemma_wf_view();
    if a@.screen == Screen::Matches && a@.focus_pane == FocusPane::Detail {
        let rank = |x: TimelineFilter| timeline_filter_rank(x);
        assert forall|x: TimelineFilter, y: TimelineFilter| #![trigger rank(x), rank(y)] rank(x) == rank(y) implies x == y by {
        }
        assert(timeline_ordered(a@.timeline_filters));
        assert(timeline_ordered(c@.timeline_filters));
        lemma_ordered_by_members(c@.timeline_filters, a@.timeline_filters, rank);
    }
}

/// Toggling the same group twice, on the matches or on the standings
/// screen, gives back the groups selected before. (Toggling "all groups"
/// clears the selection instead.)
#[verifier::spinoff_prover]
#[verifier::rlimit(40)]
pub proof fn group_toggle_twice_restores(a: App, b: App, c: App, g: StandingsFilter, on_matches: bool)
    requires
        a.wf(),
        b.wf(),
        c.wf(),
        g != StandingsFilter::AllGroups,
        command_holds(a, b, if on_matches { AppCommand::ToggleMatchGroup(g) } else { AppCommand::ToggleStandingGroup(g) }),
        command_holds(b, c, if on_matches { AppCommand::ToggleMatchGroup(g) } else { AppCommand::ToggleStandingGroup(g) }),
    ensures
        c@.match_groups == a@.match_groups,
        c@.standing_groups == a@.standing_groups,
{
    a.lemma_wf_view();
    b.lemma_wf_view();
    c.lemma_wf_view();
    let rank = |x: StandingsFilter| standings_filter_rank(x);
    assert forall|x: StandingsFilter, y: StandingsFilter| #![trigger rank(x), rank(y)] rank(x) == rank(y) implies x == y by {
    }
    if on_matches && a@.screen == Screen::Matches {
        assert(groups_ordered(a@.match_groups));
        assert(groups_ordered(c@.match_groups));
        lemma_ordered_by_members(c@.match_groups, a@.match_groups, rank);
    }
    if !on_matches && a@.screen == Screen::Standings {
        assert(groups_ordered(a@.standing_groups));
        assert(groups_ordered(c@.standing_groups));
        lemma_ordered_by_members(c@.standing_groups, a@.standing_groups, rank);
    }
}

/// Scrolling to a standings group never passes the furthest scroll, leaves
/// the first group at the top, and otherwise, unless the furthest scroll
/// holds it back, shows the group's heading, header and as many of its rows
/// as fit on the screen.
pub proof fn group_scroll_shows_the_group(start: u16, rows: u16, max_scroll: u16, visible_lines: u16)
    ensures
        block_scroll(start as int, rows as int, max_scroll, visible_lines) <= max_scroll,
        start == 4 ==> block_scroll(start as int, rows as int, max_scroll, visible_lines) == 0,
        ({
            let r = block_scroll(start as int, rows as int, max_scroll, visible_lines) as int;
            let v = if visible_lines > 1 { visible_lines as int } else { 1 };
            let shown = if rows + 2 < v { rows + 2 } else { v };
            start != 4 && start + rows + 2 <= u16::MAX && r < max_scroll ==> r <= start && start + shown <= r + v
        }),
{
}

/// Which teams the standings mark as going through: FIFA's confirmed status
/// decides when there is one; otherwise the group winner and runner-up go
/// through, a third-placed team only when it is among the best third-placed
/// teams (at most eight of them), and no team placed lower.
pub proof fn group_top_two_advance(data: AppSnapshot, row: StandingRow)
    ensures
        qualification_of(text_option_view(row.qualification_status)) == QualificationState::Qualified
            ==> advancing(data, row),
        qualification_of(text_option_view(row.qualification_status)) == QualificationState::Disqualified
            ==> !advancing(data, row),
        qualification_of(text_option_view(row.qualification_status)) == QualificationState::Open && (
        row.position == 1 || row.position == 2) ==> advancing(data, row),
        qualification_of(text_option_view(row.qualification_status)) == QualificationState::Open
            && row.position == 3 ==> (advancing(data, row) <==> best_third_ids(data).contains(row.team_id@)),
        qualification_of(text_option_view(row.qualification_status)) == QualificationState::Open
            && row.position >= 4 ==> !advancing(data, row),
        row.qualification_status is None && (row.position == 1 || row.position == 2) ==> advancing(data, row),
        best_third_ids(data).len() <= 8,
{
}

/// The date filters of the match list split it by the clock: past matches
/// kicked off before now, future ones after, today's fall on today's local
/// date; no match is both past and future; each date filter shows exactly
/// the matches of the full list that meet its condition; and with no group
/// filter, no favourites-only and an empty search every match is listed.
pub proof fn date_filters_split_by_the_clock(
    groups: Seq<StandingsFilter>,
    favorite_only: bool,
    search: Seq<char>,
    teams: Seq<Team>,
    m: Match,
    day: LocalDate,
    now: int,
    today: LocalDate,
)
    ensures
        match_shown((MatchesFilter::Past, groups, favorite_only, search), teams, m, day, now, today) <==> (
        match_shown((MatchesFilter::All, groups, favorite_only, search), teams, m, day, now, today)
            && m.utc_start@ < now),
        match_shown((MatchesFilter::Future, groups, favorite_only, search), teams, m, day, now, today) <==> (
        match_shown((MatchesFilter::All, groups, favorite_only, search), teams, m, day, now, today)
            && m.utc_start@ > now),
        match_shown((MatchesFilter::Today, groups, favorite_only, search), teams, m, day, now, today) <==> (
        match_shown((MatchesFilter::All, groups, favorite_only, search), teams, m, day, now, today)
            && day == today),
        !(match_shown((MatchesFilter::Past, groups, favorite_only, search), teams, m, day, now, today)
            && match_shown((MatchesFilter::Future, groups, favorite_only, search), teams, m, day, now, today)),
        groups.len() == 0 && !favorite_only && trim(search).len() == 0 ==> match_shown(
            (MatchesFilter::All, groups, favorite_only, search),
            teams,
            m,
            day,
            now,
            today,
        ),
{
}

} // verus!
