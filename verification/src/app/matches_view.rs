//! The matches list as lines of text: its title with how many matches it
//! shows, the column heads, and one row per match, shaded by day.

use vstd::prelude::*;

use crate::app::participant::{team_option_view, Side};
use crate::app::state::{has_favorite_side, match_status_text, selected_entry, team_code_text, App};
use crate::app::time_label::{is_local_day, is_local_stamp, relative_text};
use crate::app::timeline::{match_context, score_label, score_text, winner_side, winning_side};
use crate::app::views::TimeMode;
use crate::domain::matches::{Match, MatchStatus};
use crate::panel::{cell_text, time_cell};
use crate::text::{
    concat2, concat3, decimal, owned, pad_center, pad_center_text, pad_right, pad_right_text, push_decimal, push_text,
    same_text, truncate, truncated,
};

verus! {

/// What a piece of the matches list is, which decides its colour.
#[derive(Clone, Copy, Debug, Eq, PartialEq, Structural)]
pub enum ListTone {
    /// The column heads.
    Heading,
    /// The kick-off time, in the shade of its day, stressed when selected.
    Time(bool, bool),
    /// The group or stage, stressed when selected.
    Context(bool),
    /// A team's code, marked when it won, stressed when selected.
    Team(bool, bool),
    /// The score, stressed when selected.
    Score(bool),
    /// The status, stressed when selected.
    Status(MatchStatus, bool),
    /// The favourite mark or its blank, and whether the row is selected.
    Favorite(bool, bool),
    /// Blank space.
    Plain,
}

/// A piece of the matches list with its tone.
#[derive(Clone, Debug)]
pub struct ListCell {
    pub text: String,
    pub tone: ListTone,
}

pub open spec fn list_cell_view(c: ListCell) -> (Seq<char>, ListTone) {
    (c.text@, c.tone)
}

pub open spec fn list_cells_view(v: Seq<ListCell>) -> Seq<(Seq<char>, ListTone)> {
    v.map_values(|c: ListCell| list_cell_view(c))
}

pub open spec fn list_lines_view(v: Seq<Vec<ListCell>>) -> Seq<Seq<(Seq<char>, ListTone)>> {
    v.map_values(|l: Vec<ListCell>| list_cells_view(l@))
}

/// The column heads of the list.
pub open spec fn heading_row() -> Seq<(Seq<char>, ListTone)> {
    seq![
        (pad_right("Time"@, 18) + " "@, ListTone::Heading),
        (pad_right("Stage/Group"@, 18), ListTone::Heading),
        (pad_right("Result"@, 16), ListTone::Heading),
        (pad_right("Status"@, 10), ListTone::Heading),
        ("Fav"@, ListTone::Heading),
    ]
}

/// A match's row: its kick-off (`time_label`), group or stage, the two
/// teams around the score, its status and the favourite mark.
pub open spec fn match_row(app: App, m: Match, time_label: Seq<char>, selected: bool, shade: bool) -> Seq<
    (Seq<char>, ListTone),
> {
    let home = team_code_text(app.data().teams@, team_option_view(m.home_team_id), m.home_team_name@);
    let away = team_code_text(app.data().teams@, team_option_view(m.away_team_id), m.away_team_name@);
    let context = match m.group_name {
        Some(g) => g@,
        None => m.stage_name@,
    };
    let favorite = has_favorite_side(app.data().teams@, m);
    seq![
        (cell_text(time_label, 18, selected) + " "@, ListTone::Time(shade, selected)),
        (pad_right(truncated(context, 18), 18), ListTone::Context(selected)),
        (pad_right(home, 4), ListTone::Team(winner_side(m) == Some(Side::Home), selected)),
        (" "@ + pad_center(score_text(m), 5) + " "@, ListTone::Score(selected)),
        (pad_right(away, 4), ListTone::Team(winner_side(m) == Some(Side::Away), selected)),
        (" "@, ListTone::Plain),
        (pad_right(truncated(match_status_text(m.status), 10), 10), ListTone::Status(m.status, selected)),
        (if favorite { " * "@ } else { "   "@ }, ListTone::Favorite(favorite, selected)),
    ]
}

/// Which rows take the second shade: the shade changes each time the day
/// changes from one row to the next, the first row taking the first.
pub open spec fn day_shades(days: Seq<Seq<char>>) -> Seq<bool>
    decreases days.len(),
{
    if days.len() == 0 {
        Seq::empty()
    } else if days.len() == 1 {
        seq![false]
    } else {
        let before = day_shades(days.drop_last());
        before.push(if days.last() != days[days.len() - 2] { !before.last() } else { before.last() })
    }
}

proof fn lemma_day_shades_len(days: Seq<Seq<char>>)
    ensures
        day_shades(days).len() == days.len(),
    decreases days.len(),
{
    if days.len() > 1 {
        lemma_day_shades_len(days.drop_last());
    }
}

/// The listed matches, in the list's order.
pub open spec fn listed_matches(app: App) -> Seq<Match> {
    app.matches_listed().map_values(|p: usize| app.data().matches@[p as int])
}

/// The identifier of the selected match, if any.
pub open spec fn selected_id(app: App) -> Option<Seq<char>> {
    match selected_entry(app.matches_listed(), app@.match_cursor) {
        Some(p) => Some(app.data().matches@[p as int].id@),
        None => None,
    }
}

/// The matches of `ms` whose identifier is `id`.
pub open spec fn with_id(ms: Seq<Match>, id: Option<Seq<char>>) -> Seq<Match>
    decreases ms.len(),
{
    if ms.len() == 0 {
        Seq::empty()
    } else {
        let rest = with_id(ms.drop_last(), id);
        if id == Some(ms.last().id@) {
            rest.push(ms.last())
        } else {
            rest
        }
    }
}

/// The rows the list shows: every listed match, or only the selected one
/// while its details are open.
pub open spec fn shown_matches(app: App) -> Seq<Match> {
    if app@.detail_open {
        with_id(listed_matches(app), selected_id(app))
    } else {
        listed_matches(app)
    }
}

/// The list's title: how many matches it shows of how many are listed.
pub open spec fn list_title(app: App) -> Seq<char> {
    "Matches ("@ + decimal(shown_matches(app).len()) + "/"@ + decimal(listed_matches(app).len()) + ")"@
}

/// The list's lines, each shown match having the kick-off and day of
/// `labels`: a note when nothing is stored or nothing is listed, else the
/// column heads and a row per shown match.
pub open spec fn list_lines(app: App, labels: Seq<(Seq<char>, Seq<char>)>) -> Seq<Seq<(Seq<char>, ListTone)>> {
    if app.data().matches@.len() == 0 {
        seq![
            seq![("No matches stored yet."@, ListTone::Plain)],
            seq![("Press s in global scope from this screen to sync fixtures from FIFA."@, ListTone::Plain)],
        ]
    } else if listed_matches(app).len() == 0 {
        seq![seq![("No matches match the current filters."@, ListTone::Plain)]]
    } else {
        let shown = shown_matches(app);
        let shades = day_shades(labels.map_values(|l: (Seq<char>, Seq<char>)| l.1));
        seq![heading_row()] + Seq::new(
            shown.len(),
            |k: int| match_row(app, shown[k], labels[k].0, selected_id(app) == Some(shown[k].id@), shades[k]),
        )
    }
}

/// Kick-off and day labels, one per shown match: the kick-off reads how far
/// it lies from the clock reading in relative time mode, and its local date
/// and time otherwise; the day is its local date.
pub open spec fn labels_fit(app: App, labels: Seq<(Seq<char>, Seq<char>)>) -> bool {
    &&& labels.len() == shown_matches(app).len()
    &&& app@.time_mode == TimeMode::Relative ==> forall|k: int|
        0 <= k < labels.len() ==> #[trigger] labels[k].0 == relative_text(shown_matches(app)[k].utc_start@, app.clock())
    &&& app@.time_mode == TimeMode::Absolute ==> forall|k: int| 0 <= k < labels.len() ==> is_local_stamp(#[trigger] labels[k].0)
    &&& forall|k: int| 0 <= k < labels.len() ==> is_local_day(#[trigger] labels[k].1)
}

/// The matches list: its title and its lines.
pub struct MatchList {
    pub title: String,
    pub lines: Vec<Vec<ListCell>>,
}

fn list_cell(text: String, tone: ListTone) -> (r: ListCell)
    ensures
        list_cell_view(r) == (text@, tone),
{
    ListCell { text, tone }
}

fn note(text: &str) -> (r: Vec<ListCell>)
    ensures
        list_cells_view(r@) == seq![(text@, ListTone::Plain)],
{
    let mut r: Vec<ListCell> = Vec::new();
    r.push(list_cell(owned(text), ListTone::Plain));
    assert(list_cells_view(r@) =~= seq![(text@, ListTone::Plain)]);
    r
}

/// The column heads of the list.
pub fn heading_line() -> (r: Vec<ListCell>)
    ensures
        list_cells_view(r@) == heading_row(),
{
    let mut r: Vec<ListCell> = Vec::new();
    r.push(list_cell(concat2(pad_right_text("Time", 18).as_str(), " "), ListTone::Heading));
    r.push(list_cell(pad_right_text("Stage/Group", 18), ListTone::Heading));
    r.push(list_cell(pad_right_text("Result", 16), ListTone::Heading));
    r.push(list_cell(pad_right_text("Status", 10), ListTone::Heading));
    r.push(list_cell(owned("Fav"), ListTone::Heading));
    assert(list_cells_view(r@) =~= heading_row());
    r
}

/// The row of match `m`, its kick-off reading `time_label`.
pub fn match_row_line(app: &App, m: &Match, time_label: &str, selected: bool, shade: bool) -> (r: Vec<ListCell>)
    ensures
        list_cells_view(r@) == match_row(*app, *m, time_label@, selected, shade),
{
    let home = app.match_team_code(m.home_team_id.as_ref(), m.home_team_name.as_str());
    let away = app.match_team_code(m.away_team_id.as_ref(), m.away_team_name.as_str());
    let context = match_context(m);
    let score = score_label(m);
    let status = app.match_status_label(m.status);
    let favorite = app.match_includes_favorite_team(m);
    let home_won = match winning_side(m) {
        Some(Side::Home) => true,
        _ => false,
    };
    let away_won = match winning_side(m) {
        Some(Side::Away) => true,
        _ => false,
    };
    let mut r: Vec<ListCell> = Vec::new();
    r.push(list_cell(concat2(time_cell(time_label, 18, selected).as_str(), " "), ListTone::Time(shade, selected)));
    r.push(list_cell(pad_right_text(truncate(context.as_str(), 18).as_str(), 18), ListTone::Context(selected)));
    r.push(list_cell(pad_right_text(home.as_str(), 4), ListTone::Team(home_won, selected)));
    r.push(list_cell(concat3(" ", pad_center_text(score.as_str(), 5).as_str(), " "), ListTone::Score(selected)));
    r.push(list_cell(pad_right_text(away.as_str(), 4), ListTone::Team(away_won, selected)));
    r.push(list_cell(owned(" "), ListTone::Plain));
    r.push(list_cell(pad_right_text(truncate(status, 10).as_str(), 10), ListTone::Status(m.status, selected)));
    r.push(
        list_cell(
            if favorite {
                owned(" * ")
            } else {
                owned("   ")
            },
            ListTone::Favorite(favorite, selected),
        ),
    );
    assert(list_cells_view(r@) =~= match_row(*app, *m, time_label@, selected, shade));
    r
}

fn list_title_text(shown: usize, listed: usize) -> (r: String)
    ensures
        r@ == "Matches ("@ + decimal(shown as nat) + "/"@ + decimal(listed as nat) + ")"@,
{
    let mut r = owned("Matches (");
    push_decimal(&mut r, shown as u64);
    push_text(&mut r, "/");
    push_decimal(&mut r, listed as u64);
    push_text(&mut r, ")");
    r
}

/// The matches screen's list: the title with its counts, and the lines; the
/// kick-off and day of each row are read as the display shows them.
#[verifier::spinoff_prover]
#[verifier::rlimit(50)]
pub fn match_list_lines(app: &App) -> (r: MatchList)
    requires
        app.wf(),
    ensures
        r.title@ == list_title(*app),
        exists|labels: Seq<(Seq<char>, Seq<char>)>|
            #[trigger] labels_fit(*app, labels) && list_lines_view(r.lines@) == list_lines(*app, labels),
{
    let matches = app.visible_matches();
    let selected = app.selected_match_id();
    let ghost listed = listed_matches(*app);
    let ghost sel = selected_id(*app);
    assert(matches@.map_values(|m: &Match| *m) =~= listed);
    // The rows shown: all of them, or the selected match alone while its
    // details are open.
    let mut rows: Vec<&Match> = Vec::new();
    let mut i: usize = 0;
    assert(listed.take(0) =~= Seq::<Match>::empty());
    while i < matches.len()
        invariant
            i <= matches@.len(),
            matches@.map_values(|m: &Match| *m) == listed,
            match selected {
                Some(g) => sel == Some(g@),
                None => sel is None,
            },
            rows@.map_values(|m: &Match| *m) == if app@.detail_open {
                with_id(listed.take(i as int), sel)
            } else {
                listed.take(i as int)
            },
        decreases matches@.len() - i,
    {
        let m = matches[i];
        proof {
            assert(listed.take(i + 1).drop_last() =~= listed.take(i as int));
            assert(listed.take(i + 1).last() == *m);
        }
        let keep = if app.detail_open() {
            match &selected {
                Some(g) => same_text(g.as_str(), m.id.as_str()),
                None => false,
            }
        } else {
            true
        };
        if keep {
            let ghost before = rows@;
            rows.push(m);
            assert(rows@.map_values(|x: &Match| *x) =~= before.map_values(|x: &Match| *x).push(*m));
        }
        i = i + 1;
    }
    assert(listed.take(matches@.len() as int) =~= listed);
    let ghost shown = shown_matches(*app);
    assert(rows@.map_values(|m: &Match| *m) == shown);
    let title = list_title_text(rows.len(), matches.len());
    let mut lines: Vec<Vec<ListCell>> = Vec::new();
    if app.match_count() == 0 {
        lines.push(note("No matches stored yet."));
        lines.push(note("Press s in global scope from this screen to sync fixtures from FIFA."));
        proof {
            let labels = Seq::new(shown.len(), |k: int| (Seq::<char>::empty(), Seq::<char>::empty()));
            assert(list_lines_view(lines@) =~= list_lines(*app, labels));
            if matches@.len() > 0 {
                assert(*matches@[0] == app.data().matches@[app.matches_listed()[0] as int]);
                assert(app.matches_listed()[0] < app.data().matches@.len());
            }
            assert(listed.len() == 0);
            assert(with_id(listed, sel) == Seq::<Match>::empty());
            assert(shown.len() == 0);
            assert(labels_fit(*app, labels));
        }
        return MatchList { title, lines };
    }
    if matches.len() == 0 {
        lines.push(note("No matches match the current filters."));
        proof {
            let labels = Seq::new(shown.len(), |k: int| (Seq::<char>::empty(), Seq::<char>::empty()));
            assert(list_lines_view(lines@) =~= list_lines(*app, labels));
            assert(listed.len() == 0);
            assert(with_id(listed, sel) == Seq::<Match>::empty());
            assert(shown.len() == 0);
            assert(labels_fit(*app, labels));
        }
        return MatchList { title, lines };
    }
    lines.push(heading_line());
    let ghost mut labels: Seq<(Seq<char>, Seq<char>)> = Seq::empty();
    let mut previous_day: Option<String> = None;
    let mut shade = false;
    let mut k: usize = 0;
    while k < rows.len()
        invariant
            k <= rows@.len(),
            rows@.map_values(|m: &Match| *m) == shown,
            match selected {
                Some(g) => sel == Some(g@),
                None => sel is None,
            },
            labels.len() == k,
            day_shades(labels.map_values(|l: (Seq<char>, Seq<char>)| l.1)).len() == k,
            k > 0 ==> (previous_day matches Some(d) && d@ == labels[k - 1].1),
            k > 0 ==> shade == day_shades(labels.map_values(|l: (Seq<char>, Seq<char>)| l.1))[k - 1],
            k == 0 ==> previous_day is None && !shade,
            app@.time_mode == TimeMode::Relative ==> forall|j: int|
                0 <= j < k ==> #[trigger] labels[j].0 == relative_text(shown[j].utc_start@, app.clock()),
            app@.time_mode == TimeMode::Absolute ==> forall|j: int| 0 <= j < k ==> is_local_stamp(#[trigger] labels[j].0),
            forall|j: int| 0 <= j < k ==> is_local_day(#[trigger] labels[j].1),
            lines@.len() == k + 1,
            list_cells_view(lines@[0]@) == heading_row(),
            forall|j: int|
                0 <= j < k ==> #[trigger] list_cells_view(lines@[j + 1]@) == match_row(
                    *app,
                    shown[j],
                    labels[j].0,
                    sel == Some(shown[j].id@),
                    day_shades(labels.map_values(|l: (Seq<char>, Seq<char>)| l.1))[j],
                ),
        decreases rows@.len() - k,
    {
        let m = rows[k];
        assert(*m == shown[k as int]);
        let day = app.match_date_key(m);
        let time = app.match_time_label(m);
        let ghost old_labels = labels;
        let ghost old_days = labels.map_values(|l: (Seq<char>, Seq<char>)| l.1);
        let ghost old_shade = shade;
        let changed = match &previous_day {
            Some(d) => !same_text(d.as_str(), day.as_str()),
            None => false,
        };
        if changed {
            shade = !shade;
        }
        proof {
            labels = labels.push((time@, day@));
            let days = labels.map_values(|l: (Seq<char>, Seq<char>)| l.1);
            assert(days.drop_last() =~= old_days);
            assert(days.last() == day@);
            lemma_day_shades_len(days);
            lemma_day_shades_len(old_days);
            if k == 0 {
                assert(day_shades(days) == seq![false]);
            } else {
                assert(days[k - 1] == old_days[k - 1]);
                assert(old_days[k - 1] == old_labels[k - 1].1);
                assert(changed == (days.last() != days[k - 1]));
                assert(old_shade == day_shades(old_days).last());
                assert(day_shades(days) == day_shades(old_days).push(
                    if days.last() != days[k - 1] {
                        !day_shades(old_days).last()
                    } else {
                        day_shades(old_days).last()
                    },
                ));
            }
            assert(shade == day_shades(days)[k as int]);
            assert forall|j: int| 0 <= j < k implies #[trigger] day_shades(days)[j] == day_shades(old_days)[j] by {
            }
            assert forall|j: int| 0 <= j < k implies #[trigger] labels[j] == old_labels[j] by {
            }
        }
        let is_selected = match &selected {
            Some(g) => same_text(g.as_str(), m.id.as_str()),
            None => false,
        };
        let line = match_row_line(app, m, time.as_str(), is_selected, shade);
        let ghost old_lines = lines@;
        lines.push(line);
        proof {
            let days = labels.map_values(|l: (Seq<char>, Seq<char>)| l.1);
            assert(is_selected == (sel == Some(shown[k as int].id@)));
            assert(list_cells_view(lines@[k as int + 1]@) == match_row(
                *app,
                shown[k as int],
                labels[k as int].0,
                sel == Some(shown[k as int].id@),
                day_shades(days)[k as int],
            ));
            assert forall|j: int| 0 <= j < k implies #[trigger] list_cells_view(lines@[j + 1]@) == match_row(
                *app,
                shown[j],
                labels[j].0,
                sel == Some(shown[j].id@),
                day_shades(days)[j],
            ) by {
                assert(lines@[j + 1] == old_lines[j + 1]);
            }
        }
        previous_day = Some(day);
        k = k + 1;
    }
    proof {
        let days = labels.map_values(|l: (Seq<char>, Seq<char>)| l.1);
        let body = Seq::new(
            shown.len(),
            |j: int| match_row(*app, shown[j], labels[j].0, sel == Some(shown[j].id@), day_shades(days)[j]),
        );
        assert(listed.len() > 0);
        assert forall|j: int| 0 <= j < lines@.len() implies #[trigger] list_lines_view(lines@)[j] == (seq![heading_row()]
            + body)[j] by {
            if j > 0 {
                assert(list_cells_view(lines@[(j - 1) + 1]@) == body[j - 1]);
            }
        }
        assert(list_lines_view(lines@) =~= seq![heading_row()] + body);
        assert(labels_fit(*app, labels));
    }
    MatchList { title, lines }
}

} // verus!
