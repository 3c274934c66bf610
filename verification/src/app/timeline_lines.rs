//! The lines of a match's timeline: each event on its team's side of the
//! spine beside its minute, the spine between events, and the half-time
//! marker across the panel.

use vstd::prelude::*;

use crate::app::participant::{team_option_view, Side};
use crate::app::state::{match_status_text, team_code_text, App};
use crate::app::time_label::{is_local_stamp, relative_text};
use crate::app::timeline::{
    card_totals_for_team, clean_timeline_description, cleaned, count_kind, event_kind, event_side, kind_label,
    match_context, score_label, score_text, timeline_event_kind, timeline_event_side, timeline_side_width, winner_side,
    winning_side, TimelineEventKind, TimelineSide,
};
use crate::app::views::TimeMode;
use crate::app::timeline_text::{
    event_parts, line_width, lines_view, padded_line, parts_view, timeline_event_parts, timeline_side_spans, wrap_parts,
    wrapped_lines, wrapped_lines_fit, TextPart, Tone,
};
use crate::domain::matches::{Match, MatchStatus};
use crate::domain::timeline::TimelineEvent;
use crate::text::{
    chars_of, concat3, decimal, decimal_text, owned, pad_left, pad_left_text, push_spaces, push_text, spaces, string_from_chars,
};

verus! {

/// How wide each side of the spine is in a panel `content_width` wide: what
/// is left after the minute bands and the spine, halved, and at least eight.
pub open spec fn side_width_of(content_width: int) -> int {
    if content_width >= 17 && (content_width - 17) / 2 > 8 {
        (content_width - 17) / 2
    } else {
        8
    }
}

/// `n` dashes.
pub open spec fn dashes(n: nat) -> Seq<char> {
    Seq::new(n, |i: int| '-')
}

fn dash_text(n: usize) -> (r: String)
    ensures
        r@ == dashes(n as nat),
{
    let mut v: Vec<char> = Vec::new();
    let mut i: usize = 0;
    while i < n
        invariant
            i <= n,
            v@ == dashes(i as nat),
        decreases n - i,
    {
        v.push('-');
        i = i + 1;
        assert(v@ =~= dashes(i as nat));
    }
    string_from_chars(v.as_slice())
}

/// A marker across the timeline: `label` centred in dashes as wide as the
/// panel, or as the label when the panel is narrower.
pub open spec fn marker_parts(content_width: nat, label: Seq<char>) -> Seq<(Seq<char>, Tone)> {
    let width = if content_width > label.len() { content_width } else { label.len() };
    let left = (width - label.len()) / 2;
    let right = width - label.len() - left;
    seq![(dashes(left as nat), Tone::Marker), (label, Tone::Marker), (dashes(right as nat), Tone::Marker)]
}

pub fn timeline_marker_line(content_width: usize, label: &str) -> (r: Vec<TextPart>)
    ensures
        parts_view(r@) == marker_parts(content_width as nat, label@),
{
    let label_width = chars_of(label).len();
    let width = if content_width > label_width { content_width } else { label_width };
    let left = (width - label_width) / 2;
    let right = width - label_width - left;
    let mut r: Vec<TextPart> = Vec::new();
    r.push(TextPart { text: dash_text(left), tone: Tone::Marker });
    r.push(TextPart { text: owned(label), tone: Tone::Marker });
    r.push(TextPart { text: dash_text(right), tone: Tone::Marker });
    assert(parts_view(r@) =~= marker_parts(content_width as nat, label@));
    r
}

/// The spine alone, drawn between two events.
pub open spec fn spine_parts(content_width: nat) -> Seq<(Seq<char>, Tone)> {
    seq![(spaces((side_width_of(content_width as int) + 8) as nat), Tone::Plain), ("|"@, Tone::Axis)]
}

pub fn timeline_spine_line(content_width: usize) -> (r: Vec<TextPart>)
    ensures
        parts_view(r@) == spine_parts(content_width as nat),
{
    let side = timeline_side_width(content_width);
    let mut blank = String::new();
    push_spaces(&mut blank, side + 8);
    let mut r: Vec<TextPart> = Vec::new();
    r.push(TextPart { text: blank, tone: Tone::Plain });
    r.push(TextPart { text: owned("|"), tone: Tone::Axis });
    assert(parts_view(r@) =~= spine_parts(content_width as nat));
    r
}

/// The band beside the spine: the minute, right-aligned, on an event's first
/// line, and blanks on the lines it wraps to.
pub open spec fn minute_band(minute: Seq<char>, first: bool) -> Seq<char> {
    if first {
        seq![' '] + pad_left(minute, 6) + seq![' ']
    } else {
        spaces(8)
    }
}

/// One line of an event: its text padded to the side's width against the
/// spine, the minute band and the spine, on the home side (left) or the
/// other.
pub open spec fn side_row(
    text: Seq<(Seq<char>, Tone)>,
    minute: Seq<char>,
    first: bool,
    home: bool,
    side_width: nat,
) -> Seq<(Seq<char>, Tone)> {
    let band = (minute_band(minute, first), Tone::Minute);
    let blank = (spaces(side_width + 8), Tone::Plain);
    if home {
        padded_line(text, side_width, false) + seq![band, ("|"@, Tone::Axis), blank]
    } else {
        seq![blank, ("|"@, Tone::Axis), band] + padded_line(text, side_width, true)
    }
}

/// The lines of one event: the half-time marker across the panel, or the
/// event's text wrapped to its side of the spine, its minute beside the
/// first line.
pub open spec fn event_lines(m: Match, e: TimelineEvent, content_width: nat) -> Seq<Seq<(Seq<char>, Tone)>> {
    let kind = match event_kind(e) {
        Some(k) => k,
        None => TimelineEventKind::Key,
    };
    if kind == TimelineEventKind::HalfTime {
        seq![marker_parts(content_width, " HALF TIME "@)]
    } else {
        let minute = match e.minute {
            Some(s) => s@,
            None => "--"@,
        };
        let description = match e.description {
            Some(d) => cleaned(d@),
            None => kind_label(kind),
        };
        let side_width = side_width_of(content_width as int) as nat;
        let home = event_side(m, e, kind) == TimelineSide::Home;
        let wrapped = wrapped_lines(event_parts(kind, description), side_width);
        Seq::new(wrapped.len(), |i: int| side_row(wrapped[i], minute, i == 0, home, side_width))
    }
}

fn minute_band_text(minute: &str, first: bool) -> (r: String)
    ensures
        r@ == minute_band(minute@, first),
{
    if first {
        let padded = pad_left_text(minute, 6);
        let r = concat3(" ", padded.as_str(), " ");
        proof {
            reveal_strlit(" ");
        }
        assert(r@ =~= minute_band(minute@, first));
        r
    } else {
        let mut r = String::new();
        push_spaces(&mut r, 8);
        r
    }
}

fn side_row_parts(text: Vec<TextPart>, minute: &str, first: bool, home: bool, side_width: usize) -> (r: Vec<TextPart>)
    requires
        line_width(parts_view(text@)) <= usize::MAX,
        side_width + 8 <= usize::MAX,
    ensures
        parts_view(r@) == side_row(parts_view(text@), minute@, first, home, side_width as nat),
{
    let ghost text_view = parts_view(text@);
    let padded = timeline_side_spans(text, side_width, !home);
    let mut blank = String::new();
    push_spaces(&mut blank, side_width + 8);
    let band = TextPart { text: minute_band_text(minute, first), tone: Tone::Minute };
    let axis = TextPart { text: owned("|"), tone: Tone::Axis };
    let blank = TextPart { text: blank, tone: Tone::Plain };
    let mut r: Vec<TextPart> = Vec::new();
    if home {
        let mut rest = padded;
        r.append(&mut rest);
        r.push(band);
        r.push(axis);
        r.push(blank);
    } else {
        r.push(blank);
        r.push(axis);
        r.push(band);
        let mut rest = padded;
        r.append(&mut rest);
    }
    assert(parts_view(r@) =~= side_row(text_view, minute@, first, home, side_width as nat));
    r
}

/// The lines of one event of match `m` in a panel `content_width` wide.
pub fn timeline_event_lines(m: &Match, event: &TimelineEvent, content_width: usize) -> (r: Vec<Vec<TextPart>>)
    ensures
        lines_view(r@) == event_lines(*m, *event, content_width as nat),
{
    let kind = match timeline_event_kind(event) {
        Some(k) => k,
        None => TimelineEventKind::Key,
    };
    if kind == TimelineEventKind::HalfTime {
        let mut r: Vec<Vec<TextPart>> = Vec::new();
        r.push(timeline_marker_line(content_width, " HALF TIME "));
        assert(lines_view(r@) =~= event_lines(*m, *event, content_width as nat));
        return r;
    }
    let minute: &str = match &event.minute {
        Some(s) => s.as_str(),
        None => "--",
    };
    let description = match &event.description {
        Some(d) => clean_timeline_description(d.as_str()),
        None => owned(kind.label()),
    };
    let parts = timeline_event_parts(kind, description.as_str());
    let side_width = timeline_side_width(content_width);
    let home = timeline_event_side(m, event, kind) == TimelineSide::Home;
    let wrapped = wrap_parts(parts.as_slice(), side_width);
    let ghost all = wrapped_lines(parts_view(parts@), side_width as nat);
    let ghost target = event_lines(*m, *event, content_width as nat);
    proof {
        wrapped_lines_fit(parts_view(parts@), side_width as nat);
    }
    let mut rest = wrapped;
    let total = rest.len();
    let mut out: Vec<Vec<TextPart>> = Vec::new();
    let mut i: usize = 0;
    while rest.len() > 0
        invariant
            all.len() == target.len(),
            all.len() == total,
            i + rest@.len() == all.len(),
            lines_view(rest@) == all.subrange(i as int, all.len() as int),
            lines_view(out@) == target.take(i as int),
            side_width + 8 <= usize::MAX,
            side_width as int == side_width_of(content_width as int),
            forall|k: int| 0 <= k < all.len() ==> line_width(#[trigger] all[k]) <= (if side_width == 0 { 1 } else { side_width as nat }),
            forall|k: int| 0 <= k < all.len() ==> #[trigger] target[k] == side_row(all[k], minute@, k == 0, home, side_width as nat),
        decreases rest@.len(),
    {
        let ghost before = rest@;
        let line = rest.remove(0);
        proof {
            assert(lines_view(before)[0] == all[i as int]);
            assert(rest@ == before.remove(0));
            assert forall|k: int| 0 <= k < rest@.len() implies parts_view(rest@[k]@) == all[i + 1 + k] by {
                assert(rest@[k] == before[k + 1]);
                assert(lines_view(before)[k + 1] == all[i + 1 + k]);
            }
            assert(lines_view(rest@) =~= all.subrange(i + 1, all.len() as int));
        }
        let row = side_row_parts(line, minute, i == 0, home, side_width);
        let ghost prev = out@;
        out.push(row);
        proof {
            assert(lines_view(out@) =~= lines_view(prev).push(target[i as int]));
            assert(target.take(i + 1) =~= target.take(i as int).push(target[i as int]));
        }
        i = i + 1;
    }
    assert(target.take(i as int) =~= target);
    out
}

/// How many of `events` are of `kind` and belong to `team`; none when the
/// team is not known.
pub open spec fn team_cards(events: Seq<&TimelineEvent>, team: Option<crate::domain::ids::TeamId>, kind: TimelineEventKind) -> nat {
    match team {
        Some(t) => count_kind(events, t@, kind),
        None => 0,
    }
}

/// The header of the match details: both teams' codes around the score and
/// their red and yellow cards on the left; the group or stage, the kick-off
/// (`time_label`) and the status on the right; blanks between, at least one.
pub open spec fn header_parts(
    app: App,
    m: Match,
    content_width: nat,
    events: Seq<&TimelineEvent>,
    time_label: Seq<char>,
) -> Seq<(Seq<char>, Tone)> {
    let home = team_code_text(app.data().teams@, team_option_view(m.home_team_id), m.home_team_name@);
    let away = team_code_text(app.data().teams@, team_option_view(m.away_team_id), m.away_team_name@);
    let score = score_text(m);
    let home_red = decimal(team_cards(events, m.home_team_id, TimelineEventKind::RedCard));
    let home_yellow = decimal(team_cards(events, m.home_team_id, TimelineEventKind::YellowCard));
    let away_red = decimal(team_cards(events, m.away_team_id, TimelineEventKind::RedCard));
    let away_yellow = decimal(team_cards(events, m.away_team_id, TimelineEventKind::YellowCard));
    let left = home + " "@ + score + " "@ + away + " | ("@ + home_red + "-"@ + home_yellow + ") / ("@ + away_red + "-"@
        + away_yellow + ")"@;
    let context = match m.group_name {
        Some(g) => g@,
        None => m.stage_name@,
    };
    let status = match_status_text(m.status);
    let right = context + " | "@ + time_label + " | "@ + status;
    let gap = if content_width > left.len() + right.len() {
        content_width - (left.len() + right.len())
    } else {
        0
    };
    let spacer = if gap >= 1 { gap } else { 1 };
    seq![
        (home, Tone::Team(winner_side(m) == Some(Side::Home))),
        (" "@ + score + " "@, Tone::Score),
        (away, Tone::Team(winner_side(m) == Some(Side::Away))),
        (" | ("@, Tone::Faint),
        (home_red, Tone::Event(TimelineEventKind::RedCard)),
        ("-"@, Tone::Plain),
        (home_yellow, Tone::Event(TimelineEventKind::YellowCard)),
        (") / ("@, Tone::Faint),
        (away_red, Tone::Event(TimelineEventKind::RedCard)),
        ("-"@, Tone::Plain),
        (away_yellow, Tone::Event(TimelineEventKind::YellowCard)),
        (")"@, Tone::Faint),
        (spaces(spacer as nat), Tone::Plain),
        (context, Tone::Faint),
        (" | "@, Tone::Faint),
        (time_label, Tone::Faint),
        (" | "@, Tone::Faint),
        (status, Tone::Status(m.status == MatchStatus::Live)),
    ]
}

fn part(text: String, tone: Tone) -> (r: TextPart)
    ensures
        r.text@ == text@,
        r.tone == tone,
{
    TextPart { text, tone }
}

fn width_of(s: &String) -> (r: usize)
    ensures
        r == s@.len(),
{
    chars_of(s.as_str()).len()
}

/// The header line of the details of match `m`, `events` being its
/// timeline; the kick-off reads as the display's time mode says (its local
/// date and time in absolute mode).
pub fn match_detail_header_line(app: &App, m: &Match, content_width: usize, events: &[&TimelineEvent]) -> (r: Vec<TextPart>)
    ensures
        exists|time_label: Seq<char>|
            parts_view(r@) == #[trigger] header_parts(*app, *m, content_width as nat, events@, time_label) && (app@.time_mode
                == TimeMode::Relative ==> time_label == relative_text(m.utc_start@, app.clock())) && (app@.time_mode
                == TimeMode::Absolute ==> is_local_stamp(time_label)),
{
    let home = app.match_team_code(m.home_team_id.as_ref(), m.home_team_name.as_str());
    let away = app.match_team_code(m.away_team_id.as_ref(), m.away_team_name.as_str());
    let score = score_label(m);
    let home_cards = card_totals_for_team(events, m.home_team_id.as_ref());
    let away_cards = card_totals_for_team(events, m.away_team_id.as_ref());
    let home_red = decimal_text(home_cards.red as u64);
    let home_yellow = decimal_text(home_cards.yellow as u64);
    let away_red = decimal_text(away_cards.red as u64);
    let away_yellow = decimal_text(away_cards.yellow as u64);
    let context = match_context(m);
    let time = app.match_time_label(m);
    let status = app.match_status_label(m.status);
    let mut left = String::new();
    push_text(&mut left, home.as_str());
    push_text(&mut left, " ");
    push_text(&mut left, score.as_str());
    push_text(&mut left, " ");
    push_text(&mut left, away.as_str());
    push_text(&mut left, " | (");
    push_text(&mut left, home_red.as_str());
    push_text(&mut left, "-");
    push_text(&mut left, home_yellow.as_str());
    push_text(&mut left, ") / (");
    push_text(&mut left, away_red.as_str());
    push_text(&mut left, "-");
    push_text(&mut left, away_yellow.as_str());
    push_text(&mut left, ")");
    let mut right = String::new();
    push_text(&mut right, context.as_str());
    push_text(&mut right, " | ");
    push_text(&mut right, time.as_str());
    push_text(&mut right, " | ");
    push_text(&mut right, status);
    let left_width = width_of(&left);
    let right_width = width_of(&right);
    let used = if left_width > usize::MAX - right_width {
        usize::MAX
    } else {
        left_width + right_width
    };
    let gap = if content_width > used {
        content_width - used
    } else {
        0
    };
    let spacer = if gap >= 1 {
        gap
    } else {
        1
    };
    let mut blank = String::new();
    push_spaces(&mut blank, spacer);
    let home_won = match winning_side(m) {
        Some(Side::Home) => true,
        _ => false,
    };
    let away_won = match winning_side(m) {
        Some(Side::Away) => true,
        _ => false,
    };
    let live = match m.status {
        MatchStatus::Live => true,
        _ => false,
    };
    let mut r: Vec<TextPart> = Vec::new();
    r.push(part(home, Tone::Team(home_won)));
    r.push(part(concat3(" ", score.as_str(), " "), Tone::Score));
    r.push(part(away, Tone::Team(away_won)));
    r.push(part(owned(" | ("), Tone::Faint));
    r.push(part(home_red, Tone::Event(TimelineEventKind::RedCard)));
    r.push(part(owned("-"), Tone::Plain));
    r.push(part(home_yellow, Tone::Event(TimelineEventKind::YellowCard)));
    r.push(part(owned(") / ("), Tone::Faint));
    r.push(part(away_red, Tone::Event(TimelineEventKind::RedCard)));
    r.push(part(owned("-"), Tone::Plain));
    r.push(part(away_yellow, Tone::Event(TimelineEventKind::YellowCard)));
    r.push(part(owned(")"), Tone::Faint));
    r.push(part(blank, Tone::Plain));
    r.push(part(context, Tone::Faint));
    r.push(part(owned(" | "), Tone::Faint));
    r.push(part(time, Tone::Faint));
    r.push(part(owned(" | "), Tone::Faint));
    r.push(part(owned(status), Tone::Status(live)));
    proof {
        let target = header_parts(*app, *m, content_width as nat, events@, time@);
        assert(parts_view(r@) =~= target);
    }
    r
}

} // verus!
