//! How a match's timeline reads on the detail pane: what kind each event is,
//! which filters let it through, which side of the spine it stands on, the
//! cards each team has collected, and how its text wraps.

use vstd::prelude::*;

use crate::app::participant::{team_option_view, Side};
use crate::app::views::TimelineFilter;
use crate::domain::ids::TeamId;
use crate::domain::matches::Match;
use crate::domain::timeline::TimelineEvent;
use crate::text::{
    ascii_lowercase, ascii_lowercase_chars, chars_of, contains_chars, contains_text, decimal, is_space,
    is_space_char, occurs_at, owned, push_char, push_decimal, push_text, string_from_chars, trim, trim_chars,
};

verus! {

/// What a timeline event is, as the detail pane draws it.
#[derive(Clone, Copy, Debug, Eq, PartialEq, Structural)]
pub enum TimelineEventKind {
    Goal,
    OwnGoal,
    YellowCard,
    RedCard,
    Substitution,
    HalfTime,
    Key,
}

pub open spec fn kind_label(k: TimelineEventKind) -> Seq<char> {
    match k {
        TimelineEventKind::Goal => "Goal"@,
        TimelineEventKind::OwnGoal => "Own goal"@,
        TimelineEventKind::YellowCard => "Yellow card"@,
        TimelineEventKind::RedCard => "Red card"@,
        TimelineEventKind::Substitution => "Substitution"@,
        TimelineEventKind::HalfTime => "Half time"@,
        TimelineEventKind::Key => "Key event"@,
    }
}

impl TimelineEventKind {
    pub fn label(self) -> (r: &'static str)
        ensures
            r@ == kind_label(self),
    {
        match self {
            TimelineEventKind::Goal => "Goal",
            TimelineEventKind::OwnGoal => "Own goal",
            TimelineEventKind::YellowCard => "Yellow card",
            TimelineEventKind::RedCard => "Red card",
            TimelineEventKind::Substitution => "Substitution",
            TimelineEventKind::HalfTime => "Half time",
            TimelineEventKind::Key => "Key event",
        }
    }
}

/// A description on one line: line breaks become spaces, and the ends are
/// trimmed.
pub open spec fn cleaned(s: Seq<char>) -> Seq<char> {
    trim(s.map_values(|c: char| if c == '\n' { ' ' } else { c }))
}

pub fn clean_timeline_description(value: &str) -> (r: String)
    ensures
        r@ == cleaned(value@),
{
    let chars = chars_of(value);
    let mut flat: Vec<char> = Vec::new();
    let mut i: usize = 0;
    while i < chars.len()
        invariant
            i <= chars@.len(),
            chars@ == value@,
            flat@ == chars@.take(i as int).map_values(|c: char| if c == '\n' { ' ' } else { c }),
        decreases chars@.len() - i,
    {
        let c = chars[i];
        flat.push(if c == '\n' { ' ' } else { c });
        assert(chars@.take(i + 1).map_values(|c: char| if c == '\n' { ' ' } else { c }) =~= chars@.take(
            i as int,
        ).map_values(|c: char| if c == '\n' { ' ' } else { c }).push(if c == '\n' { ' ' } else { c }));
        i = i + 1;
    }
    assert(chars@.take(chars@.len() as int) =~= chars@);
    let trimmed = trim_chars(flat.as_slice());
    string_from_chars(trimmed.as_slice())
}

fn mentions(text: &[char], phrase: &str) -> (r: bool)
    ensures
        r == contains_text(text@, phrase@),
{
    let p = chars_of(phrase);
    contains_chars(text, p.as_slice())
}

/// The lower-cased description says the first half is over.
pub open spec fn reads_half_time(d: Seq<char>) -> bool {
    ||| contains_text(d, "half time"@)
    ||| contains_text(d, "half-time"@)
    ||| contains_text(d, "end first half"@)
    ||| contains_text(d, "end of first half"@)
    ||| (contains_text(d, "first"@) && contains_text(d, "brings"@) && contains_text(d, "end"@))
}

/// The lower-cased description is a pause, a restart, a review outcome or
/// a referee's gesture rather than an event of its own.
pub open spec fn reads_noise(d: Seq<char>) -> bool {
    ||| contains_text(d, "hydration"@)
    ||| contains_text(d, "drinks break"@)
    ||| contains_text(d, "cooling break"@)
    ||| contains_text(d, "paused"@)
    ||| contains_text(d, "pause in play"@)
    ||| contains_text(d, "play is paused"@)
    ||| contains_text(d, "resumed"@)
    ||| contains_text(d, "resume"@)
    ||| contains_text(d, "red card given"@)
    ||| contains_text(d, "goal awarded"@)
    ||| contains_text(d, "goal disallowed"@)
    ||| contains_text(d, "before the second half begins"@)
    ||| contains_text(d, "referee signals"@)
    ||| contains_text(d, "referee brings"@)
}

fn is_half_time_text(d: &[char]) -> (r: bool)
    ensures
        r == reads_half_time(d@),
{
    mentions(d, "half time") || mentions(d, "half-time") || mentions(d, "end first half") || mentions(
        d,
        "end of first half",
    ) || (mentions(d, "first") && mentions(d, "brings") && mentions(d, "end"))
}

fn is_noise_text(d: &[char]) -> (r: bool)
    ensures
        r == reads_noise(d@),
{
    mentions(d, "hydration") || mentions(d, "drinks break") || mentions(d, "cooling break") || mentions(
        d,
        "paused",
    ) || mentions(d, "pause in play") || mentions(d, "play is paused") || mentions(d, "resumed")
        || mentions(d, "resume") || mentions(d, "red card given") || mentions(d, "goal awarded")
        || mentions(d, "goal disallowed") || mentions(d, "before the second half begins") || mentions(
        d,
        "referee signals",
    ) || mentions(d, "referee brings")
}

/// The event's description, cleaned and lower-cased (empty when it has none).
pub open spec fn normalized_description(e: TimelineEvent) -> Seq<char> {
    match e.description {
        Some(s) => ascii_lowercase(cleaned(s@)),
        None => ascii_lowercase(Seq::empty()),
    }
}

/// What an event is: half time and pauses are read from its description
/// (pauses are dropped), an own goal too; otherwise FIFA's event type
/// decides, and types the pane does not show are dropped.
pub open spec fn event_kind(e: TimelineEvent) -> Option<TimelineEventKind> {
    let d = normalized_description(e);
    if reads_half_time(d) {
        Some(TimelineEventKind::HalfTime)
    } else if reads_noise(d) {
        None
    } else if contains_text(d, "own goal"@) {
        Some(TimelineEventKind::OwnGoal)
    } else {
        match e.event_type {
            Some(t) => if t == 0 {
                Some(TimelineEventKind::Goal)
            } else if t == 2 {
                Some(TimelineEventKind::YellowCard)
            } else if t == 3 {
                Some(TimelineEventKind::RedCard)
            } else if t == 5 {
                Some(TimelineEventKind::Substitution)
            } else if t == 7 || t == 8 || t == 26 || t == 71 || t == 78 || t == 83 {
                Some(TimelineEventKind::Key)
            } else {
                None
            },
            None => None,
        }
    }
}

/// An event with no description is what FIFA's event type says: type 0 a
/// goal, 2 a yellow card, 3 a red card, 5 a substitution, 7, 8, 26, 71, 78
/// and 83 a key moment; no other type, and no type, is shown.
pub proof fn event_kind_by_type(e: TimelineEvent)
    requires
        e.description is None,
    ensures
        e.event_type == Some(0u16) ==> event_kind(e) == Some(TimelineEventKind::Goal),
        e.event_type == Some(2u16) ==> event_kind(e) == Some(TimelineEventKind::YellowCard),
        e.event_type == Some(3u16) ==> event_kind(e) == Some(TimelineEventKind::RedCard),
        e.event_type == Some(5u16) ==> event_kind(e) == Some(TimelineEventKind::Substitution),
        (e.event_type == Some(7u16) || e.event_type == Some(8u16) || e.event_type == Some(26u16)
            || e.event_type == Some(71u16) || e.event_type == Some(78u16) || e.event_type == Some(83u16))
            ==> event_kind(e) == Some(TimelineEventKind::Key),
        e.event_type is None ==> event_kind(e) is None,
        (e.event_type matches Some(t) && t != 0 && t != 2 && t != 3 && t != 5 && t != 7 && t != 8 && t != 26
            && t != 71 && t != 78 && t != 83) ==> event_kind(e) is None,
{
    reveal_strlit("half time");
    reveal_strlit("half-time");
    reveal_strlit("end first half");
    reveal_strlit("end of first half");
    reveal_strlit("first");
    reveal_strlit("brings");
    reveal_strlit("end");
    reveal_strlit("hydration");
    reveal_strlit("drinks break");
    reveal_strlit("cooling break");
    reveal_strlit("paused");
    reveal_strlit("pause in play");
    reveal_strlit("play is paused");
    reveal_strlit("resumed");
    reveal_strlit("resume");
    reveal_strlit("red card given");
    reveal_strlit("goal awarded");
    reveal_strlit("goal disallowed");
    reveal_strlit("before the second half begins");
    reveal_strlit("referee signals");
    reveal_strlit("referee brings");
    reveal_strlit("own goal");
    let d = normalized_description(e);
    assert(d =~= Seq::<char>::empty());
    assert forall|p: Seq<char>| p.len() > 0 implies !contains_text(d, p) by {
        if contains_text(d, p) {
            let i = choose|i: int| occurs_at(d, p, i);
            assert(occurs_at(d, p, i));
        }
    }
}

pub fn timeline_event_kind(event: &TimelineEvent) -> (r: Option<TimelineEventKind>)
    ensures
        r == event_kind(*event),
{
    let description = match &event.description {
        Some(s) => clean_timeline_description(s.as_str()),
        None => String::new(),
    };
    let chars = chars_of(description.as_str());
    let d = ascii_lowercase_chars(chars.as_slice());
    assert(d@ == normalized_description(*event));
    if is_half_time_text(d.as_slice()) {
        return Some(TimelineEventKind::HalfTime);
    }
    if is_noise_text(d.as_slice()) {
        return None;
    }
    if mentions(d.as_slice(), "own goal") {
        return Some(TimelineEventKind::OwnGoal);
    }
    match event.event_type {
        Some(0) => Some(TimelineEventKind::Goal),
        Some(2) => Some(TimelineEventKind::YellowCard),
        Some(3) => Some(TimelineEventKind::RedCard),
        Some(5) => Some(TimelineEventKind::Substitution),
        Some(7) | Some(8) | Some(26) | Some(71) | Some(78) | Some(83) => Some(TimelineEventKind::Key),
        _ => None,
    }
}

/// Whether one detail filter lets an event through: `All` lets every shown
/// event through, `Goals` goals, own goals and half time, the others their
/// own kind.
pub open spec fn filter_admits(filter: TimelineFilter, kind: Option<TimelineEventKind>) -> bool {
    match kind {
        None => false,
        Some(k) => match filter {
            TimelineFilter::All => true,
            TimelineFilter::Goals => k == TimelineEventKind::HalfTime || k == TimelineEventKind::Goal || k
                == TimelineEventKind::OwnGoal,
            TimelineFilter::RedCards => k == TimelineEventKind::RedCard,
            TimelineFilter::YellowCards => k == TimelineEventKind::YellowCard,
            TimelineFilter::Substitutions => k == TimelineEventKind::Substitution,
        },
    }
}

pub fn timeline_event_matches_filter(event: &TimelineEvent, filter: TimelineFilter) -> (r: bool)
    ensures
        r == filter_admits(filter, event_kind(*event)),
{
    match timeline_event_kind(event) {
        None => false,
        Some(k) => match filter {
            TimelineFilter::All => true,
            TimelineFilter::Goals => k == TimelineEventKind::HalfTime || k == TimelineEventKind::Goal || k
                == TimelineEventKind::OwnGoal,
            TimelineFilter::RedCards => k == TimelineEventKind::RedCard,
            TimelineFilter::YellowCards => k == TimelineEventKind::YellowCard,
            TimelineFilter::Substitutions => k == TimelineEventKind::Substitution,
        },
    }
}

/// The selected filters let an event through: with none selected, `All`
/// decides; otherwise any one of them.
pub open spec fn filters_admit(filters: Seq<TimelineFilter>, kind: Option<TimelineEventKind>) -> bool {
    if filters.len() == 0 {
        filter_admits(TimelineFilter::All, kind)
    } else {
        exists|i: int| 0 <= i < filters.len() && filter_admits(#[trigger] filters[i], kind)
    }
}

pub fn timeline_event_matches_filters(event: &TimelineEvent, filters: &[TimelineFilter]) -> (r: bool)
    ensures
        r == filters_admit(filters@, event_kind(*event)),
{
    if filters.len() == 0 {
        return timeline_event_matches_filter(event, TimelineFilter::All);
    }
    let mut i: usize = 0;
    while i < filters.len()
        invariant
            i <= filters@.len(),
            filters@.len() > 0,
            forall|j: int| 0 <= j < i ==> !filter_admits(#[trigger] filters@[j], event_kind(*event)),
        decreases filters@.len() - i,
    {
        if timeline_event_matches_filter(event, filters[i]) {
            return true;
        }
        i = i + 1;
    }
    false
}

/// Red and yellow cards collected by one team.
#[derive(Clone, Copy, Debug, Default, Eq, PartialEq, Structural)]
pub struct CardTotals {
    pub red: usize,
    pub yellow: usize,
}

/// How many of `events` are of `kind` and belong to the team `team`.
pub open spec fn count_kind(events: Seq<&TimelineEvent>, team: Seq<char>, kind: TimelineEventKind) -> nat
    decreases events.len(),
{
    if events.len() == 0 {
        0
    } else {
        let e = *events.last();
        count_kind(events.drop_last(), team, kind) + if team_option_view(e.team_id) == Some(team) && event_kind(e)
            == Some(kind) {
            1nat
        } else {
            0nat
        }
    }
}

pub proof fn lemma_count_bound(events: Seq<&TimelineEvent>, team: Seq<char>, kind: TimelineEventKind)
    ensures
        count_kind(events, team, kind) <= events.len(),
    decreases events.len(),
{
    if events.len() > 0 {
        lemma_count_bound(events.drop_last(), team, kind);
    }
}

/// The cards `team_id`'s team has collected in `events`; none without a team.
pub fn card_totals_for_team(events: &[&TimelineEvent], team_id: Option<&TeamId>) -> (r: CardTotals)
    ensures
        match team_id {
            Some(t) => r.red == count_kind(events@, t@, TimelineEventKind::RedCard) && r.yellow == count_kind(
                events@,
                t@,
                TimelineEventKind::YellowCard,
            ),
            None => r.red == 0 && r.yellow == 0,
        },
{
    let team = match team_id {
        Some(t) => t,
        None => return CardTotals { red: 0, yellow: 0 },
    };
    let mut red: usize = 0;
    let mut yellow: usize = 0;
    let mut i: usize = 0;
    while i < events.len()
        invariant
            i <= events@.len(),
            red == count_kind(events@.take(i as int), team@, TimelineEventKind::RedCard),
            yellow == count_kind(events@.take(i as int), team@, TimelineEventKind::YellowCard),
        decreases events@.len() - i,
    {
        let e: &TimelineEvent = events[i];
        proof {
            assert(events@.take(i + 1).drop_last() =~= events@.take(i as int));
            lemma_count_bound(events@.take(i as int), team@, TimelineEventKind::RedCard);
            lemma_count_bound(events@.take(i as int), team@, TimelineEventKind::YellowCard);
        }
        let own = match &e.team_id {
            Some(t) => t == team,
            None => false,
        };
        if own {
            match timeline_event_kind(e) {
                Some(TimelineEventKind::YellowCard) => {
                    yellow = yellow + 1;
                },
                Some(TimelineEventKind::RedCard) => {
                    red = red + 1;
                },
                _ => {},
            }
        }
        i = i + 1;
    }
    assert(events@.take(events@.len() as int) =~= events@);
    CardTotals { red, yellow }
}

/// Which side of the timeline's spine an event stands on.
#[derive(Clone, Copy, Debug, Eq, PartialEq, Structural)]
pub enum TimelineSide {
    Home,
    Away,
    Neutral,
}

/// Which way an event's text is aligned against the spine.
#[derive(Clone, Copy, Debug, Eq, PartialEq, Structural)]
pub enum TimelineAlignment {
    Left,
    Right,
}

/// An event stands on its team's side; an own goal on the other side; an
/// event of neither team in the middle. (An event and a side that both name
/// no team count as matching.)
pub open spec fn event_side(m: Match, e: TimelineEvent, kind: TimelineEventKind) -> TimelineSide {
    let home = team_option_view(e.team_id) == team_option_view(m.home_team_id);
    let away = team_option_view(e.team_id) == team_option_view(m.away_team_id);
    if kind == TimelineEventKind::OwnGoal && home {
        TimelineSide::Away
    } else if kind == TimelineEventKind::OwnGoal && away {
        TimelineSide::Home
    } else if home {
        TimelineSide::Home
    } else if away {
        TimelineSide::Away
    } else {
        TimelineSide::Neutral
    }
}

fn same_team(a: &Option<TeamId>, b: &Option<TeamId>) -> (r: bool)
    ensures
        r == (team_option_view(*a) == team_option_view(*b)),
{
    match (a, b) {
        (Some(x), Some(y)) => x == y,
        (None, None) => true,
        _ => false,
    }
}

pub fn timeline_event_side(m: &Match, event: &TimelineEvent, kind: TimelineEventKind) -> (r: TimelineSide)
    ensures
        r == event_side(*m, *event, kind),
{
    let home = same_team(&event.team_id, &m.home_team_id);
    let away = same_team(&event.team_id, &m.away_team_id);
    if kind == TimelineEventKind::OwnGoal && home {
        TimelineSide::Away
    } else if kind == TimelineEventKind::OwnGoal && away {
        TimelineSide::Home
    } else if home {
        TimelineSide::Home
    } else if away {
        TimelineSide::Away
    } else {
        TimelineSide::Neutral
    }
}

/// Home events read towards the spine from the left; the others from the
/// right.
pub fn timeline_event_alignment(m: &Match, event: &TimelineEvent, kind: TimelineEventKind) -> (r:
    TimelineAlignment)
    ensures
        r == if event_side(*m, *event, kind) == TimelineSide::Home {
            TimelineAlignment::Left
        } else {
            TimelineAlignment::Right
        },
{
    match timeline_event_side(m, event, kind) {
        TimelineSide::Home => TimelineAlignment::Left,
        _ => TimelineAlignment::Right,
    }
}

/// How wide each side of the timeline is: half of what the minute bands and
/// the spine leave, at least eight columns.
pub fn timeline_side_width(content_width: usize) -> (r: usize)
    ensures
        r == if content_width >= 17 && (content_width - 17) / 2 > 8 {
            ((content_width - 17) / 2) as usize
        } else {
            8
        },
{
    let rest = if content_width >= 17 { content_width - 17 } else { 0 };
    let half = rest / 2;
    if half > 8 {
        half
    } else {
        8
    }
}

/// The score as `2-1`, or `vs` before both scores are known.
pub open spec fn score_text(m: Match) -> Seq<char> {
    match (m.home_score, m.away_score) {
        (Some(h), Some(a)) => decimal(h as nat) + "-"@ + decimal(a as nat),
        _ => "vs"@,
    }
}

pub fn score_label(m: &Match) -> (r: String)
    ensures
        r@ == score_text(*m),
{
    match (m.home_score, m.away_score) {
        (Some(h), Some(a)) => {
            let mut s = String::new();
            push_decimal(&mut s, h as u64);
            push_text(&mut s, "-");
            push_decimal(&mut s, a as u64);
            assert(s@ =~= decimal(h as nat) + "-"@ + decimal(a as nat));
            s
        },
        _ => owned("vs"),
    }
}

/// Where a match belongs: its group, or else its stage.
pub fn match_context(m: &Match) -> (r: String)
    ensures
        r@ == match m.group_name {
            Some(g) => g@,
            None => m.stage_name@,
        },
{
    match &m.group_name {
        Some(g) => g.clone(),
        None => m.stage_name.clone(),
    }
}

/// Which side won `m`: the side the match names the winner, else the side
/// that scored more, else the side that won the shoot-out.
pub open spec fn winner_side(m: Match) -> Option<Side> {
    let w = team_option_view(m.winner_team_id);
    if w is Some && w == team_option_view(m.home_team_id) {
        Some(Side::Home)
    } else if w is Some && w == team_option_view(m.away_team_id) {
        Some(Side::Away)
    } else {
        match (m.home_score, m.away_score) {
            (Some(h), Some(a)) if h > a => Some(Side::Home),
            (Some(h), Some(a)) if a > h => Some(Side::Away),
            _ => match (m.home_penalty_score, m.away_penalty_score) {
                (Some(h), Some(a)) if h > a => Some(Side::Home),
                (Some(h), Some(a)) if a > h => Some(Side::Away),
                _ => None,
            },
        }
    }
}

pub fn winning_side(m: &Match) -> (r: Option<Side>)
    ensures
        r == winner_side(*m),
{
    if m.winner_team_id.is_some() && same_team(&m.winner_team_id, &m.home_team_id) {
        return Some(Side::Home);
    }
    if m.winner_team_id.is_some() && same_team(&m.winner_team_id, &m.away_team_id) {
        return Some(Side::Away);
    }
    match (m.home_score, m.away_score) {
        (Some(h), Some(a)) if h > a => Some(Side::Home),
        (Some(h), Some(a)) if a > h => Some(Side::Away),
        _ => match (m.home_penalty_score, m.away_penalty_score) {
            (Some(h), Some(a)) if h > a => Some(Side::Home),
            (Some(h), Some(a)) if a > h => Some(Side::Away),
            _ => None,
        },
    }
}

/// What the detail filters let through: with none selected every shown event;
/// otherwise an event that any selected filter lets through, where the goals
/// filter takes goals, own goals and half time, the card and substitution
/// filters their own kind, and key moments only come with `All`. Dropped
/// events never pass.
pub proof fn timeline_filters_let_through(filters: Seq<TimelineFilter>, kind: Option<TimelineEventKind>)
    ensures
        kind is None ==> !filters_admit(filters, kind),
        filters.len() == 0 ==> (filters_admit(filters, kind) <==> kind is Some),
        filters.len() > 0 ==> (filters_admit(filters, kind) <==> exists|i: int|
            0 <= i < filters.len() && filter_admits(#[trigger] filters[i], kind)),
        filter_admits(TimelineFilter::Goals, kind) <==> (kind == Some(TimelineEventKind::Goal) || kind == Some(
            TimelineEventKind::OwnGoal,
        ) || kind == Some(TimelineEventKind::HalfTime)),
        filter_admits(TimelineFilter::RedCards, kind) <==> kind == Some(TimelineEventKind::RedCard),
        filter_admits(TimelineFilter::YellowCards, kind) <==> kind == Some(TimelineEventKind::YellowCard),
        filter_admits(TimelineFilter::Substitutions, kind) <==> kind == Some(TimelineEventKind::Substitution),
        filter_admits(TimelineFilter::All, kind) <==> kind is Some,
{
}

/// Card counts add up: the cards of a team over two runs of events are those
/// of the first run plus those of the second.
pub proof fn card_counts_add_up(
    a: Seq<&TimelineEvent>,
    b: Seq<&TimelineEvent>,
    team: Seq<char>,
    kind: TimelineEventKind,
)
    ensures
        count_kind(a + b, team, kind) == count_kind(a, team, kind) + count_kind(b, team, kind),
    decreases b.len(),
{
    if b.len() == 0 {
        assert(a + b =~= a);
    } else {
        card_counts_add_up(a, b.drop_last(), team, kind);
        assert((a + b).drop_last() =~= a + b.drop_last());
        assert((a + b).last() == b.last());
    }
}

/// An event counts for a team exactly when it is that team's and of that
/// kind.
pub proof fn one_event_counts_when_it_is_the_teams(e: &TimelineEvent, team: Seq<char>, kind: TimelineEventKind)
    ensures
        count_kind(seq![e], team, kind) == (if team_option_view(e.team_id) == Some(team) && event_kind(*e)
            == Some(kind) {
            1nat
        } else {
            0nat
        }),
{
    let s = seq![e];
    assert(s.drop_last() =~= Seq::<&TimelineEvent>::empty());
    assert(s.last() == e);
    assert(count_kind(s.drop_last(), team, kind) == 0);
}

/// An event of the home team stands on the home side, of the away team on
/// the away side, except that an own goal stands on the side it counts for;
/// an event of neither team stands in the middle.
pub proof fn own_goals_count_for_the_other_side(m: Match, e: TimelineEvent, kind: TimelineEventKind)
    requires
        team_option_view(m.home_team_id) != team_option_view(m.away_team_id),
    ensures
        team_option_view(e.team_id) == team_option_view(m.home_team_id) ==> event_side(m, e, kind) == (if kind
            == TimelineEventKind::OwnGoal {
            TimelineSide::Away
        } else {
            TimelineSide::Home
        }),
        team_option_view(e.team_id) == team_option_view(m.away_team_id) ==> event_side(m, e, kind) == (if kind
            == TimelineEventKind::OwnGoal {
            TimelineSide::Home
        } else {
            TimelineSide::Away
        }),
        team_option_view(e.team_id) != team_option_view(m.home_team_id) && team_option_view(e.team_id)
            != team_option_view(m.away_team_id) ==> event_side(m, e, kind) == TimelineSide::Neutral,
{
}

} // verus!
