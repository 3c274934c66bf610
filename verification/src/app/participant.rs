//! Who stands in each slot of the bracket: the team a match already names,
//! the team a group position or an earlier match sends there, or a
//! placeholder such as `1A`, `3ABCDF` or `W73`.

use vstd::prelude::*;

use crate::app::state::{ref_team_view, standing_position, team_code_text, is_favorite_team, match_position_by_number, App};
use crate::bracket::{group_letter, group_letters, letter, ParticipantSource};
use crate::domain::ids::TeamId;
use crate::domain::matches::Match;
use crate::domain::standings::{qualification_of, text_option_view, QualificationState};
use crate::domain::tournament::Group;
use crate::text::{decimal, owned, push_char, push_decimal, push_text};

verus! {

/// One side of a match.
#[derive(Clone, Copy, Debug, Eq, PartialEq, Structural)]
pub enum Side {
    Home,
    Away,
}

/// Which team of an earlier match a slot takes.
#[derive(Clone, Copy, Debug, Eq, PartialEq, Structural)]
pub enum UpstreamResult {
    Winner,
    RunnerUp,
}

/// A slot of a bracket card.
#[derive(Clone, Debug)]
pub struct Participant {
    pub code: String,
    pub score: Option<u8>,
    pub team_id: Option<TeamId>,
    pub qualification_state: QualificationState,
    pub winner: bool,
    pub favorite: bool,
}

pub ghost struct ParticipantView {
    pub code: Seq<char>,
    pub score: Option<u8>,
    pub team_id: Option<Seq<char>>,
    pub qualification_state: QualificationState,
    pub winner: bool,
    pub favorite: bool,
}

pub open spec fn team_option_view(o: Option<TeamId>) -> Option<Seq<char>> {
    match o {
        Some(t) => Some(t@),
        None => None,
    }
}

impl View for Participant {
    type V = ParticipantView;

    open spec fn view(&self) -> ParticipantView {
        ParticipantView {
            code: self.code@,
            score: self.score,
            team_id: team_option_view(self.team_id),
            qualification_state: self.qualification_state,
            winner: self.winner,
            favorite: self.favorite,
        }
    }
}

/// A slot that names no team yet, only where its team will come from.
pub open spec fn placeholder_view(label: Seq<char>) -> ParticipantView {
    ParticipantView {
        code: label,
        score: None,
        team_id: None,
        qualification_state: QualificationState::Open,
        winner: false,
        favorite: false,
    }
}

impl Participant {
    pub fn placeholder(label: String) -> (r: Participant)
        ensures
            r@ == placeholder_view(label@),
    {
        Participant {
            code: label,
            score: None,
            team_id: None,
            qualification_state: QualificationState::Open,
            winner: false,
            favorite: false,
        }
    }
}

/// The team a side of `m` names, with the name the match gives it.
pub open spec fn side_team(m: Match, side: Side) -> Option<(Seq<char>, Seq<char>)> {
    match side {
        Side::Home => match m.home_team_id {
            Some(id) => Some((id@, m.home_team_name@)),
            None => None,
        },
        Side::Away => match m.away_team_id {
            Some(id) => Some((id@, m.away_team_name@)),
            None => None,
        },
    }
}

pub open spec fn side_score(m: Match, side: Side) -> Option<u8> {
    match side {
        Side::Home => m.home_score,
        Side::Away => m.away_score,
    }
}

/// Whether `team` on `side` won `m`: the match names it the winner, or it
/// scored more, or (level) it won the shoot-out.
pub open spec fn won(m: Match, side: Side, team: Seq<char>) -> bool {
    ||| (m.winner_team_id matches Some(w) && w@ == team)
    ||| (match (m.home_score, m.away_score) {
        (Some(h), Some(a)) => match side {
            Side::Home => h > a || (h == a && (m.home_penalty_score matches Some(hp) && (
            m.away_penalty_score matches Some(ap) && hp > ap))),
            Side::Away => a > h || (h == a && (m.home_penalty_score matches Some(hp) && (
            m.away_penalty_score matches Some(ap) && ap > hp))),
        },
        _ => false,
    })
}

pub fn match_side_team(m: &Match, side: Side) -> (r: Option<(&TeamId, &str)>)
    ensures
        match side_team(*m, side) {
            Some((id, name)) => r matches Some(x) && x.0@ == id && x.1@ == name,
            None => r is None,
        },
{
    match side {
        Side::Home => match &m.home_team_id {
            Some(id) => Some((id, m.home_team_name.as_str())),
            None => None,
        },
        Side::Away => match &m.away_team_id {
            Some(id) => Some((id, m.away_team_name.as_str())),
            None => None,
        },
    }
}

pub fn match_side_score(m: &Match, side: Side) -> (r: Option<u8>)
    ensures
        r == side_score(*m, side),
{
    match side {
        Side::Home => m.home_score,
        Side::Away => m.away_score,
    }
}

pub fn side_won(m: &Match, side: Side, team_id: &TeamId) -> (r: bool)
    ensures
        r == won(*m, side, team_id@),
{
    if let Some(w) = &m.winner_team_id {
        if w == team_id {
            return true;
        }
    }
    let home = match m.home_score {
        Some(s) => s,
        None => return false,
    };
    let away = match m.away_score {
        Some(s) => s,
        None => return false,
    };
    let shootout = match (m.home_penalty_score, m.away_penalty_score) {
        (Some(hp), Some(ap)) => match side {
            Side::Home => hp > ap,
            Side::Away => ap > hp,
        },
        _ => false,
    };
    match side {
        Side::Home => home > away || (home == away && shootout),
        Side::Away => away > home || (home == away && shootout),
    }
}

/// A slot filled by a team that has earned its place.
pub open spec fn team_view(app: &App, id: Seq<char>, name: Seq<char>) -> ParticipantView {
    ParticipantView {
        code: team_code_text(app.data().teams@, Some(id), name),
        score: None,
        team_id: Some(id),
        qualification_state: QualificationState::Qualified,
        winner: false,
        favorite: is_favorite_team(app.data().teams@, id),
    }
}

/// The side of `m` that the winner (or runner-up) is on: the first side
/// whose team is (or is not) `winner`.
pub open spec fn upstream_pick(m: Match, result: UpstreamResult, winner: Seq<char>) -> Option<(Seq<char>, Seq<char>)> {
    let h = side_team(m, Side::Home);
    let a = side_team(m, Side::Away);
    let fits = |x: Option<(Seq<char>, Seq<char>)>|
        match x {
            Some(t) => if result == UpstreamResult::Winner { t.0 == winner } else { t.0 != winner },
            None => false,
        };
    if fits(h) {
        h
    } else if fits(a) {
        a
    } else {
        None
    }
}

/// The slot an earlier match fills: its winner or runner-up once it names a
/// winner, else the placeholder.
pub open spec fn upstream_view(app: &App, number: u16, result: UpstreamResult, placeholder: Seq<char>) -> ParticipantView {
    match match_position_by_number(app.data().matches@, number) {
        None => placeholder_view(placeholder),
        Some(p) => {
            let m = app.data().matches@[p];
            match m.winner_team_id {
                None => placeholder_view(placeholder),
                Some(w) => match upstream_pick(m, result, w@) {
                    Some(t) => team_view(app, t.0, t.1),
                    None => placeholder_view(placeholder),
                },
            }
        },
    }
}

/// A winner or runner-up slot shows a team once the match it comes from is
/// loaded with both teams and names one of them as its winner: the winner
/// slot that team, the runner-up slot the other; until then each slot shows
/// its placeholder.
pub proof fn upstream_slots_resolve(app: &App, number: u16, placeholder: Seq<char>)
    ensures
        match match_position_by_number(app.data().matches@, number) {
            Some(p) => {
                let m = app.data().matches@[p];
                match (m.winner_team_id, side_team(m, Side::Home), side_team(m, Side::Away)) {
                    (Some(w), Some(h), Some(a)) => {
                        &&& (h.0 == w@ && a.0 != w@) ==> (upstream_view(app, number, UpstreamResult::Winner, placeholder)
                            == team_view(app, h.0, h.1) && upstream_view(app, number, UpstreamResult::RunnerUp, placeholder)
                            == team_view(app, a.0, a.1))
                        &&& (a.0 == w@ && h.0 != w@) ==> (upstream_view(app, number, UpstreamResult::Winner, placeholder)
                            == team_view(app, a.0, a.1) && upstream_view(app, number, UpstreamResult::RunnerUp, placeholder)
                            == team_view(app, h.0, h.1))
                    },
                    (None, _, _) => upstream_view(app, number, UpstreamResult::Winner, placeholder) == placeholder_view(placeholder)
                        && upstream_view(app, number, UpstreamResult::RunnerUp, placeholder) == placeholder_view(placeholder),
                    _ => true,
                }
            },
            None => upstream_view(app, number, UpstreamResult::Winner, placeholder) == placeholder_view(placeholder)
                && upstream_view(app, number, UpstreamResult::RunnerUp, placeholder) == placeholder_view(placeholder),
        },
{
}

pub fn resolve_upstream_result(app: &App, match_number: u16, result: UpstreamResult, placeholder: String) -> (r: Participant)
    ensures
        r@ == upstream_view(app, match_number, result, placeholder@),
{
    let m = match app.match_by_number(match_number) {
        Some(m) => m,
        None => return Participant::placeholder(placeholder),
    };
    let winner = match &m.winner_team_id {
        Some(w) => w,
        None => return Participant::placeholder(placeholder),
    };
    let ghost w = winner@;
    let home = match_side_team(m, Side::Home);
    let away = match_side_team(m, Side::Away);
    let picked = match home {
        Some(t) if (result == UpstreamResult::Winner) == (t.0 == winner) => Some(t),
        _ => match away {
            Some(t) if (result == UpstreamResult::Winner) == (t.0 == winner) => Some(t),
            _ => None,
        },
    };
    match picked {
        Some((team_id, name)) => Participant {
            code: app.match_team_code(Some(team_id), name),
            score: None,
            team_id: Some(team_id.clone()),
            qualification_state: QualificationState::Qualified,
            winner: false,
            favorite: app.team_is_favorite(team_id),
        },
        None => Participant::placeholder(placeholder),
    }
}

/// The slot a group position, a best-third draw or an earlier match fills.
pub open spec fn source_view(app: &App, source: ParticipantSource) -> ParticipantView {
    let teams = app.data().teams@;
    let rows = app.data().standings@;
    match source {
        ParticipantSource::GroupPosition { group, position } => {
            let slot = decimal(position as nat).push(group_letter(group));
            match standing_position(rows, group, position) {
                Some(p) => ParticipantView {
                    code: slot + "-"@ + team_code_text(teams, Some(rows[p].team_id@), rows[p].team_name@),
                    score: None,
                    team_id: Some(rows[p].team_id@),
                    qualification_state: qualification_of(text_option_view(rows[p].qualification_status)),
                    winner: false,
                    favorite: is_favorite_team(teams, rows[p].team_id@),
                },
                None => placeholder_view(slot),
            }
        },
        ParticipantSource::BestThird(groups) => placeholder_view(
            "3"@ + groups@.map_values(|g: Group| group_letter(g)),
        ),
        ParticipantSource::Winner(n) => upstream_view(app, n, UpstreamResult::Winner, "W"@ + decimal(n as nat)),
        ParticipantSource::RunnerUp(n) => upstream_view(app, n, UpstreamResult::RunnerUp, "RU"@ + decimal(n as nat)),
    }
}

/// Who stands on `side` of a bracket card: the team the loaded match
/// names there, with its score and whether it won; otherwise the team (or
/// placeholder) the slot's source gives, never marked as a winner.
pub open spec fn participant_view(app: &App, m: Option<Match>, side: Side, source: ParticipantSource) -> ParticipantView {
    let named = match m {
        Some(x) => side_team(x, side),
        None => None,
    };
    match named {
        Some(t) => ParticipantView {
            code: team_code_text(app.data().teams@, Some(t.0), t.1),
            score: side_score(m->Some_0, side),
            team_id: Some(t.0),
            qualification_state: QualificationState::Qualified,
            winner: won(m->Some_0, side, t.0),
            favorite: is_favorite_team(app.data().teams@, t.0),
        },
        None => ParticipantView { winner: false, ..source_view(app, source) },
    }
}

pub open spec fn match_option_view(m: Option<&Match>) -> Option<Match> {
    match m {
        Some(x) => Some(*x),
        None => None,
    }
}

fn source_participant(app: &App, source: ParticipantSource) -> (r: Participant)
    ensures
        r@ == source_view(app, source),
{
    match source {
        ParticipantSource::GroupPosition { group, position } => {
            let mut slot = String::new();
            push_decimal(&mut slot, position as u64);
            push_char(&mut slot, letter(group));
            assert(slot@ == decimal(position as nat).push(group_letter(group)));
            match app.standing_for_group_position(group, position) {
                Some(row) => {
                    let mut code = slot;
                    push_text(&mut code, "-");
                    let team = app.match_team_code(Some(&row.team_id), row.team_name.as_str());
                    push_text(&mut code, team.as_str());
                    Participant {
                        code,
                        score: None,
                        team_id: Some(row.team_id.clone()),
                        qualification_state: row.qualification_state(),
                        winner: false,
                        favorite: app.team_is_favorite(&row.team_id),
                    }
                },
                None => Participant::placeholder(slot),
            }
        },
        ParticipantSource::BestThird(groups) => {
            let mut label = owned("3");
            let letters = group_letters(&groups);
            push_text(&mut label, letters.as_str());
            Participant::placeholder(label)
        },
        ParticipantSource::Winner(n) => {
            let mut label = owned("W");
            push_decimal(&mut label, n as u64);
            resolve_upstream_result(app, n, UpstreamResult::Winner, label)
        },
        ParticipantSource::RunnerUp(n) => {
            let mut label = owned("RU");
            push_decimal(&mut label, n as u64);
            resolve_upstream_result(app, n, UpstreamResult::RunnerUp, label)
        },
    }
}

pub fn resolve_participant(app: &App, m: Option<&Match>, side: Side, source: ParticipantSource) -> (r: Participant)
    ensures
        r@ == participant_view(app, match_option_view(m), side, source),
{
    if let Some(x) = m {
        if let Some((team_id, name)) = match_side_team(x, side) {
            return Participant {
                code: app.match_team_code(Some(team_id), name),
                score: match_side_score(x, side),
                team_id: Some(team_id.clone()),
                qualification_state: QualificationState::Qualified,
                winner: side_won(x, side, team_id),
                favorite: app.team_is_favorite(team_id),
            };
        }
    }
    let mut p = source_participant(app, source);
    p.winner = false;
    p
}

/// Unless the match names it the winner, a side has won only when both
/// scores are known and it scored more, or the scores are level and it
/// scored more in a shoot-out; and then it has won.
pub proof fn a_side_wins_by_outscoring(m: Match, team: Seq<char>)
    requires
        !(m.winner_team_id matches Some(w) && w@ == team),
    ensures
        won(m, Side::Home, team) <==> (m.home_score is Some && m.away_score is Some && (m.home_score->0
            > m.away_score->0 || (m.home_score->0 == m.away_score->0 && m.home_penalty_score is Some
            && m.away_penalty_score is Some && m.home_penalty_score->0 > m.away_penalty_score->0))),
        won(m, Side::Away, team) <==> (m.home_score is Some && m.away_score is Some && (m.away_score->0
            > m.home_score->0 || (m.home_score->0 == m.away_score->0 && m.home_penalty_score is Some
            && m.away_penalty_score is Some && m.away_penalty_score->0 > m.home_penalty_score->0))),
{
}

/// When the match names neither team its winner, at most one side of it has
/// won: a level score with no decisive shoot-out crowns nobody.
pub proof fn at_most_one_side_wins(m: Match, home_team: Seq<char>, away_team: Seq<char>)
    requires
        !(m.winner_team_id matches Some(w) && w@ == home_team),
        !(m.winner_team_id matches Some(w) && w@ == away_team),
    ensures
        !(won(m, Side::Home, home_team) && won(m, Side::Away, away_team)),
        m.home_score == m.away_score && !(m.home_penalty_score is Some && m.away_penalty_score is Some
            && m.home_penalty_score != m.away_penalty_score) ==> !won(m, Side::Home, home_team) && !won(
            m,
            Side::Away,
            away_team,
        ),
{
    a_side_wins_by_outscoring(m, home_team);
    a_side_wins_by_outscoring(m, away_team);
}

/// The team the match names as its winner has won, whatever the score.
pub proof fn named_winner_has_won(m: Match, side: Side, team: Seq<char>)
    requires
        m.winner_team_id matches Some(w) && w@ == team,
    ensures
        won(m, side, team),
{
}

} // verus!
