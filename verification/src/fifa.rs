//! FIFA's API payloads as plain records, and how each maps onto the domain
//! model. Every text field is trimmed; a field that is empty after trimming
//! counts as absent; numbers must fit the domain's integer types.

use vstd::prelude::*;

use crate::domain::ids::{GroupId, MatchId, TeamId};
use crate::domain::matches::{Match, MatchStatus};
use crate::domain::standings::{text_option_view, StandingRow};
use crate::domain::stats::PlayerStat;
use crate::domain::team::Team;
use crate::domain::time::{parsed_timestamp, Timestamp};
use crate::domain::timeline::TimelineEvent;
use crate::domain::tournament::{
    confederation_code, group_id_text, group_name_text, stage_id_text, stage_name_text, stage_rank,
    Confederation, Group, Stage, UnknownValue, ValueKind,
};
use crate::text::{chars_of, same_text, string_from_chars, trim, trim_chars};

verus! {

/// A text in one locale.
#[derive(Debug)]
pub struct FifaLocalizedText {
    pub locale: Option<String>,
    pub description: Option<String>,
}

#[derive(Debug)]
pub struct FifaTeam {
    pub id_team: String,
    pub id_confederation: String,
    pub name: Vec<FifaLocalizedText>,
    pub id_country: String,
    pub short_club_name: Option<String>,
    pub abbreviation: Option<String>,
    pub picture_url: Option<String>,
}

/// A team's line in FIFA's ranking; its points, a decimal figure, are kept
/// outside the library.
#[derive(Debug)]
pub struct FifaRankingRow {
    pub id_team: String,
    pub rank: Option<i64>,
}

#[derive(Debug)]
pub struct FifaMatchTeam {
    pub score: Option<i64>,
    pub id_team: Option<String>,
    pub team_name: Vec<FifaLocalizedText>,
    pub short_club_name: Option<String>,
    pub abbreviation: Option<String>,
}

#[derive(Debug)]
pub struct FifaStadium {
    pub name: Vec<FifaLocalizedText>,
}

#[derive(Debug)]
pub struct FifaMatch {
    pub id_stage: String,
    pub id_group: Option<String>,
    pub id_match: String,
    pub match_number: Option<i64>,
    pub stage_name: Vec<FifaLocalizedText>,
    pub group_name: Vec<FifaLocalizedText>,
    pub date: String,
    pub home: Option<FifaMatchTeam>,
    pub away: Option<FifaMatchTeam>,
    pub home_team_score: Option<i64>,
    pub away_team_score: Option<i64>,
    pub home_team_penalty_score: Option<i64>,
    pub away_team_penalty_score: Option<i64>,
    pub match_status: Option<i64>,
    pub result_type: Option<i64>,
    pub match_time: Option<String>,
    pub stadium: Option<FifaStadium>,
    pub attendance: Option<String>,
    pub winner: Option<String>,
    pub placeholder_a: Option<String>,
    pub placeholder_b: Option<String>,
}

#[derive(Debug)]
pub struct FifaStandingRow {
    pub id_group: String,
    pub id_team: String,
    pub group: Vec<FifaLocalizedText>,
    pub team: Option<FifaTeam>,
    pub position: Option<i64>,
    pub played: Option<i64>,
    pub won: Option<i64>,
    pub drawn: Option<i64>,
    pub lost: Option<i64>,
    pub goals_for: Option<i64>,
    pub goals_against: Option<i64>,
    pub goal_difference: Option<i64>,
    pub points: Option<i64>,
    pub qualification_status: Option<String>,
    pub team_conduct_score: Option<i64>,
}

#[derive(Debug)]
pub struct FifaPlayerInfo {
    pub id_player: String,
    pub id_country: String,
    pub player_name: Vec<FifaLocalizedText>,
    pub id_team: String,
}

#[derive(Debug)]
pub struct FifaPlayerStat {
    pub player_info: FifaPlayerInfo,
    pub rank: Option<i64>,
    pub matches_played: Option<i64>,
    pub actual_minutes_played: Option<i64>,
    pub goals_scored: Option<i64>,
    pub assists: Option<i64>,
    pub total_attempts: Option<i64>,
    pub attempts_on_target: Option<i64>,
}

#[derive(Debug)]
pub struct FifaTimelineEvent {
    pub id_team: Option<String>,
    pub id_player: Option<String>,
    pub match_minute: Option<String>,
    pub event_type: Option<i64>,
    pub event_description: Vec<FifaLocalizedText>,
}

#[derive(Debug)]
pub struct FifaTimelineResponse {
    pub id_match: String,
    pub event: Vec<FifaTimelineEvent>,
}

/// A payload field, by the name FIFA gives it.
#[derive(Clone, Copy, Debug, Eq, PartialEq, Structural)]
pub enum Field {
    IdTeam,
    IdConfederation,
    Abbreviation,
    IdCountry,
    Rank,
    IdStage,
    IdGroup,
    IdMatch,
    MatchNumber,
    Date,
    HomeTeamScore,
    AwayTeamScore,
    HomeTeamPenaltyScore,
    AwayTeamPenaltyScore,
    Position,
    Played,
    Won,
    Drawn,
    Lost,
    For,
    Against,
    GoalsDiference,
    Points,
    TeamConductScore,
    IdPlayer,
    MatchesPlayed,
    ActualMinutesPlayed,
    GoalsScored,
    Assists,
    TotalAttempts,
    AttemptsOnTarget,
    Type,
}

/// The field's name in FIFA's payloads.
pub open spec fn field_text(f: Field) -> Seq<char> {
    match f {
        Field::IdTeam => "IdTeam"@,
        Field::IdConfederation => "IdConfederation"@,
        Field::Abbreviation => "Abbreviation"@,
        Field::IdCountry => "IdCountry"@,
        Field::Rank => "Rank"@,
        Field::IdStage => "IdStage"@,
        Field::IdGroup => "IdGroup"@,
        Field::IdMatch => "IdMatch"@,
        Field::MatchNumber => "MatchNumber"@,
        Field::Date => "Date"@,
        Field::HomeTeamScore => "HomeTeamScore"@,
        Field::AwayTeamScore => "AwayTeamScore"@,
        Field::HomeTeamPenaltyScore => "HomeTeamPenaltyScore"@,
        Field::AwayTeamPenaltyScore => "AwayTeamPenaltyScore"@,
        Field::Position => "Position"@,
        Field::Played => "Played"@,
        Field::Won => "Won"@,
        Field::Drawn => "Drawn"@,
        Field::Lost => "Lost"@,
        Field::For => "For"@,
        Field::Against => "Against"@,
        Field::GoalsDiference => "GoalsDiference"@,
        Field::Points => "Points"@,
        Field::TeamConductScore => "TeamConductScore"@,
        Field::IdPlayer => "IdPlayer"@,
        Field::MatchesPlayed => "MatchesPlayed"@,
        Field::ActualMinutesPlayed => "ActualMinutesPlayed"@,
        Field::GoalsScored => "GoalsScored"@,
        Field::Assists => "Assists"@,
        Field::TotalAttempts => "TotalAttempts"@,
        Field::AttemptsOnTarget => "AttemptsOnTarget"@,
        Field::Type => "Type"@,
    }
}

impl Field {
    /// The field's name in FIFA's payloads.
    pub fn name(self) -> (r: &'static str)
        ensures
            r@ == field_text(self),
    {
        match self {
            Field::IdTeam => "IdTeam",
            Field::IdConfederation => "IdConfederation",
            Field::Abbreviation => "Abbreviation",
            Field::IdCountry => "IdCountry",
            Field::Rank => "Rank",
            Field::IdStage => "IdStage",
            Field::IdGroup => "IdGroup",
            Field::IdMatch => "IdMatch",
            Field::MatchNumber => "MatchNumber",
            Field::Date => "Date",
            Field::HomeTeamScore => "HomeTeamScore",
            Field::AwayTeamScore => "AwayTeamScore",
            Field::HomeTeamPenaltyScore => "HomeTeamPenaltyScore",
            Field::AwayTeamPenaltyScore => "AwayTeamPenaltyScore",
            Field::Position => "Position",
            Field::Played => "Played",
            Field::Won => "Won",
            Field::Drawn => "Drawn",
            Field::Lost => "Lost",
            Field::For => "For",
            Field::Against => "Against",
            Field::GoalsDiference => "GoalsDiference",
            Field::Points => "Points",
            Field::TeamConductScore => "TeamConductScore",
            Field::IdPlayer => "IdPlayer",
            Field::MatchesPlayed => "MatchesPlayed",
            Field::ActualMinutesPlayed => "ActualMinutesPlayed",
            Field::GoalsScored => "GoalsScored",
            Field::Assists => "Assists",
            Field::TotalAttempts => "TotalAttempts",
            Field::AttemptsOnTarget => "AttemptsOnTarget",
            Field::Type => "Type",
        }
    }
}

/// Why a payload could not be mapped.
#[derive(Debug)]
pub enum PayloadError {
    /// A required field is absent or blank.
    MissingField(Field),
    /// A number does not fit the domain's integer type.
    OutOfRange { field: Field, value: i64 },
    /// A code or identifier outside the tournament's fixed vocabulary.
    Unknown(UnknownValue),
    /// A text that is not an instant.
    InvalidTimestamp { field: Field, value: String },
    /// An attendance that is not a number, with the text as given.
    InvalidAttendance(String),
    /// A team without any display name.
    MissingTeamName,
    /// A standing row without a team display name.
    MissingStandingTeamName,
    /// A player statistic without a player name.
    MissingPlayerName,
    /// A timeline with more events than an event index can count.
    TooManyEvents,
}

/// A payload error with its texts taken as values.
pub ghost enum ErrorView {
    MissingField(Field),
    OutOfRange(Field, i64),
    Unknown(ValueKind, Seq<char>),
    InvalidTimestamp(Field, Seq<char>),
    InvalidAttendance(Seq<char>),
    MissingTeamName,
    MissingStandingTeamName,
    MissingPlayerName,
    TooManyEvents,
}

pub open spec fn error_view(e: PayloadError) -> ErrorView {
    match e {
        PayloadError::MissingField(f) => ErrorView::MissingField(f),
        PayloadError::OutOfRange { field, value } => ErrorView::OutOfRange(field, value),
        PayloadError::Unknown(u) => ErrorView::Unknown(u.kind, u.value@),
        PayloadError::InvalidTimestamp { field, value } => ErrorView::InvalidTimestamp(
            field,
            value@,
        ),
        PayloadError::InvalidAttendance(v) => ErrorView::InvalidAttendance(v@),
        PayloadError::MissingTeamName => ErrorView::MissingTeamName,
        PayloadError::MissingStandingTeamName => ErrorView::MissingStandingTeamName,
        PayloadError::MissingPlayerName => ErrorView::MissingPlayerName,
        PayloadError::TooManyEvents => ErrorView::TooManyEvents,
    }
}

// ---------------------------------------------------------------------------
// Texts

/// The trimmed text, or nothing when it is blank.
pub open spec fn non_empty_text(s: Seq<char>) -> Option<Seq<char>> {
    if trim(s).len() == 0 {
        None
    } else {
        Some(trim(s))
    }
}

/// An optional text, trimmed, blank counting as absent.
pub open spec fn owned_text(o: Option<String>) -> Option<Seq<char>> {
    match o {
        Some(s) => non_empty_text(s@),
        None => None,
    }
}

pub fn non_empty(value: &str) -> (r: Option<String>)
    ensures
        text_option_view(r) == non_empty_text(value@),
{
    let t = trim_chars(chars_of(value).as_slice());
    if t.len() == 0 {
        None
    } else {
        Some(string_from_chars(t.as_slice()))
    }
}

pub fn optional_owned(value: &Option<String>) -> (r: Option<String>)
    ensures
        text_option_view(r) == owned_text(*value),
{
    match value {
        Some(s) => non_empty(s.as_str()),
        None => None,
    }
}

/// A required text: trimmed, or the field reported missing.
pub open spec fn required_text(s: Seq<char>, field: Field) -> Result<Seq<char>, ErrorView> {
    match non_empty_text(s) {
        Some(t) => Ok(t),
        None => Err(ErrorView::MissingField(field)),
    }
}

pub open spec fn text_result_view(r: Result<String, PayloadError>) -> Result<Seq<char>, ErrorView> {
    match r {
        Ok(s) => Ok(s@),
        Err(e) => Err(error_view(e)),
    }
}

pub fn required_non_empty(value: &str, field: Field) -> (r: Result<String, PayloadError>)
    ensures
        text_result_view(r) == required_text(value@, field),
{
    match non_empty(value) {
        Some(s) => Ok(s),
        None => Err(PayloadError::MissingField(field)),
    }
}

pub open spec fn required_owned_text(o: Option<String>, field: Field) -> Result<Seq<char>, ErrorView> {
    match owned_text(o) {
        Some(t) => Ok(t),
        None => Err(ErrorView::MissingField(field)),
    }
}

pub fn required_owned(value: &Option<String>, field: Field) -> (r: Result<String, PayloadError>)
    ensures
        text_result_view(r) == required_owned_text(*value, field),
{
    match optional_owned(value) {
        Some(s) => Ok(s),
        None => Err(PayloadError::MissingField(field)),
    }
}

/// A team reference: its trimmed identifier, where `0` means no team.
pub open spec fn team_ref(o: Option<String>) -> Option<Seq<char>> {
    match owned_text(o) {
        Some(t) => if t == "0"@ {
            None
        } else {
            Some(t)
        },
        None => None,
    }
}

pub open spec fn team_id_option_view(o: Option<TeamId>) -> Option<Seq<char>> {
    match o {
        Some(t) => Some(t@),
        None => None,
    }
}

pub fn optional_team_id(value: &Option<String>) -> (r: Option<TeamId>)
    ensures
        team_id_option_view(r) == team_ref(*value),
{
    match optional_owned(value) {
        Some(s) => {
            if same_text(s.as_str(), "0") {
                None
            } else {
                Some(TeamId::new(s))
            }
        },
        None => None,
    }
}

pub open spec fn is_en_gb(locale: Option<String>) -> bool {
    locale matches Some(l) && l@ == "en-GB"@
}

/// Index of the first British English text, from position `i` on.
pub open spec fn first_en_gb_from(values: Seq<FifaLocalizedText>, i: int) -> Option<int>
    decreases values.len() - i,
{
    if i < 0 || i >= values.len() {
        None
    } else if is_en_gb(values[i].locale) {
        Some(i)
    } else {
        first_en_gb_from(values, i + 1)
    }
}

/// The first non-blank description, from position `i` on.
pub open spec fn first_described_from(values: Seq<FifaLocalizedText>, i: int) -> Option<Seq<char>>
    decreases values.len() - i,
{
    if i < 0 || i >= values.len() {
        None
    } else {
        match owned_text(values[i].description) {
            Some(t) => Some(t),
            None => first_described_from(values, i + 1),
        }
    }
}

/// The text to show of a localized list: the first British English entry's
/// description when it is not blank, and otherwise the first non-blank
/// description in any locale.
pub open spec fn localized(values: Seq<FifaLocalizedText>) -> Option<Seq<char>> {
    let primary = match first_en_gb_from(values, 0) {
        Some(i) => owned_text(values[i].description),
        None => None,
    };
    if primary is Some {
        primary
    } else {
        first_described_from(values, 0)
    }
}

fn first_en_gb(values: &Vec<FifaLocalizedText>) -> (r: Option<usize>)
    ensures
        match r {
            Some(k) => first_en_gb_from(values@, 0) == Some(k as int) && k < values@.len(),
            None => first_en_gb_from(values@, 0) is None,
        },
{
    let mut i: usize = 0;
    while i < values.len()
        invariant
            i <= values@.len(),
            first_en_gb_from(values@, 0) == first_en_gb_from(values@, i as int),
        decreases values@.len() - i,
    {
        let is_gb = match &values[i].locale {
            Some(l) => same_text(l.as_str(), "en-GB"),
            None => false,
        };
        if is_gb {
            return Some(i);
        }
        i = i + 1;
    }
    None
}

fn first_described(values: &Vec<FifaLocalizedText>) -> (r: Option<String>)
    ensures
        text_option_view(r) == first_described_from(values@, 0),
{
    let mut j: usize = 0;
    while j < values.len()
        invariant
            j <= values@.len(),
            first_described_from(values@, 0) == first_described_from(values@, j as int),
        decreases values@.len() - j,
    {
        let d = optional_owned(&values[j].description);
        if d.is_some() {
            return d;
        }
        j = j + 1;
    }
    None
}

pub fn localized_text(values: &Vec<FifaLocalizedText>) -> (r: Option<String>)
    ensures
        text_option_view(r) == localized(values@),
{
    let primary = match first_en_gb(values) {
        Some(k) => optional_owned(&values[k].description),
        None => None,
    };
    if primary.is_some() {
        primary
    } else {
        first_described(values)
    }
}

// ---------------------------------------------------------------------------
// Numbers

pub open spec fn opt_int_result_u8(value: Option<i64>, field: Field) -> Result<Option<u8>, ErrorView> {
    match value {
        None => Ok(None),
        Some(v) => if 0 <= v <= 255 {
            Ok(Some(v as u8))
        } else {
            Err(ErrorView::OutOfRange(field, v))
        },
    }
}

pub open spec fn opt_int_result_u16(value: Option<i64>, field: Field) -> Result<Option<u16>, ErrorView> {
    match value {
        None => Ok(None),
        Some(v) => if 0 <= v <= 65535 {
            Ok(Some(v as u16))
        } else {
            Err(ErrorView::OutOfRange(field, v))
        },
    }
}

pub open spec fn opt_int_result_i16(value: Option<i64>, field: Field) -> Result<Option<i16>, ErrorView> {
    match value {
        None => Ok(None),
        Some(v) => if -32768 <= v <= 32767 {
            Ok(Some(v as i16))
        } else {
            Err(ErrorView::OutOfRange(field, v))
        },
    }
}

pub open spec fn required_of<T>(r: Result<Option<T>, ErrorView>, field: Field) -> Result<T, ErrorView> {
    match r {
        Ok(Some(v)) => Ok(v),
        Ok(None) => Err(ErrorView::MissingField(field)),
        Err(e) => Err(e),
    }
}

pub open spec fn result_view<T>(r: Result<T, PayloadError>) -> Result<T, ErrorView> {
    match r {
        Ok(v) => Ok(v),
        Err(e) => Err(error_view(e)),
    }
}

pub fn optional_u8(value: Option<i64>, field: Field) -> (r: Result<Option<u8>, PayloadError>)
    ensures
        result_view(r) == opt_int_result_u8(value, field),
{
    match value {
        None => Ok(None),
        Some(v) => {
            if 0 <= v && v <= 255 {
                Ok(Some(v as u8))
            } else {
                Err(PayloadError::OutOfRange { field, value: v })
            }
        },
    }
}

pub fn required_u8(value: Option<i64>, field: Field) -> (r: Result<u8, PayloadError>)
    ensures
        result_view(r) == required_of(opt_int_result_u8(value, field), field),
{
    match optional_u8(value, field) {
        Ok(Some(v)) => Ok(v),
        Ok(None) => Err(PayloadError::MissingField(field)),
        Err(e) => Err(e),
    }
}

pub fn optional_u16(value: Option<i64>, field: Field) -> (r: Result<Option<u16>, PayloadError>)
    ensures
        result_view(r) == opt_int_result_u16(value, field),
{
    match value {
        None => Ok(None),
        Some(v) => {
            if 0 <= v && v <= 65535 {
                Ok(Some(v as u16))
            } else {
                Err(PayloadError::OutOfRange { field, value: v })
            }
        },
    }
}

pub fn required_u16(value: Option<i64>, field: Field) -> (r: Result<u16, PayloadError>)
    ensures
        result_view(r) == required_of(opt_int_result_u16(value, field), field),
{
    match optional_u16(value, field) {
        Ok(Some(v)) => Ok(v),
        Ok(None) => Err(PayloadError::MissingField(field)),
        Err(e) => Err(e),
    }
}

pub fn optional_i16(value: Option<i64>, field: Field) -> (r: Result<Option<i16>, PayloadError>)
    ensures
        result_view(r) == opt_int_result_i16(value, field),
{
    match value {
        None => Ok(None),
        Some(v) => {
            if -32768 <= v && v <= 32767 {
                Ok(Some(v as i16))
            } else {
                Err(PayloadError::OutOfRange { field, value: v })
            }
        },
    }
}

pub fn required_i16(value: Option<i64>, field: Field) -> (r: Result<i16, PayloadError>)
    ensures
        result_view(r) == required_of(opt_int_result_i16(value, field), field),
{
    match optional_i16(value, field) {
        Ok(Some(v)) => Ok(v),
        Ok(None) => Err(PayloadError::MissingField(field)),
        Err(e) => Err(e),
    }
}

// ---------------------------------------------------------------------------
// Attendance

/// `s` with every comma taken out.
pub open spec fn without_commas(s: Seq<char>) -> Seq<char>
    decreases s.len(),
{
    if s.len() == 0 {
        s
    } else if s.last() == ',' {
        without_commas(s.drop_last())
    } else {
        without_commas(s.drop_last()).push(s.last())
    }
}

pub open spec fn is_digit(c: char) -> bool {
    '0' <= c <= '9'
}

/// The number that a string of decimal digits denotes.
pub open spec fn digits_value(d: Seq<char>) -> nat
    decreases d.len(),
{
    if d.len() == 0 {
        0
    } else {
        digits_value(d.drop_last()) * 10 + ((d.last() as int - '0' as int) as nat)
    }
}

pub open spec fn all_digits(d: Seq<char>) -> bool {
    forall|i: int| 0 <= i < d.len() ==> is_digit(#[trigger] d[i])
}

/// `u32`'s `FromStr`: an optional `+`, then one or more decimal digits whose
/// value fits in 32 bits.
pub open spec fn parsed_u32(s: Seq<char>) -> Option<u32> {
    let d = if s.len() > 0 && s[0] == '+' {
        s.drop_first()
    } else {
        s
    };
    if d.len() > 0 && all_digits(d) && digits_value(d) <= u32::MAX {
        Some(digits_value(d) as u32)
    } else {
        None
    }
}

proof fn lemma_digits_value_grows(d: Seq<char>, k: int)
    requires
        0 <= k <= d.len(),
        forall|i: int| 0 <= i < d.len() ==> is_digit(#[trigger] d[i]),
    ensures
        digits_value(d.take(k)) <= digits_value(d),
    decreases d.len() - k,
{
    if k < d.len() {
        lemma_digits_value_grows(d, k + 1);
        assert(d.take(k + 1).drop_last() =~= d.take(k));
    } else {
        assert(d.take(k) =~= d);
    }
}

fn parse_u32_chars(s: &[char]) -> (r: Option<u32>)
    ensures
        r == parsed_u32(s@),
{
    let start: usize = if s.len() > 0 && s[0] == '+' {
        1
    } else {
        0
    };
    let ghost d = if s@.len() > 0 && s@[0] == '+' {
        s@.drop_first()
    } else {
        s@
    };
    assert(d =~= s@.skip(start as int));
    if start >= s.len() {
        return None;
    }
    let mut acc: u64 = 0;
    let mut i: usize = start;
    while i < s.len()
        invariant
            start <= i <= s@.len(),
            d =~= s@.skip(start as int),
            d == (if s@.len() > 0 && s@[0] == '+' {
                s@.drop_first()
            } else {
                s@
            }),
            d.len() > 0,
            forall|k: int| 0 <= k < i - start ==> is_digit(#[trigger] d[k]),
            acc == digits_value(d.take(i - start)),
            acc <= u32::MAX,
        decreases s@.len() - i,
    {
        let c = s[i];
        assert(d[i - start] == s@[i as int]);
        if !('0' <= c && c <= '9') {
            assert(!is_digit(d[i - start]));
            assert(!(forall|k: int| 0 <= k < d.len() ==> is_digit(#[trigger] d[k])));
            assert(parsed_u32(s@) is None);
            return None;
        }
        let digit = (c as u32 - '0' as u32) as u64;
        assert(d.take(i + 1 - start).drop_last() =~= d.take(i - start));
        let next = acc * 10 + digit;
        if next > 4294967295 {
            proof {
                assert(d.take(i + 1 - start).last() == c);
                assert(digits_value(d.take(i + 1 - start)) == next);
                if forall|k: int| 0 <= k < d.len() ==> is_digit(#[trigger] d[k]) {
                    lemma_digits_value_grows(d, i + 1 - start);
                    assert(digits_value(d) > u32::MAX);
                }
                assert(parsed_u32(s@) is None);
            }
            return None;
        }
        acc = next;
        i = i + 1;
    }
    assert(d.take(i - start) =~= d);
    Some(acc as u32)
}

fn remove_commas(v: &[char]) -> (r: Vec<char>)
    ensures
        r@ == without_commas(v@),
{
    let mut r: Vec<char> = Vec::new();
    let mut i: usize = 0;
    while i < v.len()
        invariant
            i <= v@.len(),
            r@ == without_commas(v@.take(i as int)),
        decreases v@.len() - i,
    {
        assert(v@.take(i + 1).drop_last() =~= v@.take(i as int));
        if v[i] != ',' {
            r.push(v[i]);
        }
        i = i + 1;
    }
    assert(v@.take(i as int) =~= v@);
    r
}

/// The attendance of a match: absent when blank, otherwise the number that
/// the trimmed text denotes once its thousands separators are taken out.
pub open spec fn attendance_of(value: Option<String>) -> Result<Option<u32>, ErrorView> {
    match owned_text(value) {
        None => Ok(None),
        Some(t) => match parsed_u32(without_commas(t)) {
            Some(n) => Ok(Some(n)),
            None => Err(ErrorView::InvalidAttendance(t)),
        },
    }
}

pub fn parse_attendance(value: &Option<String>) -> (r: Result<Option<u32>, PayloadError>)
    ensures
        result_view(r) == attendance_of(*value),
{
    match optional_owned(value) {
        None => Ok(None),
        Some(t) => {
            let chars = chars_of(t.as_str());
            let digits = remove_commas(chars.as_slice());
            match parse_u32_chars(digits.as_slice()) {
                Some(n) => Ok(Some(n)),
                None => Err(PayloadError::InvalidAttendance(t)),
            }
        },
    }
}

// ---------------------------------------------------------------------------
// Status

/// FIFA's numeric match status, read with the result type and whether a
/// score is known: 1 is scheduled, 3 is live, 0 is played when there is a
/// score or a result; a score alone means the match was played.
pub open spec fn status_of(raw: Option<i64>, result_type: Option<i64>, has_score: bool) -> MatchStatus {
    match raw {
        Some(1) => MatchStatus::Scheduled,
        Some(3) => MatchStatus::Live,
        Some(0) => if has_score || (match result_type {
            Some(t) => t > 0,
            None => false,
        }) {
            MatchStatus::FullTime
        } else {
            MatchStatus::Unknown(0)
        },
        Some(v) => if 0 <= v <= 65535 {
            MatchStatus::Unknown(v as u16)
        } else if has_score {
            MatchStatus::FullTime
        } else {
            MatchStatus::Unknown(0)
        },
        None => if has_score {
            MatchStatus::FullTime
        } else {
            MatchStatus::Unknown(0)
        },
    }
}

/// FIFA's status codes: 1 is a scheduled match and 3 a live one, whatever
/// the result type and score, and no other code gives either; 0 with a score
/// or a positive result type is a played match; any other code that fits in
/// 16 bits is kept as an unknown status; with no usable code a score alone
/// means the match was played.
pub proof fn fifa_status_codes(raw: Option<i64>, result_type: Option<i64>, has_score: bool)
    ensures
        status_of(Some(1), result_type, has_score) == MatchStatus::Scheduled,
        status_of(Some(3), result_type, has_score) == MatchStatus::Live,
        status_of(raw, result_type, has_score) == MatchStatus::Scheduled ==> raw == Some(1i64),
        status_of(raw, result_type, has_score) == MatchStatus::Live ==> raw == Some(3i64),
        has_score ==> status_of(Some(0), result_type, has_score) == MatchStatus::FullTime,
        (result_type matches Some(t) && t > 0) ==> status_of(Some(0), result_type, has_score)
            == MatchStatus::FullTime,
        !has_score && !(result_type matches Some(t) && t > 0) ==> status_of(Some(0), result_type, has_score)
            == MatchStatus::Unknown(0),
        (raw matches Some(v) && v != 0 && v != 1 && v != 3 && 0 <= v <= 65535) ==> status_of(
            raw,
            result_type,
            has_score,
        ) == MatchStatus::Unknown(raw->0 as u16),
        (raw is None || (raw matches Some(v) && (v < 0 || v > 65535))) ==> status_of(raw, result_type, has_score)
            == (if has_score {
            MatchStatus::FullTime
        } else {
            MatchStatus::Unknown(0)
        }),
{
}

pub fn map_match_status(raw_status: Option<i64>, result_type: Option<i64>, has_score: bool) -> (r:
    MatchStatus)
    ensures
        r == status_of(raw_status, result_type, has_score),
{
    match raw_status {
        Some(1) => MatchStatus::Scheduled,
        Some(3) => MatchStatus::Live,
        Some(0) => {
            let result = match result_type {
                Some(t) => t,
                None => 0,
            };
            if has_score || result > 0 {
                MatchStatus::FullTime
            } else {
                MatchStatus::Unknown(0)
            }
        },
        Some(v) => {
            if 0 <= v && v <= 65535 {
                MatchStatus::Unknown(v as u16)
            } else if has_score {
                MatchStatus::FullTime
            } else {
                MatchStatus::Unknown(0)
            }
        },
        None => {
            if has_score {
                MatchStatus::FullTime
            } else {
                MatchStatus::Unknown(0)
            }
        },
    }
}

// ---------------------------------------------------------------------------
// Names

/// A team's display name: its localized name, or else its short name, or
/// else its abbreviation.
pub open spec fn team_name_of(team: FifaTeam) -> Option<Seq<char>> {
    match localized(team.name@) {
        Some(t) => Some(t),
        None => match owned_text(team.short_club_name) {
            Some(t) => Some(t),
            None => owned_text(team.abbreviation),
        },
    }
}

pub fn fifa_team_name(team: &FifaTeam) -> (r: Option<String>)
    ensures
        text_option_view(r) == team_name_of(*team),
{
    match localized_text(&team.name) {
        Some(t) => Some(t),
        None => match optional_owned(&team.short_club_name) {
            Some(t) => Some(t),
            None => optional_owned(&team.abbreviation),
        },
    }
}

/// The name shown for one side of a match: the team's localized name, short
/// name or abbreviation; else the placeholder FIFA gives for an undecided
/// side; else `fallback`.
pub open spec fn side_name_of(
    team: Option<FifaMatchTeam>,
    placeholder: Option<String>,
    fallback: Seq<char>,
) -> Seq<char> {
    let from_team = match team {
        Some(t) => match localized(t.team_name@) {
            Some(n) => Some(n),
            None => match owned_text(t.short_club_name) {
                Some(n) => Some(n),
                None => owned_text(t.abbreviation),
            },
        },
        None => None,
    };
    match from_team {
        Some(n) => n,
        None => match owned_text(placeholder) {
            Some(n) => n,
            None => fallback,
        },
    }
}

pub fn fifa_match_team_name(
    team: &Option<FifaMatchTeam>,
    placeholder: &Option<String>,
    fallback: &str,
) -> (r: String)
    ensures
        r@ == side_name_of(*team, *placeholder, fallback@),
{
    let from_team = match team {
        Some(t) => match localized_text(&t.team_name) {
            Some(n) => Some(n),
            None => match optional_owned(&t.short_club_name) {
                Some(n) => Some(n),
                None => optional_owned(&t.abbreviation),
            },
        },
        None => None,
    };
    match from_team {
        Some(n) => n,
        None => match optional_owned(placeholder) {
            Some(n) => n,
            None => fallback.to_owned(),
        },
    }
}

// ---------------------------------------------------------------------------
// Teams

pub open spec fn is_confederation_code(t: Seq<char>) -> bool {
    exists|c: Confederation| confederation_code(c) == t
}

pub open spec fn ranking_rank(ranking: Option<&FifaRankingRow>) -> Option<i64> {
    match ranking {
        Some(r) => r.rank,
        None => None,
    }
}

/// The first problem of a team payload, in the order the fields are read.
pub open spec fn team_error(team: FifaTeam, rank: Option<i64>) -> Option<ErrorView> {
    if non_empty_text(team.id_team@) is None {
        Some(ErrorView::MissingField(Field::IdTeam))
    } else if team_name_of(team) is None {
        Some(ErrorView::MissingTeamName)
    } else if owned_text(team.abbreviation) is None {
        Some(ErrorView::MissingField(Field::Abbreviation))
    } else if non_empty_text(team.id_country@) is None {
        Some(ErrorView::MissingField(Field::IdCountry))
    } else if non_empty_text(team.id_confederation@) is None {
        Some(ErrorView::MissingField(Field::IdConfederation))
    } else if !is_confederation_code(trim(team.id_confederation@)) {
        Some(ErrorView::Unknown(ValueKind::ConfederationCode, trim(team.id_confederation@)))
    } else if rank matches Some(v) && !(0 <= v <= 65535) {
        Some(ErrorView::OutOfRange(Field::Rank, rank.unwrap()))
    } else {
        None
    }
}

/// A team read from its payload, with the rank of its ranking line.
pub open spec fn team_fields(team: FifaTeam, rank: Option<i64>, t: Team) -> bool {
    &&& t.id@ == trim(team.id_team@)
    &&& Some(t.name@) == team_name_of(team)
    &&& Some(t.abbreviation@) == owned_text(team.abbreviation)
    &&& t.country_code@ == trim(team.id_country@)
    &&& confederation_code(t.confederation) == trim(team.id_confederation@)
    &&& text_option_view(t.flag_url_template) == owned_text(team.picture_url)
    &&& t.fifa_rank == (match rank {
        Some(v) => Some(v as u16),
        None => None,
    })
    &&& !t.favorite
}

/// Maps a team payload, with the team's ranking line if there is one.
pub fn map_team(team: &FifaTeam, ranking: Option<&FifaRankingRow>) -> (r: Result<Team, PayloadError>)
    ensures
        r is Err <==> team_error(*team, ranking_rank(ranking)) is Some,
        r matches Err(e) ==> Some(error_view(e)) == team_error(
            *team,
            ranking_rank(ranking),
        ),
        r matches Ok(t) ==> team_fields(*team, ranking_rank(ranking), t),
{
    let ghost rank = ranking_rank(ranking);
    let id = match required_non_empty(team.id_team.as_str(), Field::IdTeam) {
        Ok(v) => v,
        Err(e) => {
            return Err(e);
        },
    };
    let name = match fifa_team_name(team) {
        Some(n) => n,
        None => {
            return Err(PayloadError::MissingTeamName);
        },
    };
    let abbreviation = match required_owned(&team.abbreviation, Field::Abbreviation) {
        Ok(v) => v,
        Err(e) => {
            return Err(e);
        },
    };
    let country_code = match required_non_empty(team.id_country.as_str(), Field::IdCountry) {
        Ok(v) => v,
        Err(e) => {
            return Err(e);
        },
    };
    let code = match required_non_empty(team.id_confederation.as_str(), Field::IdConfederation) {
        Ok(v) => v,
        Err(e) => {
            return Err(e);
        },
    };
    let confederation = match Confederation::from_code(code.as_str()) {
        Ok(c) => c,
        Err(u) => {
            return Err(PayloadError::Unknown(u));
        },
    };
    let rank_value = match ranking {
        Some(row) => row.rank,
        None => None,
    };
    assert(rank_value == rank);
    let fifa_rank = match rank_value {
        Some(v) => match required_u16(Some(v), Field::Rank) {
            Ok(k) => Some(k),
            Err(e) => {
                return Err(e);
            },
        },
        None => None,
    };
    Ok(Team {
        id: TeamId::new(id),
        name,
        abbreviation,
        country_code,
        confederation,
        flag_url_template: optional_owned(&team.picture_url),
        fifa_rank,
        favorite: false,
    })
}

// ---------------------------------------------------------------------------
// Matches

pub open spec fn is_stage_id(t: Seq<char>) -> bool {
    exists|st: Stage| stage_id_text(st) == t
}

pub open spec fn is_group_id(t: Seq<char>) -> bool {
    exists|g: Group| group_id_text(g) == t
}

/// The stage whose identifier is `t`.
pub open spec fn stage_with_id(t: Seq<char>) -> Stage {
    choose|st: Stage| stage_id_text(st) == t
}

/// The group whose identifier is `t`.
pub open spec fn group_with_id(t: Seq<char>) -> Group {
    choose|g: Group| group_id_text(g) == t
}

/// A side's score: the match's own field, or else the side's record.
pub open spec fn side_score(direct: Option<i64>, team: Option<FifaMatchTeam>) -> Option<i64> {
    match direct {
        Some(v) => Some(v),
        None => match team {
            Some(t) => t.score,
            None => None,
        },
    }
}

pub open spec fn side_team_ref(team: Option<FifaMatchTeam>) -> Option<Seq<char>> {
    match team {
        Some(t) => team_ref(t.id_team),
        None => None,
    }
}

/// The first problem of a match payload, in the order the fields are read.
pub open spec fn match_error(m: FifaMatch) -> Option<ErrorView> {
    let group_text = owned_text(m.id_group);
    if non_empty_text(m.id_stage@) is None {
        Some(ErrorView::MissingField(Field::IdStage))
    } else if !is_stage_id(trim(m.id_stage@)) {
        Some(ErrorView::Unknown(ValueKind::StageId, trim(m.id_stage@)))
    } else if group_text matches Some(g) && !is_group_id(g) {
        Some(ErrorView::Unknown(ValueKind::GroupId, group_text.unwrap()))
    } else if opt_int_result_u8(side_score(m.home_team_score, m.home), Field::HomeTeamScore) is Err {
        Some(opt_int_result_u8(side_score(m.home_team_score, m.home), Field::HomeTeamScore)->Err_0)
    } else if opt_int_result_u8(side_score(m.away_team_score, m.away), Field::AwayTeamScore) is Err {
        Some(opt_int_result_u8(side_score(m.away_team_score, m.away), Field::AwayTeamScore)->Err_0)
    } else if non_empty_text(m.id_match@) is None {
        Some(ErrorView::MissingField(Field::IdMatch))
    } else if required_of(opt_int_result_u16(m.match_number, Field::MatchNumber), Field::MatchNumber) is Err {
        Some(required_of(opt_int_result_u16(m.match_number, Field::MatchNumber), Field::MatchNumber)->Err_0)
    } else if non_empty_text(m.date@) is None {
        Some(ErrorView::MissingField(Field::Date))
    } else if parsed_timestamp(trim(m.date@)) is None {
        Some(ErrorView::InvalidTimestamp(Field::Date, m.date@))
    } else if opt_int_result_u8(m.home_team_penalty_score, Field::HomeTeamPenaltyScore) is Err {
        Some(opt_int_result_u8(m.home_team_penalty_score, Field::HomeTeamPenaltyScore)->Err_0)
    } else if opt_int_result_u8(m.away_team_penalty_score, Field::AwayTeamPenaltyScore) is Err {
        Some(opt_int_result_u8(m.away_team_penalty_score, Field::AwayTeamPenaltyScore)->Err_0)
    } else if attendance_of(m.attendance) is Err {
        Some(attendance_of(m.attendance)->Err_0)
    } else {
        None
    }
}

pub open spec fn group_id_view(o: Option<GroupId>) -> Option<Seq<char>> {
    match o {
        Some(g) => Some(g@),
        None => None,
    }
}

/// What a valid match payload maps to, field by field.
pub open spec fn match_fields(m: FifaMatch, x: Match) -> bool {
    let stage = stage_with_id(trim(m.id_stage@));
    let home_score = opt_int_result_u8(side_score(m.home_team_score, m.home), Field::HomeTeamScore)->Ok_0;
    let away_score = opt_int_result_u8(side_score(m.away_team_score, m.away), Field::AwayTeamScore)->Ok_0;
    &&& x.id@ == trim(m.id_match@)
    &&& x.match_number as i64 == m.match_number.unwrap()
    &&& x.stage_id@ == trim(m.id_stage@)
    &&& x.stage_name@ == (match localized(m.stage_name@) {
        Some(t) => t,
        None => stage_name_text(stage),
    })
    &&& group_id_view(x.group_id) == owned_text(m.id_group)
    &&& text_option_view(x.group_name) == (match owned_text(m.id_group) {
        Some(g) => Some(
            match localized(m.group_name@) {
                Some(t) => t,
                None => group_name_text(group_with_id(g)),
            },
        ),
        None => None,
    })
    &&& Some(x.utc_start@ as i128) == parsed_timestamp(trim(m.date@))
    &&& x.local_start is None
    &&& team_id_option_view(x.home_team_id) == side_team_ref(m.home)
    &&& team_id_option_view(x.away_team_id) == side_team_ref(m.away)
    &&& x.home_team_name@ == side_name_of(m.home, m.placeholder_a, "Home"@)
    &&& x.away_team_name@ == side_name_of(m.away, m.placeholder_b, "Away"@)
    &&& x.home_score == home_score
    &&& x.away_score == away_score
    &&& x.home_penalty_score == opt_int_result_u8(m.home_team_penalty_score, Field::HomeTeamPenaltyScore)->Ok_0
    &&& x.away_penalty_score == opt_int_result_u8(m.away_team_penalty_score, Field::AwayTeamPenaltyScore)->Ok_0
    &&& x.status == status_of(m.match_status, m.result_type, home_score is Some || away_score is Some)
    &&& text_option_view(x.minute) == owned_text(m.match_time)
    &&& text_option_view(x.stadium_name) == (match m.stadium {
        Some(st) => localized(st.name@),
        None => None,
    })
    &&& x.attendance == attendance_of(m.attendance)->Ok_0
    &&& team_id_option_view(x.winner_team_id) == team_ref(m.winner)
}

fn side_score_exec(direct: Option<i64>, team: &Option<FifaMatchTeam>) -> (r: Option<i64>)
    ensures
        r == side_score(direct, *team),
{
    match direct {
        Some(v) => Some(v),
        None => match team {
            Some(t) => t.score,
            None => None,
        },
    }
}

fn side_team_id(team: &Option<FifaMatchTeam>) -> (r: Option<TeamId>)
    ensures
        team_id_option_view(r) == side_team_ref(*team),
{
    match team {
        Some(t) => optional_team_id(&t.id_team),
        None => None,
    }
}

/// Maps a match payload.
pub fn map_match(m: &FifaMatch) -> (r: Result<Match, PayloadError>)
    ensures
        r is Err <==> match_error(*m) is Some,
        r matches Err(e) ==> Some(error_view(e)) == match_error(*m),
        r matches Ok(x) ==> match_fields(*m, x),
{
    let stage_text = match required_non_empty(m.id_stage.as_str(), Field::IdStage) {
        Ok(v) => v,
        Err(e) => {
            return Err(e);
        },
    };
    let stage = match Stage::from_id(stage_text.as_str()) {
        Ok(st) => st,
        Err(u) => {
            return Err(PayloadError::Unknown(u));
        },
    };
    let group_text = optional_owned(&m.id_group);
    let group = match &group_text {
        Some(g) => match Group::from_id(g.as_str()) {
            Ok(gr) => Some(gr),
            Err(u) => {
                return Err(PayloadError::Unknown(u));
            },
        },
        None => None,
    };
    let home_score = match optional_u8(side_score_exec(m.home_team_score, &m.home), Field::HomeTeamScore) {
        Ok(v) => v,
        Err(e) => {
            return Err(e);
        },
    };
    let away_score = match optional_u8(side_score_exec(m.away_team_score, &m.away), Field::AwayTeamScore) {
        Ok(v) => v,
        Err(e) => {
            return Err(e);
        },
    };
    let id = match required_non_empty(m.id_match.as_str(), Field::IdMatch) {
        Ok(v) => v,
        Err(e) => {
            return Err(e);
        },
    };
    let match_number = match required_u16(m.match_number, Field::MatchNumber) {
        Ok(v) => v,
        Err(e) => {
            return Err(e);
        },
    };
    let date_text = match required_non_empty(m.date.as_str(), Field::Date) {
        Ok(v) => v,
        Err(e) => {
            return Err(e);
        },
    };
    let utc_start = match Timestamp::parse(date_text.as_str()) {
        Some(t) => t,
        None => {
            return Err(PayloadError::InvalidTimestamp { field: Field::Date, value: m.date.clone() });
        },
    };
    let home_penalty_score = match optional_u8(m.home_team_penalty_score, Field::HomeTeamPenaltyScore) {
        Ok(v) => v,
        Err(e) => {
            return Err(e);
        },
    };
    let away_penalty_score = match optional_u8(m.away_team_penalty_score, Field::AwayTeamPenaltyScore) {
        Ok(v) => v,
        Err(e) => {
            return Err(e);
        },
    };
    let attendance = match parse_attendance(&m.attendance) {
        Ok(v) => v,
        Err(e) => {
            return Err(e);
        },
    };
    proof {
        assert(stage_id_text(stage) == trim(m.id_stage@));
        crate::domain::tournament::stage_id_round_trip(stage, stage_with_id(trim(m.id_stage@)));
    }
    let stage_name = match localized_text(&m.stage_name) {
        Some(t) => t,
        None => stage.name().to_owned(),
    };
    let (group_id, group_name) = match group {
        Some(g) => {
            proof {
                let gt = group_text->Some_0@;
                crate::domain::tournament::group_id_round_trip(g, group_with_id(gt));
            }
            let name = match localized_text(&m.group_name) {
                Some(t) => t,
                None => g.name().to_owned(),
            };
            (Some(g.id()), Some(name))
        },
        None => (None, None),
    };
    let status = map_match_status(
        m.match_status,
        m.result_type,
        home_score.is_some() || away_score.is_some(),
    );
    Ok(Match {
        id: MatchId::new(id),
        match_number,
        stage_id: stage.id(),
        stage_name,
        group_id,
        group_name,
        utc_start,
        local_start: None,
        home_team_id: side_team_id(&m.home),
        away_team_id: side_team_id(&m.away),
        home_team_name: fifa_match_team_name(&m.home, &m.placeholder_a, "Home"),
        away_team_name: fifa_match_team_name(&m.away, &m.placeholder_b, "Away"),
        home_score,
        away_score,
        home_penalty_score,
        away_penalty_score,
        status,
        minute: optional_owned(&m.match_time),
        stadium_name: match &m.stadium {
            Some(st) => localized_text(&st.name),
            None => None,
        },
        attendance,
        winner_team_id: optional_team_id(&m.winner),
    })
}

// ---------------------------------------------------------------------------
// Standings

pub open spec fn standing_team_name(row: FifaStandingRow) -> Option<Seq<char>> {
    match row.team {
        Some(t) => team_name_of(t),
        None => None,
    }
}

pub open spec fn req_u8(v: Option<i64>, f: Field) -> Result<u8, ErrorView> {
    required_of(opt_int_result_u8(v, f), f)
}

pub open spec fn req_u16(v: Option<i64>, f: Field) -> Result<u16, ErrorView> {
    required_of(opt_int_result_u16(v, f), f)
}

pub open spec fn req_i16(v: Option<i64>, f: Field) -> Result<i16, ErrorView> {
    required_of(opt_int_result_i16(v, f), f)
}

/// The first problem of a standing row payload, in the order the fields are
/// read.
pub open spec fn standing_error(row: FifaStandingRow) -> Option<ErrorView> {
    if non_empty_text(row.id_group@) is None {
        Some(ErrorView::MissingField(Field::IdGroup))
    } else if !is_group_id(trim(row.id_group@)) {
        Some(ErrorView::Unknown(ValueKind::GroupId, trim(row.id_group@)))
    } else if standing_team_name(row) is None {
        Some(ErrorView::MissingStandingTeamName)
    } else if non_empty_text(row.id_team@) is None {
        Some(ErrorView::MissingField(Field::IdTeam))
    } else if req_u8(row.position, Field::Position) is Err {
        Some(req_u8(row.position, Field::Position)->Err_0)
    } else if req_u8(row.played, Field::Played) is Err {
        Some(req_u8(row.played, Field::Played)->Err_0)
    } else if req_u8(row.won, Field::Won) is Err {
        Some(req_u8(row.won, Field::Won)->Err_0)
    } else if req_u8(row.drawn, Field::Drawn) is Err {
        Some(req_u8(row.drawn, Field::Drawn)->Err_0)
    } else if req_u8(row.lost, Field::Lost) is Err {
        Some(req_u8(row.lost, Field::Lost)->Err_0)
    } else if req_i16(row.goals_for, Field::For) is Err {
        Some(req_i16(row.goals_for, Field::For)->Err_0)
    } else if req_i16(row.goals_against, Field::Against) is Err {
        Some(req_i16(row.goals_against, Field::Against)->Err_0)
    } else if req_i16(row.goal_difference, Field::GoalsDiference) is Err {
        Some(req_i16(row.goal_difference, Field::GoalsDiference)->Err_0)
    } else if req_i16(row.points, Field::Points) is Err {
        Some(req_i16(row.points, Field::Points)->Err_0)
    } else if opt_int_result_i16(row.team_conduct_score, Field::TeamConductScore) is Err {
        Some(opt_int_result_i16(row.team_conduct_score, Field::TeamConductScore)->Err_0)
    } else {
        None
    }
}

/// Maps a standing row payload.
pub fn map_standing_row(row: &FifaStandingRow) -> (r: Result<StandingRow, PayloadError>)
    ensures
        r is Err <==> standing_error(*row) is Some,
        r matches Err(e) ==> Some(error_view(e)) == standing_error(*row),
        r matches Ok(x) ==> {
            &&& x.group_id@ == trim(row.id_group@)
            &&& x.group_name@ == (match localized(row.group@) {
                Some(t) => t,
                None => group_name_text(group_with_id(trim(row.id_group@))),
            })
            &&& x.team_id@ == trim(row.id_team@)
            &&& Some(x.team_name@) == standing_team_name(*row)
            &&& Ok::<u8, ErrorView>(x.position) == req_u8(row.position, Field::Position)
            &&& Ok::<u8, ErrorView>(x.played) == req_u8(row.played, Field::Played)
            &&& Ok::<u8, ErrorView>(x.won) == req_u8(row.won, Field::Won)
            &&& Ok::<u8, ErrorView>(x.drawn) == req_u8(row.drawn, Field::Drawn)
            &&& Ok::<u8, ErrorView>(x.lost) == req_u8(row.lost, Field::Lost)
            &&& Ok::<i16, ErrorView>(x.goals_for) == req_i16(row.goals_for, Field::For)
            &&& Ok::<i16, ErrorView>(x.goals_against) == req_i16(row.goals_against, Field::Against)
            &&& Ok::<i16, ErrorView>(x.goal_difference) == req_i16(row.goal_difference, Field::GoalsDiference)
            &&& Ok::<i16, ErrorView>(x.points) == req_i16(row.points, Field::Points)
            &&& text_option_view(x.qualification_status) == owned_text(row.qualification_status)
            &&& Ok::<Option<i16>, ErrorView>(x.fair_play) == opt_int_result_i16(row.team_conduct_score, Field::TeamConductScore)
        },
{
    let group_text = match required_non_empty(row.id_group.as_str(), Field::IdGroup) {
        Ok(v) => v,
        Err(e) => {
            return Err(e);
        },
    };
    let group = match Group::from_id(group_text.as_str()) {
        Ok(g) => g,
        Err(u) => {
            return Err(PayloadError::Unknown(u));
        },
    };
    proof {
        crate::domain::tournament::group_id_round_trip(group, group_with_id(trim(row.id_group@)));
    }
    let team_name = match &row.team {
        Some(t) => match fifa_team_name(t) {
            Some(n) => n,
            None => {
                return Err(PayloadError::MissingStandingTeamName);
            },
        },
        None => {
            return Err(PayloadError::MissingStandingTeamName);
        },
    };
    let group_name = match localized_text(&row.group) {
        Some(t) => t,
        None => group.name().to_owned(),
    };
    let team_id = match required_non_empty(row.id_team.as_str(), Field::IdTeam) {
        Ok(v) => v,
        Err(e) => {
            return Err(e);
        },
    };
    let position = match required_u8(row.position, Field::Position) {
        Ok(v) => v,
        Err(e) => {
            return Err(e);
        },
    };
    let played = match required_u8(row.played, Field::Played) {
        Ok(v) => v,
        Err(e) => {
            return Err(e);
        },
    };
    let won = match required_u8(row.won, Field::Won) {
        Ok(v) => v,
        Err(e) => {
            return Err(e);
        },
    };
    let drawn = match required_u8(row.drawn, Field::Drawn) {
        Ok(v) => v,
        Err(e) => {
            return Err(e);
        },
    };
    let lost = match required_u8(row.lost, Field::Lost) {
        Ok(v) => v,
        Err(e) => {
            return Err(e);
        },
    };
    let goals_for = match required_i16(row.goals_for, Field::For) {
        Ok(v) => v,
        Err(e) => {
            return Err(e);
        },
    };
    let goals_against = match required_i16(row.goals_against, Field::Against) {
        Ok(v) => v,
        Err(e) => {
            return Err(e);
        },
    };
    let goal_difference = match required_i16(row.goal_difference, Field::GoalsDiference) {
        Ok(v) => v,
        Err(e) => {
            return Err(e);
        },
    };
    let points = match required_i16(row.points, Field::Points) {
        Ok(v) => v,
        Err(e) => {
            return Err(e);
        },
    };
    let fair_play = match optional_i16(row.team_conduct_score, Field::TeamConductScore) {
        Ok(v) => v,
        Err(e) => {
            return Err(e);
        },
    };
    Ok(StandingRow {
        group_id: group.id(),
        group_name,
        team_id: TeamId::new(team_id),
        team_name,
        position,
        played,
        won,
        drawn,
        lost,
        goals_for,
        goals_against,
        goal_difference,
        points,
        qualification_status: optional_owned(&row.qualification_status),
        fair_play,
    })
}

// ---------------------------------------------------------------------------
// Player statistics

pub open spec fn zero_if_none(v: Option<u16>) -> u16 {
    match v {
        Some(k) => k,
        None => 0,
    }
}

/// The first problem of a player statistic payload.
pub open spec fn player_stat_error(stat: FifaPlayerStat) -> Option<ErrorView> {
    let info = stat.player_info;
    if non_empty_text(info.id_player@) is None {
        Some(ErrorView::MissingField(Field::IdPlayer))
    } else if localized(info.player_name@) is None {
        Some(ErrorView::MissingPlayerName)
    } else if non_empty_text(info.id_team@) is None {
        Some(ErrorView::MissingField(Field::IdTeam))
    } else if non_empty_text(info.id_country@) is None {
        Some(ErrorView::MissingField(Field::IdCountry))
    } else if req_u16(stat.rank, Field::Rank) is Err {
        Some(req_u16(stat.rank, Field::Rank)->Err_0)
    } else if req_u16(stat.matches_played, Field::MatchesPlayed) is Err {
        Some(req_u16(stat.matches_played, Field::MatchesPlayed)->Err_0)
    } else if req_u16(stat.actual_minutes_played, Field::ActualMinutesPlayed) is Err {
        Some(req_u16(stat.actual_minutes_played, Field::ActualMinutesPlayed)->Err_0)
    } else if opt_int_result_u16(stat.goals_scored, Field::GoalsScored) is Err {
        Some(opt_int_result_u16(stat.goals_scored, Field::GoalsScored)->Err_0)
    } else if opt_int_result_u16(stat.assists, Field::Assists) is Err {
        Some(opt_int_result_u16(stat.assists, Field::Assists)->Err_0)
    } else if opt_int_result_u16(stat.total_attempts, Field::TotalAttempts) is Err {
        Some(opt_int_result_u16(stat.total_attempts, Field::TotalAttempts)->Err_0)
    } else if opt_int_result_u16(stat.attempts_on_target, Field::AttemptsOnTarget) is Err {
        Some(opt_int_result_u16(stat.attempts_on_target, Field::AttemptsOnTarget)->Err_0)
    } else {
        None
    }
}

fn count_or_zero(value: Option<i64>, field: Field) -> (r: Result<u16, PayloadError>)
    ensures
        result_view(r) == (match opt_int_result_u16(value, field) {
            Ok(v) => Ok(zero_if_none(v)),
            Err(e) => Err(e),
        }),
{
    match optional_u16(value, field) {
        Ok(Some(v)) => Ok(v),
        Ok(None) => Ok(0),
        Err(e) => Err(e),
    }
}

/// Maps a player statistic payload; absent counts are zero.
pub fn map_player_stat(stat: &FifaPlayerStat) -> (r: Result<PlayerStat, PayloadError>)
    ensures
        r is Err <==> player_stat_error(*stat) is Some,
        r matches Err(e) ==> Some(error_view(e)) == player_stat_error(*stat),
        r matches Ok(x) ==> {
            &&& x.player_id@ == trim(stat.player_info.id_player@)
            &&& Some(x.player_name@) == localized(stat.player_info.player_name@)
            &&& x.team_id@ == trim(stat.player_info.id_team@)
            &&& x.country_code@ == trim(stat.player_info.id_country@)
            &&& Ok::<u16, ErrorView>(x.rank) == req_u16(stat.rank, Field::Rank)
            &&& Ok::<u16, ErrorView>(x.matches_played) == req_u16(stat.matches_played, Field::MatchesPlayed)
            &&& Ok::<u16, ErrorView>(x.minutes_played) == req_u16(stat.actual_minutes_played, Field::ActualMinutesPlayed)
            &&& x.goals == zero_if_none(opt_int_result_u16(stat.goals_scored, Field::GoalsScored)->Ok_0)
            &&& x.assists == zero_if_none(opt_int_result_u16(stat.assists, Field::Assists)->Ok_0)
            &&& x.attempts == zero_if_none(opt_int_result_u16(stat.total_attempts, Field::TotalAttempts)->Ok_0)
            &&& x.attempts_on_target == zero_if_none(opt_int_result_u16(stat.attempts_on_target, Field::AttemptsOnTarget)->Ok_0)
        },
{
    let info = &stat.player_info;
    let player_id = match required_non_empty(info.id_player.as_str(), Field::IdPlayer) {
        Ok(v) => v,
        Err(e) => {
            return Err(e);
        },
    };
    let player_name = match localized_text(&info.player_name) {
        Some(n) => n,
        None => {
            return Err(PayloadError::MissingPlayerName);
        },
    };
    let team_id = match required_non_empty(info.id_team.as_str(), Field::IdTeam) {
        Ok(v) => v,
        Err(e) => {
            return Err(e);
        },
    };
    let country_code = match required_non_empty(info.id_country.as_str(), Field::IdCountry) {
        Ok(v) => v,
        Err(e) => {
            return Err(e);
        },
    };
    let rank = match required_u16(stat.rank, Field::Rank) {
        Ok(v) => v,
        Err(e) => {
            return Err(e);
        },
    };
    let matches_played = match required_u16(stat.matches_played, Field::MatchesPlayed) {
        Ok(v) => v,
        Err(e) => {
            return Err(e);
        },
    };
    let minutes_played = match required_u16(stat.actual_minutes_played, Field::ActualMinutesPlayed) {
        Ok(v) => v,
        Err(e) => {
            return Err(e);
        },
    };
    let goals = match count_or_zero(stat.goals_scored, Field::GoalsScored) {
        Ok(v) => v,
        Err(e) => {
            return Err(e);
        },
    };
    let assists = match count_or_zero(stat.assists, Field::Assists) {
        Ok(v) => v,
        Err(e) => {
            return Err(e);
        },
    };
    let attempts = match count_or_zero(stat.total_attempts, Field::TotalAttempts) {
        Ok(v) => v,
        Err(e) => {
            return Err(e);
        },
    };
    let attempts_on_target = match count_or_zero(stat.attempts_on_target, Field::AttemptsOnTarget) {
        Ok(v) => v,
        Err(e) => {
            return Err(e);
        },
    };
    Ok(PlayerStat {
        player_id,
        player_name,
        team_id: TeamId::new(team_id),
        country_code,
        rank,
        matches_played,
        minutes_played,
        goals,
        assists,
        attempts,
        attempts_on_target,
    })
}

// ---------------------------------------------------------------------------
// Timelines

/// The first problem of one timeline event.
pub open spec fn event_error(e: FifaTimelineEvent) -> Option<ErrorView> {
    if opt_int_result_u16(e.event_type, Field::Type) is Err {
        Some(opt_int_result_u16(e.event_type, Field::Type)->Err_0)
    } else {
        None
    }
}

/// The first event, from position `i` on, that cannot be mapped.
pub open spec fn first_event_error_from(events: Seq<FifaTimelineEvent>, i: int) -> Option<ErrorView>
    decreases events.len() - i,
{
    if i < 0 || i >= events.len() {
        None
    } else if i + 1 > 65535 {
        Some(ErrorView::TooManyEvents)
    } else if event_error(events[i]) is Some {
        event_error(events[i])
    } else {
        first_event_error_from(events, i + 1)
    }
}

/// The first problem of a timeline payload.
pub open spec fn timeline_error(t: FifaTimelineResponse) -> Option<ErrorView> {
    if non_empty_text(t.id_match@) is None {
        Some(ErrorView::MissingField(Field::IdMatch))
    } else {
        first_event_error_from(t.event@, 0)
    }
}

/// How event `i` of a timeline maps.
pub open spec fn event_fields(match_id: Seq<char>, i: int, e: FifaTimelineEvent, x: TimelineEvent) -> bool {
    &&& x.match_id@ == match_id
    &&& x.event_index == i + 1
    &&& Ok::<Option<u16>, ErrorView>(x.event_type) == opt_int_result_u16(e.event_type, Field::Type)
    &&& team_id_option_view(x.team_id) == team_ref(e.id_team)
    &&& text_option_view(x.player_id) == owned_text(e.id_player)
    &&& text_option_view(x.minute) == owned_text(e.match_minute)
    &&& text_option_view(x.description) == localized(e.event_description@)
}

/// Maps a timeline payload: its events in order, numbered from 1.
pub fn map_timeline_response(t: &FifaTimelineResponse) -> (r: Result<Vec<TimelineEvent>, PayloadError>)
    ensures
        r is Err <==> timeline_error(*t) is Some,
        r matches Err(e) ==> Some(error_view(e)) == timeline_error(*t),
        r matches Ok(v) ==> v@.len() == t.event@.len() && forall|i: int|
            0 <= i < v@.len() ==> event_fields(trim(t.id_match@), i, #[trigger] t.event@[i], v@[i]),
{
    let match_id = match required_non_empty(t.id_match.as_str(), Field::IdMatch) {
        Ok(v) => MatchId::new(v),
        Err(e) => {
            return Err(e);
        },
    };
    let mut out: Vec<TimelineEvent> = Vec::new();
    let mut i: usize = 0;
    while i < t.event.len()
        invariant
            i <= t.event@.len(),
            match_id@ == trim(t.id_match@),
            non_empty_text(t.id_match@) is Some,
            out@.len() == i,
            first_event_error_from(t.event@, 0) == first_event_error_from(t.event@, i as int),
            forall|k: int| 0 <= k < i ==> event_fields(trim(t.id_match@), k, #[trigger] t.event@[k], out@[k]),
        decreases t.event@.len() - i,
    {
        if i >= 65535 {
            return Err(PayloadError::TooManyEvents);
        }
        let e = &t.event[i];
        let event_type = match optional_u16(e.event_type, Field::Type) {
            Ok(v) => v,
            Err(err) => {
                return Err(err);
            },
        };
        out.push(TimelineEvent {
            match_id: match_id.clone(),
            event_index: (i + 1) as u16,
            event_type,
            team_id: optional_team_id(&e.id_team),
            player_id: optional_owned(&e.id_player),
            minute: optional_owned(&e.match_minute),
            description: localized_text(&e.event_description),
        });
        i = i + 1;
    }
    Ok(out)
}

/// The rank the ranking gives the team `id`: that of the last ranking line
/// for it, if any.
pub open spec fn rank_of(rankings: Seq<FifaRankingRow>, id: Seq<char>) -> Option<i64>
    decreases rankings.len(),
{
    if rankings.len() == 0 {
        None
    } else if rankings.last().id_team@ == id {
        rankings.last().rank
    } else {
        rank_of(rankings.drop_last(), id)
    }
}

/// The ranking line of the team `id`: the last one for it.
pub fn ranking_for<'a>(rankings: &'a [FifaRankingRow], id: &str) -> (r: Option<&'a FifaRankingRow>)
    ensures
        ranking_rank(r) == rank_of(rankings@, id@),
{
    let mut i: usize = rankings.len();
    assert(rankings@.take(i as int) =~= rankings@);
    while i > 0
        invariant
            i <= rankings@.len(),
            rank_of(rankings@, id@) == rank_of(rankings@.take(i as int), id@),
        decreases i,
    {
        let row = &rankings[i - 1];
        assert(rankings@.take(i as int).last() == rankings@[i - 1]);
        assert(rankings@.take(i as int).drop_last() =~= rankings@.take(i - 1));
        if crate::text::same_text(row.id_team.as_str(), id) {
            return Some(row);
        }
        i = i - 1;
    }
    None
}

/// The problem of the team at `i`, with its ranking.
pub open spec fn team_problem(teams: Seq<FifaTeam>, rankings: Seq<FifaRankingRow>, i: int) -> Option<ErrorView> {
    team_error(teams[i], rank_of(rankings, teams[i].id_team@))
}

/// Maps the teams of a payload, each with its ranking line; the first
/// problem, in order, is the error.
pub fn map_teams(teams: &[FifaTeam], rankings: &[FifaRankingRow]) -> (r: Result<Vec<Team>, PayloadError>)
    ensures
        r is Ok <==> forall|i: int| 0 <= i < teams@.len() ==> #[trigger] team_problem(teams@, rankings@, i) is None,
        r matches Err(e) ==> exists|i: int|
            0 <= i < teams@.len() && #[trigger] team_problem(teams@, rankings@, i) == Some(error_view(e)) && forall|j: int|
                0 <= j < i ==> team_problem(teams@, rankings@, j) is None,
        r matches Ok(v) ==> v@.len() == teams@.len() && forall|i: int|
            0 <= i < v@.len() ==> team_fields(teams@[i], rank_of(rankings@, teams@[i].id_team@), #[trigger] v@[i]),
{
    let mut out: Vec<Team> = Vec::new();
    let mut i: usize = 0;
    while i < teams.len()
        invariant
            i <= teams@.len(),
            out@.len() == i,
            forall|j: int| 0 <= j < i ==> #[trigger] team_problem(teams@, rankings@, j) is None,
            forall|j: int| 0 <= j < i ==> team_fields(teams@[j], rank_of(rankings@, teams@[j].id_team@), #[trigger] out@[j]),
        decreases teams@.len() - i,
    {
        let ranking = ranking_for(rankings, teams[i].id_team.as_str());
        match map_team(&teams[i], ranking) {
            Ok(t) => {
                out.push(t);
            },
            Err(e) => {
                assert(team_problem(teams@, rankings@, i as int) == Some(error_view(e)));
                return Err(e);
            },
        }
        i = i + 1;
    }
    Ok(out)
}

/// The address of an endpoint: the base without trailing slashes, a slash,
/// and the path without leading slashes.
pub open spec fn endpoint_text(base: Seq<char>, path: Seq<char>) -> Seq<char> {
    strip_trailing_slashes(base) + "/"@ + strip_leading_slashes(path)
}

pub open spec fn strip_trailing_slashes(s: Seq<char>) -> Seq<char>
    decreases s.len(),
{
    if s.len() > 0 && s.last() == '/' {
        strip_trailing_slashes(s.drop_last())
    } else {
        s
    }
}

pub open spec fn strip_leading_slashes(s: Seq<char>) -> Seq<char>
    decreases s.len(),
{
    if s.len() > 0 && s[0] == '/' {
        strip_leading_slashes(s.drop_first())
    } else {
        s
    }
}

pub fn endpoint_url(base_url: &str, path: &str) -> (r: String)
    ensures
        r@ == endpoint_text(base_url@, path@),
{
    let b = crate::text::chars_of(base_url);
    let p = crate::text::chars_of(path);
    let mut end: usize = b.len();
    assert(b@.take(end as int) =~= b@);
    while end > 0 && b[end - 1] == '/'
        invariant
            end <= b@.len(),
            strip_trailing_slashes(b@) == strip_trailing_slashes(b@.take(end as int)),
        decreases end,
    {
        assert(b@.take(end as int).drop_last() =~= b@.take(end - 1));
        end = end - 1;
    }
    let mut start: usize = 0;
    assert(p@.skip(0) =~= p@);
    while start < p.len() && p[start] == '/'
        invariant
            start <= p@.len(),
            strip_leading_slashes(p@) == strip_leading_slashes(p@.skip(start as int)),
        decreases p@.len() - start,
    {
        assert(p@.skip(start as int).drop_first() =~= p@.skip(start + 1));
        start = start + 1;
    }
    let mut url = String::new();
    crate::text::push_chars(&mut url, vstd::slice::slice_subrange(b.as_slice(), 0, end));
    crate::text::push_text(&mut url, "/");
    crate::text::push_chars(&mut url, vstd::slice::slice_subrange(p.as_slice(), start, p.len()));
    assert(b@.subrange(0, end as int) =~= b@.take(end as int));
    assert(p@.subrange(start as int, p@.len() as int) =~= p@.skip(start as int));
    assert(url@ =~= endpoint_text(base_url@, path@));
    url
}

/// The stages that a list of FIFA stage identifiers names, one for each.
pub open spec fn stages_named(ids: Seq<String>) -> Seq<Stage> {
    ids.map_values(|id: String| stage_with_id(id@))
}

/// Whether a stage comes at place `rank` of the tournament order.
pub open spec fn at_rank(rank: int) -> spec_fn(Stage) -> bool {
    |s: Stage| stage_rank(s) == rank
}

/// The stages of `stages` whose place in the tournament order is at most
/// `rank`, earlier places first, each as often as it occurs in `stages`.
pub open spec fn stages_up_to_rank(stages: Seq<Stage>, rank: nat) -> Seq<Stage>
    decreases rank,
{
    if rank == 0 {
        Seq::empty()
    } else {
        stages_up_to_rank(stages, (rank - 1) as nat) + stages.filter(at_rank(rank as int))
    }
}

/// The stages of `stages` in tournament order.
pub open spec fn in_tournament_order(stages: Seq<Stage>) -> Seq<Stage> {
    stages_up_to_rank(stages, 7)
}

proof fn lemma_stages_up_to_rank_sorted(stages: Seq<Stage>, n: nat)
    ensures
        forall|i: int|
            0 <= i < stages_up_to_rank(stages, n).len() ==> 1 <= stage_rank(#[trigger] stages_up_to_rank(stages, n)[i])
                <= n,
        forall|i: int, j: int|
            0 <= i < j < stages_up_to_rank(stages, n).len() ==> stage_rank(#[trigger] stages_up_to_rank(stages, n)[i])
                <= stage_rank(#[trigger] stages_up_to_rank(stages, n)[j]),
    decreases n,
{
    if n > 0 {
        lemma_stages_up_to_rank_sorted(stages, (n - 1) as nat);
        let a = stages_up_to_rank(stages, (n - 1) as nat);
        let f = stages.filter(at_rank(n as int));
        let all = stages_up_to_rank(stages, n);
        assert(all == a + f);
        assert forall|k: int| 0 <= k < f.len() implies stage_rank(#[trigger] f[k]) == n by {
            stages.lemma_filter_pred(at_rank(n as int), k);
        }
        assert forall|i: int| 0 <= i < all.len() implies 1 <= stage_rank(#[trigger] all[i]) <= n by {
            if i >= a.len() {
                assert(all[i] == f[i - a.len()]);
            } else {
                assert(all[i] == a[i]);
            }
        }
        assert forall|i: int, j: int| 0 <= i < j < all.len() implies stage_rank(#[trigger] all[i]) <= stage_rank(
            #[trigger] all[j],
        ) by {
            if j >= a.len() {
                assert(all[j] == f[j - a.len()]);
                if i >= a.len() {
                    assert(all[i] == f[i - a.len()]);
                } else {
                    assert(all[i] == a[i]);
                }
            } else {
                assert(all[i] == a[i]);
                assert(all[j] == a[j]);
            }
        }
    }
}

/// Stages in tournament order never go back: each stage's place in the
/// tournament is at least that of the stages listed before it.
pub proof fn stages_come_in_tournament_order(stages: Seq<Stage>)
    ensures
        forall|i: int, j: int|
            0 <= i < j < in_tournament_order(stages).len() ==> stage_rank(#[trigger] in_tournament_order(stages)[i])
                <= stage_rank(#[trigger] in_tournament_order(stages)[j]),
{
    lemma_stages_up_to_rank_sorted(stages, 7);
}

/// The stages that FIFA's stage identifiers name, in tournament order, each
/// as often as it is named. The first identifier that names no stage is the
/// error.
pub fn map_stages(ids: &[String]) -> (r: Result<Vec<Stage>, UnknownValue>)
    ensures
        r is Ok <==> (forall|i: int| 0 <= i < ids@.len() ==> is_stage_id(#[trigger] ids@[i]@)),
        r matches Ok(v) ==> v@ == in_tournament_order(stages_named(ids@)),
        r matches Err(e) ==> exists|k: int|
            0 <= k < ids@.len() && !is_stage_id(#[trigger] ids@[k]@) && (forall|j: int|
                0 <= j < k ==> is_stage_id(#[trigger] ids@[j]@)) && e.kind == ValueKind::StageId
                && e.value@ == ids@[k]@,
{
    let mut named: Vec<Stage> = Vec::new();
    let mut i: usize = 0;
    while i < ids.len()
        invariant
            i <= ids@.len(),
            named@ == stages_named(ids@.take(i as int)),
            forall|j: int| 0 <= j < i ==> is_stage_id(#[trigger] ids@[j]@),
        decreases ids@.len() - i,
    {
        match Stage::from_id(ids[i].as_str()) {
            Ok(s) => {
                proof {
                    let t = stage_with_id(ids@[i as int]@);
                    assert(stage_id_text(t) == ids@[i as int]@);
                    crate::domain::tournament::stage_id_round_trip(s, t);
                    assert(ids@.take(i + 1) =~= ids@.take(i as int).push(ids@[i as int]));
                }
                named.push(s);
                assert(named@ =~= stages_named(ids@.take(i + 1)));
            },
            Err(e) => {
                assert(!is_stage_id(ids@[i as int]@));
                return Err(e);
            },
        }
        i += 1;
    }
    assert(ids@.take(i as int) =~= ids@);
    let mut out: Vec<Stage> = Vec::new();
    let mut rank: u8 = 1;
    while rank <= 7
        invariant
            1 <= rank <= 8,
            out@ == stages_up_to_rank(named@, (rank - 1) as nat),
        decreases 8 - rank,
    {
        let mut j: usize = 0;
        while j < named.len()
            invariant
                1 <= rank <= 7,
                j <= named@.len(),
                out@ == stages_up_to_rank(named@, (rank - 1) as nat) + named@.take(j as int).filter(
                    at_rank(rank as int),
                ),
            decreases named@.len() - j,
        {
            proof {
                let t = named@.take(j + 1);
                assert(t.drop_last() =~= named@.take(j as int));
                reveal_with_fuel(Seq::filter, 1);
            }
            if named[j].sort_order() == rank {
                out.push(named[j]);
            }
            j += 1;
        }
        assert(named@.take(j as int) =~= named@);
        rank += 1;
    }
    Ok(out)
}

} // verus!
