//! The knock-out bracket: which slots feed each match from match 73 to the
//! final, and how the bracket is laid out as mirrored columns.

use vstd::prelude::*;

use crate::app::views::KnockoutRoundFilter;
use crate::domain::tournament::Group;
use crate::text::push_char;

verus! {

/// Where a participant of a knock-out match comes from.
#[derive(Clone, Copy, Debug)]
pub enum ParticipantSource {
    /// The team at `position` of `group` after the group stage.
    GroupPosition { group: Group, position: u8 },
    /// One of the best third-placed teams, from one of these groups.
    BestThird([Group; 5]),
    /// The winner of the match with this number.
    Winner(u16),
    /// The loser of the match with this number.
    RunnerUp(u16),
}

/// A knock-out match: its number, its round and where its two participants
/// come from.
#[derive(Clone, Copy, Debug)]
pub struct MatchDef {
    pub number: u16,
    pub round: KnockoutRoundFilter,
    pub home: ParticipantSource,
    pub away: ParticipantSource,
}

/// The knock-out schedule of the tournament, match 73 to match 104.
pub open spec fn bracket_match(number: u16) -> MatchDef
    recommends
        73 <= number <= 104,
{
    match number {
        73 => MatchDef { number: 73, round: KnockoutRoundFilter::RoundOf32, home: ParticipantSource::GroupPosition { group: Group::A, position: 2 }, away: ParticipantSource::GroupPosition { group: Group::B, position: 2 } },
        74 => MatchDef { number: 74, round: KnockoutRoundFilter::RoundOf32, home: ParticipantSource::GroupPosition { group: Group::E, position: 1 }, away: ParticipantSource::BestThird([Group::A, Group::B, Group::C, Group::D, Group::F]) },
        75 => MatchDef { number: 75, round: KnockoutRoundFilter::RoundOf32, home: ParticipantSource::GroupPosition { group: Group::F, position: 1 }, away: ParticipantSource::GroupPosition { group: Group::C, position: 2 } },
        76 => MatchDef { number: 76, round: KnockoutRoundFilter::RoundOf32, home: ParticipantSource::GroupPosition { group: Group::C, position: 1 }, away: ParticipantSource::GroupPosition { group: Group::F, position: 2 } },
        77 => MatchDef { number: 77, round: KnockoutRoundFilter::RoundOf32, home: ParticipantSource::GroupPosition { group: Group::I, position: 1 }, away: ParticipantSource::BestThird([Group::C, Group::D, Group::F, Group::G, Group::H]) },
        78 => MatchDef { number: 78, round: KnockoutRoundFilter::RoundOf32, home: ParticipantSource::GroupPosition { group: Group::E, position: 2 }, away: ParticipantSource::GroupPosition { group: Group::I, position: 2 } },
        79 => MatchDef { number: 79, round: KnockoutRoundFilter::RoundOf32, home: ParticipantSource::GroupPosition { group: Group::A, position: 1 }, away: ParticipantSource::BestThird([Group::C, Group::E, Group::F, Group::H, Group::I]) },
        80 => MatchDef { number: 80, round: KnockoutRoundFilter::RoundOf32, home: ParticipantSource::GroupPosition { group: Group::L, position: 1 }, away: ParticipantSource::BestThird([Group::E, Group::H, Group::I, Group::J, Group::K]) },
        81 => MatchDef { number: 81, round: KnockoutRoundFilter::RoundOf32, home: ParticipantSource::GroupPosition { group: Group::D, position: 1 }, away: ParticipantSource::BestThird([Group::B, Group::E, Group::F, Group::I, Group::J]) },
        82 => MatchDef { number: 82, round: KnockoutRoundFilter::RoundOf32, home: ParticipantSource::GroupPosition { group: Group::G, position: 1 }, away: ParticipantSource::BestThird([Group::A, Group::E, Group::H, Group::I, Group::J]) },
        83 => MatchDef { number: 83, round: KnockoutRoundFilter::RoundOf32, home: ParticipantSource::GroupPosition { group: Group::K, position: 2 }, away: ParticipantSource::GroupPosition { group: Group::L, position: 2 } },
        84 => MatchDef { number: 84, round: KnockoutRoundFilter::RoundOf32, home: ParticipantSource::GroupPosition { group: Group::H, position: 1 }, away: ParticipantSource::GroupPosition { group: Group::J, position: 2 } },
        85 => MatchDef { number: 85, round: KnockoutRoundFilter::RoundOf32, home: ParticipantSource::GroupPosition { group: Group::B, position: 1 }, away: ParticipantSource::BestThird([Group::E, Group::F, Group::G, Group::I, Group::J]) },
        86 => MatchDef { number: 86, round: KnockoutRoundFilter::RoundOf32, home: ParticipantSource::GroupPosition { group: Group::J, position: 1 }, away: ParticipantSource::GroupPosition { group: Group::H, position: 2 } },
        87 => MatchDef { number: 87, round: KnockoutRoundFilter::RoundOf32, home: ParticipantSource::GroupPosition { group: Group::K, position: 1 }, away: ParticipantSource::BestThird([Group::D, Group::E, Group::I, Group::J, Group::L]) },
        88 => MatchDef { number: 88, round: KnockoutRoundFilter::RoundOf32, home: ParticipantSource::GroupPosition { group: Group::D, position: 2 }, away: ParticipantSource::GroupPosition { group: Group::G, position: 2 } },
        89 => MatchDef { number: 89, round: KnockoutRoundFilter::RoundOf16, home: ParticipantSource::Winner(74), away: ParticipantSource::Winner(77) },
        90 => MatchDef { number: 90, round: KnockoutRoundFilter::RoundOf16, home: ParticipantSource::Winner(73), away: ParticipantSource::Winner(75) },
        91 => MatchDef { number: 91, round: KnockoutRoundFilter::RoundOf16, home: ParticipantSource::Winner(76), away: ParticipantSource::Winner(78) },
        92 => MatchDef { number: 92, round: KnockoutRoundFilter::RoundOf16, home: ParticipantSource::Winner(79), away: ParticipantSource::Winner(80) },
        93 => MatchDef { number: 93, round: KnockoutRoundFilter::RoundOf16, home: ParticipantSource::Winner(83), away: ParticipantSource::Winner(84) },
        94 => MatchDef { number: 94, round: KnockoutRoundFilter::RoundOf16, home: ParticipantSource::Winner(81), away: ParticipantSource::Winner(82) },
        95 => MatchDef { number: 95, round: KnockoutRoundFilter::RoundOf16, home: ParticipantSource::Winner(86), away: ParticipantSource::Winner(88) },
        96 => MatchDef { number: 96, round: KnockoutRoundFilter::RoundOf16, home: ParticipantSource::Winner(85), away: ParticipantSource::Winner(87) },
        97 => MatchDef { number: 97, round: KnockoutRoundFilter::QuarterFinal, home: ParticipantSource::Winner(89), away: ParticipantSource::Winner(90) },
        98 => MatchDef { number: 98, round: KnockoutRoundFilter::QuarterFinal, home: ParticipantSource::Winner(93), away: ParticipantSource::Winner(94) },
        99 => MatchDef { number: 99, round: KnockoutRoundFilter::QuarterFinal, home: ParticipantSource::Winner(91), away: ParticipantSource::Winner(92) },
        100 => MatchDef { number: 100, round: KnockoutRoundFilter::QuarterFinal, home: ParticipantSource::Winner(95), away: ParticipantSource::Winner(96) },
        101 => MatchDef { number: 101, round: KnockoutRoundFilter::SemiFinal, home: ParticipantSource::Winner(97), away: ParticipantSource::Winner(98) },
        102 => MatchDef { number: 102, round: KnockoutRoundFilter::SemiFinal, home: ParticipantSource::Winner(99), away: ParticipantSource::Winner(100) },
        103 => MatchDef { number: 103, round: KnockoutRoundFilter::ThirdPlace, home: ParticipantSource::RunnerUp(101), away: ParticipantSource::RunnerUp(102) },
        _ => MatchDef { number: 104, round: KnockoutRoundFilter::Final, home: ParticipantSource::Winner(101), away: ParticipantSource::Winner(102) },
    }
}

/// The round that a knock-out match number belongs to.
pub open spec fn round_of_number(number: u16) -> KnockoutRoundFilter {
    if number <= 88 {
        KnockoutRoundFilter::RoundOf32
    } else if number <= 96 {
        KnockoutRoundFilter::RoundOf16
    } else if number <= 100 {
        KnockoutRoundFilter::QuarterFinal
    } else if number <= 102 {
        KnockoutRoundFilter::SemiFinal
    } else if number == 103 {
        KnockoutRoundFilter::ThirdPlace
    } else {
        KnockoutRoundFilter::Final
    }
}

/// The definition of knock-out match `number`; numbers outside 73..=104 are
/// not knock-out matches.
pub fn match_def(number: u16) -> (r: MatchDef)
    requires
        73 <= number <= 104,
    ensures
        r == bracket_match(number),
        r.number == number,
        r.round == round_of_number(number),
{
    match number {
            73 => MatchDef { number: 73, round: KnockoutRoundFilter::RoundOf32, home: ParticipantSource::GroupPosition { group: Group::A, position: 2 }, away: ParticipantSource::GroupPosition { group: Group::B, position: 2 } },
            74 => MatchDef { number: 74, round: KnockoutRoundFilter::RoundOf32, home: ParticipantSource::GroupPosition { group: Group::E, position: 1 }, away: ParticipantSource::BestThird([Group::A, Group::B, Group::C, Group::D, Group::F]) },
            75 => MatchDef { number: 75, round: KnockoutRoundFilter::RoundOf32, home: ParticipantSource::GroupPosition { group: Group::F, position: 1 }, away: ParticipantSource::GroupPosition { group: Group::C, position: 2 } },
            76 => MatchDef { number: 76, round: KnockoutRoundFilter::RoundOf32, home: ParticipantSource::GroupPosition { group: Group::C, position: 1 }, away: ParticipantSource::GroupPosition { group: Group::F, position: 2 } },
            77 => MatchDef { number: 77, round: KnockoutRoundFilter::RoundOf32, home: ParticipantSource::GroupPosition { group: Group::I, position: 1 }, away: ParticipantSource::BestThird([Group::C, Group::D, Group::F, Group::G, Group::H]) },
            78 => MatchDef { number: 78, round: KnockoutRoundFilter::RoundOf32, home: ParticipantSource::GroupPosition { group: Group::E, position: 2 }, away: ParticipantSource::GroupPosition { group: Group::I, position: 2 } },
            79 => MatchDef { number: 79, round: KnockoutRoundFilter::RoundOf32, home: ParticipantSource::GroupPosition { group: Group::A, position: 1 }, away: ParticipantSource::BestThird([Group::C, Group::E, Group::F, Group::H, Group::I]) },
            80 => MatchDef { number: 80, round: KnockoutRoundFilter::RoundOf32, home: ParticipantSource::GroupPosition { group: Group::L, position: 1 }, away: ParticipantSource::BestThird([Group::E, Group::H, Group::I, Group::J, Group::K]) },
            81 => MatchDef { number: 81, round: KnockoutRoundFilter::RoundOf32, home: ParticipantSource::GroupPosition { group: Group::D, position: 1 }, away: ParticipantSource::BestThird([Group::B, Group::E, Group::F, Group::I, Group::J]) },
            82 => MatchDef { number: 82, round: KnockoutRoundFilter::RoundOf32, home: ParticipantSource::GroupPosition { group: Group::G, position: 1 }, away: ParticipantSource::BestThird([Group::A, Group::E, Group::H, Group::I, Group::J]) },
            83 => MatchDef { number: 83, round: KnockoutRoundFilter::RoundOf32, home: ParticipantSource::GroupPosition { group: Group::K, position: 2 }, away: ParticipantSource::GroupPosition { group: Group::L, position: 2 } },
            84 => MatchDef { number: 84, round: KnockoutRoundFilter::RoundOf32, home: ParticipantSource::GroupPosition { group: Group::H, position: 1 }, away: ParticipantSource::GroupPosition { group: Group::J, position: 2 } },
            85 => MatchDef { number: 85, round: KnockoutRoundFilter::RoundOf32, home: ParticipantSource::GroupPosition { group: Group::B, position: 1 }, away: ParticipantSource::BestThird([Group::E, Group::F, Group::G, Group::I, Group::J]) },
            86 => MatchDef { number: 86, round: KnockoutRoundFilter::RoundOf32, home: ParticipantSource::GroupPosition { group: Group::J, position: 1 }, away: ParticipantSource::GroupPosition { group: Group::H, position: 2 } },
            87 => MatchDef { number: 87, round: KnockoutRoundFilter::RoundOf32, home: ParticipantSource::GroupPosition { group: Group::K, position: 1 }, away: ParticipantSource::BestThird([Group::D, Group::E, Group::I, Group::J, Group::L]) },
            88 => MatchDef { number: 88, round: KnockoutRoundFilter::RoundOf32, home: ParticipantSource::GroupPosition { group: Group::D, position: 2 }, away: ParticipantSource::GroupPosition { group: Group::G, position: 2 } },
            89 => MatchDef { number: 89, round: KnockoutRoundFilter::RoundOf16, home: ParticipantSource::Winner(74), away: ParticipantSource::Winner(77) },
            90 => MatchDef { number: 90, round: KnockoutRoundFilter::RoundOf16, home: ParticipantSource::Winner(73), away: ParticipantSource::Winner(75) },
            91 => MatchDef { number: 91, round: KnockoutRoundFilter::RoundOf16, home: ParticipantSource::Winner(76), away: ParticipantSource::Winner(78) },
            92 => MatchDef { number: 92, round: KnockoutRoundFilter::RoundOf16, home: ParticipantSource::Winner(79), away: ParticipantSource::Winner(80) },
            93 => MatchDef { number: 93, round: KnockoutRoundFilter::RoundOf16, home: ParticipantSource::Winner(83), away: ParticipantSource::Winner(84) },
            94 => MatchDef { number: 94, round: KnockoutRoundFilter::RoundOf16, home: ParticipantSource::Winner(81), away: ParticipantSource::Winner(82) },
            95 => MatchDef { number: 95, round: KnockoutRoundFilter::RoundOf16, home: ParticipantSource::Winner(86), away: ParticipantSource::Winner(88) },
            96 => MatchDef { number: 96, round: KnockoutRoundFilter::RoundOf16, home: ParticipantSource::Winner(85), away: ParticipantSource::Winner(87) },
            97 => MatchDef { number: 97, round: KnockoutRoundFilter::QuarterFinal, home: ParticipantSource::Winner(89), away: ParticipantSource::Winner(90) },
            98 => MatchDef { number: 98, round: KnockoutRoundFilter::QuarterFinal, home: ParticipantSource::Winner(93), away: ParticipantSource::Winner(94) },
            99 => MatchDef { number: 99, round: KnockoutRoundFilter::QuarterFinal, home: ParticipantSource::Winner(91), away: ParticipantSource::Winner(92) },
            100 => MatchDef { number: 100, round: KnockoutRoundFilter::QuarterFinal, home: ParticipantSource::Winner(95), away: ParticipantSource::Winner(96) },
            101 => MatchDef { number: 101, round: KnockoutRoundFilter::SemiFinal, home: ParticipantSource::Winner(97), away: ParticipantSource::Winner(98) },
            102 => MatchDef { number: 102, round: KnockoutRoundFilter::SemiFinal, home: ParticipantSource::Winner(99), away: ParticipantSource::Winner(100) },
            103 => MatchDef { number: 103, round: KnockoutRoundFilter::ThirdPlace, home: ParticipantSource::RunnerUp(101), away: ParticipantSource::RunnerUp(102) },
            _ => MatchDef { number: 104, round: KnockoutRoundFilter::Final, home: ParticipantSource::Winner(101), away: ParticipantSource::Winner(102) },
    }
}

/// A later-round match whose participants are the winners of two earlier
/// matches.
pub fn linked_match(
    number: u16,
    round: KnockoutRoundFilter,
    home_winner: u16,
    away_winner: u16,
) -> (r: MatchDef)
    ensures
        r == (MatchDef {
            number,
            round,
            home: ParticipantSource::Winner(home_winner),
            away: ParticipantSource::Winner(away_winner),
        }),
{
    MatchDef {
        number,
        round,
        home: ParticipantSource::Winner(home_winner),
        away: ParticipantSource::Winner(away_winner),
    }
}

/// Whether the winner of match `n` is a participant of match `m`.
pub open spec fn winner_feeds(m: u16, n: u16) -> bool {
    bracket_match(m).home == ParticipantSource::Winner(n) || bracket_match(m).away
        == ParticipantSource::Winner(n)
}

/// How many of the matches `m..=104` take the winner of match `n`.
pub open spec fn feeding_count(n: int, m: int) -> nat
    decreases 105 - m,
{
    if m > 104 {
        0
    } else {
        (if winner_feeds(m as u16, n as u16) {
            1nat
        } else {
            0nat
        }) + feeding_count(n, m + 1)
    }
}

proof fn lemma_single_feeding(n: int, m: int)
    requires
        89 <= m <= 105,
        feeding_count(n, m) == 1,
    ensures
        exists|k: int| m <= k <= 104 && #[trigger] winner_feeds(k as u16, n as u16),
        forall|k1: int, k2: int|
            m <= k1 <= 104 && m <= k2 <= 104 && #[trigger] winner_feeds(k1 as u16, n as u16)
                && #[trigger] winner_feeds(k2 as u16, n as u16) ==> k1 == k2,
    decreases 105 - m,
{
    if m <= 104 {
        if winner_feeds(m as u16, n as u16) {
            lemma_no_feeding(n, m + 1);
        } else {
            lemma_single_feeding(n, m + 1);
        }
    }
}

proof fn lemma_no_feeding(n: int, m: int)
    requires
        89 <= m <= 105,
        feeding_count(n, m) == 0,
    ensures
        forall|k: int| m <= k <= 104 ==> !#[trigger] winner_feeds(k as u16, n as u16),
    decreases 105 - m,
{
    if m <= 104 {
        lemma_no_feeding(n, m + 1);
    }
}

/// The bracket is a single-elimination tree: the winner of every match from
/// 73 to 102 goes on to exactly one later match, and every match from 89 on
/// is played by the winners (for the third-place match, the losers) of two
/// matches of the round before.
pub proof fn each_winner_goes_on_exactly_once(n: u16)
    requires
        73 <= n <= 102,
    ensures
        exists|m: int| 89 <= m <= 104 && #[trigger] winner_feeds(m as u16, n),
        forall|m1: int, m2: int|
            89 <= m1 <= 104 && 89 <= m2 <= 104 && #[trigger] winner_feeds(m1 as u16, n)
                && #[trigger] winner_feeds(m2 as u16, n) ==> m1 == m2,
{
    assert(feeding_count(n as int, 89) == 1) by {
        reveal_with_fuel(feeding_count, 17);
    }
    lemma_single_feeding(n as int, 89);
}

/// Every match after the round of 32 is fed by two distinct matches of the
/// previous round.
pub proof fn later_matches_are_fed_by_the_previous_round(m: u16)
    requires
        89 <= m <= 104,
    ensures
        bracket_match(m).home matches ParticipantSource::Winner(a) ==> bracket_match(m).away matches ParticipantSource::Winner(b) && a != b && previous_round(round_of_number(m)) == Some(round_of_number(a)) && round_of_number(a) == round_of_number(b),
        m == 103 ==> bracket_match(m).home == ParticipantSource::RunnerUp(101) && bracket_match(m).away == ParticipantSource::RunnerUp(102),
        m != 103 ==> bracket_match(m).home is Winner,
{
    assert(later_match_fed_well(m));
}

/// The round played just before `round`.
pub open spec fn previous_round(round: KnockoutRoundFilter) -> Option<KnockoutRoundFilter> {
    match round {
        KnockoutRoundFilter::RoundOf16 => Some(KnockoutRoundFilter::RoundOf32),
        KnockoutRoundFilter::QuarterFinal => Some(KnockoutRoundFilter::RoundOf16),
        KnockoutRoundFilter::SemiFinal => Some(KnockoutRoundFilter::QuarterFinal),
        KnockoutRoundFilter::ThirdPlace => Some(KnockoutRoundFilter::SemiFinal),
        KnockoutRoundFilter::Final => Some(KnockoutRoundFilter::SemiFinal),
        _ => None,
    }
}

spec fn later_match_fed_well(m: u16) -> bool {
    &&& bracket_match(m).home matches ParticipantSource::Winner(a) ==> bracket_match(m).away matches ParticipantSource::Winner(b) && a != b && previous_round(round_of_number(m)) == Some(round_of_number(a)) && round_of_number(a) == round_of_number(b)
    &&& m == 103 ==> bracket_match(m).home == ParticipantSource::RunnerUp(101) && bracket_match(m).away == ParticipantSource::RunnerUp(102)
    &&& m != 103 ==> bracket_match(m).home is Winner
}

/// Card positions of the bracket's columns, from the left edge inwards and
/// from the right edge inwards.
pub open spec fn left_round32_order() -> Seq<u16> {
    seq![74u16, 77, 73, 75, 83, 84, 81, 82]
}

pub open spec fn right_round32_order() -> Seq<u16> {
    seq![76u16, 78, 79, 80, 86, 88, 85, 87]
}

pub open spec fn left_round16_order() -> Seq<u16> {
    seq![89u16, 90, 93, 94]
}

pub open spec fn right_round16_order() -> Seq<u16> {
    seq![91u16, 92, 95, 96]
}

pub open spec fn left_quarter_order() -> Seq<u16> {
    seq![97u16, 98]
}

pub open spec fn right_quarter_order() -> Seq<u16> {
    seq![99u16, 100]
}

pub open spec fn left_semi_order() -> Seq<u16> {
    seq![101u16]
}

pub open spec fn right_semi_order() -> Seq<u16> {
    seq![102u16]
}

fn left_round32_matches() -> (r: Vec<u16>)
    ensures
        r@ == left_round32_order(),
{
    let r: Vec<u16> = vec![74, 77, 73, 75, 83, 84, 81, 82];
    assert(r@ =~= left_round32_order());
    r
}

fn right_round32_matches() -> (r: Vec<u16>)
    ensures
        r@ == right_round32_order(),
{
    let r: Vec<u16> = vec![76, 78, 79, 80, 86, 88, 85, 87];
    assert(r@ =~= right_round32_order());
    r
}

fn left_round16_matches() -> (r: Vec<u16>)
    ensures
        r@ == left_round16_order(),
{
    let r: Vec<u16> = vec![89, 90, 93, 94];
    assert(r@ =~= left_round16_order());
    r
}

fn right_round16_matches() -> (r: Vec<u16>)
    ensures
        r@ == right_round16_order(),
{
    let r: Vec<u16> = vec![91, 92, 95, 96];
    assert(r@ =~= right_round16_order());
    r
}

fn left_quarter_matches() -> (r: Vec<u16>)
    ensures
        r@ == left_quarter_order(),
{
    let r: Vec<u16> = vec![97, 98];
    assert(r@ =~= left_quarter_order());
    r
}

fn right_quarter_matches() -> (r: Vec<u16>)
    ensures
        r@ == right_quarter_order(),
{
    let r: Vec<u16> = vec![99, 100];
    assert(r@ =~= right_quarter_order());
    r
}

fn left_semi_matches() -> (r: Vec<u16>)
    ensures
        r@ == left_semi_order(),
{
    let r: Vec<u16> = vec![101];
    assert(r@ =~= left_semi_order());
    r
}

fn right_semi_matches() -> (r: Vec<u16>)
    ensures
        r@ == right_semi_order(),
{
    let r: Vec<u16> = vec![102];
    assert(r@ =~= right_semi_order());
    r
}

/// The kind of a column of the mirrored bracket.
#[derive(Clone, Copy, Debug, Eq, PartialEq, Structural)]
pub enum ColumnKind {
    RoundOf32,
    RoundOf16,
    QuarterFinal,
    SemiFinal,
    Center,
}

/// A column of the mirrored bracket: its title, kind and matches, top to
/// bottom.
#[derive(Debug)]
pub struct ColumnSpec {
    pub title: &'static str,
    pub kind: ColumnKind,
    pub matches: Vec<u16>,
}

/// A column, with its title and matches taken as values.
pub ghost struct ColumnShape {
    pub title: Seq<char>,
    pub kind: ColumnKind,
    pub matches: Seq<u16>,
}

pub open spec fn column_shape(c: ColumnSpec) -> ColumnShape {
    ColumnShape { title: c.title@, kind: c.kind, matches: c.matches@ }
}

pub open spec fn shape(title: Seq<char>, kind: ColumnKind, matches: Seq<u16>) -> ColumnShape {
    ColumnShape { title, kind, matches }
}

pub open spec fn when(c: bool, x: ColumnShape) -> Seq<ColumnShape> {
    if c {
        seq![x]
    } else {
        Seq::empty()
    }
}

/// The matches of the centre column: the final above the third-place match.
pub open spec fn center_order(rounds: Seq<KnockoutRoundFilter>) -> Seq<u16> {
    (if rounds.contains(KnockoutRoundFilter::Final) {
        seq![104u16]
    } else {
        Seq::empty()
    }) + (if rounds.contains(KnockoutRoundFilter::ThirdPlace) {
        seq![103u16]
    } else {
        Seq::empty()
    })
}

/// The left half of the bracket: each selected round from the round of 32
/// inwards.
pub open spec fn left_half(rounds: Seq<KnockoutRoundFilter>) -> Seq<ColumnShape> {
    when(rounds.contains(KnockoutRoundFilter::RoundOf32), shape("Round of 32"@, ColumnKind::RoundOf32, left_round32_order()))
        + when(rounds.contains(KnockoutRoundFilter::RoundOf16), shape("Round of 16"@, ColumnKind::RoundOf16, left_round16_order()))
        + when(rounds.contains(KnockoutRoundFilter::QuarterFinal), shape("Quarter-finals"@, ColumnKind::QuarterFinal, left_quarter_order()))
        + when(rounds.contains(KnockoutRoundFilter::SemiFinal), shape("Semi-finals"@, ColumnKind::SemiFinal, left_semi_order()))
}

/// The right half of the bracket: each selected round from the semi-finals
/// outwards.
pub open spec fn right_half(rounds: Seq<KnockoutRoundFilter>) -> Seq<ColumnShape> {
    when(rounds.contains(KnockoutRoundFilter::SemiFinal), shape("Semi-finals"@, ColumnKind::SemiFinal, right_semi_order()))
        + when(rounds.contains(KnockoutRoundFilter::QuarterFinal), shape("Quarter-finals"@, ColumnKind::QuarterFinal, right_quarter_order()))
        + when(rounds.contains(KnockoutRoundFilter::RoundOf16), shape("Round of 16"@, ColumnKind::RoundOf16, right_round16_order()))
        + when(rounds.contains(KnockoutRoundFilter::RoundOf32), shape("Round of 32"@, ColumnKind::RoundOf32, right_round32_order()))
}

/// The columns of the bracket for the selected rounds: the left half, the
/// final and third-place match in the centre when either is selected, and
/// the right half.
pub open spec fn mirrored_layout(rounds: Seq<KnockoutRoundFilter>) -> Seq<ColumnShape> {
    left_half(rounds) + when(center_order(rounds).len() > 0, shape("Final / Third"@, ColumnKind::Center, center_order(rounds))) + right_half(rounds)
}

/// Whether `round` is among `rounds`.
pub fn has_round(rounds: &[KnockoutRoundFilter], round: KnockoutRoundFilter) -> (r: bool)
    ensures
        r == rounds@.contains(round),
{
    let mut i: usize = 0;
    while i < rounds.len()
        invariant
            i <= rounds@.len(),
            forall|j: int| 0 <= j < i ==> rounds@[j] != round,
        decreases rounds@.len() - i,
    {
        if rounds[i] == round {
            assert(rounds@[i as int] == round);
            return true;
        }
        i = i + 1;
    }
    false
}

/// The columns of the mirrored bracket for the selected rounds.
pub fn mirrored_columns(rounds: &[KnockoutRoundFilter]) -> (r: Vec<ColumnSpec>)
    ensures
        r@.map_values(|c: ColumnSpec| column_shape(c)) == mirrored_layout(rounds@),
{
    let r32 = has_round(rounds, KnockoutRoundFilter::RoundOf32);
    let r16 = has_round(rounds, KnockoutRoundFilter::RoundOf16);
    let qf = has_round(rounds, KnockoutRoundFilter::QuarterFinal);
    let sf = has_round(rounds, KnockoutRoundFilter::SemiFinal);
    let fin = has_round(rounds, KnockoutRoundFilter::Final);
    let third = has_round(rounds, KnockoutRoundFilter::ThirdPlace);
    let mut columns: Vec<ColumnSpec> = Vec::new();
    if r32 {
        columns.push(ColumnSpec { title: "Round of 32", kind: ColumnKind::RoundOf32, matches: left_round32_matches() });
    }
    if r16 {
        columns.push(ColumnSpec { title: "Round of 16", kind: ColumnKind::RoundOf16, matches: left_round16_matches() });
    }
    if qf {
        columns.push(ColumnSpec { title: "Quarter-finals", kind: ColumnKind::QuarterFinal, matches: left_quarter_matches() });
    }
    if sf {
        columns.push(ColumnSpec { title: "Semi-finals", kind: ColumnKind::SemiFinal, matches: left_semi_matches() });
    }
    let ghost left = columns@.map_values(|c: ColumnSpec| column_shape(c));
    assert(left =~= left_half(rounds@));
    let mut center: Vec<u16> = Vec::new();
    if fin {
        center.push(104);
    }
    if third {
        center.push(103);
    }
    assert(center@ =~= center_order(rounds@));
    if center.len() > 0 {
        columns.push(ColumnSpec { title: "Final / Third", kind: ColumnKind::Center, matches: center });
    }
    let ghost middle = columns@.map_values(|c: ColumnSpec| column_shape(c));
    assert(middle =~= left_half(rounds@) + when(center_order(rounds@).len() > 0, shape("Final / Third"@, ColumnKind::Center, center_order(rounds@))));
    if sf {
        columns.push(ColumnSpec { title: "Semi-finals", kind: ColumnKind::SemiFinal, matches: right_semi_matches() });
    }
    if qf {
        columns.push(ColumnSpec { title: "Quarter-finals", kind: ColumnKind::QuarterFinal, matches: right_quarter_matches() });
    }
    if r16 {
        columns.push(ColumnSpec { title: "Round of 16", kind: ColumnKind::RoundOf16, matches: right_round16_matches() });
    }
    if r32 {
        columns.push(ColumnSpec { title: "Round of 32", kind: ColumnKind::RoundOf32, matches: right_round32_matches() });
    }
    assert(columns@.map_values(|c: ColumnSpec| column_shape(c)) =~= mirrored_layout(rounds@));
    columns
}

/// The first position of `x` in `s`.
pub open spec fn first_position(s: Seq<u16>, x: u16) -> Option<int>
    decreases s.len(),
{
    if s.len() == 0 {
        None
    } else if s.last() == x && first_position(s.drop_last(), x) is None {
        Some(s.len() - 1)
    } else {
        first_position(s.drop_last(), x)
    }
}

/// Position of `match_number` in the left order, or else in the right one.
pub open spec fn position_in_halves(match_number: u16, left: Seq<u16>, right: Seq<u16>) -> Option<int> {
    match first_position(left, match_number) {
        Some(p) => Some(p),
        None => first_position(right, match_number),
    }
}

fn first_position_exec(s: &[u16], x: u16) -> (r: Option<usize>)
    ensures
        r matches Some(p) ==> first_position(s@, x) == Some(p as int) && p < s@.len(),
        r is None ==> first_position(s@, x) is None,
{
    let mut i: usize = 0;
    while i < s.len()
        invariant
            i <= s@.len(),
            first_position(s@.take(i as int), x) is None,
        decreases s@.len() - i,
    {
        assert(s@.take(i + 1).drop_last() =~= s@.take(i as int));
        if s[i] == x {
            proof {
                lemma_first_position_prefix(s@, i as int + 1, x);
            }
            return Some(i);
        }
        i = i + 1;
    }
    assert(s@.take(i as int) =~= s@);
    None
}

proof fn lemma_first_position_prefix(s: Seq<u16>, k: int, x: u16)
    requires
        0 < k <= s.len(),
        s[k - 1] == x,
        first_position(s.take(k - 1), x) is None,
    ensures
        first_position(s, x) == Some(k - 1),
    decreases s.len(),
{
    let t = s.take(k);
    assert(t.drop_last() =~= s.take(k - 1));
    if k < s.len() {
        assert(s.drop_last().take(k - 1) =~= s.take(k - 1));
        lemma_first_position_prefix(s.drop_last(), k, x);
        assert(s.drop_last().take(k) =~= t);
        assert(s.drop_last().take(k - 1) =~= s.take(k - 1));
    } else {
        assert(t =~= s);
    }
}

/// Position of a match in the left half's order, or else in the right
/// half's.
pub fn match_position(match_number: u16, left: &[u16], right: &[u16]) -> (r: Option<usize>)
    ensures
        r matches Some(p) ==> position_in_halves(match_number, left@, right@) == Some(p as int)
            && p < left@.len() + right@.len(),
        r is None ==> position_in_halves(match_number, left@, right@) is None,
{
    match first_position_exec(left, match_number) {
        Some(p) => Some(p),
        None => first_position_exec(right, match_number),
    }
}

pub open spec fn position_or_zero(p: Option<int>) -> int {
    match p {
        Some(i) => i,
        None => 0,
    }
}

/// The row of the bracket body on which a match's card sits (its middle
/// line): cards of a round are spaced twice as far apart as those of the
/// round before.
pub open spec fn match_row(kind: ColumnKind, match_number: u16) -> int {
    match kind {
        ColumnKind::RoundOf32 => position_or_zero(position_in_halves(match_number, left_round32_order(), right_round32_order())) * 4 + 1,
        ColumnKind::RoundOf16 => position_or_zero(position_in_halves(match_number, left_round16_order(), right_round16_order())) * 8 + 3,
        ColumnKind::QuarterFinal => position_or_zero(position_in_halves(match_number, left_quarter_order(), right_quarter_order())) * 16 + 7,
        ColumnKind::SemiFinal => 15,
        ColumnKind::Center => if match_number == 104 {
            13
        } else if match_number == 103 {
            21
        } else {
            17
        },
    }
}

pub fn mirrored_match_y(kind: ColumnKind, match_number: u16) -> (r: usize)
    ensures
        r == match_row(kind, match_number),
{
    match kind {
        ColumnKind::RoundOf32 => {
            let l = left_round32_matches();
            let rr = right_round32_matches();
            let p = match match_position(match_number, l.as_slice(), rr.as_slice()) {
                Some(p) => p,
                None => 0,
            };
            p * 4 + 1
        },
        ColumnKind::RoundOf16 => {
            let l = left_round16_matches();
            let rr = right_round16_matches();
            let p = match match_position(match_number, l.as_slice(), rr.as_slice()) {
                Some(p) => p,
                None => 0,
            };
            p * 8 + 3
        },
        ColumnKind::QuarterFinal => {
            let l = left_quarter_matches();
            let rr = right_quarter_matches();
            let p = match match_position(match_number, l.as_slice(), rr.as_slice()) {
                Some(p) => p,
                None => 0,
            };
            p * 16 + 7
        },
        ColumnKind::SemiFinal => 15,
        ColumnKind::Center => {
            if match_number == 104 {
                13
            } else if match_number == 103 {
                21
            } else {
                17
            }
        },
    }
}

/// The letter of each group.
pub open spec fn group_letter(g: Group) -> char {
    match g {
        Group::A => 'A',
        Group::B => 'B',
        Group::C => 'C',
        Group::D => 'D',
        Group::E => 'E',
        Group::F => 'F',
        Group::G => 'G',
        Group::H => 'H',
        Group::I => 'I',
        Group::J => 'J',
        Group::K => 'K',
        Group::L => 'L',
    }
}

pub fn letter(g: Group) -> (r: char)
    ensures
        r == group_letter(g),
{
    match g {
        Group::A => 'A',
        Group::B => 'B',
        Group::C => 'C',
        Group::D => 'D',
        Group::E => 'E',
        Group::F => 'F',
        Group::G => 'G',
        Group::H => 'H',
        Group::I => 'I',
        Group::J => 'J',
        Group::K => 'K',
        Group::L => 'L',
    }
}

/// The letters of `groups`, in order.
pub fn group_letters(groups: &[Group]) -> (r: String)
    ensures
        r@ == groups@.map_values(|g: Group| group_letter(g)),
{
    let mut s = String::new();
    let mut i: usize = 0;
    while i < groups.len()
        invariant
            i <= groups@.len(),
            s@ == groups@.take(i as int).map_values(|g: Group| group_letter(g)),
        decreases groups@.len() - i,
    {
        push_char(&mut s, letter(groups[i]));
        assert(groups@.take(i + 1).map_values(|g: Group| group_letter(g)) =~= groups@.take(
            i as int,
        ).map_values(|g: Group| group_letter(g)).push(group_letter(groups@[i as int])));
        i = i + 1;
    }
    assert(groups@.take(i as int) =~= groups@);
    s
}

spec fn kind_when(c: bool, k: ColumnKind) -> Seq<ColumnKind> {
    if c {
        seq![k]
    } else {
        Seq::empty()
    }
}

spec fn kinds_of(a: bool, b: bool, c: bool, d: bool) -> Seq<ColumnKind> {
    kind_when(a, ColumnKind::RoundOf32) + kind_when(b, ColumnKind::RoundOf16) + kind_when(
        c,
        ColumnKind::QuarterFinal,
    ) + kind_when(d, ColumnKind::SemiFinal)
}

spec fn kinds_of_rev(a: bool, b: bool, c: bool, d: bool) -> Seq<ColumnKind> {
    kind_when(d, ColumnKind::SemiFinal) + kind_when(c, ColumnKind::QuarterFinal) + kind_when(
        b,
        ColumnKind::RoundOf16,
    ) + kind_when(a, ColumnKind::RoundOf32)
}

proof fn lemma_kinds_reverse(a: bool, b: bool, c: bool, d: bool)
    ensures
        kinds_of_rev(a, b, c, d) =~= kinds_of(a, b, c, d).reverse(),
{
    if a {
        if b {
            if c {
                if d {
                    assert(kinds_of_rev(a, b, c, d) =~= kinds_of(a, b, c, d).reverse());
                } else {
                    assert(kinds_of_rev(a, b, c, d) =~= kinds_of(a, b, c, d).reverse());
                }
            } else {
                if d {
                    assert(kinds_of_rev(a, b, c, d) =~= kinds_of(a, b, c, d).reverse());
                } else {
                    assert(kinds_of_rev(a, b, c, d) =~= kinds_of(a, b, c, d).reverse());
                }
            }
        } else {
            if c {
                if d {
                    assert(kinds_of_rev(a, b, c, d) =~= kinds_of(a, b, c, d).reverse());
                } else {
                    assert(kinds_of_rev(a, b, c, d) =~= kinds_of(a, b, c, d).reverse());
                }
            } else {
                if d {
                    assert(kinds_of_rev(a, b, c, d) =~= kinds_of(a, b, c, d).reverse());
                } else {
                    assert(kinds_of_rev(a, b, c, d) =~= kinds_of(a, b, c, d).reverse());
                }
            }
        }
    } else {
        if b {
            if c {
                if d {
                    assert(kinds_of_rev(a, b, c, d) =~= kinds_of(a, b, c, d).reverse());
                } else {
                    assert(kinds_of_rev(a, b, c, d) =~= kinds_of(a, b, c, d).reverse());
                }
            } else {
                if d {
                    assert(kinds_of_rev(a, b, c, d) =~= kinds_of(a, b, c, d).reverse());
                } else {
                    assert(kinds_of_rev(a, b, c, d) =~= kinds_of(a, b, c, d).reverse());
                }
            }
        } else {
            if c {
                if d {
                    assert(kinds_of_rev(a, b, c, d) =~= kinds_of(a, b, c, d).reverse());
                } else {
                    assert(kinds_of_rev(a, b, c, d) =~= kinds_of(a, b, c, d).reverse());
                }
            } else {
                if d {
                    assert(kinds_of_rev(a, b, c, d) =~= kinds_of(a, b, c, d).reverse());
                } else {
                    assert(kinds_of_rev(a, b, c, d) =~= kinds_of(a, b, c, d).reverse());
                }
            }
        }
    }
}

proof fn lemma_halves_mirror(rounds: Seq<KnockoutRoundFilter>)
    ensures
        left_half(rounds).len() == right_half(rounds).len(),
        forall|j: int|
            0 <= j < left_half(rounds).len() ==> #[trigger] right_half(rounds)[j].kind == left_half(
                rounds,
            )[left_half(rounds).len() - 1 - j].kind,
{
    let a = rounds.contains(KnockoutRoundFilter::RoundOf32);
    let b = rounds.contains(KnockoutRoundFilter::RoundOf16);
    let c = rounds.contains(KnockoutRoundFilter::QuarterFinal);
    let d = rounds.contains(KnockoutRoundFilter::SemiFinal);
    let lk = left_half(rounds).map_values(|x: ColumnShape| x.kind);
    let rk = right_half(rounds).map_values(|x: ColumnShape| x.kind);
    assert(lk =~= kinds_of(a, b, c, d));
    assert(rk =~= kinds_of_rev(a, b, c, d));
    lemma_kinds_reverse(a, b, c, d);
    assert(rk =~= lk.reverse());
    assert forall|j: int| 0 <= j < left_half(rounds).len() implies #[trigger] right_half(rounds)[j].kind
        == left_half(rounds)[left_half(rounds).len() - 1 - j].kind by {
        assert(rk[j] == right_half(rounds)[j].kind);
        assert(lk[left_half(rounds).len() - 1 - j] == left_half(rounds)[left_half(rounds).len() - 1 - j].kind);
    }
}

/// The bracket is laid out symmetrically: the i-th column from the left and
/// the i-th column from the right show the same round, and the centre column
/// holds the final or the third-place match.
pub proof fn bracket_columns_are_mirrored(rounds: Seq<KnockoutRoundFilter>, i: int)
    requires
        0 <= i < mirrored_layout(rounds).len(),
    ensures
        mirrored_layout(rounds)[i].kind == mirrored_layout(rounds)[mirrored_layout(rounds).len()
            - 1 - i].kind,
{
    lemma_halves_mirror(rounds);
    let l = left_half(rounds);
    let m = when(center_order(rounds).len() > 0, shape("Final / Third"@, ColumnKind::Center, center_order(rounds)));
    let r = right_half(rounds);
    let all = mirrored_layout(rounds);
    assert(all == l + m + r);
    let n = all.len();
    let j = n - 1 - i;
    if i < l.len() {
        assert(all[i] == l[i]);
        assert(all[j] == r[l.len() - 1 - i]);
    } else if i < l.len() + m.len() {
        assert(j == i);
    } else {
        assert(all[i] == r[i - l.len() - m.len()]);
        assert(all[j] == l[j]);
    }
}

/// The matches of a run of columns, column by column, each top to bottom.
pub open spec fn listed_matches(cols: Seq<ColumnShape>) -> Seq<u16>
    decreases cols.len(),
{
    if cols.len() == 0 {
        Seq::empty()
    } else {
        listed_matches(cols.drop_last()) + cols.last().matches
    }
}

proof fn lemma_listed_matches_add(a: Seq<ColumnShape>, b: Seq<ColumnShape>)
    ensures
        listed_matches(a + b) == listed_matches(a) + listed_matches(b),
    decreases b.len(),
{
    if b.len() == 0 {
        assert(a + b =~= a);
        assert(listed_matches(a) + listed_matches(b) =~= listed_matches(a));
    } else {
        lemma_listed_matches_add(a, b.drop_last());
        assert((a + b).drop_last() =~= a + b.drop_last());
        assert((a + b).last() == b.last());
        assert(listed_matches(a) + listed_matches(b) =~= listed_matches(a) + listed_matches(b.drop_last())
            + b.last().matches);
    }
}

/// A column's matches when the column is shown, nothing otherwise.
spec fn shown_matches(c: bool, m: Seq<u16>) -> Seq<u16> {
    if c {
        m
    } else {
        Seq::empty()
    }
}

proof fn lemma_listed_when(c: bool, x: ColumnShape)
    ensures
        listed_matches(when(c, x)) == shown_matches(c, x.matches),
{
    if c {
        let s = seq![x];
        assert(s.drop_last() =~= Seq::<ColumnShape>::empty());
        assert(s.last() == x);
        assert(listed_matches(s.drop_last()) =~= Seq::<u16>::empty());
        assert(listed_matches(s) == listed_matches(s.drop_last()) + x.matches);
        assert(listed_matches(s) =~= x.matches);
    } else {
        assert(listed_matches(Seq::<ColumnShape>::empty()) =~= Seq::<u16>::empty());
    }
}

/// The column, counted from the left, that a knock-out match stands in:
/// the left half, the centre, then the right half.
spec fn column_of(n: u16) -> int {
    if n == 74 || n == 77 || n == 73 || n == 75 || n == 83 || n == 84 || n == 81 || n == 82 {
        0
    } else if 89 <= n <= 90 || 93 <= n <= 94 {
        1
    } else if 97 <= n <= 98 {
        2
    } else if n == 101 {
        3
    } else if 103 <= n <= 104 {
        4
    } else if n == 102 {
        5
    } else if 99 <= n <= 100 {
        6
    } else if 91 <= n <= 92 || 95 <= n <= 96 {
        7
    } else {
        8
    }
}

/// The round that the columns other than the centre show.
spec fn column_round(k: int) -> KnockoutRoundFilter {
    if k == 0 || k == 8 {
        KnockoutRoundFilter::RoundOf32
    } else if k == 1 || k == 7 {
        KnockoutRoundFilter::RoundOf16
    } else if k == 2 || k == 6 {
        KnockoutRoundFilter::QuarterFinal
    } else {
        KnockoutRoundFilter::SemiFinal
    }
}

/// A column's fixed list holds each match of that column once, and nothing
/// else.
spec fn literal_column_ok(s: Seq<u16>, k: int) -> bool {
    &&& s.no_duplicates()
    &&& forall|i: int| 0 <= i < s.len() ==> 73 <= #[trigger] s[i] <= 104 && column_of(s[i]) == k
    &&& forall|n: u16| 73 <= n <= 104 && column_of(n) == k ==> #[trigger] s.contains(n)
}

/// What column `k` shows holds each match of that column whose round is
/// selected once, and nothing else.
spec fn column_ok(s: Seq<u16>, rounds: Seq<KnockoutRoundFilter>, k: int) -> bool {
    &&& s.no_duplicates()
    &&& forall|i: int|
        0 <= i < s.len() ==> 73 <= #[trigger] s[i] <= 104 && column_of(s[i]) == k && rounds.contains(
            round_of_number(s[i]),
        )
    &&& forall|n: u16|
        73 <= n <= 104 && column_of(n) == k && rounds.contains(round_of_number(n)) ==> #[trigger] s.contains(n)
}

/// What the first `k` columns show holds each match of those columns whose
/// round is selected once, and nothing else.
spec fn columns_ok(s: Seq<u16>, rounds: Seq<KnockoutRoundFilter>, k: int) -> bool {
    &&& s.no_duplicates()
    &&& forall|i: int|
        0 <= i < s.len() ==> 73 <= #[trigger] s[i] <= 104 && column_of(s[i]) < k && rounds.contains(
            round_of_number(s[i]),
        )
    &&& forall|n: u16|
        73 <= n <= 104 && column_of(n) < k && rounds.contains(round_of_number(n)) ==> #[trigger] s.contains(n)
}

proof fn lemma_join_column(a: Seq<u16>, b: Seq<u16>, rounds: Seq<KnockoutRoundFilter>, k: int)
    requires
        columns_ok(a, rounds, k),
        column_ok(b, rounds, k),
    ensures
        columns_ok(a + b, rounds, k + 1),
{
    let s = a + b;
    assert forall|i: int| 0 <= i < s.len() implies 73 <= #[trigger] s[i] <= 104 && column_of(s[i]) < k + 1
        && rounds.contains(round_of_number(s[i])) by {
        if i >= a.len() {
            assert(s[i] == b[i - a.len()]);
        }
    }
    assert forall|i: int, j: int| 0 <= i < s.len() && 0 <= j < s.len() && i != j implies #[trigger] s[i]
        != #[trigger] s[j] by {
        if i < a.len() && j >= a.len() {
            assert(s[j] == b[j - a.len()]);
            assert(column_of(s[i]) < k);
        } else if i >= a.len() && j < a.len() {
            assert(s[i] == b[i - a.len()]);
            assert(column_of(s[j]) < k);
        } else if i >= a.len() && j >= a.len() {
            assert(s[i] == b[i - a.len()]);
            assert(s[j] == b[j - a.len()]);
        }
    }
    assert forall|n: u16|
        73 <= n <= 104 && column_of(n) < k + 1 && rounds.contains(round_of_number(n)) implies #[trigger] s.contains(n) by {
        if column_of(n) < k {
            assert(a.contains(n));
            let p = choose|p: int| 0 <= p < a.len() && a[p] == n;
            assert(s[p] == n);
        } else {
            assert(b.contains(n));
            let p = choose|p: int| 0 <= p < b.len() && b[p] == n;
            assert(s[a.len() + p] == n);
        }
    }
}

proof fn lemma_side_column(s: Seq<u16>, rounds: Seq<KnockoutRoundFilter>, k: int)
    requires
        k != 4,
        literal_column_ok(s, k),
    ensures
        column_ok(shown_matches(rounds.contains(column_round(k)), s), rounds, k),
{
    let shown = shown_matches(rounds.contains(column_round(k)), s);
    assert forall|i: int| 0 <= i < shown.len() implies 73 <= #[trigger] shown[i] <= 104 && column_of(shown[i]) == k
        && rounds.contains(round_of_number(shown[i])) by {
        assert(round_of_number(s[i]) == column_round(k));
    }
    assert forall|n: u16| 73 <= n <= 104 && column_of(n) == k && rounds.contains(round_of_number(n)) implies #[trigger] shown.contains(n) by {
        assert(round_of_number(n) == column_round(k));
    }
}

proof fn lemma_center_column(rounds: Seq<KnockoutRoundFilter>)
    ensures
        column_ok(center_order(rounds), rounds, 4),
{
    let s = center_order(rounds);
    let f = rounds.contains(KnockoutRoundFilter::Final);
    let t = rounds.contains(KnockoutRoundFilter::ThirdPlace);
    if f && t {
        assert(s =~= seq![104u16, 103]);
    } else if f {
        assert(s =~= seq![104u16]);
    } else if t {
        assert(s =~= seq![103u16]);
    } else {
        assert(s =~= Seq::<u16>::empty());
    }
    assert forall|n: u16| 73 <= n <= 104 && column_of(n) == 4 && rounds.contains(round_of_number(n)) implies #[trigger] s.contains(n) by {
        if n == 104 {
            assert(s[0] == n);
        } else if f {
            assert(s[1] == n);
        } else {
            assert(s[0] == n);
        }
    }
}

/// What each column shows, left to right, joined.
spec fn shown_pieces(rounds: Seq<KnockoutRoundFilter>) -> Seq<u16> {
    let r32 = rounds.contains(KnockoutRoundFilter::RoundOf32);
    let r16 = rounds.contains(KnockoutRoundFilter::RoundOf16);
    let qf = rounds.contains(KnockoutRoundFilter::QuarterFinal);
    let sf = rounds.contains(KnockoutRoundFilter::SemiFinal);
    Seq::<u16>::empty() + shown_matches(r32, left_round32_order()) + shown_matches(r16, left_round16_order())
        + shown_matches(qf, left_quarter_order()) + shown_matches(sf, left_semi_order()) + center_order(rounds)
        + shown_matches(sf, right_semi_order()) + shown_matches(qf, right_quarter_order()) + shown_matches(
        r16,
        right_round16_order(),
    ) + shown_matches(r32, right_round32_order())
}

#[verifier::spinoff_prover]
#[verifier::rlimit(40)]
proof fn lemma_layout_is_shown_pieces(rounds: Seq<KnockoutRoundFilter>)
    ensures
        listed_matches(mirrored_layout(rounds)) == shown_pieces(rounds),
{
    let r32 = rounds.contains(KnockoutRoundFilter::RoundOf32);
    let r16 = rounds.contains(KnockoutRoundFilter::RoundOf16);
    let qf = rounds.contains(KnockoutRoundFilter::QuarterFinal);
    let sf = rounds.contains(KnockoutRoundFilter::SemiFinal);
    let x0 = shape("Round of 32"@, ColumnKind::RoundOf32, left_round32_order());
    let x1 = shape("Round of 16"@, ColumnKind::RoundOf16, left_round16_order());
    let x2 = shape("Quarter-finals"@, ColumnKind::QuarterFinal, left_quarter_order());
    let x3 = shape("Semi-finals"@, ColumnKind::SemiFinal, left_semi_order());
    let xc = shape("Final / Third"@, ColumnKind::Center, center_order(rounds));
    let x5 = shape("Semi-finals"@, ColumnKind::SemiFinal, right_semi_order());
    let x6 = shape("Quarter-finals"@, ColumnKind::QuarterFinal, right_quarter_order());
    let x7 = shape("Round of 16"@, ColumnKind::RoundOf16, right_round16_order());
    let x8 = shape("Round of 32"@, ColumnKind::RoundOf32, right_round32_order());
    let w0 = when(r32, x0);
    let w1 = when(r16, x1);
    let w2 = when(qf, x2);
    let w3 = when(sf, x3);
    let wc = when(center_order(rounds).len() > 0, xc);
    let w5 = when(sf, x5);
    let w6 = when(qf, x6);
    let w7 = when(r16, x7);
    let w8 = when(r32, x8);
    assert(left_half(rounds) == w0 + w1 + w2 + w3);
    assert(right_half(rounds) == w5 + w6 + w7 + w8);
    assert(mirrored_layout(rounds) == left_half(rounds) + wc + right_half(rounds));
    lemma_listed_matches_add(w0, w1);
    lemma_listed_matches_add(w0 + w1, w2);
    lemma_listed_matches_add(w0 + w1 + w2, w3);
    lemma_listed_matches_add(w5, w6);
    lemma_listed_matches_add(w5 + w6, w7);
    lemma_listed_matches_add(w5 + w6 + w7, w8);
    lemma_listed_matches_add(left_half(rounds), wc);
    lemma_listed_matches_add(left_half(rounds) + wc, right_half(rounds));
    lemma_listed_when(r32, x0);
    lemma_listed_when(r16, x1);
    lemma_listed_when(qf, x2);
    lemma_listed_when(sf, x3);
    lemma_listed_when(center_order(rounds).len() > 0, xc);
    lemma_listed_when(sf, x5);
    lemma_listed_when(qf, x6);
    lemma_listed_when(r16, x7);
    lemma_listed_when(r32, x8);
    assert(shown_matches(center_order(rounds).len() > 0, center_order(rounds)) =~= center_order(rounds));
    assert(listed_matches(mirrored_layout(rounds)) =~= shown_pieces(rounds));
}

#[verifier::spinoff_prover]
#[verifier::rlimit(40)]
proof fn lemma_shown_pieces_ok(rounds: Seq<KnockoutRoundFilter>)
    ensures
        columns_ok(shown_pieces(rounds), rounds, 9),
{
    let r32 = rounds.contains(KnockoutRoundFilter::RoundOf32);
    let r16 = rounds.contains(KnockoutRoundFilter::RoundOf16);
    let qf = rounds.contains(KnockoutRoundFilter::QuarterFinal);
    let sf = rounds.contains(KnockoutRoundFilter::SemiFinal);
    let p0 = shown_matches(r32, left_round32_order());
    let p1 = shown_matches(r16, left_round16_order());
    let p2 = shown_matches(qf, left_quarter_order());
    let p3 = shown_matches(sf, left_semi_order());
    let pc = center_order(rounds);
    let p5 = shown_matches(sf, right_semi_order());
    let p6 = shown_matches(qf, right_quarter_order());
    let p7 = shown_matches(r16, right_round16_order());
    let p8 = shown_matches(r32, right_round32_order());
    let empty = Seq::<u16>::empty();
    lemma_column_0_literal();
    lemma_column_1_literal();
    lemma_column_2_literal();
    lemma_column_3_literal();
    lemma_column_5_literal();
    lemma_column_6_literal();
    lemma_column_7_literal();
    lemma_column_8_literal();
    lemma_side_column(left_round32_order(), rounds, 0);
    lemma_side_column(left_round16_order(), rounds, 1);
    lemma_side_column(left_quarter_order(), rounds, 2);
    lemma_side_column(left_semi_order(), rounds, 3);
    lemma_center_column(rounds);
    lemma_side_column(right_semi_order(), rounds, 5);
    lemma_side_column(right_quarter_order(), rounds, 6);
    lemma_side_column(right_round16_order(), rounds, 7);
    lemma_side_column(right_round32_order(), rounds, 8);
    lemma_join_column(empty, p0, rounds, 0);
    lemma_join_column(empty + p0, p1, rounds, 1);
    lemma_join_column(empty + p0 + p1, p2, rounds, 2);
    lemma_join_column(empty + p0 + p1 + p2, p3, rounds, 3);
    lemma_join_column(empty + p0 + p1 + p2 + p3, pc, rounds, 4);
    lemma_join_column(empty + p0 + p1 + p2 + p3 + pc, p5, rounds, 5);
    lemma_join_column(empty + p0 + p1 + p2 + p3 + pc + p5, p6, rounds, 6);
    lemma_join_column(empty + p0 + p1 + p2 + p3 + pc + p5 + p6, p7, rounds, 7);
    lemma_join_column(empty + p0 + p1 + p2 + p3 + pc + p5 + p6 + p7, p8, rounds, 8);
}

/// The bracket shows every knock-out match of the selected rounds exactly
/// once, and no other match.
pub proof fn bracket_shows_each_selected_match_once(rounds: Seq<KnockoutRoundFilter>)
    ensures
        listed_matches(mirrored_layout(rounds)).no_duplicates(),
        forall|i: int|
            0 <= i < listed_matches(mirrored_layout(rounds)).len() ==> 73 <= #[trigger] listed_matches(
                mirrored_layout(rounds),
            )[i] <= 104 && rounds.contains(round_of_number(listed_matches(mirrored_layout(rounds))[i])),
        forall|n: u16|
            73 <= n <= 104 && rounds.contains(round_of_number(n)) ==> #[trigger] listed_matches(
                mirrored_layout(rounds),
            ).contains(n),
{
    lemma_layout_is_shown_pieces(rounds);
    lemma_shown_pieces_ok(rounds);
    let flat = listed_matches(mirrored_layout(rounds));
    assert forall|n: u16| 73 <= n <= 104 && rounds.contains(round_of_number(n)) implies #[trigger] flat.contains(n) by {
        assert(column_of(n) < 9);
    }
}

/// The bracket's columns depend only on which rounds are selected, not on
/// their order or repeats.
pub proof fn bracket_layout_depends_on_the_set_of_rounds(a: Seq<KnockoutRoundFilter>, b: Seq<KnockoutRoundFilter>)
    requires
        forall|x: KnockoutRoundFilter| a.contains(x) <==> b.contains(x),
    ensures
        mirrored_layout(a) == mirrored_layout(b),
{
    assert(a.contains(KnockoutRoundFilter::RoundOf32) == b.contains(KnockoutRoundFilter::RoundOf32));
    assert(a.contains(KnockoutRoundFilter::RoundOf16) == b.contains(KnockoutRoundFilter::RoundOf16));
    assert(a.contains(KnockoutRoundFilter::QuarterFinal) == b.contains(KnockoutRoundFilter::QuarterFinal));
    assert(a.contains(KnockoutRoundFilter::SemiFinal) == b.contains(KnockoutRoundFilter::SemiFinal));
    assert(a.contains(KnockoutRoundFilter::ThirdPlace) == b.contains(KnockoutRoundFilter::ThirdPlace));
    assert(a.contains(KnockoutRoundFilter::Final) == b.contains(KnockoutRoundFilter::Final));
}

proof fn lemma_column_0_literal()
    ensures
        literal_column_ok(left_round32_order(), 0),
{
    let s = left_round32_order();
    assert forall|i: int| 0 <= i < s.len() implies 73 <= #[trigger] s[i] <= 104 && column_of(s[i]) == 0 by {
        assert(i == 0 || i == 1 || i == 2 || i == 3 || i == 4 || i == 5 || i == 6 || i == 7);
    }
    assert forall|i: int, j: int| 0 <= i < s.len() && 0 <= j < s.len() && i != j implies #[trigger] s[i] != #[trigger] s[j] by {
        assert(i == 0 || i == 1 || i == 2 || i == 3 || i == 4 || i == 5 || i == 6 || i == 7);
        assert(j == 0 || j == 1 || j == 2 || j == 3 || j == 4 || j == 5 || j == 6 || j == 7);
    }
    assert forall|n: u16| 73 <= n <= 104 && column_of(n) == 0 implies #[trigger] s.contains(n) by {
        if n == 74 {
            assert(s[0] == n);
        } else if n == 77 {
            assert(s[1] == n);
        } else if n == 73 {
            assert(s[2] == n);
        } else if n == 75 {
            assert(s[3] == n);
        } else if n == 83 {
            assert(s[4] == n);
        } else if n == 84 {
            assert(s[5] == n);
        } else if n == 81 {
            assert(s[6] == n);
        } else if n == 82 {
            assert(s[7] == n);
        }
    }
}

proof fn lemma_column_1_literal()
    ensures
        literal_column_ok(left_round16_order(), 1),
{
    let s = left_round16_order();
    assert forall|i: int| 0 <= i < s.len() implies 73 <= #[trigger] s[i] <= 104 && column_of(s[i]) == 1 by {
        assert(i == 0 || i == 1 || i == 2 || i == 3);
    }
    assert forall|i: int, j: int| 0 <= i < s.len() && 0 <= j < s.len() && i != j implies #[trigger] s[i] != #[trigger] s[j] by {
        assert(i == 0 || i == 1 || i == 2 || i == 3);
        assert(j == 0 || j == 1 || j == 2 || j == 3);
    }
    assert forall|n: u16| 73 <= n <= 104 && column_of(n) == 1 implies #[trigger] s.contains(n) by {
        if n == 89 {
            assert(s[0] == n);
        } else if n == 90 {
            assert(s[1] == n);
        } else if n == 93 {
            assert(s[2] == n);
        } else if n == 94 {
            assert(s[3] == n);
        }
    }
}

proof fn lemma_column_2_literal()
    ensures
        literal_column_ok(left_quarter_order(), 2),
{
    let s = left_quarter_order();
    assert forall|i: int| 0 <= i < s.len() implies 73 <= #[trigger] s[i] <= 104 && column_of(s[i]) == 2 by {
        assert(i == 0 || i == 1);
    }
    assert forall|i: int, j: int| 0 <= i < s.len() && 0 <= j < s.len() && i != j implies #[trigger] s[i] != #[trigger] s[j] by {
        assert(i == 0 || i == 1);
        assert(j == 0 || j == 1);
    }
    assert forall|n: u16| 73 <= n <= 104 && column_of(n) == 2 implies #[trigger] s.contains(n) by {
        if n == 97 {
            assert(s[0] == n);
        } else if n == 98 {
            assert(s[1] == n);
        }
    }
}

proof fn lemma_column_3_literal()
    ensures
        literal_column_ok(left_semi_order(), 3),
{
    let s = left_semi_order();
    assert forall|i: int| 0 <= i < s.len() implies 73 <= #[trigger] s[i] <= 104 && column_of(s[i]) == 3 by {
        assert(i == 0);
    }
    assert forall|i: int, j: int| 0 <= i < s.len() && 0 <= j < s.len() && i != j implies #[trigger] s[i] != #[trigger] s[j] by {
        assert(i == 0);
        assert(j == 0);
    }
    assert forall|n: u16| 73 <= n <= 104 && column_of(n) == 3 implies #[trigger] s.contains(n) by {
        if n == 101 {
            assert(s[0] == n);
        }
    }
}

proof fn lemma_column_5_literal()
    ensures
        literal_column_ok(right_semi_order(), 5),
{
    let s = right_semi_order();
    assert forall|i: int| 0 <= i < s.len() implies 73 <= #[trigger] s[i] <= 104 && column_of(s[i]) == 5 by {
        assert(i == 0);
    }
    assert forall|i: int, j: int| 0 <= i < s.len() && 0 <= j < s.len() && i != j implies #[trigger] s[i] != #[trigger] s[j] by {
        assert(i == 0);
        assert(j == 0);
    }
    assert forall|n: u16| 73 <= n <= 104 && column_of(n) == 5 implies #[trigger] s.contains(n) by {
        if n == 102 {
            assert(s[0] == n);
        }
    }
}

proof fn lemma_column_6_literal()
    ensures
        literal_column_ok(right_quarter_order(), 6),
{
    let s = right_quarter_order();
    assert forall|i: int| 0 <= i < s.len() implies 73 <= #[trigger] s[i] <= 104 && column_of(s[i]) == 6 by {
        assert(i == 0 || i == 1);
    }
    assert forall|i: int, j: int| 0 <= i < s.len() && 0 <= j < s.len() && i != j implies #[trigger] s[i] != #[trigger] s[j] by {
        assert(i == 0 || i == 1);
        assert(j == 0 || j == 1);
    }
    assert forall|n: u16| 73 <= n <= 104 && column_of(n) == 6 implies #[trigger] s.contains(n) by {
        if n == 99 {
            assert(s[0] == n);
        } else if n == 100 {
            assert(s[1] == n);
        }
    }
}

proof fn lemma_column_7_literal()
    ensures
        literal_column_ok(right_round16_order(), 7),
{
    let s = right_round16_order();
    assert forall|i: int| 0 <= i < s.len() implies 73 <= #[trigger] s[i] <= 104 && column_of(s[i]) == 7 by {
        assert(i == 0 || i == 1 || i == 2 || i == 3);
    }
    assert forall|i: int, j: int| 0 <= i < s.len() && 0 <= j < s.len() && i != j implies #[trigger] s[i] != #[trigger] s[j] by {
        assert(i == 0 || i == 1 || i == 2 || i == 3);
        assert(j == 0 || j == 1 || j == 2 || j == 3);
    }
    assert forall|n: u16| 73 <= n <= 104 && column_of(n) == 7 implies #[trigger] s.contains(n) by {
        if n == 91 {
            assert(s[0] == n);
        } else if n == 92 {
            assert(s[1] == n);
        } else if n == 95 {
            assert(s[2] == n);
        } else if n == 96 {
            assert(s[3] == n);
        }
    }
}

proof fn lemma_column_8_literal()
    ensures
        literal_column_ok(right_round32_order(), 8),
{
    let s = right_round32_order();
    assert forall|i: int| 0 <= i < s.len() implies 73 <= #[trigger] s[i] <= 104 && column_of(s[i]) == 8 by {
        assert(i == 0 || i == 1 || i == 2 || i == 3 || i == 4 || i == 5 || i == 6 || i == 7);
    }
    assert forall|i: int, j: int| 0 <= i < s.len() && 0 <= j < s.len() && i != j implies #[trigger] s[i] != #[trigger] s[j] by {
        assert(i == 0 || i == 1 || i == 2 || i == 3 || i == 4 || i == 5 || i == 6 || i == 7);
        assert(j == 0 || j == 1 || j == 2 || j == 3 || j == 4 || j == 5 || j == 6 || j == 7);
    }
    assert forall|n: u16| 73 <= n <= 104 && column_of(n) == 8 implies #[trigger] s.contains(n) by {
        if n == 76 {
            assert(s[0] == n);
        } else if n == 78 {
            assert(s[1] == n);
        } else if n == 79 {
            assert(s[2] == n);
        } else if n == 80 {
            assert(s[3] == n);
        } else if n == 86 {
            assert(s[4] == n);
        } else if n == 88 {
            assert(s[5] == n);
        } else if n == 85 {
            assert(s[6] == n);
        } else if n == 87 {
            assert(s[7] == n);
        }
    }
}

proof fn lemma_first_position_bounded(s: Seq<u16>, x: u16)
    ensures
        first_position(s, x) matches Some(p) ==> 0 <= p < s.len(),
    decreases s.len(),
{
    if s.len() > 0 {
        lemma_first_position_bounded(s.drop_last(), x);
    }
}

/// No card of the bracket sits below row 68.
pub proof fn lemma_match_row_bounded(kind: ColumnKind, match_number: u16)
    ensures
        0 <= match_row(kind, match_number) <= 68,
{
    lemma_first_position_bounded(left_round32_order(), match_number);
    lemma_first_position_bounded(right_round32_order(), match_number);
    lemma_first_position_bounded(left_round16_order(), match_number);
    lemma_first_position_bounded(right_round16_order(), match_number);
    lemma_first_position_bounded(left_quarter_order(), match_number);
    lemma_first_position_bounded(right_quarter_order(), match_number);
}

} // verus!
