//! The knock-out bracket drawn as rows of text: each match a card of three
//! lines placed at its column and row, and how each team on a card looks.

use vstd::prelude::*;

use crate::app::participant::{participant_view, resolve_participant, Participant, ParticipantView, Side};
use crate::app::state::{match_position_by_number, App};
use crate::app::time_label::{clock_text, date_time_labels, day_month_text};
use crate::domain::time::{valid_local, LocalDateTime};
use crate::app::views::KnockoutRoundFilter;
use crate::bracket::{
    bracket_match, center_order, column_shape, left_half, left_quarter_order, left_round16_order, left_round32_order,
    left_semi_order, match_def, match_row, mirrored_columns, mirrored_layout, mirrored_match_y, right_half, right_quarter_order,
    right_round16_order, right_round32_order, right_semi_order, shape, ColumnKind, ColumnShape, ColumnSpec,
};
use crate::domain::matches::Match;
use crate::panel::{bracket_body_height, mirrored_bracket_body_height};
use crate::domain::standings::QualificationState;
use crate::panel::{center, centered_text};
use crate::text::{
    decimal, decimal_text, owned, pad_right, pad_right_text, push_decimal, push_spaces, spaces, truncate, truncated,
};

verus! {

/// How a team is shown on a bracket card.
#[derive(Clone, Copy, Debug, Eq, PartialEq, Structural)]
pub enum Look {
    /// It won the match.
    Winner,
    /// It is out of the tournament.
    Eliminated,
    /// Its place in the knock-outs is not settled yet.
    Unsettled,
    /// It is through to the knock-outs.
    Through,
    /// No team is known yet, only where it will come from.
    Unknown,
}

/// The look of a team on a card: a winner first, then a known team by its
/// standing, and a slot with no team yet last.
pub open spec fn look_of(p: ParticipantView) -> Look {
    if p.winner {
        Look::Winner
    } else if p.team_id is Some && p.qualification_state == QualificationState::Disqualified {
        Look::Eliminated
    } else if p.team_id is Some && p.qualification_state != QualificationState::Qualified {
        Look::Unsettled
    } else if p.team_id is Some {
        Look::Through
    } else {
        Look::Unknown
    }
}

pub fn participant_look(p: &Participant) -> (r: Look)
    ensures
        r == look_of(p@),
{
    if p.winner {
        Look::Winner
    } else if p.team_id.is_some() && p.qualification_state.is_disqualified() {
        Look::Eliminated
    } else if p.team_id.is_some() && !p.qualification_state.is_qualified() {
        Look::Unsettled
    } else if p.team_id.is_some() {
        Look::Through
    } else {
        Look::Unknown
    }
}

/// What a piece of the bracket drawing is, which decides its colour.
#[derive(Clone, Copy, Debug, Eq, PartialEq, Structural)]
pub enum CardTone {
    /// A column title.
    Title,
    /// The frame of a card of the given round.
    Frame(KnockoutRoundFilter),
    /// The match number, date or time on a card.
    Meta,
    /// A team's code, with its look and whether it is a favourite.
    Team(Look, bool),
    /// A team's goals, with its look and whether it is a favourite.
    Score(Look, bool),
    /// The dash of a match without a score.
    NoScore,
    /// Blank space.
    Blank,
}

/// A piece of the bracket drawing with its tone.
#[derive(Clone, Debug)]
pub struct CardPart {
    pub text: String,
    pub tone: CardTone,
}

pub open spec fn card_part_view(p: CardPart) -> (Seq<char>, CardTone) {
    (p.text@, p.tone)
}

pub open spec fn card_parts_view(v: Seq<CardPart>) -> Seq<(Seq<char>, CardTone)> {
    v.map_values(|p: CardPart| card_part_view(p))
}

/// One row of the drawing: its pieces, left to right, and how many
/// characters wide they are.
#[derive(Debug)]
pub struct CanvasRow {
    pub width: usize,
    pub parts: Vec<CardPart>,
}

pub open spec fn row_view(r: CanvasRow) -> (nat, Seq<(Seq<char>, CardTone)>) {
    (r.width as nat, card_parts_view(r.parts@))
}

pub open spec fn rows_view(v: Seq<CanvasRow>) -> Seq<(nat, Seq<(Seq<char>, CardTone)>)> {
    v.map_values(|r: CanvasRow| row_view(r))
}

/// How many characters a line of pieces takes.
pub open spec fn parts_width(line: Seq<(Seq<char>, CardTone)>) -> nat
    decreases line.len(),
{
    if line.len() == 0 {
        0
    } else {
        parts_width(line.drop_last()) + line.last().0.len()
    }
}

/// A row with `line` drawn from column `x` on: blanks fill the row up to
/// `x` first, and a line that starts inside the row goes after its end.
pub open spec fn placed(
    row: (nat, Seq<(Seq<char>, CardTone)>),
    x: nat,
    line: Seq<(Seq<char>, CardTone)>,
) -> (nat, Seq<(Seq<char>, CardTone)>) {
    if row.0 < x {
        (x + parts_width(line), row.1.push((spaces((x - row.0) as nat), CardTone::Blank)) + line)
    } else {
        (row.0 + parts_width(line), row.1 + line)
    }
}

proof fn lemma_parts_width_prefix(line: Seq<(Seq<char>, CardTone)>, i: int)
    requires
        0 <= i < line.len(),
    ensures
        parts_width(line.take(i + 1)) == parts_width(line.take(i)) + line[i].0.len(),
        parts_width(line.take(i + 1)) <= parts_width(line),
    decreases line.len(),
{
    assert(line.take(i + 1).drop_last() =~= line.take(i));
    if i + 1 < line.len() {
        lemma_parts_width_prefix(line.drop_last(), i);
        assert(line.drop_last().take(i + 1) =~= line.take(i + 1));
    } else {
        assert(line.take(i + 1) =~= line);
    }
}

fn line_width(line: &Vec<CardPart>) -> (r: usize)
    requires
        parts_width(card_parts_view(line@)) <= usize::MAX,
    ensures
        r == parts_width(card_parts_view(line@)),
{
    let ghost view = card_parts_view(line@);
    let mut total: usize = 0;
    let mut i: usize = 0;
    while i < line.len()
        invariant
            i <= line@.len(),
            view == card_parts_view(line@),
            parts_width(view) <= usize::MAX,
            total == parts_width(view.take(i as int)),
        decreases line@.len() - i,
    {
        proof {
            lemma_parts_width_prefix(view, i as int);
        }
        let n = crate::text::chars_of(line[i].text.as_str()).len();
        total = total + n;
        i = i + 1;
    }
    assert(view.take(line@.len() as int) =~= view);
    total
}

/// Draws `line` on row `y` from column `x` on; a row outside the drawing is
/// left alone.
pub fn put_line(rows: &mut Vec<CanvasRow>, y: usize, x: usize, line: Vec<CardPart>)
    requires
        y < old(rows)@.len() ==> (if old(rows)@[y as int].width < x { x as int } else { old(rows)@[y as int].width as int })
            + parts_width(card_parts_view(line@)) <= usize::MAX,
    ensures
        y < old(rows)@.len() ==> rows_view(final(rows)@) == rows_view(old(rows)@).update(
            y as int,
            placed(row_view(old(rows)@[y as int]), x as nat, card_parts_view(line@)),
        ),
        y >= old(rows)@.len() ==> final(rows)@ == old(rows)@,
{
    if y >= rows.len() {
        return;
    }
    let ghost before = rows@;
    let width = line_width(&line);
    let mut row = rows.remove(y);
    let ghost start = card_parts_view(row.parts@);
    let ghost line_view = card_parts_view(line@);
    if row.width < x {
        let mut gap = String::new();
        push_spaces(&mut gap, x - row.width);
        row.parts.push(CardPart { text: gap, tone: CardTone::Blank });
        row.width = x;
    }
    let ghost padded = card_parts_view(row.parts@);
    let mut rest = line;
    row.parts.append(&mut rest);
    row.width = row.width + width;
    proof {
        assert(card_parts_view(row.parts@) =~= padded + line_view);
        if before[y as int].width < x {
            assert(padded =~= start.push((spaces((x - before[y as int].width) as nat), CardTone::Blank)));
        }
    }
    rows.insert(y, row);
    proof {
        assert(rows_view(rows@) =~= rows_view(before).update(
            y as int,
            placed(row_view(before[y as int]), x as nat, line_view),
        ));
    }
}

/// The top line of a card: its match number centred in the frame.
pub open spec fn meta_parts(meta: Seq<char>, round: KnockoutRoundFilter) -> Seq<(Seq<char>, CardTone)> {
    seq![("|"@, CardTone::Frame(round)), (centered_text(meta, 23), CardTone::Meta), ("|"@, CardTone::Frame(round))]
}

pub fn meta_line(meta: &str, round: KnockoutRoundFilter) -> (r: Vec<CardPart>)
    ensures
        card_parts_view(r@) == meta_parts(meta@, round),
{
    let mut r: Vec<CardPart> = Vec::new();
    r.push(CardPart { text: owned("|"), tone: CardTone::Frame(round) });
    r.push(CardPart { text: center(meta, 23), tone: CardTone::Meta });
    r.push(CardPart { text: owned("|"), tone: CardTone::Frame(round) });
    assert(card_parts_view(r@) =~= meta_parts(meta@, round));
    r
}

/// What a team's score reads on a card: its goals, or a dash before the
/// match is played.
pub open spec fn score_label(score: Option<u8>) -> Seq<char> {
    match score {
        Some(s) => decimal(s as nat),
        None => "-"@,
    }
}

/// A team's line on a card: the date or time, the team's code right-aligned
/// in eight columns and its score right-aligned in two, in the card's frame.
pub open spec fn participant_parts(
    time_label: Seq<char>,
    p: ParticipantView,
    round: KnockoutRoundFilter,
) -> Seq<(Seq<char>, CardTone)> {
    let code = truncated(p.code, 8);
    let score = truncated(score_label(p.score), 2);
    let look = look_of(p);
    seq![
        ("| "@, CardTone::Frame(round)),
        (pad_right(truncated(time_label, 5), 5), CardTone::Meta),
        (" | "@, CardTone::Frame(round)),
        (spaces((8 - code.len()) as nat), CardTone::Blank),
        (code, CardTone::Team(look, p.favorite)),
        (" | "@, CardTone::Frame(round)),
        (spaces((2 - score.len()) as nat), CardTone::Blank),
        (score, if p.score is Some { CardTone::Score(look, p.favorite) } else { CardTone::NoScore }),
        (" |"@, CardTone::Frame(round)),
    ]
}

pub fn participant_line(time_label: &str, p: &Participant, round: KnockoutRoundFilter) -> (r: Vec<CardPart>)
    ensures
        card_parts_view(r@) == participant_parts(time_label@, p@, round),
{
    let code = truncate(p.code.as_str(), 8);
    let score_text = match p.score {
        Some(s) => decimal_text(s as u64),
        None => owned("-"),
    };
    let score = truncate(score_text.as_str(), 2);
    let code_len = crate::text::chars_of(code.as_str()).len();
    let score_len = crate::text::chars_of(score.as_str()).len();
    let look = participant_look(p);
    let score_tone = if p.score.is_some() {
        CardTone::Score(look, p.favorite)
    } else {
        CardTone::NoScore
    };
    let mut team_gap = String::new();
    push_spaces(&mut team_gap, 8 - code_len);
    let mut score_gap = String::new();
    push_spaces(&mut score_gap, 2 - score_len);
    let when = truncate(time_label, 5);
    let mut r: Vec<CardPart> = Vec::new();
    r.push(CardPart { text: owned("| "), tone: CardTone::Frame(round) });
    r.push(CardPart { text: pad_right_text(when.as_str(), 5), tone: CardTone::Meta });
    r.push(CardPart { text: owned(" | "), tone: CardTone::Frame(round) });
    r.push(CardPart { text: team_gap, tone: CardTone::Blank });
    r.push(CardPart { text: code, tone: CardTone::Team(look, p.favorite) });
    r.push(CardPart { text: owned(" | "), tone: CardTone::Frame(round) });
    r.push(CardPart { text: score_gap, tone: CardTone::Blank });
    r.push(CardPart { text: score, tone: score_tone });
    r.push(CardPart { text: owned(" |"), tone: CardTone::Frame(round) });
    assert(card_parts_view(r@) =~= participant_parts(time_label@, p@, round));
    r
}

/// Where column `i` of the bracket starts: cards are 25 characters wide,
/// two apart.
pub open spec fn column_x(i: int) -> int {
    i * 27
}

/// The title row over the bracket: each column's title centred over its
/// cards.
pub open spec fn title_canvas(columns: Seq<ColumnShape>) -> Seq<(nat, Seq<(Seq<char>, CardTone)>)>
    decreases columns.len(),
{
    if columns.len() == 0 {
        seq![(0nat, Seq::empty())]
    } else {
        let rows = title_canvas(columns.drop_last());
        rows.update(
            0,
            placed(
                rows[0],
                column_x(columns.len() - 1) as nat,
                seq![(centered_text(columns.last().title, 25), CardTone::Title)],
            ),
        )
    }
}

proof fn lemma_centered_len(value: Seq<char>, width: nat)
    requires
        width >= 1,
    ensures
        centered_text(value, width).len() == width,
{
}

proof fn lemma_single_width(text: Seq<char>, tone: CardTone)
    ensures
        parts_width(seq![(text, tone)]) == text.len(),
{
    reveal_with_fuel(parts_width, 2);
    assert(seq![(text, tone)].drop_last() =~= Seq::<(Seq<char>, CardTone)>::empty());
}

proof fn lemma_layout_len(rounds: Seq<KnockoutRoundFilter>)
    ensures
        mirrored_layout(rounds).len() <= 9,
{
    assert forall|c: bool, x: ColumnShape| #[trigger] crate::bracket::when(c, x).len() <= 1 by {
    }
}

proof fn lemma_title_canvas(columns: Seq<ColumnShape>)
    ensures
        title_canvas(columns).len() == 1,
        title_canvas(columns)[0].0 <= column_x(columns.len() as int),
    decreases columns.len(),
{
    if columns.len() > 0 {
        lemma_title_canvas(columns.drop_last());
        lemma_centered_len(columns.last().title, 25);
        lemma_single_width(centered_text(columns.last().title, 25), CardTone::Title);
    }
}

/// The title row of the bracket for the selected rounds.
pub fn bracket_sticky_rows(rounds: &[KnockoutRoundFilter]) -> (r: Vec<CanvasRow>)
    ensures
        rows_view(r@) == title_canvas(mirrored_layout(rounds@)),
{
    let columns = mirrored_columns(rounds);
    let ghost shapes = columns@.map_values(|c: ColumnSpec| column_shape(c));
    proof {
        lemma_layout_len(rounds@);
    }
    let mut rows: Vec<CanvasRow> = Vec::new();
    rows.push(CanvasRow { width: 0, parts: Vec::new() });
    proof {
        assert(shapes.take(0) =~= Seq::<ColumnShape>::empty());
        assert(card_parts_view(rows@[0].parts@) =~= Seq::<(Seq<char>, CardTone)>::empty());
        assert(rows_view(rows@) =~= seq![(0nat, Seq::<(Seq<char>, CardTone)>::empty())]);
    }
    let mut i: usize = 0;
    while i < columns.len()
        invariant
            i <= columns@.len(),
            columns@.len() <= 9,
            shapes == columns@.map_values(|c: ColumnSpec| column_shape(c)),
            rows_view(rows@) == title_canvas(shapes.take(i as int)),
        decreases columns@.len() - i,
    {
        proof {
            lemma_title_canvas(shapes.take(i as int));
            lemma_centered_len(shapes[i as int].title, 25);
            lemma_single_width(centered_text(shapes[i as int].title, 25), CardTone::Title);
            assert(shapes.take(i + 1).drop_last() =~= shapes.take(i as int));
        }
        let mut line: Vec<CardPart> = Vec::new();
        line.push(CardPart { text: center(columns[i].title, 25), tone: CardTone::Title });
        assert(card_parts_view(line@) =~= seq![(centered_text(shapes[i as int].title, 25), CardTone::Title)]);
        put_line(&mut rows, 0, i * 27, line);
        i = i + 1;
    }
    assert(shapes.take(columns@.len() as int) =~= shapes);
    rows
}

/// A line drawn on row `y` of the drawing from column `x` on; a row outside
/// the drawing is left alone.
pub open spec fn put(
    rows: Seq<(nat, Seq<(Seq<char>, CardTone)>)>,
    y: int,
    x: nat,
    line: Seq<(Seq<char>, CardTone)>,
) -> Seq<(nat, Seq<(Seq<char>, CardTone)>)> {
    if 0 <= y < rows.len() {
        rows.update(y, placed(rows[y], x, line))
    } else {
        rows
    }
}

/// The loaded match with this number, if any.
pub open spec fn card_match(app: App, number: u16) -> Option<Match> {
    match match_position_by_number(app.data().matches@, number) {
        Some(p) => Some(app.data().matches@[p]),
        None => None,
    }
}

/// The card of match `number` drawn with its top-left corner at column `x`
/// and row `y`: the match number, then the home team beside the local date
/// and the away team beside the local time (`labels`).
pub open spec fn card_canvas(
    rows: Seq<(nat, Seq<(Seq<char>, CardTone)>)>,
    app: App,
    x: nat,
    y: int,
    number: u16,
    labels: (Seq<char>, Seq<char>),
) -> Seq<(nat, Seq<(Seq<char>, CardTone)>)> {
    let def = bracket_match(number);
    let m = card_match(app, number);
    let home = participant_view(&app, m, Side::Home, def.home);
    let away = participant_view(&app, m, Side::Away, def.away);
    let meta = truncated("M"@ + decimal(number as nat), 23);
    let first = put(rows, y, x, meta_parts(meta, def.round));
    let second = put(first, y + 1, x, participant_parts(labels.0, home, def.round));
    put(second, y + 2, x, participant_parts(labels.1, away, def.round))
}

/// The row a card's top line goes on: the one above its match's row.
pub open spec fn card_top(kind: ColumnKind, number: u16) -> int {
    if match_row(kind, number) >= 1 {
        match_row(kind, number) - 1
    } else {
        0
    }
}

/// The cards of column `i`, top to bottom, each with its date and time.
pub open spec fn column_canvas(
    rows: Seq<(nat, Seq<(Seq<char>, CardTone)>)>,
    app: App,
    i: int,
    kind: ColumnKind,
    matches: Seq<u16>,
    labels: Seq<(Seq<char>, Seq<char>)>,
) -> Seq<(nat, Seq<(Seq<char>, CardTone)>)>
    decreases matches.len(),
{
    if matches.len() == 0 {
        rows
    } else {
        let before = column_canvas(rows, app, i, kind, matches.drop_last(), labels.drop_last());
        let n = matches.last();
        if 73 <= n <= 104 {
            card_canvas(before, app, column_x(i) as nat, card_top(kind, n), n, labels.last())
        } else {
            before
        }
    }
}

/// The cards of every column, left to right.
pub open spec fn body_canvas(
    rows: Seq<(nat, Seq<(Seq<char>, CardTone)>)>,
    app: App,
    columns: Seq<ColumnShape>,
    labels: Seq<Seq<(Seq<char>, Seq<char>)>>,
) -> Seq<(nat, Seq<(Seq<char>, CardTone)>)>
    decreases columns.len(),
{
    if columns.len() == 0 {
        rows
    } else {
        let before = body_canvas(rows, app, columns.drop_last(), labels.drop_last());
        column_canvas(before, app, columns.len() - 1, columns.last().kind, columns.last().matches, labels.last())
    }
}

/// `n` empty rows.
pub open spec fn blank_rows(n: nat) -> Seq<(nat, Seq<(Seq<char>, CardTone)>)> {
    Seq::new(n, |k: int| (0nat, Seq::<(Seq<char>, CardTone)>::empty()))
}

/// Date and time labels for every card: one per match of each column, and
/// dashes on the card of a match that is not loaded, and the local date and
/// time of its kick-off on the card of one that is (which date and time
/// depends on the machine's time zone).
pub open spec fn labels_fit(app: App, columns: Seq<ColumnShape>, labels: Seq<Seq<(Seq<char>, Seq<char>)>>) -> bool {
    &&& labels.len() == columns.len()
    &&& forall|i: int| 0 <= i < columns.len() ==> #[trigger] labels[i].len() == columns[i].matches.len()
    &&& forall|i: int, j: int|
        0 <= i < columns.len() && 0 <= j < columns[i].matches.len() && card_match(app, columns[i].matches[j]) is None
            ==> #[trigger] labels[i][j] == ("--/--"@, "--:--"@)
    &&& forall|i: int, j: int|
        0 <= i < columns.len() && 0 <= j < columns[i].matches.len() && card_match(app, columns[i].matches[j]) is Some
            && 73 <= columns[i].matches[j] <= 104 ==> is_card_stamp(#[trigger] labels[i][j])
}

/// Whether a card's labels are some local date (`DD/MM`) and time
/// (`HH:MM`).
pub open spec fn is_card_stamp(labels: (Seq<char>, Seq<char>)) -> bool {
    exists|d: LocalDateTime| #[trigger] valid_local(d) && labels.0 == day_month_text(d) && labels.1 == clock_text(d)
}

/// Every row at most `bound` wide.
pub open spec fn rows_within(rows: Seq<(nat, Seq<(Seq<char>, CardTone)>)>, bound: int) -> bool {
    forall|k: int| 0 <= k < rows.len() ==> #[trigger] rows[k].0 <= bound
}

proof fn lemma_width_push(line: Seq<(Seq<char>, CardTone)>, p: (Seq<char>, CardTone))
    ensures
        parts_width(line.push(p)) == parts_width(line) + p.0.len(),
{
    assert(line.push(p).drop_last() =~= line);
}

proof fn lemma_card_width(meta: Seq<char>, time_label: Seq<char>, p: ParticipantView, round: KnockoutRoundFilter)
    ensures
        parts_width(meta_parts(meta, round)) == 25,
        parts_width(participant_parts(time_label, p, round)) == 25,
{
    lemma_centered_len(meta, 23);
    reveal_strlit("|");
    reveal_strlit("| ");
    reveal_strlit(" | ");
    reveal_strlit(" |");
    let e = Seq::<(Seq<char>, CardTone)>::empty();
    let a = meta_parts(meta, round);
    lemma_width_push(e, a[0]);
    lemma_width_push(e.push(a[0]), a[1]);
    lemma_width_push(e.push(a[0]).push(a[1]), a[2]);
    assert(a =~= e.push(a[0]).push(a[1]).push(a[2]));
    let code = truncated(p.code, 8);
    let score = truncated(score_label(p.score), 2);
    assert(code.len() <= 8);
    assert(score.len() <= 2);
    assert(pad_right(truncated(time_label, 5), 5).len() == 5);
    let b = participant_parts(time_label, p, round);
    let b0 = e.push(b[0]);
    let b1 = b0.push(b[1]);
    let b2 = b1.push(b[2]);
    let b3 = b2.push(b[3]);
    let b4 = b3.push(b[4]);
    let b5 = b4.push(b[5]);
    let b6 = b5.push(b[6]);
    let b7 = b6.push(b[7]);
    let b8 = b7.push(b[8]);
    lemma_width_push(e, b[0]);
    lemma_width_push(b0, b[1]);
    lemma_width_push(b1, b[2]);
    lemma_width_push(b2, b[3]);
    lemma_width_push(b3, b[4]);
    lemma_width_push(b4, b[5]);
    lemma_width_push(b5, b[6]);
    lemma_width_push(b6, b[7]);
    lemma_width_push(b7, b[8]);
    assert(b =~= b8);
}

proof fn lemma_put_within(rows: Seq<(nat, Seq<(Seq<char>, CardTone)>)>, y: int, x: nat, line: Seq<(Seq<char>, CardTone)>, bound: int)
    requires
        rows_within(rows, bound),
        x <= bound,
    ensures
        rows_within(put(rows, y, x, line), bound + parts_width(line)),
        put(rows, y, x, line).len() == rows.len(),
{
}

/// Draws the card of match `number` with its top-left corner at column `x`
/// and row `y`, and says which date and time it shows.
fn draw_match_card(rows: &mut Vec<CanvasRow>, y: usize, x: usize, app: &App, number: u16, Ghost(bound): Ghost<int>) -> (labels: (String, String))
    requires
        73 <= number <= 104,
        rows_within(rows_view(old(rows)@), bound),
        x <= bound,
        bound + 75 <= usize::MAX,
    ensures
        rows_view(final(rows)@) == card_canvas(rows_view(old(rows)@), *app, x as nat, y as int, number, (labels.0@, labels.1@)),
        card_match(*app, number) is None ==> labels.0@ == "--/--"@ && labels.1@ == "--:--"@,
        card_match(*app, number) is Some ==> is_card_stamp((labels.0@, labels.1@)),
        rows_within(rows_view(final(rows)@), bound + 75),
        final(rows)@.len() == old(rows)@.len(),
{
    let def = match_def(number);
    let m = app.match_by_number(number);
    let home = resolve_participant(app, m, Side::Home, def.home);
    let away = resolve_participant(app, m, Side::Away, def.away);
    let labels = match m {
        Some(x) => date_time_labels(x),
        None => (owned("--/--"), owned("--:--")),
    };
    let mut meta_text = owned("M");
    push_decimal(&mut meta_text, number as u64);
    let meta = truncate(meta_text.as_str(), 23);
    let count = rows.len();
    let ghost v0 = rows_view(rows@);
    proof {
        lemma_card_width(meta@, labels.0@, home@, def.round);
        lemma_card_width(meta@, labels.1@, away@, def.round);
        lemma_put_within(v0, y as int, x as nat, meta_parts(meta@, def.round), bound);
    }
    put_line(rows, y, x, meta_line(meta.as_str(), def.round));
    let ghost v1 = rows_view(rows@);
    proof {
        lemma_put_within(v1, y + 1, x as nat, participant_parts(labels.0@, home@, def.round), bound + 25);
    }
    if y < count {
        put_line(rows, y + 1, x, participant_line(labels.0.as_str(), &home, def.round));
    }
    let ghost v2 = rows_view(rows@);
    proof {
        lemma_put_within(v2, y + 2, x as nat, participant_parts(labels.1@, away@, def.round), bound + 50);
    }
    if count > 0 && y < count - 1 {
        put_line(rows, y + 2, x, participant_line(labels.1.as_str(), &away, def.round));
    }
    labels
}

/// Columns of at most eight cards each.
spec fn columns_fit(columns: Seq<ColumnShape>) -> bool {
    forall|i: int| 0 <= i < columns.len() ==> #[trigger] columns[i].matches.len() <= 8
}

proof fn lemma_fit_add(a: Seq<ColumnShape>, b: Seq<ColumnShape>)
    requires
        columns_fit(a),
        columns_fit(b),
    ensures
        columns_fit(a + b),
{
    assert forall|i: int| 0 <= i < (a + b).len() implies #[trigger] (a + b)[i].matches.len() <= 8 by {
        if i >= a.len() {
            assert((a + b)[i] == b[i - a.len()]);
        }
    }
}

proof fn lemma_fit_when(c: bool, x: ColumnShape)
    requires
        x.matches.len() <= 8,
    ensures
        columns_fit(crate::bracket::when(c, x)),
{
}

proof fn lemma_layout_columns(rounds: Seq<KnockoutRoundFilter>)
    ensures
        mirrored_layout(rounds).len() <= 9,
        columns_fit(mirrored_layout(rounds)),
{
    lemma_layout_len(rounds);
    let r32 = rounds.contains(KnockoutRoundFilter::RoundOf32);
    let r16 = rounds.contains(KnockoutRoundFilter::RoundOf16);
    let qf = rounds.contains(KnockoutRoundFilter::QuarterFinal);
    let sf = rounds.contains(KnockoutRoundFilter::SemiFinal);
    let l1 = crate::bracket::when(r32, shape("Round of 32"@, ColumnKind::RoundOf32, left_round32_order()));
    let l2 = crate::bracket::when(r16, shape("Round of 16"@, ColumnKind::RoundOf16, left_round16_order()));
    let l3 = crate::bracket::when(qf, shape("Quarter-finals"@, ColumnKind::QuarterFinal, left_quarter_order()));
    let l4 = crate::bracket::when(sf, shape("Semi-finals"@, ColumnKind::SemiFinal, left_semi_order()));
    let c = crate::bracket::when(
        center_order(rounds).len() > 0,
        shape("Final / Third"@, ColumnKind::Center, center_order(rounds)),
    );
    let r1 = crate::bracket::when(sf, shape("Semi-finals"@, ColumnKind::SemiFinal, right_semi_order()));
    let r2 = crate::bracket::when(qf, shape("Quarter-finals"@, ColumnKind::QuarterFinal, right_quarter_order()));
    let r3 = crate::bracket::when(r16, shape("Round of 16"@, ColumnKind::RoundOf16, right_round16_order()));
    let r4 = crate::bracket::when(r32, shape("Round of 32"@, ColumnKind::RoundOf32, right_round32_order()));
    lemma_fit_when(r32, shape("Round of 32"@, ColumnKind::RoundOf32, left_round32_order()));
    lemma_fit_when(r16, shape("Round of 16"@, ColumnKind::RoundOf16, left_round16_order()));
    lemma_fit_when(qf, shape("Quarter-finals"@, ColumnKind::QuarterFinal, left_quarter_order()));
    lemma_fit_when(sf, shape("Semi-finals"@, ColumnKind::SemiFinal, left_semi_order()));
    lemma_fit_when(center_order(rounds).len() > 0, shape("Final / Third"@, ColumnKind::Center, center_order(rounds)));
    lemma_fit_when(sf, shape("Semi-finals"@, ColumnKind::SemiFinal, right_semi_order()));
    lemma_fit_when(qf, shape("Quarter-finals"@, ColumnKind::QuarterFinal, right_quarter_order()));
    lemma_fit_when(r16, shape("Round of 16"@, ColumnKind::RoundOf16, right_round16_order()));
    lemma_fit_when(r32, shape("Round of 32"@, ColumnKind::RoundOf32, right_round32_order()));
    lemma_fit_add(l1, l2);
    lemma_fit_add(l1 + l2, l3);
    lemma_fit_add(l1 + l2 + l3, l4);
    assert(left_half(rounds) == l1 + l2 + l3 + l4);
    lemma_fit_add(r1, r2);
    lemma_fit_add(r1 + r2, r3);
    lemma_fit_add(r1 + r2 + r3, r4);
    assert(right_half(rounds) == r1 + r2 + r3 + r4);
    lemma_fit_add(left_half(rounds), c);
    lemma_fit_add(left_half(rounds) + c, right_half(rounds));
}

/// The cards of the bracket for the selected rounds, each column at its
/// place and each card at its match's row.
pub fn bracket_body_rows(app: &App, rounds: &[KnockoutRoundFilter]) -> (r: Vec<CanvasRow>)
    ensures
        exists|labels: Seq<Seq<(Seq<char>, Seq<char>)>>|
            #[trigger] labels_fit(*app, mirrored_layout(rounds@), labels) && rows_view(r@) == body_canvas(
                blank_rows(bracket_body_height(mirrored_layout(rounds@)) as nat),
                *app,
                mirrored_layout(rounds@),
                labels,
            ),
{
    let columns = mirrored_columns(rounds);
    let ghost shapes = columns@.map_values(|c: ColumnSpec| column_shape(c));
    proof {
        lemma_layout_columns(rounds@);
    }
    let height = mirrored_bracket_body_height(&columns);
    let mut rows: Vec<CanvasRow> = Vec::new();
    let mut k: usize = 0;
    assert(rows_view(rows@) =~= blank_rows(0));
    while k < height
        invariant
            k <= height,
            rows_view(rows@) == blank_rows(k as nat),
        decreases height - k,
    {
        let ghost before = rows_view(rows@);
        let empty: Vec<CardPart> = Vec::new();
        assert(card_parts_view(empty@) =~= Seq::<(Seq<char>, CardTone)>::empty());
        let ghost before_rows = rows@;
        assert(before.len() == k);
        assert(before_rows.len() == k);
        rows.push(CanvasRow { width: 0, parts: empty });
        proof {
            assert(rows@ == before_rows.push(rows@[k as int]));
            assert(row_view(rows@[k as int]) == (0nat, Seq::<(Seq<char>, CardTone)>::empty()));
            assert(rows_view(rows@) =~= before.push((0nat, Seq::<(Seq<char>, CardTone)>::empty())));
            assert(blank_rows((k + 1) as nat) =~= blank_rows(k as nat).push((0nat, Seq::<(Seq<char>, CardTone)>::empty())));
        }
        k = k + 1;
    }
    let ghost start = rows_view(rows@);
    let ghost mut labels: Seq<Seq<(Seq<char>, Seq<char>)>> = Seq::empty();
    assert(shapes.take(0) =~= Seq::<ColumnShape>::empty());
    let mut i: usize = 0;
    while i < columns.len()
        invariant
            i <= columns@.len(),
            columns@.len() <= 9,
            shapes == columns@.map_values(|c: ColumnSpec| column_shape(c)),
            columns_fit(shapes),
            labels_fit(*app, shapes.take(i as int), labels),
            rows_view(rows@) == body_canvas(start, *app, shapes.take(i as int), labels),
            rows_within(rows_view(rows@), 700 * i),
        decreases columns@.len() - i,
    {
        let ghost col_start = rows_view(rows@);
        let ghost mut col_labels: Seq<(Seq<char>, Seq<char>)> = Seq::empty();
        let ghost matches = columns@[i as int].matches@;
        let kind = columns[i].kind;
        assert(matches.take(0) =~= Seq::<u16>::empty());
        assert(shapes[i as int].matches.len() <= 8);
        let mut j: usize = 0;
        while j < columns[i].matches.len()
            invariant
                i < columns@.len() <= 9,
                matches == columns@[i as int].matches@,
                kind == columns@[i as int].kind,
                j <= matches.len() <= 8,
                col_labels.len() == j,
                forall|jj: int|
                    0 <= jj < j && card_match(*app, matches[jj]) is None ==> #[trigger] col_labels[jj] == (
                        "--/--"@,
                        "--:--"@,
                    ),
                forall|jj: int|
                    0 <= jj < j && card_match(*app, matches[jj]) is Some && 73 <= matches[jj] <= 104 ==> is_card_stamp(
                        #[trigger] col_labels[jj],
                    ),
                rows_view(rows@) == column_canvas(col_start, *app, i as int, kind, matches.take(j as int), col_labels),
                rows_within(rows_view(rows@), 700 * i + 75 * j),
            decreases matches.len() - j,
        {
            let n = columns[i].matches[j];
            proof {
                assert(matches.take(j + 1).drop_last() =~= matches.take(j as int));
            }
            if 73 <= n && n <= 104 {
                let y = mirrored_match_y(kind, n);
                let top = if y >= 1 {
                    y - 1
                } else {
                    0
                };
                let pair = draw_match_card(&mut rows, top, i * 27, app, n, Ghost(700 * i + 75 * j));
                proof {
                    let old_labels = col_labels;
                    col_labels = col_labels.push((pair.0@, pair.1@));
                    assert(col_labels.drop_last() =~= old_labels);
                }
            } else {
                proof {
                    let old_labels = col_labels;
                    col_labels = col_labels.push(("--/--"@, "--:--"@));
                    assert(col_labels.drop_last() =~= old_labels);
                }
            }
            j = j + 1;
        }
        proof {
            assert(matches.take(matches.len() as int) =~= matches);
            let old_labels = labels;
            labels = labels.push(col_labels);
            assert(labels.drop_last() =~= old_labels);
            assert(shapes.take(i + 1).drop_last() =~= shapes.take(i as int));
            assert(shapes.take(i + 1).last() == shapes[i as int]);
            assert(labels_fit(*app, shapes.take(i + 1), labels)) by {
                assert forall|a: int, b: int|
                    0 <= a < shapes.take(i + 1).len() && 0 <= b < shapes.take(i + 1)[a].matches.len() && card_match(
                        *app,
                        shapes.take(i + 1)[a].matches[b],
                    ) is None implies #[trigger] labels[a][b] == ("--/--"@, "--:--"@) by {
                    if a < i {
                        assert(labels[a] == old_labels[a]);
                        assert(shapes.take(i as int)[a] == shapes.take(i + 1)[a]);
                    } else {
                        assert(labels[a] == col_labels);
                    }
                }
                assert forall|a: int, b: int|
                    0 <= a < shapes.take(i + 1).len() && 0 <= b < shapes.take(i + 1)[a].matches.len() && card_match(
                        *app,
                        shapes.take(i + 1)[a].matches[b],
                    ) is Some && 73 <= shapes.take(i + 1)[a].matches[b] <= 104 implies is_card_stamp(
                        #[trigger] labels[a][b],
                    ) by {
                    if a < i {
                        assert(labels[a] == old_labels[a]);
                        assert(shapes.take(i as int)[a] == shapes.take(i + 1)[a]);
                    } else {
                        assert(labels[a] == col_labels);
                    }
                }
            }
        }
        i = i + 1;
    }
    proof {
        assert(shapes.take(columns@.len() as int) =~= shapes);
        assert(labels_fit(*app, mirrored_layout(rounds@), labels));
    }
    rows
}

/// The whole bracket: the title row over the cards.
pub fn bracket_lines(app: &App, rounds: &[KnockoutRoundFilter]) -> (r: Vec<CanvasRow>)
    ensures
        exists|labels: Seq<Seq<(Seq<char>, Seq<char>)>>|
            #[trigger] labels_fit(*app, mirrored_layout(rounds@), labels) && rows_view(r@) == title_canvas(
                mirrored_layout(rounds@),
            ) + body_canvas(
                blank_rows(bracket_body_height(mirrored_layout(rounds@)) as nat),
                *app,
                mirrored_layout(rounds@),
                labels,
            ),
{
    let mut lines = bracket_sticky_rows(rounds);
    let mut body = bracket_body_rows(app, rounds);
    let ghost top = lines@;
    let ghost cards = body@;
    lines.append(&mut body);
    proof {
        let layout = mirrored_layout(rounds@);
        let labels = choose|labels: Seq<Seq<(Seq<char>, Seq<char>)>>|
            #[trigger] labels_fit(*app, layout, labels) && rows_view(cards) == body_canvas(
                blank_rows(bracket_body_height(layout) as nat),
                *app,
                layout,
                labels,
            );
        assert(rows_view(lines@) =~= rows_view(top) + rows_view(cards));
        assert(labels_fit(*app, layout, labels));
    }
    lines
}

} // verus!
