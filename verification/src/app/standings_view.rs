//! The standings table as lines of text: a block per group with its title
//! and column heads, then one row per team, with what decides each cell's
//! colour.

use vstd::prelude::*;

use crate::app::state::{advancing, is_favorite_team, App};
use crate::domain::standings::{qualification_of, text_option_view, QualificationState, StandingRow};
use crate::text::{
    chars_of, concat2, decimal, owned, pad_left, pad_left_text, pad_right, pad_right_text, push_decimal, push_signed,
    push_text, same_text, signed_decimal, signed_text, truncate, truncated,
};

verus! {

/// How a team's rank stands out: out of the tournament, through to the
/// knock-outs, or neither yet.
#[derive(Clone, Copy, Debug, Eq, PartialEq, Structural)]
pub enum RankMark {
    Out,
    Advancing,
    Other,
}

pub open spec fn rank_mark_of(advancing: bool, state: QualificationState) -> RankMark {
    if state == QualificationState::Disqualified {
        RankMark::Out
    } else if advancing {
        RankMark::Advancing
    } else {
        RankMark::Other
    }
}

/// What a cell of the table is, which decides its colour.
#[derive(Clone, Copy, Debug, Eq, PartialEq, Structural)]
pub enum CellTone {
    /// A group's title, stressed for the selected group.
    GroupTitle(bool),
    /// The column heads.
    Heading,
    /// A team's rank.
    Rank(RankMark),
    /// A team's name, by where it stands.
    Team(QualificationState),
    /// A team's figures.
    Figures,
    /// The favourite mark, or its blank.
    Favorite(bool),
    /// Blank space.
    Plain,
}

/// A cell of the table with its tone.
#[derive(Clone, Debug)]
pub struct Cell {
    pub text: String,
    pub tone: CellTone,
}

pub open spec fn cell_view(c: Cell) -> (Seq<char>, CellTone) {
    (c.text@, c.tone)
}

pub open spec fn cells_view(v: Seq<Cell>) -> Seq<(Seq<char>, CellTone)> {
    v.map_values(|c: Cell| cell_view(c))
}

pub open spec fn table_view(v: Seq<Vec<Cell>>) -> Seq<Seq<(Seq<char>, CellTone)>> {
    v.map_values(|l: Vec<Cell>| cells_view(l@))
}

/// A team's rank as the table shows it, `#` and its position.
pub open spec fn rank_label(row: StandingRow) -> Seq<char> {
    "#"@ + decimal(row.position as nat)
}

/// How wide the rank and the name of a row are together.
pub open spec fn row_label_width(row: StandingRow) -> nat {
    (rank_label(row) + " "@ + row.team_name@).len()
}

/// How wide the country column is: the widest rank and name, and never less
/// than the heading `Country`.
pub open spec fn country_width_of(rows: Seq<StandingRow>) -> nat
    decreases rows.len(),
{
    if rows.len() == 0 {
        7
    } else {
        let rest = country_width_of(rows.drop_last());
        if row_label_width(rows.last()) > rest {
            row_label_width(rows.last())
        } else {
            rest
        }
    }
}

/// A goal difference: positive ones carry a `+`.
pub open spec fn signed_number(v: int) -> Seq<char> {
    if v > 0 {
        "+"@ + decimal(v as nat)
    } else {
        signed_decimal(v)
    }
}

/// A number that may be missing, shown as `-` then.
pub open spec fn optional_number(v: Option<i16>) -> Seq<char> {
    match v {
        Some(x) => signed_decimal(x as int),
        None => "-"@,
    }
}

/// The column heads under a group's title.
pub open spec fn heading_cells(width: nat) -> Seq<(Seq<char>, CellTone)> {
    seq![(pad_right("Country"@, width) + "  P  W  D  L  GF  GA   GD  TCS  Pts  Fav"@, CellTone::Heading)]
}

/// A group's title: marked `>` when it is the selected group.
pub open spec fn title_cells(name: Seq<char>, selected: bool) -> Seq<(Seq<char>, CellTone)> {
    seq![(if selected { ">"@ } else { " "@ }, CellTone::GroupTitle(selected)), (name, CellTone::GroupTitle(selected))]
}

/// A team's figures: played, won, drawn, lost, goals for and against, goal
/// difference, fair-play score and points, each right-aligned.
pub open spec fn figures(row: StandingRow) -> Seq<char> {
    "  "@ + pad_left(decimal(row.played as nat), 1) + "  "@ + pad_left(decimal(row.won as nat), 1) + "  "@ + pad_left(
        decimal(row.drawn as nat),
        1,
    ) + "  "@ + pad_left(decimal(row.lost as nat), 1) + "  "@ + pad_left(signed_decimal(row.goals_for as int), 2) + "  "@
        + pad_left(signed_decimal(row.goals_against as int), 2) + "  "@ + pad_left(signed_number(row.goal_difference as int), 3)
        + "  "@ + pad_left(optional_number(row.fair_play), 3) + "  "@ + pad_left(signed_decimal(row.points as int), 3)
}

/// A team's row: its rank, its name cut to the country column, its figures
/// and the favourite mark.
pub open spec fn row_cells(
    row: StandingRow,
    width: nat,
    favorite: bool,
    advancing: bool,
    state: QualificationState,
) -> Seq<(Seq<char>, CellTone)> {
    let rank = rank_label(row);
    let name_width: nat = if width > rank.len() { (width - rank.len()) as nat } else { 0 };
    seq![
        (rank, CellTone::Rank(rank_mark_of(advancing, state))),
        (pad_right(truncated(" "@ + row.team_name@, name_width), name_width), CellTone::Team(state)),
        (figures(row), CellTone::Figures),
        ("  "@, CellTone::Plain),
        (if favorite { " * "@ } else { "   "@ }, CellTone::Favorite(favorite)),
    ]
}

/// A team's row as the application knows it: whether it is a favourite,
/// whether it goes through, and where it stands.
pub open spec fn team_row(app: App, row: StandingRow, width: nat) -> Seq<(Seq<char>, CellTone)> {
    row_cells(
        row,
        width,
        is_favorite_team(app.data().teams@, row.team_id@),
        advancing(app.data(), row),
        qualification_of(text_option_view(row.qualification_status)),
    )
}

/// The table for `rows`, in order: a new group opens with a blank line
/// (but the first), its title and the column heads, then each team's row.
pub open spec fn table_lines(
    app: App,
    rows: Seq<StandingRow>,
    width: nat,
    selected: Option<Seq<char>>,
) -> Seq<Seq<(Seq<char>, CellTone)>>
    decreases rows.len(),
{
    if rows.len() == 0 {
        Seq::empty()
    } else {
        let before = table_lines(app, rows.drop_last(), width, selected);
        let row = rows.last();
        let opens = rows.len() == 1 || rows[rows.len() - 2].group_id@ != row.group_id@;
        let gap = if rows.len() > 1 {
            seq![Seq::<(Seq<char>, CellTone)>::empty()]
        } else {
            Seq::empty()
        };
        let block = if opens {
            gap + seq![title_cells(row.group_name@, selected == Some(row.group_id@)), heading_cells(width)]
        } else {
            Seq::empty()
        };
        before + block + seq![team_row(app, row, width)]
    }
}

pub open spec fn rows_of(rows: Seq<&StandingRow>) -> Seq<StandingRow> {
    rows.map_values(|r: &StandingRow| *r)
}

fn cell(text: String, tone: CellTone) -> (r: Cell)
    ensures
        cell_view(r) == (text@, tone),
{
    Cell { text, tone }
}

fn rank_text(row: &StandingRow) -> (r: String)
    ensures
        r@ == rank_label(*row),
{
    let mut r = owned("#");
    push_decimal(&mut r, row.position as u64);
    r
}

fn signed_number_text(v: i16) -> (r: String)
    ensures
        r@ == signed_number(v as int),
{
    if v > 0 {
        let mut r = owned("+");
        push_decimal(&mut r, v as u64);
        r
    } else {
        signed_text(v as i64)
    }
}

fn optional_number_text(v: Option<i16>) -> (r: String)
    ensures
        r@ == optional_number(v),
{
    match v {
        Some(x) => signed_text(x as i64),
        None => owned("-"),
    }
}

fn push_column(s: &mut String, value: &str, width: usize)
    ensures
        final(s)@ == old(s)@ + "  "@ + pad_left(value@, width as nat),
{
    push_text(s, "  ");
    let padded = pad_left_text(value, width);
    push_text(s, padded.as_str());
}

fn figures_text(row: &StandingRow) -> (r: String)
    ensures
        r@ == figures(*row),
{
    let mut r = String::new();
    push_column(&mut r, crate::text::decimal_text(row.played as u64).as_str(), 1);
    push_column(&mut r, crate::text::decimal_text(row.won as u64).as_str(), 1);
    push_column(&mut r, crate::text::decimal_text(row.drawn as u64).as_str(), 1);
    push_column(&mut r, crate::text::decimal_text(row.lost as u64).as_str(), 1);
    push_column(&mut r, signed_text(row.goals_for as i64).as_str(), 2);
    push_column(&mut r, signed_text(row.goals_against as i64).as_str(), 2);
    push_column(&mut r, signed_number_text(row.goal_difference).as_str(), 3);
    push_column(&mut r, optional_number_text(row.fair_play).as_str(), 3);
    push_column(&mut r, signed_text(row.points as i64).as_str(), 3);
    assert(r@ =~= figures(*row));
    r
}

/// The column heads for a country column `width` wide.
pub fn heading_line(width: usize) -> (r: Vec<Cell>)
    ensures
        cells_view(r@) == heading_cells(width as nat),
{
    let text = concat2(pad_right_text("Country", width).as_str(), "  P  W  D  L  GF  GA   GD  TCS  Pts  Fav");
    let mut r: Vec<Cell> = Vec::new();
    r.push(cell(text, CellTone::Heading));
    assert(cells_view(r@) =~= heading_cells(width as nat));
    r
}

/// A team's row for a country column `width` wide.
pub fn row_line(row: &StandingRow, width: usize, favorite: bool, advancing: bool, state: QualificationState) -> (r: Vec<
    Cell,
>)
    ensures
        cells_view(r@) == row_cells(*row, width as nat, favorite, advancing, state),
{
    let rank = rank_text(row);
    let rank_width = chars_of(rank.as_str()).len();
    let name_width: usize = if width > rank_width {
        width - rank_width
    } else {
        0
    };
    let name = concat2(" ", row.team_name.as_str());
    let cut = truncate(name.as_str(), name_width);
    let name_cell = pad_right_text(cut.as_str(), name_width);
    let mark = if state.is_disqualified() {
        RankMark::Out
    } else if advancing {
        RankMark::Advancing
    } else {
        RankMark::Other
    };
    let mut r: Vec<Cell> = Vec::new();
    r.push(cell(rank, CellTone::Rank(mark)));
    r.push(cell(name_cell, CellTone::Team(state)));
    r.push(cell(figures_text(row), CellTone::Figures));
    r.push(cell(owned("  "), CellTone::Plain));
    r.push(cell(
        if favorite {
            owned(" * ")
        } else {
            owned("   ")
        },
        CellTone::Favorite(favorite),
    ));
    assert(cells_view(r@) =~= row_cells(*row, width as nat, favorite, advancing, state));
    r
}

proof fn lemma_short_decimal(n: nat)
    requires
        n < 1000,
    ensures
        decimal(n).len() <= 3,
{
    reveal_with_fuel(decimal, 3);
}

/// How wide the country column is for `rows`.
pub fn country_width(rows: &[&StandingRow]) -> (r: usize)
    requires
        forall|k: int| 0 <= k < rows@.len() ==> #[trigger] rows@[k].team_name@.len() < usize::MAX - 8,
    ensures
        r == country_width_of(rows_of(rows@)),
{
    let ghost all = rows_of(rows@);
    let mut widest: usize = 7;
    let mut i: usize = 0;
    assert(all.take(0) =~= Seq::<StandingRow>::empty());
    while i < rows.len()
        invariant
            i <= rows@.len(),
            all == rows_of(rows@),
            forall|k: int| 0 <= k < rows@.len() ==> #[trigger] rows@[k].team_name@.len() < usize::MAX - 8,
            widest == country_width_of(all.take(i as int)),
        decreases rows@.len() - i,
    {
        let row = rows[i];
        let label = rank_text(row);
        let name_len = chars_of(row.team_name.as_str()).len();
        let rank_len = chars_of(label.as_str()).len();
        proof {
            lemma_short_decimal(row.position as nat);
            reveal_strlit("#");
            assert(all.take(i + 1).drop_last() =~= all.take(i as int));
            assert(all.take(i + 1).last() == *rows@[i as int]);
            assert((rank_label(*row) + " "@ + row.team_name@).len() == rank_len + 1 + name_len) by {
                reveal_strlit(" ");
            }
        }
        let w = rank_len + 1 + name_len;
        if w > widest {
            widest = w;
        }
        i = i + 1;
    }
    assert(all.take(rows@.len() as int) =~= all);
    widest
}

/// The standings table for `rows`, in the order given, for the
/// application's favourites and selected group.
pub fn standing_lines(app: &App, rows: &[&StandingRow]) -> (r: Vec<Vec<Cell>>)
    requires
        forall|k: int| 0 <= k < rows@.len() ==> #[trigger] rows@[k].team_name@.len() < usize::MAX - 8,
    ensures
        table_view(r@) == table_lines(*app, rows_of(rows@), country_width_of(rows_of(rows@)), app.selected_group_run()),
{
    let ghost all = rows_of(rows@);
    let width = country_width(rows);
    let selected = app.selected_standing_group_id();
    let ghost sel = app.selected_group_run();
    assert(match selected {
        Some(g) => sel == Some(g@),
        None => sel is None,
    });
    let mut out: Vec<Vec<Cell>> = Vec::new();
    let mut i: usize = 0;
    assert(all.take(0) =~= Seq::<StandingRow>::empty());
    assert(table_view(out@) =~= table_lines(*app, all.take(0), width as nat, sel));
    while i < rows.len()
        invariant
            i <= rows@.len(),
            all == rows_of(rows@),
            width == country_width_of(all),
            match selected {
                Some(g) => sel == Some(g@),
                None => sel is None,
            },
            table_view(out@) == table_lines(*app, all.take(i as int), width as nat, sel),
        decreases rows@.len() - i,
    {
        let row = rows[i];
        let ghost before = table_view(out@);
        let opens = if i == 0 {
            true
        } else {
            !same_text(rows[i - 1].group_id.as_str(), row.group_id.as_str())
        };
        proof {
            assert(all.take(i + 1).drop_last() =~= all.take(i as int));
            assert(all.take(i + 1).last() == *row);
            if i > 0 {
                assert(all.take(i + 1)[i - 1] == *rows@[i - 1]);
            }
        }
        let ghost empty_line = Seq::<(Seq<char>, CellTone)>::empty();
        let ghost block_view: Seq<Seq<(Seq<char>, CellTone)>> = if opens {
            (if i > 0 {
                seq![empty_line]
            } else {
                Seq::empty()
            }) + seq![title_cells(row.group_name@, sel == Some(row.group_id@)), heading_cells(width as nat)]
        } else {
            Seq::empty()
        };
        let mut block: Vec<Vec<Cell>> = Vec::new();
        if opens {
            if i > 0 {
                let gap: Vec<Cell> = Vec::new();
                assert(cells_view(gap@) =~= empty_line);
                block.push(gap);
            }
            let is_selected = match &selected {
                Some(g) => same_text(g.as_str(), row.group_id.as_str()),
                None => false,
            };
            let marker = if is_selected {
                owned(">")
            } else {
                owned(" ")
            };
            let mut title: Vec<Cell> = Vec::new();
            title.push(cell(marker, CellTone::GroupTitle(is_selected)));
            title.push(cell(row.group_name.clone(), CellTone::GroupTitle(is_selected)));
            assert(cells_view(title@) =~= title_cells(row.group_name@, sel == Some(row.group_id@)));
            block.push(title);
            block.push(heading_line(width));
        }
        assert(table_view(block@) =~= block_view);
        let favorite = app.standing_team_is_favorite(&row.team_id);
        let goes_through = app.standing_row_is_advancing(row);
        let state = app.standing_row_qualification_state(row);
        let line = row_line(row, width, favorite, goes_through, state);
        let ghost line_view = cells_view(line@);
        let ghost out_before = out@;
        let ghost block_before = block@;
        out.append(&mut block);
        out.push(line);
        proof {
            assert(out@ =~= out_before + block_before + seq![out@.last()]);
            assert(table_view(out@) =~= table_view(out_before) + table_view(block_before) + seq![line_view]);
            assert(line_view == team_row(*app, *row, width as nat));
            assert(table_view(out@) =~= before + block_view + seq![team_row(*app, *row, width as nat)]);
        }
        i = i + 1;
    }
    assert(all.take(rows@.len() as int) =~= all);
    out
}

} // verus!
