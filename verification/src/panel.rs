//! How far a panel can scroll, and the title hints that say so.

use vstd::prelude::*;

use crate::app::state::App;
use crate::app::views::{AppCommand, FocusPane, KeyScope};
use crate::bracket::{column_shape, match_row, mirrored_match_y, ColumnKind, ColumnShape, ColumnSpec};
use crate::domain::team::Team;
use crate::text::{
    chars_of, concat3, owned, pad_center, pad_center_text, pad_right, pad_right_text, push_text, string_from_chars, truncate,
    truncated,
};

verus! {

/// How far each panel of a screen can scroll, and how many lines it shows.
#[derive(Clone, Copy, Debug, Eq, PartialEq, Structural)]
pub struct PanelMetrics {
    pub content_max_scroll: u16,
    pub detail_max_scroll: u16,
    pub content_max_horizontal_scroll: u16,
    pub detail_max_horizontal_scroll: u16,
    pub content_visible_lines: u16,
    pub detail_visible_lines: u16,
}

impl Default for PanelMetrics {
    fn default() -> (r: Self)
        ensures
            r == (PanelMetrics {
                content_max_scroll: 0,
                detail_max_scroll: 0,
                content_max_horizontal_scroll: 0,
                detail_max_horizontal_scroll: 0,
                content_visible_lines: 0,
                detail_visible_lines: 0,
            }),
    {
        PanelMetrics {
            content_max_scroll: 0,
            detail_max_scroll: 0,
            content_max_horizontal_scroll: 0,
            detail_max_horizontal_scroll: 0,
            content_visible_lines: 0,
            detail_visible_lines: 0,
        }
    }
}

pub open spec fn max_u16(a: u16, b: u16) -> u16 {
    if a < b {
        b
    } else {
        a
    }
}

fn larger(a: u16, b: u16) -> (r: u16)
    ensures
        r == max_u16(a, b),
{
    if a < b {
        b
    } else {
        a
    }
}

impl PanelMetrics {
    /// The metrics of two renderings of a screen taken together: each
    /// figure is the larger of the two.
    pub fn merge(self, other: Self) -> (r: Self)
        ensures
            r.content_max_scroll == max_u16(self.content_max_scroll, other.content_max_scroll),
            r.detail_max_scroll == max_u16(self.detail_max_scroll, other.detail_max_scroll),
            r.content_max_horizontal_scroll == max_u16(
                self.content_max_horizontal_scroll,
                other.content_max_horizontal_scroll,
            ),
            r.detail_max_horizontal_scroll == max_u16(
                self.detail_max_horizontal_scroll,
                other.detail_max_horizontal_scroll,
            ),
            r.content_visible_lines == max_u16(self.content_visible_lines, other.content_visible_lines),
            r.detail_visible_lines == max_u16(self.detail_visible_lines, other.detail_visible_lines),
    {
        PanelMetrics {
            content_max_scroll: larger(self.content_max_scroll, other.content_max_scroll),
            detail_max_scroll: larger(self.detail_max_scroll, other.detail_max_scroll),
            content_max_horizontal_scroll: larger(
                self.content_max_horizontal_scroll,
                other.content_max_horizontal_scroll,
            ),
            detail_max_horizontal_scroll: larger(
                self.detail_max_horizontal_scroll,
                other.detail_max_horizontal_scroll,
            ),
            content_visible_lines: larger(self.content_visible_lines, other.content_visible_lines),
            detail_visible_lines: larger(self.detail_visible_lines, other.detail_visible_lines),
        }
    }
}

/// Merging metrics is commutative, associative and idempotent: the order in
/// which a screen's renderings are combined does not matter.
pub proof fn merge_is_order_free(a: PanelMetrics, b: PanelMetrics, c: PanelMetrics)
    ensures
        merged(a, b) == merged(b, a),
        merged(merged(a, b), c) == merged(a, merged(b, c)),
        merged(a, a) == a,
{
}

/// The metrics that `merge` gives.
pub open spec fn merged(a: PanelMetrics, b: PanelMetrics) -> PanelMetrics {
    PanelMetrics {
        content_max_scroll: max_u16(a.content_max_scroll, b.content_max_scroll),
        detail_max_scroll: max_u16(a.detail_max_scroll, b.detail_max_scroll),
        content_max_horizontal_scroll: max_u16(a.content_max_horizontal_scroll, b.content_max_horizontal_scroll),
        detail_max_horizontal_scroll: max_u16(a.detail_max_horizontal_scroll, b.detail_max_horizontal_scroll),
        content_visible_lines: max_u16(a.content_visible_lines, b.content_visible_lines),
        detail_visible_lines: max_u16(a.detail_visible_lines, b.detail_visible_lines),
    }
}

/// Which way a panel can still scroll: up, down, both or neither.
pub open spec fn vertical_hint(scroll: u16, max_scroll: u16) -> Seq<char> {
    if scroll > 0 && scroll < max_scroll {
        "↑↓"@
    } else if scroll > 0 {
        "↑"@
    } else if scroll < max_scroll {
        "↓"@
    } else {
        ""@
    }
}

/// Which way a panel can still pan: left, right, both or neither.
pub open spec fn horizontal_hint(scroll: u16, max_scroll: u16) -> Seq<char> {
    if scroll > 0 && scroll < max_scroll {
        "←→"@
    } else if scroll > 0 {
        "←"@
    } else if scroll < max_scroll {
        "→"@
    } else {
        ""@
    }
}

/// Whether a panel scrolled to `scroll` of `max_scroll` can move at all.
pub open spec fn can_move(scroll: u16, max_scroll: u16) -> bool {
    scroll > 0 || scroll < max_scroll
}

fn vertical_arrows(scroll: u16, max_scroll: u16) -> (r: &'static str)
    ensures
        r@ == vertical_hint(scroll, max_scroll),
{
    if scroll > 0 && scroll < max_scroll {
        "↑↓"
    } else if scroll > 0 {
        "↑"
    } else if scroll < max_scroll {
        "↓"
    } else {
        ""
    }
}

fn horizontal_arrows(scroll: u16, max_scroll: u16) -> (r: &'static str)
    ensures
        r@ == horizontal_hint(scroll, max_scroll),
{
    if scroll > 0 && scroll < max_scroll {
        "←→"
    } else if scroll > 0 {
        "←"
    } else if scroll < max_scroll {
        "→"
    } else {
        ""
    }
}

/// A panel title with a hint of the way it can still scroll.
pub open spec fn scroll_title_text(base: Seq<char>, scroll: u16, max_scroll: u16) -> Seq<char> {
    if max_scroll == 0 || !can_move(scroll, max_scroll) {
        base
    } else {
        base + " "@ + vertical_hint(scroll, max_scroll) + " more"@
    }
}

pub fn scroll_title(base: &str, scroll: u16, max_scroll: u16) -> (r: String)
    ensures
        r@ == scroll_title_text(base@, scroll, max_scroll),
{
    if max_scroll == 0 || !(scroll > 0 || scroll < max_scroll) {
        return owned(base);
    }
    let mut title = concat3(base, " ", vertical_arrows(scroll, max_scroll));
    push_text(&mut title, " more");
    title
}

/// A panel title with hints of the ways it can still scroll and pan.
pub open spec fn scroll_title_2d_text(
    base: Seq<char>,
    vertical: u16,
    max_vertical: u16,
    horizontal: u16,
    max_horizontal: u16,
) -> Seq<char> {
    if !can_move(vertical, max_vertical) && !can_move(horizontal, max_horizontal) {
        base
    } else {
        base + " "@ + vertical_hint(vertical, max_vertical) + horizontal_hint(horizontal, max_horizontal) + " more"@
    }
}

pub fn scroll_title_2d(base: &str, vertical: u16, max_vertical: u16, horizontal: u16, max_horizontal: u16) -> (r:
    String)
    ensures
        r@ == scroll_title_2d_text(base@, vertical, max_vertical, horizontal, max_horizontal),
{
    if !(vertical > 0 || vertical < max_vertical) && !(horizontal > 0 || horizontal < max_horizontal) {
        return owned(base);
    }
    let mut title = concat3(base, " ", vertical_arrows(vertical, max_vertical));
    push_text(&mut title, horizontal_arrows(horizontal, max_horizontal));
    push_text(&mut title, " more");
    title
}

/// How far a panel of `visible_lines` lines can scroll over `line_count`
/// lines, capped at the largest `u16`.
pub open spec fn max_scroll_for(line_count: int, visible_lines: int) -> int {
    let over = if line_count > visible_lines { line_count - visible_lines } else { 0 };
    if over > 65535 { 65535 } else { over }
}

pub fn max_scroll_for_visible(line_count: usize, visible_lines: u16) -> (r: u16)
    ensures
        r == max_scroll_for(line_count as int, visible_lines as int),
{
    let visible = visible_lines as usize;
    let over = if line_count > visible { line_count - visible } else { 0 };
    if over > 65535 {
        65535
    } else {
        over as u16
    }
}

/// How far a bordered panel `area_height` rows tall can scroll over
/// `line_count` lines: the border takes two rows.
pub fn max_scroll(line_count: usize, area_height: u16) -> (r: u16)
    ensures
        r == max_scroll_for(line_count as int, if area_height > 2 { area_height - 2 } else { 0 }),
{
    max_scroll_for_visible(line_count, area_height.saturating_sub(2))
}

/// The widest of the line widths, or 0 when there are no lines.
pub open spec fn widest_line(widths: Seq<usize>) -> nat
    decreases widths.len(),
{
    if widths.len() == 0 {
        0
    } else {
        let rest = widest_line(widths.drop_last());
        if widths.last() > rest {
            widths.last() as nat
        } else {
            rest
        }
    }
}

/// How far a bordered panel `area_width` columns wide can scroll sideways
/// over lines of the given widths: the border takes two columns, and the
/// result is capped at the largest `u16`.
pub fn max_horizontal_scroll(widths: &[usize], area_width: u16) -> (r: u16)
    ensures
        r == max_scroll_for(widest_line(widths@) as int, if area_width > 2 { area_width - 2 } else { 0 }),
{
    let mut widest: usize = 0;
    let mut i: usize = 0;
    while i < widths.len()
        invariant
            i <= widths@.len(),
            widest == widest_line(widths@.take(i as int)),
        decreases widths@.len() - i,
    {
        proof {
            assert(widths@.take(i + 1).drop_last() =~= widths@.take(i as int));
        }
        if widths[i] > widest {
            widest = widths[i];
        }
        i = i + 1;
    }
    assert(widths@.take(widths@.len() as int) =~= widths@);
    max_scroll_for_visible(widest, area_width.saturating_sub(2))
}

/// Whether the screen's own shortcuts are active (Space toggles them).
pub fn screen_scope_active(app: &App) -> (r: bool)
    ensures
        r == (app@.key_scope == KeyScope::Screen),
{
    app.key_scope() == KeyScope::Screen
}

pub fn content_focused(app: &App) -> (r: bool)
    ensures
        r == (app@.focus_pane == FocusPane::Content),
{
    app.focus_pane() == FocusPane::Content
}

pub fn detail_focused(app: &App) -> (r: bool)
    ensures
        r == (app@.focus_pane == FocusPane::Detail),
{
    app.focus_pane() == FocusPane::Detail
}

/// A scroll command with the limits of the focused panel filled in: its
/// maximal scroll and its visible lines (nothing without focus); other
/// commands pass unchanged.
pub open spec fn with_panel_limits(command: AppCommand, focus: FocusPane, m: PanelMetrics) -> AppCommand {
    let max: u16 = match focus {
        FocusPane::Content => m.content_max_scroll,
        FocusPane::Detail => m.detail_max_scroll,
        FocusPane::Unfocused => 0,
    };
    let visible_lines: u16 = match focus {
        FocusPane::Content => m.content_visible_lines,
        FocusPane::Detail => m.detail_visible_lines,
        FocusPane::Unfocused => 0,
    };
    let max_horizontal: u16 = match focus {
        FocusPane::Content => m.content_max_horizontal_scroll,
        FocusPane::Detail => m.detail_max_horizontal_scroll,
        FocusPane::Unfocused => 0,
    };
    match command {
        AppCommand::ScrollUp { .. } => AppCommand::ScrollUp { max, visible_lines },
        AppCommand::ScrollDown { .. } => AppCommand::ScrollDown { max, visible_lines },
        AppCommand::ScrollLeft { .. } => AppCommand::ScrollLeft { max: max_horizontal },
        AppCommand::ScrollRight { .. } => AppCommand::ScrollRight { max: max_horizontal },
        other => other,
    }
}

pub fn apply_scroll_max(command: AppCommand, focus: FocusPane, panel_metrics: PanelMetrics) -> (r: AppCommand)
    ensures
        r == with_panel_limits(command, focus, panel_metrics),
{
    let max = match focus {
        FocusPane::Content => panel_metrics.content_max_scroll,
        FocusPane::Detail => panel_metrics.detail_max_scroll,
        FocusPane::Unfocused => 0,
    };
    let visible_lines = match focus {
        FocusPane::Content => panel_metrics.content_visible_lines,
        FocusPane::Detail => panel_metrics.detail_visible_lines,
        FocusPane::Unfocused => 0,
    };
    let max_horizontal = match focus {
        FocusPane::Content => panel_metrics.content_max_horizontal_scroll,
        FocusPane::Detail => panel_metrics.detail_max_horizontal_scroll,
        FocusPane::Unfocused => 0,
    };
    match command {
        AppCommand::ScrollUp { .. } => AppCommand::ScrollUp { max, visible_lines },
        AppCommand::ScrollDown { .. } => AppCommand::ScrollDown { max, visible_lines },
        AppCommand::ScrollLeft { .. } => AppCommand::ScrollLeft { max: max_horizontal },
        AppCommand::ScrollRight { .. } => AppCommand::ScrollRight { max: max_horizontal },
        other => other,
    }
}

/// A list cell `width` columns wide: the text cut to fit (after a `>` that
/// marks the selected row), padded on the right.
pub open spec fn cell_text(value: Seq<char>, width: nat, selected: bool) -> Seq<char> {
    let shown = if selected {
        seq!['>'] + truncated(value, (if width > 0 { width - 1 } else { 0 }) as nat)
    } else {
        truncated(value, width)
    };
    pad_right(shown, width)
}

fn cell(value: &str, width: usize, selected: bool) -> (r: String)
    ensures
        r@ == cell_text(value@, width as nat, selected),
{
    let shown = if selected {
        let cut = truncate(value, if width > 0 { width - 1 } else { 0 });
        let mut s = String::new();
        crate::text::push_char(&mut s, '>');
        push_text(&mut s, cut.as_str());
        assert(s@ =~= seq!['>'] + cut@);
        s
    } else {
        truncate(value, width)
    };
    pad_right_text(shown.as_str(), width)
}

/// The cell of a country's name on the countries list.
pub fn country_cell(name: &str, width: usize, selected: bool) -> (r: String)
    ensures
        r@ == cell_text(name@, width as nat, selected),
{
    cell(name, width, selected)
}

/// The cell of a match's time on the matches list.
pub fn time_cell(value: &str, width: usize, selected: bool) -> (r: String)
    ensures
        r@ == cell_text(value@, width as nat, selected),
{
    cell(value, width, selected)
}

/// The longest of the names, counted in characters, and never less than
/// the heading `Team`.
pub open spec fn widest_name(names: Seq<Seq<char>>) -> nat
    decreases names.len(),
{
    if names.len() == 0 {
        4
    } else {
        let rest = widest_name(names.drop_last());
        if names.last().len() > rest {
            names.last().len()
        } else {
            rest
        }
    }
}

/// How wide the team-name column is: the longest name (or the heading)
/// and one column of space.
pub fn team_name_width(teams: &[&Team]) -> (r: usize)
    requires
        teams@.len() < usize::MAX,
        forall|i: int| 0 <= i < teams@.len() ==> #[trigger] teams@[i].name@.len() < usize::MAX,
    ensures
        r == widest_name(teams@.map_values(|t: &Team| t.name@)) + 1,
{
    let ghost names = teams@.map_values(|t: &Team| t.name@);
    let mut widest: usize = 4;
    let mut i: usize = 0;
    while i < teams.len()
        invariant
            i <= teams@.len(),
            names == teams@.map_values(|t: &Team| t.name@),
            forall|k: int| 0 <= k < teams@.len() ==> #[trigger] teams@[k].name@.len() < usize::MAX,
            widest == widest_name(names.take(i as int)),
            widest < usize::MAX,
        decreases teams@.len() - i,
    {
        let n = chars_of(teams[i].name.as_str()).len();
        proof {
            assert(names.take(i + 1).drop_last() =~= names.take(i as int));
            assert(names.take(i + 1).last() == teams@[i as int].name@);
        }
        if n > widest {
            widest = n;
        }
        i = i + 1;
    }
    assert(names.take(teams@.len() as int) =~= names);
    widest + 1
}

/// How many lines the mirrored bracket body takes: down to the bottom of
/// its lowest card (three lines with no match at all).
pub open spec fn body_height(columns: Seq<ColumnShape>) -> int
    decreases columns.len(),
{
    if columns.len() == 0 {
        -1
    } else {
        let rest = body_height(columns.drop_last());
        let here = lowest_card(columns.last().kind, columns.last().matches);
        if here > rest {
            here
        } else {
            rest
        }
    }
}

/// The bottom of the lowest card of one column; -1 when it has none.
pub open spec fn lowest_card(kind: ColumnKind, matches: Seq<u16>) -> int
    decreases matches.len(),
{
    if matches.len() == 0 {
        -1
    } else {
        let rest = lowest_card(kind, matches.drop_last());
        let here = match_row(kind, matches.last()) + 2;
        if here > rest {
            here
        } else {
            rest
        }
    }
}

pub open spec fn bracket_body_height(columns: Seq<ColumnShape>) -> int {
    if body_height(columns) < 0 {
        3
    } else {
        body_height(columns)
    }
}

proof fn lemma_lowest_bounded(kind: ColumnKind, matches: Seq<u16>)
    ensures
        -1 <= lowest_card(kind, matches) <= 70,
    decreases matches.len(),
{
    if matches.len() > 0 {
        lemma_lowest_bounded(kind, matches.drop_last());
        crate::bracket::lemma_match_row_bounded(kind, matches.last());
    }
}

proof fn lemma_body_bounded(columns: Seq<ColumnShape>)
    ensures
        -1 <= body_height(columns) <= 70,
    decreases columns.len(),
{
    if columns.len() > 0 {
        lemma_body_bounded(columns.drop_last());
        lemma_lowest_bounded(columns.last().kind, columns.last().matches);
    }
}

pub fn mirrored_bracket_body_height(columns: &[ColumnSpec]) -> (r: usize)
    ensures
        r == bracket_body_height(columns@.map_values(|c: ColumnSpec| column_shape(c))),
{
    let ghost shapes = columns@.map_values(|c: ColumnSpec| column_shape(c));
    let mut best: i64 = -1;
    let mut i: usize = 0;
    while i < columns.len()
        invariant
            i <= columns@.len(),
            shapes == columns@.map_values(|c: ColumnSpec| column_shape(c)),
            best == body_height(shapes.take(i as int)),
        decreases columns@.len() - i,
    {
        let column = &columns[i];
        let mut low: i64 = -1;
        let mut k: usize = 0;
        proof {
            assert(shapes[i as int] == column_shape(columns@[i as int]));
        }
        while k < column.matches.len()
            invariant
                k <= column.matches@.len(),
                low == lowest_card(column.kind, column.matches@.take(k as int)),
            decreases column.matches@.len() - k,
        {
            proof {
                lemma_lowest_bounded(column.kind, column.matches@.take(k as int));
                crate::bracket::lemma_match_row_bounded(column.kind, column.matches@[k as int]);
                assert(column.matches@.take(k + 1).drop_last() =~= column.matches@.take(k as int));
            }
            let y = mirrored_match_y(column.kind, column.matches[k]) as i64 + 2;
            if y > low {
                low = y;
            }
            k = k + 1;
        }
        proof {
            assert(column.matches@.take(column.matches@.len() as int) =~= column.matches@);
            assert(shapes.take(i + 1).drop_last() =~= shapes.take(i as int));
            lemma_body_bounded(shapes.take(i as int));
        }
        if low > best {
            best = low;
        }
        i = i + 1;
    }
    assert(shapes.take(columns@.len() as int) =~= shapes);
    proof {
        lemma_body_bounded(shapes);
    }
    if best < 0 {
        3
    } else {
        best as usize
    }
}

/// `value` centred in `width` columns, or cut to them when it does not fit.
pub open spec fn centered_text(value: Seq<char>, width: nat) -> Seq<char> {
    if value.len() >= width {
        truncated(value, width)
    } else {
        pad_center(value, width)
    }
}

pub fn center(value: &str, width: usize) -> (r: String)
    ensures
        r@ == centered_text(value@, width as nat),
{
    let len = chars_of(value).len();
    if len >= width {
        truncate(value, width)
    } else {
        pad_center_text(value, width)
    }
}

// ---------------------------------------------------------------------------
// Shortcut labels

/// How far into `t` the first `]` is (the length of `t` when there is none).
pub open spec fn first_close(t: Seq<char>) -> int
    decreases t.len(),
{
    if t.len() == 0 {
        0
    } else if t[0] == ']' {
        0
    } else {
        1 + first_close(t.skip(1))
    }
}

/// The pieces of a label such as `S[o]rt`: runs of plain text, and the
/// shortcut letters written between brackets (a bracket left open runs to
/// the end). Empty pieces are left out.
pub open spec fn label_segments(s: Seq<char>, plain: Seq<char>) -> Seq<(Seq<char>, bool)>
    decreases s.len(),
{
    if s.len() == 0 {
        if plain.len() > 0 {
            seq![(plain, false)]
        } else {
            Seq::empty()
        }
    } else if s[0] == '[' {
        let t = s.skip(1);
        let k = first_close(t);
        let flushed = if plain.len() > 0 {
            seq![(plain, false)]
        } else {
            Seq::empty()
        };
        let shortcut = if k > 0 {
            seq![(t.take(k), true)]
        } else {
            Seq::empty()
        };
        proof {
            lemma_first_close_bounds(t);
        }
        flushed + shortcut + label_segments(if k < t.len() { t.skip(k + 1) } else { Seq::empty() }, Seq::empty())
    } else {
        label_segments(s.skip(1), plain.push(s[0]))
    }
}

/// The first `]` lies within the text, and none comes before it.
pub proof fn lemma_first_close_bounds(t: Seq<char>)
    ensures
        0 <= first_close(t) <= t.len(),
        first_close(t) < t.len() ==> t[first_close(t)] == ']',
        forall|m: int| 0 <= m < first_close(t) ==> t[m] != ']',
    decreases t.len(),
{
    if t.len() > 0 && t[0] != ']' {
        lemma_first_close_bounds(t.skip(1));
        assert forall|m: int| 0 <= m < first_close(t) implies t[m] != ']' by {
            if m > 0 {
                assert(t[m] == t.skip(1)[m - 1]);
            }
        }
    }
}

proof fn lemma_first_close_at(t: Seq<char>, n: int)
    requires
        0 <= n <= t.len(),
        n == t.len() || t[n] == ']',
        forall|m: int| 0 <= m < n ==> t[m] != ']',
    ensures
        first_close(t) == n,
    decreases n,
{
    if n > 0 {
        assert forall|m: int| 0 <= m < n - 1 implies t.skip(1)[m] != ']' by {
            assert(t.skip(1)[m] == t[m + 1]);
        }
        lemma_first_close_at(t.skip(1), n - 1);
    }
}

pub open spec fn segments_view(v: Seq<(String, bool)>) -> Seq<(Seq<char>, bool)> {
    v.map_values(|x: (String, bool)| (x.0@, x.1))
}

/// Splits a label into plain runs and bracketed shortcut letters, in order.
pub fn shortcut_segments(label: &str) -> (r: Vec<(String, bool)>)
    ensures
        segments_view(r@) == label_segments(label@, Seq::empty()),
{
    let chars = chars_of(label);
    let n = chars.len();
    let mut out: Vec<(String, bool)> = Vec::new();
    let mut plain: Vec<char> = Vec::new();
    let mut i: usize = 0;
    assert(chars@.skip(0) =~= chars@);
    while i < n
        invariant
            n == chars@.len(),
            chars@ == label@,
            i <= n,
            segments_view(out@) + label_segments(chars@.skip(i as int), plain@) == label_segments(
                label@,
                Seq::empty(),
            ),
        decreases n - i,
    {
        let ghost rest = chars@.skip(i as int);
        if chars[i] == '[' {
            let ghost t = rest.skip(1);
            let mut j: usize = i + 1;
            while j < n && chars[j] != ']'
                invariant
                    n == chars@.len(),
                    i + 1 <= j <= n,
                    forall|m: int| i + 1 <= m < j ==> chars@[m] != ']',
                decreases n - j,
            {
                j = j + 1;
            }
            proof {
                assert(t =~= chars@.skip(i + 1));
                assert forall|m: int| 0 <= m < j - (i + 1) implies t[m] != ']' by {
                    assert(t[m] == chars@[m + i + 1]);
                }
                if j < n {
                    assert(t[j - (i + 1)] == chars@[j as int]);
                }
                lemma_first_close_at(t, j - (i + 1));
            }
            let ghost o = segments_view(out@);
            let ghost p = plain@;
            if plain.len() > 0 {
                out.push((string_from_chars(plain.as_slice()), false));
                plain = Vec::new();
            }
            let ghost o1 = segments_view(out@);
            assert(o1 == o + (if p.len() > 0 { seq![(p, false)] } else { Seq::<(Seq<char>, bool)>::empty() }));
            if j > i + 1 {
                let shortcut = string_from_chars(vstd::slice::slice_subrange(chars.as_slice(), i + 1, j));
                assert(shortcut@ =~= t.take(j - (i + 1)));
                out.push((shortcut, true));
            }
            let next = if j < n { j + 1 } else { n };
            proof {
                let k = j - (i + 1);
                let after = if k < t.len() { t.skip(k + 1) } else { Seq::<char>::empty() };
                assert(after =~= chars@.skip(next as int));
                assert(plain@ =~= Seq::<char>::empty());
                assert(segments_view(out@) =~= o1 + (if k > 0 { seq![(t.take(k), true)] } else { Seq::<(Seq<char>, bool)>::empty() }));
            }
            i = next;
        } else {
            let c = chars[i];
            proof {
                assert(rest.skip(1) =~= chars@.skip(i + 1));
            }
            plain.push(c);
            i = i + 1;
        }
    }
    let ghost o = segments_view(out@);
    if plain.len() > 0 {
        out.push((string_from_chars(plain.as_slice()), false));
    }
    assert(chars@.skip(n as int) =~= Seq::<char>::empty());
    assert(segments_view(out@) =~= o + label_segments(Seq::<char>::empty(), plain@));
    out
}

} // verus!
