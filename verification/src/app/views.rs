//! The screens of the application and the choices a user makes on them:
//! filters, sort orders, modes, and the commands that change them.

use vstd::prelude::*;

use crate::domain::ids::GroupId;
use crate::domain::tournament::{group_id_text, Confederation, Group};

verus! {

/// Position of each value in `CountriesFilter::all()`.
pub open spec fn countries_filter_rank(v: CountriesFilter) -> int {
    match v {
        CountriesFilter::All => 0,
        CountriesFilter::Afc => 1,
        CountriesFilter::Caf => 2,
        CountriesFilter::Concacaf => 3,
        CountriesFilter::Conmebol => 4,
        CountriesFilter::Ofc => 5,
        CountriesFilter::Uefa => 6,
    }
}

/// Position of each value in `StandingsFilter::all()`.
pub open spec fn standings_filter_rank(v: StandingsFilter) -> int {
    match v {
        StandingsFilter::AllGroups => 0,
        StandingsFilter::GroupA => 1,
        StandingsFilter::GroupB => 2,
        StandingsFilter::GroupC => 3,
        StandingsFilter::GroupD => 4,
        StandingsFilter::GroupE => 5,
        StandingsFilter::GroupF => 6,
        StandingsFilter::GroupG => 7,
        StandingsFilter::GroupH => 8,
        StandingsFilter::GroupI => 9,
        StandingsFilter::GroupJ => 10,
        StandingsFilter::GroupK => 11,
        StandingsFilter::GroupL => 12,
    }
}

/// Position of each value in `KnockoutRoundFilter::all()`.
pub open spec fn knockout_round_rank(v: KnockoutRoundFilter) -> int {
    match v {
        KnockoutRoundFilter::All => 0,
        KnockoutRoundFilter::RoundOf32 => 1,
        KnockoutRoundFilter::RoundOf16 => 2,
        KnockoutRoundFilter::QuarterFinal => 3,
        KnockoutRoundFilter::SemiFinal => 4,
        KnockoutRoundFilter::ThirdPlace => 5,
        KnockoutRoundFilter::Final => 6,
    }
}

/// Order of the timeline filters: the selectable ones in their order, and
/// `All` after them.
pub open spec fn timeline_filter_rank(v: TimelineFilter) -> int {
    match v {
        TimelineFilter::Goals => 0,
        TimelineFilter::RedCards => 1,
        TimelineFilter::YellowCards => 2,
        TimelineFilter::Substitutions => 3,
        TimelineFilter::All => 4,
    }
}

/// A screen of the application, in the order of its number key.
#[derive(Clone, Copy, Debug, Eq, PartialEq, Structural)]
pub enum Screen {
    Home,
    Countries,
    Matches,
    Standings,
    Knockouts,
    Stats,
    Facts,
}

pub open spec fn screens() -> Seq<Screen> {
    seq![Screen::Home, Screen::Countries, Screen::Matches, Screen::Standings, Screen::Knockouts, Screen::Stats, Screen::Facts]
}

/// Position of each screen in `Screen::all()`.
pub open spec fn screen_position(s: Screen) -> int {
    match s {
        Screen::Home => 0,
        Screen::Countries => 1,
        Screen::Matches => 2,
        Screen::Standings => 3,
        Screen::Knockouts => 4,
        Screen::Stats => 5,
        Screen::Facts => 6,
    }
}

pub open spec fn screen_title(v: Screen) -> Seq<char> {
    match v {
        Screen::Home => "Home"@,
        Screen::Countries => "Countries"@,
        Screen::Matches => "Matches"@,
        Screen::Standings => "Standings"@,
        Screen::Knockouts => "Knock-outs"@,
        Screen::Stats => "Stats"@,
        Screen::Facts => "Fun Facts"@,
    }
}
pub open spec fn screen_key_hint(v: Screen) -> Seq<char> {
    match v {
        Screen::Home => "0"@,
        Screen::Countries => "1"@,
        Screen::Matches => "2"@,
        Screen::Standings => "3"@,
        Screen::Knockouts => "4"@,
        Screen::Stats => "5"@,
        Screen::Facts => "6"@,
    }
}
impl Screen {
    /// Every screen, in the order of its number key.
    pub fn all() -> (r: [Screen; 7])
        ensures
            r@ == screens(),
    {
        let r = [Screen::Home, Screen::Countries, Screen::Matches, Screen::Standings, Screen::Knockouts, Screen::Stats, Screen::Facts];
        assert(r@ =~= screens());
        r
    }

    pub fn title(self) -> (r: &'static str)
        ensures
            r@ == screen_title(self),
    {
        match self {
            Screen::Home => "Home",
            Screen::Countries => "Countries",
            Screen::Matches => "Matches",
            Screen::Standings => "Standings",
            Screen::Knockouts => "Knock-outs",
            Screen::Stats => "Stats",
            Screen::Facts => "Fun Facts",
        }
    }

    /// The number key that opens the screen.
    pub fn key_hint(self) -> (r: &'static str)
        ensures
            r@ == screen_key_hint(self),
    {
        match self {
            Screen::Home => "0",
            Screen::Countries => "1",
            Screen::Matches => "2",
            Screen::Standings => "3",
            Screen::Knockouts => "4",
            Screen::Stats => "5",
            Screen::Facts => "6",
        }
    }

    /// Position of the screen in `Screen::all()`.
    pub fn index(self) -> (r: usize)
        ensures
            r < screens().len(),
            screens()[r as int] == self,
            r == screen_position(self),
    {
        match self {
            Screen::Home => 0,
            Screen::Countries => 1,
            Screen::Matches => 2,
            Screen::Standings => 3,
            Screen::Knockouts => 4,
            Screen::Stats => 5,
            Screen::Facts => 6,
        }
    }
}

/// How match times are shown.
#[derive(Clone, Copy, Debug, Eq, PartialEq, Structural)]
pub enum TimeMode {
    Absolute,
    Relative,
}

pub open spec fn time_mode_label(v: TimeMode) -> Seq<char> {
    match v {
        TimeMode::Absolute => "absolute"@,
        TimeMode::Relative => "relative"@,
    }
}
impl TimeMode {
    pub fn label(self) -> (r: &'static str)
        ensures
            r@ == time_mode_label(self),
    {
        match self {
            TimeMode::Absolute => "absolute",
            TimeMode::Relative => "relative",
        }
    }

    pub open spec fn toggle_spec(self) -> Self {
        match self {
            TimeMode::Absolute => TimeMode::Relative,
            TimeMode::Relative => TimeMode::Absolute,
        }
    }

    pub fn toggle(self) -> (r: Self)
        ensures
            r == self.toggle_spec(),
    {
        match self {
            TimeMode::Absolute => TimeMode::Relative,
            TimeMode::Relative => TimeMode::Absolute,
        }
    }
}

/// Alphabetical order of a list.
#[derive(Clone, Copy, Debug, Eq, PartialEq, Structural)]
pub enum SortOrder {
    Asc,
    Desc,
}

pub open spec fn sort_order_label(v: SortOrder) -> Seq<char> {
    match v {
        SortOrder::Asc => "A-Z"@,
        SortOrder::Desc => "Z-A"@,
    }
}
impl SortOrder {
    pub fn label(self) -> (r: &'static str)
        ensures
            r@ == sort_order_label(self),
    {
        match self {
            SortOrder::Asc => "A-Z",
            SortOrder::Desc => "Z-A",
        }
    }

    pub open spec fn toggle_spec(self) -> Self {
        match self {
            SortOrder::Asc => SortOrder::Desc,
            SortOrder::Desc => SortOrder::Asc,
        }
    }

    pub fn toggle(self) -> (r: Self)
        ensures
            r == self.toggle_spec(),
    {
        match self {
            SortOrder::Asc => SortOrder::Desc,
            SortOrder::Desc => SortOrder::Asc,
        }
    }
}

/// What keystrokes currently mean.
#[derive(Clone, Copy, Debug, Eq, PartialEq, Structural)]
pub enum InputMode {
    Normal,
    Search,
    QuitConfirm,
}

/// Whether letter keys act on the whole application or on the current screen.
#[derive(Clone, Copy, Debug, Eq, PartialEq, Structural)]
pub enum KeyScope {
    Global,
    Screen,
}

pub open spec fn key_scope_label(v: KeyScope) -> Seq<char> {
    match v {
        KeyScope::Global => "global"@,
        KeyScope::Screen => "screen"@,
    }
}
impl KeyScope {
    pub fn label(self) -> (r: &'static str)
        ensures
            r@ == key_scope_label(self),
    {
        match self {
            KeyScope::Global => "global",
            KeyScope::Screen => "screen",
        }
    }

    pub open spec fn toggle_spec(self) -> Self {
        match self {
            KeyScope::Global => KeyScope::Screen,
            KeyScope::Screen => KeyScope::Global,
        }
    }

    pub fn toggle(self) -> (r: Self)
        ensures
            r == self.toggle_spec(),
    {
        match self {
            KeyScope::Global => KeyScope::Screen,
            KeyScope::Screen => KeyScope::Global,
        }
    }
}

/// Which panel of a screen has the focus.
#[derive(Clone, Copy, Debug, Eq, PartialEq, Structural)]
pub enum FocusPane {
    Unfocused,
    Content,
    Detail,
}

pub open spec fn focus_pane_label(v: FocusPane) -> Seq<char> {
    match v {
        FocusPane::Unfocused => "none"@,
        FocusPane::Content => "content"@,
        FocusPane::Detail => "detail"@,
    }
}
impl FocusPane {
    pub fn label(self) -> (r: &'static str)
        ensures
            r@ == focus_pane_label(self),
    {
        match self {
            FocusPane::Unfocused => "none",
            FocusPane::Content => "content",
            FocusPane::Detail => "detail",
        }
    }
}

/// State of the local data as last reported.
#[derive(Clone, Copy, Debug, Eq, PartialEq, Structural)]
pub enum SourceState {
    Empty,
    Cached,
    Refreshing,
    Offline,
    Error,
}

pub open spec fn source_state_label(v: SourceState) -> Seq<char> {
    match v {
        SourceState::Empty => "empty"@,
        SourceState::Cached => "synced"@,
        SourceState::Refreshing => "refreshing"@,
        SourceState::Offline => "offline"@,
        SourceState::Error => "error"@,
    }
}
impl SourceState {
    pub fn label(self) -> (r: &'static str)
        ensures
            r@ == source_state_label(self),
    {
        match self {
            SourceState::Empty => "empty",
            SourceState::Cached => "synced",
            SourceState::Refreshing => "refreshing",
            SourceState::Offline => "offline",
            SourceState::Error => "error",
        }
    }
}

/// A filter of the countries list by confederation.
#[derive(Clone, Copy, Debug, Eq, PartialEq, Structural)]
pub enum CountriesFilter {
    All,
    Afc,
    Caf,
    Concacaf,
    Conmebol,
    Ofc,
    Uefa,
}

pub open spec fn countries_filters() -> Seq<CountriesFilter> {
    seq![CountriesFilter::All, CountriesFilter::Afc, CountriesFilter::Caf, CountriesFilter::Concacaf, CountriesFilter::Conmebol, CountriesFilter::Ofc, CountriesFilter::Uefa]
}

pub open spec fn countries_filter_label(v: CountriesFilter) -> Seq<char> {
    match v {
        CountriesFilter::All => "All"@,
        CountriesFilter::Afc => "AFC"@,
        CountriesFilter::Caf => "CAF"@,
        CountriesFilter::Concacaf => "CONCACAF"@,
        CountriesFilter::Conmebol => "CONMEBOL"@,
        CountriesFilter::Ofc => "OFC"@,
        CountriesFilter::Uefa => "UEFA"@,
    }
}
pub open spec fn countries_filter_menu_label(v: CountriesFilter) -> Seq<char> {
    match v {
        CountriesFilter::All => "A[l]l"@,
        CountriesFilter::Afc => "[A]FC"@,
        CountriesFilter::Caf => "[C]AF"@,
        CountriesFilter::Concacaf => "CO[N]CACAF"@,
        CountriesFilter::Conmebol => "CON[M]EBOL"@,
        CountriesFilter::Ofc => "O[F]C"@,
        CountriesFilter::Uefa => "[U]EFA"@,
    }
}
pub open spec fn countries_filter_shortcut(v: CountriesFilter) -> char {
    match v {
        CountriesFilter::All => 'l',
        CountriesFilter::Afc => 'a',
        CountriesFilter::Caf => 'c',
        CountriesFilter::Concacaf => 'n',
        CountriesFilter::Conmebol => 'm',
        CountriesFilter::Ofc => 'f',
        CountriesFilter::Uefa => 'u',
    }
}
pub open spec fn countries_filter_confederation(v: CountriesFilter) -> Option<Confederation> {
    match v {
        CountriesFilter::All => None,
        CountriesFilter::Afc => Some(Confederation::Afc),
        CountriesFilter::Caf => Some(Confederation::Caf),
        CountriesFilter::Concacaf => Some(Confederation::Concacaf),
        CountriesFilter::Conmebol => Some(Confederation::Conmebol),
        CountriesFilter::Ofc => Some(Confederation::Ofc),
        CountriesFilter::Uefa => Some(Confederation::Uefa),
    }
}
impl CountriesFilter {
    /// Every filter, `All` first.
    pub fn all() -> (r: [CountriesFilter; 7])
        ensures
            r@ == countries_filters(),
    {
        let r = [CountriesFilter::All, CountriesFilter::Afc, CountriesFilter::Caf, CountriesFilter::Concacaf, CountriesFilter::Conmebol, CountriesFilter::Ofc, CountriesFilter::Uefa];
        assert(r@ =~= countries_filters());
        r
    }

    pub fn label(self) -> (r: &'static str)
        ensures
            r@ == countries_filter_label(self),
    {
        match self {
            CountriesFilter::All => "All",
            CountriesFilter::Afc => "AFC",
            CountriesFilter::Caf => "CAF",
            CountriesFilter::Concacaf => "CONCACAF",
            CountriesFilter::Conmebol => "CONMEBOL",
            CountriesFilter::Ofc => "OFC",
            CountriesFilter::Uefa => "UEFA",
        }
    }

    /// The label with the shortcut key in brackets.
    pub fn menu_label(self) -> (r: &'static str)
        ensures
            r@ == countries_filter_menu_label(self),
    {
        match self {
            CountriesFilter::All => "A[l]l",
            CountriesFilter::Afc => "[A]FC",
            CountriesFilter::Caf => "[C]AF",
            CountriesFilter::Concacaf => "CO[N]CACAF",
            CountriesFilter::Conmebol => "CON[M]EBOL",
            CountriesFilter::Ofc => "O[F]C",
            CountriesFilter::Uefa => "[U]EFA",
        }
    }

    pub fn shortcut(self) -> (r: char)
        ensures
            r == countries_filter_shortcut(self),
    {
        match self {
            CountriesFilter::All => 'l',
            CountriesFilter::Afc => 'a',
            CountriesFilter::Caf => 'c',
            CountriesFilter::Concacaf => 'n',
            CountriesFilter::Conmebol => 'm',
            CountriesFilter::Ofc => 'f',
            CountriesFilter::Uefa => 'u',
        }
    }

    pub fn is_all(self) -> (r: bool)
        ensures
            r == (self == CountriesFilter::All),
    {
        match self {
            CountriesFilter::All => true,
            _ => false,
        }
    }

    /// Position of the filter in `CountriesFilter::all()`.
    pub fn index(self) -> (r: usize)
        ensures
            r == countries_filter_rank(self),
            r < countries_filters().len(),
            countries_filters()[r as int] == self,
    {
        match self {
            CountriesFilter::All => 0,
            CountriesFilter::Afc => 1,
            CountriesFilter::Caf => 2,
            CountriesFilter::Concacaf => 3,
            CountriesFilter::Conmebol => 4,
            CountriesFilter::Ofc => 5,
            CountriesFilter::Uefa => 6,
        }
    }

    /// The confederation the filter selects; `None` for `All`.
    pub fn confederation(self) -> (r: Option<Confederation>)
        ensures
            r == countries_filter_confederation(self),
    {
        match self {
            CountriesFilter::All => None,
            CountriesFilter::Afc => Some(Confederation::Afc),
            CountriesFilter::Caf => Some(Confederation::Caf),
            CountriesFilter::Concacaf => Some(Confederation::Concacaf),
            CountriesFilter::Conmebol => Some(Confederation::Conmebol),
            CountriesFilter::Ofc => Some(Confederation::Ofc),
            CountriesFilter::Uefa => Some(Confederation::Uefa),
        }
    }
}

/// A filter of the matches list by date.
#[derive(Clone, Copy, Debug, Eq, PartialEq, Structural)]
pub enum MatchesFilter {
    All,
    Today,
    Past,
    Future,
}

pub open spec fn matches_filters() -> Seq<MatchesFilter> {
    seq![MatchesFilter::All, MatchesFilter::Today, MatchesFilter::Past, MatchesFilter::Future]
}

pub open spec fn matches_filter_label(v: MatchesFilter) -> Seq<char> {
    match v {
        MatchesFilter::All => "all dates"@,
        MatchesFilter::Today => "today"@,
        MatchesFilter::Past => "past"@,
        MatchesFilter::Future => "future"@,
    }
}
pub open spec fn matches_filter_menu_label(v: MatchesFilter) -> Seq<char> {
    match v {
        MatchesFilter::All => "all date[s]"@,
        MatchesFilter::Today => "[t]oday"@,
        MatchesFilter::Past => "[p]ast"@,
        MatchesFilter::Future => "f[u]ture"@,
    }
}
pub open spec fn matches_filter_shortcut(v: MatchesFilter) -> char {
    match v {
        MatchesFilter::All => 's',
        MatchesFilter::Today => 't',
        MatchesFilter::Past => 'p',
        MatchesFilter::Future => 'u',
    }
}
impl MatchesFilter {
    /// Every date filter.
    pub fn all() -> (r: [MatchesFilter; 4])
        ensures
            r@ == matches_filters(),
    {
        let r = [MatchesFilter::All, MatchesFilter::Today, MatchesFilter::Past, MatchesFilter::Future];
        assert(r@ =~= matches_filters());
        r
    }

    pub fn label(self) -> (r: &'static str)
        ensures
            r@ == matches_filter_label(self),
    {
        match self {
            MatchesFilter::All => "all dates",
            MatchesFilter::Today => "today",
            MatchesFilter::Past => "past",
            MatchesFilter::Future => "future",
        }
    }

    /// The label with the shortcut key in brackets.
    pub fn menu_label(self) -> (r: &'static str)
        ensures
            r@ == matches_filter_menu_label(self),
    {
        match self {
            MatchesFilter::All => "all date[s]",
            MatchesFilter::Today => "[t]oday",
            MatchesFilter::Past => "[p]ast",
            MatchesFilter::Future => "f[u]ture",
        }
    }

    pub fn shortcut(self) -> (r: char)
        ensures
            r == matches_filter_shortcut(self),
    {
        match self {
            MatchesFilter::All => 's',
            MatchesFilter::Today => 't',
            MatchesFilter::Past => 'p',
            MatchesFilter::Future => 'u',
        }
    }
}

/// A filter of a match's timeline by kind of event.
#[derive(Clone, Copy, Debug, Eq, PartialEq, Structural)]
pub enum TimelineFilter {
    All,
    Goals,
    RedCards,
    YellowCards,
    Substitutions,
}

pub open spec fn selectable_timeline_filters() -> Seq<TimelineFilter> {
    seq![TimelineFilter::Goals, TimelineFilter::RedCards, TimelineFilter::YellowCards, TimelineFilter::Substitutions]
}

pub open spec fn timeline_filter_label(v: TimelineFilter) -> Seq<char> {
    match v {
        TimelineFilter::All => "all events"@,
        TimelineFilter::Goals => "goals"@,
        TimelineFilter::RedCards => "red cards"@,
        TimelineFilter::YellowCards => "yellow cards"@,
        TimelineFilter::Substitutions => "subs"@,
    }
}
pub open spec fn timeline_filter_menu_label(v: TimelineFilter) -> Seq<char> {
    match v {
        TimelineFilter::All => "all"@,
        TimelineFilter::Goals => "[g]oals"@,
        TimelineFilter::RedCards => "[r]ed cards"@,
        TimelineFilter::YellowCards => "[y]ellow cards"@,
        TimelineFilter::Substitutions => "[s]ubs"@,
    }
}
pub open spec fn timeline_filter_shortcut(v: TimelineFilter) -> char {
    match v {
        TimelineFilter::All => 'a',
        TimelineFilter::Goals => 'g',
        TimelineFilter::RedCards => 'r',
        TimelineFilter::YellowCards => 'y',
        TimelineFilter::Substitutions => 's',
    }
}
impl TimelineFilter {
    /// The filters a user can select; `All` is what no selection means.
    pub fn selectable() -> (r: [TimelineFilter; 4])
        ensures
            r@ == selectable_timeline_filters(),
    {
        let r = [TimelineFilter::Goals, TimelineFilter::RedCards, TimelineFilter::YellowCards, TimelineFilter::Substitutions];
        assert(r@ =~= selectable_timeline_filters());
        r
    }

    pub fn label(self) -> (r: &'static str)
        ensures
            r@ == timeline_filter_label(self),
    {
        match self {
            TimelineFilter::All => "all events",
            TimelineFilter::Goals => "goals",
            TimelineFilter::RedCards => "red cards",
            TimelineFilter::YellowCards => "yellow cards",
            TimelineFilter::Substitutions => "subs",
        }
    }

    /// The label with the shortcut key in brackets.
    pub fn menu_label(self) -> (r: &'static str)
        ensures
            r@ == timeline_filter_menu_label(self),
    {
        match self {
            TimelineFilter::All => "all",
            TimelineFilter::Goals => "[g]oals",
            TimelineFilter::RedCards => "[r]ed cards",
            TimelineFilter::YellowCards => "[y]ellow cards",
            TimelineFilter::Substitutions => "[s]ubs",
        }
    }

    pub fn shortcut(self) -> (r: char)
        ensures
            r == timeline_filter_shortcut(self),
    {
        match self {
            TimelineFilter::All => 'a',
            TimelineFilter::Goals => 'g',
            TimelineFilter::RedCards => 'r',
            TimelineFilter::YellowCards => 'y',
            TimelineFilter::Substitutions => 's',
        }
    }

    /// Position of the filter in `TimelineFilter::selectable()`, and
    /// `usize::MAX` for `All`, which is not selectable.
    pub fn index(self) -> (r: usize)
        ensures
            self == TimelineFilter::All ==> r == usize::MAX,
            self != TimelineFilter::All ==> r < 4 && selectable_timeline_filters()[r as int] == self,
    {
        match self {
            TimelineFilter::All => usize::MAX,
            TimelineFilter::Goals => 0,
            TimelineFilter::RedCards => 1,
            TimelineFilter::YellowCards => 2,
            TimelineFilter::Substitutions => 3,
        }
    }
}

/// A filter by group, of the standings or of the matches.
#[derive(Clone, Copy, Debug, Eq, PartialEq, Structural)]
pub enum StandingsFilter {
    AllGroups,
    GroupA,
    GroupB,
    GroupC,
    GroupD,
    GroupE,
    GroupF,
    GroupG,
    GroupH,
    GroupI,
    GroupJ,
    GroupK,
    GroupL,
}

pub open spec fn standings_filters() -> Seq<StandingsFilter> {
    seq![StandingsFilter::AllGroups, StandingsFilter::GroupA, StandingsFilter::GroupB, StandingsFilter::GroupC, StandingsFilter::GroupD, StandingsFilter::GroupE, StandingsFilter::GroupF, StandingsFilter::GroupG, StandingsFilter::GroupH, StandingsFilter::GroupI, StandingsFilter::GroupJ, StandingsFilter::GroupK, StandingsFilter::GroupL]
}

pub open spec fn standings_filter_label(v: StandingsFilter) -> Seq<char> {
    match v {
        StandingsFilter::AllGroups => "All groups"@,
        StandingsFilter::GroupA => "Group A"@,
        StandingsFilter::GroupB => "Group B"@,
        StandingsFilter::GroupC => "Group C"@,
        StandingsFilter::GroupD => "Group D"@,
        StandingsFilter::GroupE => "Group E"@,
        StandingsFilter::GroupF => "Group F"@,
        StandingsFilter::GroupG => "Group G"@,
        StandingsFilter::GroupH => "Group H"@,
        StandingsFilter::GroupI => "Group I"@,
        StandingsFilter::GroupJ => "Group J"@,
        StandingsFilter::GroupK => "Group K"@,
        StandingsFilter::GroupL => "Group L"@,
    }
}
pub open spec fn standings_filter_shortcut(v: StandingsFilter) -> char {
    match v {
        StandingsFilter::AllGroups => 'r',
        StandingsFilter::GroupA => 'a',
        StandingsFilter::GroupB => 'b',
        StandingsFilter::GroupC => 'c',
        StandingsFilter::GroupD => 'd',
        StandingsFilter::GroupE => 'e',
        StandingsFilter::GroupF => 'f',
        StandingsFilter::GroupG => 'g',
        StandingsFilter::GroupH => 'h',
        StandingsFilter::GroupI => 'i',
        StandingsFilter::GroupJ => 'j',
        StandingsFilter::GroupK => 'k',
        StandingsFilter::GroupL => 'l',
    }
}
pub open spec fn standings_filter_group(v: StandingsFilter) -> Option<Group> {
    match v {
        StandingsFilter::AllGroups => None,
        StandingsFilter::GroupA => Some(Group::A),
        StandingsFilter::GroupB => Some(Group::B),
        StandingsFilter::GroupC => Some(Group::C),
        StandingsFilter::GroupD => Some(Group::D),
        StandingsFilter::GroupE => Some(Group::E),
        StandingsFilter::GroupF => Some(Group::F),
        StandingsFilter::GroupG => Some(Group::G),
        StandingsFilter::GroupH => Some(Group::H),
        StandingsFilter::GroupI => Some(Group::I),
        StandingsFilter::GroupJ => Some(Group::J),
        StandingsFilter::GroupK => Some(Group::K),
        StandingsFilter::GroupL => Some(Group::L),
    }
}
impl StandingsFilter {
    /// Every group filter, `AllGroups` first.
    pub fn all() -> (r: [StandingsFilter; 13])
        ensures
            r@ == standings_filters(),
    {
        let r = [StandingsFilter::AllGroups, StandingsFilter::GroupA, StandingsFilter::GroupB, StandingsFilter::GroupC, StandingsFilter::GroupD, StandingsFilter::GroupE, StandingsFilter::GroupF, StandingsFilter::GroupG, StandingsFilter::GroupH, StandingsFilter::GroupI, StandingsFilter::GroupJ, StandingsFilter::GroupK, StandingsFilter::GroupL];
        assert(r@ =~= standings_filters());
        r
    }

    pub fn label(self) -> (r: &'static str)
        ensures
            r@ == standings_filter_label(self),
    {
        match self {
            StandingsFilter::AllGroups => "All groups",
            StandingsFilter::GroupA => "Group A",
            StandingsFilter::GroupB => "Group B",
            StandingsFilter::GroupC => "Group C",
            StandingsFilter::GroupD => "Group D",
            StandingsFilter::GroupE => "Group E",
            StandingsFilter::GroupF => "Group F",
            StandingsFilter::GroupG => "Group G",
            StandingsFilter::GroupH => "Group H",
            StandingsFilter::GroupI => "Group I",
            StandingsFilter::GroupJ => "Group J",
            StandingsFilter::GroupK => "Group K",
            StandingsFilter::GroupL => "Group L",
        }
    }

    pub fn shortcut(self) -> (r: char)
        ensures
            r == standings_filter_shortcut(self),
    {
        match self {
            StandingsFilter::AllGroups => 'r',
            StandingsFilter::GroupA => 'a',
            StandingsFilter::GroupB => 'b',
            StandingsFilter::GroupC => 'c',
            StandingsFilter::GroupD => 'd',
            StandingsFilter::GroupE => 'e',
            StandingsFilter::GroupF => 'f',
            StandingsFilter::GroupG => 'g',
            StandingsFilter::GroupH => 'h',
            StandingsFilter::GroupI => 'i',
            StandingsFilter::GroupJ => 'j',
            StandingsFilter::GroupK => 'k',
            StandingsFilter::GroupL => 'l',
        }
    }

    pub fn is_all(self) -> (r: bool)
        ensures
            r == (self == StandingsFilter::AllGroups),
    {
        match self {
            StandingsFilter::AllGroups => true,
            _ => false,
        }
    }

    /// The identifier of the group the filter selects; `None` for all groups.
    pub fn group_id(self) -> (r: Option<GroupId>)
        ensures
            standings_filter_group(self) is None ==> r is None,
            standings_filter_group(self) matches Some(g) ==> r matches Some(id) && id@
                == group_id_text(g),
    {
        let group = match self {
            StandingsFilter::AllGroups => {
                return None;
            },
            StandingsFilter::GroupA => Group::A,
            StandingsFilter::GroupB => Group::B,
            StandingsFilter::GroupC => Group::C,
            StandingsFilter::GroupD => Group::D,
            StandingsFilter::GroupE => Group::E,
            StandingsFilter::GroupF => Group::F,
            StandingsFilter::GroupG => Group::G,
            StandingsFilter::GroupH => Group::H,
            StandingsFilter::GroupI => Group::I,
            StandingsFilter::GroupJ => Group::J,
            StandingsFilter::GroupK => Group::K,
            StandingsFilter::GroupL => Group::L,
        };
        Some(group.id())
    }

    /// Position of the filter in `StandingsFilter::all()`.
    pub fn index(self) -> (r: usize)
        ensures
            r == standings_filter_rank(self),
            r < standings_filters().len(),
            standings_filters()[r as int] == self,
    {
        match self {
            StandingsFilter::AllGroups => 0,
            StandingsFilter::GroupA => 1,
            StandingsFilter::GroupB => 2,
            StandingsFilter::GroupC => 3,
            StandingsFilter::GroupD => 4,
            StandingsFilter::GroupE => 5,
            StandingsFilter::GroupF => 6,
            StandingsFilter::GroupG => 7,
            StandingsFilter::GroupH => 8,
            StandingsFilter::GroupI => 9,
            StandingsFilter::GroupJ => 10,
            StandingsFilter::GroupK => 11,
            StandingsFilter::GroupL => 12,
        }
    }
}

/// A filter of the knock-out bracket by round.
#[derive(Clone, Copy, Debug, Eq, PartialEq, Structural)]
pub enum KnockoutRoundFilter {
    All,
    RoundOf32,
    RoundOf16,
    QuarterFinal,
    SemiFinal,
    ThirdPlace,
    Final,
}

pub open spec fn knockout_round_filters() -> Seq<KnockoutRoundFilter> {
    seq![KnockoutRoundFilter::All, KnockoutRoundFilter::RoundOf32, KnockoutRoundFilter::RoundOf16, KnockoutRoundFilter::QuarterFinal, KnockoutRoundFilter::SemiFinal, KnockoutRoundFilter::ThirdPlace, KnockoutRoundFilter::Final]
}

pub open spec fn selectable_knockout_rounds() -> Seq<KnockoutRoundFilter> {
    seq![KnockoutRoundFilter::RoundOf32, KnockoutRoundFilter::RoundOf16, KnockoutRoundFilter::QuarterFinal, KnockoutRoundFilter::SemiFinal, KnockoutRoundFilter::ThirdPlace, KnockoutRoundFilter::Final]
}

pub open spec fn knockout_round_label(v: KnockoutRoundFilter) -> Seq<char> {
    match v {
        KnockoutRoundFilter::All => "All rounds"@,
        KnockoutRoundFilter::RoundOf32 => "Round of 32"@,
        KnockoutRoundFilter::RoundOf16 => "Round of 16"@,
        KnockoutRoundFilter::QuarterFinal => "Quarter-finals"@,
        KnockoutRoundFilter::SemiFinal => "Semi-finals"@,
        KnockoutRoundFilter::ThirdPlace => "Third place"@,
        KnockoutRoundFilter::Final => "Final"@,
    }
}
pub open spec fn knockout_round_shortcut(v: KnockoutRoundFilter) -> char {
    match v {
        KnockoutRoundFilter::All => 'a',
        KnockoutRoundFilter::RoundOf32 => 'r',
        KnockoutRoundFilter::RoundOf16 => 'o',
        KnockoutRoundFilter::QuarterFinal => 'u',
        KnockoutRoundFilter::SemiFinal => 's',
        KnockoutRoundFilter::ThirdPlace => 't',
        KnockoutRoundFilter::Final => 'f',
    }
}
impl KnockoutRoundFilter {
    /// Every round filter, `All` first.
    pub fn all() -> (r: [KnockoutRoundFilter; 7])
        ensures
            r@ == knockout_round_filters(),
    {
        let r = [KnockoutRoundFilter::All, KnockoutRoundFilter::RoundOf32, KnockoutRoundFilter::RoundOf16, KnockoutRoundFilter::QuarterFinal, KnockoutRoundFilter::SemiFinal, KnockoutRoundFilter::ThirdPlace, KnockoutRoundFilter::Final];
        assert(r@ =~= knockout_round_filters());
        r
    }

    /// The rounds, in the order they are played.
    pub fn selectable() -> (r: [KnockoutRoundFilter; 6])
        ensures
            r@ == selectable_knockout_rounds(),
    {
        let r = [KnockoutRoundFilter::RoundOf32, KnockoutRoundFilter::RoundOf16, KnockoutRoundFilter::QuarterFinal, KnockoutRoundFilter::SemiFinal, KnockoutRoundFilter::ThirdPlace, KnockoutRoundFilter::Final];
        assert(r@ =~= selectable_knockout_rounds());
        r
    }

    pub fn label(self) -> (r: &'static str)
        ensures
            r@ == knockout_round_label(self),
    {
        match self {
            KnockoutRoundFilter::All => "All rounds",
            KnockoutRoundFilter::RoundOf32 => "Round of 32",
            KnockoutRoundFilter::RoundOf16 => "Round of 16",
            KnockoutRoundFilter::QuarterFinal => "Quarter-finals",
            KnockoutRoundFilter::SemiFinal => "Semi-finals",
            KnockoutRoundFilter::ThirdPlace => "Third place",
            KnockoutRoundFilter::Final => "Final",
        }
    }

    pub fn shortcut(self) -> (r: char)
        ensures
            r == knockout_round_shortcut(self),
    {
        match self {
            KnockoutRoundFilter::All => 'a',
            KnockoutRoundFilter::RoundOf32 => 'r',
            KnockoutRoundFilter::RoundOf16 => 'o',
            KnockoutRoundFilter::QuarterFinal => 'u',
            KnockoutRoundFilter::SemiFinal => 's',
            KnockoutRoundFilter::ThirdPlace => 't',
            KnockoutRoundFilter::Final => 'f',
        }
    }

    pub fn is_all(self) -> (r: bool)
        ensures
            r == (self == KnockoutRoundFilter::All),
    {
        match self {
            KnockoutRoundFilter::All => true,
            _ => false,
        }
    }

    /// Position of the filter in `KnockoutRoundFilter::all()`.
    pub fn index(self) -> (r: usize)
        ensures
            r == knockout_round_rank(self),
            r < knockout_round_filters().len(),
            knockout_round_filters()[r as int] == self,
    {
        match self {
            KnockoutRoundFilter::All => 0,
            KnockoutRoundFilter::RoundOf32 => 1,
            KnockoutRoundFilter::RoundOf16 => 2,
            KnockoutRoundFilter::QuarterFinal => 3,
            KnockoutRoundFilter::SemiFinal => 4,
            KnockoutRoundFilter::ThirdPlace => 5,
            KnockoutRoundFilter::Final => 6,
        }
    }
}

/// A tab of the statistics screen.
#[derive(Clone, Copy, Debug, Eq, PartialEq, Structural)]
pub enum StatsTab {
    All,
    Records,
    Goals,
    Fouls,
    Passes,
}

pub open spec fn stats_tabs() -> Seq<StatsTab> {
    seq![StatsTab::All, StatsTab::Records, StatsTab::Goals, StatsTab::Fouls, StatsTab::Passes]
}

pub open spec fn stats_tab_label(v: StatsTab) -> Seq<char> {
    match v {
        StatsTab::All => "All"@,
        StatsTab::Records => "Records"@,
        StatsTab::Goals => "Goals"@,
        StatsTab::Fouls => "Fouls"@,
        StatsTab::Passes => "Passes"@,
    }
}
pub open spec fn stats_tab_menu_label(v: StatsTab) -> Seq<char> {
    match v {
        StatsTab::All => "[A]ll"@,
        StatsTab::Records => "[R]ecords"@,
        StatsTab::Goals => "[G]oals"@,
        StatsTab::Fouls => "[F]ouls"@,
        StatsTab::Passes => "[P]asses"@,
    }
}
pub open spec fn stats_tab_shortcut(v: StatsTab) -> char {
    match v {
        StatsTab::All => 'a',
        StatsTab::Records => 'r',
        StatsTab::Goals => 'g',
        StatsTab::Fouls => 'f',
        StatsTab::Passes => 'p',
    }
}
impl StatsTab {
    /// Every tab.
    pub fn all() -> (r: [StatsTab; 5])
        ensures
            r@ == stats_tabs(),
    {
        let r = [StatsTab::All, StatsTab::Records, StatsTab::Goals, StatsTab::Fouls, StatsTab::Passes];
        assert(r@ =~= stats_tabs());
        r
    }

    pub fn label(self) -> (r: &'static str)
        ensures
            r@ == stats_tab_label(self),
    {
        match self {
            StatsTab::All => "All",
            StatsTab::Records => "Records",
            StatsTab::Goals => "Goals",
            StatsTab::Fouls => "Fouls",
            StatsTab::Passes => "Passes",
        }
    }

    /// The label with the shortcut key in brackets.
    pub fn menu_label(self) -> (r: &'static str)
        ensures
            r@ == stats_tab_menu_label(self),
    {
        match self {
            StatsTab::All => "[A]ll",
            StatsTab::Records => "[R]ecords",
            StatsTab::Goals => "[G]oals",
            StatsTab::Fouls => "[F]ouls",
            StatsTab::Passes => "[P]asses",
        }
    }

    pub fn shortcut(self) -> (r: char)
        ensures
            r == stats_tab_shortcut(self),
    {
        match self {
            StatsTab::All => 'a',
            StatsTab::Records => 'r',
            StatsTab::Goals => 'g',
            StatsTab::Fouls => 'f',
            StatsTab::Passes => 'p',
        }
    }
}

/// Where the application's data stands, as shown in the status bar.
#[derive(Debug)]
pub struct SourceStatus {
    pub state: SourceState,
    pub detail: String,
    pub last_updated: Option<String>,
    pub pending_refreshes: usize,
}

impl SourceStatus {
    /// Before any data is loaded.
    pub fn initial() -> (r: SourceStatus)
        ensures
            r.state == SourceState::Empty,
            r.detail@ == "data layer not wired yet"@,
            r.last_updated is None,
            r.pending_refreshes == 0,
    {
        SourceStatus {
            state: SourceState::Empty,
            detail: crate::text::owned("data layer not wired yet"),
            last_updated: None,
            pending_refreshes: 0,
        }
    }
}

/// What a key press asks of the application.
#[derive(Clone, Copy, Debug, Eq, PartialEq, Structural)]
pub enum AppCommand {
    Navigate(Screen),
    Refresh,
    ToggleFavoriteOnly,
    ToggleTimeMode,
    ToggleKeyScope,
    ToggleHelp,
    CloseOverlay,
    Quit,
    ConfirmQuit,
    FocusNext,
    FocusPrevious,
    ScrollUp { max: u16, visible_lines: u16 },
    ScrollDown { max: u16, visible_lines: u16 },
    ScrollLeft { max: u16 },
    ScrollRight { max: u16 },
    OpenDetails,
    ToggleSelectedCountryFavorite,
    ToggleCountryFilter(CountriesFilter),
    SelectMatchesFilter(MatchesFilter),
    ToggleMatchGroup(StandingsFilter),
    ToggleStandingGroup(StandingsFilter),
    ToggleKnockoutRound(KnockoutRoundFilter),
    SelectStatsTab(StatsTab),
    ToggleTimelineFilter(TimelineFilter),
    ToggleSort,
    StartSearch,
    SearchInput(char),
    SearchBackspace,
    SubmitSearch,
    OpenSelectedStandingGroupMatches,
}

} // verus!
