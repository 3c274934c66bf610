//! The application state machine: which screen is shown, the user's
//! filters, sort orders, selections and scroll positions, the data loaded
//! from storage, and the status line. Commands from the keyboard and events
//! from the refresh machinery change it; everything the screens draw is read
//! from it.

use vstd::prelude::*;

use crate::app::views::{
    matches_filter_label, sort_order_label, stats_tab_label,
    focus_pane_label, screen_title, time_mode_label,
    countries_filter_confederation,
    countries_filter_label, knockout_round_label, screen_position, selectable_knockout_rounds,
    standings_filter_group, standings_filter_label, timeline_filter_label,
    AppCommand, CountriesFilter, FocusPane, InputMode, KeyScope, KnockoutRoundFilter,
    MatchesFilter, Screen, SortOrder, SourceState, SourceStatus, StandingsFilter, StatsTab,
    TimeMode, TimelineFilter,
};
use crate::bracket::{has_round, ColumnKind};
use crate::app::selection::{
    countries_ordered, groups_ordered, rounds_ordered, timeline_ordered, toggle_country_filter_in,
    toggle_group_filter_in, toggle_round_filter_in, toggle_timeline_filter_in,
};
use crate::config::TournamentConfig;
use crate::domain::ids::{GroupId, MatchId, TeamId};
use crate::domain::matches::{Match, MatchStatus};
use crate::domain::standings::{qualification_of, text_option_view, QualificationState, StandingRow};
use crate::domain::team::Team;
use crate::domain::time::{local_date, local_date_time, valid_local, LocalDate, LocalDateTime, Timestamp};
use crate::app::time_label::{
    clock, clock_text, date_key, date_key_text, day_month, day_month_text, relative_text, relative_time_label,
};
use crate::domain::timeline::TimelineEvent;
use crate::domain::tournament::{confederation_code, group_id_text, group_index, Confederation, Group};
use crate::repository::AppSnapshot;
use crate::storage::{db_location_label, DatabaseInfo};
use crate::sync::resource::{resource_label_text, standings_resources, ResourceKey, ResourceView};
use crate::sync::coordinator::RefreshEvent;
use crate::order::{key_less, lemma_sorted_order, ranked_before, sorted_order, sorted_selection, sort_indices};
use crate::text::{chars_of, concat2, concat3, contains_chars, contains_text, joined, lowercase, owned, push_text, to_lowercase, trim};

verus! {

/// Scroll offsets of one screen's panels.
#[derive(Clone, Copy, Debug, Eq, PartialEq, Structural)]
pub struct ScreenScroll {
    pub content: u16,
    pub detail: u16,
    pub content_x: u16,
    pub detail_x: u16,
}

pub open spec fn zero_scroll() -> ScreenScroll {
    ScreenScroll { content: 0, detail: 0, content_x: 0, detail_x: 0 }
}

/// The application state, with texts taken as values.
pub ghost struct AppView {
    pub running: bool,
    pub screen: Screen,
    pub country_filters: Seq<CountriesFilter>,
    pub matches_filter: MatchesFilter,
    pub match_groups: Seq<StandingsFilter>,
    pub standing_groups: Seq<StandingsFilter>,
    pub knockout_rounds: Seq<KnockoutRoundFilter>,
    pub stats_tab: StatsTab,
    pub timeline_filters: Seq<TimelineFilter>,
    pub countries_sort: SortOrder,
    pub standings_sort: SortOrder,
    pub favorite_only: bool,
    pub time_mode: TimeMode,
    pub input_mode: InputMode,
    pub key_scope: KeyScope,
    pub focus_pane: FocusPane,
    pub scroll: Seq<ScreenScroll>,
    pub help_open: bool,
    pub detail_open: bool,
    pub search_query: Seq<char>,
    pub country_cursor: usize,
    pub match_cursor: usize,
    pub standing_group_cursor: usize,
    pub knockout_column_cursor: usize,
    pub knockout_match_cursor: usize,
    pub source_state: SourceState,
    pub source_detail: Seq<char>,
    pub last_updated: Option<Seq<char>>,
    pub pending_refreshes: usize,
    pub message: Seq<char>,
}

/// The application.
#[derive(Debug)]
pub struct App {
    config: TournamentConfig,
    running: bool,
    screen: Screen,
    country_filters: Vec<CountriesFilter>,
    matches_filter: MatchesFilter,
    match_groups: Vec<StandingsFilter>,
    standing_groups: Vec<StandingsFilter>,
    knockout_rounds: Vec<KnockoutRoundFilter>,
    stats_tab: StatsTab,
    timeline_filters: Vec<TimelineFilter>,
    countries_sort: SortOrder,
    standings_sort: SortOrder,
    favorite_only: bool,
    time_mode: TimeMode,
    input_mode: InputMode,
    key_scope: KeyScope,
    focus_pane: FocusPane,
    scroll: Vec<ScreenScroll>,
    help_open: bool,
    detail_open: bool,
    search_query: String,
    country_cursor: usize,
    match_cursor: usize,
    standing_group_cursor: usize,
    knockout_column_cursor: usize,
    knockout_match_cursor: usize,
    source_status: SourceStatus,
    database_info: Option<DatabaseInfo>,
    snapshot: AppSnapshot,
    message: String,
    /// The clock reading the date filters and relative times go by.
    now: Timestamp,
    /// Today's date in the local time zone, as of `now`.
    today: LocalDate,
    /// The local date of each loaded match, in the order of the matches.
    match_days: Vec<LocalDate>,
}

impl App {
    pub closed spec fn view(&self) -> AppView {
        AppView {
            running: self.running,
            screen: self.screen,
            country_filters: self.country_filters@,
            matches_filter: self.matches_filter,
            match_groups: self.match_groups@,
            standing_groups: self.standing_groups@,
            knockout_rounds: self.knockout_rounds@,
            stats_tab: self.stats_tab,
            timeline_filters: self.timeline_filters@,
            countries_sort: self.countries_sort,
            standings_sort: self.standings_sort,
            favorite_only: self.favorite_only,
            time_mode: self.time_mode,
            input_mode: self.input_mode,
            key_scope: self.key_scope,
            focus_pane: self.focus_pane,
            scroll: self.scroll@,
            help_open: self.help_open,
            detail_open: self.detail_open,
            search_query: self.search_query@,
            country_cursor: self.country_cursor,
            match_cursor: self.match_cursor,
            standing_group_cursor: self.standing_group_cursor,
            knockout_column_cursor: self.knockout_column_cursor,
            knockout_match_cursor: self.knockout_match_cursor,
            source_state: self.source_status.state,
            source_detail: self.source_status.detail@,
            last_updated: text_option_view(self.source_status.last_updated),
            pending_refreshes: self.source_status.pending_refreshes,
            message: self.message@,
        }
    }

    /// The data the screens show.
    pub closed spec fn data(&self) -> AppSnapshot {
        self.snapshot
    }

    /// The clock reading, in nanoseconds since the epoch.
    pub closed spec fn clock(&self) -> int {
        self.now@
    }

    pub closed spec fn today_spec(&self) -> LocalDate {
        self.today
    }

    pub closed spec fn match_days_spec(&self) -> Seq<LocalDate> {
        self.match_days@
    }

    /// The teams the countries screen lists, by position, in order.
    pub open spec fn teams_listed(&self) -> Seq<usize> {
        team_list(self@, self.data().teams@)
    }

    /// The matches the matches screen lists, by position, in order.
    pub open spec fn matches_listed(&self) -> Seq<usize> {
        match_list(self@, self.data(), self.match_days_spec(), self.clock(), self.today_spec())
    }

    /// The standing rows the standings screen lists, by position, in order.
    pub open spec fn standings_listed(&self) -> Seq<usize> {
        standing_list(self@, self.data())
    }

    /// The groups the standings screen lists, each once, in order.
    pub open spec fn standing_group_runs(&self) -> Seq<Seq<char>> {
        group_runs(self.standings_listed().map_values(|p: usize| self.data().standings@[p as int].group_id@))
    }

    /// One scroll record per screen, and one local date per match.
    pub closed spec fn wf(&self) -> bool {
        &&& self.scroll@.len() == 7
        &&& self.match_days@.len() == self.snapshot.matches@.len()
        &&& selections_ordered(self@)
    }

    /// What a well-formed application keeps in its view: one scroll record
    /// per screen, and each filter selection in menu order.
    pub proof fn lemma_wf_view(&self)
        requires
            self.wf(),
        ensures
            self@.scroll.len() == 7,
            selections_ordered(self@),
    {
    }

    /// Everything but the view: the loaded data, the clock reading, the
    /// configuration and the database.
    pub closed spec fn backing(&self) -> (TournamentConfig, AppSnapshot, int, LocalDate, Seq<LocalDate>, Option<DatabaseInfo>) {
        (self.config, self.snapshot, self.now@, self.today, self.match_days@, self.database_info)
    }

    /// A fresh application on the home screen: nothing loaded and no filter,
    /// so every match is listed whatever its date.
    pub fn new(config: TournamentConfig) -> (r: App)
        ensures
            r.wf(),
            r@.running,
            r@.screen == Screen::Home,
            r@.country_filters.len() == 0,
            r@.matches_filter == MatchesFilter::All,
            r@.match_groups.len() == 0,
            r@.standing_groups.len() == 0,
            r@.knockout_rounds.len() == 0,
            r@.stats_tab == StatsTab::All,
            r@.timeline_filters.len() == 0,
            r@.countries_sort == SortOrder::Asc,
            r@.standings_sort == SortOrder::Asc,
            !r@.favorite_only,
            r@.time_mode == TimeMode::Absolute,
            r@.input_mode == InputMode::Normal,
            r@.key_scope == KeyScope::Global,
            r@.focus_pane == FocusPane::Unfocused,
            forall|i: int| 0 <= i < 7 ==> #[trigger] r@.scroll[i] == zero_scroll(),
            !r@.help_open,
            !r@.detail_open,
            r@.search_query.len() == 0,
            r@.country_cursor == 0,
            r@.match_cursor == 0,
            r@.standing_group_cursor == 0,
            r@.knockout_column_cursor == 0,
            r@.knockout_match_cursor == 0,
            r@.source_state == SourceState::Empty,
            r@.source_detail == "data layer not wired yet"@,
            r@.last_updated is None,
            r@.pending_refreshes == 0,
            r@.message == "Ready. Data persistence and refresh arrive in the next milestones."@,
            r.data().teams@.len() == 0,
            r.data().matches@.len() == 0,
            r.data().standings@.len() == 0,
            r.data().top_scorers@.len() == 0,
            r.data().timeline_events@.len() == 0,
    {
        let zero = ScreenScroll { content: 0, detail: 0, content_x: 0, detail_x: 0 };
        let scroll: Vec<ScreenScroll> = vec![zero, zero, zero, zero, zero, zero, zero];
        // A clock that reads outside the supported range counts as the epoch.
        let now = match Timestamp::now() {
            Some(t) => t,
            None => Timestamp::unix_epoch(),
        };
        let today = local_date(&now);
        App {
            config,
            running: true,
            screen: Screen::Home,
            country_filters: Vec::new(),
            matches_filter: MatchesFilter::All,
            match_groups: Vec::new(),
            standing_groups: Vec::new(),
            knockout_rounds: Vec::new(),
            stats_tab: StatsTab::All,
            timeline_filters: Vec::new(),
            countries_sort: SortOrder::Asc,
            standings_sort: SortOrder::Asc,
            favorite_only: false,
            time_mode: TimeMode::Absolute,
            input_mode: InputMode::Normal,
            key_scope: KeyScope::Global,
            focus_pane: FocusPane::Unfocused,
            scroll,
            help_open: false,
            detail_open: false,
            search_query: String::new(),
            country_cursor: 0,
            match_cursor: 0,
            standing_group_cursor: 0,
            knockout_column_cursor: 0,
            knockout_match_cursor: 0,
            source_status: SourceStatus::initial(),
            database_info: None,
            snapshot: AppSnapshot::empty(),
            message: owned("Ready. Data persistence and refresh arrive in the next milestones."),
            now,
            today,
            match_days: Vec::new(),
        }
    }
}

/// Each multiple selection lists each filter once, in menu order, and the
/// country selection never holds `All`.
pub open spec fn selections_ordered(v: AppView) -> bool {
    &&& countries_ordered(v.country_filters)
    &&& !v.country_filters.contains(CountriesFilter::All)
    &&& groups_ordered(v.match_groups)
    &&& groups_ordered(v.standing_groups)
    &&& rounds_ordered(v.knockout_rounds)
    &&& timeline_ordered(v.timeline_filters)
}

/// The labels of the selected filters joined by commas, or `all` when none
/// is selected.
pub open spec fn selection_label(labels: Seq<Seq<char>>, all: Seq<char>) -> Seq<char> {
    if labels.len() == 0 {
        all
    } else {
        joined(labels, ", "@)
    }
}

/// How many of `matches` are knock-out matches (numbers 73 to 104).
pub open spec fn knockout_count(matches: Seq<Match>) -> nat
    decreases matches.len(),
{
    if matches.len() == 0 {
        0
    } else {
        knockout_count(matches.drop_last()) + (if 73 <= matches.last().match_number <= 104 {
            1nat
        } else {
            0nat
        })
    }
}

/// The rounds the bracket shows: the selected ones, or all of them.
pub open spec fn shown_rounds(selected: Seq<KnockoutRoundFilter>) -> Seq<KnockoutRoundFilter> {
    if selected.len() == 0 {
        selectable_knockout_rounds()
    } else {
        selected
    }
}

/// The resources a screen's manual refresh asks for.
pub open spec fn screen_resources(screen: Screen, standing_groups: Seq<StandingsFilter>) -> Seq<ResourceView> {
    match screen {
        Screen::Home => seq![
            ResourceView::Teams,
            ResourceView::Stages,
            ResourceView::Matches,
            ResourceView::TopScorers,
        ] + standings_resources(),
        Screen::Countries => seq![ResourceView::Teams, ResourceView::Stages],
        Screen::Matches | Screen::Knockouts => seq![ResourceView::Matches] + standings_resources(),
        Screen::Standings => if standing_groups.len() == 0 {
            standings_resources()
        } else {
            group_filter_resources(standing_groups)
        },
        Screen::Stats => seq![ResourceView::TopScorers],
        Screen::Facts => Seq::empty(),
    }
}

/// The standings resources of the groups that filters select, in order.
pub open spec fn group_filter_resources(filters: Seq<StandingsFilter>) -> Seq<ResourceView>
    decreases filters.len(),
{
    if filters.len() == 0 {
        Seq::empty()
    } else {
        group_filter_resources(filters.drop_last()) + match standings_filter_group(filters.last()) {
            Some(g) => seq![ResourceView::StandingsGroup(group_id_text(g))],
            None => Seq::empty(),
        }
    }
}

pub open spec fn resource_views(keys: Seq<ResourceKey>) -> Seq<ResourceView> {
    keys.map_values(|k: ResourceKey| k@)
}

impl App {
    pub closed spec fn config_spec(&self) -> TournamentConfig {
        self.config
    }

    pub fn config(&self) -> (r: TournamentConfig)
        ensures
            r == self.config_spec(),
    {
        self.config
    }

    pub fn is_running(&self) -> (r: bool)
        ensures
            r == self@.running,
    {
        self.running
    }

    pub fn screen(&self) -> (r: Screen)
        ensures
            r == self@.screen,
    {
        self.screen
    }

    /// The search query as it filters: trimmed and lower-cased.
    pub fn normalized_search_query(&self) -> (r: String)
        ensures
            r@ == search_text(self@.search_query),
    {
        let t = crate::text::trim_chars(crate::text::chars_of(self.search_query.as_str()).as_slice());
        let s = crate::text::string_from_chars(t.as_slice());
        if t.len() == 0 {
            return s;
        }
        crate::text::to_lowercase(s.as_str())
    }

    pub fn country_filters(&self) -> (r: &[CountriesFilter])
        ensures
            r@ == self@.country_filters,
    {
        self.country_filters.as_slice()
    }

    pub fn country_filter_label(&self) -> (r: String)
        ensures
            r@ == selection_label(
                self@.country_filters.map_values(|f: CountriesFilter| countries_filter_label(f)),
                "All"@,
            ),
    {
        if self.country_filters.len() == 0 {
            return owned("All");
        }
        let mut r = String::new();
        let mut i: usize = 0;
        while i < self.country_filters.len()
            invariant
                i <= self.country_filters@.len(),
                r@ == joined(self.country_filters@.take(i as int).map_values(|f: CountriesFilter| countries_filter_label(f)), ", "@),
            decreases self.country_filters@.len() - i,
        {
            let ghost prev = self.country_filters@.take(i as int).map_values(|f: CountriesFilter| countries_filter_label(f));
            let ghost next = self.country_filters@.take(i + 1).map_values(|f: CountriesFilter| countries_filter_label(f));
            assert(next.drop_last() =~= prev);
            assert(next.last() == countries_filter_label(self.country_filters@[i as int]));
            if i > 0 {
                push_text(&mut r, ", ");
            } else {
                assert(Seq::<char>::empty() + next.last() =~= next.last());
            }
            push_text(&mut r, self.country_filters[i].label());
            i = i + 1;
        }
        assert(self.country_filters@.take(i as int) =~= self.country_filters@);
        r
    }

    pub fn matches_filter(&self) -> (r: MatchesFilter)
        ensures
            r == self@.matches_filter,
    {
        self.matches_filter
    }

    pub fn match_group_label(&self) -> (r: String)
        ensures
            r@ == selection_label(
                self@.match_groups.map_values(|f: StandingsFilter| standings_filter_label(f)),
                "All groups"@,
            ),
    {
        group_label(&self.match_groups)
    }

    pub fn standing_groups(&self) -> (r: &[StandingsFilter])
        ensures
            r@ == self@.standing_groups,
    {
        self.standing_groups.as_slice()
    }

    pub fn standing_group_label(&self) -> (r: String)
        ensures
            r@ == selection_label(
                self@.standing_groups.map_values(|f: StandingsFilter| standings_filter_label(f)),
                "All groups"@,
            ),
    {
        group_label(&self.standing_groups)
    }

    pub fn knockout_rounds(&self) -> (r: &[KnockoutRoundFilter])
        ensures
            r@ == self@.knockout_rounds,
    {
        self.knockout_rounds.as_slice()
    }

    pub fn knockout_round_label(&self) -> (r: String)
        ensures
            r@ == selection_label(
                self@.knockout_rounds.map_values(|f: KnockoutRoundFilter| knockout_round_label(f)),
                "All rounds"@,
            ),
    {
        if self.knockout_rounds.len() == 0 {
            return owned("All rounds");
        }
        let mut r = String::new();
        let mut i: usize = 0;
        while i < self.knockout_rounds.len()
            invariant
                i <= self.knockout_rounds@.len(),
                r@ == joined(self.knockout_rounds@.take(i as int).map_values(|f: KnockoutRoundFilter| knockout_round_label(f)), ", "@),
            decreases self.knockout_rounds@.len() - i,
        {
            let ghost prev = self.knockout_rounds@.take(i as int).map_values(|f: KnockoutRoundFilter| knockout_round_label(f));
            let ghost next = self.knockout_rounds@.take(i + 1).map_values(|f: KnockoutRoundFilter| knockout_round_label(f));
            assert(next.drop_last() =~= prev);
            assert(next.last() == knockout_round_label(self.knockout_rounds@[i as int]));
            if i > 0 {
                push_text(&mut r, ", ");
            } else {
                assert(Seq::<char>::empty() + next.last() =~= next.last());
            }
            push_text(&mut r, self.knockout_rounds[i].label());
            i = i + 1;
        }
        assert(self.knockout_rounds@.take(i as int) =~= self.knockout_rounds@);
        r
    }

    /// The rounds the bracket shows: the selected rounds, or every round
    /// when none is selected.
    pub fn visible_knockout_rounds(&self) -> (r: Vec<KnockoutRoundFilter>)
        ensures
            r@ == shown_rounds(self@.knockout_rounds),
    {
        if self.knockout_rounds.len() == 0 {
            let all = KnockoutRoundFilter::selectable();
            let mut r: Vec<KnockoutRoundFilter> = Vec::new();
            let mut i: usize = 0;
            while i < 6
                invariant
                    i <= 6,
                    all@ == selectable_knockout_rounds(),
                    r@ == all@.take(i as int),
                decreases 6 - i,
            {
                r.push(all[i]);
                assert(all@.take(i + 1) =~= all@.take(i as int).push(all@[i as int]));
                i = i + 1;
            }
            assert(all@.take(6) =~= all@);
            return r;
        }
        copy_rounds(&self.knockout_rounds)
    }

    pub fn stats_tab(&self) -> (r: StatsTab)
        ensures
            r == self@.stats_tab,
    {
        self.stats_tab
    }

    pub fn timeline_filters(&self) -> (r: &[TimelineFilter])
        ensures
            r@ == self@.timeline_filters,
    {
        self.timeline_filters.as_slice()
    }

    pub fn timeline_filter_label(&self) -> (r: String)
        ensures
            r@ == selection_label(
                self@.timeline_filters.map_values(|f: TimelineFilter| timeline_filter_label(f)),
                "all events"@,
            ),
    {
        if self.timeline_filters.len() == 0 {
            return owned(TimelineFilter::All.label());
        }
        let mut r = String::new();
        let mut i: usize = 0;
        while i < self.timeline_filters.len()
            invariant
                i <= self.timeline_filters@.len(),
                r@ == joined(self.timeline_filters@.take(i as int).map_values(|f: TimelineFilter| timeline_filter_label(f)), ", "@),
            decreases self.timeline_filters@.len() - i,
        {
            let ghost prev = self.timeline_filters@.take(i as int).map_values(|f: TimelineFilter| timeline_filter_label(f));
            let ghost next = self.timeline_filters@.take(i + 1).map_values(|f: TimelineFilter| timeline_filter_label(f));
            assert(next.drop_last() =~= prev);
            assert(next.last() == timeline_filter_label(self.timeline_filters@[i as int]));
            if i > 0 {
                push_text(&mut r, ", ");
            } else {
                assert(Seq::<char>::empty() + next.last() =~= next.last());
            }
            push_text(&mut r, self.timeline_filters[i].label());
            i = i + 1;
        }
        assert(self.timeline_filters@.take(i as int) =~= self.timeline_filters@);
        r
    }

    pub fn countries_sort(&self) -> (r: SortOrder)
        ensures
            r == self@.countries_sort,
    {
        self.countries_sort
    }

    pub fn standings_sort(&self) -> (r: SortOrder)
        ensures
            r == self@.standings_sort,
    {
        self.standings_sort
    }

    pub fn favorite_only(&self) -> (r: bool)
        ensures
            r == self@.favorite_only,
    {
        self.favorite_only
    }

    pub fn time_mode(&self) -> (r: TimeMode)
        ensures
            r == self@.time_mode,
    {
        self.time_mode
    }

    pub fn input_mode(&self) -> (r: InputMode)
        ensures
            r == self@.input_mode,
    {
        self.input_mode
    }

    pub fn key_scope(&self) -> (r: KeyScope)
        ensures
            r == self@.key_scope,
    {
        self.key_scope
    }

    pub fn focus_pane(&self) -> (r: FocusPane)
        ensures
            r == self@.focus_pane,
    {
        self.focus_pane
    }

    fn current_scroll(&self) -> (r: ScreenScroll)
        requires
            self.wf(),
        ensures
            r == self@.scroll[screen_position(self@.screen)],
    {
        self.scroll[self.screen.index()]
    }

    /// The vertical scroll of the current screen's content panel.
    pub fn content_scroll(&self) -> (r: u16)
        requires
            self.wf(),
        ensures
            r == self@.scroll[screen_position(self@.screen)].content,
    {
        self.current_scroll().content
    }

    /// The vertical scroll of the current screen's detail panel.
    pub fn detail_scroll(&self) -> (r: u16)
        requires
            self.wf(),
        ensures
            r == self@.scroll[screen_position(self@.screen)].detail,
    {
        self.current_scroll().detail
    }

    /// The horizontal scroll of the current screen's content panel.
    pub fn content_horizontal_scroll(&self) -> (r: u16)
        requires
            self.wf(),
        ensures
            r == self@.scroll[screen_position(self@.screen)].content_x,
    {
        self.current_scroll().content_x
    }

    pub fn help_open(&self) -> (r: bool)
        ensures
            r == self@.help_open,
    {
        self.help_open
    }

    pub fn detail_open(&self) -> (r: bool)
        ensures
            r == self@.detail_open,
    {
        self.detail_open
    }

    pub fn source_status(&self) -> (r: &SourceStatus)
        ensures
            r.state == self@.source_state,
            r.detail@ == self@.source_detail,
            text_option_view(r.last_updated) == self@.last_updated,
            r.pending_refreshes == self@.pending_refreshes,
    {
        &self.source_status
    }

    pub fn database_info(&self) -> (r: Option<&DatabaseInfo>)
        ensures
            r is Some == self.database_spec() is Some,
            r matches Some(i) ==> Some(*i) == self.database_spec(),
    {
        match &self.database_info {
            Some(i) => Some(i),
            None => None,
        }
    }

    pub closed spec fn database_spec(&self) -> Option<DatabaseInfo> {
        self.database_info
    }

    pub fn team_count(&self) -> (r: usize)
        ensures
            r == self.data().teams@.len(),
    {
        self.snapshot.teams.len()
    }

    pub fn match_count(&self) -> (r: usize)
        ensures
            r == self.data().matches@.len(),
    {
        self.snapshot.matches.len()
    }

    /// How many loaded matches are knock-out matches.
    pub fn knockout_match_count(&self) -> (r: usize)
        ensures
            r == knockout_count(self.data().matches@),
    {
        let mut n: usize = 0;
        let mut i: usize = 0;
        while i < self.snapshot.matches.len()
            invariant
                i <= self.snapshot.matches@.len(),
                n == knockout_count(self.snapshot.matches@.take(i as int)),
                n <= i,
            decreases self.snapshot.matches@.len() - i,
        {
            assert(self.snapshot.matches@.take(i + 1).drop_last() =~= self.snapshot.matches@.take(
                i as int,
            ));
            let number = self.snapshot.matches[i].match_number;
            if 73 <= number && number <= 104 {
                n = n + 1;
            }
            i = i + 1;
        }
        assert(self.snapshot.matches@.take(i as int) =~= self.snapshot.matches@);
        n
    }

    pub fn standing_count(&self) -> (r: usize)
        ensures
            r == self.data().standings@.len(),
    {
        self.snapshot.standings.len()
    }

    pub fn message(&self) -> (r: &str)
        ensures
            r@ == self@.message,
    {
        self.message.as_str()
    }

    pub fn quit_confirm_open(&self) -> (r: bool)
        ensures
            r == (self@.input_mode == InputMode::QuitConfirm),
    {
        self.input_mode == InputMode::QuitConfirm
    }

    pub fn set_message(&mut self, message: String)
        ensures
            final(self)@ == (AppView { message: message@, ..old(self)@ }),
            final(self).data() == old(self).data(),
            final(self).wf() == old(self).wf(),
            final(self).clock() == old(self).clock(),
    {
        self.message = message;
    }

    pub fn set_last_sync(&mut self, last_sync: Option<String>)
        ensures
            final(self)@ == (AppView { last_updated: text_option_view(last_sync), ..old(self)@ }),
            final(self).data() == old(self).data(),
            final(self).wf() == old(self).wf(),
    {
        self.source_status.last_updated = last_sync;
    }

    /// Records the database that was opened, and says so.
    pub fn set_database_info(&mut self, info: DatabaseInfo)
        ensures
            final(self)@ == (AppView {
                source_detail: "db:"@ + db_location_label(info.location),
                message: "Database ready: "@ + info.path@ + "."@,
                ..old(self)@
            }),
            final(self).database_spec() == Some(info),
            final(self).data() == old(self).data(),
            final(self).wf() == old(self).wf(),
    {
        self.source_status.detail = concat2("db:", info.location.label());
        self.message = concat3("Database ready: ", info.path.as_str(), ".");
        self.database_info = Some(info);
    }

    /// Loading the stored data failed.
    pub fn set_snapshot_error(&mut self, error: String)
        ensures
            final(self)@ == (AppView {
                source_state: SourceState::Error,
                message: "Loading saved data failed: "@ + error@,
                ..old(self)@
            }),
            final(self).data() == old(self).data(),
            final(self).wf() == old(self).wf(),
    {
        self.source_status.state = SourceState::Error;
        self.message = concat2("Loading saved data failed: ", error.as_str());
    }

    /// The resources a manual refresh of the current screen asks for.
    pub fn refresh_resources(&self) -> (r: Vec<ResourceKey>)
        ensures
            resource_views(r@) == screen_resources(self@.screen, self@.standing_groups),
    {
        match self.screen {
            Screen::Home => {
                let mut resources = vec![
                    ResourceKey::Teams,
                    ResourceKey::Stages,
                    ResourceKey::Matches,
                    ResourceKey::TopScorers,
                ];
                let ghost head = resource_views(resources@);
                let mut groups = ResourceKey::all_standings_groups();
                resources.append(&mut groups);
                assert(resource_views(resources@) =~= head + standings_resources());
                resources
            },
            Screen::Countries => {
                let r = vec![ResourceKey::Teams, ResourceKey::Stages];
                assert(resource_views(r@) =~= seq![ResourceView::Teams, ResourceView::Stages]);
                r
            },
            Screen::Matches | Screen::Knockouts => {
                let mut resources = vec![ResourceKey::Matches];
                let ghost head = resource_views(resources@);
                let mut groups = ResourceKey::all_standings_groups();
                resources.append(&mut groups);
                assert(resource_views(resources@) =~= head + standings_resources());
                resources
            },
            Screen::Standings => {
                if self.standing_groups.len() == 0 {
                    ResourceKey::all_standings_groups()
                } else {
                    let mut r: Vec<ResourceKey> = Vec::new();
                    let mut i: usize = 0;
                    while i < self.standing_groups.len()
                        invariant
                            i <= self.standing_groups@.len(),
                            resource_views(r@) == group_filter_resources(self.standing_groups@.take(i as int)),
                        decreases self.standing_groups@.len() - i,
                    {
                        assert(self.standing_groups@.take(i + 1).drop_last() =~= self.standing_groups@.take(i as int));
                        let ghost before = resource_views(r@);
                        match self.standing_groups[i].group_id() {
                            Some(g) => {
                                r.push(ResourceKey::StandingsGroup(g));
                                assert(resource_views(r@) =~= before + seq![resource_views(r@).last()]);
                            },
                            None => {
                                assert(before + Seq::<ResourceView>::empty() =~= before);
                            },
                        }
                        i = i + 1;
                    }
                    assert(self.standing_groups@.take(i as int) =~= self.standing_groups@);
                    r
                }
            },
            Screen::Stats => {
                let r = vec![ResourceKey::TopScorers];
                assert(resource_views(r@) =~= seq![ResourceView::TopScorers]);
                r
            },
            Screen::Facts => {
                let r: Vec<ResourceKey> = Vec::new();
                assert(resource_views(r@) =~= Seq::<ResourceView>::empty());
                r
            },
        }
    }

    /// Takes what the refresh machinery reports into the status line.
    pub fn handle_refresh_event(&mut self, event: RefreshEvent)
        ensures
            refresh_event_effect(old(self)@, event, final(self)@),
            final(self).data() == old(self).data(),
            final(self).wf() == old(self).wf(),
            final(self).clock() == old(self).clock(),
    {
        let pending = self.source_status.pending_refreshes;
        let state = self.source_status.state;
        let ghost before = self@;
        let (new_state, new_pending, message) = match &event {
            RefreshEvent::Started { resource } => (
                SourceState::Refreshing,
                if pending < usize::MAX {
                    pending + 1
                } else {
                    usize::MAX
                },
                concat2("Syncing ", resource.label().as_str()),
            ),
            RefreshEvent::Deduped { resource } => (
                if pending == 0 {
                    SourceState::Cached
                } else {
                    state
                },
                pending,
                concat2(resource.label().as_str(), " sync already in flight."),
            ),
            RefreshEvent::Cooldown { resource } => (
                if pending == 0 {
                    SourceState::Cached
                } else {
                    state
                },
                pending,
                concat2(resource.label().as_str(), " sync is cooling down."),
            ),
            RefreshEvent::Succeeded { resource, at: _ } => (
                if pending <= 1 {
                    SourceState::Cached
                } else {
                    state
                },
                if pending > 0 {
                    pending - 1
                } else {
                    0
                },
                concat3("Synced ", resource.label().as_str(), "."),
            ),
            RefreshEvent::Failed { resource, error } => {
                let mut m = concat2(resource.label().as_str(), " sync failed: ");
                push_text(&mut m, error.as_str());
                (
                    if pending <= 1 {
                        SourceState::Error
                    } else {
                        state
                    },
                    if pending > 0 {
                        pending - 1
                    } else {
                        0
                    },
                    m,
                )
            },
            RefreshEvent::Offline { resource, error } => {
                let mut m = concat2(resource.label().as_str(), " sync skipped: offline (");
                push_text(&mut m, error.as_str());
                push_text(&mut m, ")");
                (
                    if pending == 0 {
                        SourceState::Offline
                    } else {
                        state
                    },
                    pending,
                    m,
                )
            },
        };
        let last = match event {
            RefreshEvent::Succeeded { resource: _, at } => Some(at),
            _ => {
                let l = self.source_status.last_updated.take();
                l
            },
        };
        self.source_status.state = new_state;
        self.source_status.pending_refreshes = new_pending;
        self.source_status.last_updated = last;
        self.message = message;
        assert(self@ == (AppView {
            source_state: new_state,
            pending_refreshes: new_pending,
            last_updated: text_option_view(last),
            message: message@,
            ..before
        }));
    }
}

/// The status line after a refresh event: its state, the number of pending
/// refreshes, the time of the last success, and the message. A started
/// refresh counts as pending, a finished one (succeeded or failed) no longer
/// does; once nothing is pending the state shows the last outcome.
pub open spec fn status_after_event(before: AppView, event: RefreshEvent) -> (
    SourceState,
    usize,
    Option<Seq<char>>,
    Seq<char>,
) {
    let pending = before.pending_refreshes;
    let state = before.source_state;
    match event {
        RefreshEvent::Started { resource } => (
            SourceState::Refreshing,
            if pending < usize::MAX {
                (pending + 1) as usize
            } else {
                pending
            },
            before.last_updated,
            "Syncing "@ + resource_label_text(resource@),
        ),
        RefreshEvent::Deduped { resource } => (
            if pending == 0 {
                SourceState::Cached
            } else {
                state
            },
            pending,
            before.last_updated,
            resource_label_text(resource@) + " sync already in flight."@,
        ),
        RefreshEvent::Cooldown { resource } => (
            if pending == 0 {
                SourceState::Cached
            } else {
                state
            },
            pending,
            before.last_updated,
            resource_label_text(resource@) + " sync is cooling down."@,
        ),
        RefreshEvent::Succeeded { resource, at } => (
            if pending <= 1 {
                SourceState::Cached
            } else {
                state
            },
            if pending > 0 {
                (pending - 1) as usize
            } else {
                0
            },
            Some(at@),
            "Synced "@ + resource_label_text(resource@) + "."@,
        ),
        RefreshEvent::Failed { resource, error } => (
            if pending <= 1 {
                SourceState::Error
            } else {
                state
            },
            if pending > 0 {
                (pending - 1) as usize
            } else {
                0
            },
            before.last_updated,
            resource_label_text(resource@) + " sync failed: "@ + error@,
        ),
        RefreshEvent::Offline { resource, error } => (
            if pending == 0 {
                SourceState::Offline
            } else {
                state
            },
            pending,
            before.last_updated,
            resource_label_text(resource@) + " sync skipped: offline ("@ + error@ + ")"@,
        ),
    }
}

/// A refresh event changes the status line as `status_after_event` says and
/// nothing else.
pub open spec fn refresh_event_effect(before: AppView, event: RefreshEvent, after: AppView) -> bool {
    let (state, pending, last, message) = status_after_event(before, event);
    after == (AppView {
        source_state: state,
        pending_refreshes: pending,
        last_updated: last,
        message,
        ..before
    })
}

fn group_label(groups: &Vec<StandingsFilter>) -> (r: String)
    ensures
        r@ == selection_label(
            groups@.map_values(|f: StandingsFilter| standings_filter_label(f)),
            "All groups"@,
        ),
{
    if groups.len() == 0 {
        return owned("All groups");
    }
    let mut r = String::new();
    let mut i: usize = 0;
    while i < groups.len()
        invariant
            i <= groups@.len(),
            r@ == joined(groups@.take(i as int).map_values(|f: StandingsFilter| standings_filter_label(f)), ", "@),
        decreases groups@.len() - i,
    {
        let ghost prev = groups@.take(i as int).map_values(|f: StandingsFilter| standings_filter_label(f));
        let ghost next = groups@.take(i + 1).map_values(|f: StandingsFilter| standings_filter_label(f));
        assert(next.drop_last() =~= prev);
        assert(next.last() == standings_filter_label(groups@[i as int]));
        if i > 0 {
            push_text(&mut r, ", ");
        } else {
            assert(Seq::<char>::empty() + next.last() =~= next.last());
        }
        push_text(&mut r, groups[i].label());
        i = i + 1;
    }
    assert(groups@.take(i as int) =~= groups@);
    r
}

fn copy_rounds(v: &Vec<KnockoutRoundFilter>) -> (r: Vec<KnockoutRoundFilter>)
    ensures
        r@ == v@,
{
    let mut r: Vec<KnockoutRoundFilter> = Vec::new();
    let mut i: usize = 0;
    while i < v.len()
        invariant
            i <= v@.len(),
            r@ == v@.take(i as int),
        decreases v@.len() - i,
    {
        r.push(v[i]);
        assert(v@.take(i + 1) =~= v@.take(i as int).push(v@[i as int]));
        i = i + 1;
    }
    assert(v@.take(i as int) =~= v@);
    r
}

// ---------------------------------------------------------------------------
// What the screens list

/// A text as a sort key: its characters' code points.
pub open spec fn text_key(s: Seq<char>) -> Seq<i128> {
    s.map_values(|c: char| c as u32 as i128)
}

/// A search as it filters: trimmed and lower-cased; a search that is blank
/// once trimmed filters nothing.
pub open spec fn search_text(search: Seq<char>) -> Seq<char> {
    let t = trim(search);
    if t.len() == 0 {
        t
    } else {
        lowercase(t)
    }
}

/// The search query as it filters.
pub open spec fn query_of(v: AppView) -> Seq<char> {
    search_text(v.search_query)
}

/// Whether a text matches the query, ignoring case.
pub open spec fn matches_query(value: Seq<char>, q: Seq<char>) -> bool {
    contains_text(lowercase(value), q)
}

pub open spec fn optional_matches_query(value: Option<Seq<char>>, q: Seq<char>) -> bool {
    match value {
        Some(v) => matches_query(v, q),
        None => false,
    }
}

/// Whether the team with identifier `id` is a favourite.
pub open spec fn is_favorite_team(teams: Seq<Team>, id: Seq<char>) -> bool {
    exists|i: int| 0 <= i < teams.len() && #[trigger] teams[i].favorite && teams[i].id@ == id
}

/// The country filters let a confederation through: no filter is selected,
/// or one of them selects it.
pub open spec fn confederation_selected(filters: Seq<CountriesFilter>, c: Confederation) -> bool {
    filters.len() == 0 || exists|i: int|
        0 <= i < filters.len() && #[trigger] countries_filter_confederation(filters[i]) == Some(c)
}

/// The group filters let a group through: none is selected, or one of them
/// selects it.
pub open spec fn group_selected(filters: Seq<StandingsFilter>, group_id: Option<Seq<char>>) -> bool {
    filters.len() == 0 || exists|i: int|
        0 <= i < filters.len() && #[trigger] filter_selects_group(filters[i], group_id)
}

/// Whether a group filter selects the group with identifier `group_id`.
pub open spec fn filter_selects_group(f: StandingsFilter, group_id: Option<Seq<char>>) -> bool {
    match standings_filter_group(f) {
        Some(g) => group_id == Some(group_id_text(g)),
        None => false,
    }
}

/// The countries screen lists a team when its confederation is selected, it
/// is a favourite if only favourites are shown, and the query occurs in its
/// name, abbreviation, country code or confederation code.
pub open spec fn team_shown(q: (Seq<CountriesFilter>, bool, Seq<char>), t: Team) -> bool {
    let (country_filters, favorite_only, search) = q;
    let q = search_text(search);
    &&& confederation_selected(country_filters, t.confederation)
    &&& (!favorite_only || t.favorite)
    &&& (q.len() == 0 || matches_query(t.name@, q) || matches_query(t.abbreviation@, q)
        || matches_query(t.country_code@, q) || matches_query(
        confederation_code(t.confederation),
        q,
    ))
}

/// What the countries screen's list depends on besides the sort order.
pub open spec fn team_query(v: AppView) -> (Seq<CountriesFilter>, bool, Seq<char>) {
    (v.country_filters, v.favorite_only, v.search_query)
}

/// What the matches screen's list depends on.
pub open spec fn match_query(v: AppView) -> (MatchesFilter, Seq<StandingsFilter>, bool, Seq<char>) {
    (v.matches_filter, v.match_groups, v.favorite_only, v.search_query)
}

/// What the standings screen's list depends on besides the sort order.
pub open spec fn standing_query(v: AppView) -> (Seq<StandingsFilter>, bool, Seq<char>) {
    (v.standing_groups, v.favorite_only, v.search_query)
}

/// The positions `0..n` that satisfy `keep`, in increasing order.
pub open spec fn kept_positions(n: nat, keep: spec_fn(int) -> bool) -> Seq<usize>
    decreases n,
{
    if n == 0 {
        Seq::empty()
    } else {
        let before = kept_positions((n - 1) as nat, keep);
        if keep(n - 1) {
            before.push((n - 1) as usize)
        } else {
            before
        }
    }
}

pub proof fn lemma_kept_positions(n: nat, keep: spec_fn(int) -> bool)
    requires
        n <= usize::MAX,
    ensures
        forall|k: int| 0 <= k < kept_positions(n, keep).len() ==> #[trigger] kept_positions(n, keep)[k] < n,
        forall|a: int, b: int|
            0 <= a < b < kept_positions(n, keep).len() ==> kept_positions(n, keep)[a] < kept_positions(
                n,
                keep,
            )[b],
        forall|x: usize| kept_positions(n, keep).contains(x) <==> (x < n && keep(x as int)),
    decreases n,
{
    if n > 0 {
        lemma_kept_positions((n - 1) as nat, keep);
        let before = kept_positions((n - 1) as nat, keep);
        let now = kept_positions(n, keep);
        assert(now == (if keep(n - 1) {
            before.push((n - 1) as usize)
        } else {
            before
        }));
        assert forall|a: int, b: int| 0 <= a < b < now.len() implies now[a] < now[b] by {
            if keep(n - 1) && b == before.len() {
                assert(before[a] < n - 1);
            }
        }
        assert forall|x: usize| now.contains(x) <==> (x < n && keep(x as int)) by {
            if keep(n - 1) {
                assert(now == before.push((n - 1) as usize));
                if now.contains(x) {
                    let k = choose|k: int| 0 <= k < now.len() && now[k] == x;
                    if k < before.len() {
                        assert(before[k] == x);
                        assert(before.contains(x));
                    }
                }
                if before.contains(x) {
                    let k = choose|k: int| 0 <= k < before.len() && before[k] == x;
                    assert(now[k] == x);
                }
                if x == n - 1 {
                    assert(now[before.len() as int] == x);
                }
            } else {
                assert(now == before);
            }
        }
    }
}

pub open spec fn team_keys(teams: Seq<Team>) -> Seq<Seq<i128>> {
    teams.map_values(|t: Team| text_key(lowercase(t.name@)))
}

/// The order in which the countries screen lists the teams: the teams it
/// shows, by lower-cased name (descending when so sorted), teams with the
/// same name in their loaded order.
pub open spec fn team_order_ok(v: AppView, teams: Seq<Team>, order: Seq<usize>) -> bool {
    sorted_selection(
        team_keys(teams),
        v.countries_sort == SortOrder::Desc,
        kept_positions(teams.len(), |i: int| team_shown(team_query(v), teams[i])),
        order,
    )
}

pub open spec fn match_keys(matches: Seq<Match>) -> Seq<Seq<i128>> {
    matches.map_values(|m: Match| seq![m.utc_start@ as i128, m.match_number as i128])
}

/// The date filter lets a match through: any date, the local date of today,
/// kick-off before now, or kick-off after now.
pub open spec fn date_selected(filter: MatchesFilter, kickoff: int, day: LocalDate, now: int, today: LocalDate) -> bool {
    match filter {
        MatchesFilter::All => true,
        MatchesFilter::Today => day == today,
        MatchesFilter::Past => kickoff < now,
        MatchesFilter::Future => kickoff > now,
    }
}

/// Whether one of a match's teams is a favourite.
pub open spec fn has_favorite_side(teams: Seq<Team>, m: Match) -> bool {
    exists|i: int|
        0 <= i < teams.len() && #[trigger] teams[i].favorite && (team_view(m.home_team_id) == Some(
            teams[i].id@,
        ) || team_view(m.away_team_id) == Some(teams[i].id@))
}

pub open spec fn team_view(o: Option<TeamId>) -> Option<Seq<char>> {
    match o {
        Some(t) => Some(t@),
        None => None,
    }
}

pub open spec fn match_group_view(m: Match) -> Option<Seq<char>> {
    match m.group_id {
        Some(g) => Some(g@),
        None => None,
    }
}

/// The matches screen lists a match when its date passes the date filter,
/// its group the group filters, it involves a favourite if only favourites
/// are shown, and the query occurs in a team name, the group, the stage or
/// the stadium.
pub open spec fn match_shown(
    mq: (MatchesFilter, Seq<StandingsFilter>, bool, Seq<char>),
    teams: Seq<Team>,
    m: Match,
    day: LocalDate,
    now: int,
    today: LocalDate,
) -> bool {
    let (matches_filter, match_groups, favorite_only, search) = mq;
    let q = search_text(search);
    &&& date_selected(matches_filter, m.utc_start@, day, now, today)
    &&& group_selected(match_groups, match_group_view(m))
    &&& (!favorite_only || has_favorite_side(teams, m))
    &&& (q.len() == 0 || matches_query(m.home_team_name@, q) || matches_query(m.away_team_name@, q)
        || optional_matches_query(text_option_view(m.group_name), q) || matches_query(
        m.stage_name@,
        q,
    ) || optional_matches_query(text_option_view(m.stadium_name), q))
}

/// The order in which the matches screen lists the matches: the matches it
/// shows by kick-off and then number, latest first for past matches.
pub open spec fn match_order_ok(
    v: AppView,
    data: AppSnapshot,
    days: Seq<LocalDate>,
    now: int,
    today: LocalDate,
    order: Seq<usize>,
) -> bool {
    let matches = data.matches@;
    let selected = kept_positions(
        matches.len(),
        |i: int| match_shown(match_query(v), data.teams@, matches[i], days[i], now, today),
    );
    if v.matches_filter == MatchesFilter::Past {
        sorted_selection(match_keys(matches), false, selected, order.reverse())
    } else {
        sorted_selection(match_keys(matches), false, selected, order)
    }
}

/// Position of a group's identifier among the groups, A first; unknown
/// identifiers sort last.
pub open spec fn group_rank(group_id: Seq<char>) -> int {
    if exists|g: Group| group_id_text(g) == group_id {
        group_index(choose|g: Group| group_id_text(g) == group_id)
    } else {
        usize::MAX as int
    }
}

pub open spec fn standing_keys(rows: Seq<StandingRow>, desc: bool) -> Seq<Seq<i128>> {
    rows.map_values(
        |r: StandingRow|
            seq![
                (if desc {
                    -group_rank(r.group_id@)
                } else {
                    group_rank(r.group_id@)
                }) as i128,
                r.position as i128,
            ] + text_key(lowercase(r.team_name@)),
    )
}

/// The standings screen lists a row when its group passes the group
/// filters, its team is a favourite if only favourites are shown, and the
/// query occurs in the team or group name.
pub open spec fn standing_shown(sq: (Seq<StandingsFilter>, bool, Seq<char>), teams: Seq<Team>, r: StandingRow) -> bool {
    let (standing_groups, favorite_only, search) = sq;
    let q = search_text(search);
    &&& group_selected(standing_groups, Some(r.group_id@))
    &&& (!favorite_only || is_favorite_team(teams, r.team_id@))
    &&& (q.len() == 0 || matches_query(r.team_name@, q) || matches_query(r.group_name@, q))
}

/// The order in which the standings screen lists its rows: by group (in the
/// chosen direction), then position, then lower-cased team name.
pub open spec fn standing_order_ok(v: AppView, data: AppSnapshot, order: Seq<usize>) -> bool {
    let rows = data.standings@;
    sorted_selection(
        standing_keys(rows, v.standings_sort == SortOrder::Desc),
        false,
        kept_positions(rows.len(), |i: int| standing_shown(standing_query(v), data.teams@, rows[i])),
        order,
    )
}

/// Whether row `a` may come before row `b` in the standings table: groups
/// in order (reversed when descending), positions rising within a group.
pub open spec fn standings_in_order(a: StandingRow, b: StandingRow, desc: bool) -> bool {
    let ga = group_rank(a.group_id@);
    let gb = group_rank(b.group_id@);
    &&& if desc {
        ga >= gb
    } else {
        ga <= gb
    }
    &&& ga == gb ==> a.position <= b.position
}

proof fn lemma_group_rank_bounds(id: Seq<char>)
    ensures
        0 <= group_rank(id) <= usize::MAX,
{
    if exists|g: Group| group_id_text(g) == id {
        let g = choose|g: Group| group_id_text(g) == id;
        assert(0 <= group_index(g) <= 11);
    }
}

proof fn lemma_standings_in_order(rows: Seq<StandingRow>, desc: bool, sel: Seq<usize>, o: Seq<usize>)
    requires
        sorted_selection(standing_keys(rows, desc), false, sel, o),
        forall|k: int| 0 <= k < o.len() ==> #[trigger] o[k] < rows.len(),
    ensures
        forall|k: int, l: int|
            0 <= k < l < o.len() ==> standings_in_order(rows[#[trigger] o[k] as int], rows[#[trigger] o[l] as int], desc),
{
    assert forall|k: int, l: int| 0 <= k < l < o.len() implies standings_in_order(
        rows[#[trigger] o[k] as int],
        rows[#[trigger] o[l] as int],
        desc,
    ) by {
        let keys = standing_keys(rows, desc);
        let i = o[k] as int;
        let j = o[l] as int;
        assert(ranked_before(keys, false, i, j));
        let a = rows[i];
        let b = rows[j];
        let ga = group_rank(a.group_id@);
        let gb = group_rank(b.group_id@);
        lemma_group_rank_bounds(a.group_id@);
        lemma_group_rank_bounds(b.group_id@);
        let ki = keys[i];
        let kj = keys[j];
        assert(ki[0] == (if desc { -ga } else { ga }) as i128);
        assert(kj[0] == (if desc { -gb } else { gb }) as i128);
        assert(ki[1] == a.position as i128);
        assert(kj[1] == b.position as i128);
        assert(ki.drop_first()[0] == ki[1]);
        assert(kj.drop_first()[0] == kj[1]);
        reveal_with_fuel(key_less, 3);
    }
}

/// The teams the countries screen lists, by position, in order.
pub open spec fn team_list(v: AppView, teams: Seq<Team>) -> Seq<usize> {
    sorted_order(
        team_keys(teams),
        v.countries_sort == SortOrder::Desc,
        kept_positions(teams.len(), |i: int| team_shown(team_query(v), teams[i])),
    )
}

/// The matches the matches screen lists, by position, in order.
pub open spec fn match_list(
    v: AppView,
    data: AppSnapshot,
    days: Seq<LocalDate>,
    now: int,
    today: LocalDate,
) -> Seq<usize> {
    let matches = data.matches@;
    let o = sorted_order(
        match_keys(matches),
        false,
        kept_positions(
            matches.len(),
            |i: int| match_shown(match_query(v), data.teams@, matches[i], days[i], now, today),
        ),
    );
    if v.matches_filter == MatchesFilter::Past {
        o.reverse()
    } else {
        o
    }
}

/// The standing rows the standings screen lists, by position, in order.
pub open spec fn standing_list(v: AppView, data: AppSnapshot) -> Seq<usize> {
    let rows = data.standings@;
    sorted_order(
        standing_keys(rows, v.standings_sort == SortOrder::Desc),
        false,
        kept_positions(rows.len(), |i: int| standing_shown(standing_query(v), data.teams@, rows[i])),
    )
}

fn text_key_exec(s: &str) -> (r: Vec<i128>)
    ensures
        r@ == text_key(s@),
{
    let chars = chars_of(s);
    let mut r: Vec<i128> = Vec::new();
    let mut i: usize = 0;
    while i < chars.len()
        invariant
            i <= chars@.len(),
            chars@ == s@,
            r@ == text_key(chars@.take(i as int)),
        decreases chars@.len() - i,
    {
        r.push(chars[i] as u32 as i128);
        assert(text_key(chars@.take(i + 1)) =~= text_key(chars@.take(i as int)).push(chars@[i as int] as u32 as i128));
        i = i + 1;
    }
    assert(chars@.take(i as int) =~= chars@);
    r
}

fn query_matches(value: &str, query: &str) -> (r: bool)
    ensures
        r == matches_query(value@, query@),
{
    let lower = to_lowercase(value);
    let hay = chars_of(lower.as_str());
    let needle = chars_of(query);
    contains_chars(hay.as_slice(), needle.as_slice())
}

fn optional_query_matches(value: &Option<String>, query: &str) -> (r: bool)
    ensures
        r == optional_matches_query(text_option_view(*value), query@),
{
    match value {
        Some(v) => query_matches(v.as_str(), query),
        None => false,
    }
}

fn confederation_passes(filters: &Vec<CountriesFilter>, c: Confederation) -> (r: bool)
    ensures
        r == confederation_selected(filters@, c),
{
    if filters.len() == 0 {
        return true;
    }
    let mut i: usize = 0;
    while i < filters.len()
        invariant
            i <= filters@.len(),
            forall|k: int| 0 <= k < i ==> #[trigger] countries_filter_confederation(filters@[k]) != Some(c),
        decreases filters@.len() - i,
    {
        match filters[i].confederation() {
            Some(x) => {
                if x == c {
                    assert(countries_filter_confederation(filters@[i as int]) == Some(c));
                    return true;
                }
            },
            None => {},
        }
        i = i + 1;
    }
    false
}

fn group_passes(filters: &Vec<StandingsFilter>, group_id: &Option<GroupId>) -> (r: bool)
    ensures
        r == group_selected(
            filters@,
            match group_id {
                Some(g) => Some(g@),
                None => None,
            },
        ),
{
    if filters.len() == 0 {
        return true;
    }
    let ghost gv = match group_id {
        Some(g) => Some(g@),
        None => None::<Seq<char>>,
    };
    let mut i: usize = 0;
    while i < filters.len()
        invariant
            i <= filters@.len(),
            gv == (match group_id {
                Some(g) => Some(g@),
                None => None::<Seq<char>>,
            }),
            forall|k: int| 0 <= k < i ==> !#[trigger] filter_selects_group(filters@[k], gv),
        decreases filters@.len() - i,
    {
        match filters[i].group_id() {
            Some(id) => {
                match group_id {
                    Some(g) => {
                        if id == *g {
                            assert(filter_selects_group(filters@[i as int], gv));
                            return true;
                        }
                    },
                    None => {},
                }
            },
            None => {},
        }
        i = i + 1;
    }
    false
}

fn favorite_team(teams: &Vec<Team>, id: &TeamId) -> (r: bool)
    ensures
        r == is_favorite_team(teams@, id@),
{
    let mut i: usize = 0;
    while i < teams.len()
        invariant
            i <= teams@.len(),
            forall|k: int| 0 <= k < i ==> !(#[trigger] teams@[k].favorite && teams@[k].id@ == id@),
        decreases teams@.len() - i,
    {
        if teams[i].favorite && teams[i].id == *id {
            return true;
        }
        i = i + 1;
    }
    false
}

fn favorite_side(teams: &Vec<Team>, m: &Match) -> (r: bool)
    ensures
        r == has_favorite_side(teams@, *m),
{
    let mut i: usize = 0;
    while i < teams.len()
        invariant
            i <= teams@.len(),
            forall|k: int|
                0 <= k < i ==> !(#[trigger] teams@[k].favorite && (team_view(m.home_team_id) == Some(
                    teams@[k].id@,
                ) || team_view(m.away_team_id) == Some(teams@[k].id@))),
        decreases teams@.len() - i,
    {
        let t = &teams[i];
        if t.favorite {
            let home = match &m.home_team_id {
                Some(h) => *h == t.id,
                None => false,
            };
            let away = match &m.away_team_id {
                Some(a) => *a == t.id,
                None => false,
            };
            if home || away {
                return true;
            }
        }
        i = i + 1;
    }
    false
}

fn reversed(v: Vec<usize>) -> (r: Vec<usize>)
    ensures
        r@ == v@.reverse(),
{
    let mut r: Vec<usize> = Vec::new();
    let mut i: usize = v.len();
    while i > 0
        invariant
            i <= v@.len(),
            r@ == v@.skip(i as int).reverse(),
        decreases i,
    {
        i = i - 1;
        r.push(v[i]);
        assert(v@.skip(i as int).reverse() =~= v@.skip(i + 1).reverse().push(v@[i as int]));
    }
    assert(v@.skip(0) =~= v@);
    r
}

/// Position of a group in the group order, A first; `usize::MAX` for an
/// identifier that is no group's.
fn standing_group_sort_key(group_id: &GroupId) -> (r: usize)
    ensures
        r as int == group_rank(group_id@),
{
    let groups = Group::all();
    let mut i: usize = 0;
    while i < 12
        invariant
            i <= 12,
            groups@ == crate::domain::tournament::all_groups(),
            forall|k: int| 0 <= k < i ==> group_id_text(#[trigger] groups@[k]) != group_id@,
        decreases 12 - i,
    {
        let id = groups[i].id();
        if id == *group_id {
            proof {
                let g = groups@[i as int];
                let c = choose|x: Group| group_id_text(x) == group_id@;
                crate::domain::tournament::group_id_round_trip(g, c);
                assert(group_index(g) == i) by {
                    match g {
                        Group::A => {},
                        Group::B => {},
                        Group::C => {},
                        Group::D => {},
                        Group::E => {},
                        Group::F => {},
                        Group::G => {},
                        Group::H => {},
                        Group::I => {},
                        Group::J => {},
                        Group::K => {},
                        Group::L => {},
                    }
                }
            }
            return i;
        }
        i = i + 1;
    }
    proof {
        assert forall|g: Group| group_id_text(g) != group_id@ by {
            assert(groups@[group_index(g)] == g);
        }
    }
    usize::MAX
}

impl App {
    /// The positions of the teams the countries screen lists, in the order it
    /// lists them.
    pub fn visible_team_order(&self) -> (r: Vec<usize>)
        ensures
            team_order_ok(self@, self.data().teams@, r@),
            r@ == self.teams_listed(),
    {
        let q = self.normalized_search_query();
        let teams = &self.snapshot.teams;
        let ghost keep = |i: int| team_shown(team_query(self@), teams@[i]);
        let mut keys: Vec<Vec<i128>> = Vec::new();
        let mut selected: Vec<usize> = Vec::new();
        let mut i: usize = 0;
        while i < teams.len()
            invariant
                i <= teams@.len(),
                teams == &self.snapshot.teams,
                q@ == query_of(self@),
                keep == (|i: int| team_shown(team_query(self@), teams@[i])),
                keys@.len() == i,
                forall|k: int| 0 <= k < i ==> #[trigger] keys@[k]@ == team_keys(teams@)[k],
                selected@ == kept_positions(i as nat, keep),
            decreases teams@.len() - i,
        {
            let t = &teams[i];
            let lower = to_lowercase(t.name.as_str());
            keys.push(text_key_exec(lower.as_str()));
            let shown = confederation_passes(&self.country_filters, t.confederation)
                && (!self.favorite_only || t.favorite)
                && (q.as_str().is_empty() || query_matches(t.name.as_str(), q.as_str())
                    || query_matches(t.abbreviation.as_str(), q.as_str())
                    || query_matches(t.country_code.as_str(), q.as_str())
                    || query_matches(t.confederation.code(), q.as_str()));
            assert(shown == keep(i as int));
            if shown {
                selected.push(i);
            }
            i = i + 1;
        }
        proof {
            lemma_kept_positions(teams@.len(), keep);
            assert(crate::order::key_views(keys@) =~= team_keys(teams@));
        }
        let r = sort_indices(&keys, self.countries_sort == SortOrder::Desc, &selected);
        proof {
            lemma_sorted_order(team_keys(teams@), self.countries_sort == SortOrder::Desc, selected@, r@);
        }
        r
    }

    /// The teams the countries screen lists, in order.
    pub fn visible_teams(&self) -> (r: Vec<&Team>)
        ensures
            exists|order: Seq<usize>|
                team_order_ok(self@, self.data().teams@, order) && r@.len() == order.len() && forall|k: int|
                    0 <= k < order.len() ==> order[k] < self.data().teams@.len() && *#[trigger] r@[k]
                        == self.data().teams@[order[k] as int],
    {
        let order = self.visible_team_order();
        let mut r: Vec<&Team> = Vec::new();
        let mut k: usize = 0;
        let n = self.snapshot.teams.len();
        proof {
            let sel = kept_positions(self.snapshot.teams@.len(), |i: int| team_shown(team_query(self@), self.snapshot.teams@[i]));
            lemma_kept_positions(self.snapshot.teams@.len(), |i: int| team_shown(team_query(self@), self.snapshot.teams@[i]));
            assert forall|j: int| 0 <= j < order@.len() implies order@[j] < self.snapshot.teams@.len() by {
                assert(order@.contains(order@[j]));
                assert(sel.contains(order@[j]));
            }
        }
        while k < order.len()
            invariant
                k <= order@.len(),
                forall|j: int| 0 <= j < order@.len() ==> order@[j] < self.snapshot.teams@.len(),
                r@.len() == k,
                forall|j: int| 0 <= j < k ==> *#[trigger] r@[j] == self.snapshot.teams@[order@[j] as int],
            decreases order@.len() - k,
        {
            r.push(&self.snapshot.teams[order[k]]);
            k = k + 1;
        }
        r
    }
}

fn date_passes(filter: MatchesFilter, kickoff: &Timestamp, day: LocalDate, now: &Timestamp, today: LocalDate) -> (r: bool)
    ensures
        r == date_selected(filter, kickoff@, day, now@, today),
{
    match filter {
        MatchesFilter::All => true,
        MatchesFilter::Today => day == today,
        MatchesFilter::Past => kickoff.is_before(now),
        MatchesFilter::Future => kickoff.is_after(now),
    }
}

impl App {
    fn match_passes(&self, q: &String, i: usize) -> (r: bool)
        requires
            self.wf(),
            i < self.data().matches@.len(),
            q@ == query_of(self@),
        ensures
            r == match_shown(match_query(self@),
                self.data().teams@,
                self.data().matches@[i as int],
                self.match_days_spec()[i as int],
                self.clock(),
                self.today_spec(),
            ),
    {
        let m = &self.snapshot.matches[i];
        date_passes(self.matches_filter, &m.utc_start, self.match_days[i], &self.now, self.today)
            && group_passes(&self.match_groups, &m.group_id)
            && (!self.favorite_only || favorite_side(&self.snapshot.teams, m))
            && (q.as_str().is_empty() || query_matches(m.home_team_name.as_str(), q.as_str())
                || query_matches(m.away_team_name.as_str(), q.as_str())
                || optional_query_matches(&m.group_name, q.as_str())
                || query_matches(m.stage_name.as_str(), q.as_str())
                || optional_query_matches(&m.stadium_name, q.as_str()))
    }

    /// The positions of the matches the matches screen lists, in the order
    /// it lists them.
    pub fn visible_match_order(&self) -> (r: Vec<usize>)
        requires
            self.wf(),
        ensures
            r@ == self.matches_listed(),
            match_order_ok(
                self@,
                self.data(),
                self.match_days_spec(),
                self.clock(),
                self.today_spec(),
                r@,
            ),
    {
        let q = self.normalized_search_query();
        let matches = &self.snapshot.matches;
        let ghost keep = |i: int|
            match_shown(match_query(self@),
                self.snapshot.teams@,
                matches@[i],
                self.match_days@[i],
                self.now@,
                self.today,
            );
        let mut keys: Vec<Vec<i128>> = Vec::new();
        let mut selected: Vec<usize> = Vec::new();
        let mut i: usize = 0;
        while i < matches.len()
            invariant
                self.wf(),
                i <= matches@.len(),
                matches == &self.snapshot.matches,
                q@ == query_of(self@),
                keep == (|i: int|
                    match_shown(match_query(self@),
                        self.snapshot.teams@,
                        matches@[i],
                        self.match_days@[i],
                        self.now@,
                        self.today,
                    )),
                keys@.len() == i,
                forall|k: int| 0 <= k < i ==> #[trigger] keys@[k]@ == match_keys(matches@)[k],
                selected@ == kept_positions(i as nat, keep),
            decreases matches@.len() - i,
        {
            let m = &matches[i];
            let key: Vec<i128> = vec![m.utc_start.as_nanosecond(), m.match_number as i128];
            assert(key@ =~= match_keys(matches@)[i as int]);
            keys.push(key);
            let shown = self.match_passes(&q, i);
            if shown {
                selected.push(i);
            }
            i = i + 1;
        }
        proof {
            lemma_kept_positions(matches@.len(), keep);
            assert(crate::order::key_views(keys@) =~= match_keys(matches@));
        }
        let order = sort_indices(&keys, false, &selected);
        proof {
            lemma_sorted_order(match_keys(matches@), false, selected@, order@);
        }
        if self.matches_filter == MatchesFilter::Past {
            let r = reversed(order);
            assert(r@.reverse() =~= order@);
            r
        } else {
            order
        }
    }

    fn standing_passes(&self, q: &String, i: usize) -> (r: bool)
        requires
            i < self.data().standings@.len(),
            q@ == query_of(self@),
        ensures
            r == standing_shown(standing_query(self@), self.data().teams@, self.data().standings@[i as int]),
    {
        let row = &self.snapshot.standings[i];
        let gid = Some(row.group_id.clone());
        group_passes(&self.standing_groups, &gid)
            && (!self.favorite_only || favorite_team(&self.snapshot.teams, &row.team_id))
            && (q.as_str().is_empty() || query_matches(row.team_name.as_str(), q.as_str())
                || query_matches(row.group_name.as_str(), q.as_str()))
    }

    /// The positions of the standing rows the standings screen lists, in the
    /// order it lists them.
    pub fn visible_standing_order(&self) -> (r: Vec<usize>)
        ensures
            r@ == self.standings_listed(),
            standing_order_ok(self@, self.data(), r@),
    {
        let q = self.normalized_search_query();
        let rows = &self.snapshot.standings;
        let desc = self.standings_sort == SortOrder::Desc;
        let ghost keep = |i: int| standing_shown(standing_query(self@), self.snapshot.teams@, rows@[i]);
        let mut keys: Vec<Vec<i128>> = Vec::new();
        let mut selected: Vec<usize> = Vec::new();
        let mut i: usize = 0;
        while i < rows.len()
            invariant
                i <= rows@.len(),
                rows == &self.snapshot.standings,
                q@ == query_of(self@),
                desc == (self@.standings_sort == SortOrder::Desc),
                keep == (|i: int| standing_shown(standing_query(self@), self.snapshot.teams@, rows@[i])),
                keys@.len() == i,
                forall|k: int| 0 <= k < i ==> #[trigger] keys@[k]@ == standing_keys(rows@, desc)[k],
                selected@ == kept_positions(i as nat, keep),
            decreases rows@.len() - i,
        {
            let row = &rows[i];
            let rank = standing_group_sort_key(&row.group_id) as i128;
            let group_part: i128 = if desc {
                -rank
            } else {
                rank
            };
            let mut key: Vec<i128> = vec![group_part, row.position as i128];
            let lower = to_lowercase(row.team_name.as_str());
            let mut name_key = text_key_exec(lower.as_str());
            let ghost head = key@;
            key.append(&mut name_key);
            assert(key@ =~= standing_keys(rows@, desc)[i as int]);
            keys.push(key);
            let shown = self.standing_passes(&q, i);
            if shown {
                selected.push(i);
            }
            i = i + 1;
        }
        proof {
            lemma_kept_positions(rows@.len(), keep);
            assert(crate::order::key_views(keys@) =~= standing_keys(rows@, desc));
        }
        let r = sort_indices(&keys, false, &selected);
        proof {
            lemma_sorted_order(standing_keys(rows@, desc), false, selected@, r@);
        }
        r
    }
}

// ---------------------------------------------------------------------------
// Lookups and selections

/// The ASCII letters of `s`, in order.
pub open spec fn ascii_letters(s: Seq<char>) -> Seq<char>
    decreases s.len(),
{
    if s.len() == 0 {
        s
    } else if crate::text::is_ascii_letter(s.last()) {
        ascii_letters(s.drop_last()).push(s.last())
    } else {
        ascii_letters(s.drop_last())
    }
}

/// A code for a team that is not loaded: the first three ASCII letters of
/// its name, upper-cased, or `TBD` when the name has none.
pub open spec fn fallback_code_text(name: Seq<char>) -> Seq<char> {
    let letters = ascii_letters(name);
    if letters.len() == 0 {
        "TBD"@
    } else {
        crate::text::ascii_uppercase(letters.take(if letters.len() < 3 { letters.len() as int } else { 3 }))
    }
}

pub fn fallback_code(value: &str) -> (r: String)
    ensures
        r@ == fallback_code_text(value@),
{
    let chars = chars_of(value);
    let mut letters: Vec<char> = Vec::new();
    let mut i: usize = 0;
    while i < chars.len()
        invariant
            i <= chars@.len(),
            chars@ == value@,
            letters@ == ascii_letters(chars@.take(i as int)),
        decreases chars@.len() - i,
    {
        assert(chars@.take(i + 1).drop_last() =~= chars@.take(i as int));
        if crate::text::is_ascii_letter_char(chars[i]) {
            letters.push(chars[i]);
        }
        i = i + 1;
    }
    assert(chars@.take(i as int) =~= chars@);
    if letters.len() == 0 {
        return owned("TBD");
    }
    let mut first: Vec<char> = Vec::new();
    let mut k: usize = 0;
    while k < letters.len() && k < 3
        invariant
            k <= letters@.len(),
            k <= 3,
            first@ == letters@.take(k as int),
        decreases 3 - k,
    {
        first.push(letters[k]);
        assert(letters@.take(k + 1) =~= letters@.take(k as int).push(letters@[k as int]));
        k = k + 1;
    }
    let upper = crate::text::ascii_uppercase_chars(first.as_slice());
    crate::text::string_from_chars(upper.as_slice())
}

/// The first position in `teams` of the team with identifier `id`.
pub open spec fn team_position(teams: Seq<Team>, id: Seq<char>) -> Option<int>
    decreases teams.len(),
{
    if teams.len() == 0 {
        None
    } else {
        match team_position(teams.drop_last(), id) {
            Some(p) => Some(p),
            None => if teams.last().id@ == id {
                Some(teams.len() - 1)
            } else {
                None
            },
        }
    }
}

/// The first position in `matches` of the match numbered `number`.
pub open spec fn match_position_by_number(matches: Seq<Match>, number: u16) -> Option<int>
    decreases matches.len(),
{
    if matches.len() == 0 {
        None
    } else {
        match match_position_by_number(matches.drop_last(), number) {
            Some(p) => Some(p),
            None => if matches.last().match_number == number {
                Some(matches.len() - 1)
            } else {
                None
            },
        }
    }
}

/// The first position in `rows` of the row of `group` at `position`.
pub open spec fn standing_position(rows: Seq<StandingRow>, group: Group, position: u8) -> Option<int>
    decreases rows.len(),
{
    if rows.len() == 0 {
        None
    } else {
        match standing_position(rows.drop_last(), group, position) {
            Some(p) => Some(p),
            None => if rows.last().group_id@ == group_id_text(group) && rows.last().position
                == position {
                Some(rows.len() - 1)
            } else {
                None
            },
        }
    }
}

/// The code shown for a team: its loaded abbreviation, or a code made from
/// `fallback`.
pub open spec fn team_code_text(teams: Seq<Team>, team_id: Option<Seq<char>>, fallback: Seq<char>) -> Seq<char> {
    match team_id {
        Some(id) => match team_position(teams, id) {
            Some(p) => teams[p].abbreviation@,
            None => fallback_code_text(fallback),
        },
        None => fallback_code_text(fallback),
    }
}

pub open spec fn ref_team_view(o: Option<&TeamId>) -> Option<Seq<char>> {
    match o {
        Some(t) => Some(t@),
        None => None,
    }
}

/// The entry a cursor selects in a list: the one under the cursor, or the
/// last one when the cursor is past the end.
pub open spec fn selected_entry(list: Seq<usize>, cursor: usize) -> Option<usize> {
    if list.len() == 0 {
        None
    } else if cursor < list.len() {
        Some(list[cursor as int])
    } else {
        Some(list.last())
    }
}

pub open spec fn match_status_text(status: MatchStatus) -> Seq<char> {
    match status {
        MatchStatus::Scheduled => "scheduled"@,
        MatchStatus::Live => "live"@,
        MatchStatus::FullTime => "full-time"@,
        MatchStatus::ExtraTime => "extra-time"@,
        MatchStatus::Penalties => "penalties"@,
        MatchStatus::Postponed => "postponed"@,
        MatchStatus::Cancelled => "cancelled"@,
        MatchStatus::Unknown(_) => "unknown"@,
    }
}

/// Identifiers of the groups among `rows`, each run of equal identifiers
/// taken once.
pub open spec fn group_runs(ids: Seq<Seq<char>>) -> Seq<Seq<char>>
    decreases ids.len(),
{
    if ids.len() == 0 {
        Seq::empty()
    } else {
        let before = group_runs(ids.drop_last());
        if before.len() > 0 && before.last() == ids.last() {
            before
        } else {
            before.push(ids.last())
        }
    }
}

proof fn lemma_order_bounds(keys: Seq<Seq<i128>>, desc: bool, n: nat, keep: spec_fn(int) -> bool, o: Seq<usize>)
    requires
        n <= usize::MAX,
        sorted_selection(keys, desc, kept_positions(n, keep), o),
    ensures
        forall|k: int| 0 <= k < o.len() ==> #[trigger] o[k] < n,
        forall|k: int| 0 <= k < o.reverse().len() ==> #[trigger] o.reverse()[k] < n,
{
    lemma_kept_positions(n, keep);
    assert forall|k: int| 0 <= k < o.len() implies #[trigger] o[k] < n by {
        assert(o.contains(o[k]));
    }
    assert forall|k: int| 0 <= k < o.reverse().len() implies #[trigger] o.reverse()[k] < n by {
        assert(o.reverse()[k] == o[o.len() - 1 - k]);
    }
}

fn refs_at<'a, T>(items: &'a Vec<T>, order: &Vec<usize>) -> (r: Vec<&'a T>)
    requires
        forall|k: int| 0 <= k < order@.len() ==> #[trigger] order@[k] < items@.len(),
    ensures
        r@.len() == order@.len(),
        forall|k: int| 0 <= k < order@.len() ==> *#[trigger] r@[k] == items@[order@[k] as int],
{
    let mut r: Vec<&'a T> = Vec::new();
    let mut k: usize = 0;
    while k < order.len()
        invariant
            k <= order@.len(),
            forall|j: int| 0 <= j < order@.len() ==> #[trigger] order@[j] < items@.len(),
            r@.len() == k,
            forall|j: int| 0 <= j < k ==> *#[trigger] r@[j] == items@[order@[j] as int],
        decreases order@.len() - k,
    {
        r.push(&items[order[k]]);
        k = k + 1;
    }
    r
}

impl App {
    proof fn lemma_team_list_bounds(&self)
        requires
            self.data().teams@.len() <= usize::MAX,
            team_order_ok(self@, self.data().teams@, self.teams_listed()),
        ensures
            forall|k: int| 0 <= k < self.teams_listed().len() ==> #[trigger] self.teams_listed()[k] < self.data().teams@.len(),
    {
        lemma_order_bounds(
            team_keys(self.snapshot.teams@),
            self@.countries_sort == SortOrder::Desc,
            self.snapshot.teams@.len(),
            |i: int| team_shown(team_query(self@), self.snapshot.teams@[i]),
            self.teams_listed(),
        );
    }

    /// The teams the countries screen lists, in order.
    pub fn visible_teams_in_order(&self) -> (r: Vec<&Team>)
        ensures
            r@.len() == self.teams_listed().len(),
            forall|k: int| 0 <= k < r@.len() ==> *#[trigger] r@[k] == self.data().teams@[self.teams_listed()[k] as int],
    {
        let order = self.visible_team_order();
        let n = self.snapshot.teams.len();
        proof {
            self.lemma_team_list_bounds();
        }
        refs_at(&self.snapshot.teams, &order)
    }

    /// The matches the matches screen lists, in order.
    pub fn visible_matches(&self) -> (r: Vec<&Match>)
        requires
            self.wf(),
        ensures
            r@.len() == self.matches_listed().len(),
            forall|k: int| 0 <= k < r@.len() ==> self.matches_listed()[k] < self.data().matches@.len() && *#[trigger] r@[k] == self.data().matches@[self.matches_listed()[k] as int],
    {
        let order = self.visible_match_order();
        let n = self.snapshot.matches.len();
        proof {
            let matches = self.snapshot.matches@;
            let keep = |i: int| match_shown(match_query(self@), self.snapshot.teams@, matches[i], self.match_days@[i], self.now@, self.today);
            let sel = kept_positions(matches.len(), keep);
            let o = sorted_order(match_keys(matches), false, sel);
            if self.matches_filter == MatchesFilter::Past {
                assert(o.reverse().reverse() =~= o);
                assert(sorted_selection(match_keys(matches), false, sel, o));
            }
            lemma_order_bounds(match_keys(matches), false, n as nat, keep, o);
        }
        refs_at(&self.snapshot.matches, &order)
    }

    /// The standing rows the standings screen lists, in order.
    pub fn visible_standings(&self) -> (r: Vec<&StandingRow>)
        ensures
            r@.len() == self.standings_listed().len(),
            forall|k: int| 0 <= k < r@.len() ==> self.standings_listed()[k] < self.data().standings@.len() && *#[trigger] r@[k] == self.data().standings@[self.standings_listed()[k] as int],
            forall|k: int, l: int|
                0 <= k < l < r@.len() ==> standings_in_order(*#[trigger] r@[k], *#[trigger] r@[l], self@.standings_sort == SortOrder::Desc),
    {
        let order = self.visible_standing_order();
        let n = self.snapshot.standings.len();
        proof {
            let rows = self.snapshot.standings@;
            lemma_order_bounds(
                standing_keys(rows, self@.standings_sort == SortOrder::Desc),
                false,
                n as nat,
                |i: int| standing_shown(standing_query(self@), self.snapshot.teams@, rows[i]),
                order@,
            );
            lemma_standings_in_order(
                rows,
                self@.standings_sort == SortOrder::Desc,
                kept_positions(rows.len(), |i: int| standing_shown(standing_query(self@), self.snapshot.teams@, rows[i])),
                order@,
            );
        }
        let r = refs_at(&self.snapshot.standings, &order);
        assert forall|k: int, l: int| 0 <= k < l < r@.len() implies standings_in_order(
            *#[trigger] r@[k],
            *#[trigger] r@[l],
            self@.standings_sort == SortOrder::Desc,
        ) by {
            assert(*r@[k] == self.snapshot.standings@[order@[k] as int]);
            assert(*r@[l] == self.snapshot.standings@[order@[l] as int]);
        }
        r
    }

    pub fn visible_team_count(&self) -> (r: usize)
        ensures
            r == self.teams_listed().len(),
    {
        self.visible_team_order().len()
    }

    pub fn visible_match_count(&self) -> (r: usize)
        requires
            self.wf(),
        ensures
            r == self.matches_listed().len(),
    {
        self.visible_match_order().len()
    }

    /// The team the countries screen has selected.
    pub fn selected_country(&self) -> (r: Option<&Team>)
        ensures
            match selected_entry(self.teams_listed(), self@.country_cursor) {
                Some(p) => p < self.data().teams@.len() && (r matches Some(t) && *t == self.data().teams@[p as int]),
                None => r is None,
            },
    {
        let order = self.visible_team_order();
        let n = self.snapshot.teams.len();
        proof {
            self.lemma_team_list_bounds();
        }
        if order.len() == 0 {
            return None;
        }
        let k = if self.country_cursor < order.len() {
            self.country_cursor
        } else {
            order.len() - 1
        };
        Some(&self.snapshot.teams[order[k]])
    }

    pub fn selected_country_id(&self) -> (r: Option<TeamId>)
        ensures
            match selected_entry(self.teams_listed(), self@.country_cursor) {
                Some(p) => r matches Some(id) && id@ == self.data().teams@[p as int].id@,
                None => r is None,
            },
    {
        match self.selected_country() {
            Some(t) => Some(t.id.clone()),
            None => None,
        }
    }

    /// The selected team's identifier and name, and whether it is a
    /// favourite.
    pub fn selected_country_action(&self) -> (r: Option<(TeamId, String, bool)>)
        ensures
            match selected_entry(self.teams_listed(), self@.country_cursor) {
                Some(p) => r matches Some(a) && a.0@ == self.data().teams@[p as int].id@ && a.1@
                    == self.data().teams@[p as int].name@ && a.2 == self.data().teams@[p as int].favorite,
                None => r is None,
            },
    {
        match self.selected_country() {
            Some(t) => Some((t.id.clone(), t.name.clone(), t.favorite)),
            None => None,
        }
    }

    /// The match the matches screen has selected.
    pub fn selected_match(&self) -> (r: Option<&Match>)
        requires
            self.wf(),
        ensures
            match selected_entry(self.matches_listed(), self@.match_cursor) {
                Some(p) => p < self.data().matches@.len() && (r matches Some(m) && *m == self.data().matches@[p as int]),
                None => r is None,
            },
    {
        let list = self.visible_matches();
        if list.len() == 0 {
            return None;
        }
        let k = if self.match_cursor < list.len() {
            self.match_cursor
        } else {
            list.len() - 1
        };
        Some(list[k])
    }

    pub fn selected_match_id(&self) -> (r: Option<MatchId>)
        requires
            self.wf(),
        ensures
            match selected_entry(self.matches_listed(), self@.match_cursor) {
                Some(p) => r matches Some(id) && id@ == self.data().matches@[p as int].id@,
                None => r is None,
            },
    {
        match self.selected_match() {
            Some(m) => Some(m.id.clone()),
            None => None,
        }
    }

    /// Whether the selected match has not started: it is scheduled and
    /// kicks off after the clock reading.
    pub fn selected_match_is_future(&self) -> (r: bool)
        requires
            self.wf(),
        ensures
            r == (match selected_entry(self.matches_listed(), self@.match_cursor) {
                Some(p) => self.data().matches@[p as int].status == MatchStatus::Scheduled
                    && self.data().matches@[p as int].utc_start@ > self.clock(),
                None => false,
            }),
    {
        match self.selected_match() {
            Some(m) => m.status == MatchStatus::Scheduled && m.utc_start.is_after(&self.now),
            None => false,
        }
    }

    /// The first loaded match numbered `match_number`.
    pub fn match_by_number(&self, match_number: u16) -> (r: Option<&Match>)
        ensures
            match match_position_by_number(self.data().matches@, match_number) {
                Some(p) => r matches Some(m) && *m == self.data().matches@[p],
                None => r is None,
            },
    {
        let matches = &self.snapshot.matches;
        let mut i: usize = 0;
        while i < matches.len()
            invariant
                i <= matches@.len(),
                matches == &self.snapshot.matches,
                match_position_by_number(matches@.take(i as int), match_number) is None,
            decreases matches@.len() - i,
        {
            assert(matches@.take(i + 1).drop_last() =~= matches@.take(i as int));
            if matches[i].match_number == match_number {
                proof {
                    lemma_position_by_number_prefix(matches@, i as int + 1, match_number);
                }
                return Some(&matches[i]);
            }
            i = i + 1;
        }
        assert(matches@.take(i as int) =~= matches@);
        None
    }

    /// The first standing row of `group` at `position`.
    pub fn standing_for_group_position(&self, group: Group, position: u8) -> (r: Option<&StandingRow>)
        ensures
            match standing_position(self.data().standings@, group, position) {
                Some(p) => r matches Some(row) && *row == self.data().standings@[p],
                None => r is None,
            },
    {
        let rows = &self.snapshot.standings;
        let id = group.id();
        let mut i: usize = 0;
        while i < rows.len()
            invariant
                i <= rows@.len(),
                rows == &self.snapshot.standings,
                id@ == group_id_text(group),
                standing_position(rows@.take(i as int), group, position) is None,
            decreases rows@.len() - i,
        {
            assert(rows@.take(i + 1).drop_last() =~= rows@.take(i as int));
            if rows[i].group_id == id && rows[i].position == position {
                proof {
                    lemma_standing_position_prefix(rows@, i as int + 1, group, position);
                }
                return Some(&rows[i]);
            }
            i = i + 1;
        }
        assert(rows@.take(i as int) =~= rows@);
        None
    }

    /// Whether the team with this identifier is a favourite.
    pub fn team_is_favorite(&self, team_id: &TeamId) -> (r: bool)
        ensures
            r == is_favorite_team(self.data().teams@, team_id@),
    {
        favorite_team(&self.snapshot.teams, team_id)
    }

    pub fn standing_team_is_favorite(&self, team_id: &TeamId) -> (r: bool)
        ensures
            r == is_favorite_team(self.data().teams@, team_id@),
    {
        favorite_team(&self.snapshot.teams, team_id)
    }

    pub fn match_includes_favorite_team(&self, match_: &Match) -> (r: bool)
        ensures
            r == has_favorite_side(self.data().teams@, *match_),
    {
        favorite_side(&self.snapshot.teams, match_)
    }

    /// The code shown for a team: its loaded abbreviation, or a code made
    /// from `fallback` when the team is not loaded.
    pub fn match_team_code(&self, team_id: Option<&TeamId>, fallback: &str) -> (r: String)
        ensures
            r@ == team_code_text(self.data().teams@, ref_team_view(team_id), fallback@),
    {
        match team_id {
            Some(id) => {
                let teams = &self.snapshot.teams;
                let mut i: usize = 0;
                while i < teams.len()
                    invariant
                        i <= teams@.len(),
                        teams == &self.snapshot.teams,
                        ref_team_view(team_id) == Some(id@),
                        team_position(teams@.take(i as int), id@) is None,
                    decreases teams@.len() - i,
                {
                    assert(teams@.take(i + 1).drop_last() =~= teams@.take(i as int));
                    if teams[i].id == *id {
                        proof {
                            lemma_team_position_prefix(teams@, i as int + 1, id@);
                        }
                        let code = teams[i].abbreviation.clone();
                        assert(code@ == teams@[i as int].abbreviation@);
                        assert(team_position(self.snapshot.teams@, id@) == Some(i as int));
                        assert(team_code_text(self.snapshot.teams@, Some(id@), fallback@) == code@);
                        return code;
                    }
                    i = i + 1;
                }
                assert(teams@.take(i as int) =~= teams@);
                fallback_code(fallback)
            },
            None => fallback_code(fallback),
        }
    }

    pub fn match_status_label(&self, status: MatchStatus) -> (r: &'static str)
        ensures
            r@ == match_status_text(status),
    {
        match status {
            MatchStatus::Scheduled => "scheduled",
            MatchStatus::Live => "live",
            MatchStatus::FullTime => "full-time",
            MatchStatus::ExtraTime => "extra-time",
            MatchStatus::Penalties => "penalties",
            MatchStatus::Postponed => "postponed",
            MatchStatus::Cancelled => "cancelled",
            MatchStatus::Unknown(_) => "unknown",
        }
    }

    pub fn standing_row_qualification_state(&self, row: &StandingRow) -> (r: QualificationState)
        ensures
            r == qualification_of(text_option_view(row.qualification_status)),
    {
        row.qualification_state()
    }

    /// The groups the standings screen lists, in the order it lists them.
    pub fn visible_standing_group_ids(&self) -> (r: Vec<GroupId>)
        ensures
            r@.map_values(|g: GroupId| g@) == group_runs(
                self.standings_listed().map_values(|p: usize| self.data().standings@[p as int].group_id@),
            ),
    {
        let rows = self.visible_standings();
        let ghost ids = self.standings_listed().map_values(|p: usize| self.data().standings@[p as int].group_id@);
        let mut groups: Vec<GroupId> = Vec::new();
        let mut i: usize = 0;
        while i < rows.len()
            invariant
                i <= rows@.len(),
                rows@.len() == ids.len(),
                ids == self.standings_listed().map_values(|p: usize| self.data().standings@[p as int].group_id@),
                forall|k: int| 0 <= k < rows@.len() ==> rows@[k].group_id@ == #[trigger] ids[k],
                groups@.map_values(|g: GroupId| g@) == group_runs(ids.take(i as int)),
            decreases rows@.len() - i,
        {
            assert(ids.take(i + 1).drop_last() =~= ids.take(i as int));
            let ghost before = groups@;
            let same = groups.len() > 0 && groups[groups.len() - 1] == rows[i].group_id;
            if !same {
                groups.push(rows[i].group_id.clone());
                assert(groups@.map_values(|g: GroupId| g@) =~= before.map_values(|g: GroupId| g@).push(ids[i as int]));
            }
            i = i + 1;
        }
        proof {
            assert forall|k: int| 0 <= k < rows@.len() implies rows@[k].group_id@ == #[trigger] ids[k] by {}
        }
        assert(ids.take(i as int) =~= ids);
        groups
    }

    /// The group the standings screen has selected.
    pub fn selected_standing_group_id(&self) -> (r: Option<GroupId>)
        ensures
            ({
                let runs = group_runs(self.standings_listed().map_values(|p: usize| self.data().standings@[p as int].group_id@));
                if runs.len() == 0 {
                    r is None
                } else {
                    r matches Some(g) && g@ == runs[if self@.standing_group_cursor < runs.len() {
                        self@.standing_group_cursor as int
                    } else {
                        runs.len() - 1
                    }]
                }
            }),
    {
        let groups = self.visible_standing_group_ids();
        if groups.len() == 0 {
            return None;
        }
        let k = if self.standing_group_cursor < groups.len() {
            self.standing_group_cursor
        } else {
            groups.len() - 1
        };
        assert(groups@.map_values(|g: GroupId| g@)[k as int] == groups@[k as int]@);
        Some(groups[k].clone())
    }
}

proof fn lemma_team_position_prefix(s: Seq<Team>, k: int, id: Seq<char>)
    requires
        0 < k <= s.len(),
        s[k - 1].id@ == id,
        team_position(s.take(k - 1), id) is None,
    ensures
        team_position(s, id) == Some(k - 1),
    decreases s.len(),
{
    assert(s.take(k).drop_last() =~= s.take(k - 1));
    if k < s.len() {
        assert(s.drop_last().take(k - 1) =~= s.take(k - 1));
        lemma_team_position_prefix(s.drop_last(), k, id);
    } else {
        assert(s.take(k) =~= s);
    }
}

proof fn lemma_position_by_number_prefix(s: Seq<Match>, k: int, number: u16)
    requires
        0 < k <= s.len(),
        s[k - 1].match_number == number,
        match_position_by_number(s.take(k - 1), number) is None,
    ensures
        match_position_by_number(s, number) == Some(k - 1),
    decreases s.len(),
{
    assert(s.take(k).drop_last() =~= s.take(k - 1));
    if k < s.len() {
        assert(s.drop_last().take(k - 1) =~= s.take(k - 1));
        lemma_position_by_number_prefix(s.drop_last(), k, number);
    } else {
        assert(s.take(k) =~= s);
    }
}

proof fn lemma_standing_position_prefix(s: Seq<StandingRow>, k: int, group: Group, position: u8)
    requires
        0 < k <= s.len(),
        s[k - 1].group_id@ == group_id_text(group),
        s[k - 1].position == position,
        standing_position(s.take(k - 1), group, position) is None,
    ensures
        standing_position(s, group, position) == Some(k - 1),
    decreases s.len(),
{
    assert(s.take(k).drop_last() =~= s.take(k - 1));
    if k < s.len() {
        assert(s.drop_last().take(k - 1) =~= s.take(k - 1));
        lemma_standing_position_prefix(s.drop_last(), k, group, position);
    } else {
        assert(s.take(k) =~= s);
    }
}

// ---------------------------------------------------------------------------
// Knock-out columns

/// A column of the knock-out screen as the cursor sees it.
#[derive(Clone, Copy, Debug)]
pub struct KnockoutColumn {
    pub label: &'static str,
    pub kind: ColumnKind,
    pub match_count: usize,
}

pub ghost struct KnockoutColumnView {
    pub label: Seq<char>,
    pub kind: ColumnKind,
    pub match_count: usize,
}

pub open spec fn column_view(c: KnockoutColumn) -> KnockoutColumnView {
    KnockoutColumnView { label: c.label@, kind: c.kind, match_count: c.match_count }
}

pub open spec fn kcol(label: Seq<char>, kind: ColumnKind, match_count: usize) -> KnockoutColumnView {
    KnockoutColumnView { label, kind, match_count }
}

pub open spec fn kcol_when(c: bool, x: KnockoutColumnView) -> Seq<KnockoutColumnView> {
    if c {
        seq![x]
    } else {
        Seq::empty()
    }
}

/// The columns of the knock-out screen for the rounds shown: the left half
/// from the round of 32 inwards, a centre column with the final and the
/// third-place match when either is shown, and the right half outwards.
pub open spec fn knockout_layout(rounds: Seq<KnockoutRoundFilter>) -> Seq<KnockoutColumnView> {
    knockout_left(rounds) + knockout_center(rounds) + knockout_right(rounds)
}

pub open spec fn knockout_left(rounds: Seq<KnockoutRoundFilter>) -> Seq<KnockoutColumnView> {
    left_cols(
        rounds.contains(KnockoutRoundFilter::RoundOf32),
        rounds.contains(KnockoutRoundFilter::RoundOf16),
        rounds.contains(KnockoutRoundFilter::QuarterFinal),
        rounds.contains(KnockoutRoundFilter::SemiFinal),
    )
}

pub open spec fn left_cols(a: bool, b: bool, c: bool, d: bool) -> Seq<KnockoutColumnView> {
    kcol_when(a, kcol("left Round of 32"@, ColumnKind::RoundOf32, 8)) + kcol_when(
        b,
        kcol("left Round of 16"@, ColumnKind::RoundOf16, 4),
    ) + kcol_when(c, kcol("left quarter-finals"@, ColumnKind::QuarterFinal, 2)) + kcol_when(
        d,
        kcol("left semi-final"@, ColumnKind::SemiFinal, 1),
    )
}

pub open spec fn right_cols(a: bool, b: bool, c: bool, d: bool) -> Seq<KnockoutColumnView> {
    kcol_when(d, kcol("right semi-final"@, ColumnKind::SemiFinal, 1)) + kcol_when(
        c,
        kcol("right quarter-finals"@, ColumnKind::QuarterFinal, 2),
    ) + kcol_when(b, kcol("right Round of 16"@, ColumnKind::RoundOf16, 4)) + kcol_when(
        a,
        kcol("right Round of 32"@, ColumnKind::RoundOf32, 8),
    )
}

pub open spec fn center_matches(rounds: Seq<KnockoutRoundFilter>) -> usize {
    ((if rounds.contains(KnockoutRoundFilter::Final) {
        1usize
    } else {
        0usize
    }) + (if rounds.contains(KnockoutRoundFilter::ThirdPlace) {
        1usize
    } else {
        0usize
    })) as usize
}

pub open spec fn knockout_center(rounds: Seq<KnockoutRoundFilter>) -> Seq<KnockoutColumnView> {
    kcol_when(center_matches(rounds) > 0, kcol("final / third"@, ColumnKind::Center, center_matches(rounds)))
}

pub open spec fn knockout_right(rounds: Seq<KnockoutRoundFilter>) -> Seq<KnockoutColumnView> {
    right_cols(
        rounds.contains(KnockoutRoundFilter::RoundOf32),
        rounds.contains(KnockoutRoundFilter::RoundOf16),
        rounds.contains(KnockoutRoundFilter::QuarterFinal),
        rounds.contains(KnockoutRoundFilter::SemiFinal),
    )
}

fn push_column(columns: &mut Vec<KnockoutColumn>, c: bool, label: &'static str, kind: ColumnKind, count: usize)
    ensures
        final(columns)@.map_values(|x: KnockoutColumn| column_view(x)) == old(columns)@.map_values(
            |x: KnockoutColumn| column_view(x),
        ) + kcol_when(c, kcol(label@, kind, count)),
{
    let ghost before = columns@;
    if c {
        columns.push(KnockoutColumn::new(label, kind, count));
        assert(columns@.map_values(|x: KnockoutColumn| column_view(x)) =~= before.map_values(
            |x: KnockoutColumn| column_view(x),
        ) + kcol_when(c, kcol(label@, kind, count)));
    } else {
        assert(columns@.map_values(|x: KnockoutColumn| column_view(x)) =~= before.map_values(
            |x: KnockoutColumn| column_view(x),
        ) + kcol_when(c, kcol(label@, kind, count)));
    }
}

/// The first line of the card the match cursor is on, counted from the
/// top of the bracket body.
pub open spec fn card_top(kind: ColumnKind, match_cursor: usize) -> u16 {
    let c = match_cursor as u16 as int;
    match kind {
        ColumnKind::RoundOf32 => (c * 4) as u16,
        ColumnKind::RoundOf16 => (c * 8 + 2) as u16,
        ColumnKind::QuarterFinal => (c * 16 + 6) as u16,
        ColumnKind::SemiFinal => 14,
        ColumnKind::Center => if match_cursor == 0 {
            12
        } else {
            20
        },
    }
}

impl KnockoutColumn {
    pub fn new(label: &'static str, kind: ColumnKind, match_count: usize) -> (r: KnockoutColumn)
        ensures
            column_view(r) == kcol(label@, kind, match_count),
    {
        KnockoutColumn { label, kind, match_count }
    }

    /// The column showing one round on its own.
    pub fn single(round: KnockoutRoundFilter) -> (r: KnockoutColumn)
        ensures
            column_view(r) == (match round {
                KnockoutRoundFilter::All => kcol("Round of 32"@, ColumnKind::RoundOf32, 0),
                KnockoutRoundFilter::RoundOf32 => kcol("Round of 32"@, ColumnKind::RoundOf32, 16),
                KnockoutRoundFilter::RoundOf16 => kcol("Round of 16"@, ColumnKind::RoundOf16, 8),
                KnockoutRoundFilter::QuarterFinal => kcol("quarter-finals"@, ColumnKind::QuarterFinal, 4),
                KnockoutRoundFilter::SemiFinal => kcol("semi-finals"@, ColumnKind::SemiFinal, 2),
                KnockoutRoundFilter::ThirdPlace => kcol("third place"@, ColumnKind::Center, 1),
                KnockoutRoundFilter::Final => kcol("final"@, ColumnKind::Center, 1),
            }),
    {
        match round {
            KnockoutRoundFilter::All => KnockoutColumn::new("Round of 32", ColumnKind::RoundOf32, 0),
            KnockoutRoundFilter::RoundOf32 => KnockoutColumn::new("Round of 32", ColumnKind::RoundOf32, 16),
            KnockoutRoundFilter::RoundOf16 => KnockoutColumn::new("Round of 16", ColumnKind::RoundOf16, 8),
            KnockoutRoundFilter::QuarterFinal => KnockoutColumn::new("quarter-finals", ColumnKind::QuarterFinal, 4),
            KnockoutRoundFilter::SemiFinal => KnockoutColumn::new("semi-finals", ColumnKind::SemiFinal, 2),
            KnockoutRoundFilter::ThirdPlace => KnockoutColumn::new("third place", ColumnKind::Center, 1),
            KnockoutRoundFilter::Final => KnockoutColumn::new("final", ColumnKind::Center, 1),
        }
    }

    /// The first line of the card the match cursor is on.
    pub fn selected_match_y(self, match_cursor: usize) -> (r: u16)
        requires
            self.kind == ColumnKind::RoundOf32 ==> (match_cursor as u16) < 16384,
            self.kind == ColumnKind::RoundOf16 ==> (match_cursor as u16) < 8192,
            self.kind == ColumnKind::QuarterFinal ==> (match_cursor as u16) < 4096,
        ensures
            r == card_top(self.kind, match_cursor),
    {
        let c = match_cursor as u16;
        match self.kind {
            ColumnKind::RoundOf32 => c * 4,
            ColumnKind::RoundOf16 => c * 8 + 2,
            ColumnKind::QuarterFinal => c * 16 + 6,
            ColumnKind::SemiFinal => 14,
            ColumnKind::Center => {
                if match_cursor == 0 {
                    12
                } else {
                    20
                }
            },
        }
    }
}

impl App {
    /// The columns of the knock-out screen.
    #[verifier::spinoff_prover]
    #[verifier::rlimit(40)]
    pub fn visible_knockout_columns(&self) -> (r: Vec<KnockoutColumn>)
        ensures
            r@.map_values(|c: KnockoutColumn| column_view(c)) == knockout_layout(shown_rounds(self@.knockout_rounds)),
    {
        let rounds = self.visible_knockout_rounds();
        let ghost rs = rounds@;
        let r32 = has_round(rounds.as_slice(), KnockoutRoundFilter::RoundOf32);
        let r16 = has_round(rounds.as_slice(), KnockoutRoundFilter::RoundOf16);
        let qf = has_round(rounds.as_slice(), KnockoutRoundFilter::QuarterFinal);
        let sf = has_round(rounds.as_slice(), KnockoutRoundFilter::SemiFinal);
        let fin = has_round(rounds.as_slice(), KnockoutRoundFilter::Final);
        let third = has_round(rounds.as_slice(), KnockoutRoundFilter::ThirdPlace);
        let mut columns: Vec<KnockoutColumn> = Vec::new();
        assert(columns@.map_values(|x: KnockoutColumn| column_view(x)) =~= Seq::<KnockoutColumnView>::empty());
        push_column(&mut columns, r32, "left Round of 32", ColumnKind::RoundOf32, 8);
        push_column(&mut columns, r16, "left Round of 16", ColumnKind::RoundOf16, 4);
        push_column(&mut columns, qf, "left quarter-finals", ColumnKind::QuarterFinal, 2);
        push_column(&mut columns, sf, "left semi-final", ColumnKind::SemiFinal, 1);
        assert(columns@.map_values(|x: KnockoutColumn| column_view(x)) =~= knockout_left(rs));
        let center_count: usize = (if fin {
            1
        } else {
            0
        }) + (if third {
            1
        } else {
            0
        });
        assert(center_count == center_matches(rs));
        push_column(&mut columns, center_count > 0, "final / third", ColumnKind::Center, center_count);
        assert(columns@.map_values(|x: KnockoutColumn| column_view(x)) =~= knockout_left(rs) + knockout_center(rs));
        let ghost middle = columns@.map_values(|x: KnockoutColumn| column_view(x));
        push_column(&mut columns, sf, "right semi-final", ColumnKind::SemiFinal, 1);
        push_column(&mut columns, qf, "right quarter-finals", ColumnKind::QuarterFinal, 2);
        push_column(&mut columns, r16, "right Round of 16", ColumnKind::RoundOf16, 4);
        push_column(&mut columns, r32, "right Round of 32", ColumnKind::RoundOf32, 8);
        assert(columns@.map_values(|x: KnockoutColumn| column_view(x)) =~= middle + knockout_right(rs));
        columns
    }

    /// How many columns the knock-out cursor moves over (at least one).
    pub fn knockout_column_count(&self) -> (r: usize)
        ensures
            r == knockout_column_total(self@),
            1 <= r,
    {
        proof {
            reveal(knockout_column_total);
        }
        let n = self.visible_knockout_columns().len();
        if n == 0 {
            1
        } else {
            n
        }
    }

    /// How many matches the column under the cursor holds.
    pub fn knockout_selected_column_match_count(&self) -> (r: usize)
        ensures
            r == (if self@.knockout_column_cursor < knockout_layout(shown_rounds(self@.knockout_rounds)).len() {
                knockout_layout(shown_rounds(self@.knockout_rounds))[self@.knockout_column_cursor as int].match_count
            } else {
                0
            }),
    {
        let columns = self.visible_knockout_columns();
        if self.knockout_column_cursor < columns.len() {
            assert(columns@.map_values(|c: KnockoutColumn| column_view(c))[self.knockout_column_cursor as int]
                == column_view(columns@[self.knockout_column_cursor as int]));
            columns[self.knockout_column_cursor].match_count
        } else {
            0
        }
    }

    /// The knock-out column cursor, kept within the columns shown.
    pub fn knockout_column_cursor(&self) -> (r: usize)
        ensures
            r == min_usize(self@.knockout_column_cursor, (knockout_column_total(self@) - 1) as usize),
    {
        let count = self.knockout_column_count();
        if self.knockout_column_cursor < count - 1 {
            self.knockout_column_cursor
        } else {
            count - 1
        }
    }

    /// The knock-out match cursor, kept within the matches of the column.
    pub fn knockout_match_cursor(&self) -> (r: usize)
        ensures
            r == min_usize(
                self@.knockout_match_cursor,
                saturating_pred(selected_column_matches(self@)),
            ),
    {
        let count = self.knockout_selected_column_match_count();
        let last = if count > 0 {
            count - 1
        } else {
            0
        };
        if self.knockout_match_cursor < last {
            self.knockout_match_cursor
        } else {
            last
        }
    }
}

pub open spec fn min_usize(a: usize, b: usize) -> usize {
    if a < b {
        a
    } else {
        b
    }
}

pub open spec fn saturating_pred(n: usize) -> usize {
    if n > 0 {
        (n - 1) as usize
    } else {
        0
    }
}

/// How many columns the knock-out cursor moves over (at least one).
#[verifier::opaque]
pub open spec fn knockout_column_total(v: AppView) -> int {
    let n = knockout_layout(shown_rounds(v.knockout_rounds)).len();
    if n == 0 {
        1
    } else {
        n as int
    }
}

/// How many matches the column under the knock-out cursor holds.
pub open spec fn selected_column_matches(v: AppView) -> usize {
    let layout = knockout_layout(shown_rounds(v.knockout_rounds));
    if v.knockout_column_cursor < layout.len() {
        layout[v.knockout_column_cursor as int].match_count
    } else {
        0
    }
}

// ---------------------------------------------------------------------------
// Best third-placed teams

/// A team's FIFA rank, or the worst rank when it has none or is not loaded.
pub open spec fn fifa_rank_of(teams: Seq<Team>, id: Seq<char>) -> int {
    match team_position(teams, id) {
        Some(p) => match teams[p].fifa_rank {
            Some(r) => r as int,
            None => u16::MAX as int,
        },
        None => u16::MAX as int,
    }
}

/// The fair-play score, or the worst score when there is none.
pub open spec fn fair_play_of(row: StandingRow) -> int {
    match row.fair_play {
        Some(f) => f as int,
        None => i16::MIN as int,
    }
}

/// How third-placed teams are ranked against each other: more points, then
/// a better goal difference, more goals, a better fair-play score, a better
/// FIFA rank, and finally the team name.
pub open spec fn third_place_keys(rows: Seq<StandingRow>, teams: Seq<Team>) -> Seq<Seq<i128>> {
    rows.map_values(
        |r: StandingRow|
            seq![
                -(r.points as int) as i128,
                -(r.goal_difference as int) as i128,
                -(r.goals_for as int) as i128,
                -fair_play_of(r) as i128,
                fifa_rank_of(teams, r.team_id@) as i128,
            ] + text_key(lowercase(r.team_name@)),
    )
}

/// The rows of third-placed teams, ranked, and the best eight of them.
pub open spec fn best_third_rows(data: AppSnapshot) -> Seq<usize> {
    let rows = data.standings@;
    let ranked = sorted_order(
        third_place_keys(rows, data.teams@),
        false,
        kept_positions(rows.len(), |i: int| rows[i].position == 3),
    );
    ranked.take(if ranked.len() < 8 { ranked.len() as int } else { 8 })
}

pub open spec fn best_third_ids(data: AppSnapshot) -> Seq<Seq<char>> {
    best_third_rows(data).map_values(|p: usize| data.standings@[p as int].team_id@)
}

/// Whether a standing row's team goes through to the knock-out stage:
/// FIFA's confirmed status when there is one, otherwise the top two of the
/// group and the eight best third-placed teams.
pub open spec fn advancing(data: AppSnapshot, row: StandingRow) -> bool {
    match qualification_of(text_option_view(row.qualification_status)) {
        QualificationState::Disqualified => false,
        QualificationState::Qualified => true,
        QualificationState::Open => row.position <= 2 || (row.position == 3 && best_third_ids(data).contains(row.team_id@)),
    }
}

impl App {
    fn team_fifa_rank(&self, team_id: &TeamId) -> (r: u16)
        ensures
            r as int == fifa_rank_of(self.data().teams@, team_id@),
    {
        let teams = &self.snapshot.teams;
        let mut i: usize = 0;
        while i < teams.len()
            invariant
                i <= teams@.len(),
                teams == &self.snapshot.teams,
                team_position(teams@.take(i as int), team_id@) is None,
            decreases teams@.len() - i,
        {
            assert(teams@.take(i + 1).drop_last() =~= teams@.take(i as int));
            if teams[i].id == *team_id {
                proof {
                    lemma_team_position_prefix(teams@, i as int + 1, team_id@);
                }
                return match teams[i].fifa_rank {
                    Some(r) => r,
                    None => u16::MAX,
                };
            }
            i = i + 1;
        }
        assert(teams@.take(i as int) =~= teams@);
        u16::MAX
    }

    /// The teams of the eight best third-placed rows, best first.
    pub fn best_third_team_ids(&self) -> (r: Vec<TeamId>)
        ensures
            r@.map_values(|t: TeamId| t@) == best_third_ids(self.data()),
    {
        let rows = &self.snapshot.standings;
        let ghost keep = |i: int| rows@[i].position == 3;
        let mut keys: Vec<Vec<i128>> = Vec::new();
        let mut selected: Vec<usize> = Vec::new();
        let mut i: usize = 0;
        while i < rows.len()
            invariant
                i <= rows@.len(),
                rows == &self.snapshot.standings,
                keep == (|i: int| rows@[i].position == 3),
                keys@.len() == i,
                forall|k: int| 0 <= k < i ==> #[trigger] keys@[k]@ == third_place_keys(rows@, self.snapshot.teams@)[k],
                selected@ == kept_positions(i as nat, keep),
            decreases rows@.len() - i,
        {
            let row = &rows[i];
            let fair: i128 = match row.fair_play {
                Some(f) => f as i128,
                None => -32768,
            };
            let rank = self.team_fifa_rank(&row.team_id) as i128;
            let points_key: i128 = -(row.points as i128);
            let difference_key: i128 = -(row.goal_difference as i128);
            let goals_key: i128 = -(row.goals_for as i128);
            let fair_key: i128 = -fair;
            let mut key: Vec<i128> = vec![points_key, difference_key, goals_key, fair_key, rank];
            let lower = to_lowercase(row.team_name.as_str());
            let mut name_key = text_key_exec(lower.as_str());
            key.append(&mut name_key);
            assert(key@ =~= third_place_keys(rows@, self.snapshot.teams@)[i as int]);
            keys.push(key);
            if row.position == 3 {
                selected.push(i);
            }
            i = i + 1;
        }
        let n = rows.len();
        proof {
            lemma_kept_positions(rows@.len(), keep);
            assert(crate::order::key_views(keys@) =~= third_place_keys(rows@, self.snapshot.teams@));
        }
        let order = sort_indices(&keys, false, &selected);
        proof {
            lemma_sorted_order(third_place_keys(rows@, self.snapshot.teams@), false, selected@, order@);
            lemma_order_bounds(third_place_keys(rows@, self.snapshot.teams@), false, n as nat, keep, order@);
        }
        let mut ids: Vec<TeamId> = Vec::new();
        let mut k: usize = 0;
        let ghost best = best_third_rows(self.snapshot);
        while k < order.len() && k < 8
            invariant
                k <= order@.len(),
                k <= 8,
                best == order@.take(if order@.len() < 8 { order@.len() as int } else { 8 }),
                forall|j: int| 0 <= j < order@.len() ==> #[trigger] order@[j] < rows@.len(),
                rows == &self.snapshot.standings,
                ids@.len() == k,
                ids@.map_values(|t: TeamId| t@) == order@.take(k as int).map_values(|p: usize| rows@[p as int].team_id@),
            decreases 8 - k,
        {
            let id = rows[order[k]].team_id.clone();
            let ghost before = ids@;
            ids.push(id);
            assert(order@.take(k + 1) =~= order@.take(k as int).push(order@[k as int]));
            assert(ids@ =~= before.push(id));
            assert(id@ == rows@[order@[k as int] as int].team_id@);
            assert forall|j: int| 0 <= j < k + 1 implies #[trigger] ids@[j]@ == rows@[order@[j] as int].team_id@ by {
                if j < k {
                    assert(ids@[j] == before[j]);
                    assert(before.map_values(|t: TeamId| t@)[j] == before[j]@);
                    assert(order@.take(k as int)[j] == order@[j]);
                    assert(before.map_values(|t: TeamId| t@)[j] == order@.take(k as int).map_values(|p: usize| rows@[p as int].team_id@)[j]);
                } else {
                    assert(ids@[j] == id);
                }
            }
            assert(ids@.map_values(|t: TeamId| t@) =~= order@.take(k + 1).map_values(|p: usize| rows@[p as int].team_id@));
            k = k + 1;
        }
        assert(order@.take(k as int) =~= best);
        ids
    }

    /// Whether a standing row's team goes through to the knock-out stage.
    pub fn standing_row_is_advancing(&self, row: &StandingRow) -> (r: bool)
        ensures
            r == advancing(self.data(), *row),
    {
        match row.qualification_state() {
            QualificationState::Disqualified => {
                return false;
            },
            QualificationState::Qualified => {
                return true;
            },
            QualificationState::Open => {},
        }
        if row.position <= 2 {
            return true;
        }
        if row.position != 3 {
            return false;
        }
        let ids = self.best_third_team_ids();
        let ghost views = ids@.map_values(|t: TeamId| t@);
        let mut i: usize = 0;
        while i < ids.len()
            invariant
                i <= ids@.len(),
                views == ids@.map_values(|t: TeamId| t@),
                views == best_third_ids(self.data()),
                row.position == 3,
                qualification_of(text_option_view(row.qualification_status)) == QualificationState::Open,
                forall|k: int| 0 <= k < i ==> views[k] != row.team_id@,
            decreases ids@.len() - i,
        {
            if ids[i] == row.team_id {
                assert(views[i as int] == row.team_id@);
                assert(views.contains(row.team_id@));
                assert(best_third_ids(self.data()).contains(row.team_id@));
                return true;
            }
            i = i + 1;
        }
        false
    }
}

// ---------------------------------------------------------------------------
// Timelines, automatic refreshes, the clock and loading

pub open spec fn event_keys(events: Seq<TimelineEvent>) -> Seq<Seq<i128>> {
    events.map_values(|e: TimelineEvent| seq![e.event_index as i128])
}

/// The events of match `id`, latest first (by event index), events with the
/// same index in their loaded order.
pub open spec fn events_of_match(events: Seq<TimelineEvent>, id: Seq<char>) -> Seq<usize> {
    sorted_order(event_keys(events), true, kept_positions(events.len(), |i: int| events[i].match_id@ == id))
}

/// The events that the order of a match's timeline lists all belong to the
/// match, and their indices never grow down the list.
proof fn lemma_events_newest_first(events: Seq<TimelineEvent>, id: Seq<char>, keep: spec_fn(int) -> bool, o: Seq<usize>)
    requires
        events.len() <= usize::MAX,
        forall|i: int| #[trigger] keep(i) <==> events[i].match_id@ == id,
        sorted_selection(event_keys(events), true, kept_positions(events.len(), keep), o),
    ensures
        forall|k: int| 0 <= k < o.len() ==> #[trigger] o[k] < events.len() && events[o[k] as int].match_id@ == id,
        forall|k: int, l: int|
            0 <= k < l < o.len() ==> events[#[trigger] o[k] as int].event_index >= events[#[trigger] o[l] as int].event_index,
{
    lemma_kept_positions(events.len(), keep);
    assert forall|k: int| 0 <= k < o.len() implies #[trigger] o[k] < events.len() && events[o[k] as int].match_id@ == id by {
        assert(o.contains(o[k]));
        assert(kept_positions(events.len(), keep).contains(o[k]));
    }
    assert forall|k: int, l: int|
        0 <= k < l < o.len() implies events[#[trigger] o[k] as int].event_index >= events[#[trigger] o[l] as int].event_index by {
        let keys = event_keys(events);
        assert(o.contains(o[k]));
        assert(o.contains(o[l]));
        assert(kept_positions(events.len(), keep).contains(o[k]));
        assert(kept_positions(events.len(), keep).contains(o[l]));
        assert(ranked_before(keys, true, o[k] as int, o[l] as int));
        let a = events[o[k] as int].event_index as i128;
        let b = events[o[l] as int].event_index as i128;
        assert(keys[o[k] as int] == seq![a]);
        assert(keys[o[l] as int] == seq![b]);
        reveal_with_fuel(key_less, 2);
        assert(seq![b].drop_first() =~= Seq::<i128>::empty());
        assert(seq![a].drop_first() =~= Seq::<i128>::empty());
    }
}

pub open spec fn hours_nanos(h: int) -> int {
    h * 3600 * 1_000_000_000
}

/// A match is refreshed automatically while it is being played, from two
/// hours before kick-off, and until four hours after it.
pub open spec fn needs_automatic_refresh(m: Match, now: int) -> bool {
    ||| m.status == MatchStatus::Live
    ||| m.status == MatchStatus::ExtraTime
    ||| m.status == MatchStatus::Penalties
    ||| 0 <= m.utc_start@ - now <= hours_nanos(2)
    ||| 0 <= now - m.utc_start@ <= hours_nanos(4)
}

/// The groups of the matches that need an automatic refresh, each once, in
/// the order their first such match comes.
pub open spec fn groups_to_refresh(matches: Seq<Match>, now: int) -> Seq<Seq<char>>
    decreases matches.len(),
{
    if matches.len() == 0 {
        Seq::empty()
    } else {
        let before = groups_to_refresh(matches.drop_last(), now);
        let m = matches.last();
        match m.group_id {
            Some(g) => if needs_automatic_refresh(m, now) && !before.contains(g@) {
                before.push(g@)
            } else {
                before
            },
            None => before,
        }
    }
}

/// What an automatic refresh asks for: the teams when none are loaded, and
/// the matches with the standings of their groups when no match is loaded
/// or some match is around its kick-off.
pub open spec fn automatic_resources(data: AppSnapshot, now: int) -> Seq<ResourceView> {
    let matches = data.matches@;
    let need_matches = matches.len() == 0 || exists|i: int| 0 <= i < matches.len() && needs_automatic_refresh(#[trigger] matches[i], now);
    (if data.teams@.len() == 0 {
        seq![ResourceView::Teams]
    } else {
        Seq::empty()
    }) + (if need_matches {
        seq![ResourceView::Matches] + groups_to_refresh(matches, now).map_values(|g: Seq<char>| ResourceView::StandingsGroup(g))
    } else {
        Seq::empty()
    })
}

fn match_needs_automatic_refresh(m: &Match, now: &Timestamp) -> (r: bool)
    ensures
        r == needs_automatic_refresh(*m, now@),
{
    match m.status {
        MatchStatus::Live | MatchStatus::ExtraTime | MatchStatus::Penalties => {
            return true;
        },
        _ => {},
    }
    let until = m.utc_start.nanos_since(now);
    if 0 <= until && until <= 7_200_000_000_000 {
        return true;
    }
    let since = now.nanos_since(&m.utc_start);
    0 <= since && since <= 14_400_000_000_000
}

impl App {
    /// The timeline events of the selected match, latest first.
    pub fn selected_match_timeline_events(&self) -> (r: Vec<&TimelineEvent>)
        requires
            self.wf(),
        ensures
            match selected_entry(self.matches_listed(), self@.match_cursor) {
                Some(p) => {
                    let order = events_of_match(self.data().timeline_events@, self.data().matches@[p as int].id@);
                    &&& r@.len() == order.len()
                    &&& forall|k: int| 0 <= k < order.len() ==> *#[trigger] r@[k] == self.data().timeline_events@[order[k] as int]
                    &&& forall|k: int| 0 <= k < r@.len() ==> (#[trigger] r@[k]).match_id@ == self.data().matches@[p as int].id@
                    &&& forall|k: int, l: int| 0 <= k < l < r@.len() ==> (#[trigger] r@[k]).event_index >= (#[trigger] r@[l]).event_index
                },
                None => r@.len() == 0,
            },
    {
        let id = match self.selected_match_id() {
            Some(id) => id,
            None => {
                return Vec::new();
            },
        };
        let events = &self.snapshot.timeline_events;
        let ghost keep = |i: int| events@[i].match_id@ == id@;
        let mut keys: Vec<Vec<i128>> = Vec::new();
        let mut selected: Vec<usize> = Vec::new();
        let mut i: usize = 0;
        while i < events.len()
            invariant
                i <= events@.len(),
                events == &self.snapshot.timeline_events,
                keep == (|i: int| events@[i].match_id@ == id@),
                keys@.len() == i,
                forall|k: int| 0 <= k < i ==> #[trigger] keys@[k]@ == event_keys(events@)[k],
                selected@ == kept_positions(i as nat, keep),
            decreases events@.len() - i,
        {
            let key: Vec<i128> = vec![events[i].event_index as i128];
            assert(key@ =~= event_keys(events@)[i as int]);
            keys.push(key);
            if events[i].match_id == id {
                selected.push(i);
            }
            i = i + 1;
        }
        let n = events.len();
        proof {
            lemma_kept_positions(events@.len(), keep);
            assert(crate::order::key_views(keys@) =~= event_keys(events@));
        }
        let order = sort_indices(&keys, true, &selected);
        proof {
            lemma_sorted_order(event_keys(events@), true, selected@, order@);
            lemma_order_bounds(event_keys(events@), true, n as nat, keep, order@);
            lemma_events_newest_first(events@, id@, keep, order@);
        }
        let r = refs_at(events, &order);
        assert forall|k: int, l: int| 0 <= k < l < r@.len() implies (#[trigger] r@[k]).event_index >= (#[trigger] r@[l]).event_index by {
            assert(*r@[k] == events@[order@[k] as int]);
            assert(*r@[l] == events@[order@[l] as int]);
        }
        assert forall|k: int| 0 <= k < r@.len() implies (#[trigger] r@[k]).match_id@ == id@ by {
            assert(*r@[k] == events@[order@[k] as int]);
        }
        r
    }

    /// Whether the selected match has timeline events.
    pub fn selected_match_has_timeline(&self) -> (r: bool)
        requires
            self.wf(),
        ensures
            r == (match selected_entry(self.matches_listed(), self@.match_cursor) {
                Some(p) => exists|i: int|
                    0 <= i < self.data().timeline_events@.len() && #[trigger] self.data().timeline_events@[i].match_id@
                        == self.data().matches@[p as int].id@,
                None => false,
            }),
    {
        let id = match self.selected_match_id() {
            Some(id) => id,
            None => {
                return false;
            },
        };
        let events = &self.snapshot.timeline_events;
        let ghost p = selected_entry(self.matches_listed(), self@.match_cursor)->Some_0;
        let mut i: usize = 0;
        while i < events.len()
            invariant
                i <= events@.len(),
                events == &self.snapshot.timeline_events,
                selected_entry(self.matches_listed(), self@.match_cursor) == Some(p),
                id@ == self.data().matches@[p as int].id@,
                forall|k: int| 0 <= k < i ==> #[trigger] events@[k].match_id@ != id@,
            decreases events@.len() - i,
        {
            if events[i].match_id == id {
                return true;
            }
            i = i + 1;
        }
        false
    }

    fn matches_need_automatic_refresh(&self) -> (r: bool)
        ensures
            r == (self.data().matches@.len() == 0 || exists|i: int|
                0 <= i < self.data().matches@.len() && needs_automatic_refresh(
                    #[trigger] self.data().matches@[i],
                    self.clock(),
                )),
    {
        if self.snapshot.matches.len() == 0 {
            return true;
        }
        let mut i: usize = 0;
        while i < self.snapshot.matches.len()
            invariant
                i <= self.snapshot.matches@.len(),
                forall|k: int| 0 <= k < i ==> !needs_automatic_refresh(#[trigger] self.snapshot.matches@[k], self.now@),
            decreases self.snapshot.matches@.len() - i,
        {
            if match_needs_automatic_refresh(&self.snapshot.matches[i], &self.now) {
                return true;
            }
            i = i + 1;
        }
        false
    }

    fn standing_groups_needing_match_refresh(&self) -> (r: Vec<ResourceKey>)
        ensures
            resource_views(r@) == groups_to_refresh(self.data().matches@, self.clock()).map_values(
                |g: Seq<char>| ResourceView::StandingsGroup(g),
            ),
    {
        let matches = &self.snapshot.matches;
        let mut ids: Vec<GroupId> = Vec::new();
        let mut i: usize = 0;
        while i < matches.len()
            invariant
                i <= matches@.len(),
                matches == &self.snapshot.matches,
                ids@.map_values(|g: GroupId| g@) == groups_to_refresh(matches@.take(i as int), self.now@),
            decreases matches@.len() - i,
        {
            assert(matches@.take(i + 1).drop_last() =~= matches@.take(i as int));
            let m = &matches[i];
            match &m.group_id {
                Some(g) => {
                    if match_needs_automatic_refresh(m, &self.now) {
                        let ghost views = ids@.map_values(|x: GroupId| x@);
                        let mut seen = false;
                        let mut k: usize = 0;
                        while k < ids.len()
                            invariant
                                k <= ids@.len(),
                                views == ids@.map_values(|x: GroupId| x@),
                                seen == exists|j: int| 0 <= j < k && views[j] == g@,
                            decreases ids@.len() - k,
                        {
                            assert(views[k as int] == ids@[k as int]@);
                            if ids[k] == *g {
                                seen = true;
                            }
                            k = k + 1;
                        }
                        if !seen {
                            let ghost before = ids@;
                            ids.push(g.clone());
                            assert(ids@.map_values(|x: GroupId| x@) =~= views.push(g@));
                        } else {
                            assert(views.contains(g@));
                        }
                    }
                },
                None => {},
            }
            i = i + 1;
        }
        assert(matches@.take(i as int) =~= matches@);
        let mut r: Vec<ResourceKey> = Vec::new();
        let mut k: usize = 0;
        let ghost all = ids@.map_values(|g: GroupId| g@);
        while k < ids.len()
            invariant
                k <= ids@.len(),
                all == ids@.map_values(|g: GroupId| g@),
                r@.len() == k,
                resource_views(r@) == all.take(k as int).map_values(|g: Seq<char>| ResourceView::StandingsGroup(g)),
            decreases ids@.len() - k,
        {
            let key = ResourceKey::StandingsGroup(ids[k].clone());
            let ghost before = r@;
            r.push(key);
            assert(r@ =~= before.push(key));
            assert(key@ == ResourceView::StandingsGroup(all[k as int]));
            assert forall|j: int| 0 <= j < k + 1 implies #[trigger] resource_views(r@)[j] == all.take(k + 1).map_values(|g: Seq<char>| ResourceView::StandingsGroup(g))[j] by {
                if j < k {
                    assert(resource_views(before)[j] == all.take(k as int).map_values(|g: Seq<char>| ResourceView::StandingsGroup(g))[j]);
                }
            }
            assert(resource_views(r@) =~= all.take(k + 1).map_values(|g: Seq<char>| ResourceView::StandingsGroup(g)));
            k = k + 1;
        }
        assert(all.take(k as int) =~= all);
        r
    }

    /// What an automatic refresh (at start-up or in the background) asks
    /// for.
    pub fn automatic_refresh_resources(&self) -> (r: Vec<ResourceKey>)
        ensures
            resource_views(r@) == automatic_resources(self.data(), self.clock()),
    {
        let mut resources: Vec<ResourceKey> = Vec::new();
        if self.snapshot.teams.len() == 0 {
            resources.push(ResourceKey::Teams);
        }
        let ghost head = resource_views(resources@);
        if self.matches_need_automatic_refresh() {
            resources.push(ResourceKey::Matches);
            let mut groups = self.standing_groups_needing_match_refresh();
            let ghost g = resource_views(groups@);
            resources.append(&mut groups);
            assert(resource_views(resources@) =~= head + (seq![ResourceView::Matches] + g));
        } else {
            assert(resource_views(resources@) =~= head + Seq::<ResourceView>::empty());
        }
        resources
    }

    pub fn startup_refresh_resources(&self) -> (r: Vec<ResourceKey>)
        ensures
            resource_views(r@) == automatic_resources(self.data(), self.clock()),
    {
        self.automatic_refresh_resources()
    }

    pub fn background_refresh_resources(&self) -> (r: Vec<ResourceKey>)
        ensures
            resource_views(r@) == automatic_resources(self.data(), self.clock()),
    {
        self.automatic_refresh_resources()
    }

    /// Reads the clock: the current instant, today's local date and the
    /// local date of each loaded match. Nothing else changes.
    pub fn tick(&mut self)
        requires
            old(self).wf(),
        ensures
            final(self).wf(),
            final(self)@ == old(self)@,
            final(self).data() == old(self).data(),
    {
        if let Some(now) = Timestamp::now() {
            self.set_clock(now);
        }
    }

    /// Takes `now` as the clock reading; today's local date and the local
    /// date of each loaded match follow from it. Nothing else changes.
    pub fn set_clock(&mut self, now: Timestamp)
        requires
            old(self).wf(),
        ensures
            final(self).wf(),
            final(self)@ == old(self)@,
            final(self).data() == old(self).data(),
            final(self).clock() == now@,
    {
        self.now = now;
        self.today = local_date(&self.now);
        self.refresh_match_days();
    }

    fn refresh_match_days(&mut self)
        ensures
            (old(self).scroll@.len() == 7 && selections_ordered(old(self)@)) ==> final(self).wf(),
            final(self)@ == old(self)@,
            final(self).data() == old(self).data(),
            final(self).clock() == old(self).clock(),
    {
        let mut days: Vec<LocalDate> = Vec::new();
        let mut i: usize = 0;
        while i < self.snapshot.matches.len()
            invariant
                i <= self.snapshot.matches@.len(),
                days@.len() == i,
            decreases self.snapshot.matches@.len() - i,
        {
            days.push(local_date(&self.snapshot.matches[i].utc_start));
            i = i + 1;
        }
        self.match_days = days;
    }
}

// ---------------------------------------------------------------------------
// Commands: screens, modes, overlays, focus

/// Tab moves the focus from nothing to the content, then (where there is a
/// detail panel) to the details, then back to nothing.
pub open spec fn next_focus(screen: Screen, f: FocusPane) -> FocusPane {
    if screen == Screen::Home || screen == Screen::Standings {
        if f == FocusPane::Unfocused {
            FocusPane::Content
        } else {
            FocusPane::Unfocused
        }
    } else {
        match f {
            FocusPane::Unfocused => FocusPane::Content,
            FocusPane::Content => FocusPane::Detail,
            FocusPane::Detail => FocusPane::Unfocused,
        }
    }
}

/// Shift-Tab goes the other way round.
pub open spec fn previous_focus(screen: Screen, f: FocusPane) -> FocusPane {
    if screen == Screen::Home || screen == Screen::Standings {
        if f == FocusPane::Unfocused {
            FocusPane::Content
        } else {
            FocusPane::Unfocused
        }
    } else {
        match f {
            FocusPane::Unfocused => FocusPane::Detail,
            FocusPane::Detail => FocusPane::Content,
            FocusPane::Content => FocusPane::Unfocused,
        }
    }
}

pub open spec fn with_content(s: ScreenScroll, content: u16) -> ScreenScroll {
    ScreenScroll { content, ..s }
}

pub open spec fn clamp_cursor(cursor: usize, count: int) -> usize {
    if count == 0 {
        0
    } else if cursor < count - 1 {
        cursor
    } else {
        (count - 1) as usize
    }
}

impl App {
    fn set_content_scroll(&mut self, screen: Screen, value: u16)
        requires
            old(self).wf(),
        ensures
            final(self).wf(),
            final(self).backing() == old(self).backing(),
            final(self)@ == (AppView {
                scroll: old(self)@.scroll.update(
                    screen_position(screen),
                    with_content(old(self)@.scroll[screen_position(screen)], value),
                ),
                ..old(self)@
            }),
    {
        let i = screen.index();
        let current = self.scroll[i];
        self.scroll.set(i, ScreenScroll { content: value, ..current });
    }

    fn set_screen_scroll(&mut self, screen: Screen, value: ScreenScroll)
        requires
            old(self).wf(),
        ensures
            final(self).wf(),
            final(self).backing() == old(self).backing(),
            final(self)@ == (AppView {
                scroll: old(self)@.scroll.update(screen_position(screen), value),
                ..old(self)@
            }),
    {
        let i = screen.index();
        self.scroll.set(i, value);
    }

    fn navigate(&mut self, screen: Screen)
        requires
            old(self).wf(),
        ensures
            final(self).wf(),
            final(self).backing() == old(self).backing(),
            navigated(*old(self), *final(self), screen),
    {
        self.screen = screen;
        self.input_mode = InputMode::Normal;
        self.help_open = false;
        self.detail_open = false;
        self.focus_pane = FocusPane::Unfocused;
        self.message = owned(screen.title());
    }

    fn toggle_time_mode(&mut self)
        requires
            old(self).wf(),
        ensures
            final(self).wf(),
            final(self).backing() == old(self).backing(),
            time_mode_toggled(*old(self), *final(self)),
    {
        self.time_mode = self.time_mode.toggle();
        self.message = concat3("Time display: ", self.time_mode.label(), ".");
    }

    fn toggle_key_scope(&mut self)
        requires
            old(self).wf(),
        ensures
            final(self).wf(),
            final(self).backing() == old(self).backing(),
            key_scope_toggled(*old(self), *final(self)),
    {
        self.key_scope = self.key_scope.toggle();
    }

    fn toggle_help(&mut self)
        requires
            old(self).wf(),
        ensures
            final(self).wf(),
            final(self).backing() == old(self).backing(),
            help_toggled(*old(self), *final(self)),
    {
        self.help_open = !self.help_open;
        self.input_mode = InputMode::Normal;
        self.message = if self.help_open {
            owned("Help overlay open. Press Esc to close.")
        } else {
            owned("Help overlay closed.")
        };
    }

    fn open_quit_confirm(&mut self)
        requires
            old(self).wf(),
        ensures
            final(self).wf(),
            final(self).backing() == old(self).backing(),
            final(self)@ == (AppView {
                input_mode: InputMode::QuitConfirm,
                help_open: false,
                message: "Confirm quit: q/y/Enter to quit, n/Esc to stay."@,
                ..old(self)@
            }),
    {
        self.input_mode = InputMode::QuitConfirm;
        self.help_open = false;
        self.message = owned("Confirm quit: q/y/Enter to quit, n/Esc to stay.");
    }

    /// Moves the focus between panels of a screen other than the knock-out
    /// bracket.
    fn cycle_focus(&mut self, forward: bool)
        requires
            old(self).wf(),
        ensures
            final(self).wf(),
            final(self).backing() == old(self).backing(),
            final(self)@ == (AppView {
                focus_pane: if forward {
                    next_focus(old(self)@.screen, old(self)@.focus_pane)
                } else {
                    previous_focus(old(self)@.screen, old(self)@.focus_pane)
                },
                message: "Focus: "@ + focus_pane_label(
                    if forward {
                        next_focus(old(self)@.screen, old(self)@.focus_pane)
                    } else {
                        previous_focus(old(self)@.screen, old(self)@.focus_pane)
                    },
                ) + "."@,
                ..old(self)@
            }),
    {
        let simple = self.screen == Screen::Home || self.screen == Screen::Standings;
        self.focus_pane = if simple {
            if self.focus_pane == FocusPane::Unfocused {
                FocusPane::Content
            } else {
                FocusPane::Unfocused
            }
        } else if forward {
            match self.focus_pane {
                FocusPane::Unfocused => FocusPane::Content,
                FocusPane::Content => FocusPane::Detail,
                FocusPane::Detail => FocusPane::Unfocused,
            }
        } else {
            match self.focus_pane {
                FocusPane::Unfocused => FocusPane::Detail,
                FocusPane::Detail => FocusPane::Content,
                FocusPane::Content => FocusPane::Unfocused,
            }
        };
        self.message = concat3("Focus: ", self.focus_pane.label(), ".");
    }

    /// Esc: cancels the quit question, closes the search, the help or the
    /// details, in that order of precedence.
    fn close_overlay(&mut self)
        requires
            old(self).wf(),
        ensures
            final(self).wf(),
            final(self).backing() == old(self).backing(),
            final(self)@ == close_effect(old(self)@),
    {
        if self.input_mode == InputMode::QuitConfirm {
            self.input_mode = InputMode::Normal;
            self.message = owned("Quit cancelled.");
            return;
        }
        if self.input_mode == InputMode::Search {
            self.input_mode = InputMode::Normal;
            self.message = owned("Search closed.");
            return;
        }
        if self.help_open {
            self.help_open = false;
            self.message = owned("Help overlay closed.");
            return;
        }
        if self.detail_open {
            self.detail_open = false;
            self.message = owned("Details closed.");
            if self.screen == Screen::Matches {
                self.cycle_focus(false);
            }
            return;
        }
        self.message = owned("Nothing to close.");
    }

    fn reset_country_selection(&mut self)
        requires
            old(self).wf(),
        ensures
            final(self).wf(),
            final(self).backing() == old(self).backing(),
            final(self)@ == (AppView {
                country_cursor: 0,
                scroll: old(self)@.scroll.update(1, with_content(old(self)@.scroll[1], 0)),
                ..old(self)@
            }),
    {
        self.country_cursor = 0;
        self.set_content_scroll(Screen::Countries, 0);
    }

    fn reset_standing_group_selection(&mut self)
        requires
            old(self).wf(),
        ensures
            final(self).wf(),
            final(self).backing() == old(self).backing(),
            final(self)@ == (AppView {
                standing_group_cursor: 0,
                scroll: old(self)@.scroll.update(3, with_content(old(self)@.scroll[3], 0)),
                ..old(self)@
            }),
    {
        self.standing_group_cursor = 0;
        self.set_content_scroll(Screen::Standings, 0);
    }

    fn reset_match_detail_view(&mut self)
        requires
            old(self).wf(),
        ensures
            final(self).wf(),
            final(self).backing() == old(self).backing(),
            final(self)@ == (AppView {
                timeline_filters: Seq::empty(),
                scroll: old(self)@.scroll.update(2, ScreenScroll { detail: 0, ..old(self)@.scroll[2] }),
                ..old(self)@
            }),
    {
        self.timeline_filters = Vec::new();
        let current = self.scroll[2];
        self.set_screen_scroll(Screen::Matches, ScreenScroll { detail: 0, ..current });
    }

    fn reset_match_selection(&mut self)
        requires
            old(self).wf(),
        ensures
            final(self).wf(),
            final(self).backing() == old(self).backing(),
            final(self)@ == (AppView {
                match_cursor: 0,
                timeline_filters: Seq::empty(),
                scroll: old(self)@.scroll.update(
                    2,
                    ScreenScroll { content: 0, detail: 0, ..old(self)@.scroll[2] },
                ),
                ..old(self)@
            }),
    {
        let ghost before = self@;
        self.match_cursor = 0;
        self.set_content_scroll(Screen::Matches, 0);
        self.reset_match_detail_view();
        assert(self@.scroll =~= before.scroll.update(
            2,
            ScreenScroll { content: 0, detail: 0, ..before.scroll[2] },
        ));
    }

    fn reset_knockout_selection(&mut self)
        requires
            old(self).wf(),
        ensures
            final(self).wf(),
            final(self).backing() == old(self).backing(),
            final(self)@ == (AppView {
                knockout_column_cursor: 0,
                knockout_match_cursor: 0,
                scroll: old(self)@.scroll.update(
                    4,
                    ScreenScroll { content: 0, content_x: 0, ..old(self)@.scroll[4] },
                ),
                ..old(self)@
            }),
    {
        self.knockout_column_cursor = 0;
        self.knockout_match_cursor = 0;
        let current = self.scroll[4];
        self.set_screen_scroll(Screen::Knockouts, ScreenScroll { content: 0, content_x: 0, ..current });
    }

    fn clamp_country_cursor(&mut self)
        requires
            old(self).wf(),
        ensures
            final(self).wf(),
            final(self).backing() == old(self).backing(),
            final(self)@ == (AppView {
                country_cursor: clamp_cursor(old(self)@.country_cursor, old(self).teams_listed().len() as int),
                ..old(self)@
            }),
    {
        let count = self.visible_team_count();
        self.country_cursor = if count == 0 {
            0
        } else if self.country_cursor < count - 1 {
            self.country_cursor
        } else {
            count - 1
        };
    }

    fn clamp_match_cursor(&mut self)
        requires
            old(self).wf(),
        ensures
            final(self).wf(),
            final(self).backing() == old(self).backing(),
            final(self)@ == (AppView {
                match_cursor: clamp_cursor(old(self)@.match_cursor, old(self).matches_listed().len() as int),
                ..old(self)@
            }),
    {
        let count = self.visible_match_count();
        self.match_cursor = if count == 0 {
            0
        } else if self.match_cursor < count - 1 {
            self.match_cursor
        } else {
            count - 1
        };
    }

    fn clamp_standing_group_cursor(&mut self)
        requires
            old(self).wf(),
        ensures
            final(self).wf(),
            final(self).backing() == old(self).backing(),
            final(self)@ == (AppView {
                standing_group_cursor: clamp_cursor(old(self)@.standing_group_cursor, old(self).standing_group_runs().len() as int),
                ..old(self)@
            }),
    {
        let count = self.visible_standing_group_ids().len();
        self.standing_group_cursor = if count == 0 {
            0
        } else if self.standing_group_cursor < count - 1 {
            self.standing_group_cursor
        } else {
            count - 1
        };
    }
}

/// What Esc does to the state.
pub open spec fn close_effect(v: AppView) -> AppView {
    if v.input_mode == InputMode::QuitConfirm {
        AppView { input_mode: InputMode::Normal, message: "Quit cancelled."@, ..v }
    } else if v.input_mode == InputMode::Search {
        AppView { input_mode: InputMode::Normal, message: "Search closed."@, ..v }
    } else if v.help_open {
        AppView { help_open: false, message: "Help overlay closed."@, ..v }
    } else if v.detail_open {
        if v.screen == Screen::Matches {
            let f = previous_focus(v.screen, v.focus_pane);
            AppView {
                detail_open: false,
                focus_pane: f,
                message: "Focus: "@ + focus_pane_label(f) + "."@,
                ..v
            }
        } else {
            AppView { detail_open: false, message: "Details closed."@, ..v }
        }
    } else {
        AppView { message: "Nothing to close."@, ..v }
    }
}

// ---------------------------------------------------------------------------
// Commands: loading, filters, sorting, search, favourites

/// The group filter that selects the group with identifier `id`.
pub open spec fn filter_for_group_text(id: Seq<char>) -> Option<StandingsFilter> {
    if exists|g: Group| group_id_text(g) == id {
        Some(filter_of_group(choose|g: Group| group_id_text(g) == id))
    } else {
        None
    }
}

pub open spec fn filter_of_group(g: Group) -> StandingsFilter {
    match g {
        Group::A => StandingsFilter::GroupA,
        Group::B => StandingsFilter::GroupB,
        Group::C => StandingsFilter::GroupC,
        Group::D => StandingsFilter::GroupD,
        Group::E => StandingsFilter::GroupE,
        Group::F => StandingsFilter::GroupF,
        Group::G => StandingsFilter::GroupG,
        Group::H => StandingsFilter::GroupH,
        Group::I => StandingsFilter::GroupI,
        Group::J => StandingsFilter::GroupJ,
        Group::K => StandingsFilter::GroupK,
        Group::L => StandingsFilter::GroupL,
    }
}

pub fn standings_filter_for_group_id(group_id: &GroupId) -> (r: Option<StandingsFilter>)
    ensures
        r == filter_for_group_text(group_id@),
{
    match Group::from_id(group_id.as_str()) {
        Ok(g) => {
            proof {
                crate::domain::tournament::group_id_round_trip(g, choose|x: Group| group_id_text(x) == group_id@);
            }
            Some(match g {
                Group::A => StandingsFilter::GroupA,
                Group::B => StandingsFilter::GroupB,
                Group::C => StandingsFilter::GroupC,
                Group::D => StandingsFilter::GroupD,
                Group::E => StandingsFilter::GroupE,
                Group::F => StandingsFilter::GroupF,
                Group::G => StandingsFilter::GroupG,
                Group::H => StandingsFilter::GroupH,
                Group::I => StandingsFilter::GroupI,
                Group::J => StandingsFilter::GroupJ,
                Group::K => StandingsFilter::GroupK,
                Group::L => StandingsFilter::GroupL,
            })
        },
        Err(_) => None,
    }
}

/// `s` without its last character, or `s` itself when it is empty.
pub open spec fn without_last(s: Seq<char>) -> Seq<char> {
    if s.len() == 0 {
        s
    } else {
        s.drop_last()
    }
}

impl App {
    /// Replaces the loaded data, keeps the cursors within the new lists, and
    /// reports the data as synced when there is any.
    pub fn set_snapshot(&mut self, snapshot: AppSnapshot)
        requires
            old(self).wf(),
        ensures
            final(self).wf(),
            final(self).data() == snapshot,
            final(self).clock() == old(self).clock(),
            final(self)@ == (AppView {
                country_cursor: clamp_cursor(old(self)@.country_cursor, final(self).teams_listed().len() as int),
                match_cursor: clamp_cursor(old(self)@.match_cursor, final(self).matches_listed().len() as int),
                standing_group_cursor: clamp_cursor(old(self)@.standing_group_cursor, final(self).standing_group_runs().len() as int),
                source_state: if snapshot.teams@.len() > 0 || snapshot.matches@.len() > 0 || snapshot.standings@.len() > 0 {
                    SourceState::Cached
                } else {
                    old(self)@.source_state
                },
                message: if snapshot.teams@.len() > 0 || snapshot.matches@.len() > 0 || snapshot.standings@.len() > 0 {
                    "Loaded data"@
                } else {
                    old(self)@.message
                },
                ..old(self)@
            }),
    {
        let loaded = snapshot.teams.len() > 0 || snapshot.matches.len() > 0 || snapshot.standings.len() > 0;
        self.snapshot = snapshot;
        self.refresh_match_days();
        self.clamp_country_cursor();
        self.clamp_match_cursor();
        self.clamp_standing_group_cursor();
        if loaded {
            self.source_status.state = SourceState::Cached;
            self.message = owned("Loaded data");
        }
    }

    /// Asks for a refresh of what the current screen shows.
    fn refresh_current_screen(&mut self)
        requires
            old(self).wf(),
        ensures
            final(self).wf(),
            final(self).backing() == old(self).backing(),
            refresh_requested(*old(self), *final(self)),
    {
        let count = self.refresh_resources().len();
        if count == 0 {
            self.message = concat2(self.screen.title(), " has no sync resources yet.");
            return;
        }
        self.source_status.state = SourceState::Refreshing;
        let mut m = concat2(self.screen.title(), " sync requested for ");
        crate::text::push_decimal(&mut m, count as u64);
        push_text(&mut m, " resource(s).");
        self.message = m;
    }

    #[verifier::spinoff_prover]
    #[verifier::rlimit(80)]
    fn toggle_favorite_only(&mut self)
        requires
            old(self).wf(),
        ensures
            final(self).wf(),
            final(self).backing() == old(self).backing(),
            favorites_only_toggled(*old(self), *final(self)),
    {
        self.favorite_only = !self.favorite_only;
        if self.screen == Screen::Countries {
            self.reset_country_selection();
        }
        if self.screen == Screen::Standings {
            self.reset_standing_group_selection();
        }
        self.message = if self.favorite_only {
            owned("Favorites filter enabled.")
        } else {
            owned("Favorites filter disabled.")
        };
    }

    /// Toggles a country filter in the selection: `All` clears it, and
    /// selecting every confederation is the same as selecting none.
    #[verifier::spinoff_prover]
    #[verifier::rlimit(60)]
    fn apply_country_toggle(&mut self, filter: CountriesFilter)
        requires
            old(self).wf(),
        ensures
            final(self).wf(),
            final(self).backing() == old(self).backing(),
            final(self)@ == (AppView { country_filters: final(self)@.country_filters, ..old(self)@ }),
            filter == CountriesFilter::All ==> final(self)@.country_filters.len() == 0,
            filter != CountriesFilter::All ==> (forall|x: CountriesFilter|
                final(self)@.country_filters.contains(x) <==> (old(self)@.country_filters.contains(x) != (x == filter)))
                || (final(self)@.country_filters.len() == 0 && forall|x: CountriesFilter| x != CountriesFilter::All ==>
                (old(self)@.country_filters.contains(x) != (x == filter))),
    {
        if filter.is_all() {
            self.country_filters = Vec::new();
            return;
        }
        let ghost before = self.country_filters@;
        toggle_country_filter_in(&mut self.country_filters, filter);
        assert(!self.country_filters@.contains(CountriesFilter::All)) by {
            assert(!before.contains(CountriesFilter::All));
        }
        if self.country_filters.len() == 6 {
            proof {
                lemma_all_confederations_selected(self.country_filters@);
            }
            self.country_filters = Vec::new();
        }
    }

    #[verifier::spinoff_prover]
    #[verifier::rlimit(80)]
    fn toggle_country_filter(&mut self, filter: CountriesFilter)
        requires
            old(self).wf(),
        ensures
            final(self).wf(),
            final(self).backing() == old(self).backing(),
            country_filter_toggled(*old(self), *final(self), filter),
    {
        if self.screen != Screen::Countries {
            self.message = owned("Country filters are available on Countries.");
            return;
        }
        self.apply_country_toggle(filter);
        self.reset_country_selection();
        let label = self.country_filter_label();
        self.message = concat3("Countries filter: ", label.as_str(), ".");
    }
}

/// Six countries filters in menu order without `All` are every
/// confederation.
proof fn lemma_all_confederations_selected(s: Seq<CountriesFilter>)
    requires
        s.len() == 6,
        countries_ordered(s),
        !s.contains(CountriesFilter::All),
    ensures
        forall|x: CountriesFilter| x != CountriesFilter::All ==> s.contains(x),
{
    assert forall|k: int| 0 <= k < 6 implies crate::app::views::countries_filter_rank(#[trigger] s[k]) == k + 1 by {
        assert forall|j: int| 0 <= j < 6 implies crate::app::views::countries_filter_rank(#[trigger] s[j]) >= 1 by {
            assert(s.contains(s[j]));
            if s[j] == CountriesFilter::All {
                assert(false);
            }
        }
        lemma_ranks_fill(s, k);
    }
    assert forall|x: CountriesFilter| x != CountriesFilter::All implies s.contains(x) by {
        let k = crate::app::views::countries_filter_rank(x) - 1;
        assert(crate::app::views::countries_filter_rank(s[k]) == k + 1);
        assert(s[k] == x) by {
            match x {
                CountriesFilter::All => {},
                _ => {
                    match s[k] {
                        _ => {},
                    }
                },
            }
        }
    }
}

proof fn lemma_ranks_fill(s: Seq<CountriesFilter>, k: int)
    requires
        s.len() == 6,
        countries_ordered(s),
        0 <= k < 6,
        forall|j: int| 0 <= j < 6 ==> crate::app::views::countries_filter_rank(#[trigger] s[j]) >= 1,
    ensures
        crate::app::views::countries_filter_rank(s[k]) == k + 1,
    decreases 6 - k,
{
    if k < 5 {
        lemma_ranks_fill(s, k + 1);
        assert(crate::app::views::countries_filter_rank(s[k]) < crate::app::views::countries_filter_rank(s[k + 1]));
    }
    if k > 0 {
        lemma_ranks_low(s, k);
    }
}

proof fn lemma_ranks_low(s: Seq<CountriesFilter>, k: int)
    requires
        s.len() == 6,
        countries_ordered(s),
        0 <= k < 6,
        forall|j: int| 0 <= j < 6 ==> crate::app::views::countries_filter_rank(#[trigger] s[j]) >= 1,
    ensures
        crate::app::views::countries_filter_rank(s[k]) >= k + 1,
    decreases k,
{
    if k > 0 {
        lemma_ranks_low(s, k - 1);
        assert(crate::app::views::countries_filter_rank(s[k - 1]) < crate::app::views::countries_filter_rank(s[k]));
    }
}

impl App {
    #[verifier::spinoff_prover]
    fn select_matches_filter(&mut self, filter: MatchesFilter)
        requires
            old(self).wf(),
        ensures
            final(self).wf(),
            final(self).backing() == old(self).backing(),
            matches_filter_selected(*old(self), *final(self), filter),
    {
        if self.screen != Screen::Matches {
            self.message = owned("Date filters are available on Matches.");
            return;
        }
        self.matches_filter = filter;
        self.reset_match_selection();
        self.message = concat3("Match date filter: ", filter.label(), ".");
    }

    #[verifier::spinoff_prover]
    fn apply_group_toggle(&mut self, group: StandingsFilter, for_matches: bool)
        requires
            old(self).wf(),
        ensures
            final(self).wf(),
            final(self).backing() == old(self).backing(),
            for_matches ==> final(self)@ == (AppView { match_groups: final(self)@.match_groups, ..old(self)@ }),
            !for_matches ==> final(self)@ == (AppView { standing_groups: final(self)@.standing_groups, ..old(self)@ }),
            for_matches && group == StandingsFilter::AllGroups ==> final(self)@.match_groups.len() == 0,
            for_matches && group != StandingsFilter::AllGroups ==> forall|x: StandingsFilter|
                final(self)@.match_groups.contains(x) <==> (old(self)@.match_groups.contains(x) != (x == group)),
            !for_matches && group == StandingsFilter::AllGroups ==> final(self)@.standing_groups.len() == 0,
            !for_matches && group != StandingsFilter::AllGroups ==> forall|x: StandingsFilter|
                final(self)@.standing_groups.contains(x) <==> (old(self)@.standing_groups.contains(x) != (x == group)),
    {
        if group.is_all() {
            if for_matches {
                self.match_groups = Vec::new();
            } else {
                self.standing_groups = Vec::new();
            }
        } else if for_matches {
            toggle_group_filter_in(&mut self.match_groups, group);
        } else {
            toggle_group_filter_in(&mut self.standing_groups, group);
        }
    }

    #[verifier::spinoff_prover]
    #[verifier::rlimit(80)]
    fn toggle_match_group(&mut self, group: StandingsFilter)
        requires
            old(self).wf(),
        ensures
            final(self).wf(),
            final(self).backing() == old(self).backing(),
            match_group_toggled(*old(self), *final(self), group),
    {
        if self.screen != Screen::Matches {
            self.message = owned("Group filters are available on Matches.");
            return;
        }
        let ghost v = self@;
        self.apply_group_toggle(group, true);
        let ghost groups = self@.match_groups;
        self.reset_match_selection();
        assert(self@ == AppView {
            match_groups: groups,
            match_cursor: 0,
            timeline_filters: Seq::empty(),
            scroll: v.scroll.update(2, ScreenScroll { content: 0, detail: 0, ..v.scroll[2] }),
            ..v
        });
        let label = self.match_group_label();
        self.message = concat3("Match groups: ", label.as_str(), ".");
    }

    #[verifier::spinoff_prover]
    #[verifier::rlimit(80)]
    fn toggle_standing_group(&mut self, group: StandingsFilter)
        requires
            old(self).wf(),
        ensures
            final(self).wf(),
            final(self).backing() == old(self).backing(),
            standing_group_toggled(*old(self), *final(self), group),
    {
        if self.screen != Screen::Standings {
            self.message = owned("Group filters are available on Standings.");
            return;
        }
        let ghost v = self@;
        self.apply_group_toggle(group, false);
        let ghost groups = self@.standing_groups;
        self.reset_standing_group_selection();
        assert(self@ == AppView {
            standing_groups: groups,
            standing_group_cursor: 0,
            scroll: v.scroll.update(3, with_content(v.scroll[3], 0)),
            ..v
        });
        let label = self.standing_group_label();
        self.message = concat3("Standings groups: ", label.as_str(), ".");
    }

    #[verifier::spinoff_prover]
    #[verifier::rlimit(80)]
    fn toggle_knockout_round(&mut self, round: KnockoutRoundFilter)
        requires
            old(self).wf(),
        ensures
            final(self).wf(),
            final(self).backing() == old(self).backing(),
            knockout_round_toggled(*old(self), *final(self), round),
    {
        if self.screen != Screen::Knockouts {
            self.message = owned("Round filters are available on Knock-outs.");
            return;
        }
        if round.is_all() {
            self.knockout_rounds = Vec::new();
        } else {
            toggle_round_filter_in(&mut self.knockout_rounds, round);
        }
        self.reset_knockout_selection();
        let label = self.knockout_round_label();
        self.message = concat3("Knock-out rounds: ", label.as_str(), ".");
    }

    #[verifier::spinoff_prover]
    fn select_stats_tab(&mut self, tab: StatsTab)
        requires
            old(self).wf(),
        ensures
            final(self).wf(),
            final(self).backing() == old(self).backing(),
            stats_tab_selected(*old(self), *final(self), tab),
    {
        if self.screen != Screen::Stats {
            self.message = owned("Stats tabs are available on Stats.");
            return;
        }
        self.stats_tab = tab;
        self.message = concat3("Stats tab: ", tab.label(), ".");
    }

    #[verifier::spinoff_prover]
    fn toggle_timeline_filter(&mut self, filter: TimelineFilter)
        requires
            old(self).wf(),
        ensures
            final(self).wf(),
            final(self).backing() == old(self).backing(),
            timeline_filter_toggled(*old(self), *final(self), filter),
    {
        if self.screen != Screen::Matches || self.focus_pane != FocusPane::Detail {
            self.message = owned("Timeline filters are available in focused match details.");
            return;
        }
        toggle_timeline_filter_in(&mut self.timeline_filters, filter);
        let current = self.scroll[2];
        self.set_screen_scroll(Screen::Matches, ScreenScroll { detail: 0, ..current });
        let label = self.timeline_filter_label();
        self.message = concat3("Timeline filters: ", label.as_str(), ".");
    }

    #[verifier::spinoff_prover]
    fn toggle_sort(&mut self)
        requires
            old(self).wf(),
        ensures
            final(self).wf(),
            final(self).backing() == old(self).backing(),
            sort_toggled(*old(self), *final(self)),
    {
        match self.screen {
            Screen::Countries => {
                self.countries_sort = self.countries_sort.toggle();
                self.clamp_country_cursor();
                self.message = concat3("Countries sort: ", self.countries_sort.label(), ".");
            },
            Screen::Standings => {
                self.standings_sort = self.standings_sort.toggle();
                self.reset_standing_group_selection();
                self.message = concat3("Standings sort: ", self.standings_sort.label(), ".");
            },
            _ => {
                self.message = owned("Sort is available on Countries and Standings.");
            },
        }
    }

    #[verifier::spinoff_prover]
    fn start_search(&mut self)
        requires
            old(self).wf(),
        ensures
            final(self).wf(),
            final(self).backing() == old(self).backing(),
            search_started(*old(self), *final(self)),
    {
        self.input_mode = InputMode::Search;
        self.help_open = false;
        self.message = owned("Search mode. Type to filter, Enter to apply, Esc to close.");
    }

    /// Every list's selection goes back to its first entry.
    #[verifier::spinoff_prover]
    fn reset_all_selections(&mut self)
        requires
            old(self).wf(),
        ensures
            final(self).wf(),
            final(self).backing() == old(self).backing(),
            final(self)@ == all_selections_reset(old(self)@),
    {
        let ghost v = self@;
        self.reset_country_selection();
        self.reset_match_selection();
        self.reset_standing_group_selection();
        self.reset_knockout_selection();
        assert(self@.scroll =~= all_selections_reset(v).scroll);
    }

    #[verifier::spinoff_prover]
    fn search_input(&mut self, character: char)
        requires
            old(self).wf(),
        ensures
            final(self).wf(),
            final(self).backing() == old(self).backing(),
            search_typed(*old(self), *final(self), character),
    {
        if !crate::text::is_control_char(character) {
            crate::text::push_char(&mut self.search_query, character);
            self.reset_all_selections();
        }
    }

    #[verifier::spinoff_prover]
    fn search_backspace(&mut self)
        requires
            old(self).wf(),
        ensures
            final(self).wf(),
            final(self).backing() == old(self).backing(),
            search_erased(*old(self), *final(self)),
    {
        let chars = chars_of(self.search_query.as_str());
        if chars.len() > 0 {
            let mut kept: Vec<char> = Vec::new();
            let mut i: usize = 0;
            while i < chars.len() - 1
                invariant
                    chars@.len() > 0,
                    i <= chars@.len() - 1,
                    kept@ == chars@.take(i as int),
                decreases chars@.len() - i,
            {
                kept.push(chars[i]);
                assert(chars@.take(i + 1) =~= chars@.take(i as int).push(chars@[i as int]));
                i = i + 1;
            }
            assert(kept@ =~= chars@.drop_last());
            self.search_query = crate::text::string_from_chars(kept.as_slice());
        }
        self.reset_all_selections();
    }

    #[verifier::spinoff_prover]
    #[verifier::rlimit(80)]
    fn submit_search(&mut self)
        requires
            old(self).wf(),
        ensures
            final(self).wf(),
            final(self).backing() == old(self).backing(),
            search_submitted(*old(self), *final(self)),
    {
        self.input_mode = InputMode::Normal;
        self.reset_all_selections();
        if self.search_query.as_str().is_empty() {
            self.message = owned("Search cleared.");
        } else {
            self.message = concat3("Search filter set to '", self.search_query.as_str(), "'.");
        }
    }

    /// Jumps from the standings to the matches of the selected group.
    #[verifier::spinoff_prover]
    #[verifier::rlimit(80)]
    fn open_selected_standing_group_matches(&mut self)
        requires
            old(self).wf(),
        ensures
            final(self).wf(),
            final(self).backing() == old(self).backing(),
            group_matches_opened(*old(self), *final(self)),
    {
        if self.screen != Screen::Standings {
            self.message = owned("Focused group matches are available on Standings.");
            return;
        }
        let group_id = match self.selected_standing_group_id() {
            Some(g) => g,
            None => {
                self.message = owned("No standings group selected.");
                return;
            },
        };
        let group = match standings_filter_for_group_id(&group_id) {
            Some(g) => g,
            None => {
                self.message = owned("Selected standings group is unknown.");
                return;
            },
        };
        let ghost v = self@;
        self.screen = Screen::Matches;
        self.input_mode = InputMode::Normal;
        self.help_open = false;
        self.detail_open = false;
        self.focus_pane = FocusPane::Content;
        self.matches_filter = MatchesFilter::All;
        self.match_groups = vec![group];
        assert(self.match_groups@ =~= seq![group]);
        assert(groups_ordered(self.match_groups@));
        self.reset_match_selection();
        self.message = concat3("Matches filtered to ", group.label(), ".");
        assert(self@ == AppView {
            screen: Screen::Matches,
            input_mode: InputMode::Normal,
            help_open: false,
            detail_open: false,
            focus_pane: FocusPane::Content,
            matches_filter: MatchesFilter::All,
            match_groups: seq![group],
            match_cursor: 0,
            timeline_filters: Seq::empty(),
            scroll: v.scroll.update(2, ScreenScroll { content: 0, detail: 0, ..v.scroll[2] }),
            message: "Matches filtered to "@ + standings_filter_label(group) + "."@,
            ..v
        });
    }

    /// Adds the selected country to the favourites, or removes it.
    #[verifier::spinoff_prover]
    #[verifier::rlimit(100)]
    fn toggle_selected_country_favorite(&mut self)
        requires
            old(self).wf(),
        ensures
            final(self).wf(),
            final(self).clock() == old(self).clock(),
            selected_country_favorite_toggled(*old(self), *final(self)),
    {
        if self.screen != Screen::Countries {
            self.message = owned("Favorite country actions are available on Countries.");
            return;
        }
        let (team_id, team_name, was_favorite) = match self.selected_country_action() {
            Some(a) => a,
            None => {
                self.message = owned("No country selected.");
                return;
            },
        };
        let ghost p = selected_entry(self.teams_listed(), self@.country_cursor)->Some_0;
        let _order = self.visible_team_order();
        let n = self.snapshot.teams.len();
        proof {
            self.lemma_team_list_bounds();
            lemma_team_position_found(self.snapshot.teams@, p as int, team_id@);
        }
        self.flip_favorite(&team_id, &team_name, was_favorite);
    }

    #[verifier::spinoff_prover]
    #[verifier::rlimit(100)]
    fn flip_favorite(&mut self, team_id: &TeamId, team_name: &String, was_favorite: bool)
        requires
            old(self).wf(),
            team_position(old(self).data().teams@, team_id@) is Some,
        ensures
            final(self).wf(),
            final(self).clock() == old(self).clock(),
            ({
                let q = team_position(old(self).data().teams@, team_id@)->Some_0;
                &&& final(self)@ == AppView {
                    message: (if was_favorite { "Removed"@ } else { "Added"@ }) + " favorite: "@ + team_name@ + "."@,
                    ..old(self)@
                }
                &&& final(self).data().teams@ == old(self).data().teams@.update(q, Team { favorite: !was_favorite, ..old(self).data().teams@[q] })
                &&& final(self).data().matches@ == old(self).data().matches@
                &&& final(self).data().standings@ == old(self).data().standings@
                &&& final(self).data().timeline_events@ == old(self).data().timeline_events@
                &&& final(self).data().top_scorers@ == old(self).data().top_scorers@
            }),
    {
        let i = match position_of_team(&self.snapshot.teams, team_id) {
            Some(i) => i,
            None => {
                return;
            },
        };
        let ghost v = self@;
        self.set_team_favorite(i, !was_favorite);
        assert(self@ == v);
        let mut m = owned(if was_favorite {
            "Removed"
        } else {
            "Added"
        });
        push_text(&mut m, " favorite: ");
        push_text(&mut m, team_name.as_str());
        push_text(&mut m, ".");
        self.message = m;
    }
}

fn position_of_team(teams: &Vec<Team>, id: &TeamId) -> (r: Option<usize>)
    ensures
        match r {
            Some(i) => i < teams@.len() && team_position(teams@, id@) == Some(i as int),
            None => team_position(teams@, id@) is None,
        },
{
    let mut i: usize = 0;
    while i < teams.len()
        invariant
            i <= teams@.len(),
            team_position(teams@.take(i as int), id@) is None,
        decreases teams@.len() - i,
    {
        assert(teams@.take(i + 1).drop_last() =~= teams@.take(i as int));
        if teams[i].id == *id {
            proof {
                lemma_team_position_prefix(teams@, i as int + 1, id@);
            }
            return Some(i);
        }
        i = i + 1;
    }
    assert(teams@.take(i as int) =~= teams@);
    None
}

impl App {
    fn set_team_favorite(&mut self, i: usize, favorite: bool)
        requires
            old(self).wf(),
            i < old(self).data().teams@.len(),
        ensures
            final(self).wf(),
            final(self)@ == old(self)@,
            final(self).clock() == old(self).clock(),
            final(self).data().teams@ == old(self).data().teams@.update(i as int, Team { favorite, ..old(self).data().teams@[i as int] }),
            final(self).data().matches@ == old(self).data().matches@,
            final(self).data().standings@ == old(self).data().standings@,
            final(self).data().timeline_events@ == old(self).data().timeline_events@,
            final(self).data().top_scorers@ == old(self).data().top_scorers@,
    {
        let mut team = self.snapshot.teams[i].clone();
        team.favorite = favorite;
        self.snapshot.teams.set(i, team);
    }
}

proof fn lemma_team_position_found(s: Seq<Team>, p: int, id: Seq<char>)
    requires
        0 <= p < s.len(),
        s[p].id@ == id,
    ensures
        team_position(s, id) is Some,
        team_position(s, id)->Some_0 < s.len(),
        s[team_position(s, id)->Some_0].id@ == id,
    decreases s.len(),
{
    lemma_team_position_props(s, id);
}

proof fn lemma_team_position_props(s: Seq<Team>, id: Seq<char>)
    ensures
        team_position(s, id) matches Some(q) ==> 0 <= q < s.len() && s[q].id@ == id,
        (exists|p: int| 0 <= p < s.len() && #[trigger] s[p].id@ == id) ==> team_position(s, id) is Some,
    decreases s.len(),
{
    if s.len() > 0 {
        lemma_team_position_props(s.drop_last(), id);
        if exists|p: int| 0 <= p < s.len() && #[trigger] s[p].id@ == id {
            let p = choose|p: int| 0 <= p < s.len() && #[trigger] s[p].id@ == id;
            if p < s.len() - 1 {
                assert(s.drop_last()[p].id@ == id);
            }
        }
        if team_position(s.drop_last(), id) is Some {
            let q = team_position(s.drop_last(), id)->Some_0;
            assert(s.drop_last()[q] == s[q]);
        }
    }
}

/// All list selections back at their first entry, with their scroll
/// positions; the timeline filters are cleared.
pub open spec fn all_selections_reset(v: AppView) -> AppView {
    AppView {
        country_cursor: 0,
        match_cursor: 0,
        standing_group_cursor: 0,
        knockout_column_cursor: 0,
        knockout_match_cursor: 0,
        timeline_filters: Seq::empty(),
        scroll: v.scroll.update(1, with_content(v.scroll[1], 0)).update(
            2,
            ScreenScroll { content: 0, detail: 0, ..v.scroll[2] },
        ).update(3, with_content(v.scroll[3], 0)).update(
            4,
            ScreenScroll { content: 0, content_x: 0, ..v.scroll[4] },
        ),
        ..v
    }
}

// ---------------------------------------------------------------------------
// Commands: scrolling and moving selections

pub open spec fn sat_sub(a: int, b: int) -> int {
    if a > b {
        a - b
    } else {
        0
    }
}

pub open spec fn sat_add_u16(a: int, b: int) -> int {
    if a + b > u16::MAX {
        u16::MAX as int
    } else {
        a + b
    }
}

pub open spec fn min_int(a: int, b: int) -> int {
    if a < b {
        a
    } else {
        b
    }
}

pub open spec fn max_int(a: int, b: int) -> int {
    if a > b {
        a
    } else {
        b
    }
}

/// The scroll that keeps the selected match row in view: the row's line
/// (under a five-line header; the first row when details are open), minus
/// the lines that fit, never past `max_scroll`.
pub open spec fn match_row_scroll(detail_open: bool, cursor: usize, max_scroll: u16, visible_lines: u16) -> u16 {
    let row = if detail_open { 0 } else { min_int(cursor as int, u16::MAX as int) };
    let line = sat_add_u16(5, row);
    min_int(sat_sub(sat_add_u16(line, 1), max_int(visible_lines as int, 1)), max_scroll as int) as u16
}

/// The scroll that shows a group block starting at line `start` with
/// `rows` team rows: none for the first block, otherwise as much of the block
/// as fits, never past `max_scroll`.
pub open spec fn block_scroll(start: int, rows: int, max_scroll: u16, visible_lines: u16) -> u16 {
    if start == 4 {
        0
    } else {
        let v = max_int(visible_lines as int, 1);
        let height = sat_add_u16(rows, 2);
        min_int(sat_sub(sat_add_u16(start, min_int(height, v)), v), max_scroll as int) as u16
    }
}

/// How the standings content is laid out, walking the listed rows: each
/// group block has a blank line before it (but the first), a title and a
/// header line, then its rows, under four header lines. The state after the
/// rows: the group being laid out, the next line, where the selected group's
/// block starts, how many rows it has, whether the walk is inside it, and
/// the block once the walk has left it.
pub open spec fn layout_walk(ids: Seq<Seq<char>>, sel: Seq<char>) -> (Option<Seq<char>>, int, int, int, bool, Option<(int, int)>)
    decreases ids.len(),
{
    if ids.len() == 0 {
        (None, 4, 0, 0, false, None)
    } else {
        let (cur, line, start, rows, in_sel, fin) = layout_walk(ids.drop_last(), sel);
        if fin is Some {
            (cur, line, start, rows, in_sel, fin)
        } else {
            let id = ids.last();
            if cur != Some(id) && in_sel {
                (cur, line, start, rows, in_sel, Some((start, rows)))
            } else {
                let (cur2, line2, start2, rows2, in2) = if cur != Some(id) {
                    let l1 = if cur is Some { line + 1 } else { line };
                    let ins = id == sel;
                    (Some(id), l1 + 2, if ins { l1 } else { start }, if ins { 0 } else { rows }, ins)
                } else {
                    (cur, line, start, rows, in_sel)
                };
                (cur2, line2 + 1, start2, if in2 { rows2 + 1 } else { rows2 }, in2, None)
            }
        }
    }
}

/// The scroll that brings the selected standings group into view.
pub open spec fn group_scroll(ids: Seq<Seq<char>>, sel: Option<Seq<char>>, max_scroll: u16, visible_lines: u16) -> u16 {
    match sel {
        None => 0,
        Some(g) => {
            let (cur, line, start, rows, in_sel, fin) = layout_walk(ids, g);
            match fin {
                Some((st, rw)) => block_scroll(st, rw, max_scroll, visible_lines),
                None => if in_sel {
                    block_scroll(start, rows, max_scroll, visible_lines)
                } else {
                    0
                },
            }
        }
    }
}

proof fn lemma_walk_bounds(ids: Seq<Seq<char>>, sel: Seq<char>)
    ensures
        ({
            let (cur, line, start, rows, in_sel, fin) = layout_walk(ids, sel);
            &&& 4 <= line <= 4 + 4 * ids.len()
            &&& 0 <= start <= line
            &&& 0 <= rows <= ids.len()
            &&& (fin matches Some((st, rw)) ==> 0 <= st <= line && 0 <= rw <= ids.len())
        }),
    decreases ids.len(),
{
    if ids.len() > 0 {
        lemma_walk_bounds(ids.drop_last(), sel);
    }
}

fn standing_group_scroll_for_block(group_start: u16, group_rows: u16, max_scroll: u16, visible_lines: u16) -> (r: u16)
    ensures
        r == block_scroll(group_start as int, group_rows as int, max_scroll, visible_lines),
{
    if group_start == 4 {
        return 0;
    }
    let v = if visible_lines > 1 {
        visible_lines
    } else {
        1
    };
    let height = group_rows.saturating_add(2);
    let shown = if height < v {
        height
    } else {
        v
    };
    let end = group_start.saturating_add(shown);
    let top = end.saturating_sub(v);
    if top < max_scroll {
        top
    } else {
        max_scroll
    }
}

impl App {
    /// The group identifiers of the listed standing rows, in order.
    pub open spec fn listed_group_ids(&self) -> Seq<Seq<char>> {
        self.standings_listed().map_values(|p: usize| self.data().standings@[p as int].group_id@)
    }

    /// The selected standings group, if any.
    pub open spec fn selected_group_run(&self) -> Option<Seq<char>> {
        let runs = self.standing_group_runs();
        if runs.len() == 0 {
            None
        } else {
            Some(runs[if self@.standing_group_cursor < runs.len() { self@.standing_group_cursor as int } else { runs.len() - 1 }])
        }
    }

    fn selected_match_scroll(&self, max_scroll: u16, visible_lines: u16) -> (r: u16)
        ensures
            r == match_row_scroll(self@.detail_open, self@.match_cursor, max_scroll, visible_lines),
    {
        let row: u16 = if self.detail_open {
            0
        } else if self.match_cursor < 65535 {
            self.match_cursor as u16
        } else {
            65535
        };
        let line = 5u16.saturating_add(row);
        let top = line.saturating_add(1).saturating_sub(if visible_lines > 1 {
            visible_lines
        } else {
            1
        });
        if top < max_scroll {
            top
        } else {
            max_scroll
        }
    }

    /// The scroll that brings the selected standings group into view.
    fn selected_standing_group_scroll(&self, max_scroll: u16, visible_lines: u16) -> (r: u16)
        requires
            self.data().standings@.len() < 16000,
        ensures
            r == group_scroll(self.listed_group_ids(), self.selected_group_run(), max_scroll, visible_lines),
    {
        let selected = match self.selected_standing_group_id() {
            Some(g) => g,
            None => {
                return 0;
            },
        };
        let order = self.visible_standing_order();
        let rows = self.visible_standings();
        let ghost ids = self.listed_group_ids();
        let mut current: Option<GroupId> = None;
        let mut line: u16 = 4;
        let mut start: u16 = 0;
        let mut count: u16 = 0;
        let mut in_selected = false;
        let mut i: usize = 0;
        proof {
            let data_rows = self.snapshot.standings@;
            lemma_kept_len(data_rows.len(), |i: int| standing_shown(standing_query(self@), self.snapshot.teams@, data_rows[i]));
            assert forall|k: int| 0 <= k < rows@.len() implies rows@[k].group_id@ == #[trigger] ids[k] by {
                assert(ids[k] == self.snapshot.standings@[self.standings_listed()[k] as int].group_id@);
            }
        }
        while i < rows.len()
            invariant
                i <= rows@.len(),
                rows@.len() == ids.len(),
                rows@.len() < 16000,
                ids == self.listed_group_ids(),
                self.selected_group_run() == Some(selected@),
                forall|k: int| 0 <= k < rows@.len() ==> rows@[k].group_id@ == #[trigger] ids[k],
                ({
                    let (cur, l, st, rw, ins, fin) = layout_walk(ids.take(i as int), selected@);
                    &&& fin is None
                    &&& group_id_view(current) == cur
                    &&& line as int == l
                    &&& start as int == st
                    &&& count as int == rw
                    &&& in_selected == ins
                }),
            decreases rows@.len() - i,
        {
            proof {
                lemma_walk_bounds(ids.take(i as int), selected@);
                assert(ids.take(i + 1).drop_last() =~= ids.take(i as int));
                assert(ids.take(i + 1).last() == ids[i as int]);
            }
            let row = rows[i];
            let same = match &current {
                Some(c) => *c == row.group_id,
                None => false,
            };
            if !same {
                if in_selected {
                    proof {
                        let (c0, l0, s0, r0, in0, f0) = layout_walk(ids.take(i as int), selected@);
                        assert(c0 != Some(ids[i as int]));
                        assert(layout_walk(ids.take(i + 1), selected@).5 == Some((s0, r0)));
                        lemma_walk_stops(ids, i + 1, selected@);
                    }
                    return standing_group_scroll_for_block(start, count, max_scroll, visible_lines);
                }
                if current.is_some() {
                    line = line + 1;
                }
                current = Some(row.group_id.clone());
                in_selected = row.group_id == selected;
                if in_selected {
                    start = line;
                    count = 0;
                }
                line = line + 2;
            }
            if in_selected {
                count = count + 1;
            }
            line = line + 1;
            i = i + 1;
        }
        proof {
            assert(ids.take(i as int) =~= ids);
        }
        if in_selected {
            standing_group_scroll_for_block(start, count, max_scroll, visible_lines)
        } else {
            0
        }
    }
}

pub open spec fn group_id_view(o: Option<GroupId>) -> Option<Seq<char>> {
    match o {
        Some(g) => Some(g@),
        None => None,
    }
}

proof fn lemma_kept_len(n: nat, keep: spec_fn(int) -> bool)
    ensures
        kept_positions(n, keep).len() <= n,
    decreases n,
{
    if n > 0 {
        lemma_kept_len((n - 1) as nat, keep);
    }
}

/// Once the walk has left the selected group, the rest of the rows change
/// nothing.
proof fn lemma_walk_stops(ids: Seq<Seq<char>>, k: int, sel: Seq<char>)
    requires
        0 <= k <= ids.len(),
        layout_walk(ids.take(k), sel).5 is Some,
    ensures
        layout_walk(ids, sel) == layout_walk(ids.take(k), sel),
    decreases ids.len() - k,
{
    if k < ids.len() {
        assert(ids.take(k + 1).drop_last() =~= ids.take(k));
        lemma_walk_stops(ids, k + 1, sel);
    } else {
        assert(ids.take(k) =~= ids);
    }
}

/// The message naming a selected country.
pub open spec fn country_message(teams: Seq<Team>, entry: Option<usize>) -> Seq<char> {
    match entry {
        Some(p) => "Selected country: "@ + teams[p as int].name@ + "."@,
        None => "No country selected."@,
    }
}

/// The message naming a selected match.
pub open spec fn match_message(matches: Seq<Match>, entry: Option<usize>) -> Seq<char> {
    match entry {
        Some(p) => "Selected match: "@ + matches[p as int].home_team_name@ + " vs "@ + matches[p as int].away_team_name@ + "."@,
        None => "No match selected."@,
    }
}

/// The message naming a selected standings group.
pub open spec fn group_message(sel: Option<Seq<char>>) -> Seq<char> {
    match sel {
        Some(id) => match filter_for_group_text(id) {
            Some(f) => "Selected standings group: "@ + standings_filter_label(f) + "."@,
            None => "No standings group selected."@,
        },
        None => "No standings group selected."@,
    }
}

pub open spec fn content_of(v: AppView) -> u16 {
    v.scroll[screen_position(v.screen)].content
}

pub open spec fn detail_of(v: AppView) -> u16 {
    v.scroll[screen_position(v.screen)].detail
}

impl App {
    fn country_selection_message(&self) -> (r: String)
        ensures
            r@ == country_message(self.data().teams@, selected_entry(self.teams_listed(), self@.country_cursor)),
    {
        match self.selected_country() {
            Some(t) => concat3("Selected country: ", t.name.as_str(), "."),
            None => owned("No country selected."),
        }
    }

    fn match_selection_message(&self) -> (r: String)
        requires
            self.wf(),
        ensures
            r@ == match_message(self.data().matches@, selected_entry(self.matches_listed(), self@.match_cursor)),
    {
        match self.selected_match() {
            Some(m) => {
                let mut s = concat3("Selected match: ", m.home_team_name.as_str(), " vs ");
                push_text(&mut s, m.away_team_name.as_str());
                push_text(&mut s, ".");
                s
            },
            None => owned("No match selected."),
        }
    }

    fn group_selection_message(&self) -> (r: String)
        ensures
            r@ == group_message(self.selected_group_run()),
    {
        match self.selected_standing_group_id() {
            Some(id) => match standings_filter_for_group_id(&id) {
                Some(f) => concat3("Selected standings group: ", f.label(), "."),
                None => owned("No standings group selected."),
            },
            None => owned("No standings group selected."),
        }
    }

    #[verifier::spinoff_prover]
    fn move_country_selection(&mut self, up: bool, max_scroll: u16)
        requires
            old(self).wf(),
        ensures
            final(self).wf(),
            final(self).backing() == old(self).backing(),
            country_selection_moved(*old(self), *final(self), up, max_scroll),
    {
        if up {
            self.clamp_country_cursor();
            self.country_cursor = if self.country_cursor > 0 {
                self.country_cursor - 1
            } else {
                0
            };
        } else {
            let count = self.visible_team_count();
            if count == 0 {
                self.country_cursor = 0;
                self.message = owned("No country selected.");
                return;
            }
            self.country_cursor = if self.country_cursor < count - 1 {
                self.country_cursor + 1
            } else {
                count - 1
            };
        }
        let c = self.country_cursor as u16;
        let screen = self.screen;
        self.set_content_scroll(screen, if c < max_scroll {
            c
        } else {
            max_scroll
        });
        self.message = self.country_selection_message();
    }

    #[verifier::spinoff_prover]
    #[verifier::rlimit(100)]
    fn move_match_selection(&mut self, up: bool, max_scroll: u16, visible_lines: u16)
        requires
            old(self).wf(),
        ensures
            final(self).wf(),
            final(self).backing() == old(self).backing(),
            match_selection_moved(*old(self), *final(self), up, max_scroll, visible_lines),
    {
        let ghost listed = self.matches_listed();
        let ghost data = self.data().matches@;
        let previous;
        if up {
            self.clamp_match_cursor();
            assert(self.matches_listed() == listed);
            previous = self.match_cursor;
            self.match_cursor = if self.match_cursor > 0 {
                self.match_cursor - 1
            } else {
                0
            };
        } else {
            let count = self.visible_match_count();
            if count == 0 {
                self.match_cursor = 0;
                self.message = owned("No match selected.");
                return;
            }
            previous = self.match_cursor;
            self.match_cursor = if self.match_cursor < count - 1 {
                self.match_cursor + 1
            } else {
                count - 1
            };
        }
        assert(self.matches_listed() == listed);
        self.finish_match_move(previous, max_scroll, visible_lines);
    }

    /// After the match cursor moved from `previous`: the timeline filters
    /// and detail scroll start afresh if the selection changed, the content
    /// scroll follows the selection, and the message names it.
    #[verifier::spinoff_prover]
    #[verifier::rlimit(60)]
    fn finish_match_move(&mut self, previous: usize, max_scroll: u16, visible_lines: u16)
        requires
            old(self).wf(),
        ensures
            final(self).wf(),
            final(self).backing() == old(self).backing(),
            ({
                let v = old(self)@;
                let moved = v.match_cursor != previous;
                let base = if moved { v.scroll.update(2, ScreenScroll { detail: 0, ..v.scroll[2] }) } else { v.scroll };
                final(self)@ == AppView {
                    timeline_filters: if moved { Seq::empty() } else { v.timeline_filters },
                    scroll: base.update(
                        screen_position(v.screen),
                        with_content(base[screen_position(v.screen)], match_row_scroll(v.detail_open, v.match_cursor, max_scroll, visible_lines)),
                    ),
                    message: match_message(old(self).data().matches@, selected_entry(old(self).matches_listed(), v.match_cursor)),
                    ..v
                }
            }),
    {
        if self.match_cursor != previous {
            self.reset_match_detail_view();
        }
        let top = self.selected_match_scroll(max_scroll, visible_lines);
        let screen = self.screen;
        self.set_content_scroll(screen, top);
        self.message = self.match_selection_message();
    }

    #[verifier::spinoff_prover]
    #[verifier::rlimit(40)]
    fn move_standing_group_selection(&mut self, up: bool, max_scroll: u16, visible_lines: u16)
        requires
            old(self).wf(),
            old(self).data().standings@.len() < 16000,
        ensures
            final(self).wf(),
            final(self).backing() == old(self).backing(),
            group_selection_moved(*old(self), *final(self), up, max_scroll, visible_lines),
    {
        if up {
            self.clamp_standing_group_cursor();
            self.standing_group_cursor = if self.standing_group_cursor > 0 {
                self.standing_group_cursor - 1
            } else {
                0
            };
        } else {
            let count = self.visible_standing_group_ids().len();
            if count == 0 {
                self.standing_group_cursor = 0;
                self.message = owned("No standings group selected.");
                return;
            }
            self.standing_group_cursor = if self.standing_group_cursor < count - 1 {
                self.standing_group_cursor + 1
            } else {
                count - 1
            };
        }
        let top = self.selected_standing_group_scroll(max_scroll, visible_lines);
        let ghost before = *self;
        self.set_content_scroll(Screen::Standings, top);
        let m = self.group_selection_message();
        self.message = m;
        assert(self.listed_group_ids() == before.listed_group_ids());
        assert(self.selected_group_run() == before.selected_group_run());
    }
}

/// One column to the left in the bracket's horizontal scroll: back to the
/// start of the column being shown, or of the previous one when already at
/// a start.
pub open spec fn previous_column_scroll(current: int) -> int {
    if current == 0 {
        0
    } else if current % 27 == 0 {
        sat_sub(current, 27)
    } else {
        current - current % 27
    }
}

/// One column to the right: the start of the next column, within `max`.
pub open spec fn next_column_scroll(current: int, max: int) -> int {
    min_int(sat_sub(sat_add_u16(current, 27), current % 27), max)
}

impl App {
    fn scroll_content_vertically(&mut self, up: bool, max: u16)
        requires
            old(self).wf(),
        ensures
            final(self).wf(),
            final(self).backing() == old(self).backing(),
            content_scrolled(*old(self), *final(self), up, max),
    {
        let i = self.screen.index();
        let current = self.scroll[i];
        let next = if up {
            let c = if current.content < max {
                current.content
            } else {
                max
            };
            c.saturating_sub(1)
        } else {
            let c = current.content.saturating_add(1);
            if c < max {
                c
            } else {
                max
            }
        };
        self.scroll.set(i, ScreenScroll { content: next, ..current });
        let mut m = owned("Content scroll: ");
        crate::text::push_decimal(&mut m, next as u64);
        push_text(&mut m, ".");
        self.message = m;
    }

    fn scroll_detail_vertically(&mut self, up: bool, max: u16)
        requires
            old(self).wf(),
        ensures
            final(self).wf(),
            final(self).backing() == old(self).backing(),
            detail_scrolled(*old(self), *final(self), up, max),
    {
        let i = self.screen.index();
        let current = self.scroll[i];
        let next = if up {
            let c = if current.detail < max {
                current.detail
            } else {
                max
            };
            c.saturating_sub(1)
        } else {
            let c = current.detail.saturating_add(1);
            if c < max {
                c
            } else {
                max
            }
        };
        self.scroll.set(i, ScreenScroll { detail: next, ..current });
        let mut m = owned("Detail scroll: ");
        crate::text::push_decimal(&mut m, next as u64);
        push_text(&mut m, ".");
        self.message = m;
    }

    /// Up or Down: moves the selection of the focused list, or scrolls the
    /// focused panel.
    #[verifier::spinoff_prover]
    fn scroll_vertically(&mut self, up: bool, max: u16, visible_lines: u16)
        requires
            old(self).wf(),
            old(self)@.screen == Screen::Standings && old(self)@.focus_pane == FocusPane::Content ==> old(
                self,
            ).data().standings@.len() < 16000,
        ensures
            final(self).wf(),
            final(self).backing() == old(self).backing(),
            scrolled_vertically(*old(self), *final(self), up, max, visible_lines),
            final(self)@.screen == old(self)@.screen,
            final(self)@.focus_pane == old(self)@.focus_pane,
            final(self)@.running == old(self)@.running,
    {
        match self.focus_pane {
            FocusPane::Unfocused => {
                self.message = owned("Focus a panel with Tab before scrolling.");
            },
            FocusPane::Content => {
                if self.screen == Screen::Countries && self.visible_team_count() > 0 {
                    self.move_country_selection(up, max);
                    return;
                }
                if self.screen == Screen::Matches && self.visible_match_count() > 0 {
                    self.move_match_selection(up, max, visible_lines);
                    return;
                }
                if self.screen == Screen::Standings && self.visible_standing_group_ids().len() > 1 {
                    self.move_standing_group_selection(up, max, visible_lines);
                    return;
                }
                self.scroll_content_vertically(up, max);
            },
            FocusPane::Detail => {
                self.scroll_detail_vertically(up, max);
            },
        }
    }

    fn pan_content(&mut self, left: bool, max: u16)
        requires
            old(self).wf(),
        ensures
            final(self).wf(),
            final(self).backing() == old(self).backing(),
            ({
                let v = old(self)@;
                let next = content_pan_target(v, left, max);
                final(self)@ == AppView {
                    scroll: v.scroll.update(screen_position(v.screen), ScreenScroll { content_x: next as u16, ..v.scroll[screen_position(v.screen)] }),
                    message: "Content pan: "@ + crate::text::decimal(next as nat) + "."@,
                    ..v
                }
            }),
    {
        let i = self.screen.index();
        let current = self.scroll[i];
        let cur = if current.content_x < max {
            current.content_x
        } else {
            max
        };
        let next = if self.screen == Screen::Knockouts {
            if left {
                previous_knockout_column_scroll(cur)
            } else {
                next_knockout_column_scroll(cur, max)
            }
        } else if left {
            cur.saturating_sub(4)
        } else {
            let n = cur.saturating_add(4);
            if n < max {
                n
            } else {
                max
            }
        };
        self.scroll.set(i, ScreenScroll { content_x: next, ..current });
        let mut m = owned("Content pan: ");
        crate::text::push_decimal(&mut m, next as u64);
        push_text(&mut m, ".");
        self.message = m;
    }

    fn pan_detail(&mut self, left: bool, max: u16)
        requires
            old(self).wf(),
        ensures
            final(self).wf(),
            final(self).backing() == old(self).backing(),
            ({
                let v = old(self)@;
                let next = detail_pan_target(v, left, max);
                final(self)@ == AppView {
                    scroll: v.scroll.update(screen_position(v.screen), ScreenScroll { detail_x: next as u16, ..v.scroll[screen_position(v.screen)] }),
                    message: "Detail pan: "@ + crate::text::decimal(next as nat) + "."@,
                    ..v
                }
            }),
    {
        let i = self.screen.index();
        let current = self.scroll[i];
        let next = if left {
            let c = if current.detail_x < max {
                current.detail_x
            } else {
                max
            };
            c.saturating_sub(4)
        } else {
            let n = current.detail_x.saturating_add(4);
            if n < max {
                n
            } else {
                max
            }
        };
        self.scroll.set(i, ScreenScroll { detail_x: next, ..current });
        let mut m = owned("Detail pan: ");
        crate::text::push_decimal(&mut m, next as u64);
        push_text(&mut m, ".");
        self.message = m;
    }

    /// Left or Right: pans the focused panel; the bracket pans a column at a
    /// time.
    #[verifier::spinoff_prover]
    #[verifier::rlimit(40)]
    fn scroll_horizontally(&mut self, left: bool, max: u16)
        requires
            old(self).wf(),
        ensures
            final(self).wf(),
            final(self).backing() == old(self).backing(),
            final(self)@ == scroll_x_effect(old(self)@, left, max),
    {
        match self.focus_pane {
            FocusPane::Unfocused => {
                self.message = owned("Focus a panel with Tab before panning.");
            },
            FocusPane::Content => {
                self.pan_content(left, max);
            },
            FocusPane::Detail => {
                self.pan_detail(left, max);
            },
        }
    }
}

/// Where a pan of the content panel lands: a column at a time on the bracket,
/// four cells at a time elsewhere, never past `max`.
pub open spec fn content_pan_target(v: AppView, left: bool, max: u16) -> int {
    let cur = min_int(v.scroll[screen_position(v.screen)].content_x as int, max as int);
    if v.screen == Screen::Knockouts {
        if left { previous_column_scroll(cur) } else { next_column_scroll(cur, max as int) }
    } else if left {
        sat_sub(cur, 4)
    } else {
        min_int(sat_add_u16(cur, 4), max as int)
    }
}

/// Where a pan of the detail panel lands: four cells at a time, never past `max`.
pub open spec fn detail_pan_target(v: AppView, left: bool, max: u16) -> int {
    let s = v.scroll[screen_position(v.screen)];
    if left {
        sat_sub(min_int(s.detail_x as int, max as int), 4)
    } else {
        min_int(sat_add_u16(s.detail_x as int, 4), max as int)
    }
}

// ---------------------------------------------------------------------------
// Focus on the bracket

/// Whether no column of `s` holds more than eight matches.
pub open spec fn small_columns(s: Seq<KnockoutColumnView>) -> bool {
    forall|i: int| 0 <= i < s.len() ==> #[trigger] s[i].match_count <= 8
}

proof fn lemma_small_join(a: Seq<KnockoutColumnView>, b: Seq<KnockoutColumnView>)
    requires
        small_columns(a),
        small_columns(b),
    ensures
        small_columns(a + b),
{
    assert forall|i: int| 0 <= i < (a + b).len() implies #[trigger] (a + b)[i].match_count <= 8 by {
        if i < a.len() {
            assert((a + b)[i] == a[i]);
        } else {
            assert((a + b)[i] == b[i - a.len()]);
        }
    }
}

proof fn lemma_kcol_when(c: bool, x: KnockoutColumnView)
    requires
        x.match_count <= 8,
    ensures
        small_columns(kcol_when(c, x)),
        kcol_when(c, x).len() <= 1,
{
}

/// The bracket never shows more than nine columns, none with more than
/// eight matches.
proof fn lemma_layout_bounds(rounds: Seq<KnockoutRoundFilter>)
    ensures
        knockout_layout(rounds).len() <= 9,
        small_columns(knockout_layout(rounds)),
{
    let a = rounds.contains(KnockoutRoundFilter::RoundOf32);
    let b = rounds.contains(KnockoutRoundFilter::RoundOf16);
    let c = rounds.contains(KnockoutRoundFilter::QuarterFinal);
    let d = rounds.contains(KnockoutRoundFilter::SemiFinal);
    let l1 = kcol_when(a, kcol("left Round of 32"@, ColumnKind::RoundOf32, 8));
    let l2 = kcol_when(b, kcol("left Round of 16"@, ColumnKind::RoundOf16, 4));
    let l3 = kcol_when(c, kcol("left quarter-finals"@, ColumnKind::QuarterFinal, 2));
    let l4 = kcol_when(d, kcol("left semi-final"@, ColumnKind::SemiFinal, 1));
    let r1 = kcol_when(d, kcol("right semi-final"@, ColumnKind::SemiFinal, 1));
    let r2 = kcol_when(c, kcol("right quarter-finals"@, ColumnKind::QuarterFinal, 2));
    let r3 = kcol_when(b, kcol("right Round of 16"@, ColumnKind::RoundOf16, 4));
    let r4 = kcol_when(a, kcol("right Round of 32"@, ColumnKind::RoundOf32, 8));
    let m = knockout_center(rounds);
    lemma_kcol_when(a, kcol("left Round of 32"@, ColumnKind::RoundOf32, 8));
    lemma_kcol_when(b, kcol("left Round of 16"@, ColumnKind::RoundOf16, 4));
    lemma_kcol_when(c, kcol("left quarter-finals"@, ColumnKind::QuarterFinal, 2));
    lemma_kcol_when(d, kcol("left semi-final"@, ColumnKind::SemiFinal, 1));
    lemma_kcol_when(d, kcol("right semi-final"@, ColumnKind::SemiFinal, 1));
    lemma_kcol_when(c, kcol("right quarter-finals"@, ColumnKind::QuarterFinal, 2));
    lemma_kcol_when(b, kcol("right Round of 16"@, ColumnKind::RoundOf16, 4));
    lemma_kcol_when(a, kcol("right Round of 32"@, ColumnKind::RoundOf32, 8));
    lemma_kcol_when(
        center_matches(rounds) > 0,
        kcol("final / third"@, ColumnKind::Center, center_matches(rounds)),
    );
    lemma_small_join(l1, l2);
    lemma_small_join(l1 + l2, l3);
    lemma_small_join(l1 + l2 + l3, l4);
    lemma_small_join(r1, r2);
    lemma_small_join(r1 + r2, r3);
    lemma_small_join(r1 + r2 + r3, r4);
    assert(knockout_left(rounds) == l1 + l2 + l3 + l4);
    assert(knockout_right(rounds) == r1 + r2 + r3 + r4);
    lemma_small_join(knockout_left(rounds), m);
    lemma_small_join(knockout_left(rounds) + m, knockout_right(rounds));
}

/// The kind of the column under the knock-out cursor; a bracket without
/// columns behaves as a lone Round of 32 column.
pub open spec fn focused_column_kind(v: AppView) -> ColumnKind {
    let layout = knockout_layout(shown_rounds(v.knockout_rounds));
    if v.knockout_column_cursor < layout.len() {
        layout[v.knockout_column_cursor as int].kind
    } else {
        ColumnKind::RoundOf32
    }
}

/// The knock-out cursors kept within the columns and matches shown.
pub open spec fn clamped_knockout_cursors(v: AppView) -> AppView {
    let c = AppView {
        knockout_column_cursor: min_usize(v.knockout_column_cursor, (knockout_column_total(v) - 1) as usize),
        ..v
    };
    AppView {
        knockout_match_cursor: min_usize(v.knockout_match_cursor, saturating_pred(selected_column_matches(c))),
        ..c
    }
}

/// With the bracket focused, the cursors are clamped and the content panel
/// scrolls so that the focused column and the card under the match cursor
/// come into view; otherwise nothing changes.
#[verifier::opaque]
pub open spec fn knockout_focus_scroll(v: AppView) -> AppView {
    if v.screen != Screen::Knockouts || v.focus_pane != FocusPane::Content {
        v
    } else {
        let c = clamped_knockout_cursors(v);
        let top = card_top(focused_column_kind(c), c.knockout_match_cursor);
        AppView {
            scroll: c.scroll.update(
                4,
                ScreenScroll {
                    content_x: (c.knockout_column_cursor * 27) as u16,
                    content: sat_sub(top as int, 4) as u16,
                    ..c.scroll[4]
                },
            ),
            ..c
        }
    }
}

/// What the status line says after Tab on the bracket.
#[verifier::opaque]
pub open spec fn knockout_focus_text(v: AppView) -> Seq<char> {
    let layout = knockout_layout(shown_rounds(v.knockout_rounds));
    let k = min_usize(v.knockout_column_cursor, (knockout_column_total(v) - 1) as usize);
    if v.focus_pane != FocusPane::Content {
        "Focus: none."@
    } else if k < layout.len() {
        "Focused KO column: "@ + layout[k as int].label + ". Use arrows to scroll."@
    } else {
        "Focus: content."@
    }
}

/// Where Tab (or Shift-Tab) puts focus, the column cursor and the match
/// cursor on a bracket of `count` columns: focus arrives at the first (or
/// last) column, walks the columns, then leaves.
pub open spec fn knockout_focus_target(v: AppView, forward: bool, count: int) -> (FocusPane, usize, usize) {
    let cc = v.knockout_column_cursor;
    if v.focus_pane == FocusPane::Content {
        if forward {
            if cc + 1 < count {
                (FocusPane::Content, (cc + 1) as usize, 0usize)
            } else {
                (FocusPane::Unfocused, cc, v.knockout_match_cursor)
            }
        } else if cc > 0 {
            (FocusPane::Content, (cc - 1) as usize, 0usize)
        } else {
            (FocusPane::Unfocused, cc, v.knockout_match_cursor)
        }
    } else if forward {
        (FocusPane::Content, min_usize(cc, (count - 1) as usize), v.knockout_match_cursor)
    } else {
        (FocusPane::Content, (count - 1) as usize, v.knockout_match_cursor)
    }
}

#[verifier::opaque]
pub open spec fn knockout_focus_moved(v: AppView, forward: bool, count: int) -> AppView {
    let t = knockout_focus_target(v, forward, count);
    AppView { focus_pane: t.0, knockout_column_cursor: t.1, knockout_match_cursor: t.2, ..v }
}

/// Tab (or Shift-Tab) on the bracket, with the scroll and status line that follow.
pub open spec fn knockout_focus_step(v: AppView, forward: bool) -> AppView {
    let moved = knockout_focus_moved(v, forward, knockout_column_total(v));
    let scrolled = knockout_focus_scroll(moved);
    AppView { message: knockout_focus_text(scrolled), ..scrolled }
}

/// Tab and Shift-Tab: the bracket walks its columns, other screens cycle
/// their panels.
pub open spec fn focus_step(v: AppView, forward: bool) -> AppView {
    if v.screen == Screen::Knockouts {
        knockout_focus_step(v, forward)
    } else {
        let f = if forward { next_focus(v.screen, v.focus_pane) } else { previous_focus(v.screen, v.focus_pane) };
        AppView { focus_pane: f, message: "Focus: "@ + focus_pane_label(f) + "."@, ..v }
    }
}

impl App {
    fn scroll_to_focused_knockout(&mut self)
        requires
            old(self).wf(),
        ensures
            final(self).wf(),
            final(self).backing() == old(self).backing(),
            final(self)@ == knockout_focus_scroll(old(self)@),
            final(self)@.running == old(self)@.running,
    {
        proof {
            reveal(knockout_focus_scroll);
        }
        if self.screen != Screen::Knockouts || self.focus_pane != FocusPane::Content {
            return;
        }
        let ghost v = self@;
        proof {
            lemma_layout_bounds(shown_rounds(v.knockout_rounds));
            reveal(knockout_column_total);
        }
        self.knockout_column_cursor = self.knockout_column_cursor();
        self.knockout_match_cursor = self.knockout_match_cursor();
        let ghost c = self@;
        assert(c == clamped_knockout_cursors(v));
        let columns = self.visible_knockout_columns();
        let column = if self.knockout_column_cursor < columns.len() {
            assert(columns@.map_values(|x: KnockoutColumn| column_view(x))[self.knockout_column_cursor as int]
                == column_view(columns@[self.knockout_column_cursor as int]));
            columns[self.knockout_column_cursor]
        } else {
            KnockoutColumn::single(KnockoutRoundFilter::RoundOf32)
        };
        assert(column.kind == focused_column_kind(c));
        let x: u16 = (self.knockout_column_cursor as u16) * 27;
        let top = column.selected_match_y(self.knockout_match_cursor);
        let current = self.scroll[4];
        self.set_screen_scroll(
            Screen::Knockouts,
            ScreenScroll { content_x: x, content: top.saturating_sub(4), ..current },
        );
    }

    fn knockout_focus_message(&self) -> (r: String)
        ensures
            r@ == knockout_focus_text(self@),
    {
        proof {
            reveal(knockout_focus_text);
        }
        if self.focus_pane != FocusPane::Content {
            return owned("Focus: none.");
        }
        let columns = self.visible_knockout_columns();
        let k = self.knockout_column_cursor();
        if k < columns.len() {
            assert(columns@.map_values(|x: KnockoutColumn| column_view(x))[k as int] == column_view(columns@[k as int]));
            let mut m = owned("Focused KO column: ");
            push_text(&mut m, columns[k].label);
            push_text(&mut m, ". Use arrows to scroll.");
            m
        } else {
            owned("Focus: content.")
        }
    }

    #[verifier::spinoff_prover]
    #[verifier::rlimit(60)]
    fn step_knockout_focus(&mut self, forward: bool, count: usize)
        requires
            old(self).wf(),
            count >= 1,
        ensures
            final(self).wf(),
            final(self).backing() == old(self).backing(),
            final(self)@ == knockout_focus_moved(old(self)@, forward, count as int),
            final(self)@.running == old(self)@.running,
    {
        proof {
            reveal(knockout_focus_moved);
        }
        let cc = self.knockout_column_cursor;
        let (focus, column, row): (FocusPane, usize, usize) = if self.focus_pane == FocusPane::Content {
            if forward {
                if cc < count - 1 {
                    (FocusPane::Content, cc + 1, 0)
                } else {
                    (FocusPane::Unfocused, cc, self.knockout_match_cursor)
                }
            } else if cc > 0 {
                (FocusPane::Content, cc - 1, 0)
            } else {
                (FocusPane::Unfocused, cc, self.knockout_match_cursor)
            }
        } else if forward {
            (FocusPane::Content, if cc < count - 1 { cc } else { count - 1 }, self.knockout_match_cursor)
        } else {
            (FocusPane::Content, count - 1, self.knockout_match_cursor)
        };
        assert((focus, column, row) == knockout_focus_target(self@, forward, count as int));
        self.focus_pane = focus;
        self.knockout_column_cursor = column;
        self.knockout_match_cursor = row;
    }

    fn show_knockout_focus(&mut self)
        requires
            old(self).wf(),
        ensures
            final(self).wf(),
            final(self).backing() == old(self).backing(),
            final(self)@ == (AppView { message: knockout_focus_text(old(self)@), ..old(self)@ }),
    {
        self.message = self.knockout_focus_message();
    }

    #[verifier::spinoff_prover]
    #[verifier::rlimit(60)]
    fn focus_knockout_column(&mut self, forward: bool)
        requires
            old(self).wf(),
        ensures
            final(self).wf(),
            final(self).backing() == old(self).backing(),
            final(self)@ == knockout_focus_step(old(self)@, forward),
            final(self)@.running == old(self)@.running,
    {
        let count = self.knockout_column_count();
        self.step_knockout_focus(forward, count);
        self.scroll_to_focused_knockout();
        self.show_knockout_focus();
    }

    /// Tab (`forward`) or Shift-Tab.
    fn move_focus(&mut self, forward: bool)
        requires
            old(self).wf(),
        ensures
            final(self).wf(),
            final(self).backing() == old(self).backing(),
            final(self)@ == focus_step(old(self)@, forward),
            final(self)@.running == old(self)@.running,
    {
        if self.screen == Screen::Knockouts {
            self.focus_knockout_column(forward);
        } else {
            self.cycle_focus(forward);
        }
    }
}

// ---------------------------------------------------------------------------
// Details and the command dispatch

impl App {
    /// Whether the selected match has not kicked off yet.
    pub open spec fn selected_match_future(&self) -> bool {
        match selected_entry(self.matches_listed(), self@.match_cursor) {
            Some(p) => self.data().matches@[p as int].status == MatchStatus::Scheduled
                && self.data().matches@[p as int].utc_start@ > self.clock(),
            None => false,
        }
    }

    /// What the status line says on opening the countries detail pane.
    pub open spec fn country_detail_text(&self) -> Seq<char> {
        match selected_entry(self.teams_listed(), self@.country_cursor) {
            Some(p) => "Country details: "@ + self.data().teams@[p as int].name@ + "."@,
            None => "No country row selected."@,
        }
    }

    /// What the status line says on opening the match detail pane.
    pub open spec fn match_detail_text(&self) -> Seq<char> {
        match selected_entry(self.matches_listed(), self@.match_cursor) {
            Some(p) => "Match details: "@ + self.data().matches@[p as int].home_team_name@ + " vs "@
                + self.data().matches@[p as int].away_team_name@ + "."@,
            None => "No match row selected."@,
        }
    }

    /// Enter: opens the detail pane of the screen, where it has one.
    pub open spec fn details_effect(&self) -> AppView {
        let v = self@;
        match v.screen {
            Screen::Home => AppView { message: "Home has no detail row."@, ..v },
            Screen::Standings => AppView {
                detail_open: false,
                message: "Standings has no detail pane. Focus a group and press m for matches."@,
                ..v
            },
            Screen::Matches => if self.selected_match_future() {
                AppView { detail_open: false, message: "Future matches have no details yet."@, ..v }
            } else {
                AppView {
                    timeline_filters: Seq::empty(),
                    scroll: v.scroll.update(2, ScreenScroll { detail: 0, ..v.scroll[2] }),
                    detail_open: true,
                    focus_pane: FocusPane::Detail,
                    message: self.match_detail_text(),
                    ..v
                }
            },
            Screen::Countries => AppView {
                detail_open: true,
                focus_pane: FocusPane::Detail,
                message: self.country_detail_text(),
                ..v
            },
            _ => AppView {
                detail_open: true,
                focus_pane: FocusPane::Detail,
                message: screen_title(v.screen) + " detail placeholder open."@,
                ..v
            },
        }
    }

    fn country_detail_message(&self) -> (r: String)
        ensures
            r@ == self.country_detail_text(),
    {
        match self.selected_country() {
            Some(team) => concat3("Country details: ", team.name.as_str(), "."),
            None => owned("No country row selected."),
        }
    }

    fn match_detail_message(&self) -> (r: String)
        requires
            self.wf(),
        ensures
            r@ == self.match_detail_text(),
    {
        match self.selected_match() {
            Some(m) => {
                let mut s = concat3("Match details: ", m.home_team_name.as_str(), " vs ");
                push_text(&mut s, m.away_team_name.as_str());
                push_text(&mut s, ".");
                s
            },
            None => owned("No match row selected."),
        }
    }

    #[verifier::spinoff_prover]
    fn open_match_details(&mut self)
        requires
            old(self).wf(),
            old(self)@.screen == Screen::Matches,
        ensures
            final(self).wf(),
            final(self).backing() == old(self).backing(),
            final(self)@ == old(self).details_effect(),
    {
        if self.selected_match_is_future() {
            self.detail_open = false;
            self.message = owned("Future matches have no details yet.");
            return;
        }
        let text = self.match_detail_message();
        self.reset_match_detail_view();
        self.detail_open = true;
        self.focus_pane = FocusPane::Detail;
        self.message = text;
    }

    #[verifier::spinoff_prover]
    #[verifier::rlimit(60)]
    fn open_details(&mut self)
        requires
            old(self).wf(),
        ensures
            final(self).wf(),
            final(self).backing() == old(self).backing(),
            final(self)@ == old(self).details_effect(),
    {
        if self.screen == Screen::Home {
            self.message = owned("Home has no detail row.");
            return;
        }
        if self.screen == Screen::Standings {
            self.detail_open = false;
            self.message = owned("Standings has no detail pane. Focus a group and press m for matches.");
            return;
        }
        if self.screen == Screen::Matches {
            self.open_match_details();
            return;
        }
        let message = if self.screen == Screen::Countries {
            self.country_detail_message()
        } else {
            concat2(self.screen.title(), " detail placeholder open.")
        };
        self.detail_open = true;
        self.focus_pane = FocusPane::Detail;
        self.message = message;
    }

    /// The commands that move between screens, panels and overlays.
    #[verifier::spinoff_prover]
    #[verifier::rlimit(40)]
    fn handle_panel_command(&mut self, command: AppCommand)
        requires
            old(self).wf(),
            standings_scroll_fits(*old(self), command),
            is_panel_command(command),
        ensures
            final(self).wf(),
            final(self).backing() == old(self).backing(),
            command != AppCommand::ConfirmQuit ==> final(self)@.running == old(self)@.running,
            command_holds(*old(self), *final(self), command),
    {
        match command {
            AppCommand::Navigate(screen) => self.navigate(screen),
            AppCommand::Refresh => self.refresh_current_screen(),
            AppCommand::ToggleFavoriteOnly => self.toggle_favorite_only(),
            AppCommand::ToggleTimeMode => self.toggle_time_mode(),
            AppCommand::ToggleKeyScope => self.toggle_key_scope(),
            AppCommand::ToggleHelp => self.toggle_help(),
            AppCommand::CloseOverlay => self.close_overlay(),
            AppCommand::Quit => self.open_quit_confirm(),
            AppCommand::ConfirmQuit => {
                self.running = false;
            },
            AppCommand::FocusNext => self.move_focus(true),
            AppCommand::FocusPrevious => self.move_focus(false),
            AppCommand::ScrollUp { max, visible_lines } => self.scroll_vertically(true, max, visible_lines),
            AppCommand::ScrollDown { max, visible_lines } => self.scroll_vertically(false, max, visible_lines),
            AppCommand::ScrollLeft { max } => self.scroll_horizontally(true, max),
            AppCommand::ScrollRight { max } => self.scroll_horizontally(false, max),
            AppCommand::OpenDetails => self.open_details(),
            _ => {},
        }
    }

    /// The commands that change what the screens list: filters, sorting,
    /// search and favourites.
    #[verifier::spinoff_prover]
    #[verifier::rlimit(40)]
    fn handle_list_command(&mut self, command: AppCommand)
        requires
            old(self).wf(),
            !is_panel_command(command),
        ensures
            final(self).wf(),
            final(self).clock() == old(self).clock(),
            final(self)@.running == old(self)@.running,
            command != AppCommand::ToggleSelectedCountryFavorite ==> final(self).backing() == old(self).backing(),
            command_holds(*old(self), *final(self), command),
    {
        match command {
            AppCommand::ToggleSelectedCountryFavorite => self.toggle_selected_country_favorite(),
            AppCommand::ToggleCountryFilter(filter) => self.toggle_country_filter(filter),
            AppCommand::SelectMatchesFilter(filter) => self.select_matches_filter(filter),
            AppCommand::ToggleMatchGroup(group) => self.toggle_match_group(group),
            AppCommand::ToggleStandingGroup(group) => self.toggle_standing_group(group),
            AppCommand::ToggleKnockoutRound(round) => self.toggle_knockout_round(round),
            AppCommand::SelectStatsTab(tab) => self.select_stats_tab(tab),
            AppCommand::ToggleTimelineFilter(filter) => self.toggle_timeline_filter(filter),
            AppCommand::ToggleSort => self.toggle_sort(),
            AppCommand::StartSearch => self.start_search(),
            AppCommand::SearchInput(character) => self.search_input(character),
            AppCommand::SearchBackspace => self.search_backspace(),
            AppCommand::SubmitSearch => self.submit_search(),
            AppCommand::OpenSelectedStandingGroupMatches => self.open_selected_standing_group_matches(),
            _ => {},
        }
    }

    /// Carries out one command of the user on the application state.
    pub fn handle_command(&mut self, command: AppCommand)
        requires
            old(self).wf(),
            standings_scroll_fits(*old(self), command),
        ensures
            final(self).wf(),
            final(self).clock() == old(self).clock(),
            command != AppCommand::ConfirmQuit ==> final(self)@.running == old(self)@.running,
            command != AppCommand::ToggleSelectedCountryFavorite ==> final(self).backing() == old(self).backing(),
            command != AppCommand::ToggleSelectedCountryFavorite ==> final(self).data() == old(self).data(),
            final(self).data().standings@ == old(self).data().standings@,
            command_holds(*old(self), *final(self), command),
    {
        if is_panel(&command) {
            self.handle_panel_command(command);
        } else {
            self.handle_list_command(command);
        }
    }
}

// ---------------------------------------------------------------------------
// What each command does

/// Moving to `screen`: overlays close, no panel keeps the focus, and the
/// screen's title becomes the message.
pub open spec fn navigated(before: App, after: App, screen: Screen) -> bool {
    after@ == (AppView {
        screen,
        input_mode: InputMode::Normal,
        help_open: false,
        detail_open: false,
        focus_pane: FocusPane::Unfocused,
        message: screen_title(screen),
        ..before@
    })
}

/// Asking to refresh the screen in view: its data sources are marked as
/// refreshing, or the message says it has none.
pub open spec fn refresh_requested(before: App, after: App) -> bool {
    let v = before@;
    let n = screen_resources(v.screen, v.standing_groups).len();
    after@ == if n == 0 {
        AppView { message: screen_title(v.screen) + " has no sync resources yet."@, ..v }
    } else {
        AppView {
            source_state: SourceState::Refreshing,
            message: screen_title(v.screen) + " sync requested for "@ + crate::text::decimal(n) + " resource(s)."@,
            ..v
        }
    }
}

/// Switching the favourites-only filter, back at the top of the lists it
/// narrows.
pub open spec fn favorites_only_toggled(before: App, after: App) -> bool {
    let v = before@;
    after@ == AppView {
        favorite_only: !v.favorite_only,
        country_cursor: if v.screen == Screen::Countries { 0 } else { v.country_cursor },
        standing_group_cursor: if v.screen == Screen::Standings { 0 } else { v.standing_group_cursor },
        scroll: if v.screen == Screen::Countries {
            v.scroll.update(1, with_content(v.scroll[1], 0))
        } else if v.screen == Screen::Standings {
            v.scroll.update(3, with_content(v.scroll[3], 0))
        } else {
            v.scroll
        },
        message: if !v.favorite_only {
            "Favorites filter enabled."@
        } else {
            "Favorites filter disabled."@
        },
        ..v
    }
}

/// Switching between absolute and relative times.
pub open spec fn time_mode_toggled(before: App, after: App) -> bool {
    after@ == (AppView {
        time_mode: before@.time_mode.toggle_spec(),
        message: "Time display: "@ + time_mode_label(before@.time_mode.toggle_spec()) + "."@,
        ..before@
    })
}

/// Switching whether the screen or the whole application takes the
/// shortcut keys.
pub open spec fn key_scope_toggled(before: App, after: App) -> bool {
    after@ == (AppView { key_scope: before@.key_scope.toggle_spec(), ..before@ })
}

/// Opening or closing the help overlay.
pub open spec fn help_toggled(before: App, after: App) -> bool {
    after@ == (AppView {
        help_open: !before@.help_open,
        input_mode: InputMode::Normal,
        message: if !before@.help_open {
            "Help overlay open. Press Esc to close."@
        } else {
            "Help overlay closed."@
        },
        ..before@
    })
}

/// Moving the country cursor one row, with the list scrolled to it.
pub open spec fn country_selection_moved(before: App, after: App, up: bool, max_scroll: u16) -> bool {
    let v = before@;
    let n = before.teams_listed().len() as int;
    let c = clamp_cursor(v.country_cursor, n);
    let next: usize = if up {
        if c > 0 { (c - 1) as usize } else { 0 }
    } else if n == 0 {
        0
    } else {
        min_int(v.country_cursor + 1, n - 1) as usize
    };
    if !up && n == 0 {
        after@ == AppView { country_cursor: 0, message: "No country selected."@, ..v }
    } else {
        after@ == AppView {
            country_cursor: next,
            scroll: v.scroll.update(
                screen_position(v.screen),
                with_content(v.scroll[screen_position(v.screen)], min_int(next as u16 as int, max_scroll as int) as u16),
            ),
            message: country_message(before.data().teams@, selected_entry(before.teams_listed(), next)),
            ..v
        }
    }
}

/// Moving the match cursor one row, with the list scrolled to it; a new
/// match starts with every timeline event shown.
pub open spec fn match_selection_moved(before: App, after: App, up: bool, max_scroll: u16, visible_lines: u16) -> bool {
    let v = before@;
    let n = before.matches_listed().len() as int;
    let c = clamp_cursor(v.match_cursor, n);
    let next: usize = if up {
        if c > 0 { (c - 1) as usize } else { 0 }
    } else if n == 0 {
        0
    } else {
        min_int(v.match_cursor + 1, n - 1) as usize
    };
    let moved = if up { next != c } else { next != v.match_cursor };
    let filters = if moved { Seq::<TimelineFilter>::empty() } else { v.timeline_filters };
    let base = if moved { v.scroll.update(2, ScreenScroll { detail: 0, ..v.scroll[2] }) } else { v.scroll };
    if !up && n == 0 {
        after@ == AppView { match_cursor: 0, message: "No match selected."@, ..v }
    } else {
        after@ == AppView {
            match_cursor: next,
            timeline_filters: filters,
            scroll: base.update(
                screen_position(v.screen),
                with_content(base[screen_position(v.screen)], match_row_scroll(v.detail_open, next, max_scroll, visible_lines)),
            ),
            message: match_message(before.data().matches@, selected_entry(before.matches_listed(), next)),
            ..v
        }
    }
}

/// Moving the standings cursor one group, with the table scrolled to it.
pub open spec fn group_selection_moved(before: App, after: App, up: bool, max_scroll: u16, visible_lines: u16) -> bool {
    let v = before@;
    let n = before.standing_group_runs().len() as int;
    let c = clamp_cursor(v.standing_group_cursor, n);
    let next: usize = if up {
        if c > 0 { (c - 1) as usize } else { 0 }
    } else if n == 0 {
        0
    } else {
        min_int(v.standing_group_cursor + 1, n - 1) as usize
    };
    if !up && n == 0 {
        after@ == AppView { standing_group_cursor: 0, message: "No standings group selected."@, ..v }
    } else {
        after@ == AppView {
            standing_group_cursor: next,
            scroll: v.scroll.update(3, with_content(v.scroll[3], after@.scroll[3].content)),
            message: after@.message,
            ..v
        }
        && after@.scroll[3].content == group_scroll(
            after.listed_group_ids(),
            after.selected_group_run(),
            max_scroll,
            visible_lines,
        )
        && after@.message == group_message(after.selected_group_run())
    }
}

/// Scrolling the content panel one line, within its limit.
pub open spec fn content_scrolled(before: App, after: App, up: bool, max: u16) -> bool {
    let v = before@;
    let cur = min_int(content_of(v) as int, max as int);
    let next = if up { sat_sub(cur, 1) } else { min_int(sat_add_u16(content_of(v) as int, 1), max as int) };
    after@ == AppView {
        scroll: v.scroll.update(screen_position(v.screen), with_content(v.scroll[screen_position(v.screen)], next as u16)),
        message: "Content scroll: "@ + crate::text::decimal(next as nat) + "."@,
        ..v
    }
}

/// Scrolling the detail panel one line, within its limit.
pub open spec fn detail_scrolled(before: App, after: App, up: bool, max: u16) -> bool {
    let v = before@;
    let cur = min_int(detail_of(v) as int, max as int);
    let next = if up { sat_sub(cur, 1) } else { min_int(sat_add_u16(detail_of(v) as int, 1), max as int) };
    after@ == AppView {
        scroll: v.scroll.update(screen_position(v.screen), ScreenScroll { detail: next as u16, ..v.scroll[screen_position(v.screen)] }),
        message: "Detail scroll: "@ + crate::text::decimal(next as nat) + "."@,
        ..v
    }
}

/// Marking or unmarking the selected country as a favourite.
pub open spec fn selected_country_favorite_toggled(before: App, after: App) -> bool {
    let v = before@;
    if v.screen != Screen::Countries {
        after@ == AppView { message: "Favorite country actions are available on Countries."@, ..v }
            && after.data() == before.data()
    } else {
        match selected_entry(before.teams_listed(), v.country_cursor) {
            None => after@ == AppView { message: "No country selected."@, ..v }
                && after.data() == before.data(),
            Some(p) => {
                let t = before.data().teams@[p as int];
                let q = team_position(before.data().teams@, t.id@)->Some_0;
                &&& after@ == AppView {
                    message: (if t.favorite { "Removed"@ } else { "Added"@ }) + " favorite: "@ + t.name@ + "."@,
                    ..v
                }
                &&& after.data().teams@ == before.data().teams@.update(q, Team { favorite: !t.favorite, ..before.data().teams@[q] })
                &&& after.data().matches@ == before.data().matches@
                &&& after.data().standings@ == before.data().standings@
                &&& after.data().timeline_events@ == before.data().timeline_events@
                &&& after.data().top_scorers@ == before.data().top_scorers@
            },
        }
    }
}

/// Toggling one countries filter, back at the top of the list.
pub open spec fn country_filter_toggled(before: App, after: App, filter: CountriesFilter) -> bool {
    let v = before@;
    let w = after@;
    if v.screen != Screen::Countries {
        w == AppView { message: "Country filters are available on Countries."@, ..v }
    } else {
        &&& w == AppView {
            country_filters: w.country_filters,
            country_cursor: 0,
            scroll: v.scroll.update(1, with_content(v.scroll[1], 0)),
            message: "Countries filter: "@ + selection_label(
                w.country_filters.map_values(|f: CountriesFilter| countries_filter_label(f)),
                "All"@,
            ) + "."@,
            ..v
        }
        &&& filter == CountriesFilter::All ==> w.country_filters.len() == 0
        &&& filter != CountriesFilter::All ==> (forall|x: CountriesFilter|
            w.country_filters.contains(x) <==> (v.country_filters.contains(x) != (x == filter)))
            || (w.country_filters.len() == 0 && forall|x: CountriesFilter| x != CountriesFilter::All ==>
            (v.country_filters.contains(x) != (x == filter)))
    }
}

/// Choosing the matches date filter, back at the top of the list.
pub open spec fn matches_filter_selected(before: App, after: App, filter: MatchesFilter) -> bool {
    let v = before@;
    after@ == if v.screen != Screen::Matches {
        AppView { message: "Date filters are available on Matches."@, ..v }
    } else {
        AppView {
            matches_filter: filter,
            match_cursor: 0,
            timeline_filters: Seq::empty(),
            scroll: v.scroll.update(2, ScreenScroll { content: 0, detail: 0, ..v.scroll[2] }),
            message: "Match date filter: "@ + matches_filter_label(filter) + "."@,
            ..v
        }
    }
}

/// Toggling one group of the matches list, back at its top.
pub open spec fn match_group_toggled(before: App, after: App, group: StandingsFilter) -> bool {
    let v = before@;
    let w = after@;
    if v.screen != Screen::Matches {
        w == AppView { message: "Group filters are available on Matches."@, ..v }
    } else {
        &&& w == AppView {
            match_groups: w.match_groups,
            match_cursor: 0,
            timeline_filters: Seq::empty(),
            scroll: v.scroll.update(2, ScreenScroll { content: 0, detail: 0, ..v.scroll[2] }),
            message: "Match groups: "@ + selection_label(
                w.match_groups.map_values(|f: StandingsFilter| standings_filter_label(f)),
                "All groups"@,
            ) + "."@,
            ..v
        }
        &&& group == StandingsFilter::AllGroups ==> w.match_groups.len() == 0
        &&& group != StandingsFilter::AllGroups ==> forall|x: StandingsFilter|
            w.match_groups.contains(x) <==> (v.match_groups.contains(x) != (x == group))
    }
}

/// Toggling one group of the standings table, back at its top.
pub open spec fn standing_group_toggled(before: App, after: App, group: StandingsFilter) -> bool {
    let v = before@;
    let w = after@;
    if v.screen != Screen::Standings {
        w == AppView { message: "Group filters are available on Standings."@, ..v }
    } else {
        &&& w == AppView {
            standing_groups: w.standing_groups,
            standing_group_cursor: 0,
            scroll: v.scroll.update(3, with_content(v.scroll[3], 0)),
            message: "Standings groups: "@ + selection_label(
                w.standing_groups.map_values(|f: StandingsFilter| standings_filter_label(f)),
                "All groups"@,
            ) + "."@,
            ..v
        }
        &&& group == StandingsFilter::AllGroups ==> w.standing_groups.len() == 0
        &&& group != StandingsFilter::AllGroups ==> forall|x: StandingsFilter|
            w.standing_groups.contains(x) <==> (v.standing_groups.contains(x) != (x == group))
    }
}

/// Toggling one round of the bracket, back at its first column.
pub open spec fn knockout_round_toggled(before: App, after: App, round: KnockoutRoundFilter) -> bool {
    let v = before@;
    let w = after@;
    if v.screen != Screen::Knockouts {
        w == AppView { message: "Round filters are available on Knock-outs."@, ..v }
    } else {
        &&& w == AppView {
            knockout_rounds: w.knockout_rounds,
            knockout_column_cursor: 0,
            knockout_match_cursor: 0,
            scroll: v.scroll.update(4, ScreenScroll { content: 0, content_x: 0, ..v.scroll[4] }),
            message: "Knock-out rounds: "@ + selection_label(
                w.knockout_rounds.map_values(|f: KnockoutRoundFilter| knockout_round_label(f)),
                "All rounds"@,
            ) + "."@,
            ..v
        }
        &&& round == KnockoutRoundFilter::All ==> w.knockout_rounds.len() == 0
        &&& round != KnockoutRoundFilter::All ==> forall|x: KnockoutRoundFilter|
            w.knockout_rounds.contains(x) <==> (v.knockout_rounds.contains(x) != (x == round))
    }
}

/// Choosing the statistics tab.
pub open spec fn stats_tab_selected(before: App, after: App, tab: StatsTab) -> bool {
    let v = before@;
    after@ == if v.screen != Screen::Stats {
        AppView { message: "Stats tabs are available on Stats."@, ..v }
    } else {
        AppView { stats_tab: tab, message: "Stats tab: "@ + stats_tab_label(tab) + "."@, ..v }
    }
}

/// Toggling one kind of timeline event in the focused match details.
pub open spec fn timeline_filter_toggled(before: App, after: App, filter: TimelineFilter) -> bool {
    let v = before@;
    let w = after@;
    if v.screen != Screen::Matches || v.focus_pane != FocusPane::Detail {
        w == AppView { message: "Timeline filters are available in focused match details."@, ..v }
    } else {
        &&& w == AppView {
            timeline_filters: w.timeline_filters,
            scroll: v.scroll.update(2, ScreenScroll { detail: 0, ..v.scroll[2] }),
            message: "Timeline filters: "@ + selection_label(
                w.timeline_filters.map_values(|f: TimelineFilter| timeline_filter_label(f)),
                "all events"@,
            ) + "."@,
            ..v
        }
        &&& forall|x: TimelineFilter|
            w.timeline_filters.contains(x) <==> (v.timeline_filters.contains(x) != (x == filter))
    }
}

/// Reversing the sort order of the countries or the standings.
pub open spec fn sort_toggled(before: App, after: App) -> bool {
    let v = before@;
    let w = after@;
    if v.screen == Screen::Countries {
        w == AppView {
            countries_sort: v.countries_sort.toggle_spec(),
            country_cursor: w.country_cursor,
            message: "Countries sort: "@ + sort_order_label(v.countries_sort.toggle_spec()) + "."@,
            ..v
        } && w.country_cursor == clamp_cursor(v.country_cursor, after.teams_listed().len() as int)
    } else if v.screen == Screen::Standings {
        w == AppView {
            standings_sort: v.standings_sort.toggle_spec(),
            standing_group_cursor: 0,
            scroll: v.scroll.update(3, with_content(v.scroll[3], 0)),
            message: "Standings sort: "@ + sort_order_label(v.standings_sort.toggle_spec()) + "."@,
            ..v
        }
    } else {
        w == AppView { message: "Sort is available on Countries and Standings."@, ..v }
    }
}

/// Opening the search prompt.
pub open spec fn search_started(before: App, after: App) -> bool {
    after@ == (AppView {
        input_mode: InputMode::Search,
        help_open: false,
        message: "Search mode. Type to filter, Enter to apply, Esc to close."@,
        ..before@
    })
}

/// Typing one character of the search.
pub open spec fn search_typed(before: App, after: App, character: char) -> bool {
    after@ == if crate::text::is_control(character) {
        before@
    } else {
        AppView {
            search_query: before@.search_query.push(character),
            ..all_selections_reset(before@)
        }
    }
}

/// Erasing the last character of the search.
pub open spec fn search_erased(before: App, after: App) -> bool {
    after@ == (AppView {
        search_query: without_last(before@.search_query),
        ..all_selections_reset(before@)
    })
}

/// Applying the search and closing the prompt.
pub open spec fn search_submitted(before: App, after: App) -> bool {
    after@ == (AppView {
        input_mode: InputMode::Normal,
        message: if before@.search_query.len() == 0 {
            "Search cleared."@
        } else {
            "Search filter set to '"@ + before@.search_query + "'."@
        },
        ..all_selections_reset(before@)
    })
}

/// Going from the selected standings group to its matches.
pub open spec fn group_matches_opened(before: App, after: App) -> bool {
    let v = before@;
    let runs = before.standing_group_runs();
    let selected = if runs.len() == 0 {
        None
    } else {
        Some(runs[if v.standing_group_cursor < runs.len() { v.standing_group_cursor as int } else { runs.len() - 1 }])
    };
    after@ == if v.screen != Screen::Standings {
        AppView { message: "Focused group matches are available on Standings."@, ..v }
    } else {
        match selected {
            None => AppView { message: "No standings group selected."@, ..v },
            Some(id) => match filter_for_group_text(id) {
                None => AppView { message: "Selected standings group is unknown."@, ..v },
                Some(group) => AppView {
                    screen: Screen::Matches,
                    input_mode: InputMode::Normal,
                    help_open: false,
                    detail_open: false,
                    focus_pane: FocusPane::Content,
                    matches_filter: MatchesFilter::All,
                    match_groups: seq![group],
                    match_cursor: 0,
                    timeline_filters: Seq::empty(),
                    scroll: v.scroll.update(2, ScreenScroll { content: 0, detail: 0, ..v.scroll[2] }),
                    message: "Matches filtered to "@ + standings_filter_label(group) + "."@,
                    ..v
                },
            },
        }
    }
}

/// Up or Down on the focused panel: a list moves its cursor, any other
/// panel scrolls one line.
pub open spec fn scrolled_vertically(before: App, after: App, up: bool, max: u16, visible_lines: u16) -> bool {
    let v = before@;
    match v.focus_pane {
        FocusPane::Unfocused => after@ == AppView { message: "Focus a panel with Tab before scrolling."@, ..v },
        FocusPane::Content => if v.screen == Screen::Countries && before.teams_listed().len() > 0 {
            country_selection_moved(before, after, up, max)
        } else if v.screen == Screen::Matches && before.matches_listed().len() > 0 {
            match_selection_moved(before, after, up, max, visible_lines)
        } else if v.screen == Screen::Standings && before.standing_group_runs().len() > 1 {
            group_selection_moved(before, after, up, max, visible_lines)
        } else {
            content_scrolled(before, after, up, max)
        },
        FocusPane::Detail => detail_scrolled(before, after, up, max),
    }
}

/// What one command of the user makes of the application state.
pub open spec fn command_holds(before: App, after: App, command: AppCommand) -> bool {
    match command {
        AppCommand::Navigate(screen) => navigated(before, after, screen),
        AppCommand::Refresh => refresh_requested(before, after),
        AppCommand::ToggleFavoriteOnly => favorites_only_toggled(before, after),
        AppCommand::ToggleTimeMode => time_mode_toggled(before, after),
        AppCommand::ToggleKeyScope => key_scope_toggled(before, after),
        AppCommand::ToggleHelp => help_toggled(before, after),
        AppCommand::CloseOverlay => after@ == close_effect(before@),
        AppCommand::Quit => after@ == (AppView {
            input_mode: InputMode::QuitConfirm,
            help_open: false,
            message: "Confirm quit: q/y/Enter to quit, n/Esc to stay."@,
            ..before@
        }),
        AppCommand::ConfirmQuit => after@ == (AppView { running: false, ..before@ }),
        AppCommand::FocusNext => after@ == focus_step(before@, true),
        AppCommand::FocusPrevious => after@ == focus_step(before@, false),
        AppCommand::ScrollUp { max, visible_lines } => scrolled_vertically(before, after, true, max, visible_lines),
        AppCommand::ScrollDown { max, visible_lines } => scrolled_vertically(before, after, false, max, visible_lines),
        AppCommand::ScrollLeft { max } => after@ == scroll_x_effect(before@, true, max),
        AppCommand::ScrollRight { max } => after@ == scroll_x_effect(before@, false, max),
        AppCommand::OpenDetails => after@ == before.details_effect(),
        AppCommand::ToggleSelectedCountryFavorite => selected_country_favorite_toggled(before, after),
        AppCommand::ToggleCountryFilter(filter) => country_filter_toggled(before, after, filter),
        AppCommand::SelectMatchesFilter(filter) => matches_filter_selected(before, after, filter),
        AppCommand::ToggleMatchGroup(group) => match_group_toggled(before, after, group),
        AppCommand::ToggleStandingGroup(group) => standing_group_toggled(before, after, group),
        AppCommand::ToggleKnockoutRound(round) => knockout_round_toggled(before, after, round),
        AppCommand::SelectStatsTab(tab) => stats_tab_selected(before, after, tab),
        AppCommand::ToggleTimelineFilter(filter) => timeline_filter_toggled(before, after, filter),
        AppCommand::ToggleSort => sort_toggled(before, after),
        AppCommand::StartSearch => search_started(before, after),
        AppCommand::SearchInput(character) => search_typed(before, after, character),
        AppCommand::SearchBackspace => search_erased(before, after),
        AppCommand::SubmitSearch => search_submitted(before, after),
        AppCommand::OpenSelectedStandingGroupMatches => group_matches_opened(before, after),
    }
}

/// Up or Down on the focused standings table counts the table's lines in
/// 16 bits, as the screen lays them out; fewer than 16000 rows keep that
/// count in range. No other command or screen depends on it.
pub open spec fn standings_scroll_fits(app: App, command: AppCommand) -> bool {
    (command is ScrollUp || command is ScrollDown) && app@.screen == Screen::Standings && app@.focus_pane
        == FocusPane::Content ==> app.data().standings@.len() < 16000
}
/// The commands that move between screens, panels and overlays.
pub open spec fn is_panel_command(command: AppCommand) -> bool {
    match command {
        AppCommand::Navigate(_) | AppCommand::Refresh | AppCommand::ToggleFavoriteOnly | AppCommand::ToggleTimeMode
        | AppCommand::ToggleKeyScope | AppCommand::ToggleHelp | AppCommand::CloseOverlay | AppCommand::Quit
        | AppCommand::ConfirmQuit | AppCommand::FocusNext | AppCommand::FocusPrevious | AppCommand::ScrollUp { .. }
        | AppCommand::ScrollDown { .. } | AppCommand::ScrollLeft { .. } | AppCommand::ScrollRight { .. }
        | AppCommand::OpenDetails => true,
        _ => false,
    }
}

fn is_panel(command: &AppCommand) -> (r: bool)
    ensures
        r == is_panel_command(*command),
{
    match command {
        AppCommand::Navigate(_) | AppCommand::Refresh | AppCommand::ToggleFavoriteOnly | AppCommand::ToggleTimeMode
        | AppCommand::ToggleKeyScope | AppCommand::ToggleHelp | AppCommand::CloseOverlay | AppCommand::Quit
        | AppCommand::ConfirmQuit | AppCommand::FocusNext | AppCommand::FocusPrevious | AppCommand::ScrollUp { .. }
        | AppCommand::ScrollDown { .. } | AppCommand::ScrollLeft { .. } | AppCommand::ScrollRight { .. }
        | AppCommand::OpenDetails => true,
        _ => false,
    }
}

/// Left or Right on the focused panel.
pub open spec fn scroll_x_effect(v: AppView, left: bool, max: u16) -> AppView {
    let s = v.scroll[screen_position(v.screen)];
    match v.focus_pane {
        FocusPane::Unfocused => AppView { message: "Focus a panel with Tab before panning."@, ..v },
        FocusPane::Content => AppView {
            scroll: v.scroll.update(screen_position(v.screen), ScreenScroll { content_x: content_pan_target(v, left, max) as u16, ..s }),
            message: "Content pan: "@ + crate::text::decimal(content_pan_target(v, left, max) as nat) + "."@,
            ..v
        },
        FocusPane::Detail => AppView {
            scroll: v.scroll.update(screen_position(v.screen), ScreenScroll { detail_x: detail_pan_target(v, left, max) as u16, ..s }),
            message: "Detail pan: "@ + crate::text::decimal(detail_pan_target(v, left, max) as nat) + "."@,
            ..v
        },
    }
}

// ---------------------------------------------------------------------------
// Times as the user reads them

impl App {
    /// When `m` kicks off: the local date and time (`YYYY-MM-DD HH:MM`), or
    /// how far it lies from the clock reading.
    pub fn match_time_label(&self, m: &Match) -> (r: String)
        ensures
            self@.time_mode == TimeMode::Relative ==> r@ == relative_text(m.utc_start@, self.clock()),
            self@.time_mode == TimeMode::Absolute ==> exists|d: LocalDateTime|
                #[trigger] valid_local(d) && r@ == date_key_text(d) + " "@ + clock_text(d),
    {
        match self.time_mode {
            TimeMode::Absolute => {
                let d = local_date_time(&m.utc_start);
                let r = crate::text::concat3(date_key(&d).as_str(), " ", clock(&d).as_str());
                assert(r@ == date_key_text(d) + " "@ + clock_text(d));
                r
            },
            TimeMode::Relative => relative_time_label(m.utc_start, self.now),
        }
    }

    /// The local calendar day of `m`'s kick-off, as `YYYY-MM-DD`; which day
    /// depends on the machine's time zone.
    pub fn match_date_key(&self, m: &Match) -> (r: String)
        ensures
            exists|d: LocalDateTime| #[trigger] valid_local(d) && r@ == date_key_text(d),
    {
        let d = local_date_time(&m.utc_start);
        date_key(&d)
    }

    /// When the data was last brought in: `never`, the recorded text when it
    /// is no instant, or the instant in the display's time mode (`DD/MM
    /// HH:MM` in local time when absolute).
    pub fn last_sync_label(&self) -> (r: String)
        ensures
            match self@.last_updated {
                None => r@ == "never"@,
                Some(text) => match crate::domain::time::parsed_timestamp(text) {
                    None => r@ == text,
                    Some(n) => {
                        &&& self@.time_mode == TimeMode::Relative ==> r@ == relative_text(n as int, self.clock())
                        &&& self@.time_mode == TimeMode::Absolute ==> exists|d: LocalDateTime|
                            #[trigger] valid_local(d) && r@ == day_month_text(d) + " "@ + clock_text(d)
                    },
                },
            },
    {
        match &self.source_status.last_updated {
            None => owned("never"),
            Some(value) => match Timestamp::parse(value.as_str()) {
                None => value.clone(),
                Some(t) => match self.time_mode {
                    TimeMode::Absolute => {
                        let d = local_date_time(&t);
                        let r = crate::text::concat3(day_month(&d).as_str(), " ", clock(&d).as_str());
                        assert(r@ == day_month_text(d) + " "@ + clock_text(d));
                        r
                    },
                    TimeMode::Relative => relative_time_label(t, self.now),
                },
            },
        }
    }
}

/// The bracket pans left to the start of the column in view, or to the
/// column before when already at a column's start.
pub fn previous_knockout_column_scroll(current: u16) -> (r: u16)
    ensures
        r == previous_column_scroll(current as int),
{
    if current == 0 {
        0
    } else if current % 27 == 0 {
        current.saturating_sub(27)
    } else {
        current - current % 27
    }
}

/// The bracket pans right to the start of the next column, never past
/// `max`.
pub fn next_knockout_column_scroll(current: u16, max: u16) -> (r: u16)
    ensures
        r == next_column_scroll(current as int, max as int),
{
    let n = current.saturating_add(27).saturating_sub(current % 27);
    if n < max {
        n
    } else {
        max
    }
}

} // verus!
