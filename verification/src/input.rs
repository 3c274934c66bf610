//! Which command a key press stands for, given the input mode, the key
//! scope, the screen and the focused panel.

use vstd::prelude::*;

use crate::app::views::{
    countries_filter_shortcut, knockout_round_shortcut, matches_filter_shortcut,
    selectable_timeline_filters, standings_filter_shortcut, stats_tab_shortcut,
    timeline_filter_shortcut, AppCommand, CountriesFilter, FocusPane, InputMode, KeyScope,
    KnockoutRoundFilter, MatchesFilter, Screen, StandingsFilter, StatsTab, TimelineFilter,
};
use crate::text::{ascii_lower, ascii_lower_char};

verus! {

/// A key, as the terminal reports it.
#[derive(Clone, Copy, Debug, Eq, PartialEq, Structural)]
pub enum KeyCode {
    Char(char),
    Tab,
    BackTab,
    Enter,
    Esc,
    Backspace,
    Up,
    Down,
    Left,
    Right,
    /// Any other key (function keys, Home, Page Up, ...).
    Other,
}

/// The modifier keys held with a key.
#[derive(Clone, Copy, Debug, Eq, PartialEq, Structural)]
pub struct KeyModifiers {
    pub shift: bool,
    pub control: bool,
    pub alt: bool,
    pub super_key: bool,
    pub hyper: bool,
    pub meta: bool,
}

impl KeyModifiers {
    /// No modifier held.
    pub fn empty() -> (r: KeyModifiers)
        ensures
            r.is_empty_spec(),
    {
        KeyModifiers {
            shift: false,
            control: false,
            alt: false,
            super_key: false,
            hyper: false,
            meta: false,
        }
    }

    /// Shift alone.
    pub fn shift() -> (r: KeyModifiers)
        ensures
            r.is_shift_only_spec(),
    {
        KeyModifiers {
            shift: true,
            control: false,
            alt: false,
            super_key: false,
            hyper: false,
            meta: false,
        }
    }

    pub open spec fn is_empty_spec(&self) -> bool {
        !self.shift && !self.control && !self.alt && !self.super_key && !self.hyper && !self.meta
    }

    pub open spec fn is_shift_only_spec(&self) -> bool {
        self.shift && !self.control && !self.alt && !self.super_key && !self.hyper && !self.meta
    }

    pub fn is_empty(&self) -> (r: bool)
        ensures
            r == self.is_empty_spec(),
    {
        !self.shift && !self.control && !self.alt && !self.super_key && !self.hyper && !self.meta
    }
}

/// A key press: the key and the modifiers held with it.
#[derive(Clone, Copy, Debug, Eq, PartialEq, Structural)]
pub struct KeyEvent {
    pub code: KeyCode,
    pub modifiers: KeyModifiers,
}

/// The country filter whose shortcut is `c`.
pub open spec fn countries_filter_with_shortcut(c: char) -> Option<CountriesFilter> {
    if c == 'l' {
        Some(CountriesFilter::All)
    } else if c == 'a' {
        Some(CountriesFilter::Afc)
    } else if c == 'c' {
        Some(CountriesFilter::Caf)
    } else if c == 'n' {
        Some(CountriesFilter::Concacaf)
    } else if c == 'm' {
        Some(CountriesFilter::Conmebol)
    } else if c == 'f' {
        Some(CountriesFilter::Ofc)
    } else if c == 'u' {
        Some(CountriesFilter::Uefa)
    } else {
        None
    }
}

fn countries_filter_for(c: char) -> (r: Option<CountriesFilter>)
    ensures
        r == countries_filter_with_shortcut(c),
{
    if c == 'l' {
        Some(CountriesFilter::All)
    } else if c == 'a' {
        Some(CountriesFilter::Afc)
    } else if c == 'c' {
        Some(CountriesFilter::Caf)
    } else if c == 'n' {
        Some(CountriesFilter::Concacaf)
    } else if c == 'm' {
        Some(CountriesFilter::Conmebol)
    } else if c == 'f' {
        Some(CountriesFilter::Ofc)
    } else if c == 'u' {
        Some(CountriesFilter::Uefa)
    } else {
        None
    }
}

/// The selectable timeline filter whose shortcut is `c`.
pub open spec fn timeline_filter_with_shortcut(c: char) -> Option<TimelineFilter> {
    if c == 'g' {
        Some(TimelineFilter::Goals)
    } else if c == 'r' {
        Some(TimelineFilter::RedCards)
    } else if c == 'y' {
        Some(TimelineFilter::YellowCards)
    } else if c == 's' {
        Some(TimelineFilter::Substitutions)
    } else {
        None
    }
}

fn timeline_filter_for(c: char) -> (r: Option<TimelineFilter>)
    ensures
        r == timeline_filter_with_shortcut(c),
{
    if c == 'g' {
        Some(TimelineFilter::Goals)
    } else if c == 'r' {
        Some(TimelineFilter::RedCards)
    } else if c == 'y' {
        Some(TimelineFilter::YellowCards)
    } else if c == 's' {
        Some(TimelineFilter::Substitutions)
    } else {
        None
    }
}

/// The date filter whose shortcut is `c`.
pub open spec fn matches_filter_with_shortcut(c: char) -> Option<MatchesFilter> {
    if c == 's' {
        Some(MatchesFilter::All)
    } else if c == 't' {
        Some(MatchesFilter::Today)
    } else if c == 'p' {
        Some(MatchesFilter::Past)
    } else if c == 'u' {
        Some(MatchesFilter::Future)
    } else {
        None
    }
}

fn matches_filter_for(c: char) -> (r: Option<MatchesFilter>)
    ensures
        r == matches_filter_with_shortcut(c),
{
    if c == 's' {
        Some(MatchesFilter::All)
    } else if c == 't' {
        Some(MatchesFilter::Today)
    } else if c == 'p' {
        Some(MatchesFilter::Past)
    } else if c == 'u' {
        Some(MatchesFilter::Future)
    } else {
        None
    }
}

/// The group filter whose shortcut is `c`.
pub open spec fn standings_filter_with_shortcut(c: char) -> Option<StandingsFilter> {
    if c == 'r' {
        Some(StandingsFilter::AllGroups)
    } else if c == 'a' {
        Some(StandingsFilter::GroupA)
    } else if c == 'b' {
        Some(StandingsFilter::GroupB)
    } else if c == 'c' {
        Some(StandingsFilter::GroupC)
    } else if c == 'd' {
        Some(StandingsFilter::GroupD)
    } else if c == 'e' {
        Some(StandingsFilter::GroupE)
    } else if c == 'f' {
        Some(StandingsFilter::GroupF)
    } else if c == 'g' {
        Some(StandingsFilter::GroupG)
    } else if c == 'h' {
        Some(StandingsFilter::GroupH)
    } else if c == 'i' {
        Some(StandingsFilter::GroupI)
    } else if c == 'j' {
        Some(StandingsFilter::GroupJ)
    } else if c == 'k' {
        Some(StandingsFilter::GroupK)
    } else if c == 'l' {
        Some(StandingsFilter::GroupL)
    } else {
        None
    }
}

fn standings_filter_for(c: char) -> (r: Option<StandingsFilter>)
    ensures
        r == standings_filter_with_shortcut(c),
{
    if c == 'r' {
        Some(StandingsFilter::AllGroups)
    } else if c == 'a' {
        Some(StandingsFilter::GroupA)
    } else if c == 'b' {
        Some(StandingsFilter::GroupB)
    } else if c == 'c' {
        Some(StandingsFilter::GroupC)
    } else if c == 'd' {
        Some(StandingsFilter::GroupD)
    } else if c == 'e' {
        Some(StandingsFilter::GroupE)
    } else if c == 'f' {
        Some(StandingsFilter::GroupF)
    } else if c == 'g' {
        Some(StandingsFilter::GroupG)
    } else if c == 'h' {
        Some(StandingsFilter::GroupH)
    } else if c == 'i' {
        Some(StandingsFilter::GroupI)
    } else if c == 'j' {
        Some(StandingsFilter::GroupJ)
    } else if c == 'k' {
        Some(StandingsFilter::GroupK)
    } else if c == 'l' {
        Some(StandingsFilter::GroupL)
    } else {
        None
    }
}

/// The round filter whose shortcut is `c`.
pub open spec fn knockout_round_with_shortcut(c: char) -> Option<KnockoutRoundFilter> {
    if c == 'a' {
        Some(KnockoutRoundFilter::All)
    } else if c == 'r' {
        Some(KnockoutRoundFilter::RoundOf32)
    } else if c == 'o' {
        Some(KnockoutRoundFilter::RoundOf16)
    } else if c == 'u' {
        Some(KnockoutRoundFilter::QuarterFinal)
    } else if c == 's' {
        Some(KnockoutRoundFilter::SemiFinal)
    } else if c == 't' {
        Some(KnockoutRoundFilter::ThirdPlace)
    } else if c == 'f' {
        Some(KnockoutRoundFilter::Final)
    } else {
        None
    }
}

fn knockout_round_for(c: char) -> (r: Option<KnockoutRoundFilter>)
    ensures
        r == knockout_round_with_shortcut(c),
{
    if c == 'a' {
        Some(KnockoutRoundFilter::All)
    } else if c == 'r' {
        Some(KnockoutRoundFilter::RoundOf32)
    } else if c == 'o' {
        Some(KnockoutRoundFilter::RoundOf16)
    } else if c == 'u' {
        Some(KnockoutRoundFilter::QuarterFinal)
    } else if c == 's' {
        Some(KnockoutRoundFilter::SemiFinal)
    } else if c == 't' {
        Some(KnockoutRoundFilter::ThirdPlace)
    } else if c == 'f' {
        Some(KnockoutRoundFilter::Final)
    } else {
        None
    }
}

/// The statistics tab whose shortcut is `c`.
pub open spec fn stats_tab_with_shortcut(c: char) -> Option<StatsTab> {
    if c == 'a' {
        Some(StatsTab::All)
    } else if c == 'r' {
        Some(StatsTab::Records)
    } else if c == 'g' {
        Some(StatsTab::Goals)
    } else if c == 'f' {
        Some(StatsTab::Fouls)
    } else if c == 'p' {
        Some(StatsTab::Passes)
    } else {
        None
    }
}

fn stats_tab_for(c: char) -> (r: Option<StatsTab>)
    ensures
        r == stats_tab_with_shortcut(c),
{
    if c == 'a' {
        Some(StatsTab::All)
    } else if c == 'r' {
        Some(StatsTab::Records)
    } else if c == 'g' {
        Some(StatsTab::Goals)
    } else if c == 'f' {
        Some(StatsTab::Fouls)
    } else if c == 'p' {
        Some(StatsTab::Passes)
    } else {
        None
    }
}

/// The character a key stands for as a shortcut: a character key pressed
/// without Control or Alt, lower-cased.
pub open spec fn shortcut_char(key: KeyEvent) -> Option<char> {
    if key.modifiers.control || key.modifiers.alt {
        None
    } else {
        match key.code {
            KeyCode::Char(c) => Some(ascii_lower(c)),
            _ => None,
        }
    }
}

fn command_char(key: KeyEvent) -> (r: Option<char>)
    ensures
        r == shortcut_char(key),
{
    if key.modifiers.control || key.modifiers.alt {
        return None;
    }
    match key.code {
        KeyCode::Char(c) => Some(ascii_lower_char(c)),
        _ => None,
    }
}

/// Arrow keys scroll the focused panel.
pub open spec fn focused_scroll(key: KeyEvent, focus: FocusPane) -> Option<AppCommand> {
    if focus == FocusPane::Unfocused {
        None
    } else {
        match key.code {
            KeyCode::Up => Some(AppCommand::ScrollUp { max: 0, visible_lines: 0 }),
            KeyCode::Down => Some(AppCommand::ScrollDown { max: 0, visible_lines: 0 }),
            KeyCode::Left => Some(AppCommand::ScrollLeft { max: 0 }),
            KeyCode::Right => Some(AppCommand::ScrollRight { max: 0 }),
            _ => None,
        }
    }
}

fn focused_scroll_command(key: KeyEvent, focus: FocusPane) -> (r: Option<AppCommand>)
    ensures
        r == focused_scroll(key, focus),
{
    if focus == FocusPane::Unfocused {
        return None;
    }
    match key.code {
        KeyCode::Up => Some(AppCommand::ScrollUp { max: 0, visible_lines: 0 }),
        KeyCode::Down => Some(AppCommand::ScrollDown { max: 0, visible_lines: 0 }),
        KeyCode::Left => Some(AppCommand::ScrollLeft { max: 0 }),
        KeyCode::Right => Some(AppCommand::ScrollRight { max: 0 }),
        _ => None,
    }
}

/// Letter commands of the global scope.
pub open spec fn global_shortcut(key: KeyEvent) -> Option<AppCommand> {
    match shortcut_char(key) {
        Some(c) => if c == 'q' {
            Some(AppCommand::Quit)
        } else if c == 'h' {
            Some(AppCommand::ToggleHelp)
        } else if c == 's' || c == 'r' {
            Some(AppCommand::Refresh)
        } else if c == 'f' {
            Some(AppCommand::ToggleFavoriteOnly)
        } else if c == 't' {
            Some(AppCommand::ToggleTimeMode)
        } else {
            None
        },
        None => None,
    }
}

fn global_command(key: KeyEvent) -> (r: Option<AppCommand>)
    ensures
        r == global_shortcut(key),
{
    let c = match command_char(key) {
        Some(c) => c,
        None => {
            return None;
        },
    };
    if c == 'q' {
        Some(AppCommand::Quit)
    } else if c == 'h' {
        Some(AppCommand::ToggleHelp)
    } else if c == 's' || c == 'r' {
        Some(AppCommand::Refresh)
    } else if c == 'f' {
        Some(AppCommand::ToggleFavoriteOnly)
    } else if c == 't' {
        Some(AppCommand::ToggleTimeMode)
    } else {
        None
    }
}

/// Letter commands of the screen scope, which depend on the screen.
pub open spec fn screen_shortcut(key: KeyEvent, screen: Screen, focus: FocusPane) -> Option<AppCommand> {
    match shortcut_char(key) {
        None => None,
        Some(c) => match screen {
            Screen::Countries => if c == 'q' {
                Some(AppCommand::StartSearch)
            } else if c == '*' {
                Some(AppCommand::ToggleSelectedCountryFavorite)
            } else if c == 'o' {
                Some(AppCommand::ToggleSort)
            } else {
                match countries_filter_with_shortcut(c) {
                    Some(f) => Some(AppCommand::ToggleCountryFilter(f)),
                    None => None,
                }
            },
            Screen::Matches => if focus == FocusPane::Detail {
                match timeline_filter_with_shortcut(c) {
                    Some(f) => Some(AppCommand::ToggleTimelineFilter(f)),
                    None => None,
                }
            } else {
                match matches_filter_with_shortcut(c) {
                    Some(f) => Some(AppCommand::SelectMatchesFilter(f)),
                    None => match standings_filter_with_shortcut(c) {
                        Some(g) => Some(AppCommand::ToggleMatchGroup(g)),
                        None => None,
                    },
                }
            },
            Screen::Standings => if c == 'm' && focus == FocusPane::Content {
                Some(AppCommand::OpenSelectedStandingGroupMatches)
            } else if c == 'o' {
                Some(AppCommand::ToggleSort)
            } else {
                match standings_filter_with_shortcut(c) {
                    Some(g) => Some(AppCommand::ToggleStandingGroup(g)),
                    None => None,
                }
            },
            Screen::Knockouts => match knockout_round_with_shortcut(c) {
                Some(r) => Some(AppCommand::ToggleKnockoutRound(r)),
                None => None,
            },
            Screen::Stats => match stats_tab_with_shortcut(c) {
                Some(t) => Some(AppCommand::SelectStatsTab(t)),
                None => None,
            },
            Screen::Home | Screen::Facts => None,
        },
    }
}

fn screen_command(key: KeyEvent, screen: Screen, focus: FocusPane) -> (r: Option<AppCommand>)
    ensures
        r == screen_shortcut(key, screen, focus),
{
    let c = match command_char(key) {
        Some(c) => c,
        None => {
            return None;
        },
    };
    match screen {
        Screen::Countries => {
            if c == 'q' {
                return Some(AppCommand::StartSearch);
            }
            if c == '*' {
                return Some(AppCommand::ToggleSelectedCountryFavorite);
            }
            if c == 'o' {
                return Some(AppCommand::ToggleSort);
            }
            match countries_filter_for(c) {
                Some(f) => Some(AppCommand::ToggleCountryFilter(f)),
                None => None,
            }
        },
        Screen::Matches => {
            if focus == FocusPane::Detail {
                return match timeline_filter_for(c) {
                    Some(f) => Some(AppCommand::ToggleTimelineFilter(f)),
                    None => None,
                };
            }
            match matches_filter_for(c) {
                Some(f) => Some(AppCommand::SelectMatchesFilter(f)),
                None => match standings_filter_for(c) {
                    Some(g) => Some(AppCommand::ToggleMatchGroup(g)),
                    None => None,
                },
            }
        },
        Screen::Standings => {
            if c == 'm' && focus == FocusPane::Content {
                return Some(AppCommand::OpenSelectedStandingGroupMatches);
            }
            if c == 'o' {
                return Some(AppCommand::ToggleSort);
            }
            match standings_filter_for(c) {
                Some(g) => Some(AppCommand::ToggleStandingGroup(g)),
                None => None,
            }
        },
        Screen::Knockouts => match knockout_round_for(c) {
            Some(r) => Some(AppCommand::ToggleKnockoutRound(r)),
            None => None,
        },
        Screen::Stats => match stats_tab_for(c) {
            Some(t) => Some(AppCommand::SelectStatsTab(t)),
            None => None,
        },
        Screen::Home | Screen::Facts => None,
    }
}

/// The keys of normal mode: fixed keys first (quit, help, scope, search,
/// the screen numbers, focus, details, close), then, in the global scope,
/// arrow scrolling before global letters, and in the screen scope, screen
/// letters before arrow scrolling. `q` is the search key, not quit, on the
/// countries screen in the screen scope.
pub open spec fn normal_key(key: KeyEvent, scope: KeyScope, screen: Screen, focus: FocusPane) -> Option<AppCommand> {
    match key.code {
        KeyCode::Char('q') if !(scope == KeyScope::Screen && screen == Screen::Countries) => Some(
            AppCommand::Quit,
        ),
        KeyCode::Char('?') => Some(AppCommand::ToggleHelp),
        KeyCode::Char(' ') => Some(AppCommand::ToggleKeyScope),
        KeyCode::Char('/') => Some(AppCommand::StartSearch),
        KeyCode::Char('0') => Some(AppCommand::Navigate(Screen::Home)),
        KeyCode::Char('1') => Some(AppCommand::Navigate(Screen::Countries)),
        KeyCode::Char('2') => Some(AppCommand::Navigate(Screen::Matches)),
        KeyCode::Char('3') => Some(AppCommand::Navigate(Screen::Standings)),
        KeyCode::Char('4') => Some(AppCommand::Navigate(Screen::Knockouts)),
        KeyCode::Char('5') => Some(AppCommand::Navigate(Screen::Stats)),
        KeyCode::Char('6') => Some(AppCommand::Navigate(Screen::Facts)),
        KeyCode::Tab => Some(AppCommand::FocusNext),
        KeyCode::BackTab => Some(AppCommand::FocusPrevious),
        KeyCode::Enter => Some(AppCommand::OpenDetails),
        KeyCode::Esc => Some(AppCommand::CloseOverlay),
        _ => match scope {
            KeyScope::Global => match focused_scroll(key, focus) {
                Some(c) => Some(c),
                None => global_shortcut(key),
            },
            KeyScope::Screen => match screen_shortcut(key, screen, focus) {
                Some(c) => Some(c),
                None => focused_scroll(key, focus),
            },
        },
    }
}

fn normal_command(key: KeyEvent, scope: KeyScope, screen: Screen, focus: FocusPane) -> (r: Option<AppCommand>)
    ensures
        r == normal_key(key, scope, screen, focus),
{
    match key.code {
        KeyCode::Char('q') if !(scope == KeyScope::Screen && screen == Screen::Countries) => Some(
            AppCommand::Quit,
        ),
        KeyCode::Char('?') => Some(AppCommand::ToggleHelp),
        KeyCode::Char(' ') => Some(AppCommand::ToggleKeyScope),
        KeyCode::Char('/') => Some(AppCommand::StartSearch),
        KeyCode::Char('0') => Some(AppCommand::Navigate(Screen::Home)),
        KeyCode::Char('1') => Some(AppCommand::Navigate(Screen::Countries)),
        KeyCode::Char('2') => Some(AppCommand::Navigate(Screen::Matches)),
        KeyCode::Char('3') => Some(AppCommand::Navigate(Screen::Standings)),
        KeyCode::Char('4') => Some(AppCommand::Navigate(Screen::Knockouts)),
        KeyCode::Char('5') => Some(AppCommand::Navigate(Screen::Stats)),
        KeyCode::Char('6') => Some(AppCommand::Navigate(Screen::Facts)),
        KeyCode::Tab => Some(AppCommand::FocusNext),
        KeyCode::BackTab => Some(AppCommand::FocusPrevious),
        KeyCode::Enter => Some(AppCommand::OpenDetails),
        KeyCode::Esc => Some(AppCommand::CloseOverlay),
        _ => match scope {
            KeyScope::Global => match focused_scroll_command(key, focus) {
                Some(c) => Some(c),
                None => global_command(key),
            },
            KeyScope::Screen => match screen_command(key, screen, focus) {
                Some(c) => Some(c),
                None => focused_scroll_command(key, focus),
            },
        },
    }
}

/// The keys of search mode: Esc closes, Enter submits, Backspace deletes,
/// and a character typed alone or with Shift is added to the query.
pub open spec fn search_key(key: KeyEvent) -> Option<AppCommand> {
    match key.code {
        KeyCode::Esc => Some(AppCommand::CloseOverlay),
        KeyCode::Enter => Some(AppCommand::SubmitSearch),
        KeyCode::Backspace => Some(AppCommand::SearchBackspace),
        KeyCode::Char(c) => if key.modifiers.is_empty_spec() || key.modifiers.is_shift_only_spec() {
            Some(AppCommand::SearchInput(c))
        } else {
            None
        },
        _ => None,
    }
}

fn search_command(key: KeyEvent) -> (r: Option<AppCommand>)
    ensures
        r == search_key(key),
{
    match key.code {
        KeyCode::Esc => Some(AppCommand::CloseOverlay),
        KeyCode::Enter => Some(AppCommand::SubmitSearch),
        KeyCode::Backspace => Some(AppCommand::SearchBackspace),
        KeyCode::Char(c) => {
            let m = key.modifiers;
            let plain = m.is_empty();
            let shift_only = m.shift && !m.control && !m.alt && !m.super_key && !m.hyper && !m.meta;
            if plain || shift_only {
                Some(AppCommand::SearchInput(c))
            } else {
                None
            }
        },
        _ => None,
    }
}

/// The keys of the quit confirmation: Enter, `q` or `y` quit; Esc or `n`
/// stay; letters in either case.
pub open spec fn quit_confirm_key(key: KeyEvent) -> Option<AppCommand> {
    match key.code {
        KeyCode::Enter => Some(AppCommand::ConfirmQuit),
        KeyCode::Esc => Some(AppCommand::CloseOverlay),
        KeyCode::Char(c) => if ascii_lower(c) == 'q' || ascii_lower(c) == 'y' {
            Some(AppCommand::ConfirmQuit)
        } else if ascii_lower(c) == 'n' {
            Some(AppCommand::CloseOverlay)
        } else {
            None
        },
        _ => None,
    }
}

fn quit_confirm_command(key: KeyEvent) -> (r: Option<AppCommand>)
    ensures
        r == quit_confirm_key(key),
{
    match key.code {
        KeyCode::Enter => Some(AppCommand::ConfirmQuit),
        KeyCode::Esc => Some(AppCommand::CloseOverlay),
        KeyCode::Char(c) => {
            let l = ascii_lower_char(c);
            if l == 'q' || l == 'y' {
                Some(AppCommand::ConfirmQuit)
            } else if l == 'n' {
                Some(AppCommand::CloseOverlay)
            } else {
                None
            }
        },
        _ => None,
    }
}

/// The command a key press stands for.
pub open spec fn key_command(
    key: KeyEvent,
    mode: InputMode,
    scope: KeyScope,
    screen: Screen,
    focus: FocusPane,
) -> Option<AppCommand> {
    match mode {
        InputMode::Normal => normal_key(key, scope, screen, focus),
        InputMode::Search => search_key(key),
        InputMode::QuitConfirm => quit_confirm_key(key),
    }
}

pub fn command_for_key(
    key: KeyEvent,
    mode: InputMode,
    scope: KeyScope,
    screen: Screen,
    focus: FocusPane,
) -> (r: Option<AppCommand>)
    ensures
        r == key_command(key, mode, scope, screen, focus),
{
    match mode {
        InputMode::Normal => normal_command(key, scope, screen, focus),
        InputMode::Search => search_command(key),
        InputMode::QuitConfirm => quit_confirm_command(key),
    }
}

/// Esc closes whatever is open, in every mode, scope, screen and focus.
pub proof fn escape_always_closes(
    modifiers: KeyModifiers,
    mode: InputMode,
    scope: KeyScope,
    screen: Screen,
    focus: FocusPane,
)
    ensures
        key_command(KeyEvent { code: KeyCode::Esc, modifiers }, mode, scope, screen, focus) == Some(
            AppCommand::CloseOverlay,
        ),
{
}

/// In normal mode the number keys open their screen whatever the scope,
/// screen and focus.
pub proof fn number_keys_navigate(
    s: Screen,
    modifiers: KeyModifiers,
    scope: KeyScope,
    screen: Screen,
    focus: FocusPane,
)
    ensures
        key_command(
            KeyEvent { code: KeyCode::Char(screen_digit(s)), modifiers },
            InputMode::Normal,
            scope,
            screen,
            focus,
        ) == Some(AppCommand::Navigate(s)),
{
}

/// The number key of each screen.
pub open spec fn screen_digit(s: Screen) -> char {
    match s {
        Screen::Home => '0',
        Screen::Countries => '1',
        Screen::Matches => '2',
        Screen::Standings => '3',
        Screen::Knockouts => '4',
        Screen::Stats => '5',
        Screen::Facts => '6',
    }
}

/// A letter's shortcut does not depend on its case.
pub proof fn shortcuts_ignore_case(key: KeyEvent, c: char)
    requires
        'a' <= c <= 'z',
        key.code == KeyCode::Char(c),
    ensures
        screen_shortcut(key, Screen::Countries, FocusPane::Unfocused) == screen_shortcut(
            KeyEvent { code: KeyCode::Char(((c as u32) - 32) as char), modifiers: key.modifiers },
            Screen::Countries,
            FocusPane::Unfocused,
        ),
{
    let upper = ((c as u32) - 32) as char;
    assert(ascii_lower(upper) == c) by {
        assert(((upper as u32) + 32) as char == c);
    }
}

/// In normal mode and the global scope, the letters work on every screen and
/// with any focus, in either case: `t` switches between relative and
/// absolute times, `f` shows only favourites, `s` and `r` refresh, `h`
/// toggles the help, and `q` quits.
pub proof fn global_letter_keys(key: KeyEvent, screen: Screen, focus: FocusPane)
    requires
        !key.modifiers.control,
        !key.modifiers.alt,
    ensures
        (key.code == KeyCode::Char('t') || key.code == KeyCode::Char('T')) ==> key_command(key, InputMode::Normal, KeyScope::Global, screen, focus) == Some(AppCommand::ToggleTimeMode),
        (key.code == KeyCode::Char('f') || key.code == KeyCode::Char('F')) ==> key_command(key, InputMode::Normal, KeyScope::Global, screen, focus) == Some(AppCommand::ToggleFavoriteOnly),
        (key.code == KeyCode::Char('s') || key.code == KeyCode::Char('S') || key.code == KeyCode::Char('r') || key.code == KeyCode::Char('R')) ==> key_command(key, InputMode::Normal, KeyScope::Global, screen, focus) == Some(AppCommand::Refresh),
        (key.code == KeyCode::Char('h') || key.code == KeyCode::Char('H')) ==> key_command(key, InputMode::Normal, KeyScope::Global, screen, focus) == Some(AppCommand::ToggleHelp),
        (key.code == KeyCode::Char('q') || key.code == KeyCode::Char('Q')) ==> key_command(key, InputMode::Normal, KeyScope::Global, screen, focus) == Some(AppCommand::Quit),
{
    assert(ascii_lower('T') == 't') by {
        assert((('T' as u32) + 32) as char == 't');
    }
    assert(ascii_lower('F') == 'f') by {
        assert((('F' as u32) + 32) as char == 'f');
    }
    assert(ascii_lower('S') == 's') by {
        assert((('S' as u32) + 32) as char == 's');
    }
    assert(ascii_lower('R') == 'r') by {
        assert((('R' as u32) + 32) as char == 'r');
    }
    assert(ascii_lower('H') == 'h') by {
        assert((('H' as u32) + 32) as char == 'h');
    }
    assert(ascii_lower('Q') == 'q') by {
        assert((('Q' as u32) + 32) as char == 'q');
    }
}

/// In normal mode and the screen scope, each screen's letters: search,
/// favourite, sort and the confederation filters on the countries screen;
/// the date and group filters of the match list, or the timeline filters
/// when the match detail has the focus; the group filters, sort and opening
/// a group's matches on the standings; the round filters of the bracket; the
/// statistics tabs.
pub proof fn screen_letter_keys(key: KeyEvent, focus: FocusPane)
    requires
        !key.modifiers.control,
        !key.modifiers.alt,
    ensures
        key.code == KeyCode::Char('q') ==> key_command(key, InputMode::Normal, KeyScope::Screen, Screen::Countries, focus) == Some(AppCommand::StartSearch),
        key.code == KeyCode::Char('*') ==> key_command(key, InputMode::Normal, KeyScope::Screen, Screen::Countries, focus) == Some(AppCommand::ToggleSelectedCountryFavorite),
        key.code == KeyCode::Char('o') ==> key_command(key, InputMode::Normal, KeyScope::Screen, Screen::Countries, focus) == Some(AppCommand::ToggleSort),
        key.code == KeyCode::Char('l') ==> key_command(key, InputMode::Normal, KeyScope::Screen, Screen::Countries, focus) == Some(AppCommand::ToggleCountryFilter(CountriesFilter::All)),
        key.code == KeyCode::Char('a') ==> key_command(key, InputMode::Normal, KeyScope::Screen, Screen::Countries, focus) == Some(AppCommand::ToggleCountryFilter(CountriesFilter::Afc)),
        key.code == KeyCode::Char('c') ==> key_command(key, InputMode::Normal, KeyScope::Screen, Screen::Countries, focus) == Some(AppCommand::ToggleCountryFilter(CountriesFilter::Caf)),
        key.code == KeyCode::Char('n') ==> key_command(key, InputMode::Normal, KeyScope::Screen, Screen::Countries, focus) == Some(AppCommand::ToggleCountryFilter(CountriesFilter::Concacaf)),
        key.code == KeyCode::Char('m') ==> key_command(key, InputMode::Normal, KeyScope::Screen, Screen::Countries, focus) == Some(AppCommand::ToggleCountryFilter(CountriesFilter::Conmebol)),
        key.code == KeyCode::Char('f') ==> key_command(key, InputMode::Normal, KeyScope::Screen, Screen::Countries, focus) == Some(AppCommand::ToggleCountryFilter(CountriesFilter::Ofc)),
        key.code == KeyCode::Char('u') ==> key_command(key, InputMode::Normal, KeyScope::Screen, Screen::Countries, focus) == Some(AppCommand::ToggleCountryFilter(CountriesFilter::Uefa)),
        focus != FocusPane::Detail && key.code == KeyCode::Char('s') ==> key_command(key, InputMode::Normal, KeyScope::Screen, Screen::Matches, focus) == Some(AppCommand::SelectMatchesFilter(MatchesFilter::All)),
        focus != FocusPane::Detail && key.code == KeyCode::Char('t') ==> key_command(key, InputMode::Normal, KeyScope::Screen, Screen::Matches, focus) == Some(AppCommand::SelectMatchesFilter(MatchesFilter::Today)),
        focus != FocusPane::Detail && key.code == KeyCode::Char('p') ==> key_command(key, InputMode::Normal, KeyScope::Screen, Screen::Matches, focus) == Some(AppCommand::SelectMatchesFilter(MatchesFilter::Past)),
        focus != FocusPane::Detail && key.code == KeyCode::Char('u') ==> key_command(key, InputMode::Normal, KeyScope::Screen, Screen::Matches, focus) == Some(AppCommand::SelectMatchesFilter(MatchesFilter::Future)),
        focus != FocusPane::Detail && key.code == KeyCode::Char('r') ==> key_command(key, InputMode::Normal, KeyScope::Screen, Screen::Matches, focus) == Some(AppCommand::ToggleMatchGroup(StandingsFilter::AllGroups)),
        focus != FocusPane::Detail && key.code == KeyCode::Char('a') ==> key_command(key, InputMode::Normal, KeyScope::Screen, Screen::Matches, focus) == Some(AppCommand::ToggleMatchGroup(StandingsFilter::GroupA)),
        focus != FocusPane::Detail && key.code == KeyCode::Char('l') ==> key_command(key, InputMode::Normal, KeyScope::Screen, Screen::Matches, focus) == Some(AppCommand::ToggleMatchGroup(StandingsFilter::GroupL)),
        key.code == KeyCode::Char('g') ==> key_command(key, InputMode::Normal, KeyScope::Screen, Screen::Matches, FocusPane::Detail) == Some(AppCommand::ToggleTimelineFilter(TimelineFilter::Goals)),
        key.code == KeyCode::Char('r') ==> key_command(key, InputMode::Normal, KeyScope::Screen, Screen::Matches, FocusPane::Detail) == Some(AppCommand::ToggleTimelineFilter(TimelineFilter::RedCards)),
        key.code == KeyCode::Char('y') ==> key_command(key, InputMode::Normal, KeyScope::Screen, Screen::Matches, FocusPane::Detail) == Some(AppCommand::ToggleTimelineFilter(TimelineFilter::YellowCards)),
        key.code == KeyCode::Char('s') ==> key_command(key, InputMode::Normal, KeyScope::Screen, Screen::Matches, FocusPane::Detail) == Some(AppCommand::ToggleTimelineFilter(TimelineFilter::Substitutions)),
        key.code == KeyCode::Char('m') ==> key_command(key, InputMode::Normal, KeyScope::Screen, Screen::Standings, FocusPane::Content) == Some(AppCommand::OpenSelectedStandingGroupMatches),
        key.code == KeyCode::Char('o') ==> key_command(key, InputMode::Normal, KeyScope::Screen, Screen::Standings, focus) == Some(AppCommand::ToggleSort),
        key.code == KeyCode::Char('r') ==> key_command(key, InputMode::Normal, KeyScope::Screen, Screen::Standings, focus) == Some(AppCommand::ToggleStandingGroup(StandingsFilter::AllGroups)),
        key.code == KeyCode::Char('a') ==> key_command(key, InputMode::Normal, KeyScope::Screen, Screen::Standings, focus) == Some(AppCommand::ToggleStandingGroup(StandingsFilter::GroupA)),
        key.code == KeyCode::Char('b') ==> key_command(key, InputMode::Normal, KeyScope::Screen, Screen::Standings, focus) == Some(AppCommand::ToggleStandingGroup(StandingsFilter::GroupB)),
        key.code == KeyCode::Char('l') ==> key_command(key, InputMode::Normal, KeyScope::Screen, Screen::Standings, focus) == Some(AppCommand::ToggleStandingGroup(StandingsFilter::GroupL)),
        key.code == KeyCode::Char('a') ==> key_command(key, InputMode::Normal, KeyScope::Screen, Screen::Knockouts, focus) == Some(AppCommand::ToggleKnockoutRound(KnockoutRoundFilter::All)),
        key.code == KeyCode::Char('r') ==> key_command(key, InputMode::Normal, KeyScope::Screen, Screen::Knockouts, focus) == Some(AppCommand::ToggleKnockoutRound(KnockoutRoundFilter::RoundOf32)),
        key.code == KeyCode::Char('o') ==> key_command(key, InputMode::Normal, KeyScope::Screen, Screen::Knockouts, focus) == Some(AppCommand::ToggleKnockoutRound(KnockoutRoundFilter::RoundOf16)),
        key.code == KeyCode::Char('u') ==> key_command(key, InputMode::Normal, KeyScope::Screen, Screen::Knockouts, focus) == Some(AppCommand::ToggleKnockoutRound(KnockoutRoundFilter::QuarterFinal)),
        key.code == KeyCode::Char('s') ==> key_command(key, InputMode::Normal, KeyScope::Screen, Screen::Knockouts, focus) == Some(AppCommand::ToggleKnockoutRound(KnockoutRoundFilter::SemiFinal)),
        key.code == KeyCode::Char('t') ==> key_command(key, InputMode::Normal, KeyScope::Screen, Screen::Knockouts, focus) == Some(AppCommand::ToggleKnockoutRound(KnockoutRoundFilter::ThirdPlace)),
        key.code == KeyCode::Char('f') ==> key_command(key, InputMode::Normal, KeyScope::Screen, Screen::Knockouts, focus) == Some(AppCommand::ToggleKnockoutRound(KnockoutRoundFilter::Final)),
        key.code == KeyCode::Char('a') ==> key_command(key, InputMode::Normal, KeyScope::Screen, Screen::Stats, focus) == Some(AppCommand::SelectStatsTab(StatsTab::All)),
        key.code == KeyCode::Char('r') ==> key_command(key, InputMode::Normal, KeyScope::Screen, Screen::Stats, focus) == Some(AppCommand::SelectStatsTab(StatsTab::Records)),
        key.code == KeyCode::Char('g') ==> key_command(key, InputMode::Normal, KeyScope::Screen, Screen::Stats, focus) == Some(AppCommand::SelectStatsTab(StatsTab::Goals)),
        key.code == KeyCode::Char('f') ==> key_command(key, InputMode::Normal, KeyScope::Screen, Screen::Stats, focus) == Some(AppCommand::SelectStatsTab(StatsTab::Fouls)),
        key.code == KeyCode::Char('p') ==> key_command(key, InputMode::Normal, KeyScope::Screen, Screen::Stats, focus) == Some(AppCommand::SelectStatsTab(StatsTab::Passes)),
{
}

} // verus!
