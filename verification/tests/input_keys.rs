use footui::app::{
    AppCommand, CountriesFilter, FocusPane, InputMode, KeyScope, KnockoutRoundFilter, MatchesFilter,
    Screen, StandingsFilter, TimelineFilter,
};
use footui::input::{command_for_key, KeyCode, KeyEvent, KeyModifiers};

fn key(code: KeyCode) -> KeyEvent {
    KeyEvent { code, modifiers: KeyModifiers::empty() }
}

#[test]
fn maps_global_navigation_keys() {
    assert_eq!(
        command_for_key(
            key(KeyCode::Char('2')),
            InputMode::Normal,
            KeyScope::Global,
            Screen::Home,
            FocusPane::Unfocused
        ),
        Some(AppCommand::Navigate(Screen::Matches))
    );
    assert_eq!(
        command_for_key(
            key(KeyCode::Char('h')),
            InputMode::Normal,
            KeyScope::Global,
            Screen::Matches,
            FocusPane::Unfocused
        ),
        Some(AppCommand::ToggleHelp)
    );
    assert_eq!(
        command_for_key(
            key(KeyCode::Char('4')),
            InputMode::Normal,
            KeyScope::Global,
            Screen::Home,
            FocusPane::Unfocused
        ),
        Some(AppCommand::Navigate(Screen::Knockouts))
    );
    assert_eq!(
        command_for_key(
            key(KeyCode::Char('m')),
            InputMode::Normal,
            KeyScope::Global,
            Screen::Standings,
            FocusPane::Unfocused
        ),
        None
    );
    assert_eq!(
        command_for_key(
            key(KeyCode::Char('c')),
            InputMode::Normal,
            KeyScope::Global,
            Screen::Standings,
            FocusPane::Content
        ),
        None
    );
    assert_eq!(
        command_for_key(
            key(KeyCode::Char('m')),
            InputMode::Normal,
            KeyScope::Screen,
            Screen::Standings,
            FocusPane::Content
        ),
        Some(AppCommand::OpenSelectedStandingGroupMatches)
    );
}

#[test]
fn maps_search_text_keys_in_search_mode() {
    assert_eq!(
        command_for_key(
            key(KeyCode::Char('m')),
            InputMode::Search,
            KeyScope::Global,
            Screen::Countries,
            FocusPane::Unfocused
        ),
        Some(AppCommand::SearchInput('m'))
    );
    assert_eq!(
        command_for_key(
            key(KeyCode::Enter),
            InputMode::Search,
            KeyScope::Global,
            Screen::Countries,
            FocusPane::Unfocused
        ),
        Some(AppCommand::SubmitSearch)
    );
}

#[test]
fn maps_same_key_by_scope() {
    assert_eq!(
        command_for_key(
            key(KeyCode::Char('s')),
            InputMode::Normal,
            KeyScope::Global,
            Screen::Standings,
            FocusPane::Unfocused
        ),
        Some(AppCommand::Refresh)
    );
    assert_eq!(
        command_for_key(
            key(KeyCode::Char('r')),
            InputMode::Normal,
            KeyScope::Screen,
            Screen::Standings,
            FocusPane::Unfocused
        ),
        Some(AppCommand::ToggleStandingGroup(StandingsFilter::AllGroups))
    );
}

#[test]
fn focused_panel_scroll_uses_arrow_keys_only() {
    assert_eq!(
        command_for_key(
            key(KeyCode::Down),
            InputMode::Normal,
            KeyScope::Global,
            Screen::Standings,
            FocusPane::Content
        ),
        Some(AppCommand::ScrollDown {
            max: 0,
            visible_lines: 0,
        })
    );
    assert_eq!(
        command_for_key(
            key(KeyCode::Up),
            InputMode::Normal,
            KeyScope::Screen,
            Screen::Countries,
            FocusPane::Detail
        ),
        Some(AppCommand::ScrollUp {
            max: 0,
            visible_lines: 0,
        })
    );
    assert_eq!(
        command_for_key(
            key(KeyCode::Char('s')),
            InputMode::Normal,
            KeyScope::Global,
            Screen::Standings,
            FocusPane::Content
        ),
        Some(AppCommand::Refresh)
    );
}

#[test]
fn screen_shortcuts_take_precedence_over_focused_scroll() {
    assert_eq!(
        command_for_key(
            key(KeyCode::Char('r')),
            InputMode::Normal,
            KeyScope::Screen,
            Screen::Standings,
            FocusPane::Content
        ),
        Some(AppCommand::ToggleStandingGroup(StandingsFilter::AllGroups))
    );
    assert_eq!(
        command_for_key(
            key(KeyCode::Char('j')),
            InputMode::Normal,
            KeyScope::Screen,
            Screen::Standings,
            FocusPane::Content
        ),
        Some(AppCommand::ToggleStandingGroup(StandingsFilter::GroupJ))
    );
    assert_eq!(
        command_for_key(
            key(KeyCode::Down),
            InputMode::Normal,
            KeyScope::Screen,
            Screen::Standings,
            FocusPane::Content
        ),
        Some(AppCommand::ScrollDown {
            max: 0,
            visible_lines: 0,
        })
    );
}

#[test]
fn focused_panel_supports_arrow_scroll() {
    assert_eq!(
        command_for_key(
            key(KeyCode::Down),
            InputMode::Normal,
            KeyScope::Screen,
            Screen::Countries,
            FocusPane::Content
        ),
        Some(AppCommand::ScrollDown {
            max: 0,
            visible_lines: 0,
        })
    );
    assert_eq!(
        command_for_key(
            key(KeyCode::Right),
            InputMode::Normal,
            KeyScope::Screen,
            Screen::Knockouts,
            FocusPane::Content
        ),
        Some(AppCommand::ScrollRight { max: 0 })
    );
    assert_eq!(
        command_for_key(
            key(KeyCode::Left),
            InputMode::Normal,
            KeyScope::Screen,
            Screen::Knockouts,
            FocusPane::Content
        ),
        Some(AppCommand::ScrollLeft { max: 0 })
    );
}

#[test]
fn maps_screen_sort_shortcut_without_case_sensitivity() {
    assert_eq!(
        command_for_key(
            key(KeyCode::Char('o')),
            InputMode::Normal,
            KeyScope::Screen,
            Screen::Countries,
            FocusPane::Unfocused
        ),
        Some(AppCommand::ToggleSort)
    );
    assert_eq!(
        command_for_key(
            key(KeyCode::Char('O')),
            InputMode::Normal,
            KeyScope::Screen,
            Screen::Standings,
            FocusPane::Unfocused
        ),
        Some(AppCommand::ToggleSort)
    );
}

#[test]
fn maps_ofc_to_f_after_sort_claims_o() {
    assert_eq!(
        command_for_key(
            key(KeyCode::Char('f')),
            InputMode::Normal,
            KeyScope::Screen,
            Screen::Countries,
            FocusPane::Unfocused
        ),
        Some(AppCommand::ToggleCountryFilter(CountriesFilter::Ofc))
    );
}

#[test]
fn maps_country_screen_search_and_favorite_actions() {
    assert_eq!(
        command_for_key(
            key(KeyCode::Char('q')),
            InputMode::Normal,
            KeyScope::Global,
            Screen::Countries,
            FocusPane::Unfocused
        ),
        Some(AppCommand::Quit)
    );
    assert_eq!(
        command_for_key(
            key(KeyCode::Char('q')),
            InputMode::Normal,
            KeyScope::Screen,
            Screen::Countries,
            FocusPane::Unfocused
        ),
        Some(AppCommand::StartSearch)
    );
    assert_eq!(
        command_for_key(
            key(KeyCode::Char('*')),
            InputMode::Normal,
            KeyScope::Screen,
            Screen::Countries,
            FocusPane::Content
        ),
        Some(AppCommand::ToggleSelectedCountryFavorite)
    );
}

#[test]
fn maps_quit_confirmation_keys() {
    assert_eq!(
        command_for_key(
            key(KeyCode::Char('y')),
            InputMode::QuitConfirm,
            KeyScope::Global,
            Screen::Countries,
            FocusPane::Unfocused
        ),
        Some(AppCommand::ConfirmQuit)
    );
    assert_eq!(
        command_for_key(
            key(KeyCode::Char('q')),
            InputMode::QuitConfirm,
            KeyScope::Global,
            Screen::Countries,
            FocusPane::Unfocused
        ),
        Some(AppCommand::ConfirmQuit)
    );
    assert_eq!(
        command_for_key(
            key(KeyCode::Enter),
            InputMode::QuitConfirm,
            KeyScope::Global,
            Screen::Countries,
            FocusPane::Unfocused
        ),
        Some(AppCommand::ConfirmQuit)
    );
    assert_eq!(
        command_for_key(
            key(KeyCode::Char('n')),
            InputMode::QuitConfirm,
            KeyScope::Global,
            Screen::Countries,
            FocusPane::Unfocused
        ),
        Some(AppCommand::CloseOverlay)
    );
    assert_eq!(
        command_for_key(
            key(KeyCode::Esc),
            InputMode::QuitConfirm,
            KeyScope::Global,
            Screen::Countries,
            FocusPane::Unfocused
        ),
        Some(AppCommand::CloseOverlay)
    );
}

#[test]
fn maps_match_group_shortcuts() {
    assert_eq!(
        command_for_key(
            key(KeyCode::Char('r')),
            InputMode::Normal,
            KeyScope::Screen,
            Screen::Matches,
            FocusPane::Content
        ),
        Some(AppCommand::ToggleMatchGroup(StandingsFilter::AllGroups))
    );
    assert_eq!(
        command_for_key(
            key(KeyCode::Char('d')),
            InputMode::Normal,
            KeyScope::Screen,
            Screen::Matches,
            FocusPane::Content
        ),
        Some(AppCommand::ToggleMatchGroup(StandingsFilter::GroupD))
    );
}

#[test]
fn maps_match_date_shortcuts() {
    assert_eq!(
        command_for_key(
            key(KeyCode::Char('p')),
            InputMode::Normal,
            KeyScope::Screen,
            Screen::Matches,
            FocusPane::Content
        ),
        Some(AppCommand::SelectMatchesFilter(MatchesFilter::Past))
    );
    assert_eq!(
        command_for_key(
            key(KeyCode::Char('u')),
            InputMode::Normal,
            KeyScope::Screen,
            Screen::Matches,
            FocusPane::Content
        ),
        Some(AppCommand::SelectMatchesFilter(MatchesFilter::Future))
    );
    assert_eq!(
        command_for_key(
            key(KeyCode::Char('s')),
            InputMode::Normal,
            KeyScope::Screen,
            Screen::Matches,
            FocusPane::Content
        ),
        Some(AppCommand::SelectMatchesFilter(MatchesFilter::All))
    );
}

#[test]
fn maps_match_detail_timeline_filter_shortcuts() {
    assert_eq!(
        command_for_key(
            key(KeyCode::Char('g')),
            InputMode::Normal,
            KeyScope::Screen,
            Screen::Matches,
            FocusPane::Detail
        ),
        Some(AppCommand::ToggleTimelineFilter(
            TimelineFilter::Goals
        ))
    );
    assert_eq!(
        command_for_key(
            key(KeyCode::Char('s')),
            InputMode::Normal,
            KeyScope::Screen,
            Screen::Matches,
            FocusPane::Detail
        ),
        Some(AppCommand::ToggleTimelineFilter(
            TimelineFilter::Substitutions
        ))
    );
}

#[test]
fn maps_knockout_round_shortcuts() {
    assert_eq!(
        command_for_key(
            key(KeyCode::Char('r')),
            InputMode::Normal,
            KeyScope::Screen,
            Screen::Knockouts,
            FocusPane::Content
        ),
        Some(AppCommand::ToggleKnockoutRound(
            KnockoutRoundFilter::RoundOf32
        ))
    );
    assert_eq!(
        command_for_key(
            key(KeyCode::Char('o')),
            InputMode::Normal,
            KeyScope::Screen,
            Screen::Knockouts,
            FocusPane::Content
        ),
        Some(AppCommand::ToggleKnockoutRound(
            KnockoutRoundFilter::RoundOf16
        ))
    );
    assert_eq!(
        command_for_key(
            key(KeyCode::Char('u')),
            InputMode::Normal,
            KeyScope::Screen,
            Screen::Knockouts,
            FocusPane::Content
        ),
        Some(AppCommand::ToggleKnockoutRound(
            KnockoutRoundFilter::QuarterFinal
        ))
    );
    assert_eq!(
        command_for_key(
            key(KeyCode::Char('s')),
            InputMode::Normal,
            KeyScope::Screen,
            Screen::Knockouts,
            FocusPane::Content
        ),
        Some(AppCommand::ToggleKnockoutRound(
            KnockoutRoundFilter::SemiFinal
        ))
    );
    assert_eq!(
        command_for_key(
            key(KeyCode::Char('f')),
            InputMode::Normal,
            KeyScope::Screen,
            Screen::Knockouts,
            FocusPane::Content
        ),
        Some(AppCommand::ToggleKnockoutRound(KnockoutRoundFilter::Final))
    );
}
