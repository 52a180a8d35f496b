use code_m::navigation::{
    playback_transition, wrap_index, BrowseSortMode, DemoMode, NavigationState,
    PlaybackTransition, SettingsItem,
};

#[test]
fn playback_transition_stops_audio_when_leaving_gameplay() {
    assert_eq!(
        playback_transition(DemoMode::Playing, DemoMode::Paused, false),
        PlaybackTransition::StopAndFreeze
    );
    assert_eq!(
        playback_transition(DemoMode::Playing, DemoMode::Results, false),
        PlaybackTransition::StopAndFreeze
    );
    assert_eq!(
        playback_transition(DemoMode::Playing, DemoMode::SongSelect, false),
        PlaybackTransition::StopAndFreeze
    );
    assert_eq!(
        playback_transition(DemoMode::Playing, DemoMode::Settings, false),
        PlaybackTransition::StopAndFreeze
    );
    assert_eq!(
        playback_transition(DemoMode::Playing, DemoMode::Calibration, false),
        PlaybackTransition::StopAndFreeze
    );
}

#[test]
fn playback_transition_restarts_audio_when_gameplay_begins_or_session_restarts() {
    assert_eq!(
        playback_transition(DemoMode::Paused, DemoMode::Playing, false),
        PlaybackTransition::StartOrResume
    );
    assert_eq!(
        playback_transition(DemoMode::Settings, DemoMode::Calibration, false),
        PlaybackTransition::StartOrResume
    );
    assert_eq!(
        playback_transition(DemoMode::Calibration, DemoMode::Playing, false),
        PlaybackTransition::StartOrResume
    );
    assert_eq!(
        playback_transition(DemoMode::Playing, DemoMode::Playing, true),
        PlaybackTransition::StartOrResume
    );
}

#[test]
fn playback_transition_keeps_audio_between_browse_screens() {
    assert_eq!(
        playback_transition(DemoMode::SongSelect, DemoMode::Settings, false),
        PlaybackTransition::Keep
    );
}

#[test]
fn wrap_index_moves_around_both_ends() {
    assert_eq!(wrap_index(0, -1, 10), 9);
    assert_eq!(wrap_index(9, 1, 10), 0);
    assert_eq!(wrap_index(3, 2, 10), 5);
    assert_eq!(wrap_index(0, -21, 10), 9);
}

#[test]
fn settings_item_index_round_trips() {
    for i in 0..10usize {
        assert_eq!(SettingsItem::from_index(i).index(), i);
    }
    assert_eq!(SettingsItem::from_index(99), SettingsItem::Back);
}

#[test]
fn sort_mode_cycles_through_all_four() {
    let mut m = BrowseSortMode::Default;
    let mut labels = Vec::new();
    for _ in 0..4 {
        labels.push(m.label());
        m = m.next();
    }
    assert_eq!(labels, vec!["Default", "Title", "BPM", "Stage"]);
    assert_eq!(m, BrowseSortMode::Default);
}

#[test]
fn settings_open_and_close_return_to_the_song_list() {
    let mut n = NavigationState::new();
    n.open_settings();
    assert_eq!(n.mode, DemoMode::Settings);
    n.move_settings_selection(-1);
    assert_eq!(n.settings_selection, SettingsItem::Back);
    n.close_settings();
    assert_eq!(n.mode, DemoMode::SongSelect);
}

#[test]
fn settings_do_not_open_during_play() {
    let mut n = NavigationState::new();
    n.mode = DemoMode::Playing;
    n.open_settings();
    assert_eq!(n.mode, DemoMode::Playing);
    n.toggle_pause();
    assert_eq!(n.mode, DemoMode::Paused);
    n.open_settings();
    assert_eq!(n.mode, DemoMode::Settings);
    n.close_settings();
    assert_eq!(n.mode, DemoMode::Paused);
}

#[test]
fn search_returns_to_the_list_it_was_opened_from() {
    let mut n = NavigationState::new();
    n.open_imported_view(true);
    assert_eq!(n.mode, DemoMode::ImportedSelect);
    assert!(n.open_search());
    n.close_search();
    assert_eq!(n.mode, DemoMode::ImportedSelect);
    n.cycle_sort_mode();
    assert_eq!(n.browse_sort_mode(), BrowseSortMode::Title);
    assert_eq!(n.bundled_sort_mode, BrowseSortMode::Default);
}

#[test]
fn imported_view_needs_imported_songs() {
    let mut n = NavigationState::new();
    n.open_imported_view(false);
    assert_eq!(n.mode, DemoMode::SongSelect);
}

#[test]
fn calibration_returns_to_settings() {
    let mut n = NavigationState::new();
    n.open_settings();
    n.open_calibration();
    assert_eq!(n.mode, DemoMode::Calibration);
    n.finish_calibration();
    assert_eq!(n.mode, DemoMode::Settings);
}

#[test]
fn starting_a_chart_remembers_the_list() {
    let mut n = NavigationState::new();
    n.open_imported_view(true);
    n.start_chart();
    assert_eq!(n.mode, DemoMode::Loading);
    n.return_to_browse_view();
    assert_eq!(n.mode, DemoMode::ImportedSelect);
}
