use code_m::clock::GameTime;
use code_m::clock_sync::{
    demo_time, ClockDriftCorrection, DemoClockAnchor, PlaybackClock, PlaybackOffset,
};
use code_m::keymap::Keymap;
use code_m::keys::{key_action, search_key_action, KeyAction, KeyCode, KeyKind};
use code_m::navigation::{DemoMode, SettingsItem};
use code_m::settings::{
    adjust_volume, builtin_theme_name, clamp_global_offset_ms, clamp_input_offset_ms,
    is_builtin_theme_name, load_default_settings, next_keymap_preset, offset_plus,
    theme_label_for, activate_settings_item, adjust_settings_item, ActiveThemeSource,
    DemoThemeVariant, Settings,
};
use code_m::theme::{normalize_builtin_name, parse_hex_rgb, ThemeError, ThemeTokens};
use std::time::{Duration, Instant};

fn tokens(name: &str, color: &str) -> ThemeTokens {
    let c = color.to_string();
    ThemeTokens {
        name: name.to_string(),
        background: c.clone(),
        foreground: c.clone(),
        accent: c.clone(),
        shell_top_bar_bg: c.clone(),
        shell_top_bar_fg: c.clone(),
        shell_footer_bg: c.clone(),
        shell_footer_fg: c.clone(),
        shell_panel: c.clone(),
        shell_panel_alt: c.clone(),
        shell_panel_raised: c.clone(),
        shell_row_selected_bg: c.clone(),
        shell_row_selected_fg: c.clone(),
        shell_separator: c.clone(),
        shell_border: c.clone(),
        shell_pill_bg: c.clone(),
        shell_title: c.clone(),
        shell_success: c.clone(),
        shell_warning: c.clone(),
        shell_muted: c.clone(),
        shell_error: c.clone(),
        lane_border: c.clone(),
        lane_fill: c.clone(),
        lane_active: c.clone(),
        hud_panel: c.clone(),
        hud_label: c.clone(),
        judgment_perfect: c.clone(),
        judgment_great: c.clone(),
        judgment_good: c.clone(),
        judgment_miss: c,
    }
}

#[test]
fn default_settings_use_home_row_and_mocha_shell() {
    let s = load_default_settings();
    assert_eq!(s.keymap.as_string(), "S D F J K L");
    assert_eq!(s.keymap.keys(), ["S", "D", "F", "J", "K", "L"]);
    assert_eq!(s.theme_path, "builtin:mocha-shell");
    assert_eq!(s.music_volume, 80);
    assert_eq!(s.hit_sound_volume, 70);
    assert!(s.is_builtin_theme());
    assert_eq!(s.builtin_theme_name(), Some("mocha-shell"));
}

#[test]
fn builtin_theme_paths_are_recognised() {
    assert!(is_builtin_theme_name("neon-stage"));
    assert!(!is_builtin_theme_name("typo"));
    assert_eq!(builtin_theme_name("builtin:ghostty-cold"), Some("ghostty-cold"));
    assert_eq!(builtin_theme_name("builtin:typo"), None);
    assert_eq!(builtin_theme_name("themes/custom.toml"), None);
}

#[test]
fn offsets_and_volumes_stay_in_range() {
    assert_eq!(clamp_global_offset_ms(500), 240);
    assert_eq!(clamp_global_offset_ms(-500), -240);
    assert_eq!(clamp_input_offset_ms(200), 180);
    assert_eq!(clamp_input_offset_ms(17), 17);
    assert_eq!(adjust_volume(98, 5), 100);
    assert_eq!(adjust_volume(3, -5), 0);
    assert_eq!(adjust_volume(50, 5), 55);
    assert_eq!(offset_plus(i32::MAX, 5), i32::MAX);
    assert_eq!(offset_plus(10, -5), 5);
}

#[test]
fn keymap_presets_cycle_and_avoid_shell_shortcuts() {
    assert_eq!(next_keymap_preset("S D F J K L"), "A S D J K L");
    assert_eq!(next_keymap_preset("A S D J K L"), "Z X C , . /");
    assert_eq!(next_keymap_preset("Z X C , . /"), "S D F J K L");
    for preset in ["S D F J K L", "A S D J K L", "Z X C , . /"] {
        for reserved in ["B", "I", "P", "Q", "R", "T", "V"] {
            assert!(!preset.split_whitespace().any(|k| k == reserved));
        }
    }
}

#[test]
fn theme_variants_cycle_through_all_six() {
    let mut v = DemoThemeVariant::MinimalProfessional;
    let mut seen = Vec::new();
    for _ in 0..6 {
        seen.push(v.builtin_name());
        v = v.next();
    }
    assert_eq!(
        seen,
        vec!["minimal-professional", "mono-contrast", "mocha-shell", "ghostty-cold", "soft-luxury", "neon-stage"]
    );
    assert_eq!(v, DemoThemeVariant::MinimalProfessional);
    assert_eq!(DemoThemeVariant::GhosttyCold.settings_theme_path(), "builtin:ghostty-cold");
    assert_eq!(DemoThemeVariant::from_builtin_name("soft-luxury"), Some(DemoThemeVariant::SoftLuxury));
    assert_eq!(DemoThemeVariant::NeonStage.index(), 5);
}

#[test]
fn theme_labels_name_the_source() {
    let mut settings = Settings::default();
    settings.theme_path = "builtin:ghostty-cold".to_string();
    let theme = tokens("ghostty cold", "#101010");
    assert_eq!(theme_label_for(&settings, &theme), "ghostty cold");
    assert_eq!(
        ActiveThemeSource::from_settings_and_theme(&settings, &theme),
        ActiveThemeSource::BuiltinPreset(DemoThemeVariant::GhosttyCold)
    );
    settings.theme_path = "builtin:typo".to_string();
    assert_eq!(theme_label_for(&settings, &theme), "custom: builtin:typo");
    let fallback = ActiveThemeSource::from_settings_and_theme(&settings, &theme);
    assert_eq!(fallback.builtin_variant(), Some(DemoThemeVariant::MochaShell));
    assert_eq!(fallback.source_ref(), "mocha-shell");
    settings.theme_path = "themes/custom.toml".to_string();
    let custom = ActiveThemeSource::from_settings_and_theme(&settings, &theme);
    assert_eq!(custom.source_ref(), "themes/custom.toml");
    assert_eq!(theme_label_for(&settings, &theme), "custom: themes/custom.toml");
}

#[test]
fn core_colors_must_be_hex_triples() {
    assert_eq!(parse_hex_rgb("#0f1115"), Some((0x0f, 0x11, 0x15)));
    assert_eq!(parse_hex_rgb("0f1115"), None);
    assert_eq!(parse_hex_rgb("#0f11zz"), None);
    assert!(tokens("ok", "#abcdef").validate_core_colors().is_ok());
    let mut bad = tokens("bad", "#abcdef");
    bad.foreground = "nope".to_string();
    assert_eq!(
        bad.validate_core_colors(),
        Err(ThemeError::InvalidColor { field: "foreground", value: "nope".to_string() })
    );
    let mut bad_accent = tokens("bad", "#abcdef");
    bad_accent.accent = "#abcdeg".to_string();
    assert_eq!(
        bad_accent.validate_core_colors(),
        Err(ThemeError::InvalidColor { field: "accent", value: "#abcdeg".to_string() })
    );
    bad.background = "#12".to_string();
    assert_eq!(
        bad.validate_core_colors(),
        Err(ThemeError::InvalidColor { field: "background", value: "#12".to_string() })
    );
}

#[test]
fn builtin_names_normalise_spaces_and_case() {
    assert_eq!(normalize_builtin_name("  Mocha Shell "), "mocha-shell");
    assert_eq!(normalize_builtin_name("NEON_stage"), "neon-stage");
}

#[test]
fn keys_quit_outside_search_and_type_inside_it() {
    let item = SettingsItem::Theme;
    assert_eq!(key_action(DemoMode::SongSelect, item, KeyKind::Press, KeyCode::Esc), KeyAction::Quit);
    assert_eq!(key_action(DemoMode::ImportedSelect, item, KeyKind::Press, KeyCode::Esc), KeyAction::Quit);
    assert_eq!(key_action(DemoMode::Playing, item, KeyKind::Press, KeyCode::Char('q')), KeyAction::Quit);
    assert_eq!(key_action(DemoMode::Settings, item, KeyKind::Press, KeyCode::Esc), KeyAction::CloseSettings);
    assert_eq!(key_action(DemoMode::Results, item, KeyKind::Press, KeyCode::Esc), KeyAction::ReturnToBrowseView);
    assert_eq!(key_action(DemoMode::Playing, item, KeyKind::Press, KeyCode::Esc), KeyAction::Nothing);
    assert_eq!(key_action(DemoMode::SongSelect, item, KeyKind::Press, KeyCode::Char('Q')), KeyAction::Quit);
    assert_eq!(
        key_action(DemoMode::Search, item, KeyKind::Press, KeyCode::Char('q')),
        KeyAction::PushSearchChar('q')
    );
    assert_eq!(key_action(DemoMode::Search, item, KeyKind::Press, KeyCode::Esc), KeyAction::CloseSearch);
    assert_eq!(search_key_action(KeyKind::Release, KeyCode::Enter), KeyAction::Nothing);
}

#[test]
fn keys_act_on_the_screen_they_are_pressed_in() {
    let item = SettingsItem::MusicVolume;
    assert_eq!(
        key_action(DemoMode::SongSelect, item, KeyKind::Press, KeyCode::Char('s')),
        KeyAction::OpenSettings
    );
    assert_eq!(
        key_action(DemoMode::Playing, item, KeyKind::Press, KeyCode::Char('s')),
        KeyAction::GameplayPress('s')
    );
    assert_eq!(
        key_action(DemoMode::Settings, item, KeyKind::Press, KeyCode::Left),
        KeyAction::AdjustMusicVolume(-5)
    );
    assert_eq!(
        key_action(DemoMode::Settings, SettingsItem::Keymap, KeyKind::Press, KeyCode::Right),
        KeyAction::ActivateSettingsItem
    );
    assert_eq!(
        key_action(DemoMode::Replay, item, KeyKind::Press, KeyCode::Right),
        KeyAction::MoveReplayCursor(1)
    );
    assert_eq!(
        key_action(DemoMode::ImportedSelect, item, KeyKind::Press, KeyCode::Char('b')),
        KeyAction::ReturnToSongSelect
    );
    assert_eq!(
        key_action(DemoMode::Results, item, KeyKind::Press, KeyCode::Enter),
        KeyAction::ReturnToBrowseView
    );
    assert_eq!(
        key_action(DemoMode::Playing, item, KeyKind::Release, KeyCode::Char('j')),
        KeyAction::GameplayRelease('j')
    );
    assert_eq!(
        key_action(DemoMode::Playing, item, KeyKind::Press, KeyCode::Char('k')),
        KeyAction::GameplayPress('k')
    );
    assert_eq!(
        key_action(DemoMode::SongSelect, item, KeyKind::Press, KeyCode::Char('k')),
        KeyAction::MoveSelection(-1)
    );
    assert_eq!(
        key_action(DemoMode::Ready, item, KeyKind::Press, KeyCode::Char(' ')),
        KeyAction::SkipLoadingIntro
    );
    assert_eq!(key_action(DemoMode::Playing, item, KeyKind::Repeat, KeyCode::Char('j')), KeyAction::Nothing);
}

#[test]
fn playback_clocks_add_elapsed_time_and_offset() {
    let start = Instant::now();
    let clock = PlaybackClock::with_offset(start, PlaybackOffset::from_millis(25));
    assert_eq!(clock.time_after(1000).as_millis(), 1025);
    assert_eq!(clock.offset().as_millis(), 25);
    assert_eq!(clock.playback_time(start + Duration::from_millis(40)).as_millis(), 65);
    let late = PlaybackClock::with_offset(start + Duration::from_millis(1000), PlaybackOffset::from_millis(25));
    assert_eq!(late.playback_time(start).as_millis(), 25);
    let mut anchor = DemoClockAnchor::new(start, GameTime::from_millis(120));
    assert_eq!(anchor.time_after(0).as_millis(), 120);
    assert_eq!(anchor.playback_time(start + Duration::from_millis(1500)).as_millis(), 1620);
    anchor.reset(start, GameTime::from_millis(7));
    assert_eq!(anchor.base_time().as_millis(), 7);
}

#[test]
fn drift_corrections_are_bounded_by_the_step() {
    let c = ClockDriftCorrection::new(10);
    assert_eq!(c.correct(35), 10);
    assert_eq!(c.correct(-35), -10);
    assert_eq!(c.correct(4), 4);
    assert_eq!(c.corrected_offset(PlaybackOffset::from_millis(100), 35).as_millis(), 110);
}

#[test]
fn current_demo_time_applies_global_offset_while_playing() {
    let anchor = DemoClockAnchor::new(Instant::now(), GameTime::from_millis(120));

    let observed = anchor.playback_time(Instant::now());
    let time = demo_time(DemoMode::Playing, anchor.base_time(), observed, 24);
    assert!(time.as_millis() >= 144);

    let observed = anchor.playback_time(Instant::now());
    let paused = demo_time(DemoMode::Paused, anchor.base_time(), observed, 24);
    assert_eq!(paused, GameTime::from_millis(120));
}

#[test]
fn keymap_preset_cycle_avoids_reserved_shell_shortcuts() {
    let mut keymap = load_default_settings().keymap;

    keymap = Keymap::parse(next_keymap_preset(&keymap.as_string())).unwrap();
    assert_eq!(keymap.as_string(), "A S D J K L");

    keymap = Keymap::parse(next_keymap_preset(&keymap.as_string())).unwrap();
    assert_eq!(keymap.as_string(), "Z X C , . /");

    keymap = Keymap::parse(next_keymap_preset(&keymap.as_string())).unwrap();
    assert_eq!(keymap.as_string(), "S D F J K L");

    for keymap in ["S D F J K L", "A S D J K L", "Z X C , . /"] {
        for reserved in ["Q", "I", "P", "T", "R", "V", "B"] {
            assert!(
                !keymap.split_whitespace().any(|key| key == reserved),
                "{keymap} should not contain reserved shell shortcut {reserved}"
            );
        }
    }
}

#[test]
fn a_keymap_reads_back_from_its_text() {
    let keymap = Keymap::parse("  z x\tc , .   / ").unwrap();
    let again = Keymap::parse(&keymap.as_string()).unwrap();
    assert_eq!(again.keys(), keymap.keys());
    assert_eq!(again.as_string(), "z x c , . /");
}

#[test]
fn theme_sources_report_their_kind_and_place_in_the_cycle() {
    let typo = Settings { theme_path: "builtin:typo".to_string(), ..load_default_settings() };
    let source = ActiveThemeSource::from_settings_and_theme(&typo, &tokens("mocha shell", "#1e1e2e"));
    assert_eq!(source.source_kind(), "Built-in preset");
    assert_eq!(source.source_ref(), "mocha-shell");
    assert_eq!(source.cycle_summary(), "Preset 3/6");

    let custom = Settings { theme_path: "themes/ghostty-cold.toml".to_string(), ..load_default_settings() };
    let source = ActiveThemeSource::from_settings_and_theme(&custom, &tokens("ghostty cold", "#0b1120"));
    assert_eq!(source.source_kind(), "Custom theme");
    assert_eq!(source.source_ref(), "themes/ghostty-cold.toml");
    assert_eq!(source.cycle_summary(), "Custom theme");

    let neon = ActiveThemeSource::BuiltinPreset(DemoThemeVariant::NeonStage);
    assert_eq!(neon.cycle_summary(), "Preset 6/6");
}

#[test]
fn playback_offsets_default_to_zero() {
    assert_eq!(PlaybackOffset::default().as_millis(), 0);
    assert_eq!(PlaybackOffset::from_millis(-42).as_millis(), -42);
}

#[test]
fn settings_entries_change_their_own_setting() {
    let mut s = load_default_settings();
    activate_settings_item(&mut s, SettingsItem::MusicVolume);
    assert_eq!(s.music_volume, 85);
    adjust_settings_item(&mut s, SettingsItem::MusicVolume, 50);
    assert_eq!(s.music_volume, 100);
    adjust_settings_item(&mut s, SettingsItem::HitSoundVolume, -5);
    assert_eq!(s.hit_sound_volume, 65);
    adjust_settings_item(&mut s, SettingsItem::GlobalOffset, 1000);
    assert_eq!(s.global_offset_ms, 240);
    adjust_settings_item(&mut s, SettingsItem::InputOffset, -1000);
    assert_eq!(s.input_offset_ms, -180);
    activate_settings_item(&mut s, SettingsItem::GlobalOffset);
    assert_eq!(s.global_offset_ms, 240);
    activate_settings_item(&mut s, SettingsItem::StartupSplash);
    assert!(!s.startup_splash_enabled);
    adjust_settings_item(&mut s, SettingsItem::Metronome, -5);
    assert!(!s.metronome_enabled);
    activate_settings_item(&mut s, SettingsItem::Keymap);
    assert_eq!(s.keymap.as_string(), "A S D J K L");
    activate_settings_item(&mut s, SettingsItem::Keymap);
    assert_eq!(s.keymap.as_string(), "Z X C , . /");
    activate_settings_item(&mut s, SettingsItem::Keymap);
    assert_eq!(s.keymap.as_string(), "S D F J K L");
    for item in [SettingsItem::Theme, SettingsItem::Calibration, SettingsItem::Back] {
        activate_settings_item(&mut s, item);
    }
    assert_eq!(s.keymap.as_string(), "S D F J K L");
    assert_eq!(
        (s.music_volume, s.hit_sound_volume, s.global_offset_ms, s.input_offset_ms),
        (100, 65, 240, -180)
    );
    assert!(!s.startup_splash_enabled && !s.metronome_enabled);
    assert_eq!(s.theme_path, "builtin:mocha-shell");
}
