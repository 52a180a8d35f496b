//! What a key press or release asks of the shell, in each screen mode.
use vstd::prelude::*;
use crate::navigation::{DemoMode, SettingsItem};

verus! {

/// Whether a key went down, came up, or repeats while held.
#[derive(Debug, Clone, Copy, PartialEq, Eq, Structural)]
pub enum KeyKind {
    Press,
    Release,
    Repeat,
}

/// The keys the shell tells apart.
#[derive(Debug, Clone, Copy, PartialEq, Eq, Structural)]
pub enum KeyCode {
    Esc,
    Enter,
    Backspace,
    Up,
    Down,
    Left,
    Right,
    Char(char),
    Other,
}

/// The one thing the shell does in answer to a key.
#[derive(Debug, Clone, Copy, PartialEq, Eq, Structural)]
pub enum KeyAction {
    Quit,
    Nothing,
    OpenSettings,
    CloseSettings,
    GameplayPress(char),
    GameplayRelease(char),
    MoveSettingsSelection(i32),
    MoveSelection(i32),
    MoveImportedSelection(i32),
    MoveReplayCursor(i32),
    AdjustGlobalOffset(i32),
    AdjustInputOffset(i32),
    AdjustMusicVolume(i32),
    AdjustHitSoundVolume(i32),
    AdjustCalibration(i32),
    ActivateSettingsItem,
    SkipLoadingIntro,
    FinishCalibration,
    CloseReplayView,
    OpenReplayView,
    ToggleReplayPreview,
    StartSelectedChart,
    ReturnToBrowseView,
    ReturnToSongSelect,
    CycleBrowseSort,
    Restart,
    TogglePause,
    ToggleTheme,
    OpenImportedView,
    OpenSearch,
    CloseSearch,
    ActivateSearchSelection,
    PopSearchChar,
    MoveSearchSelection(i32),
    PushSearchChar(char),
}

pub open spec fn is_browse(mode: DemoMode) -> bool {
    mode == DemoMode::SongSelect || mode == DemoMode::ImportedSelect
}

pub open spec fn is_intro(mode: DemoMode) -> bool {
    mode == DemoMode::Loading || mode == DemoMode::Ready
}

pub open spec fn is_char_in(code: KeyCode, a: char, b: char) -> bool {
    code matches KeyCode::Char(c) && (c == a || c == b)
}

/// Up/Down (and the vi keys) move the list of the current screen.
pub open spec fn vertical_action(mode: DemoMode, code: KeyCode, delta: i32) -> KeyAction {
    if mode == DemoMode::Settings {
        KeyAction::MoveSettingsSelection(delta)
    } else if mode == DemoMode::SongSelect {
        KeyAction::MoveSelection(delta)
    } else if mode == DemoMode::ImportedSelect {
        KeyAction::MoveImportedSelection(delta)
    } else if mode == DemoMode::Replay {
        KeyAction::MoveReplayCursor(delta)
    } else {
        match code {
            KeyCode::Char(c) => KeyAction::GameplayPress(c),
            _ => KeyAction::Nothing,
        }
    }
}

/// Left/Right: a step of 5 on a settings value or the calibration, 1 on the replay cursor.
pub open spec fn horizontal_action(mode: DemoMode, item: SettingsItem, left: bool) -> KeyAction {
    let five: i32 = if left { -5i32 } else { 5i32 };
    let one: i32 = if left { -1i32 } else { 1i32 };
    if mode == DemoMode::Settings {
        match item {
            SettingsItem::GlobalOffset => KeyAction::AdjustGlobalOffset(five),
            SettingsItem::InputOffset => KeyAction::AdjustInputOffset(five),
            SettingsItem::MusicVolume => KeyAction::AdjustMusicVolume(five),
            SettingsItem::HitSoundVolume => KeyAction::AdjustHitSoundVolume(five),
            _ => KeyAction::ActivateSettingsItem,
        }
    } else if mode == DemoMode::Calibration {
        KeyAction::AdjustCalibration(five)
    } else if mode == DemoMode::Replay {
        KeyAction::MoveReplayCursor(one)
    } else {
        KeyAction::Nothing
    }
}

pub open spec fn enter_action(mode: DemoMode) -> KeyAction {
    if is_intro(mode) {
        KeyAction::SkipLoadingIntro
    } else if mode == DemoMode::Calibration {
        KeyAction::FinishCalibration
    } else if mode == DemoMode::Replay {
        KeyAction::CloseReplayView
    } else if mode == DemoMode::Settings {
        KeyAction::ActivateSettingsItem
    } else if is_browse(mode) {
        KeyAction::StartSelectedChart
    } else if mode == DemoMode::Results {
        KeyAction::ReturnToBrowseView
    } else {
        KeyAction::Nothing
    }
}

pub open spec fn back_action(mode: DemoMode) -> KeyAction {
    if is_intro(mode) || mode == DemoMode::Paused || mode == DemoMode::Results {
        KeyAction::ReturnToBrowseView
    } else if mode == DemoMode::Calibration {
        KeyAction::FinishCalibration
    } else if mode == DemoMode::Replay {
        KeyAction::CloseReplayView
    } else if mode == DemoMode::Settings {
        KeyAction::CloseSettings
    } else if mode == DemoMode::ImportedSelect {
        KeyAction::ReturnToSongSelect
    } else {
        KeyAction::Nothing
    }
}

/// A key going down outside the search box.
pub open spec fn press_action(mode: DemoMode, item: SettingsItem, code: KeyCode) -> KeyAction {
    if is_char_in(code, 'q', 'Q') {
        KeyAction::Quit
    } else if code == KeyCode::Esc {
        if is_browse(mode) {
            KeyAction::Quit
        } else {
            back_action(mode)
        }
    } else if is_char_in(code, 's', 'S') {
        if is_browse(mode) || mode == DemoMode::Paused || mode == DemoMode::Results {
            KeyAction::OpenSettings
        } else {
            KeyAction::GameplayPress(code->0)
        }
    } else if code == KeyCode::Up || is_char_in(code, 'k', 'K') {
        vertical_action(mode, code, -1i32)
    } else if code == KeyCode::Down || is_char_in(code, 'j', 'J') {
        vertical_action(mode, code, 1i32)
    } else if code == KeyCode::Left || code == KeyCode::Right {
        horizontal_action(mode, item, code == KeyCode::Left)
    } else if code == KeyCode::Enter {
        enter_action(mode)
    } else if is_char_in(code, 'b', 'B') {
        back_action(mode)
    } else if is_char_in(code, 'v', 'V') {
        if mode == DemoMode::Results {
            KeyAction::OpenReplayView
        } else {
            KeyAction::Nothing
        }
    } else if is_char_in(code, 'r', 'R') {
        if is_browse(mode) {
            KeyAction::CycleBrowseSort
        } else {
            KeyAction::Restart
        }
    } else if is_char_in(code, 'p', 'P') || code == KeyCode::Char(' ') {
        if is_intro(mode) {
            KeyAction::SkipLoadingIntro
        } else if mode == DemoMode::Replay {
            KeyAction::ToggleReplayPreview
        } else {
            KeyAction::TogglePause
        }
    } else if is_char_in(code, 't', 'T') {
        KeyAction::ToggleTheme
    } else if is_char_in(code, 'i', 'I') {
        KeyAction::OpenImportedView
    } else if code == KeyCode::Char('/') {
        if is_browse(mode) {
            KeyAction::OpenSearch
        } else {
            KeyAction::Nothing
        }
    } else {
        match code {
            KeyCode::Char(c) => KeyAction::GameplayPress(c),
            _ => KeyAction::Nothing,
        }
    }
}

/// A key while the search box is open: only presses count.
pub open spec fn search_action(kind: KeyKind, code: KeyCode) -> KeyAction {
    if kind != KeyKind::Press {
        KeyAction::Nothing
    } else {
        match code {
            KeyCode::Esc => KeyAction::CloseSearch,
            KeyCode::Enter => KeyAction::ActivateSearchSelection,
            KeyCode::Backspace => KeyAction::PopSearchChar,
            KeyCode::Up => KeyAction::MoveSearchSelection(-1i32),
            KeyCode::Down => KeyAction::MoveSearchSelection(1i32),
            KeyCode::Char(c) => KeyAction::PushSearchChar(c),
            _ => KeyAction::Nothing,
        }
    }
}

/// The answer to a key event in the given mode, with the settings entry that is selected.
pub open spec fn key_action_spec(
    mode: DemoMode,
    item: SettingsItem,
    kind: KeyKind,
    code: KeyCode,
) -> KeyAction {
    if mode == DemoMode::Search {
        search_action(kind, code)
    } else {
        match kind {
            KeyKind::Press => press_action(mode, item, code),
            KeyKind::Release => match code {
                KeyCode::Char(c) => KeyAction::GameplayRelease(c),
                _ => KeyAction::Nothing,
            },
            KeyKind::Repeat => KeyAction::Nothing,
        }
    }
}

fn char_in(code: KeyCode, a: char, b: char) -> (r: bool)
    ensures
        r == is_char_in(code, a, b),
{
    match code {
        KeyCode::Char(c) => c == a || c == b,
        _ => false,
    }
}

fn browse(mode: DemoMode) -> (r: bool)
    ensures
        r == is_browse(mode),
{
    mode == DemoMode::SongSelect || mode == DemoMode::ImportedSelect
}

fn intro(mode: DemoMode) -> (r: bool)
    ensures
        r == is_intro(mode),
{
    mode == DemoMode::Loading || mode == DemoMode::Ready
}

fn vertical(mode: DemoMode, code: KeyCode, delta: i32) -> (a: KeyAction)
    ensures
        a == vertical_action(mode, code, delta),
{
    match mode {
        DemoMode::Settings => KeyAction::MoveSettingsSelection(delta),
        DemoMode::SongSelect => KeyAction::MoveSelection(delta),
        DemoMode::ImportedSelect => KeyAction::MoveImportedSelection(delta),
        DemoMode::Replay => KeyAction::MoveReplayCursor(delta),
        _ => match code {
            KeyCode::Char(c) => KeyAction::GameplayPress(c),
            _ => KeyAction::Nothing,
        },
    }
}

fn horizontal(mode: DemoMode, item: SettingsItem, left: bool) -> (a: KeyAction)
    ensures
        a == horizontal_action(mode, item, left),
{
    let five: i32 = if left { -5 } else { 5 };
    let one: i32 = if left { -1 } else { 1 };
    match mode {
        DemoMode::Settings => match item {
            SettingsItem::GlobalOffset => KeyAction::AdjustGlobalOffset(five),
            SettingsItem::InputOffset => KeyAction::AdjustInputOffset(five),
            SettingsItem::MusicVolume => KeyAction::AdjustMusicVolume(five),
            SettingsItem::HitSoundVolume => KeyAction::AdjustHitSoundVolume(five),
            _ => KeyAction::ActivateSettingsItem,
        },
        DemoMode::Calibration => KeyAction::AdjustCalibration(five),
        DemoMode::Replay => KeyAction::MoveReplayCursor(one),
        _ => KeyAction::Nothing,
    }
}

fn enter(mode: DemoMode) -> (a: KeyAction)
    ensures
        a == enter_action(mode),
{
    match mode {
        DemoMode::Loading | DemoMode::Ready => KeyAction::SkipLoadingIntro,
        DemoMode::Calibration => KeyAction::FinishCalibration,
        DemoMode::Replay => KeyAction::CloseReplayView,
        DemoMode::Settings => KeyAction::ActivateSettingsItem,
        DemoMode::SongSelect | DemoMode::ImportedSelect => KeyAction::StartSelectedChart,
        DemoMode::Results => KeyAction::ReturnToBrowseView,
        _ => KeyAction::Nothing,
    }
}

fn back(mode: DemoMode) -> (a: KeyAction)
    ensures
        a == back_action(mode),
{
    match mode {
        DemoMode::Loading | DemoMode::Ready | DemoMode::Paused | DemoMode::Results => {
            KeyAction::ReturnToBrowseView
        },
        DemoMode::Calibration => KeyAction::FinishCalibration,
        DemoMode::Replay => KeyAction::CloseReplayView,
        DemoMode::Settings => KeyAction::CloseSettings,
        DemoMode::ImportedSelect => KeyAction::ReturnToSongSelect,
        _ => KeyAction::Nothing,
    }
}

fn press(mode: DemoMode, item: SettingsItem, code: KeyCode) -> (a: KeyAction)
    ensures
        a == press_action(mode, item, code),
{
    if char_in(code, 'q', 'Q') {
        KeyAction::Quit
    } else if code == KeyCode::Esc {
        if browse(mode) {
            KeyAction::Quit
        } else {
            back(mode)
        }
    } else if char_in(code, 's', 'S') {
        if browse(mode) || mode == DemoMode::Paused || mode == DemoMode::Results {
            KeyAction::OpenSettings
        } else {
            match code {
                KeyCode::Char(c) => KeyAction::GameplayPress(c),
                _ => KeyAction::Nothing,
            }
        }
    } else if code == KeyCode::Up || char_in(code, 'k', 'K') {
        vertical(mode, code, -1)
    } else if code == KeyCode::Down || char_in(code, 'j', 'J') {
        vertical(mode, code, 1)
    } else if code == KeyCode::Left || code == KeyCode::Right {
        horizontal(mode, item, code == KeyCode::Left)
    } else if code == KeyCode::Enter {
        enter(mode)
    } else if char_in(code, 'b', 'B') {
        back(mode)
    } else if char_in(code, 'v', 'V') {
        if mode == DemoMode::Results {
            KeyAction::OpenReplayView
        } else {
            KeyAction::Nothing
        }
    } else if char_in(code, 'r', 'R') {
        if browse(mode) {
            KeyAction::CycleBrowseSort
        } else {
            KeyAction::Restart
        }
    } else if char_in(code, 'p', 'P') || code == KeyCode::Char(' ') {
        if intro(mode) {
            KeyAction::SkipLoadingIntro
        } else if mode == DemoMode::Replay {
            KeyAction::ToggleReplayPreview
        } else {
            KeyAction::TogglePause
        }
    } else if char_in(code, 't', 'T') {
        KeyAction::ToggleTheme
    } else if char_in(code, 'i', 'I') {
        KeyAction::OpenImportedView
    } else if code == KeyCode::Char('/') {
        if browse(mode) {
            KeyAction::OpenSearch
        } else {
            KeyAction::Nothing
        }
    } else {
        match code {
            KeyCode::Char(c) => KeyAction::GameplayPress(c),
            _ => KeyAction::Nothing,
        }
    }
}

/// What a key means while the search box is open.
pub fn search_key_action(kind: KeyKind, code: KeyCode) -> (a: KeyAction)
    ensures
        a == search_action(kind, code),
{
    match kind {
        KeyKind::Press => match code {
            KeyCode::Esc => KeyAction::CloseSearch,
            KeyCode::Enter => KeyAction::ActivateSearchSelection,
            KeyCode::Backspace => KeyAction::PopSearchChar,
            KeyCode::Up => KeyAction::MoveSearchSelection(-1),
            KeyCode::Down => KeyAction::MoveSearchSelection(1),
            KeyCode::Char(c) => KeyAction::PushSearchChar(c),
            _ => KeyAction::Nothing,
        },
        _ => KeyAction::Nothing,
    }
}

/// What a key event means in the given screen mode, with `item` the selected settings entry.
pub fn key_action(mode: DemoMode, item: SettingsItem, kind: KeyKind, code: KeyCode) -> (a: KeyAction)
    ensures
        a == key_action_spec(mode, item, kind, code),
{
    if mode == DemoMode::Search {
        return search_key_action(kind, code);
    }
    match kind {
        KeyKind::Press => press(mode, item, code),
        KeyKind::Release => match code {
            KeyCode::Char(c) => KeyAction::GameplayRelease(c),
            _ => KeyAction::Nothing,
        },
        KeyKind::Repeat => KeyAction::Nothing,
    }
}

/// Outside the search box Q quits from every screen, and Esc quits from the song lists
/// and goes back from every other screen, as B does; inside the search box no key quits.
pub proof fn lemma_quit_keys(mode: DemoMode, item: SettingsItem, kind: KeyKind, code: KeyCode)
    ensures
        mode != DemoMode::Search && kind == KeyKind::Press && (code == KeyCode::Char('q')
            || code == KeyCode::Char('Q')) ==> key_action_spec(mode, item, kind, code)
            == KeyAction::Quit,
        kind == KeyKind::Press && (mode == DemoMode::SongSelect || mode == DemoMode::ImportedSelect)
            ==> key_action_spec(mode, item, kind, KeyCode::Esc) == KeyAction::Quit,
        kind == KeyKind::Press && mode != DemoMode::Search && mode != DemoMode::SongSelect
            && mode != DemoMode::ImportedSelect ==> key_action_spec(mode, item, kind, KeyCode::Esc)
            == key_action_spec(mode, item, kind, KeyCode::Char('b')),
        mode == DemoMode::Search ==> key_action_spec(mode, item, kind, code) != KeyAction::Quit,
        key_action_spec(mode, item, kind, code) == KeyAction::Quit ==> kind == KeyKind::Press,
{
}

} // verus!
