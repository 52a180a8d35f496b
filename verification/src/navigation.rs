//! Screen modes of the shell and the decisions taken when moving between them.
use vstd::prelude::*;

verus! {

#[derive(Debug, Clone, Copy, PartialEq, Eq, Structural)]
pub enum DemoMode {
    SongSelect,
    ImportedSelect,
    Search,
    Loading,
    Ready,
    Settings,
    Calibration,
    Replay,
    Playing,
    Paused,
    Results,
}

#[derive(Debug, Clone, Copy, PartialEq, Eq, Structural)]
pub enum SettingsItem {
    Theme,
    StartupSplash,
    Metronome,
    GlobalOffset,
    InputOffset,
    MusicVolume,
    HitSoundVolume,
    Keymap,
    Calibration,
    Back,
}

/// Number of entries of the settings menu.
pub const SETTINGS_ITEM_COUNT: usize = 10;

pub open spec fn settings_item_at(index: int) -> SettingsItem {
    if index <= 0 {
        SettingsItem::Theme
    } else if index == 1 {
        SettingsItem::StartupSplash
    } else if index == 2 {
        SettingsItem::Metronome
    } else if index == 3 {
        SettingsItem::GlobalOffset
    } else if index == 4 {
        SettingsItem::InputOffset
    } else if index == 5 {
        SettingsItem::MusicVolume
    } else if index == 6 {
        SettingsItem::HitSoundVolume
    } else if index == 7 {
        SettingsItem::Keymap
    } else if index == 8 {
        SettingsItem::Calibration
    } else {
        SettingsItem::Back
    }
}

pub open spec fn settings_item_index(item: SettingsItem) -> int {
    match item {
        SettingsItem::Theme => 0,
        SettingsItem::StartupSplash => 1,
        SettingsItem::Metronome => 2,
        SettingsItem::GlobalOffset => 3,
        SettingsItem::InputOffset => 4,
        SettingsItem::MusicVolume => 5,
        SettingsItem::HitSoundVolume => 6,
        SettingsItem::Keymap => 7,
        SettingsItem::Calibration => 8,
        SettingsItem::Back => 9,
    }
}

impl SettingsItem {
    /// The menu entry at `index`; indices past the end give the last entry.
    pub fn from_index(index: usize) -> (item: Self)
        ensures
            item == settings_item_at(index as int),
    {
        match index {
            0 => Self::Theme,
            1 => Self::StartupSplash,
            2 => Self::Metronome,
            3 => Self::GlobalOffset,
            4 => Self::InputOffset,
            5 => Self::MusicVolume,
            6 => Self::HitSoundVolume,
            7 => Self::Keymap,
            8 => Self::Calibration,
            _ => Self::Back,
        }
    }

    pub fn index(self) -> (i: usize)
        ensures
            i == settings_item_index(self),
    {
        match self {
            Self::Theme => 0,
            Self::StartupSplash => 1,
            Self::Metronome => 2,
            Self::GlobalOffset => 3,
            Self::InputOffset => 4,
            Self::MusicVolume => 5,
            Self::HitSoundVolume => 6,
            Self::Keymap => 7,
            Self::Calibration => 8,
            Self::Back => 9,
        }
    }
}

/// Law: menu positions and menu entries correspond one to one.
pub proof fn lemma_settings_item_index_roundtrip(item: SettingsItem, index: int)
    ensures
        settings_item_at(settings_item_index(item)) == item,
        0 <= settings_item_index(item) < SETTINGS_ITEM_COUNT,
        0 <= index < SETTINGS_ITEM_COUNT ==> settings_item_index(settings_item_at(index)) == index,
{
}

/// Moves a selection by `delta` positions around a list of `len` entries.
pub open spec fn wrap_spec(current: int, delta: int, len: int) -> int {
    (current + delta) % len
}

/// `(current + delta).rem_euclid(len)`, the cyclic move used by every list of the shell.
pub fn wrap_index(current: usize, delta: i32, len: usize) -> (r: usize)
    requires
        0 < len <= i32::MAX,
        current <= i32::MAX,
        i32::MIN <= current + delta <= i32::MAX,
    ensures
        r == wrap_spec(current as int, delta as int, len as int),
        r < len,
{
    let sum: i64 = current as i64 + delta as i64;
    let l: i64 = len as i64;
    let r: i64 = if sum >= 0 {
        sum % l
    } else {
        let k: i64 = -sum - 1;
        let rem = k % l;
        proof {
            let q = k / l;
            vstd::arithmetic::div_mod::lemma_fundamental_div_mod(k as int, l as int);
            assert((-(q + 1)) * (l as int) == -(q * (l as int)) - l) by (nonlinear_arith);
            assert(q * (l as int) == (l as int) * q) by (nonlinear_arith);
            vstd::arithmetic::div_mod::lemma_fundamental_div_mod_converse(
                sum as int,
                l as int,
                -(q + 1),
                l - 1 - rem,
            );
        }
        l - 1 - rem
    };
    r as usize
}

#[derive(Debug, Clone, Copy, PartialEq, Eq, Structural)]
pub enum BrowseSortMode {
    Default,
    Title,
    Bpm,
    Difficulty,
}

impl BrowseSortMode {
    pub fn next(self) -> (m: Self)
        ensures
            m == (match self {
                BrowseSortMode::Default => BrowseSortMode::Title,
                BrowseSortMode::Title => BrowseSortMode::Bpm,
                BrowseSortMode::Bpm => BrowseSortMode::Difficulty,
                BrowseSortMode::Difficulty => BrowseSortMode::Default,
            }),
    {
        match self {
            Self::Default => Self::Title,
            Self::Title => Self::Bpm,
            Self::Bpm => Self::Difficulty,
            Self::Difficulty => Self::Default,
        }
    }

    pub fn label(self) -> (l: &'static str)
        ensures
            l@ == (match self {
                BrowseSortMode::Default => "Default"@,
                BrowseSortMode::Title => "Title"@,
                BrowseSortMode::Bpm => "BPM"@,
                BrowseSortMode::Difficulty => "Stage"@,
            }),
    {
        match self {
            Self::Default => "Default",
            Self::Title => "Title",
            Self::Bpm => "BPM",
            Self::Difficulty => "Stage",
        }
    }
}

/// Law: cycling the browse sort four times returns to where it started.
pub proof fn lemma_sort_cycle_period(m: BrowseSortMode)
    ensures
        ({
            let step = |x: BrowseSortMode| match x {
                BrowseSortMode::Default => BrowseSortMode::Title,
                BrowseSortMode::Title => BrowseSortMode::Bpm,
                BrowseSortMode::Bpm => BrowseSortMode::Difficulty,
                BrowseSortMode::Difficulty => BrowseSortMode::Default,
            };
            step(step(step(step(m)))) == m && step(m) != m
        }),
{
}

/// What the audio does when the shell changes mode.
#[derive(Debug, Clone, Copy, PartialEq, Eq, Structural)]
pub enum PlaybackTransition {
    Keep,
    StartOrResume,
    StopAndFreeze,
}

pub open spec fn playback_transition_spec(previous: DemoMode, current: DemoMode, generation_changed: bool) -> PlaybackTransition {
    if generation_changed {
        if current == DemoMode::Playing {
            PlaybackTransition::StartOrResume
        } else {
            PlaybackTransition::StopAndFreeze
        }
    } else if previous == DemoMode::Playing && current != DemoMode::Playing && current
        != DemoMode::Search {
        PlaybackTransition::StopAndFreeze
    } else if previous == DemoMode::Ready && current == DemoMode::Playing {
        PlaybackTransition::StartOrResume
    } else if (previous == DemoMode::Settings || previous == DemoMode::SongSelect || previous
        == DemoMode::ImportedSelect || previous == DemoMode::Results) && current
        == DemoMode::Calibration {
        PlaybackTransition::StartOrResume
    } else if (previous == DemoMode::Paused || previous == DemoMode::Results || previous
        == DemoMode::SongSelect || previous == DemoMode::ImportedSelect || previous
        == DemoMode::Settings || previous == DemoMode::Calibration || previous == DemoMode::Replay)
        && current == DemoMode::Playing {
        PlaybackTransition::StartOrResume
    } else {
        PlaybackTransition::Keep
    }
}

/// Decides whether the music starts, stops or keeps going when the shell
/// moves from `previous_mode` to `current_mode`; a new session restarts it
/// only into gameplay.
pub fn playback_transition(
    previous_mode: DemoMode,
    current_mode: DemoMode,
    generation_changed: bool,
) -> (t: PlaybackTransition)
    ensures
        t == playback_transition_spec(previous_mode, current_mode, generation_changed),
{
    if generation_changed {
        return if matches!(current_mode, DemoMode::Playing) {
            PlaybackTransition::StartOrResume
        } else {
            PlaybackTransition::StopAndFreeze
        };
    }
    match (previous_mode, current_mode) {
        (
            DemoMode::Playing,
            DemoMode::Loading
            | DemoMode::Ready
            | DemoMode::Paused
            | DemoMode::Results
            | DemoMode::SongSelect
            | DemoMode::ImportedSelect
            | DemoMode::Settings
            | DemoMode::Calibration
            | DemoMode::Replay,
        ) => PlaybackTransition::StopAndFreeze,
        (DemoMode::Ready, DemoMode::Playing) => PlaybackTransition::StartOrResume,
        (
            DemoMode::Settings | DemoMode::SongSelect | DemoMode::ImportedSelect | DemoMode::Results,
            DemoMode::Calibration,
        ) => PlaybackTransition::StartOrResume,
        (
            DemoMode::Paused
            | DemoMode::Results
            | DemoMode::SongSelect
            | DemoMode::ImportedSelect
            | DemoMode::Settings
            | DemoMode::Calibration
            | DemoMode::Replay,
            DemoMode::Playing,
        ) => PlaybackTransition::StartOrResume,
        _ => PlaybackTransition::Keep,
    }
}

/// Law: without a new session, leaving gameplay always stops the music
/// (except for the search overlay), staying in a mode never changes it, and
/// the music can only start on entering gameplay or calibration.
pub proof fn lemma_playback_transition_rules(previous: DemoMode, current: DemoMode)
    ensures
        previous == DemoMode::Playing && current != DemoMode::Playing && current != DemoMode::Search
            ==> playback_transition_spec(previous, current, false) == PlaybackTransition::StopAndFreeze,
        previous == current ==> playback_transition_spec(previous, current, false)
            == PlaybackTransition::Keep,
        playback_transition_spec(previous, current, false) == PlaybackTransition::StartOrResume
            ==> (current == DemoMode::Playing || current == DemoMode::Calibration),
        playback_transition_spec(previous, current, true) != PlaybackTransition::Keep,
{
}

} // verus!

verus! {

/// The screen the shell shows and where each screen returns to.
#[derive(Debug, Clone, Copy, PartialEq, Eq, Structural)]
pub struct NavigationState {
    pub mode: DemoMode,
    pub settings_selection: SettingsItem,
    pub settings_return_mode: DemoMode,
    pub calibration_return_mode: DemoMode,
    pub browse_return_mode: DemoMode,
    pub search_return_mode: DemoMode,
    pub bundled_sort_mode: BrowseSortMode,
    pub imported_sort_mode: BrowseSortMode,
}

pub open spec fn next_sort(m: BrowseSortMode) -> BrowseSortMode {
    match m {
        BrowseSortMode::Default => BrowseSortMode::Title,
        BrowseSortMode::Title => BrowseSortMode::Bpm,
        BrowseSortMode::Bpm => BrowseSortMode::Difficulty,
        BrowseSortMode::Difficulty => BrowseSortMode::Default,
    }
}

/// The song list, first settings entry selected, default sort everywhere.
pub open spec fn start_navigation() -> NavigationState {
    NavigationState {
        mode: DemoMode::SongSelect,
        settings_selection: SettingsItem::Theme,
        settings_return_mode: DemoMode::SongSelect,
        calibration_return_mode: DemoMode::Settings,
        browse_return_mode: DemoMode::SongSelect,
        search_return_mode: DemoMode::SongSelect,
        bundled_sort_mode: BrowseSortMode::Default,
        imported_sort_mode: BrowseSortMode::Default,
    }
}

impl NavigationState {
    /// The song list, first entry selected, default sort everywhere.
    pub fn new() -> (n: Self)
        ensures
            n == start_navigation(),
    {
        NavigationState {
            mode: DemoMode::SongSelect,
            settings_selection: SettingsItem::Theme,
            settings_return_mode: DemoMode::SongSelect,
            calibration_return_mode: DemoMode::Settings,
            browse_return_mode: DemoMode::SongSelect,
            search_return_mode: DemoMode::SongSelect,
            bundled_sort_mode: BrowseSortMode::Default,
            imported_sort_mode: BrowseSortMode::Default,
        }
    }

    /// Opens the settings, except during play, in the settings or in calibration.
    pub fn open_settings(&mut self)
        ensures
            (old(self).mode == DemoMode::Playing || old(self).mode == DemoMode::Settings
                || old(self).mode == DemoMode::Calibration) ==> *final(self) == *old(self),
            !(old(self).mode == DemoMode::Playing || old(self).mode == DemoMode::Settings
                || old(self).mode == DemoMode::Calibration) ==> *final(self) == (NavigationState {
                mode: DemoMode::Settings,
                settings_return_mode: old(self).mode,
                ..*old(self)
            }),
    {
        match self.mode {
            DemoMode::Playing | DemoMode::Settings | DemoMode::Calibration => {},
            _ => {
                self.settings_return_mode = self.mode;
                self.mode = DemoMode::Settings;
            },
        }
    }

    /// Leaves the settings for the screen they were opened from.
    pub fn close_settings(&mut self)
        ensures
            old(self).mode == DemoMode::Settings ==> *final(self) == (NavigationState {
                mode: old(self).settings_return_mode,
                ..*old(self)
            }),
            old(self).mode != DemoMode::Settings ==> *final(self) == *old(self),
    {
        if self.mode == DemoMode::Settings {
            self.mode = self.settings_return_mode;
        }
    }

    /// Moves the settings selection around the menu.
    pub fn move_settings_selection(&mut self, delta: i32)
        requires
            old(self).mode == DemoMode::Settings ==> settings_item_index(old(self).settings_selection)
                + delta <= i32::MAX,
        ensures
            old(self).mode == DemoMode::Settings ==> *final(self) == (NavigationState {
                settings_selection: settings_item_at(
                    wrap_spec(
                        settings_item_index(old(self).settings_selection),
                        delta as int,
                        SETTINGS_ITEM_COUNT as int,
                    ),
                ),
                ..*old(self)
            }),
            old(self).mode != DemoMode::Settings ==> *final(self) == *old(self),
    {
        if self.mode != DemoMode::Settings {
            return;
        }
        let current = self.settings_selection.index();
        let next = wrap_index(current, delta, SETTINGS_ITEM_COUNT);
        self.settings_selection = SettingsItem::from_index(next);
    }

    /// Opens the calibration screen, remembering where from.
    pub fn open_calibration(&mut self)
        ensures
            *final(self) == (NavigationState {
                mode: DemoMode::Calibration,
                calibration_return_mode: old(self).mode,
                ..*old(self)
            }),
    {
        self.calibration_return_mode = self.mode;
        self.mode = DemoMode::Calibration;
    }

    /// Leaves the calibration screen.
    pub fn finish_calibration(&mut self)
        ensures
            old(self).mode == DemoMode::Calibration ==> *final(self) == (NavigationState {
                mode: old(self).calibration_return_mode,
                ..*old(self)
            }),
            old(self).mode != DemoMode::Calibration ==> *final(self) == *old(self),
    {
        if self.mode == DemoMode::Calibration {
            self.mode = self.calibration_return_mode;
        }
    }

    /// Opens the search box from a song list.
    pub fn open_search(&mut self) -> (opened: bool)
        ensures
            opened == (old(self).mode == DemoMode::SongSelect || old(self).mode
                == DemoMode::ImportedSelect),
            opened ==> *final(self) == (NavigationState {
                mode: DemoMode::Search,
                search_return_mode: old(self).mode,
                ..*old(self)
            }),
            !opened ==> *final(self) == *old(self),
    {
        match self.mode {
            DemoMode::SongSelect | DemoMode::ImportedSelect => {
                self.search_return_mode = self.mode;
                self.mode = DemoMode::Search;
                true
            },
            _ => false,
        }
    }

    /// Closes the search box.
    pub fn close_search(&mut self)
        ensures
            old(self).mode == DemoMode::Search ==> *final(self) == (NavigationState {
                mode: old(self).search_return_mode,
                ..*old(self)
            }),
            old(self).mode != DemoMode::Search ==> *final(self) == *old(self),
    {
        if self.mode == DemoMode::Search {
            self.mode = self.search_return_mode;
        }
    }

    /// Switches from the bundled list to the imported one, when there are imported songs.
    pub fn open_imported_view(&mut self, has_imported: bool)
        ensures
            (old(self).mode == DemoMode::SongSelect && has_imported) ==> *final(self) == (
            NavigationState { mode: DemoMode::ImportedSelect, ..*old(self) }),
            !(old(self).mode == DemoMode::SongSelect && has_imported) ==> *final(self) == *old(
                self,
            ),
    {
        if self.mode == DemoMode::SongSelect && has_imported {
            self.mode = DemoMode::ImportedSelect;
        }
    }

    /// Play pauses, pause resumes; other screens are left alone.
    pub fn toggle_pause(&mut self)
        ensures
            old(self).mode == DemoMode::Playing ==> *final(self) == (NavigationState {
                mode: DemoMode::Paused,
                ..*old(self)
            }),
            old(self).mode == DemoMode::Paused ==> *final(self) == (NavigationState {
                mode: DemoMode::Playing,
                ..*old(self)
            }),
            old(self).mode != DemoMode::Playing && old(self).mode != DemoMode::Paused
                ==> *final(self) == *old(self),
    {
        match self.mode {
            DemoMode::Playing => {
                self.mode = DemoMode::Paused;
            },
            DemoMode::Paused => {
                self.mode = DemoMode::Playing;
            },
            _ => {},
        }
    }

    /// The sort mode of the list on screen: the imported list's in the imported view,
    /// the bundled list's elsewhere.
    pub fn browse_sort_mode(&self) -> (m: BrowseSortMode)
        ensures
            m == (if self.mode == DemoMode::ImportedSelect {
                self.imported_sort_mode
            } else {
                self.bundled_sort_mode
            }),
    {
        if self.mode == DemoMode::ImportedSelect {
            self.imported_sort_mode
        } else {
            self.bundled_sort_mode
        }
    }

    /// Advances the sort mode of the list on screen.
    pub fn cycle_sort_mode(&mut self)
        ensures
            old(self).mode == DemoMode::SongSelect ==> *final(self) == (NavigationState {
                bundled_sort_mode: next_sort(old(self).bundled_sort_mode),
                ..*old(self)
            }),
            old(self).mode == DemoMode::ImportedSelect ==> *final(self) == (NavigationState {
                imported_sort_mode: next_sort(old(self).imported_sort_mode),
                ..*old(self)
            }),
            old(self).mode != DemoMode::SongSelect && old(self).mode != DemoMode::ImportedSelect
                ==> *final(self) == *old(self),
    {
        match self.mode {
            DemoMode::SongSelect => {
                self.bundled_sort_mode = self.bundled_sort_mode.next();
            },
            DemoMode::ImportedSelect => {
                self.imported_sort_mode = self.imported_sort_mode.next();
            },
            _ => {},
        }
    }

    /// Starting a chart remembers the list to come back to and shows the loading screen.
    pub fn start_chart(&mut self)
        ensures
            *final(self) == (NavigationState {
                mode: DemoMode::Loading,
                browse_return_mode: old(self).mode,
                ..*old(self)
            }),
    {
        self.browse_return_mode = self.mode;
        self.mode = DemoMode::Loading;
    }

    /// Back to the list the current chart was started from.
    pub fn return_to_browse_view(&mut self)
        ensures
            *final(self) == (NavigationState { mode: old(self).browse_return_mode, ..*old(self) }),
    {
        self.mode = self.browse_return_mode;
    }
}

/// Opening and then closing the settings, the calibration or the search box, and starting
/// a chart and then going back, come back to the screen they started on.
pub proof fn lemma_open_close_returns(n: NavigationState)
    ensures
        ({
            let opened = NavigationState { mode: DemoMode::Settings, settings_return_mode: n.mode, ..n };
            let closed = NavigationState { mode: opened.settings_return_mode, ..opened };
            n.mode != DemoMode::Playing && n.mode != DemoMode::Settings && n.mode
                != DemoMode::Calibration ==> closed.mode == n.mode
        }),
        ({
            let opened = NavigationState {
                mode: DemoMode::Calibration,
                calibration_return_mode: n.mode,
                ..n
            };
            NavigationState { mode: opened.calibration_return_mode, ..opened }.mode == n.mode
        }),
        ({
            let opened = NavigationState { mode: DemoMode::Search, search_return_mode: n.mode, ..n };
            NavigationState { mode: opened.search_return_mode, ..opened }.mode == n.mode
        }),
        ({
            let started = NavigationState { mode: DemoMode::Loading, browse_return_mode: n.mode, ..n };
            NavigationState { mode: started.browse_return_mode, ..started }.mode == n.mode
        }),
{
}

} // verus!
