//! Player settings, built-in theme presets, and the rules that adjust them.
use vstd::prelude::*;
use crate::keymap::{Keymap, KEY_COUNT};
use crate::navigation::SettingsItem;
use crate::text::{
    join, words, decimal, push_char, push_chars, push_decimal, starts_with_chars, str_chars, str_eq,
    string_from_chars,
};
use crate::theme::ThemeTokens;

verus! {

pub const BUILTIN_THEME_PREFIX: &'static str = "builtin:";

#[derive(Debug, PartialEq, Eq)]
pub struct Settings {
    pub keymap: Keymap,
    pub theme_path: String,
    pub startup_splash_enabled: bool,
    pub metronome_enabled: bool,
    pub global_offset_ms: i32,
    pub input_offset_ms: i32,
    pub music_volume: u8,
    pub hit_sound_volume: u8,
}

pub open spec fn is_builtin_name(name: Seq<char>) -> bool {
    name == "minimal-professional"@ || name == "mono-contrast"@ || name == "mocha-shell"@ || name
        == "ghostty-cold"@ || name == "soft-luxury"@ || name == "neon-stage"@
}

/// The built-in theme named by a settings theme path `builtin:<name>`, if it exists.
pub open spec fn builtin_theme_name_spec(path: Seq<char>) -> Option<Seq<char>> {
    let p = BUILTIN_THEME_PREFIX@;
    if p.len() <= path.len() && path.take(p.len() as int) == p && is_builtin_name(
        path.skip(p.len() as int),
    ) {
        Some(path.skip(p.len() as int))
    } else {
        None
    }
}

pub fn is_builtin_theme_name(name: &str) -> (b: bool)
    ensures
        b == is_builtin_name(name@),
{
    str_eq(name, "minimal-professional") || str_eq(name, "mono-contrast") || str_eq(
        name,
        "mocha-shell",
    ) || str_eq(name, "ghostty-cold") || str_eq(name, "soft-luxury") || str_eq(name, "neon-stage")
}

pub fn builtin_theme_name(theme_path: &str) -> (r: Option<&str>)
    ensures
        match builtin_theme_name_spec(theme_path@) {
            Some(n) => r matches Some(s) && s@ == n,
            None => r is None,
        },
{
    let chars = str_chars(theme_path);
    let prefix = str_chars(BUILTIN_THEME_PREFIX);
    if !starts_with_chars(chars.as_slice(), prefix.as_slice()) {
        return None;
    }
    let name = theme_path.substring_char(prefix.len(), chars.len());
    assert(name@ == theme_path@.skip(BUILTIN_THEME_PREFIX@.len() as int));
    if is_builtin_theme_name(name) {
        Some(name)
    } else {
        None
    }
}

impl Settings {
    pub fn builtin_theme_name(&self) -> (r: Option<&str>)
        ensures
            match builtin_theme_name_spec(self.theme_path@) {
                Some(n) => r matches Some(s) && s@ == n,
                None => r is None,
            },
    {
        builtin_theme_name(self.theme_path.as_str())
    }

    pub fn is_builtin_theme(&self) -> (b: bool)
        ensures
            b == builtin_theme_name_spec(self.theme_path@) is Some,
    {
        self.builtin_theme_name().is_some()
    }
}

impl Default for Settings {
    /// Home-row keys, the `mocha-shell` theme, splash and metronome on, no
    /// offsets, music at 80 and hit sounds at 70.
    fn default() -> (s: Self)
        ensures
            s.keymap.key_views() == seq![seq!['S'], seq!['D'], seq!['F'], seq!['J'], seq!['K'], seq!['L']],
            s.theme_path@ == "builtin:mocha-shell"@,
            s.startup_splash_enabled,
            s.metronome_enabled,
            s.global_offset_ms == 0,
            s.input_offset_ms == 0,
            s.music_volume == 80,
            s.hit_sound_volume == 70,
    {
        Settings {
            keymap: Keymap::default(),
            theme_path: String::from_str("builtin:mocha-shell"),
            startup_splash_enabled: true,
            metronome_enabled: true,
            global_offset_ms: 0,
            input_offset_ms: 0,
            music_volume: 80,
            hit_sound_volume: 70,
        }
    }
}

pub fn load_default_settings() -> (s: Settings)
    ensures
        s.keymap.key_views() == seq![seq!['S'], seq!['D'], seq!['F'], seq!['J'], seq!['K'], seq!['L']],
        s.theme_path@ == "builtin:mocha-shell"@,
        s.startup_splash_enabled,
        s.metronome_enabled,
        s.global_offset_ms == 0,
        s.input_offset_ms == 0,
        s.music_volume == 80,
        s.hit_sound_volume == 70,
{
    Settings::default()
}

pub fn default_metronome_enabled() -> (b: bool)
    ensures
        b,
{
    true
}

pub fn default_startup_splash_enabled() -> (b: bool)
    ensures
        b,
{
    true
}

pub fn default_music_volume() -> (v: u8)
    ensures
        v == 80,
{
    80
}

pub fn default_hit_sound_volume() -> (v: u8)
    ensures
        v == 70,
{
    70
}

/// Clamps `value` into `[lo, hi]`.
pub open spec fn clamp_spec(value: int, lo: int, hi: int) -> int {
    if value < lo {
        lo
    } else if value > hi {
        hi
    } else {
        value
    }
}

/// The global audio offset kept in settings: at most 240 ms either way.
pub fn clamp_global_offset_ms(value: i32) -> (r: i32)
    ensures
        r == clamp_spec(value as int, -240, 240),
{
    if value < -240 {
        -240
    } else if value > 240 {
        240
    } else {
        value
    }
}

/// The input offset kept in settings: at most 180 ms either way.
pub fn clamp_input_offset_ms(value: i32) -> (r: i32)
    ensures
        r == clamp_spec(value as int, -180, 180),
{
    if value < -180 {
        -180
    } else if value > 180 {
        180
    } else {
        value
    }
}

/// A volume moved by `delta`, kept within 0 to 100.
pub fn adjust_volume(current: u8, delta: i32) -> (r: u8)
    ensures
        r == clamp_spec(current + delta, 0, 100),
{
    let next: i64 = current as i64 + delta as i64;
    if next < 0 {
        0
    } else if next > 100 {
        100
    } else {
        next as u8
    }
}

/// An offset moved by `delta` with saturation, before clamping.
pub fn offset_plus(current: i32, delta: i32) -> (r: i32)
    ensures
        r == clamp_spec(current + delta, i32::MIN as int, i32::MAX as int),
{
    let sum: i64 = current as i64 + delta as i64;
    if sum < i32::MIN as i64 {
        i32::MIN
    } else if sum > i32::MAX as i64 {
        i32::MAX
    } else {
        sum as i32
    }
}

/// The keymap preset that follows the current one; layouts that clash with
/// shell shortcuts are never offered.
pub open spec fn next_keymap_preset_spec(current: Seq<char>) -> Seq<char> {
    if current == "S D F J K L"@ {
        "A S D J K L"@
    } else if current == "A S D J K L"@ {
        "Z X C , . /"@
    } else {
        "S D F J K L"@
    }
}

pub fn next_keymap_preset(current: &str) -> (r: &'static str)
    ensures
        r@ == next_keymap_preset_spec(current@),
{
    if str_eq(current, "S D F J K L") {
        "A S D J K L"
    } else if str_eq(current, "A S D J K L") {
        "Z X C , . /"
    } else {
        "S D F J K L"
    }
}

/// An offset moved by `delta` with saturation, then kept within `limit` either way.
pub open spec fn moved_offset(current: int, delta: int, limit: int) -> int {
    clamp_spec(clamp_spec(current + delta, i32::MIN as int, i32::MAX as int), -limit, limit)
}

/// The keys of the keymap preset that follows `keys`.
pub open spec fn next_preset_keys(keys: Seq<Seq<char>>) -> Seq<Seq<char>> {
    words(next_keymap_preset_spec(join(keys, seq![' '])))
}

/// What a settings entry does to the settings when it is moved by `delta`: the
/// offsets and volumes move by `delta` within their limits, the splash and the
/// metronome switch, and the keymap becomes the next preset. The theme, calibration
/// and back entries change no setting here: they act on the shell.
pub open spec fn settings_adjusted(old: Settings, new: Settings, item: SettingsItem, delta: int) -> bool {
    &&& new.startup_splash_enabled == (if item == SettingsItem::StartupSplash {
        !old.startup_splash_enabled
    } else {
        old.startup_splash_enabled
    })
    &&& new.metronome_enabled == (if item == SettingsItem::Metronome {
        !old.metronome_enabled
    } else {
        old.metronome_enabled
    })
    &&& new.global_offset_ms == (if item == SettingsItem::GlobalOffset {
        moved_offset(old.global_offset_ms as int, delta, 240)
    } else {
        old.global_offset_ms as int
    })
    &&& new.input_offset_ms == (if item == SettingsItem::InputOffset {
        moved_offset(old.input_offset_ms as int, delta, 180)
    } else {
        old.input_offset_ms as int
    })
    &&& new.music_volume == (if item == SettingsItem::MusicVolume {
        clamp_spec(old.music_volume + delta, 0, 100)
    } else {
        old.music_volume as int
    })
    &&& new.hit_sound_volume == (if item == SettingsItem::HitSoundVolume {
        clamp_spec(old.hit_sound_volume + delta, 0, 100)
    } else {
        old.hit_sound_volume as int
    })
    &&& new.theme_path == old.theme_path
    &&& new.keymap.key_views() == (if item == SettingsItem::Keymap && next_preset_keys(
        old.keymap.key_views(),
    ).len() == KEY_COUNT {
        next_preset_keys(old.keymap.key_views())
    } else {
        old.keymap.key_views()
    })
}

/// Moves a settings entry by `delta` (left and right in the settings screen): an
/// offset or a volume moves by `delta`; any other entry is activated.
pub fn adjust_settings_item(settings: &mut Settings, item: SettingsItem, delta: i32)
    ensures
        settings_adjusted(*old(settings), *final(settings), item, delta as int),
{
    match item {
        SettingsItem::StartupSplash => {
            settings.startup_splash_enabled = !settings.startup_splash_enabled;
        },
        SettingsItem::Metronome => {
            settings.metronome_enabled = !settings.metronome_enabled;
        },
        SettingsItem::GlobalOffset => {
            settings.global_offset_ms = clamp_global_offset_ms(
                offset_plus(settings.global_offset_ms, delta),
            );
        },
        SettingsItem::InputOffset => {
            settings.input_offset_ms = clamp_input_offset_ms(
                offset_plus(settings.input_offset_ms, delta),
            );
        },
        SettingsItem::MusicVolume => {
            settings.music_volume = adjust_volume(settings.music_volume, delta);
        },
        SettingsItem::HitSoundVolume => {
            settings.hit_sound_volume = adjust_volume(settings.hit_sound_volume, delta);
        },
        SettingsItem::Keymap => {
            let current = settings.keymap.as_string();
            let next = next_keymap_preset(current.as_str());
            match Keymap::parse(next) {
                Ok(keymap) => {
                    settings.keymap = keymap;
                },
                Err(_) => {},
            }
        },
        SettingsItem::Theme | SettingsItem::Calibration | SettingsItem::Back => {},
    }
}

/// Activates a settings entry (enter in the settings screen): offsets and volumes
/// step up by 5, toggles switch, the keymap moves to the next preset.
pub fn activate_settings_item(settings: &mut Settings, item: SettingsItem)
    ensures
        settings_adjusted(*old(settings), *final(settings), item, 5),
{
    adjust_settings_item(settings, item, 5);
}

#[derive(Debug, Clone, Copy, PartialEq, Eq, Structural)]
pub enum DemoThemeVariant {
    MinimalProfessional,
    MonoContrast,
    MochaShell,
    GhosttyCold,
    SoftLuxury,
    NeonStage,
}

/// Number of built-in theme presets.
pub const THEME_VARIANT_COUNT: usize = 6;

pub open spec fn variant_index(v: DemoThemeVariant) -> int {
    match v {
        DemoThemeVariant::MinimalProfessional => 0,
        DemoThemeVariant::MonoContrast => 1,
        DemoThemeVariant::MochaShell => 2,
        DemoThemeVariant::GhosttyCold => 3,
        DemoThemeVariant::SoftLuxury => 4,
        DemoThemeVariant::NeonStage => 5,
    }
}

pub open spec fn variant_at(i: int) -> DemoThemeVariant {
    if i == 0 {
        DemoThemeVariant::MinimalProfessional
    } else if i == 1 {
        DemoThemeVariant::MonoContrast
    } else if i == 2 {
        DemoThemeVariant::MochaShell
    } else if i == 3 {
        DemoThemeVariant::GhosttyCold
    } else if i == 4 {
        DemoThemeVariant::SoftLuxury
    } else {
        DemoThemeVariant::NeonStage
    }
}

pub open spec fn variant_name(v: DemoThemeVariant) -> Seq<char> {
    match v {
        DemoThemeVariant::MinimalProfessional => "minimal-professional"@,
        DemoThemeVariant::MonoContrast => "mono-contrast"@,
        DemoThemeVariant::MochaShell => "mocha-shell"@,
        DemoThemeVariant::GhosttyCold => "ghostty-cold"@,
        DemoThemeVariant::SoftLuxury => "soft-luxury"@,
        DemoThemeVariant::NeonStage => "neon-stage"@,
    }
}

impl DemoThemeVariant {
    /// The next preset in the cycle, wrapping after the last.
    pub fn next(self) -> (v: Self)
        ensures
            v == variant_at((variant_index(self) + 1) % 6),
    {
        Self::from_index((self.index() + 1) % THEME_VARIANT_COUNT)
    }

    fn from_index(i: usize) -> (v: Self)
        requires
            i < 6,
        ensures
            v == variant_at(i as int),
    {
        match i {
            0 => Self::MinimalProfessional,
            1 => Self::MonoContrast,
            2 => Self::MochaShell,
            3 => Self::GhosttyCold,
            4 => Self::SoftLuxury,
            _ => Self::NeonStage,
        }
    }

    pub fn index(self) -> (i: usize)
        ensures
            i == variant_index(self),
    {
        match self {
            Self::MinimalProfessional => 0,
            Self::MonoContrast => 1,
            Self::MochaShell => 2,
            Self::GhosttyCold => 3,
            Self::SoftLuxury => 4,
            Self::NeonStage => 5,
        }
    }

    pub fn builtin_name(self) -> (n: &'static str)
        ensures
            n@ == variant_name(self),
    {
        match self {
            Self::MinimalProfessional => "minimal-professional",
            Self::MonoContrast => "mono-contrast",
            Self::MochaShell => "mocha-shell",
            Self::GhosttyCold => "ghostty-cold",
            Self::SoftLuxury => "soft-luxury",
            Self::NeonStage => "neon-stage",
        }
    }

    /// The settings theme path that selects this preset.
    pub fn settings_theme_path(self) -> (p: &'static str)
        ensures
            p@ == BUILTIN_THEME_PREFIX@ + variant_name(self),
    {
        proof {
            reveal_strlit("builtin:");
            reveal_strlit("minimal-professional");
            reveal_strlit("builtin:minimal-professional");
            reveal_strlit("mono-contrast");
            reveal_strlit("builtin:mono-contrast");
            reveal_strlit("mocha-shell");
            reveal_strlit("builtin:mocha-shell");
            reveal_strlit("ghostty-cold");
            reveal_strlit("builtin:ghostty-cold");
            reveal_strlit("soft-luxury");
            reveal_strlit("builtin:soft-luxury");
            reveal_strlit("neon-stage");
            reveal_strlit("builtin:neon-stage");
        }
        let p = match self {
            Self::MinimalProfessional => "builtin:minimal-professional",
            Self::MonoContrast => "builtin:mono-contrast",
            Self::MochaShell => "builtin:mocha-shell",
            Self::GhosttyCold => "builtin:ghostty-cold",
            Self::SoftLuxury => "builtin:soft-luxury",
            Self::NeonStage => "builtin:neon-stage",
        };
        assert(p@ =~= BUILTIN_THEME_PREFIX@ + variant_name(self));
        p
    }

    pub fn from_builtin_name(name: &str) -> (v: Option<Self>)
        ensures
            is_builtin_name(name@) ==> (v matches Some(x) && variant_name(x) == name@),
            !is_builtin_name(name@) ==> v is None,
    {
        if str_eq(name, "minimal-professional") {
            Some(Self::MinimalProfessional)
        } else if str_eq(name, "mono-contrast") {
            Some(Self::MonoContrast)
        } else if str_eq(name, "mocha-shell") {
            Some(Self::MochaShell)
        } else if str_eq(name, "ghostty-cold") {
            Some(Self::GhosttyCold)
        } else if str_eq(name, "soft-luxury") {
            Some(Self::SoftLuxury)
        } else if str_eq(name, "neon-stage") {
            Some(Self::NeonStage)
        } else {
            None
        }
    }
}

/// Law: cycling the theme visits all six presets before coming back.
pub proof fn lemma_theme_cycle_visits_all(v: DemoThemeVariant, k: int)
    ensures
        0 <= variant_index(v) < 6,
        variant_at(variant_index(v)) == v,
        0 < k < 6 ==> variant_at((variant_index(v) + k) % 6) != v,
        variant_at((variant_index(v) + 6) % 6) == v,
{
}

/// Where the active theme came from.
#[derive(Debug, Clone, PartialEq, Eq)]
pub enum ActiveThemeSource {
    BuiltinPreset(DemoThemeVariant),
    CustomPath(String),
}

impl ActiveThemeSource {
    /// A known `builtin:` preset, any other `builtin:` path (which falls back
    /// to `mocha-shell`), or a custom theme file.
    pub fn from_settings_and_theme(settings: &Settings, _theme: &ThemeTokens) -> (s: Self)
        ensures
            match builtin_theme_name_spec(settings.theme_path@) {
                Some(n) => s matches ActiveThemeSource::BuiltinPreset(v) && variant_name(v) == n,
                None => if BUILTIN_THEME_PREFIX@.len() <= settings.theme_path@.len()
                    && settings.theme_path@.take(BUILTIN_THEME_PREFIX@.len() as int)
                    == BUILTIN_THEME_PREFIX@ {
                    s == ActiveThemeSource::BuiltinPreset(DemoThemeVariant::MochaShell)
                } else {
                    s matches ActiveThemeSource::CustomPath(p) && p@ == settings.theme_path@
                },
            },
    {
        if let Some(builtin_name) = settings.builtin_theme_name() {
            if let Some(variant) = DemoThemeVariant::from_builtin_name(builtin_name) {
                return Self::BuiltinPreset(variant);
            }
        }
        let chars = str_chars(settings.theme_path.as_str());
        let prefix = str_chars(BUILTIN_THEME_PREFIX);
        if starts_with_chars(chars.as_slice(), prefix.as_slice()) {
            return Self::BuiltinPreset(DemoThemeVariant::MochaShell);
        }
        Self::CustomPath(settings.theme_path.clone())
    }

    pub fn builtin_variant(&self) -> (v: Option<DemoThemeVariant>)
        ensures
            match self {
                ActiveThemeSource::BuiltinPreset(x) => v == Some(*x),
                ActiveThemeSource::CustomPath(_) => v is None,
            },
    {
        match self {
            Self::BuiltinPreset(variant) => Some(*variant),
            Self::CustomPath(_) => None,
        }
    }

    /// Whether the theme is one of the presets or a file of the player's.
    pub fn source_kind(&self) -> (r: &'static str)
        ensures
            r@ == (match self {
                ActiveThemeSource::BuiltinPreset(_) => "Built-in preset"@,
                ActiveThemeSource::CustomPath(_) => "Custom theme"@,
            }),
    {
        match self {
            Self::BuiltinPreset(_) => "Built-in preset",
            Self::CustomPath(_) => "Custom theme",
        }
    }

    /// Where the theme stands in the preset cycle: `Preset <n>/<count>`, or
    /// `Custom theme` for a theme file.
    pub fn cycle_summary(&self) -> (r: String)
        ensures
            r@ == (match self {
                ActiveThemeSource::BuiltinPreset(v) => "Preset "@ + decimal((variant_index(*v) + 1) as nat)
                    + "/"@ + decimal(THEME_VARIANT_COUNT as nat),
                ActiveThemeSource::CustomPath(_) => "Custom theme"@,
            }),
    {
        match self {
            Self::BuiltinPreset(variant) => {
                let mut out = str_chars("Preset ");
                push_decimal(&mut out, variant.index() as u64 + 1);
                push_chars(&mut out, &str_chars("/"));
                push_decimal(&mut out, THEME_VARIANT_COUNT as u64);
                string_from_chars(out.as_slice())
            },
            Self::CustomPath(_) => String::from_str("Custom theme"),
        }
    }

    pub fn source_ref(&self) -> (r: &str)
        ensures
            match self {
                ActiveThemeSource::BuiltinPreset(x) => r@ == variant_name(*x),
                ActiveThemeSource::CustomPath(p) => r@ == p@,
            },
    {
        match self {
            Self::BuiltinPreset(variant) => variant.builtin_name(),
            Self::CustomPath(path) => path.as_str(),
        }
    }
}

/// The label shown for the active theme: the theme's own name for a
/// built-in preset, `custom: <path>` otherwise.
pub fn theme_label_for(settings: &Settings, theme: &ThemeTokens) -> (s: String)
    ensures
        builtin_theme_name_spec(settings.theme_path@) is Some ==> s@ == theme.name@,
        builtin_theme_name_spec(settings.theme_path@) is None ==> s@ == "custom: "@
            + settings.theme_path@,
{
    if settings.is_builtin_theme() {
        theme.name.clone()
    } else {
        let mut out: Vec<char> = str_chars("custom: ");
        let path = str_chars(settings.theme_path.as_str());
        let mut i: usize = 0;
        let ghost start = out@;
        while i < path.len()
            invariant
                i <= path@.len(),
                out@ == start + path@.take(i as int),
            decreases path.len() - i,
        {
            out.push(path[i]);
            i = i + 1;
            assert(out@ =~= start + path@.take(i as int));
        }
        assert(path@.take(path@.len() as int) =~= path@);
        string_from_chars(out.as_slice())
    }
}

} // verus!
