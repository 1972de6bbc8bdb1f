//! Persistent app settings: the closed set of theme choices and the strict
//! validation applied to whatever a settings file or registry key holds.

use vstd::prelude::*;
use crate::order::{compare_chars, Cmp};
use crate::text::chars_of;

verus! {

/// Marker a settings file must carry to be honored.
pub const APP_MARKER: &'static str = "FindBT";

/// The only settings schema version understood.
pub const SETTINGS_VERSION: u32 = 1;

/// A valid settings file is a few hundred bytes; anything bigger is not ours.
pub const MAX_SETTINGS_BYTES: u64 = 8192;

#[derive(Debug, Clone, Copy, PartialEq, Eq, Structural)]
pub enum ThemeSetting {
    System,
    Light,
    Dark,
}

impl ThemeSetting {
    pub open spec fn text(self) -> Seq<char> {
        match self {
            ThemeSetting::System => "system"@,
            ThemeSetting::Light => "light"@,
            ThemeSetting::Dark => "dark"@,
        }
    }

    pub fn as_str(self) -> (s: &'static str)
        ensures
            s@ == self.text(),
    {
        match self {
            ThemeSetting::System => "system",
            ThemeSetting::Light => "light",
            ThemeSetting::Dark => "dark",
        }
    }

    /// The theme named exactly (case-sensitively) by `value`, if any.
    pub open spec fn spec_from_str_strict(value: Seq<char>) -> Option<ThemeSetting> {
        if value == "system"@ {
            Some(ThemeSetting::System)
        } else if value == "light"@ {
            Some(ThemeSetting::Light)
        } else if value == "dark"@ {
            Some(ThemeSetting::Dark)
        } else {
            None
        }
    }

    pub fn from_str_strict(value: &str) -> (r: Option<ThemeSetting>)
        ensures
            r == Self::spec_from_str_strict(value@),
    {
        let v = chars_of(value);
        let system = chars_of("system");
        let light = chars_of("light");
        let dark = chars_of("dark");
        if compare_chars(&v, &system) == Cmp::Equal {
            Some(ThemeSetting::System)
        } else if compare_chars(&v, &light) == Cmp::Equal {
            Some(ThemeSetting::Light)
        } else if compare_chars(&v, &dark) == Cmp::Equal {
            Some(ThemeSetting::Dark)
        } else {
            None
        }
    }
}

impl Default for ThemeSetting {
    fn default() -> (t: ThemeSetting)
        ensures
            t == ThemeSetting::System,
    {
        ThemeSetting::System
    }
}

/// The three theme names are distinct, so each theme reads back as itself.
pub proof fn law_theme_round_trip(t: ThemeSetting)
    ensures
        ThemeSetting::spec_from_str_strict(t.text()) == Some(t),
{
    reveal_strlit("system");
    reveal_strlit("light");
    reveal_strlit("dark");
    assert("system"@ != "light"@ && "system"@ != "dark"@ && "light"@ != "dark"@) by {
        assert("system"@.len() != "light"@.len());
        assert("system"@.len() != "dark"@.len());
        assert("light"@.len() != "dark"@.len());
    }
}

/// The in-memory settings the app works with. Always valid.
#[derive(Debug, Clone, Copy, PartialEq, Eq, Structural)]
pub struct AppSettings {
    pub theme: ThemeSetting,
}

impl Default for AppSettings {
    fn default() -> (s: AppSettings)
        ensures
            s.theme == ThemeSetting::System,
    {
        AppSettings { theme: ThemeSetting::System }
    }
}

/// The on-disk schema of a settings file, once parsed.
#[derive(Debug, Clone, PartialEq, Eq)]
pub struct SettingsFile {
    pub app: String,
    pub settings_version: u32,
    pub theme: ThemeSetting,
}

/// A file is worth reading only when it is a regular file of at most the size limit.
pub fn settings_file_size_ok(is_file: bool, len: u64) -> (b: bool)
    ensures
        b == (is_file && len <= MAX_SETTINGS_BYTES),
{
    is_file && len <= MAX_SETTINGS_BYTES
}

impl AppSettings {
    /// The settings a parsed file yields: only when it carries the app marker and the
    /// supported schema version.
    pub fn from_file(file: &SettingsFile) -> (r: Option<AppSettings>)
        ensures
            r == (if file.app@ == APP_MARKER@ && file.settings_version == SETTINGS_VERSION {
                Some(AppSettings { theme: file.theme })
            } else {
                None
            }),
    {
        let app = chars_of(file.app.as_str());
        let marker = chars_of(APP_MARKER);
        if compare_chars(&app, &marker) == Cmp::Equal && file.settings_version == SETTINGS_VERSION {
            Some(AppSettings { theme: file.theme })
        } else {
            None
        }
    }

    /// What persisting these settings writes: the app marker, the supported schema
    /// version and the theme. A settings file holds these fields; the registry holds the
    /// version and the theme's name.
    pub fn save(self) -> (f: SettingsFile)
        ensures
            f.app@ == APP_MARKER@,
            f.settings_version == SETTINGS_VERSION,
            f.theme == self.theme,
    {
        SettingsFile { app: String::from_str(APP_MARKER), settings_version: SETTINGS_VERSION, theme: self.theme }
    }

    /// The settings read back from registry values: the version must match and the theme
    /// must name one of the closed set.
    pub fn from_registry_values(version: u32, theme: &str) -> (r: Option<AppSettings>)
        ensures
            r == (if version == SETTINGS_VERSION {
                match ThemeSetting::spec_from_str_strict(theme@) {
                    Some(t) => Some(AppSettings { theme: t }),
                    None => None,
                }
            } else {
                None
            }),
    {
        if version != SETTINGS_VERSION {
            return None;
        }
        match ThemeSetting::from_str_strict(theme) {
            Some(t) => Some(AppSettings { theme: t }),
            None => None,
        }
    }
}

/// What the settings store held when the app looked for settings.
pub enum StoredSettings {
    /// A settings file: whether it is a regular file, its size in bytes, and its content
    /// parsed against the schema when that succeeded (read only when the size was acceptable).
    File { is_file: bool, len: u64, parsed: Option<SettingsFile> },
    /// The registry key's values, each present and of the right type or not.
    Registry { version: Option<u32>, theme: Option<String> },
    /// No settings file or registry key could be opened.
    Missing,
}

pub open spec fn file_settings(f: SettingsFile) -> Option<AppSettings> {
    if f.app@ == APP_MARKER@ && f.settings_version == SETTINGS_VERSION {
        Some(AppSettings { theme: f.theme })
    } else {
        None
    }
}

pub open spec fn registry_settings(version: u32, theme: Seq<char>) -> Option<AppSettings> {
    if version == SETTINGS_VERSION {
        match ThemeSetting::spec_from_str_strict(theme) {
            Some(t) => Some(AppSettings { theme: t }),
            None => None,
        }
    } else {
        None
    }
}

/// The settings a store yields, if it passes every check.
pub open spec fn stored_settings(stored: StoredSettings) -> Option<AppSettings> {
    match stored {
        StoredSettings::File { is_file, len, parsed } => {
            if is_file && len <= MAX_SETTINGS_BYTES {
                match parsed {
                    Some(f) => file_settings(f),
                    None => None,
                }
            } else {
                None
            }
        },
        StoredSettings::Registry { version, theme } => match (version, theme) {
            (Some(v), Some(t)) => registry_settings(v, t@),
            _ => None,
        },
        StoredSettings::Missing => None,
    }
}

impl AppSettings {
    /// Loads settings from what the store held, falling back to the defaults on any
    /// problem whatsoever: missing, oversized, malformed or foreign settings never fail.
    pub fn load(stored: &StoredSettings) -> (s: AppSettings)
        ensures
            s == (match stored_settings(*stored) {
                Some(found) => found,
                None => AppSettings { theme: ThemeSetting::System },
            }),
    {
        let found = match stored {
            StoredSettings::File { is_file, len, parsed } => {
                if settings_file_size_ok(*is_file, *len) {
                    match parsed {
                        Some(f) => AppSettings::from_file(f),
                        None => None,
                    }
                } else {
                    None
                }
            },
            StoredSettings::Registry { version, theme } => match (version, theme) {
                (Some(v), Some(t)) => AppSettings::from_registry_values(*v, t.as_str()),
                _ => None,
            },
            StoredSettings::Missing => None,
        };
        match found {
            Some(f) => f,
            None => AppSettings::default(),
        }
    }
}

/// Saving and loading back round-trips: the file written for any settings, read back
/// from a regular file within the size limit, yields the same settings, and so do the
/// registry values written for them.
pub proof fn law_settings_round_trip(s: AppSettings, f: SettingsFile, len: u64)
    requires
        f.app@ == APP_MARKER@,
        f.settings_version == SETTINGS_VERSION,
        f.theme == s.theme,
        len <= MAX_SETTINGS_BYTES,
    ensures
        stored_settings(StoredSettings::File { is_file: true, len, parsed: Some(f) }) == Some(s),
        registry_settings(SETTINGS_VERSION, s.theme.text()) == Some(s),
{
    law_theme_round_trip(s.theme);
}

} // verus!
