use findbt::settings::{
    settings_file_size_ok, AppSettings, SettingsFile, StoredSettings, ThemeSetting, APP_MARKER,
    MAX_SETTINGS_BYTES, SETTINGS_VERSION,
};

#[test]
fn theme_strings_are_a_closed_set() {
    assert_eq!(ThemeSetting::from_str_strict("system"), Some(ThemeSetting::System));
    assert_eq!(ThemeSetting::from_str_strict("light"), Some(ThemeSetting::Light));
    assert_eq!(ThemeSetting::from_str_strict("dark"), Some(ThemeSetting::Dark));
    assert_eq!(ThemeSetting::from_str_strict("DARK"), None);
    assert_eq!(ThemeSetting::from_str_strict(""), None);
    assert_eq!(ThemeSetting::from_str_strict("../evil"), None);
}

fn file(app: &str, version: u32, theme: ThemeSetting) -> StoredSettings {
    StoredSettings::File {
        is_file: true,
        len: 60,
        parsed: Some(SettingsFile { app: app.to_string(), settings_version: version, theme }),
    }
}

#[test]
fn foreign_and_malformed_stores_fall_back_to_defaults() {
    let default = AppSettings { theme: ThemeSetting::System };
    assert_eq!(AppSettings::load(&file("OtherApp", 1, ThemeSetting::Dark)), default);
    assert_eq!(AppSettings::load(&file("FindBT", 99, ThemeSetting::Dark)), default);
    assert_eq!(
        AppSettings::load(&StoredSettings::File { is_file: true, len: 20, parsed: None }),
        default
    );
    assert_eq!(AppSettings::load(&StoredSettings::Missing), default);
    assert_eq!(
        AppSettings::load(&StoredSettings::File {
            is_file: true,
            len: MAX_SETTINGS_BYTES + 1,
            parsed: Some(SettingsFile { app: "FindBT".to_string(), settings_version: 1, theme: ThemeSetting::Dark }),
        }),
        default
    );
    assert_eq!(
        AppSettings::load(&StoredSettings::File {
            is_file: false,
            len: 10,
            parsed: Some(SettingsFile { app: "FindBT".to_string(), settings_version: 1, theme: ThemeSetting::Dark }),
        }),
        default
    );
    assert_eq!(
        AppSettings::load(&file("FindBT", 1, ThemeSetting::Dark)),
        AppSettings { theme: ThemeSetting::Dark }
    );
}

#[test]
fn registry_values_are_checked() {
    let dark = AppSettings { theme: ThemeSetting::Dark };
    let default = AppSettings { theme: ThemeSetting::System };
    let reg = |v: Option<u32>, t: Option<&str>| StoredSettings::Registry { version: v, theme: t.map(|s| s.to_string()) };
    assert_eq!(AppSettings::load(&reg(Some(1), Some("dark"))), dark);
    assert_eq!(AppSettings::load(&reg(Some(2), Some("dark"))), default);
    assert_eq!(AppSettings::load(&reg(Some(1), Some("Dark"))), default);
    assert_eq!(AppSettings::load(&reg(None, Some("dark"))), default);
    assert_eq!(AppSettings::load(&reg(Some(1), None)), default);
    assert_eq!(AppSettings::from_registry_values(1, "light"), Some(AppSettings { theme: ThemeSetting::Light }));
}

#[test]
fn saved_settings_load_back() {
    for theme in [ThemeSetting::System, ThemeSetting::Light, ThemeSetting::Dark] {
        let settings = AppSettings { theme };
        let saved = settings.save();
        assert_eq!(saved.app, APP_MARKER);
        assert_eq!(saved.settings_version, SETTINGS_VERSION);
        assert_eq!(AppSettings::from_file(&saved), Some(settings));
        let stored = StoredSettings::File { is_file: true, len: MAX_SETTINGS_BYTES, parsed: Some(saved) };
        assert_eq!(AppSettings::load(&stored), settings);
        assert_eq!(AppSettings::from_registry_values(SETTINGS_VERSION, theme.as_str()), Some(settings));
    }
}

#[test]
fn size_limit_is_inclusive() {
    assert!(settings_file_size_ok(true, 8192));
    assert!(!settings_file_size_ok(true, 8193));
    assert!(!settings_file_size_ok(false, 1));
}
