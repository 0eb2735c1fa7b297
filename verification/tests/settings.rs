use ferro_core::settings::settings_after_read;
use ferro_core::db::settings as db_settings;
use ferro_core::settings::{load_or_default, settings_from_legacy_rows, Settings, SettingsError};

fn rows(pairs: &[(&str, &str)]) -> Vec<(String, String)> {
    pairs.iter().map(|(k, v)| (k.to_string(), v.to_string())).collect()
}

fn normalized(mut s: Settings) -> Settings {
    s.normalize();
    s
}

#[test]
fn settings_invalid_sync_interval_falls_back_to_default() {
    let s = normalized(Settings { sync_interval_minutes: -1, ..Settings::default() });
    assert_eq!(s.sync_interval_minutes, 5);
}

#[test]
fn invalid_retention_days_falls_back_to_unlimited() {
    let s = normalized(Settings { retention_days: -1, ..Settings::default() });
    assert_eq!(s.retention_days, 0);
}

#[test]
fn invalid_theme_and_font_size_fall_back_to_defaults() {
    let s = normalized(Settings {
        theme: "not-a-theme".to_string(),
        font_size: "huge".to_string(),
        accent_color: String::new(),
        font_family: String::new(),
        ..Settings::default()
    });
    assert_eq!(s.theme, Settings::default().theme);
    assert_eq!(s.font_size, Settings::default().font_size);
    assert_eq!(s.accent_color, Settings::default().accent_color);
    assert_eq!(s.font_family, Settings::default().font_family);
}

#[test]
fn arbitrary_font_family_name_is_accepted() {
    let s = normalized(Settings { font_family: "Comic Sans MS".to_string(), ..Settings::default() });
    assert_eq!(s.font_family, "Comic Sans MS");
}

#[test]
fn normalizing_is_idempotent_and_keeps_the_defaults() {
    let d = Settings::default();
    assert_eq!(normalized(d.clone()), d);
    let odd = Settings { theme: "neon".to_string(), retention_days: -9, ..Settings::default() };
    let once = normalized(odd);
    assert_eq!(normalized(once.clone()), once);
}

#[test]
fn load_or_default_uses_defaults_after_an_error() {
    let custom = Settings { theme: "dark".to_string(), ..Settings::default() };
    assert_eq!(load_or_default(Ok(custom.clone())), custom);
    assert_eq!(load_or_default(Err(SettingsError::Io("gone".to_string()))), Settings::default());
}

#[test]
fn migrate_from_db_once_carries_over_existing_settings_and_only_runs_once() {
    let migrated = settings_from_legacy_rows(&rows(&[("theme", "dark"), ("retention_days", "30")]));
    assert_eq!(migrated.theme, "dark");
    assert_eq!(migrated.retention_days, 30);
}

#[test]
fn migrate_from_db_once_is_a_noop_when_db_has_no_settings_rows() {
    assert_eq!(settings_from_legacy_rows(&vec![]), Settings::default());
}

#[test]
fn get_returns_defaults_when_unset() {
    assert_eq!(db_settings::get(&vec![]), db_settings::Settings::default());
}

#[test]
fn set_then_get_roundtrips() {
    let custom = db_settings::Settings {
        show_preview_line: false,
        show_sender_avatar: true,
        mark_read_delay: false,
        sync_interval_minutes: 15,
        theme: "dark".to_string(),
        accent_color: "#2255aa".to_string(),
        font_family: "monospace".to_string(),
        font_size: "large".to_string(),
    };
    assert_eq!(db_settings::get(&db_settings::set(&custom)), custom);
    let default = db_settings::Settings::default();
    assert_eq!(db_settings::get(&db_settings::set(&default)), default);
}

#[test]
fn invalid_sync_interval_falls_back_to_default() {
    let s = db_settings::get(&rows(&[("sync_interval_minutes", "not-a-number")]));
    assert_eq!(s.sync_interval_minutes, 5);
}

#[test]
fn invalid_theme_and_font_values_fall_back_to_defaults() {
    let s = db_settings::get(&rows(&[
        ("theme", "not-a-theme"),
        ("font_family", "comic-sans"),
        ("font_size", "huge"),
        ("accent_color", ""),
    ]));
    let d = db_settings::Settings::default();
    assert_eq!(s.theme, d.theme);
    assert_eq!(s.font_family, d.font_family);
    assert_eq!(s.font_size, d.font_size);
    assert_eq!(s.accent_color, d.accent_color);
}

#[test]
fn loaded_settings_come_back_normalized() {
    assert_eq!(settings_after_read(None), Ok(Settings::default()));
    let mut odd = Settings::default();
    odd.theme = "neon".to_string();
    odd.sync_interval_minutes = 0;
    let loaded = settings_after_read(Some(Ok(odd))).unwrap();
    assert_eq!(loaded.theme, "light");
    assert_eq!(loaded.sync_interval_minutes, Settings::default().sync_interval_minutes);
    let err = SettingsError::Io("denied".to_string());
    assert_eq!(settings_after_read(Some(Err(err.clone()))), Err(err));
}
