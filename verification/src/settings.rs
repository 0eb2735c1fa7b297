//! Display and behaviour settings, kept in `settings.toml`. The caller reads
//! and writes the file; this module gives the defaults, repairs values that
//! parse but make no sense, and carries over settings from the database table
//! that held them before the file existed.

use vstd::prelude::*;

use crate::text::{is_blank, parse_i64, spec_is_blank, spec_parse_i64, str_eq};

verus! {

#[derive(Debug, Clone, PartialEq, Eq)]
pub struct Settings {
    pub show_preview_line: bool,
    pub show_sender_avatar: bool,
    pub mark_read_delay: bool,
    /// Minutes between background syncs.
    pub sync_interval_minutes: i64,
    /// `light`, `dark` or `system`.
    pub theme: String,
    /// A CSS colour, such as `#3f6b5c`.
    pub accent_color: String,
    /// Any font family name.
    pub font_family: String,
    /// `small`, `medium` or `large`.
    pub font_size: String,
    /// Days a message is kept; 0 keeps messages forever.
    pub retention_days: i64,
}

/// The settings as plain values.
pub struct SettingsModel {
    pub show_preview_line: bool,
    pub show_sender_avatar: bool,
    pub mark_read_delay: bool,
    pub sync_interval_minutes: i64,
    pub theme: Seq<char>,
    pub accent_color: Seq<char>,
    pub font_family: Seq<char>,
    pub font_size: Seq<char>,
    pub retention_days: i64,
}

impl View for Settings {
    type V = SettingsModel;

    open spec fn view(&self) -> SettingsModel {
        SettingsModel {
            show_preview_line: self.show_preview_line,
            show_sender_avatar: self.show_sender_avatar,
            mark_read_delay: self.mark_read_delay,
            sync_interval_minutes: self.sync_interval_minutes,
            theme: self.theme@,
            accent_color: self.accent_color@,
            font_family: self.font_family@,
            font_size: self.font_size@,
            retention_days: self.retention_days,
        }
    }
}

#[derive(Debug, Clone, PartialEq, Eq)]
pub enum SettingsError {
    Io(String),
    Parse { path: String, message: String },
    Serialize(String),
    Db(String),
}

pub open spec fn spec_default_settings() -> SettingsModel {
    SettingsModel {
        show_preview_line: true,
        show_sender_avatar: false,
        mark_read_delay: true,
        sync_interval_minutes: 5,
        theme: "light"@,
        accent_color: "#3f6b5c"@,
        font_family: "Noto Sans JP"@,
        font_size: "medium"@,
        retention_days: 0,
    }
}

pub open spec fn spec_is_valid_theme(t: Seq<char>) -> bool {
    t == "light"@ || t == "dark"@ || t == "system"@
}

pub open spec fn spec_is_valid_font_size(t: Seq<char>) -> bool {
    t == "small"@ || t == "medium"@ || t == "large"@
}

/// Values that parse but make no sense replaced by their defaults: an
/// unknown theme or font size, a blank accent colour or font family, a sync
/// interval that is not positive, a negative retention.
pub open spec fn spec_normalize(s: SettingsModel) -> SettingsModel {
    let d = spec_default_settings();
    SettingsModel {
        theme: if spec_is_valid_theme(s.theme) { s.theme } else { d.theme },
        font_size: if spec_is_valid_font_size(s.font_size) { s.font_size } else { d.font_size },
        accent_color: if spec_is_blank(s.accent_color) { d.accent_color } else { s.accent_color },
        font_family: if spec_is_blank(s.font_family) { d.font_family } else { s.font_family },
        sync_interval_minutes: if s.sync_interval_minutes <= 0 {
            d.sync_interval_minutes
        } else {
            s.sync_interval_minutes
        },
        retention_days: if s.retention_days < 0 { d.retention_days } else { s.retention_days },
        ..s
    }
}

/// Settings every part of the application can use as they are.
pub open spec fn spec_is_normalized(s: SettingsModel) -> bool {
    &&& spec_is_valid_theme(s.theme)
    &&& spec_is_valid_font_size(s.font_size)
    &&& !spec_is_blank(s.accent_color)
    &&& !spec_is_blank(s.font_family)
    &&& s.sync_interval_minutes > 0
    &&& s.retention_days >= 0
}

impl Default for Settings {
    fn default() -> (s: Self)
        ensures
            s@ == spec_default_settings(),
    {
        Settings {
            show_preview_line: true,
            show_sender_avatar: false,
            mark_read_delay: true,
            sync_interval_minutes: 5,
            theme: String::from_str("light"),
            accent_color: String::from_str("#3f6b5c"),
            font_family: String::from_str("Noto Sans JP"),
            font_size: String::from_str("medium"),
            retention_days: 0,
        }
    }
}

impl Settings {
    /// Replaces values that parse but make no sense by their defaults (see
    /// `spec_normalize`), so that a hand edit can neither start a mass
    /// deletion nor hand the front end a theme it does not know.
    pub fn normalize(&mut self)
        ensures
            final(self)@ == spec_normalize(old(self)@),
    {
        let theme = self.theme.as_str();
        if !(str_eq(theme, "light") || str_eq(theme, "dark") || str_eq(theme, "system")) {
            self.theme = String::from_str("light");
        }
        let font_size = self.font_size.as_str();
        if !(str_eq(font_size, "small") || str_eq(font_size, "medium") || str_eq(
            font_size,
            "large",
        )) {
            self.font_size = String::from_str("medium");
        }
        if is_blank(self.accent_color.as_str()) {
            self.accent_color = String::from_str("#3f6b5c");
        }
        if is_blank(self.font_family.as_str()) {
            self.font_family = String::from_str("Noto Sans JP");
        }
        if self.sync_interval_minutes <= 0 {
            self.sync_interval_minutes = 5;
        }
        if self.retention_days < 0 {
            self.retention_days = 0;
        }
    }
}

/// The defaults are already normal, normalizing gives normal settings, and
/// normalizing twice is normalizing once.
pub proof fn lemma_normalize_laws(s: SettingsModel)
    ensures
        spec_is_normalized(spec_normalize(s)),
        spec_normalize(spec_normalize(s)) == spec_normalize(s),
        spec_is_normalized(s) ==> spec_normalize(s) == s,
        spec_is_normalized(spec_default_settings()),
        spec_normalize(spec_default_settings()) == spec_default_settings(),
{
    reveal_strlit("#3f6b5c");
    reveal_strlit("Noto Sans JP");
    assert(!spec_is_blank("#3f6b5c"@)) by {
        assert(!crate::text::spec_is_whitespace("#3f6b5c"@[0]));
    }
    assert(!spec_is_blank("Noto Sans JP"@)) by {
        assert(!crate::text::spec_is_whitespace("Noto Sans JP"@[0]));
    }
}

/// A result of reading settings, by its view.
pub open spec fn spec_result_view(r: Result<Settings, SettingsError>) -> Result<SettingsModel, SettingsError> {
    match r {
        Ok(s) => Ok(s@),
        Err(e) => Err(e),
    }
}

/// What loading the settings file gives once its text was read and parsed
/// (`None` for a missing file): the defaults for a missing file, the parsed
/// settings normalized, and a read or parse error passed on.
pub open spec fn spec_after_read(file: Option<Result<SettingsModel, SettingsError>>) -> Result<SettingsModel, SettingsError> {
    match file {
        None => Ok(spec_default_settings()),
        Some(Ok(s)) => Ok(spec_normalize(s)),
        Some(Err(e)) => Err(e),
    }
}

/// Finishes loading the settings file (see `spec_after_read`).
pub fn settings_after_read(file: Option<Result<Settings, SettingsError>>) -> (r: Result<Settings, SettingsError>)
    ensures
        spec_result_view(r) == spec_after_read(
            match file {
                None => None,
                Some(f) => Some(spec_result_view(f)),
            },
        ),
{
    match file {
        None => Ok(Settings::default()),
        Some(Ok(mut s)) => {
            s.normalize();
            Ok(s)
        },
        Some(Err(e)) => Err(e),
    }
}

/// The settings `load_or_default` gives for a load's result.
pub open spec fn spec_load_or_default(loaded: Result<SettingsModel, SettingsError>) -> SettingsModel {
    match loaded {
        Ok(s) => s,
        Err(_) => spec_default_settings(),
    }
}

/// The settings to use when reading the file failed: those read, or the
/// defaults. For background work that has no way to show an error.
pub fn load_or_default(loaded: Result<Settings, SettingsError>) -> (s: Settings)
    ensures
        loaded matches Ok(l) ==> s == l,
        s@ == spec_load_or_default(spec_result_view(loaded)),
{
    match loaded {
        Ok(s) => s,
        Err(_) => Settings::default(),
    }
}

/// Loaded settings always come back normalized: whatever the file held
/// (nothing, text that does not parse, or settings), a successful load gives
/// normalized settings, and so does `load_or_default` on its result.
pub proof fn lemma_loaded_settings_are_normal(file: Option<Result<SettingsModel, SettingsError>>)
    ensures
        spec_after_read(file) matches Ok(s) ==> spec_is_normalized(s),
        spec_is_normalized(spec_load_or_default(spec_after_read(file))),
{
    lemma_normalize_laws(spec_default_settings());
    match file {
        Some(Ok(s)) => lemma_normalize_laws(s),
        _ => {},
    }
}

/// One `key`/`value` row of the settings table of older versions applied to
/// `s`. Flags are on when the value is `1`; numbers that do not parse are
/// ignored; text is taken as it is (normalizing comes after); unknown keys
/// are ignored.
pub open spec fn spec_apply_legacy_row(s: SettingsModel, key: Seq<char>, value: Seq<char>) -> SettingsModel {
    if key == "show_preview_line"@ {
        SettingsModel { show_preview_line: value == "1"@, ..s }
    } else if key == "show_sender_avatar"@ {
        SettingsModel { show_sender_avatar: value == "1"@, ..s }
    } else if key == "mark_read_delay"@ {
        SettingsModel { mark_read_delay: value == "1"@, ..s }
    } else if key == "sync_interval_minutes"@ {
        match spec_parse_i64(value) {
            Some(m) => SettingsModel { sync_interval_minutes: m, ..s },
            None => s,
        }
    } else if key == "theme"@ {
        SettingsModel { theme: value, ..s }
    } else if key == "accent_color"@ {
        SettingsModel { accent_color: value, ..s }
    } else if key == "font_family"@ {
        SettingsModel { font_family: value, ..s }
    } else if key == "font_size"@ {
        SettingsModel { font_size: value, ..s }
    } else if key == "retention_days"@ {
        match spec_parse_i64(value) {
            Some(d) => SettingsModel { retention_days: d, ..s },
            None => s,
        }
    } else {
        s
    }
}

/// The rows applied in order to `s`.
pub open spec fn spec_apply_legacy_rows(s: SettingsModel, rows: Seq<(String, String)>) -> SettingsModel
    decreases rows.len(),
{
    if rows.len() == 0 {
        s
    } else {
        spec_apply_legacy_row(
            spec_apply_legacy_rows(s, rows.drop_last()),
            rows.last().0@,
            rows.last().1@,
        )
    }
}

fn apply_legacy_row(s: &mut Settings, key: &str, value: &str)
    ensures
        final(s)@ == spec_apply_legacy_row(old(s)@, key@, value@),
{
    if str_eq(key, "show_preview_line") {
        s.show_preview_line = str_eq(value, "1");
    } else if str_eq(key, "show_sender_avatar") {
        s.show_sender_avatar = str_eq(value, "1");
    } else if str_eq(key, "mark_read_delay") {
        s.mark_read_delay = str_eq(value, "1");
    } else if str_eq(key, "sync_interval_minutes") {
        if let Some(minutes) = parse_i64(value) {
            s.sync_interval_minutes = minutes;
        }
    } else if str_eq(key, "theme") {
        s.theme = String::from_str(value);
    } else if str_eq(key, "accent_color") {
        s.accent_color = String::from_str(value);
    } else if str_eq(key, "font_family") {
        s.font_family = String::from_str(value);
    } else if str_eq(key, "font_size") {
        s.font_size = String::from_str(value);
    } else if str_eq(key, "retention_days") {
        if let Some(days) = parse_i64(value) {
            s.retention_days = days;
        }
    }
}

/// The settings that the `key`/`value` rows of the old settings table stand
/// for: the defaults with the rows applied in order, then normalized. The
/// caller writes them to the settings file, once, when that file does not
/// exist yet.
pub fn settings_from_legacy_rows(rows: &Vec<(String, String)>) -> (s: Settings)
    ensures
        s@ == spec_normalize(spec_apply_legacy_rows(spec_default_settings(), rows@)),
{
    let mut s = Settings::default();
    let mut i: usize = 0;
    while i < rows.len()
        invariant
            i <= rows@.len(),
            s@ == spec_apply_legacy_rows(spec_default_settings(), rows@.subrange(0, i as int)),
        decreases rows@.len() - i,
    {
        let row = &rows[i];
        apply_legacy_row(&mut s, row.0.as_str(), row.1.as_str());
        proof {
            assert(rows@.subrange(0, i + 1).drop_last() =~= rows@.subrange(0, i as int));
        }
        i = i + 1;
    }
    proof {
        assert(rows@.subrange(0, rows@.len() as int) =~= rows@);
    }
    s.normalize();
    s
}

} // verus!
