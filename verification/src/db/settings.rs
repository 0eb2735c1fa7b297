//! The settings as the database table `settings` (key/value rows) held them
//! before they moved to `settings.toml`. Reading takes the rows and keeps the
//! defaults for values that do not make sense; writing gives the rows to
//! upsert.

use vstd::prelude::*;

use crate::text::{
    lemma_parse_i64_of_decimal, parse_i64, push_signed_decimal, spec_parse_i64,
    spec_signed_decimal, str_eq,
};

verus! {

#[derive(Debug, Clone, PartialEq, Eq)]
pub struct Settings {
    pub show_preview_line: bool,
    pub show_sender_avatar: bool,
    pub mark_read_delay: bool,
    /// Minutes between background syncs.
    pub sync_interval_minutes: i64,
    /// `light`, `dark` or `system`.
    pub theme: String,
    pub accent_color: String,
    /// `noto-sans`, `yu-gothic`, `meiryo` or `monospace`.
    pub font_family: String,
    /// `small`, `medium` or `large`.
    pub font_size: String,
}

/// The settings as plain values.
pub struct DbSettingsModel {
    pub show_preview_line: bool,
    pub show_sender_avatar: bool,
    pub mark_read_delay: bool,
    pub sync_interval_minutes: i64,
    pub theme: Seq<char>,
    pub accent_color: Seq<char>,
    pub font_family: Seq<char>,
    pub font_size: Seq<char>,
}

impl View for Settings {
    type V = DbSettingsModel;

    open spec fn view(&self) -> DbSettingsModel {
        DbSettingsModel {
            show_preview_line: self.show_preview_line,
            show_sender_avatar: self.show_sender_avatar,
            mark_read_delay: self.mark_read_delay,
            sync_interval_minutes: self.sync_interval_minutes,
            theme: self.theme@,
            accent_color: self.accent_color@,
            font_family: self.font_family@,
            font_size: self.font_size@,
        }
    }
}

pub open spec fn spec_default() -> DbSettingsModel {
    DbSettingsModel {
        show_preview_line: true,
        show_sender_avatar: false,
        mark_read_delay: true,
        sync_interval_minutes: 5,
        theme: "light"@,
        accent_color: "#3f6b5c"@,
        font_family: "noto-sans"@,
        font_size: "medium"@,
    }
}

pub open spec fn spec_is_valid_theme(t: Seq<char>) -> bool {
    t == "light"@ || t == "dark"@ || t == "system"@
}

pub open spec fn spec_is_valid_font_family(t: Seq<char>) -> bool {
    t == "noto-sans"@ || t == "yu-gothic"@ || t == "meiryo"@ || t == "monospace"@
}

pub open spec fn spec_is_valid_font_size(t: Seq<char>) -> bool {
    t == "small"@ || t == "medium"@ || t == "large"@
}

/// Settings that `set` writes and `get` reads back unchanged.
pub open spec fn spec_is_valid(s: DbSettingsModel) -> bool {
    &&& s.sync_interval_minutes > 0
    &&& spec_is_valid_theme(s.theme)
    &&& s.accent_color.len() > 0
    &&& spec_is_valid_font_family(s.font_family)
    &&& spec_is_valid_font_size(s.font_size)
}

/// One row applied to `s`: flags are on for `1`; an interval that does not
/// parse or is not positive, an unknown theme, font family or font size, and
/// an empty accent colour leave the value as it was; unknown keys are ignored.
pub open spec fn spec_apply_row(s: DbSettingsModel, key: Seq<char>, value: Seq<char>) -> DbSettingsModel {
    if key == "show_preview_line"@ {
        DbSettingsModel { show_preview_line: value == "1"@, ..s }
    } else if key == "show_sender_avatar"@ {
        DbSettingsModel { show_sender_avatar: value == "1"@, ..s }
    } else if key == "mark_read_delay"@ {
        DbSettingsModel { mark_read_delay: value == "1"@, ..s }
    } else if key == "sync_interval_minutes"@ {
        match spec_parse_i64(value) {
            Some(m) => if m > 0 { DbSettingsModel { sync_interval_minutes: m, ..s } } else { s },
            None => s,
        }
    } else if key == "theme"@ {
        if spec_is_valid_theme(value) { DbSettingsModel { theme: value, ..s } } else { s }
    } else if key == "accent_color"@ {
        if value.len() > 0 { DbSettingsModel { accent_color: value, ..s } } else { s }
    } else if key == "font_family"@ {
        if spec_is_valid_font_family(value) { DbSettingsModel { font_family: value, ..s } } else { s }
    } else if key == "font_size"@ {
        if spec_is_valid_font_size(value) { DbSettingsModel { font_size: value, ..s } } else { s }
    } else {
        s
    }
}

/// The rows applied in order to `s`.
pub open spec fn spec_apply_rows(s: DbSettingsModel, rows: Seq<(Seq<char>, Seq<char>)>) -> DbSettingsModel
    decreases rows.len(),
{
    if rows.len() == 0 {
        s
    } else {
        spec_apply_row(spec_apply_rows(s, rows.drop_last()), rows.last().0, rows.last().1)
    }
}

pub open spec fn spec_row_view(row: (String, String)) -> (Seq<char>, Seq<char>) {
    (row.0@, row.1@)
}

pub open spec fn spec_flag(b: bool) -> Seq<char> {
    if b { "1"@ } else { "0"@ }
}

/// The rows that `set` upserts, in this order.
pub open spec fn spec_entries(s: DbSettingsModel) -> Seq<(Seq<char>, Seq<char>)> {
    seq![
        ("show_preview_line"@, spec_flag(s.show_preview_line)),
        ("show_sender_avatar"@, spec_flag(s.show_sender_avatar)),
        ("mark_read_delay"@, spec_flag(s.mark_read_delay)),
        ("sync_interval_minutes"@, spec_signed_decimal(s.sync_interval_minutes as int)),
        ("theme"@, s.theme),
        ("accent_color"@, s.accent_color),
        ("font_family"@, s.font_family),
        ("font_size"@, s.font_size),
    ]
}

fn apply_row(s: &mut Settings, key: &str, value: &str)
    ensures
        final(s)@ == spec_apply_row(old(s)@, key@, value@),
{
    if str_eq(key, "show_preview_line") {
        s.show_preview_line = str_eq(value, "1");
    } else if str_eq(key, "show_sender_avatar") {
        s.show_sender_avatar = str_eq(value, "1");
    } else if str_eq(key, "mark_read_delay") {
        s.mark_read_delay = str_eq(value, "1");
    } else if str_eq(key, "sync_interval_minutes") {
        if let Some(minutes) = parse_i64(value) {
            if minutes > 0 {
                s.sync_interval_minutes = minutes;
            }
        }
    } else if str_eq(key, "theme") {
        if str_eq(value, "light") || str_eq(value, "dark") || str_eq(value, "system") {
            s.theme = String::from_str(value);
        }
    } else if str_eq(key, "accent_color") {
        if value.unicode_len() > 0 {
            s.accent_color = String::from_str(value);
        }
    } else if str_eq(key, "font_family") {
        if str_eq(value, "noto-sans") || str_eq(value, "yu-gothic") || str_eq(value, "meiryo")
            || str_eq(value, "monospace") {
            s.font_family = String::from_str(value);
        }
    } else if str_eq(key, "font_size") {
        if str_eq(value, "small") || str_eq(value, "medium") || str_eq(value, "large") {
            s.font_size = String::from_str(value);
        }
    }
}

impl Default for Settings {
    /// The settings of a database without rows.
    fn default() -> (s: Self)
        ensures
            s@ == spec_default(),
    {
        Settings {
            show_preview_line: true,
            show_sender_avatar: false,
            mark_read_delay: true,
            sync_interval_minutes: 5,
            theme: String::from_str("light"),
            accent_color: String::from_str("#3f6b5c"),
            font_family: String::from_str("noto-sans"),
            font_size: String::from_str("medium"),
        }
    }
}

/// The settings that the rows of the table stand for: the defaults, with the
/// rows applied in the order given (see `spec_apply_row`).
pub fn get(rows: &Vec<(String, String)>) -> (s: Settings)
    ensures
        s@ == spec_apply_rows(spec_default(), rows@.map_values(|r: (String, String)| spec_row_view(r))),
{
    let mut s = Settings::default();
    let ghost views = rows@.map_values(|r: (String, String)| spec_row_view(r));
    let mut i: usize = 0;
    while i < rows.len()
        invariant
            i <= rows@.len(),
            views == rows@.map_values(|r: (String, String)| spec_row_view(r)),
            s@ == spec_apply_rows(spec_default(), views.subrange(0, i as int)),
        decreases rows@.len() - i,
    {
        let row = &rows[i];
        apply_row(&mut s, row.0.as_str(), row.1.as_str());
        proof {
            assert(views.subrange(0, i + 1).drop_last() =~= views.subrange(0, i as int));
            assert(views[i as int] == spec_row_view(rows@[i as int]));
        }
        i = i + 1;
    }
    proof {
        assert(views.subrange(0, rows@.len() as int) =~= views);
    }
    s
}

fn flag(b: bool) -> (r: String)
    ensures
        r@ == spec_flag(b),
{
    if b { String::from_str("1") } else { String::from_str("0") }
}

/// The `key`/`value` rows that store `settings`, to be upserted.
pub fn set(settings: &Settings) -> (rows: Vec<(String, String)>)
    ensures
        rows@.map_values(|r: (String, String)| spec_row_view(r)) == spec_entries(settings@),
{
    let mut interval = String::new();
    push_signed_decimal(&mut interval, settings.sync_interval_minutes);
    let mut rows: Vec<(String, String)> = Vec::new();
    rows.push((String::from_str("show_preview_line"), flag(settings.show_preview_line)));
    rows.push((String::from_str("show_sender_avatar"), flag(settings.show_sender_avatar)));
    rows.push((String::from_str("mark_read_delay"), flag(settings.mark_read_delay)));
    rows.push((String::from_str("sync_interval_minutes"), interval));
    rows.push((String::from_str("theme"), settings.theme.clone()));
    rows.push((String::from_str("accent_color"), settings.accent_color.clone()));
    rows.push((String::from_str("font_family"), settings.font_family.clone()));
    rows.push((String::from_str("font_size"), settings.font_size.clone()));
    proof {
        assert(rows@.map_values(|r: (String, String)| spec_row_view(r)) =~= spec_entries(
            settings@,
        ));
    }
    rows
}

/// Writing valid settings and reading the rows back gives the same settings.
pub proof fn lemma_set_then_get_roundtrips(s: DbSettingsModel)
    requires
        spec_is_valid(s),
    ensures
        spec_apply_rows(spec_default(), spec_entries(s)) == s,
{
    reveal_strlit("1");
    reveal_strlit("0");
    reveal_strlit("show_preview_line");
    reveal_strlit("show_sender_avatar");
    reveal_strlit("mark_read_delay");
    reveal_strlit("sync_interval_minutes");
    reveal_strlit("theme");
    reveal_strlit("accent_color");
    reveal_strlit("font_family");
    reveal_strlit("font_size");
    lemma_parse_i64_of_decimal(s.sync_interval_minutes);
    assert("show_preview_line"@.len() == 17);
    assert("show_sender_avatar"@.len() == 18);
    assert("mark_read_delay"@.len() == 15);
    assert("sync_interval_minutes"@.len() == 21);
    assert("theme"@.len() == 5);
    assert("accent_color"@.len() == 12);
    assert("font_family"@.len() == 11);
    assert("font_size"@.len() == 9);
    let e = spec_entries(s);
    let d = spec_default();
    assert(spec_apply_rows(d, e.subrange(0, 0)) == d) by {
        assert(e.subrange(0, 0).len() == 0);
    }
    assert(e.subrange(0, 1).drop_last() =~= e.subrange(0, 0));
    let s1 = DbSettingsModel { show_preview_line: s.show_preview_line, ..d };
    assert(spec_apply_rows(d, e.subrange(0, 1)) == s1);
    assert(e.subrange(0, 2).drop_last() =~= e.subrange(0, 1));
    let s2 = DbSettingsModel { show_sender_avatar: s.show_sender_avatar, ..s1 };
    assert(spec_apply_rows(d, e.subrange(0, 2)) == s2);
    assert(e.subrange(0, 3).drop_last() =~= e.subrange(0, 2));
    let s3 = DbSettingsModel { mark_read_delay: s.mark_read_delay, ..s2 };
    assert(spec_apply_rows(d, e.subrange(0, 3)) == s3);
    assert(e.subrange(0, 4).drop_last() =~= e.subrange(0, 3));
    let s4 = DbSettingsModel { sync_interval_minutes: s.sync_interval_minutes, ..s3 };
    assert(spec_apply_rows(d, e.subrange(0, 4)) == s4);
    assert(e.subrange(0, 5).drop_last() =~= e.subrange(0, 4));
    let s5 = DbSettingsModel { theme: s.theme, ..s4 };
    assert(spec_apply_rows(d, e.subrange(0, 5)) == s5);
    assert(e.subrange(0, 6).drop_last() =~= e.subrange(0, 5));
    let s6 = DbSettingsModel { accent_color: s.accent_color, ..s5 };
    assert(spec_apply_rows(d, e.subrange(0, 6)) == s6);
    assert(e.subrange(0, 7).drop_last() =~= e.subrange(0, 6));
    let s7 = DbSettingsModel { font_family: s.font_family, ..s6 };
    assert(spec_apply_rows(d, e.subrange(0, 7)) == s7);
    assert(e.subrange(0, 8).drop_last() =~= e.subrange(0, 7));
    let s8 = DbSettingsModel { font_size: s.font_size, ..s7 };
    assert(spec_apply_rows(d, e.subrange(0, 8)) == s8);
    assert(e.subrange(0, 8) =~= e);
}

} // verus!
