use ferro_core::color_rules::ColorRule;
use ferro_core::tui::colors::{match_color, match_color_checked, parse_hex_color, truncate_to_width, Rgb};

fn rgb(r: u8, g: u8, b: u8) -> Rgb {
    Rgb { r, g, b }
}

fn rule(pattern: &str, color: &str) -> ColorRule {
    ColorRule { pattern: pattern.to_string(), color: color.to_string() }
}

#[test]
fn parses_hex_color_with_and_without_hash() {
    assert_eq!(parse_hex_color("#3f6b5c"), Some(rgb(0x3f, 0x6b, 0x5c)));
    assert_eq!(parse_hex_color("3f6b5c"), Some(rgb(0x3f, 0x6b, 0x5c)));
}

#[test]
fn rejects_invalid_hex_color() {
    assert_eq!(parse_hex_color("not-a-color"), None);
    assert_eq!(parse_hex_color("#fff"), None);
}

#[test]
fn hex_color_accepts_upper_case_and_a_plus_sign_per_pair() {
    assert_eq!(parse_hex_color("#FFA0b1"), Some(rgb(0xff, 0xa0, 0xb1)));
    // `u8::from_str_radix` takes "+f" as 15.
    assert_eq!(parse_hex_color("+f0000"), Some(rgb(0x0f, 0x00, 0x00)));
    assert_eq!(parse_hex_color("##112233"), None);
    assert_eq!(parse_hex_color("-f0000"), None);
    assert_eq!(parse_hex_color(""), None);
}

#[test]
fn truncate_keeps_short_ascii_text_unchanged() {
    assert_eq!(truncate_to_width("hello", 10), "hello");
}

#[test]
fn truncate_ascii_text_appends_ellipsis() {
    assert_eq!(truncate_to_width("hello world", 8), "hello w…");
}

#[test]
fn truncate_never_splits_a_wide_character_in_half() {
    assert_eq!(truncate_to_width("あいうえお", 5), "あい…");
}

#[test]
fn truncate_to_zero_columns_is_empty_and_exact_fit_is_kept() {
    assert_eq!(truncate_to_width("hello", 0), "");
    assert_eq!(truncate_to_width("hello", 5), "hello");
    assert_eq!(truncate_to_width("hello", 1), "…");
    assert_eq!(truncate_to_width("あい", 4), "あい");
    assert_eq!(truncate_to_width("あい", 3), "あ…");
    assert_eq!(truncate_to_width("あい", 2), "…");
}

#[test]
fn match_color_finds_pattern_in_subject_case_insensitively() {
    let rules = vec![rule("critical", "#b00020")];
    let color = match_color(&rules, Some("Critical alert"), None, None, None);
    assert_eq!(color, Some(rgb(0xb0, 0x00, 0x20)));
}

#[test]
fn match_color_returns_none_when_nothing_matches() {
    let rules = vec![rule("critical", "#b00020")];
    assert_eq!(match_color(&rules, Some("all good"), None, None, None), None);
}

#[test]
fn match_color_prefers_the_first_matching_rule() {
    let rules = vec![rule("alert", "#111111"), rule("critical", "#222222")];
    let color = match_color(&rules, Some("critical alert"), None, None, None);
    assert_eq!(color, Some(rgb(0x11, 0x11, 0x11)));
}

#[test]
fn match_color_looks_in_every_field_and_skips_empty_patterns() {
    let rules = vec![rule("", "#000000"), rule("EXAMPLE.COM", "#010203")];
    assert_eq!(
        match_color(&rules, None, Some("Alice"), Some("alice@example.com"), None),
        Some(rgb(1, 2, 3))
    );
    // The fields are joined with a space, so a pattern may span two of them.
    let rules = vec![rule("alice bob", "#0a0b0c")];
    assert_eq!(match_color(&rules, Some("alice"), None, None, Some("bob")), Some(rgb(10, 11, 12)));
    assert_eq!(match_color(&rules, None, None, None, None), None);
    assert_eq!(match_color(&[], Some("alice bob"), None, None, None), None);
}

#[test]
fn match_color_gives_none_for_an_unreadable_colour() {
    let rules = vec![rule("alert", "red"), rule("alert", "#ffffff")];
    assert_eq!(match_color(&rules, Some("alert"), None, None, None), None);
}

#[test]
fn match_color_checked_refuses_a_colour_cut_inside_a_character() {
    // "#aé000" is six bytes after the '#', but byte 2 falls inside 'é'.
    let bad = vec![rule("alert", "#aé000")];
    assert_eq!(match_color_checked(&bad, Some("alert"), None, None, None), None);
    // A badly written colour on a rule that is never reached does no harm.
    let rules = vec![rule("alert", "#010101"), rule("alert", "#aé000")];
    assert_eq!(match_color_checked(&rules, Some("alert"), None, None, None), Some(Some(rgb(1, 1, 1))));
    assert_eq!(match_color(&rules, Some("alert"), None, None, None), Some(rgb(1, 1, 1)));
    // Nothing applies: the colour is never read.
    assert_eq!(match_color_checked(&bad, Some("calm"), None, None, None), Some(None));
}

#[test]
fn a_truncated_text_fits_its_width() {
    assert_eq!(truncate_to_width("hello", 10), "hello");
    assert_eq!(truncate_to_width("hello", 0), "");
    assert_eq!(truncate_to_width("hello world", 6), "hello…");
    assert_eq!(truncate_to_width("日本語のテキスト", 7), "日本語…");
    assert_eq!(truncate_to_width("abc", usize::MAX), "abc");
}
