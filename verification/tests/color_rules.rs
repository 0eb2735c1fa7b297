use ferro_core::color_rules::{add, remove, ColorRule, ColorRulesError, ColorRulesFile};

fn rule(pattern: &str, color: &str) -> ColorRule {
    ColorRule { pattern: pattern.to_string(), color: color.to_string() }
}

#[test]
fn add_appends_and_preserves_existing_order() {
    let file = ColorRulesFile { rules: vec![rule("first", "#111111")] };
    let file = add(file, rule("second", "#222222"));
    assert_eq!(file.rules, vec![rule("first", "#111111"), rule("second", "#222222")]);
}

#[test]
fn remove_deletes_only_the_target_index() {
    let file = ColorRulesFile { rules: vec![rule("first", "#111111"), rule("second", "#222222")] };
    let file = remove(file, 0).unwrap();
    assert_eq!(file.rules, vec![rule("second", "#222222")]);
}

#[test]
fn remove_out_of_range_index_errors_without_modifying_file() {
    let file = ColorRulesFile { rules: vec![rule("first", "#111111")] };
    assert_eq!(remove(file.clone(), 5), Err(ColorRulesError::IndexOutOfRange(5)));
    assert_eq!(file.rules, vec![rule("first", "#111111")]);
}

#[test]
fn adding_then_removing_the_last_rule_gives_the_file_back() {
    let file = ColorRulesFile { rules: vec![rule("a", "#000000"), rule("b", "#ffffff")] };
    let added = add(file.clone(), rule("c", "#123456"));
    assert_eq!(remove(added, 2).unwrap(), file);
    assert!(ColorRulesFile::empty().rules.is_empty());
    assert_eq!(remove(ColorRulesFile::empty(), 0), Err(ColorRulesError::IndexOutOfRange(0)));
}
