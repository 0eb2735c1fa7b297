use ferro_core::search::cjk_tokenizer::{is_cjk, tokenize};

fn run(text: &str) -> Vec<String> {
    tokenize(text).into_iter().map(|t| t.text).collect()
}

#[test]
fn splits_japanese_into_overlapping_bigrams() {
    assert_eq!(run("全文検索"), vec!["全文", "文検", "検索"]);
}

#[test]
fn single_cjk_character_is_its_own_token() {
    assert_eq!(run("検"), vec!["検"]);
}

#[test]
fn latin_words_are_bigrammed_too_for_substring_search() {
    assert_eq!(run("Hello world"), vec!["He", "el", "ll", "lo", "wo", "or", "rl", "ld"]);
}

#[test]
fn mixed_japanese_and_latin_text() {
    assert_eq!(
        run("Subject: 検索テスト123"),
        vec!["Su", "ub", "bj", "je", "ec", "ct", "検索", "索テ", "テス", "スト", "12", "23"]
    );
}

#[test]
fn offsets_point_back_into_the_original_string() {
    let text = "検索エンジン";
    let tokens = tokenize(text);
    for token in &tokens {
        assert_eq!(&text[token.offset_from..token.offset_to], token.text);
    }
}

#[test]
fn positions_are_sequential() {
    let tokens = tokenize("全文検索 test");
    let positions: Vec<usize> = tokens.iter().map(|t| t.position).collect();
    assert_eq!(positions, vec![0, 1, 2, 3, 4, 5]);
}

#[test]
fn empty_and_symbol_only_text_has_no_tokens() {
    assert!(tokenize("").is_empty());
    assert!(tokenize(" -- !? ").is_empty());
}

#[test]
fn byte_offsets_count_utf8_bytes_and_single_characters_stand_alone() {
    let tokens = tokenize("a 検 é");
    let spans: Vec<(usize, usize, &str)> =
        tokens.iter().map(|t| (t.offset_from, t.offset_to, t.text.as_str())).collect();
    assert_eq!(spans, vec![(0, 1, "a"), (2, 5, "検"), (6, 8, "é")]);
    assert!(tokens.iter().all(|t| t.position_length == 1));
}

#[test]
fn cjk_ranges_include_kana_ideographs_and_half_width_katakana() {
    assert!(is_cjk('あ'));
    assert!(is_cjk('ン'));
    assert!(is_cjk('㐀'));
    assert!(is_cjk('漢'));
    assert!(is_cjk('\u{f900}'));
    assert!(is_cjk('ｱ'));
    assert!(!is_cjk('a'));
    assert!(!is_cjk('１'));
    assert!(is_cjk('ー'));
}
