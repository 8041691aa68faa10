use rustpad::search::{
    find_case_sensitive_backward, find_case_sensitive_forward, find_folded_backward,
    find_folded_forward, find_match, fold_case, is_whole_word_match, is_word_char,
    next_boundary_after, replace_all, strings_match_case, FoldedText,
};

fn chars(s: &str) -> Vec<char> {
    s.chars().collect()
}

#[test]
fn folded_search_respects_unicode_boundaries() {
    let text = "Before İ after";
    let chars: Vec<char> = text.chars().collect();
    let folded = FoldedText::new(&chars);
    let needle: Vec<char> = fold_case("İ").chars().collect();

    let found = find_folded_forward(&folded, &needle, &chars, 0, false);

    assert_eq!(found, Some((7, 1)));
}

#[test]
fn case_sensitive_search_uses_character_indices() {
    let text = "aébc";
    let chars: Vec<char> = text.chars().collect();
    let needle: Vec<char> = "éb".chars().collect();

    let found = find_case_sensitive_forward(&chars, &needle, 0, false);

    assert_eq!(found, Some((1, 2)));
}

#[test]
fn whole_word_check_respects_word_boundaries() {
    let chars: Vec<char> = "foo bar_baz".chars().collect();

    assert!(is_whole_word_match(&chars, 0, 3));
    assert!(!is_whole_word_match(&chars, 4, 3));
}

#[test]
fn folded_string_comparison_matches_unicode_case() {
    assert!(strings_match_case("İ", "i\u{307}", false));
    assert!(!strings_match_case("Rust", "Dust", false));
}

#[test]
fn case_sensitive_comparison_is_exact() {
    assert!(strings_match_case("Rust", "Rust", true));
    assert!(!strings_match_case("Rust", "rust", true));
    assert!(strings_match_case("Rust", "rUST", false));
}

#[test]
fn word_chars_are_alphanumeric_or_underscore() {
    assert!(is_word_char('a'));
    assert!(is_word_char('Ж'));
    assert!(is_word_char('7'));
    assert!(is_word_char('_'));
    assert!(!is_word_char(' '));
    assert!(!is_word_char('-'));
}

#[test]
fn fold_case_lowers_every_character() {
    assert_eq!(fold_case("HeLLo İ"), "hello i\u{307}");
    assert_eq!(fold_case(""), "");
}

#[test]
fn forward_search_starts_at_the_cursor() {
    let text = chars("abc abc abc");
    let needle = chars("abc");
    assert_eq!(find_case_sensitive_forward(&text, &needle, 0, false), Some((0, 3)));
    assert_eq!(find_case_sensitive_forward(&text, &needle, 1, false), Some((4, 3)));
    assert_eq!(find_case_sensitive_forward(&text, &needle, 9, false), None);
    assert_eq!(find_case_sensitive_forward(&text, &needle, 100, false), None);
}

#[test]
fn forward_search_skips_partial_words() {
    let text = chars("cat concat cat");
    let needle = chars("cat");
    assert_eq!(find_case_sensitive_forward(&text, &needle, 1, true), Some((11, 3)));
    assert_eq!(find_case_sensitive_forward(&text, &needle, 1, false), Some((7, 3)));
}

#[test]
fn backward_search_takes_last_match_before_the_cursor() {
    let text = chars("ab ab ab");
    let needle = chars("ab");
    assert_eq!(find_case_sensitive_backward(&text, &needle, 8, false), Some((6, 2)));
    assert_eq!(find_case_sensitive_backward(&text, &needle, 6, false), Some((3, 2)));
    assert_eq!(find_case_sensitive_backward(&text, &needle, 1, false), None);
}

#[test]
fn backward_search_sees_only_non_overlapping_matches() {
    let text = chars("aaa");
    let needle = chars("aa");
    assert_eq!(find_case_sensitive_backward(&text, &needle, 3, false), Some((0, 2)));
}

#[test]
fn folded_backward_search_maps_to_characters() {
    let text = chars("Straße STRASSE");
    let folded = FoldedText::new(&text);
    let needle = chars(&fold_case("strasse"));
    assert_eq!(find_folded_backward(&folded, &needle, &text, text.len(), false), Some((7, 7)));
    assert_eq!(find_folded_forward(&folded, &needle, &text, 0, false), Some((7, 7)));
}

#[test]
fn folded_search_ignores_case() {
    let text = chars("Hello WORLD");
    let folded = FoldedText::new(&text);
    let needle = chars(&fold_case("world"));
    assert_eq!(find_folded_forward(&folded, &needle, &text, 0, true), Some((6, 5)));
    assert_eq!(find_folded_backward(&folded, &needle, &text, 11, true), Some((6, 5)));
    assert_eq!(find_folded_backward(&folded, &needle, &text, 10, true), None);
}

#[test]
fn folded_text_records_boundaries() {
    let folded = FoldedText::new(&chars("AİB"));
    assert_eq!(folded.text, chars("ai\u{307}b"));
    assert_eq!(folded.boundaries, vec![0, 1, 3, 4]);
}

#[test]
fn next_boundary_after_finds_first_greater() {
    assert_eq!(next_boundary_after(&[0, 1, 3, 4], 1), Some(3));
    assert_eq!(next_boundary_after(&[0, 1, 3, 4], 2), Some(3));
    assert_eq!(next_boundary_after(&[0, 1, 3, 4], 4), None);
}

#[test]
fn find_match_wraps_around() {
    let text = chars("one two one");
    let find = chars("one");
    assert_eq!(find_match(&text, &find, true, false, 5, true, true), Some((8, 3)));
    assert_eq!(find_match(&text, &find, true, false, 9, true, true), Some((0, 3)));
    assert_eq!(find_match(&text, &find, true, false, 9, true, false), None);
    assert_eq!(find_match(&text, &find, true, false, 2, false, true), Some((8, 3)));
    assert_eq!(find_match(&text, &chars(""), true, false, 0, true, true), None);
    assert_eq!(find_match(&text, &chars("ONE"), false, false, 1, true, false), Some((8, 3)));
}

#[test]
fn replace_all_replaces_every_match() {
    let text = chars("a cat and a Cat");
    let r = replace_all(&text, &chars("cat"), false, false, &chars("dog"));
    assert_eq!(r, Some(chars("a dog and a dog")));
    let r = replace_all(&text, &chars("cat"), true, false, &chars("dog"));
    assert_eq!(r, Some(chars("a dog and a Cat")));
    let r = replace_all(&text, &chars("bird"), true, false, &chars("dog"));
    assert_eq!(r, None);
}

#[test]
fn replace_all_by_itself_keeps_text() {
    let text = chars("xx yy xx");
    let r = replace_all(&text, &chars("xx"), true, false, &chars("xx"));
    assert_eq!(r, Some(text.clone()));
}

#[test]
fn replace_all_respects_whole_words() {
    let text = chars("in inside in");
    let r = replace_all(&text, &chars("in"), true, true, &chars("out"));
    assert_eq!(r, Some(chars("out inside out")));
}
