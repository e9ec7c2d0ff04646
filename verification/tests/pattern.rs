use appmeta::pattern::{matcher_source_of, whole_key_matched};
use appmeta::KeyPattern;

fn pattern(text: &str) -> KeyPattern {
    KeyPattern::new(text.to_owned())
}

#[test]
fn test_key_pattern() {
    let pattern = KeyPattern::new("xxxx_{}_{}".to_owned());
    assert!(pattern.match_key("xxxx_abc_123"));
}

#[test]
fn key_with_trailing_literal_does_not_match() {
    let p = pattern("xxxx_{}_{}");
    assert!(!p.match_key("xxxx_abc_123_"));
}

#[test]
fn key_with_missing_run_does_not_match() {
    let p = pattern("xxxx_{}_{}");
    assert!(!p.match_key("xxxx_abc"));
    assert!(!p.match_key("xxxx_abc_"));
    assert!(!p.match_key("xxxx__123"));
}

#[test]
fn adjacent_placeholders_split_one_run() {
    let p = pattern("xxxx{}{}");
    assert!(p.match_key("xxxxabc123"));
    assert!(p.match_key("xxxxab"));
    assert!(!p.match_key("xxxxa"));
}

#[test]
fn match_must_cover_the_whole_key() {
    let p = pattern("b{}");
    assert!(p.match_key("bcd"));
    assert!(!p.match_key("abcd"));
    assert!(!p.match_key("bcd-"));
}

#[test]
fn run_holds_ascii_letters_and_digits_only() {
    let p = pattern("k{}");
    assert!(p.match_key("kAz09"));
    assert!(!p.match_key("k_"));
    assert!(!p.match_key("ka b"));
    assert!(!p.match_key("k\u{e9}"));
}

#[test]
fn literal_characters_stand_for_themselves() {
    let p = pattern("a.c+{}");
    assert!(p.match_key("a.c+x"));
    assert!(!p.match_key("abc+x"));
    assert!(!p.match_key("a.ccx"));
    let q = pattern("(x|y)[{}]");
    assert!(q.match_key("(x|y)[7]"));
    assert!(!q.match_key("x7"));
}

#[test]
fn lone_braces_are_literal() {
    let p = pattern("{{}}");
    assert!(p.match_key("{a}"));
    assert!(!p.match_key("a"));
    let q = pattern("a{b");
    assert!(q.match_key("a{b"));
}

#[test]
fn pattern_without_placeholder_matches_itself_only() {
    let p = pattern("plain_key");
    assert!(p.match_key("plain_key"));
    assert!(!p.match_key("plain_key2"));
    assert!(!p.match_key("plain"));
}

#[test]
fn empty_pattern_matches_empty_key_only() {
    let p = pattern("");
    assert!(p.match_key(""));
    assert!(!p.match_key("a"));
}

#[test]
fn literal_beyond_ascii_is_matched_by_bytes() {
    let p = pattern("caf\u{e9}_{}");
    assert!(p.match_key("caf\u{e9}_1"));
    assert!(!p.match_key("cafe_1"));
}

#[test]
fn matcher_source_quotes_and_substitutes() {
    assert_eq!(matcher_source_of("xxxx_{}_{}"), "xxxx_[a-zA-Z0-9]+_[a-zA-Z0-9]+");
    assert_eq!(matcher_source_of("a.b"), "a\\.b");
    assert_eq!(matcher_source_of("{{}}"), "\\{[a-zA-Z0-9]+\\}");
    assert_eq!(matcher_source_of("a-b~c"), "a\\-b\\~c");
    assert_eq!(matcher_source_of(""), "");
    assert_eq!(matcher_source_of("{}"), "[a-zA-Z0-9]+");
}

#[test]
fn whole_key_matched_compares_lengths() {
    assert!(whole_key_matched(Some((0, 5)), 5));
    assert!(!whole_key_matched(Some((0, 4)), 5));
    assert!(!whole_key_matched(Some((1, 5)), 5));
    assert!(!whole_key_matched(None, 0));
    assert!(whole_key_matched(Some((0, 0)), 0));
}

#[test]
fn try_match_key_agrees_with_match_key() {
    let p = pattern("user_{}");
    assert!(p.is_valid());
    assert_eq!(p.try_match_key("user_42"), Some(true));
    assert_eq!(p.try_match_key("user_"), Some(false));
}

#[test]
fn oversized_pattern_is_refused() {
    let p = pattern(&"{}".repeat(400_000));
    assert!(!p.is_valid());
    assert_eq!(p.try_match_key("abc"), None);
}

#[test]
fn patterns_are_equal_by_text() {
    assert_eq!(pattern("a_{}"), pattern("a_{}"));
    assert_ne!(pattern("a_{}"), pattern("b_{}"));
    let p = pattern("a_{}");
    assert_eq!(p.clone(), p);
}
