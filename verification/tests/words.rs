use chat_core::pump::resolve_reveal;
use chat_core::text::{eq_ignore_case, str_eq, str_le};
use chat_core::topics::{
    clean_word, extract_enhanced_topics, extract_target_from_query, is_stop_word, split_words,
};

#[test]
fn string_comparisons() {
    assert!(str_eq("abc", "abc"));
    assert!(!str_eq("abc", "abd"));
    assert!(!str_eq("abc", "ab"));
    assert!(eq_ignore_case("Alice", "aLiCe"));
    assert!(!eq_ignore_case("alice", "bob"));
    assert!(!eq_ignore_case("alice", "alicia"));
    // lexicographic order with the prefix first
    assert!(str_le("abc", "abd"));
    assert!(str_le("ab", "abc"));
    assert!(!str_le("abd", "abc"));
    assert!(str_le("", "a"));
    assert!(str_le("abc", "abc"));
}

#[test]
fn split_respects_whitespace_runs() {
    assert_eq!(split_words("one two  three"), vec!["one", "two", "three"]);
    assert_eq!(split_words("  padded \t out \n"), vec!["padded", "out"]);
    assert!(split_words("").is_empty());
    assert!(split_words("   ").is_empty());
}

#[test]
fn clean_word_keeps_letters_and_lowercases() {
    assert_eq!(clean_word("Hello!"), "hello");
    assert_eq!(clean_word("it's"), "its");
    assert_eq!(clean_word("123"), "");
    assert_eq!(clean_word("Rust2024,"), "rust");
}

#[test]
fn stop_words_are_recognized() {
    assert!(is_stop_word("the"));
    assert!(is_stop_word("shall"));
    assert!(is_stop_word("them"));
    assert!(!is_stop_word("thematic"));
    assert!(!is_stop_word("rust"));
    assert!(!is_stop_word(""));
}

#[test]
fn topics_ranked_by_frequency() {
    let text = "planning the planning meeting meeting meeting budget budget on a rainy day";
    let topics = extract_enhanced_topics(text);
    // meeting occurs three times, planning and budget twice; single words drop out
    assert_eq!(topics, vec!["meeting".to_string(), "planning".to_string(), "budget".to_string()]);
}

#[test]
fn topics_need_at_least_two_occurrences() {
    assert!(extract_enhanced_topics("each word only once here").is_empty());
    // stop words and short words never count
    assert!(extract_enhanced_topics("the the the is is on on").is_empty());
}

#[test]
fn target_found_after_preposition() {
    assert_eq!(
        extract_target_from_query("summarize my chat with admin1"),
        Some("admin1".to_string())
    );
    assert_eq!(extract_target_from_query("summary OF bob please"), Some("bob".to_string()));
}

#[test]
fn target_falls_back_to_last_word() {
    assert_eq!(extract_target_from_query("summarize admin1"), Some("admin1".to_string()));
    assert!(extract_target_from_query("summarize messages").is_none());
    assert!(extract_target_from_query("my Chat").is_none());
    assert!(extract_target_from_query("").is_none());
}

#[test]
fn reveal_resolution_prefers_the_delay() {
    // sixty seconds after epoch zero, rendered with millisecond precision
    assert_eq!(resolve_reveal(Some(60), None, 0), Some("1970-01-01T00:01:00.000Z".to_string()));
    // an absolute timestamp is normalized
    assert_eq!(
        resolve_reveal(None, Some("1970-01-01T00:02:00+00:00"), 0),
        Some("1970-01-01T00:02:00.000Z".to_string())
    );
    // a malformed timestamp means no reveal metadata
    assert!(resolve_reveal(None, Some("whenever"), 0).is_none());
    assert!(resolve_reveal(None, None, 0).is_none());
    // an epoch beyond the representable calendar renders nothing
    assert!(resolve_reveal(Some(i64::MAX), None, 0).is_none());
    // an in-range delay always yields the metadata
    assert!(resolve_reveal(Some(86_400), None, 0).is_some());
}
