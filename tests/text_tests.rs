use news_digest::text::{
    chunk_text, join_strings, str_contains, strip_white_space, take_chars, trim,
    truncate_to_char_boundary,
};

#[test]
fn contains_finds_substrings() {
    assert!(str_contains("breaking sports news", "sport"));
    assert!(str_contains("abc", ""));
    assert!(!str_contains("abc", "abcd"));
    assert!(!str_contains("tec", "tech"));
}

#[test]
fn take_chars_counts_characters_not_bytes() {
    let text: String = std::iter::repeat('é').take(2000).collect();
    let cut = take_chars(&text, 1024);
    assert_eq!(cut.chars().count(), 1024);
    assert_eq!(cut.len(), 2048);
    assert!(cut.chars().all(|c| c == 'é'));
}

#[test]
fn take_chars_keeps_short_text() {
    assert_eq!(take_chars("héllo", 10), "héllo");
    assert_eq!(take_chars("héllo", 2), "hé");
    assert_eq!(take_chars("", 3), "");
}

#[test]
fn truncate_keeps_whole_characters_within_limit() {
    assert_eq!(truncate_to_char_boundary("short", 10), "short");
    assert_eq!(truncate_to_char_boundary("exact", 5), "exact");
    assert_eq!(truncate_to_char_boundary("日本語テキスト", 3), "日本語");
    let text: String = std::iter::repeat('é').take(2000).collect();
    let cut = truncate_to_char_boundary(&text, 1024);
    assert_eq!(cut, "é".repeat(1024));
    assert_eq!(cut.len(), 2048);
    let mixed: String = "aé日😀".repeat(500);
    let cut = truncate_to_char_boundary(&mixed, 1024);
    assert_eq!(cut.chars().count(), 1024);
    assert!(mixed.starts_with(&cut));
    assert!(mixed.is_char_boundary(cut.len()));
}

#[test]
fn chunking_splits_by_characters() {
    let text: String = std::iter::repeat('a').take(25_000).collect();
    let chunks = chunk_text(&text, 10_000);
    assert_eq!(chunks.len(), 3);
    assert_eq!(chunks[0].chars().count(), 10_000);
    assert_eq!(chunks[1].chars().count(), 10_000);
    assert_eq!(chunks[2].chars().count(), 5_000);
}

#[test]
fn chunking_multibyte_and_edges() {
    assert!(chunk_text("", 4).is_empty());
    assert_eq!(chunk_text("ééééé", 2), vec!["éé".to_string(), "éé".to_string(), "é".to_string()]);
    assert_eq!(chunk_text("abcd", 4), vec!["abcd".to_string()]);
    let joined: String = chunk_text("the quick brown fox", 3).concat();
    assert_eq!(joined, "the quick brown fox");
}

#[test]
fn join_places_separator_between_parts() {
    let parts = vec!["a".to_string(), "b".to_string(), "c".to_string()];
    assert_eq!(join_strings(&parts, ", "), "a, b, c");
    assert_eq!(join_strings(&vec!["solo".to_string()], "\n"), "solo");
    assert_eq!(join_strings(&Vec::new(), " "), "");
}

#[test]
fn trim_and_strip_white_space() {
    assert_eq!(trim("  TRUE \t\n"), "TRUE");
    assert_eq!(trim("\u{3000}x y\u{a0}"), "x y");
    assert_eq!(trim("   "), "");
    assert_eq!(strip_white_space(" m a\tybe\n"), "maybe");
}
