//! Edge n-gram generation and preview truncation.

use cass::index::doc::{build_preview, generate_edge_ngrams};

#[test]
fn generate_edge_ngrams_produces_prefixes() {
    let result = generate_edge_ngrams("hello");
    assert!(result.contains("he"));
    assert!(result.contains("hel"));
    assert!(result.contains("hell"));
    assert!(result.contains("hello"));
}

#[test]
fn generate_edge_ngrams_handles_empty_string() {
    let result = generate_edge_ngrams("");
    assert!(result.is_empty());
}

#[test]
fn generate_edge_ngrams_handles_short_string() {
    let result = generate_edge_ngrams("a");
    assert!(result.is_empty());

    let result = generate_edge_ngrams("ab");
    assert_eq!(result, "ab");
}

#[test]
fn generate_edge_ngrams_handles_multiple_words() {
    let result = generate_edge_ngrams("hello world");
    assert!(result.contains("he"));
    assert!(result.contains("wo"));
    assert!(result.contains("world"));
}

#[test]
fn generate_edge_ngrams_exact_output() {
    assert_eq!(generate_edge_ngrams("hello"), "he hel hell hello");
    assert_eq!(generate_edge_ngrams("ab cd"), "ab cd");
    assert_eq!(generate_edge_ngrams("a-bc"), "bc");
}

#[test]
fn generate_edge_ngrams_caps_prefix_length() {
    // A 25-character token yields prefixes of lengths 2 through 20 only.
    let token = "abcdefghijklmnopqrstuvwxy";
    let result = generate_edge_ngrams(token);
    let grams: Vec<&str> = result.split(' ').collect();
    assert_eq!(grams.len(), 19);
    assert_eq!(grams[0], "ab");
    assert_eq!(grams[18], "abcdefghijklmnopqrst");
}

#[test]
fn build_preview_keeps_short_content() {
    assert_eq!(build_preview("hello", 200), "hello");
}

#[test]
fn build_preview_truncates_with_ellipsis() {
    let long: String = std::iter::repeat('x').take(250).collect();
    let preview = build_preview(&long, 200);
    assert_eq!(preview.chars().count(), 201);
    assert!(preview.ends_with('\u{2026}'));
    assert!(preview.starts_with("xxx"));
}
