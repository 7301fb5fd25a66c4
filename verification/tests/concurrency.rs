use rustlab::playground::fib::fib;
use rustlab::playground::words::{count_words, greeting, merge_counts, merge_counts_checked, word_frequencies, WordCounts};
use std::sync::{Arc, Mutex};

#[test]
fn test_fib_basic() {
    assert_eq!(fib(0), 0);
    assert_eq!(fib(1), 1);
    assert_eq!(fib(5), 5);
    assert_eq!(fib(10), 55);
}

#[test]
fn fib_is_monotone_on_small_values() {
    let mut prev = 0;
    for n in 0..25u64 {
        let f = fib(n);
        assert!(f >= prev);
        prev = f;
    }
    assert_eq!(fib(20), 6765);
}

#[test]
fn test_mutex_safety() {
    let counter = Arc::new(Mutex::new(0));
    assert_eq!(Arc::strong_count(&counter), 1);
}

#[test]
fn test_count_words_basic() {
    assert_eq!(count_words("hello world"), 2);
    assert_eq!(count_words("rust is awesome"), 3);
    assert_eq!(count_words(""), 0);
}

#[test]
fn count_words_unicode_white_space() {
    assert_eq!(count_words("  leading and trailing  "), 3);
    assert_eq!(count_words("a\tb\nc\u{3000}d"), 4);
    assert_eq!(count_words("\u{a0}"), 0);
}

#[test]
fn test_merge_counts_logic() {
    let mut map1 = WordCounts::new();
    map1.insert("a".to_string(), 1);

    let mut map2 = WordCounts::new();
    map2.insert("a".to_string(), 2);
    map2.insert("b".to_string(), 1);

    let merged = merge_counts(vec![map1, map2]);

    assert_eq!(merged.get("a"), Some(3));
    assert_eq!(merged.get("b"), Some(1));
}

#[test]
fn merge_counts_of_nothing_is_empty() {
    let merged = merge_counts(Vec::new());
    assert_eq!(merged.len(), 0);
    assert_eq!(merged.get("a"), None);
}

#[test]
fn word_frequencies_lower_cases_words() {
    let counts = word_frequencies("hello world Hello rust");
    assert_eq!(counts.get("hello"), Some(2));
    assert_eq!(counts.get("world"), Some(1));
    assert_eq!(counts.get("rust"), Some(1));
    assert_eq!(counts.get("Hello"), None);
    assert_eq!(counts.len(), 3);
    let counts2 = word_frequencies("hello tom hello jerry");
    let all = merge_counts(vec![counts, counts2]);
    assert_eq!(all.get("hello"), Some(4));
    assert_eq!(all.get("tom"), Some(1));
}

#[test]
fn word_counts_add_and_overwrite() {
    let mut counts = WordCounts::new();
    counts.add("x".to_string(), 2);
    counts.add("x".to_string(), 3);
    assert_eq!(counts.get("x"), Some(5));
    counts.insert("x".to_string(), 1);
    assert_eq!(counts.get("x"), Some(1));
}

#[test]
fn greeting_text() {
    assert_eq!(greeting("Rust"), "Hello, Rust!");
    assert_eq!(greeting("Alice"), "Hello, Alice!");
}

#[test]
fn white_space_is_unicode_white_space() {
    let extra = ['\u{feff}', '\u{180e}', '\u{e000}', '\u{10ffff}'];
    for c in (0u32..0x3100).filter_map(char::from_u32).chain(extra) {
        let text = format!("x{}y", c);
        let expected = if c.is_whitespace() { 2 } else { 1 };
        assert_eq!(count_words(&text), expected, "char {:?}", c);
    }
}

#[test]
fn merge_counts_checked_refuses_a_total_too_large() {
    let mut big = WordCounts::new();
    big.insert("a".to_string(), usize::MAX);
    let mut one = WordCounts::new();
    one.insert("a".to_string(), 1);
    one.insert("b".to_string(), 1);
    assert!(merge_counts_checked(vec![big, one]).is_none());
    let mut x = WordCounts::new();
    x.insert("a".to_string(), 2);
    let mut y = WordCounts::new();
    y.insert("a".to_string(), 5);
    let merged = merge_counts_checked(vec![x, y]).unwrap();
    assert_eq!(merged.get("a"), Some(7));
    assert_eq!(merged.len(), 1);
}
