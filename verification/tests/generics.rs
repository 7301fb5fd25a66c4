use rustlab::playground::cache::{Cache, MyCache};
use rustlab::playground::lifetimes::{first_word, longest, TextHolder};
use rustlab::playground::stack::Stack;

#[derive(Debug, PartialEq)]
struct Point {
    x: i32,
    y: i32,
}

#[test]
fn test_new_stack_is_empty() {
    let stack: Stack<i32> = Stack::new();
    assert!(stack.is_empty());
    assert_eq!(stack.len(), 0);
}

#[test]
fn test_push_and_pop() {
    let mut stack = Stack::new();
    stack.push(1);
    stack.push(2);
    stack.push(3);

    assert_eq!(stack.len(), 3);
    assert_eq!(stack.pop(), Some(3));
    assert_eq!(stack.pop(), Some(2));
    assert_eq!(stack.pop(), Some(1));
    assert_eq!(stack.pop(), None);
}

#[test]
fn test_peek_does_not_remove() {
    let mut stack = Stack::new();
    stack.push("hello");
    stack.push("world");

    assert_eq!(stack.peek(), Some(&"world"));
    assert_eq!(stack.len(), 2);

    assert_eq!(stack.pop(), Some("world"));
    assert_eq!(stack.peek(), Some(&"hello"));
}

#[test]
fn test_peek_empty_stack() {
    let stack: Stack<f64> = Stack::new();
    assert!(stack.peek().is_none());
}

#[test]
fn test_generic_works_with_different_types() {
    let mut int_stack = Stack::new();
    int_stack.push(42);
    assert_eq!(int_stack.pop(), Some(42));

    let mut string_stack = Stack::new();
    string_stack.push("hello".to_string());
    string_stack.push("world".to_string());
    assert_eq!(string_stack.pop(), Some("world".to_string()));

    let mut bool_stack = Stack::new();
    bool_stack.push(true);
    bool_stack.push(false);
    assert_eq!(bool_stack.pop(), Some(false));
}

#[test]
fn test_stack_with_custom_type() {
    let mut stack = Stack::new();
    stack.push(Point { x: 1, y: 2 });
    stack.push(Point { x: 3, y: 4 });

    assert_eq!(stack.pop(), Some(Point { x: 3, y: 4 }));
    assert_eq!(stack.peek(), Some(&Point { x: 1, y: 2 }));
}

#[test]
fn stack_pop_after_push_restores_stack() {
    let mut stack = Stack::new();
    stack.push(7);
    stack.push(8);
    stack.push(9);
    assert_eq!(stack.pop(), Some(9));
    assert_eq!(stack.len(), 2);
    assert_eq!(stack.peek(), Some(&8));
}

#[test]
fn test_new_cache_is_empty() {
    let cache: Cache<String, i32> = Cache::new();
    assert!(cache.is_empty());
    assert_eq!(cache.len(), 0);
}

#[test]
fn test_insert_and_get() {
    let mut cache = Cache::new();

    cache.insert("name".to_string(), 42);
    cache.insert("age".to_string(), 25);

    assert_eq!(cache.len(), 2);
    assert_eq!(cache.get(&"name".to_string()), Some(&42));
    assert_eq!(cache.get(&"age".to_string()), Some(&25));
    assert_eq!(cache.get(&"missing".to_string()), None);
}

#[test]
fn test_get_returns_reference() {
    let mut cache = Cache::new();
    cache.insert("key1".to_string(), "hello world".to_string());

    let value: &String = cache.get(&"key1".to_string()).unwrap();
    assert_eq!(value, "hello world");

    assert_eq!(cache.len(), 1);

    let value2: &String = cache.get(&"key1".to_string()).unwrap();
    assert_eq!(value2, "hello world");
}

#[test]
fn test_insert_overwrites() {
    let mut cache = Cache::new();

    cache.insert("key".to_string(), 1);
    assert_eq!(cache.get(&"key".to_string()), Some(&1));

    cache.insert("key".to_string(), 999);
    assert_eq!(cache.get(&"key".to_string()), Some(&999));
    assert_eq!(cache.len(), 1);
}

#[test]
fn test_remove() {
    let mut cache = Cache::new();
    cache.insert("a".to_string(), 1);
    cache.insert("b".to_string(), 2);

    let removed = cache.remove(&"a".to_string());
    assert_eq!(removed, Some(1));
    assert_eq!(cache.len(), 1);

    let removed_again = cache.remove(&"a".to_string());
    assert_eq!(removed_again, None);
}

#[test]
fn test_clear() {
    let mut cache = Cache::new();
    cache.insert(1, "a".to_string());
    cache.insert(2, "b".to_string());
    cache.insert(3, "c".to_string());

    assert_eq!(cache.len(), 3);

    cache.clear();

    assert!(cache.is_empty());
    assert_eq!(cache.len(), 0);
}

#[test]
fn test_different_generic_types() {
    let mut cache1 = Cache::new();
    cache1.insert("one".to_string(), 1);
    assert_eq!(cache1.get(&"one".to_string()), Some(&1));

    let mut cache2 = Cache::new();
    cache2.insert(1, vec!["a".to_string(), "b".to_string()]);
    let val = cache2.get(&1).unwrap();
    assert_eq!(val, &vec!["a".to_string(), "b".to_string()]);
}

#[test]
fn my_cache_insert_get_remove() {
    let mut cache = MyCache::new();
    cache.insert(5u64, "five".to_string());
    assert_eq!(cache.get(&5), Some(&"five".to_string()));
    assert_eq!(cache.remove(&5), Some("five".to_string()));
    assert_eq!(cache.get(&5), None);
    assert_eq!(cache.remove(&5), None);
}

#[test]
fn cache_write_after_remove_reads_new_value() {
    let mut cache = Cache::new();
    cache.insert(1u32, 10u32);
    assert_eq!(cache.remove(&1), Some(10));
    cache.insert(1, 20);
    assert_eq!(cache.get(&1), Some(&20));
    cache.insert(2, 30);
    assert_eq!(cache.get(&1), Some(&20));
}

#[test]
fn test_longest_basic() {
    let s1 = "long string";
    let s2 = "short";
    let result = longest(s1, s2);
    assert_eq!(result, "long string");
}

#[test]
fn test_longest_equal_length() {
    let s1 = "abcd";
    let s2 = "xyz0";
    let result = longest(s1, s2);
    assert_eq!(result, "xyz0");
}

#[test]
fn test_longest_with_owned_strings() {
    let s1 = String::from("hello world");
    let s2 = String::from("hi");
    let result = longest(s1.as_str(), s2.as_str());
    assert_eq!(result, "hello world");
}

#[test]
fn test_lifetime_constraint() {
    let s1 = String::from("long string");
    let result;
    {
        let s2 = String::from("x");
        result = longest(s1.as_str(), s2.as_str());
        assert_eq!(result, "long string");
    }
}

#[test]
fn longest_counts_bytes_not_characters() {
    let wide = "中中";
    let narrow = "abcde";
    assert_eq!(longest(wide, narrow), wide);
}

#[test]
fn test_text_holder_basic() {
    let text = "hello world";
    let holder = TextHolder::new(text);
    assert_eq!(holder.get_text(), "hello world");
}

#[test]
fn test_text_holder_with_owned_string() {
    let text = String::from("owned string content");
    let holder = TextHolder::new(&text);
    assert_eq!(holder.get_text(), "owned string content");
}

#[test]
fn test_text_holder_lifetime_constraint() {
    let text = String::from("long lived");
    let holder = TextHolder::new(&text);
    assert_eq!(holder.get_text(), "long lived");
}

#[test]
fn test_text_holder_update_reference() {
    let mut text = "first text".to_string();
    let mut holder = TextHolder::new(&text);
    assert_eq!(holder.get_text(), "first text");
    text = "second text".to_string();
    holder = TextHolder::new(&text);
    assert_eq!(holder.get_text(), "second text");
}

#[test]
fn test_first_word_basic() {
    let s = "hello world";
    assert_eq!(first_word(s), "hello");
}

#[test]
fn test_first_word_multiple_spaces() {
    let s = "hello   world   rust";
    assert_eq!(first_word(s), "hello");
}

#[test]
fn test_first_word_no_space() {
    let s = "hello";
    assert_eq!(first_word(s), "hello");
}

#[test]
fn test_first_word_empty_string() {
    let s = "";
    assert_eq!(first_word(s), "");
}

#[test]
fn test_first_word_leading_space() {
    let s = "  hello";
    assert_eq!(first_word(s), "");
}

#[test]
fn test_first_word_returns_reference_to_original() {
    let s = String::from("hello world");
    let word = first_word(&s);
    assert_eq!(word, "hello");
}

#[test]
fn first_word_stops_only_at_spaces() {
    assert_eq!(first_word("tab\tseparated words"), "tab\tseparated");
    assert_eq!(first_word("中文 词"), "中文");
}
