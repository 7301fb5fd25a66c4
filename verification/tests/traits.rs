use rustlab::playground::custom_iterator::Counter;
use rustlab::playground::from_into::EmailAddress;

fn collect_all(mut counter: Counter) -> Vec<usize> {
    let mut values = Vec::new();
    while let Some(v) = counter.next() {
        values.push(v);
    }
    values
}

#[test]
fn test_counter_iterates_to_max() {
    let counter = Counter::new(5);
    let values: Vec<usize> = collect_all(counter);
    assert_eq!(values, vec![1, 2, 3, 4, 5]);
}

#[test]
fn test_iterator_with_adapters() {
    let counter = Counter::new(10);

    let sum: usize = collect_all(counter)
        .into_iter()
        .filter(|&x| x % 2 == 0)
        .map(|x| x * x)
        .sum();

    assert_eq!(sum, 4 + 16 + 36 + 64 + 100);
}

#[test]
fn test_empty_counter() {
    let counter = Counter::new(0);
    let values: Vec<usize> = collect_all(counter);
    assert!(values.is_empty());
}

#[test]
fn counter_keeps_answering_none_when_done() {
    let mut counter = Counter::new(1);
    assert_eq!(counter.next(), Some(1));
    assert_eq!(counter.next(), None);
    assert_eq!(counter.next(), None);
    assert_eq!(counter.count, 1);
}

#[test]
fn test_from_string() {
    let s = "user@example.com".to_string();
    let email: EmailAddress = s.into();
    assert_eq!(email.value, "user@example.com");
}

#[test]
fn test_try_from_valid() {
    let email = EmailAddress::try_from("admin@test.org").unwrap();
    assert_eq!(email.value, "admin@test.org");
}

#[test]
fn test_try_from_invalid() {
    let result = EmailAddress::try_from("not-an-email");
    assert!(result.is_err());
}

#[test]
fn try_from_error_text() {
    let result = EmailAddress::try_from("nobody.example.com");
    assert_eq!(result, Err("Invalid email: missing @ symbol".to_string()));
    assert_eq!(EmailAddress::try_from("@"), Ok(EmailAddress { value: "@".to_string() }));
}
