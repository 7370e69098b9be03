use snippets::greeting::greeting;
use std::collections::HashSet;

#[test]
fn starts_with() {
    assert!("foo bar baz".starts_with("foo"));
}

#[test]
fn case_insensitive_equality() {
    assert!("Β".to_lowercase() == "β");
}

#[test]
fn ascii_insensitive_equality() {
    assert!("Foo".eq_ignore_ascii_case("foo"));
}

#[test]
fn is_one_of_some_alternatives() {
    assert!(["foo", "bar", "baz"].iter().any(|&x| x == "bar"));
}

#[test]
fn is_one_of_many_alternatives() {
    let allowlist: HashSet<&str> = vec!["foo", "bar", "baz"].into_iter().collect();

    assert!(allowlist.contains("bar"));
}

#[test]
fn contains() {
    assert!("foo bar baz".contains("bar"));
}

#[test]
fn find() {
    assert_eq!("foo bar baz".find("bar"), Some(4));
}

#[test]
fn join() {
    assert_eq!(["foo", "bar", "baz"].join(" "), "foo bar baz");
}

#[test]
fn check_for_digits() {
    let s = "123";
    assert_eq!(s.chars().next().map(|x| x.is_digit(10)), Some(true));

    let s = "123foo";
    assert_eq!(
        s.chars().filter(|x| x.is_digit(10)).collect::<Vec<_>>(),
        ['1', '2', '3']
    );
}

#[test]
fn with_tokio_block_on() {
    assert_eq!(greeting("tokio_test"), "Hello, tokio_test!");
}

#[test]
fn greets_the_empty_name() {
    assert_eq!(greeting(""), "Hello, !");
}
