use snippets::strtok::{strtok, unusable_strtok, would_not_compile};

#[test]
fn works_with_char_delim() {
    let mut input = "Hello World";
    let delim = " ";

    assert_eq!(strtok(&mut input, delim), Some("Hello"));
    assert_eq!(strtok(&mut input, delim), Some("World"));
    assert_eq!(strtok(&mut input, delim), None);

    assert_eq!(input, "");
}

#[test]
fn works_with_char_slice() {
    let mut input = "Hello, World!";
    let delim = [' ', ',', '!'].as_ref();

    assert_eq!(strtok(&mut input, delim), Some("Hello"));
    assert_eq!(strtok(&mut input, delim), Some("World"));
    assert_eq!(strtok(&mut input, delim), None);

    assert_eq!(input, "");
}

#[test]
fn works_with_a_single_char() {
    let mut input = "--a--bc-";
    assert_eq!(strtok(&mut input, '-'), Some("a"));
    assert_eq!(input, "-bc-");
    assert_eq!(strtok(&mut input, '-'), Some("bc"));
    assert_eq!(input, "");
    assert_eq!(strtok(&mut input, '-'), None);
}

#[test]
fn leaves_the_text_alone_when_only_separators_are_left() {
    let mut input = ", ,";
    let delim = [' ', ','].as_ref();
    assert_eq!(strtok(&mut input, delim), None);
    assert_eq!(input, ", ,");
}

#[test]
fn takes_a_separator_of_several_characters() {
    let mut input = "one<>two<><>three<";
    assert_eq!(strtok(&mut input, "<>"), Some("one"));
    assert_eq!(input, "two<><>three<");
    assert_eq!(strtok(&mut input, "<>"), Some("two"));
    assert_eq!(input, "<>three<");
    assert_eq!(strtok(&mut input, "<>"), Some("three<"));
    assert_eq!(input, "");
}

#[test]
fn counts_characters_not_bytes() {
    let mut input = "grüße an ßie";
    assert_eq!(strtok(&mut input, "ß"), Some("grü"));
    assert_eq!(input, "e an ßie");
}

#[test]
fn unusable_strtok_finds_nothing() {
    let mut input = "Hello World";
    assert_eq!(unusable_strtok(&mut input, ' '), None);
    would_not_compile();
}
