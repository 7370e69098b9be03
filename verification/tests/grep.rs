use snippets::grep::{
    exit_after, grep_impl, pretty_name, Config, Searched, EXIT_ERROR, EXIT_NONE_SELECTED, EXIT_OK,
};

fn lines_of(text: &str) -> Vec<String> {
    text.lines().map(String::from).collect()
}

#[test]
fn matches() {
    let test_string = "foo\nbar\nbaz";
    assert_eq!(
        grep_impl("bar", &lines_of(test_string)),
        vec![(2, String::from("bar"))]
    );
    assert_eq!(
        grep_impl("ba", &lines_of(test_string)),
        vec![(2, String::from("bar")), (3, String::from("baz"))]
    );
}

#[test]
fn no_matches() {
    let test_string = "foo\nbar\nbaz";
    assert_eq!(grep_impl("abc", &lines_of(test_string)), vec![]);
}

#[test]
fn empty_pattern_selects_every_line() {
    assert_eq!(
        grep_impl("", &lines_of("a\n\nb")),
        vec![(1, String::from("a")), (2, String::new()), (3, String::from("b"))]
    );
}

#[test]
fn config_takes_alias_pattern_and_files() {
    let args = vec!["minigrep", "needle", "a.txt", "b.txt"];
    let config = Config::from_args(args.into_iter().map(String::from).collect()).unwrap();
    assert_eq!(config.program_alias, "minigrep");
    assert_eq!(config.pattern, "needle");
    assert_eq!(config.filenames, vec!["a.txt", "b.txt"]);
}

#[test]
fn config_defaults_to_standard_input() {
    let args = vec![String::from("minigrep"), String::from("needle")];
    let config = Config::from_args(args).unwrap();
    assert_eq!(config.filenames, vec!["-"]);
}

#[test]
fn config_needs_a_pattern() {
    assert!(Config::from_args(vec![]).is_none());
    assert!(Config::from_args(vec![String::from("minigrep")]).is_none());
}

#[test]
fn exit_status_remembers_errors_and_selections() {
    assert_eq!(exit_after(EXIT_NONE_SELECTED, Searched::Lines(0)), EXIT_NONE_SELECTED);
    assert_eq!(exit_after(EXIT_NONE_SELECTED, Searched::Lines(3)), EXIT_OK);
    assert_eq!(exit_after(EXIT_OK, Searched::Lines(0)), EXIT_OK);
    assert_eq!(exit_after(EXIT_OK, Searched::Failed), EXIT_ERROR);
    assert_eq!(exit_after(EXIT_ERROR, Searched::Lines(3)), EXIT_ERROR);
    assert_eq!(pretty_name("-"), "(standard input)");
    assert_eq!(pretty_name("a.txt"), "a.txt");
}
