use snippets::zipf::{find_words, rank_frequencies};

fn frequencies(words: Vec<&str>) -> Vec<(String, f64)> {
    let (ranking, total) = rank_frequencies(&words);
    ranking
        .into_iter()
        .map(|(word, count)| (word, count as f64 / total as f64))
        .collect()
}

#[test]
fn computes_ranked_frequencies() {
    let words = vec!["foo", "bar", "caz", "caz", "caz", "bar"];
    assert_eq!(
        frequencies(words),
        vec![
            (String::from("caz"), 3. / 6.),
            (String::from("bar"), 2. / 6.),
            (String::from("foo"), 1. / 6.)
        ]
    );
}

#[test]
fn ranks_and_computes_frequencies_of_owned_strings() {
    let words = vec![String::from("foo"), String::from("bar")];
    assert_eq!(
        frequencies(words.iter().map(|w| w.as_str()).collect()),
        vec![(String::from("bar"), 0.5), (String::from("foo"), 0.5)]
    );
}

#[test]
fn main_smoke_test() {
    let input = "foo bar. caz caz, caz'bar";
    let words = find_words(input);
    let freqs = frequencies(words);

    assert_eq!(
        freqs,
        vec![
            (String::from("caz"), 3. / 6.),
            (String::from("bar"), 2. / 6.),
            (String::from("foo"), 1. / 6.)
        ]
    );
}

#[test]
fn counts_words_in_lower_case() {
    let (ranking, total) = rank_frequencies(&vec!["Foo", "foo", "FOO", "Bar", "ÄH", "äh"]);
    assert_eq!(total, 6);
    assert_eq!(
        ranking,
        vec![(String::from("foo"), 3), (String::from("äh"), 2), (String::from("bar"), 1)]
    );
    assert_eq!(rank_frequencies(&vec![]), (vec![], 0));
}

#[test]
fn ties_go_by_the_dictionary() {
    let (ranking, _) = rank_frequencies(&vec!["b", "ab", "a", "c", "abc", "c"]);
    let order: Vec<&str> = ranking.iter().map(|(word, _)| word.as_str()).collect();
    assert_eq!(order, vec!["c", "a", "ab", "abc", "b"]);
}
