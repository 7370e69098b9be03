//! The words of a text, to be counted and ranked by how often they occur.

use vstd::prelude::*;
use vstd::string::StrSliceExecFns;
use crate::strtok::{lemma_token_shortens, strtok, tokens, Delimiter};

verus! {

/// Whether `c` is alphanumeric, as `char::is_alphanumeric` of std has it.
pub uninterp spec fn alphanumeric(c: char) -> bool;

/// `char::is_alphanumeric` of std: whether the character is a letter or a
/// number of Unicode.
#[verifier::external_body]
fn is_alphanumeric(c: char) -> (yes: bool)
    ensures
        yes == alphanumeric(c),
{
    c.is_alphanumeric()
}

/// The delimiter between words: any one character that is not alphanumeric.
#[derive(Clone, Copy, Debug)]
pub struct NotAlphanumeric;

impl Delimiter for NotAlphanumeric {
    open spec fn sep_len(&self, text: Seq<char>, at: int) -> nat {
        if 0 <= at < text.len() && !alphanumeric(text[at]) {
            1
        } else {
            0
        }
    }

    open spec fn usable(&self) -> bool {
        true
    }

    proof fn lemma_sep_fits(&self, text: Seq<char>, at: int) {
    }

    fn separator_at(&self, text: &str, at: usize) -> (len: usize) {
        if at < text.unicode_len() && !is_alphanumeric(text.get_char(at)) {
            1
        } else {
            0
        }
    }
}

/// The characters of each of `words`.
pub open spec fn spelled(words: Seq<&str>) -> Seq<Seq<char>> {
    Seq::new(words.len(), |i: int| words[i]@)
}

/// The words of `input`: its longest runs of alphanumeric characters, in
/// order.
pub fn find_words<'a>(input: &'a str) -> (words: Vec<&'a str>)
    ensures
        spelled(words@) == tokens(NotAlphanumeric, input@),
{
    let mut words: Vec<&'a str> = Vec::new();
    let mut rest: &'a str = input;
    loop
        invariant_except_break
            spelled(words@) + tokens(NotAlphanumeric, rest@) =~= tokens(NotAlphanumeric, input@),
        ensures
            spelled(words@) =~= tokens(NotAlphanumeric, input@),
        decreases rest@.len(),
    {
        let ghost before = rest@;
        let ghost listed = spelled(words@);
        match strtok(&mut rest, NotAlphanumeric) {
            None => {
                break ;
            },
            Some(word) => {
                proof {
                    lemma_token_shortens(NotAlphanumeric, before);
                }
                words.push(word);
                assert(spelled(words@) =~= listed.push(word@));
            },
        }
    }
    words
}

/// The lower-case form of a string, as `str::to_lowercase` of std has it.
pub uninterp spec fn lowercase(word: Seq<char>) -> Seq<char>;

/// `str::to_lowercase` of std: the lower-case equivalent of the string, as a
/// new string.
#[verifier::external_body]
fn to_lowercase(word: &str) -> (lower: String)
    ensures
        lower@ == lowercase(word@),
{
    word.to_lowercase()
}

/// Whether `a` comes before `b` in the order of the dictionary, character by
/// character in the order of their code points.
pub open spec fn comes_before(a: Seq<char>, b: Seq<char>) -> bool
    decreases a.len(),
{
    if b.len() == 0 {
        false
    } else if a.len() == 0 {
        true
    } else if a[0] != b[0] {
        (a[0] as u32) < (b[0] as u32)
    } else {
        comes_before(a.skip(1), b.skip(1))
    }
}

/// `<` of std on `str`, which orders strings lexicographically by their
/// bytes, and with that by the code points of their characters.
#[verifier::external_body]
fn str_less(a: &str, b: &str) -> (less: bool)
    ensures
        less == comes_before(a@, b@),
{
    a < b
}

/// A word and how often it was counted.
pub type Count = (Seq<char>, nat);

/// The first position from `from` on at which `entries` holds `word`, or the
/// length of `entries`.
pub open spec fn position(entries: Seq<Count>, word: Seq<char>, from: int) -> int
    decreases entries.len() - from,
{
    if from < 0 || from >= entries.len() {
        entries.len() as int
    } else if entries[from].0 == word {
        from
    } else {
        position(entries, word, from + 1)
    }
}

/// The counts after one more occurrence of `word`: its count goes up by one,
/// or it joins the list with a count of one.
pub open spec fn bump(entries: Seq<Count>, word: Seq<char>) -> Seq<Count> {
    let p = position(entries, word, 0);
    if p < entries.len() {
        entries.update(p, (word, entries[p].1 + 1))
    } else {
        entries.push((word, 1nat))
    }
}

/// The counts of the first `upto` of `words`, in lower case, each word where
/// it came first.
pub open spec fn tally(words: Seq<Seq<char>>, upto: int) -> Seq<Count>
    decreases upto,
{
    if upto <= 0 {
        Seq::empty()
    } else {
        bump(tally(words, upto - 1), lowercase(words[upto - 1]))
    }
}

/// Whether `a` ranks before `b`: the word counted more often first, and of
/// two counted as often the one that comes first in the dictionary.
pub open spec fn ranks_before(a: Count, b: Count) -> bool {
    a.1 > b.1 || (a.1 == b.1 && comes_before(a.0, b.0))
}

/// Whether no word stands twice in `entries`.
pub open spec fn distinct_words(entries: Seq<Count>) -> bool {
    forall|i: int, j: int|
        0 <= i < j < entries.len() ==> (#[trigger] entries[i]).0 != (#[trigger] entries[j]).0
}

/// Whether `entries` stand in the order of their ranks.
pub open spec fn ranked(entries: Seq<Count>) -> bool {
    forall|i: int, j: int|
        0 <= i < j < entries.len() ==> ranks_before(#[trigger] entries[i], #[trigger] entries[j])
}

/// Counts as plain values.
pub open spec fn counts(entries: Seq<(String, usize)>) -> Seq<Count> {
    Seq::new(entries.len(), |i: int| (entries[i].0@, entries[i].1 as nat))
}

/// Of two different words one comes before the other, and never both.
pub proof fn lemma_dictionary_is_total(a: Seq<char>, b: Seq<char>)
    ensures
        a != b ==> (comes_before(a, b) || comes_before(b, a)),
        !(comes_before(a, b) && comes_before(b, a)),
        !comes_before(a, a),
    decreases a.len(),
{
    if a.len() > 0 && b.len() > 0 {
        if a[0] != b[0] {
            vstd::utf8::char_u32_cast(a[0], a[0] as u32);
            vstd::utf8::char_u32_cast(b[0], b[0] as u32);
        }
        if a[0] == b[0] {
            lemma_dictionary_is_total(a.skip(1), b.skip(1));
            if a.skip(1) == b.skip(1) {
                assert(a =~= seq![a[0]] + a.skip(1));
                assert(b =~= seq![b[0]] + b.skip(1));
            }
        }
    } else if a.len() == 0 && b.len() == 0 {
        assert(a =~= b);
    }
    if a.len() > 0 {
        lemma_dictionary_is_total(a.skip(1), a.skip(1));
    }
}

/// The order of the dictionary is transitive.
pub proof fn lemma_dictionary_is_transitive(a: Seq<char>, b: Seq<char>, c: Seq<char>)
    requires
        comes_before(a, b),
        comes_before(b, c),
    ensures
        comes_before(a, c),
    decreases a.len(),
{
    if a.len() > 0 && a[0] == b[0] && b[0] == c[0] {
        lemma_dictionary_is_transitive(a.skip(1), b.skip(1), c.skip(1));
    }
}

/// The order of the ranks is transitive, and of two entries with different
/// words one ranks before the other.
pub proof fn lemma_ranks_are_ordered(a: Count, b: Count, c: Count)
    ensures
        ranks_before(a, b) && ranks_before(b, c) ==> ranks_before(a, c),
        a.0 != b.0 ==> ranks_before(a, b) || ranks_before(b, a),
        !(ranks_before(a, b) && ranks_before(b, a)),
{
    lemma_dictionary_is_total(a.0, b.0);
    if ranks_before(a, b) && ranks_before(b, c) && a.1 == b.1 && b.1 == c.1 {
        lemma_dictionary_is_transitive(a.0, b.0, c.0);
    }
}

/// Counting one more word keeps the words distinct and no count above the
/// number of words counted.
proof fn lemma_bump_keeps_order(entries: Seq<Count>, word: Seq<char>, bound: nat)
    requires
        distinct_words(entries),
        forall|i: int| 0 <= i < entries.len() ==> (#[trigger] entries[i]).1 <= bound,
    ensures
        distinct_words(bump(entries, word)),
        forall|i: int|
            0 <= i < bump(entries, word).len() ==> (#[trigger] bump(entries, word)[i]).1 <= bound
                + 1,
{
    lemma_position(entries, word, 0);
    let p = position(entries, word, 0);
    let after = bump(entries, word);
    assert forall|i: int, j: int| 0 <= i < j < after.len() implies (#[trigger] after[i]).0 != (
    #[trigger] after[j]).0 by {
        if p < entries.len() {
            assert(after[i].0 == entries[i].0);
            assert(after[j].0 == entries[j].0);
        } else if j == entries.len() {
            assert(after[i] == entries[i]);
        } else {
            assert(after[i] == entries[i]);
            assert(after[j] == entries[j]);
        }
    }
}

/// What [`position`] finds: the first entry of the word, or nothing where the
/// word has no entry.
proof fn lemma_position(entries: Seq<Count>, word: Seq<char>, from: int)
    requires
        0 <= from <= entries.len(),
    ensures
        from <= position(entries, word, from) <= entries.len(),
        position(entries, word, from) < entries.len() ==> entries[position(
            entries,
            word,
            from,
        )].0 == word,
        forall|i: int| from <= i < position(entries, word, from) ==> (#[trigger] entries[i]).0
            != word,
    decreases entries.len() - from,
{
    if from < entries.len() && entries[from].0 != word {
        lemma_position(entries, word, from + 1);
    }
}

/// Counts one more occurrence of `word`.
fn count_word(entries: &mut Vec<(String, usize)>, word: String)
    requires
        forall|i: int| 0 <= i < old(entries)@.len() ==> (#[trigger] old(entries)@[i]).1 < usize::MAX,
    ensures
        counts(final(entries)@) == bump(counts(old(entries)@), word@),
{
    let ghost before = counts(entries@);
    let mut p: usize = 0;
    while p < entries.len()
        invariant
            p <= entries@.len(),
            entries@ == old(entries)@,
            forall|i: int| 0 <= i < entries@.len() ==> (#[trigger] entries@[i]).1 < usize::MAX,
            position(before, word@, 0) == position(before, word@, p as int),
            before == counts(entries@),
        decreases entries@.len() - p,
    {
        if entries[p].0 == word {
            let count = entries[p].1;
            entries[p].1 = count + 1;
            proof {
                assert(counts(entries@) =~= bump(before, word@));
            }
            return ;
        }
        p = p + 1;
    }
    entries.push((word, 1));
    proof {
        assert(counts(entries@) =~= bump(before, word@));
    }
}

/// The position in `rest`, which is not empty, of the entry that ranks
/// before all the others.
fn first_in_rank(rest: &Vec<(String, usize)>) -> (best: usize)
    requires
        rest@.len() > 0,
        distinct_words(counts(rest@)),
    ensures
        best < rest@.len(),
        forall|k: int|
            0 <= k < rest@.len() && k != best ==> ranks_before(
                counts(rest@)[best as int],
                #[trigger] counts(rest@)[k],
            ),
{
    let ghost all = counts(rest@);
    let mut best: usize = 0;
    let mut k: usize = 1;
    while k < rest.len()
        invariant
            1 <= k <= rest@.len(),
            best < k,
            all == counts(rest@),
            distinct_words(all),
            forall|i: int| 0 <= i < k && i != best ==> ranks_before(all[best as int], #[trigger] all[i]),
        decreases rest@.len() - k,
    {
        let more = rest[k].1 > rest[best].1;
        let tied = rest[k].1 == rest[best].1;
        let earlier = tied && str_less(rest[k].0.as_str(), rest[best].0.as_str());
        proof {
            assert(all[k as int].0 != all[best as int].0);
            lemma_ranks_are_ordered(all[k as int], all[best as int], all[0]);
        }
        if more || earlier {
            proof {
                assert forall|i: int| 0 <= i < k + 1 && i != k implies ranks_before(
                    all[k as int],
                    #[trigger] all[i],
                ) by {
                    lemma_ranks_are_ordered(all[k as int], all[best as int], all[i]);
                }
            }
            best = k;
        }
        k = k + 1;
    }
    best
}

/// Counts the words, in lower case, and ranks them: the word counted most
/// often first, and words counted as often in the order of the dictionary.
/// The second result is the number of words counted, by which a count turns
/// into a frequency.
pub fn rank_frequencies(words: &Vec<&str>) -> (result: (Vec<(String, usize)>, usize))
    ensures
        result.1 == words@.len(),
        ranked(counts(result.0@)),
        counts(result.0@).len() == tally(spelled(words@), words@.len() as int).len(),
        forall|entry: Count| #[trigger]
            counts(result.0@).contains(entry) <==> tally(
                spelled(words@),
                words@.len() as int,
            ).contains(entry),
{
    let ghost spelling = spelled(words@);
    let mut counted: Vec<(String, usize)> = Vec::new();
    let mut i: usize = 0;
    while i < words.len()
        invariant
            i <= words@.len(),
            spelling == spelled(words@),
            counts(counted@) == tally(spelling, i as int),
            distinct_words(counts(counted@)),
            forall|k: int| 0 <= k < counted@.len() ==> (#[trigger] counts(counted@)[k]).1 <= i,
        decreases words@.len() - i,
    {
        proof {
            lemma_bump_keeps_order(counts(counted@), lowercase(spelling[i as int]), i as nat);
            assert forall|k: int| 0 <= k < counted@.len() implies (#[trigger] counted@[k]).1
                < usize::MAX by {
                assert(counts(counted@)[k].1 <= i);
            }
        }
        let lower = to_lowercase(words[i]);
        count_word(&mut counted, lower);
        i = i + 1;
    }
    let ghost whole = counts(counted@);
    let mut rest = counted;
    let mut ranking: Vec<(String, usize)> = Vec::new();
    while rest.len() > 0
        invariant
            distinct_words(counts(rest@)),
            ranked(counts(ranking@)),
            counts(ranking@).len() + counts(rest@).len() == whole.len(),
            forall|r: int, k: int|
                0 <= r < ranking@.len() && 0 <= k < rest@.len() ==> ranks_before(
                    #[trigger] counts(ranking@)[r],
                    #[trigger] counts(rest@)[k],
                ),
            forall|entry: Count|
                (counts(ranking@).contains(entry) || counts(rest@).contains(entry))
                    <==> #[trigger] whole.contains(entry),
        decreases rest@.len(),
    {
        let best = first_in_rank(&rest);
        let ghost old_rest = counts(rest@);
        let ghost old_ranking = counts(ranking@);
        let taken = rest.remove(best);
        ranking.push(taken);
        proof {
            let b = best as int;
            assert(counts(rest@) =~= old_rest.remove(b));
            assert(counts(ranking@) =~= old_ranking.push(old_rest[b]));
            assert forall|entry: Count|
                (counts(ranking@).contains(entry) || counts(rest@).contains(entry))
                    <==> #[trigger] whole.contains(entry) by {
                if counts(ranking@).contains(entry) {
                    let r = choose|r: int|
                        0 <= r < counts(ranking@).len() && counts(ranking@)[r] == entry;
                    if r < old_ranking.len() {
                        assert(old_ranking[r] == entry);
                        assert(old_ranking.contains(entry));
                    } else {
                        assert(old_rest.contains(entry));
                    }
                }
                if counts(rest@).contains(entry) {
                    let k = choose|k: int| 0 <= k < counts(rest@).len() && counts(rest@)[k] == entry;
                    if k < b {
                        assert(old_rest[k] == entry);
                    } else {
                        assert(old_rest[k + 1] == entry);
                    }
                    assert(old_rest.contains(entry));
                }
                if whole.contains(entry) {
                    if old_ranking.contains(entry) {
                        let r = choose|r: int| 0 <= r < old_ranking.len() && old_ranking[r] == entry;
                        assert(counts(ranking@)[r] == entry);
                    } else {
                        let k = choose|k: int| 0 <= k < old_rest.len() && old_rest[k] == entry;
                        if k == b {
                            assert(counts(ranking@)[old_ranking.len() as int] == entry);
                        } else if k < b {
                            assert(counts(rest@)[k] == entry);
                        } else {
                            assert(counts(rest@)[k - 1] == entry);
                        }
                    }
                }
            }
            assert forall|x: int, y: int| 0 <= x < y < counts(rest@).len() implies (
            #[trigger] counts(rest@)[x]).0 != (#[trigger] counts(rest@)[y]).0 by {
                let ox = if x < b { x } else { x + 1 };
                let oy = if y < b { y } else { y + 1 };
                assert(counts(rest@)[x] == old_rest[ox]);
                assert(counts(rest@)[y] == old_rest[oy]);
            }
            assert forall|r: int, k: int|
                0 <= r < ranking@.len() && 0 <= k < rest@.len() implies ranks_before(
                #[trigger] counts(ranking@)[r],
                #[trigger] counts(rest@)[k],
            ) by {
                let ok = if k < b { k } else { k + 1 };
                assert(counts(rest@)[k] == old_rest[ok]);
                if r < old_ranking.len() {
                    assert(counts(ranking@)[r] == old_ranking[r]);
                }
            }
            assert forall|x: int, y: int| 0 <= x < y < counts(ranking@).len() implies ranks_before(
                #[trigger] counts(ranking@)[x],
                #[trigger] counts(ranking@)[y],
            ) by {
                assert(counts(ranking@)[x] == old_ranking[x]);
                if y < old_ranking.len() {
                    assert(counts(ranking@)[y] == old_ranking[y]);
                }
            }
        }
    }
    proof {
        assert forall|entry: Count| #[trigger]
            counts(ranking@).contains(entry) <==> whole.contains(entry) by {
            if counts(rest@).contains(entry) {
                assert(false);
            }
        }
    }
    (ranking, words.len())
}

} // verus!
