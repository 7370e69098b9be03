//! Tokens of a string, one call at a time, in the manner of POSIX `strtok`.

use vstd::prelude::*;
use vstd::string::{StrSliceExecFns, StringExecFns};

verus! {

/// What separates tokens.
pub trait Delimiter {
    /// The length of the separator that starts at position `at` of `text`, or
    /// zero if none starts there.
    spec fn sep_len(&self, text: Seq<char>, at: int) -> nat;

    /// Whether the delimiter can be used: a separator that matches is never
    /// empty.
    spec fn usable(&self) -> bool;

    /// A separator that starts at `at` ends inside the text.
    proof fn lemma_sep_fits(&self, text: Seq<char>, at: int)
        requires
            0 <= at <= text.len(),
        ensures
            at + self.sep_len(text, at) <= text.len(),
    ;

    /// Computes [`Delimiter::sep_len`].
    fn separator_at(&self, text: &str, at: usize) -> (len: usize)
        requires
            self.usable(),
            at <= text@.len(),
        ensures
            len == self.sep_len(text@, at as int),
    ;
}

impl Delimiter for char {
    open spec fn sep_len(&self, text: Seq<char>, at: int) -> nat {
        if 0 <= at < text.len() && text[at] == *self {
            1
        } else {
            0
        }
    }

    open spec fn usable(&self) -> bool {
        true
    }

    proof fn lemma_sep_fits(&self, text: Seq<char>, at: int) {
    }

    fn separator_at(&self, text: &str, at: usize) -> (len: usize) {
        if at < text.unicode_len() && text.get_char(at) == *self {
            1
        } else {
            0
        }
    }
}

impl<'d> Delimiter for &'d [char] {
    open spec fn sep_len(&self, text: Seq<char>, at: int) -> nat {
        if 0 <= at < text.len() && self@.contains(text[at]) {
            1
        } else {
            0
        }
    }

    open spec fn usable(&self) -> bool {
        true
    }

    proof fn lemma_sep_fits(&self, text: Seq<char>, at: int) {
    }

    fn separator_at(&self, text: &str, at: usize) -> (len: usize) {
        if at >= text.unicode_len() {
            return 0;
        }
        let c = text.get_char(at);
        let mut k: usize = 0;
        while k < self.len()
            invariant
                k <= self@.len(),
                at < text@.len(),
                c == text@[at as int],
                forall|i: int| 0 <= i < k ==> self@[i] != c,
            decreases self@.len() - k,
        {
            if self[k] == c {
                assert(self@.contains(c));
                return 1;
            }
            k = k + 1;
        }
        0
    }
}

impl<'d> Delimiter for &'d str {
    open spec fn sep_len(&self, text: Seq<char>, at: int) -> nat {
        if 0 <= at && at + self@.len() <= text.len() && text.subrange(
            at,
            at + self@.len(),
        ) == self@ {
            self@.len()
        } else {
            0
        }
    }

    open spec fn usable(&self) -> bool {
        self@.len() > 0
    }

    proof fn lemma_sep_fits(&self, text: Seq<char>, at: int) {
    }

    fn separator_at(&self, text: &str, at: usize) -> (len: usize) {
        let n = text.unicode_len();
        let m = self.unicode_len();
        if m > n - at {
            return 0;
        }
        let mut k: usize = 0;
        while k < m
            invariant
                k <= m,
                m == self@.len(),
                n == text@.len(),
                at + m <= n,
                forall|i: int| 0 <= i < k ==> text@[at + i] == self@[i],
            decreases m - k,
        {
            if text.get_char(at + k) != self.get_char(k) {
                assert(text@.subrange(at as int, at + m)[k as int] != self@[k as int]);
                return 0;
            }
            k = k + 1;
        }
        assert(text@.subrange(at as int, at + m) =~= self@);
        m
    }
}

/// The first position at or after `at` where no separator starts, stepping
/// over each separator on the way.
pub open spec fn skip_separators<D: Delimiter>(delim: D, text: Seq<char>, at: int) -> int
    decreases text.len() - at,
{
    if 0 <= at < text.len() && delim.sep_len(text, at) > 0 && at + delim.sep_len(text, at)
        <= text.len() {
        skip_separators(delim, text, at + delim.sep_len(text, at))
    } else {
        at
    }
}

/// The first position at or after `at` where a separator starts, or the end of
/// the text.
pub open spec fn token_end<D: Delimiter>(delim: D, text: Seq<char>, at: int) -> int
    decreases text.len() - at,
{
    if 0 <= at < text.len() && delim.sep_len(text, at) == 0 {
        token_end(delim, text, at + 1)
    } else {
        at
    }
}

/// Where the first token of `text` starts: behind the leading separators.
pub open spec fn first_token_start<D: Delimiter>(delim: D, text: Seq<char>) -> int {
    skip_separators(delim, text, 0)
}

/// The first token of `text` that is not empty, if there is one.
pub open spec fn first_token<D: Delimiter>(delim: D, text: Seq<char>) -> Option<Seq<char>> {
    let start = first_token_start(delim, text);
    if start >= text.len() {
        None
    } else {
        Some(text.subrange(start, token_end(delim, text, start)))
    }
}

/// What is left of `text` behind its first token and the separator that ends
/// it. Where there is no token, all of `text` is left.
pub open spec fn after_first_token<D: Delimiter>(delim: D, text: Seq<char>) -> Seq<char> {
    let start = first_token_start(delim, text);
    if start >= text.len() {
        text
    } else {
        let end = token_end(delim, text, start);
        text.skip(end + delim.sep_len(text, end))
    }
}

/// Both scans stay inside the text.
pub proof fn lemma_scans_stay_inside<D: Delimiter>(delim: D, text: Seq<char>, at: int)
    requires
        0 <= at <= text.len(),
    ensures
        at <= skip_separators(delim, text, at) <= text.len(),
        at <= token_end(delim, text, at) <= text.len(),
    decreases text.len() - at,
{
    if at < text.len() {
        if delim.sep_len(text, at) > 0 {
            delim.lemma_sep_fits(text, at);
            lemma_scans_stay_inside(delim, text, at + delim.sep_len(text, at));
        } else {
            lemma_scans_stay_inside(delim, text, at + 1);
        }
    }
}

/// Where the scan over separators stops inside the text, no separator
/// starts.
pub proof fn lemma_skip_stops_at_token<D: Delimiter>(delim: D, text: Seq<char>, at: int)
    requires
        0 <= at <= text.len(),
    ensures
        skip_separators(delim, text, at) < text.len() ==> delim.sep_len(
            text,
            skip_separators(delim, text, at),
        ) == 0,
    decreases text.len() - at,
{
    if at < text.len() && delim.sep_len(text, at) > 0 {
        delim.lemma_sep_fits(text, at);
        lemma_skip_stops_at_token(delim, text, at + delim.sep_len(text, at));
    }
}

/// Taking a token away leaves less than there was.
pub proof fn lemma_token_shortens<D: Delimiter>(delim: D, text: Seq<char>)
    requires
        first_token(delim, text) is Some,
    ensures
        after_first_token(delim, text).len() < text.len(),
        first_token(delim, text)->0.len() > 0,
{
    let start = first_token_start(delim, text);
    lemma_scans_stay_inside(delim, text, 0);
    lemma_skip_stops_at_token(delim, text, 0);
    lemma_scans_stay_inside(delim, text, start + 1);
    let end = token_end(delim, text, start);
    delim.lemma_sep_fits(text, end);
}

/// All the tokens of `text` that are not empty, in order.
pub open spec fn tokens<D: Delimiter>(delim: D, text: Seq<char>) -> Seq<Seq<char>>
    decreases text.len(),
{
    match first_token(delim, text) {
        None => Seq::empty(),
        Some(token) => {
            proof {
                lemma_token_shortens(delim, text);
            }
            seq![token] + tokens(delim, after_first_token(delim, text))
        },
    }
}

/// Extracts the next token from `text`, according to `delim`.
///
/// Leading separators are stepped over. If a token follows, it is returned
/// and `text` is left at what comes behind the separator that ends the token.
/// If nothing but separators is left, the result is `None` and `text` stays as
/// it is.
pub fn strtok<'a, D: Delimiter>(text: &mut &'a str, delim: D) -> (token: Option<&'a str>)
    requires
        delim.usable(),
    ensures
        match token {
            Some(t) => Some(t@) == first_token(delim, old(text)@) && t@.len() > 0,
            None => first_token(delim, old(text)@) is None,
        },
        final(text)@ == after_first_token(delim, old(text)@),
{
    let whole: &'a str = *text;
    let n = whole.unicode_len();
    let mut start: usize = 0;
    loop
        invariant_except_break
            start <= n,
            n == whole@.len(),
            delim.usable(),
            skip_separators(delim, whole@, 0) == skip_separators(delim, whole@, start as int),
        ensures
            start <= n,
            start == skip_separators(delim, whole@, 0),
            start < n ==> delim.sep_len(whole@, start as int) == 0,
        decreases n - start,
    {
        if start >= n {
            break ;
        }
        let len = delim.separator_at(whole, start);
        if len == 0 {
            break ;
        }
        proof {
            delim.lemma_sep_fits(whole@, start as int);
        }
        start = start + len;
    }
    if start >= n {
        return None;
    }
    let mut end: usize = start;
    let mut sep: usize = 0;
    loop
        invariant_except_break
            start <= end <= n,
            n == whole@.len(),
            delim.usable(),
            token_end(delim, whole@, start as int) == token_end(delim, whole@, end as int),
        ensures
            start <= end <= n,
            end == token_end(delim, whole@, start as int),
            sep == delim.sep_len(whole@, end as int),
            end + sep <= n,
        decreases n - end,
    {
        if end >= n {
            sep = delim.separator_at(whole, end);
            proof {
                delim.lemma_sep_fits(whole@, end as int);
            }
            break ;
        }
        sep = delim.separator_at(whole, end);
        if sep > 0 {
            proof {
                delim.lemma_sep_fits(whole@, end as int);
            }
            break ;
        }
        end = end + 1;
    }
    assert(end > start) by {
        lemma_scans_stay_inside(delim, whole@, start + 1);
    }
    let token = whole.substring_char(start, end);
    *text = whole.substring_char(end + sep, n);
    Some(token)
}

/// A variant whose one lifetime ties the string to the borrow of it: the
/// caller cannot use the string again while the result lives, which makes the
/// function of no use. It finds nothing and leaves `text` as it is.
#[allow(dead_code)]
pub fn unusable_strtok<'u, D: Delimiter>(text: &'u mut &'u str, delim: D) -> (token: Option<
    &'u str,
>)
    ensures
        token is None,
        final(text)@ == old(text)@,
{
    None
}

/// Why the variant is of no use: `input` stays borrowed for as long as the
/// string lives, so nothing can be done with it after the call.
#[allow(dead_code)]
#[allow(unused_variables)]
pub fn would_not_compile() {
    let string = String::from_str("Hello World");

    let mut input = string.as_str();

    {
        let token = unusable_strtok(&mut input, ' ');
    }
}

} // verus!
