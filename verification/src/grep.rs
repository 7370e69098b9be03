//! The selection behind a small grep: which lines hold the pattern, and what
//! the program makes of its arguments and of its results.

use vstd::prelude::*;
use vstd::string::StringExecFns;
use crate::text::{occurs_in, str_contains, str_equal};

verus! {

/// The exit status when some line was selected.
pub const EXIT_OK: i32 = 0;

/// The exit status when no line was selected.
pub const EXIT_NONE_SELECTED: i32 = 1;

/// The exit status when some file could not be read.
pub const EXIT_ERROR: i32 = 2;

/// What the command line asks for.
#[derive(Debug)]
pub struct Config {
    pub program_alias: String,
    pub pattern: String,
    pub filenames: Vec<String>,
}

/// The characters of each string of `strings`.
pub open spec fn texts(strings: Seq<String>) -> Seq<Seq<char>> {
    Seq::new(strings.len(), |i: int| strings[i]@)
}

impl Config {
    /// Reads the arguments: the name under which the program was called, the
    /// pattern, and the names of the files to search. Where no file is named,
    /// the one file is `-`, the standard input. With less than a pattern
    /// there is no configuration.
    pub fn from_args(args: Vec<String>) -> (config: Option<Config>)
        ensures
            config is Some <==> args@.len() >= 2,
            config matches Some(c) ==> {
                &&& c.program_alias@ == args@[0]@
                &&& c.pattern@ == args@[1]@
                &&& texts(c.filenames@) == if args@.len() > 2 {
                    texts(args@.skip(2))
                } else {
                    seq!["-"@]
                }
            },
    {
        if args.len() < 2 {
            return None;
        }
        let mut filenames: Vec<String> = Vec::new();
        let mut i: usize = 2;
        while i < args.len()
            invariant
                2 <= i <= args@.len(),
                filenames@.len() == i - 2,
                forall|k: int| 0 <= k < filenames@.len() ==> filenames@[k]@ == args@[k + 2]@,
            decreases args@.len() - i,
        {
            filenames.push(args[i].clone());
            i = i + 1;
        }
        if filenames.len() == 0 {
            filenames.push(String::from_str("-"));
        }
        proof {
            if args@.len() > 2 {
                assert(texts(filenames@) =~= texts(args@.skip(2)));
            } else {
                assert(texts(filenames@) =~= seq!["-"@]);
            }
        }
        Some(
            Config { program_alias: args[0].clone(), pattern: args[1].clone(), filenames },
        )
    }
}

/// The lines among the first `upto` of `lines` that hold `pattern`, each with
/// its number, counted from one.
pub open spec fn selected(pattern: Seq<char>, lines: Seq<Seq<char>>, upto: int) -> Seq<
    (int, Seq<char>),
>
    decreases upto,
{
    if upto <= 0 {
        Seq::empty()
    } else {
        let before = selected(pattern, lines, upto - 1);
        if occurs_in(pattern, lines[upto - 1]) {
            before.push((upto, lines[upto - 1]))
        } else {
            before
        }
    }
}

/// A selection as plain values.
pub open spec fn selection(found: Seq<(usize, String)>) -> Seq<(int, Seq<char>)> {
    Seq::new(found.len(), |k: int| (found[k].0 as int, found[k].1@))
}

/// Selects the lines that hold `pattern`, in order, each with its number,
/// counted from one.
pub fn grep_impl(pattern: &str, lines: &Vec<String>) -> (found: Vec<(usize, String)>)
    requires
        lines@.len() < usize::MAX,
    ensures
        selection(found@) == selected(pattern@, texts(lines@), lines@.len() as int),
{
    let mut found: Vec<(usize, String)> = Vec::new();
    let mut i: usize = 0;
    while i < lines.len()
        invariant
            i <= lines@.len() < usize::MAX,
            selection(found@) =~= selected(pattern@, texts(lines@), i as int),
        decreases lines@.len() - i,
    {
        let ghost before = found@;
        if str_contains(lines[i].as_str(), pattern) {
            found.push((i + 1, lines[i].clone()));
            proof {
                assert(selection(found@) =~= selection(before).push((i + 1, lines@[i as int]@)));
            }
        }
        i = i + 1;
    }
    found
}

/// How the search of one file ended.
#[derive(Clone, Copy, Debug, PartialEq, Eq, Structural)]
pub enum Searched {
    /// The file was read and that many lines were selected.
    Lines(usize),
    /// The file could not be read.
    Failed,
}

/// The exit status after one more file, given the status so far. It starts at
/// [`EXIT_NONE_SELECTED`]; the first selection makes it [`EXIT_OK`], and a
/// failure makes it [`EXIT_ERROR`], which stays.
pub fn exit_after(exit_with: i32, searched: Searched) -> (status: i32)
    ensures
        status == match searched {
            Searched::Lines(n) => if n > 0 && exit_with == EXIT_NONE_SELECTED {
                EXIT_OK
            } else {
                exit_with
            },
            Searched::Failed => EXIT_ERROR,
        },
{
    match searched {
        Searched::Lines(n) => if n > 0 && exit_with == EXIT_NONE_SELECTED {
            EXIT_OK
        } else {
            exit_with
        },
        Searched::Failed => EXIT_ERROR,
    }
}

/// The name under which a file is shown: the standard input has one of its
/// own.
pub fn pretty_name<'a>(filename: &'a str) -> (name: &'a str)
    ensures
        name@ == if filename@ == "-"@ {
            "(standard input)"@
        } else {
            filename@
        },
{
    if str_equal(filename, "-") {
        "(standard input)"
    } else {
        filename
    }
}

} // verus!
