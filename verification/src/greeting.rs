//! A greeting, and the verdicts of a guessing game.

use vstd::prelude::*;
use vstd::string::StringExecFns;

verus! {

/// Greets `name`.
pub fn greeting(name: &str) -> (text: String)
    ensures
        text@ == "Hello, "@ + name@ + "!"@,
{
    let mut text = String::from_str("Hello, ");
    text.append(name);
    text.append("!");
    text
}

/// The least number that the game picks.
pub const MIN: u8 = 1;

/// The greatest number that the game picks.
pub const MAX: u8 = 100;

/// What the game says of a guess.
#[derive(Clone, Copy, Debug, PartialEq, Eq, Structural)]
pub enum Verdict {
    /// The guess is not a number of the game.
    OutOfRange,
    TooLow,
    TooHigh,
    Right,
}

/// Judges `guess` against the number `num` that was picked: a guess outside
/// the range of the game is refused, and any other is too low, too high or
/// right.
pub fn judge(guess: u8, num: u8) -> (verdict: Verdict)
    ensures
        verdict == if guess < MIN || guess > MAX {
            Verdict::OutOfRange
        } else if guess < num {
            Verdict::TooLow
        } else if guess > num {
            Verdict::TooHigh
        } else {
            Verdict::Right
        },
{
    if guess < MIN || guess > MAX {
        Verdict::OutOfRange
    } else if guess < num {
        Verdict::TooLow
    } else if guess > num {
        Verdict::TooHigh
    } else {
        Verdict::Right
    }
}

} // verus!
