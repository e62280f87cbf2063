//! Performance statistics of a finished exercise, as exact fractions.

use crate::validate::{lemma_correct_input, new_errors};
use vstd::prelude::*;

verus! {

/// The fraction `num / den`.
#[derive(Clone, Copy, Debug, PartialEq, Eq, Structural)]
pub struct Ratio {
    pub num: i128,
    pub den: u64,
}

/// The statistics of an exercise.
#[derive(Clone, Copy, Debug, PartialEq, Eq, Structural)]
pub struct Stats {
    /// Words per minute, errors not counted.
    pub raw_wpm: Ratio,
    /// Words per minute, half a word taken off for each error.
    pub wpm: Ratio,
    /// The share of the characters that were no error, in percent.
    pub accuracy: Ratio,
    /// The time taken, in seconds.
    pub seconds: u64,
}

/// `words / (seconds / 60)`, as the fraction `60 * words / seconds`.
pub open spec fn raw_wpm_of(words: nat, seconds: nat) -> (int, int) {
    (60 * (words as int), seconds as int)
}

/// `max(words - errors / 2, 0) / (seconds / 60)`, as the fraction
/// `30 * max(2 * words - errors, 0) / seconds`.
pub open spec fn wpm_of(words: nat, errors: nat, seconds: nat) -> (int, int) {
    (
        if 2 * words >= errors {
            30 * (2 * words - errors)
        } else {
            0
        },
        seconds as int,
    )
}

/// `(1 - errors / chars) * 100`, as the fraction
/// `100 * (chars - errors) / chars`.
pub open spec fn accuracy_of(chars: nat, errors: nat) -> (int, int) {
    (100 * (chars - errors), chars as int)
}

/// The numerator and denominator of `ratio`.
pub open spec fn parts(ratio: Ratio) -> (int, int) {
    (ratio.num as int, ratio.den as int)
}

/// Without an error the accuracy is 100 percent exactly, and the words per
/// minute are the raw words per minute.
pub proof fn lemma_no_error(words: nat, chars: nat, seconds: nat)
    requires
        chars > 0,
    ensures
        accuracy_of(chars, 0).0 == 100 * accuracy_of(chars, 0).1,
        wpm_of(words, 0, seconds) == raw_wpm_of(words, seconds),
{
}

/// A text typed as it stands, from a count of no errors, leaves the count at
/// none and the accuracy at 100 percent exactly, whatever was mismatched
/// before.
pub proof fn lemma_verbatim_accuracy(text: Seq<char>, previous: Set<usize>)
    requires
        text.len() > 0,
    ensures
        new_errors(text, text, previous) == 0,
        accuracy_of(text.len(), 0 + new_errors(text, text, previous)).0 == 100 * accuracy_of(
            text.len(),
            0 + new_errors(text, text, previous),
        ).1,
{
    assert(text.take(text.len() as int) == text);
    lemma_correct_input(text, text, previous);
}

/// The statistics of an exercise of `words` words and `chars` characters,
/// typed with `errors` errors in `seconds` seconds.
pub fn results(words: usize, chars: usize, errors: usize, seconds: u64) -> (r: Stats)
    requires
        seconds > 0,
        chars > 0,
    ensures
        parts(r.raw_wpm) == raw_wpm_of(words as nat, seconds as nat),
        parts(r.wpm) == wpm_of(words as nat, errors as nat, seconds as nat),
        parts(r.accuracy) == accuracy_of(chars as nat, errors as nat),
        r.seconds == seconds,
{
    let twice: i128 = 2 * (words as i128);
    let net: i128 = if twice >= errors as i128 {
        twice - errors as i128
    } else {
        0
    };
    Stats {
        raw_wpm: Ratio { num: 60 * (words as i128), den: seconds },
        wpm: Ratio { num: 30 * net, den: seconds },
        accuracy: Ratio { num: 100 * (chars as i128 - errors as i128), den: chars as u64 },
        seconds,
    }
}

} // verus!
