//! Comparing what was typed with the text to type, and counting errors.

use std::collections::HashSet;
use vstd::prelude::*;

verus! {

broadcast use vstd::std_specs::hash::group_hash_axioms;

/// Position `i` is a mismatch: both texts have a character there, and the two
/// characters differ.
pub open spec fn differs(text: Seq<char>, input: Seq<char>, i: int) -> bool {
    0 <= i < text.len() && i < input.len() && text[i] != input[i]
}

/// The mismatches of `input` against `text`. A position that one of the two
/// does not reach is none.
pub open spec fn mismatches(text: Seq<char>, input: Seq<char>) -> Set<usize> {
    Set::new(|i: usize| differs(text, input, i as int))
}

/// The mismatches before position `end`.
pub open spec fn mismatches_before(text: Seq<char>, input: Seq<char>, end: int) -> Set<usize> {
    Set::new(|i: usize| i < end && differs(text, input, i as int))
}

/// The number of errors that `input` adds: its mismatches that were none at
/// the validation before, whose mismatches are `previous`.
pub open spec fn new_errors(text: Seq<char>, input: Seq<char>, previous: Set<usize>) -> nat {
    mismatches(text, input).difference(previous).len()
}

/// One validation call: the text to type and what was typed.
pub struct Call {
    pub text: Seq<char>,
    pub input: Seq<char>,
}

/// The mismatches after the validations `calls`, made in order from a state
/// with the mismatches `previous`.
pub open spec fn marks_after(calls: Seq<Call>, previous: Set<usize>) -> Set<usize> {
    if calls.len() == 0 {
        previous
    } else {
        mismatches(calls.last().text, calls.last().input)
    }
}

/// The error count after the validations `calls`, made in order from a state
/// with the mismatches `previous` and the count `errors`.
pub open spec fn errors_after(calls: Seq<Call>, previous: Set<usize>, errors: nat) -> nat
    decreases calls.len(),
{
    if calls.len() == 0 {
        errors
    } else {
        let before = calls.drop_last();
        errors_after(before, previous, errors) + new_errors(
            calls.last().text,
            calls.last().input,
            marks_after(before, previous),
        )
    }
}

/// The mismatches are finite, and none lies at or beyond the end of the
/// shorter text.
pub proof fn lemma_mismatches_bounded(text: Seq<char>, input: Seq<char>)
    ensures
        mismatches(text, input).finite(),
        mismatches(text, input).len() <= text.len(),
        mismatches(text, input).len() <= input.len(),
        forall|i: usize|
            mismatches(text, input).contains(i) ==> i < text.len() && i < input.len(),
{
    lemma_before_bounded(text, input, text.len() as int);
    lemma_before_bounded(text, input, input.len() as int);
    assert(mismatches_before(text, input, text.len() as int) == mismatches(text, input));
    assert(mismatches_before(text, input, input.len() as int) == mismatches(text, input));
}

/// The mismatches before `end` are finite and fewer than `end`, or as many.
pub proof fn lemma_before_bounded(text: Seq<char>, input: Seq<char>, end: int)
    requires
        0 <= end,
    ensures
        mismatches_before(text, input, end).finite(),
        mismatches_before(text, input, end).len() <= end,
    decreases end,
{
    if end == 0 {
        assert(mismatches_before(text, input, 0) == Set::<usize>::empty());
    } else {
        lemma_before_bounded(text, input, end - 1);
        let less = mismatches_before(text, input, end - 1);
        if end - 1 <= usize::MAX && differs(text, input, end - 1) {
            assert(mismatches_before(text, input, end) == less.insert((end - 1) as usize));
        } else {
            assert(mismatches_before(text, input, end) == less);
        }
    }
}

/// Input adds no more errors than it has characters, and no more than the
/// text has.
pub proof fn lemma_new_errors_bounded(text: Seq<char>, input: Seq<char>, previous: Set<usize>)
    ensures
        new_errors(text, input, previous) <= input.len(),
        new_errors(text, input, previous) <= text.len(),
{
    lemma_mismatches_bounded(text, input);
    vstd::set_lib::lemma_len_difference(mismatches(text, input), previous);
}

/// The error count never falls: after more validations it is what it was
/// after fewer of them, or greater.
pub proof fn lemma_errors_never_fall(
    calls: Seq<Call>,
    fewer: int,
    previous: Set<usize>,
    errors: nat,
)
    requires
        0 <= fewer <= calls.len(),
    ensures
        errors <= errors_after(calls.take(fewer), previous, errors) <= errors_after(
            calls,
            previous,
            errors,
        ),
    decreases calls.len(),
{
    if fewer == calls.len() {
        assert(calls.take(fewer) == calls);
        if fewer > 0 {
            lemma_errors_never_fall(calls.drop_last(), fewer - 1, previous, errors);
        }
    } else {
        lemma_errors_never_fall(calls.drop_last(), fewer, previous, errors);
        assert(calls.drop_last().take(fewer) == calls.take(fewer));
    }
}

/// Input that says what the text says, as far as it goes, has no mismatch and
/// adds no error, whatever was mismatched before.
pub proof fn lemma_correct_input(text: Seq<char>, input: Seq<char>, previous: Set<usize>)
    requires
        input.len() <= text.len(),
        input == text.take(input.len() as int),
    ensures
        mismatches(text, input) == Set::<usize>::empty(),
        new_errors(text, input, previous) == 0,
{
    assert(mismatches(text, input).difference(previous) == Set::<usize>::empty());
}

/// Holding a mismatch costs nothing: input validated a second time adds no
/// error.
pub proof fn lemma_held_mismatches(text: Seq<char>, input: Seq<char>)
    ensures
        new_errors(text, input, mismatches(text, input)) == 0,
{
    let held = mismatches(text, input);
    assert(held.difference(held) == Set::<usize>::empty());
}

/// Validates `input` against `text`: finds the mismatches, and adds to
/// `errors` one for each mismatch that is not in `previous`. Both results
/// are functions of the four arguments, so the same arguments always give
/// the same mismatches and the same count.
pub fn validate(text: &Vec<char>, input: &Vec<char>, previous: &HashSet<usize>, errors: usize) -> (r:
    (HashSet<usize>, usize))
    requires
        errors + new_errors(text@, input@, previous@) <= usize::MAX,
    ensures
        r.0@ == mismatches(text@, input@),
        r.1 == errors + new_errors(text@, input@, previous@),
        r.1 >= errors,
{
    let mut found: HashSet<usize> = HashSet::new();
    let mut fresh: usize = 0;
    let end: usize = if text.len() < input.len() {
        text.len()
    } else {
        input.len()
    };
    let mut i: usize = 0;
    proof {
        assert(found@.difference(previous@) == Set::<usize>::empty());
    }
    while i < end
        invariant
            i <= end,
            end <= text.len(),
            end <= input.len(),
            found@ == mismatches_before(text@, input@, i as int),
            found@.difference(previous@).finite(),
            fresh == found@.difference(previous@).len(),
            fresh <= i,
        decreases end - i,
    {
        let ghost before = found@;
        if text[i] != input[i] {
            found.insert(i);
            proof {
                if previous@.contains(i) {
                    assert(found@.difference(previous@) == before.difference(previous@));
                } else {
                    assert(found@.difference(previous@) == before.difference(previous@).insert(i));
                }
            }
            if !previous.contains(&i) {
                fresh += 1;
            }
        }
        i += 1;
    }
    assert(found@ == mismatches(text@, input@));
    (found, errors + fresh)
}

} // verus!
