//! Drawing the words of an exercise from the word pool, and making the
//! exercise of them.

use crate::layout::{
    exercise_of, layout, lemma_exercise_lines, lemma_exercise_shows, Exercise, ExerciseView,
};
use crate::text::{
    copy_text, is_word, lemma_words_are_words, lemma_words_of_join, views, words_of,
};
use rand::rngs::ThreadRng;
use rand::Rng;
use vstd::prelude::*;

verus! {

/// The random number generator of the running thread.
#[verifier::external_type_specification]
#[verifier::external_body]
pub struct ExThreadRng(ThreadRng);

/// The number of words of an exercise where none is asked for.
pub const DEFAULT_WORDS: usize = 12;

/// `rand::rng`: a handle to the thread's generator. The contract claims
/// nothing of it.
#[verifier::external_body]
fn generator() -> ThreadRng {
    rand::rng()
}

/// `rand::Rng::random_range` on the range `..bound`: a number drawn from
/// those below `bound`. The contract claims that the number is below
/// `bound` and nothing else, so any of them may come, in any order. The
/// call panics on an empty range, which `requires` leaves out.
#[verifier::external_body]
fn random_below(rng: &mut ThreadRng, bound: usize) -> (r: usize)
    requires
        bound > 0,
    ensures
        r < bound,
{
    rng.random_range(..bound)
}

/// The number of words of an exercise for which `asked` words are asked:
/// `asked`, or `DEFAULT_WORDS` where `asked` is no positive number.
pub open spec fn words_wanted(asked: i32) -> nat {
    if asked <= 0 {
        DEFAULT_WORDS as nat
    } else {
        asked as nat
    }
}

/// `words` are `count` words, each of them a word of `pool`. A word of the
/// pool may occur many times, or not at all.
pub open spec fn drawn(words: Seq<Seq<char>>, pool: Seq<Seq<char>>, count: nat) -> bool {
    &&& words.len() == count
    &&& forall|i: int| 0 <= i < words.len() ==> pool.contains(#[trigger] words[i])
}

/// `exercise` is made of words drawn from `pool`: of `words_wanted(asked)`
/// of them, laid out in a viewport of `columns` by `rows`.
pub open spec fn made_of(
    exercise: ExerciseView,
    asked: i32,
    pool: Seq<Seq<char>>,
    columns: u16,
    rows: u16,
) -> bool {
    exists|words: Seq<Seq<char>>|
        drawn(words, pool, words_wanted(asked)) && exercise == #[trigger] exercise_of(
            words,
            columns,
            rows,
        )
}

/// An exercise made of words drawn from a pool has a line, and a word on
/// each of its lines.
pub proof fn lemma_made_has_lines(
    exercise: ExerciseView,
    asked: i32,
    pool: Seq<Seq<char>>,
    columns: u16,
    rows: u16,
)
    requires
        made_of(exercise, asked, pool, columns, rows),
    ensures
        exercise.lines.len() > 0,
        forall|j: int| 0 <= j < exercise.lines.len() ==> (#[trigger] exercise.lines[j]).tokens.len() > 0,
{
    let words = choose|words: Seq<Seq<char>>|
        drawn(words, pool, words_wanted(asked)) && exercise == #[trigger] exercise_of(
            words,
            columns,
            rows,
        );
    lemma_exercise_lines(words, columns, rows);
}

/// The text of an exercise made of words drawn from the words of a corpus
/// has as many words as were wanted, so it is not empty; and each line of
/// the exercise shows something.
pub proof fn lemma_made_word_count(
    exercise: ExerciseView,
    asked: i32,
    corpus: Seq<char>,
    columns: u16,
    rows: u16,
)
    requires
        made_of(exercise, asked, words_of(corpus), columns, rows),
    ensures
        words_of(exercise.text).len() == words_wanted(asked),
        exercise.text.len() > 0,
        forall|j: int|
            0 <= j < exercise.lines.len() ==> (#[trigger] exercise.lines[j]).content().len() > 0,
{
    let words = choose|words: Seq<Seq<char>>|
        drawn(words, words_of(corpus), words_wanted(asked)) && exercise == #[trigger] exercise_of(
            words,
            columns,
            rows,
        );
    lemma_words_are_words(corpus);
    assert forall|k: int| 0 <= k < words.len() implies is_word(#[trigger] words[k]) by {
        assert(words_of(corpus).contains(words[k]));
    }
    lemma_words_of_join(words);
    lemma_exercise_shows(words, columns, rows);
}

/// The number of words of an exercise for which `asked` words are asked.
pub fn wanted(asked: i32) -> (r: usize)
    ensures
        r == words_wanted(asked),
{
    if asked <= 0 {
        DEFAULT_WORDS
    } else {
        asked as usize
    }
}

/// Draws `count` words from `pool`, each time any one of them.
pub fn sample_words(pool: &Vec<Vec<char>>, count: usize) -> (r: Vec<Vec<char>>)
    requires
        pool.len() > 0,
    ensures
        drawn(views(r@), views(pool@), count as nat),
{
    let mut rng = generator();
    let mut words: Vec<Vec<char>> = Vec::new();
    while words.len() < count
        invariant
            pool.len() > 0,
            words.len() <= count,
            drawn(views(words@), views(pool@), words.len() as nat),
        decreases count - words.len(),
    {
        let at = random_below(&mut rng, pool.len());
        let ghost before = views(words@);
        words.push(copy_text(&pool[at]));
        proof {
            assert(views(pool@)[at as int] == pool[at as int]@);
            assert(views(words@) == before.push(pool[at as int]@));
        }
    }
    words
}

/// Makes an exercise of `asked` words drawn from `pool`, and of
/// `DEFAULT_WORDS` where `asked` is no positive number, for a viewport of
/// `columns` by `rows`.
pub fn generate(asked: i32, pool: &Vec<Vec<char>>, columns: u16, rows: u16) -> (ex: Exercise)
    requires
        pool.len() > 0,
        rows > 0,
    ensures
        made_of(ex@, asked, views(pool@), columns, rows),
{
    let words = sample_words(pool, wanted(asked));
    layout(&words, columns, rows)
}

} // verus!
