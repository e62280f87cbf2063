//! Text as sequences of characters: white space, words, joining.

use vstd::prelude::*;
use vstd::string::*;

verus! {

/// White space: the characters with the Unicode property `White_Space`.
pub open spec fn is_space(c: char) -> bool {
    let n = c as u32;
    ||| 0x09 <= n <= 0x0D
    ||| n == 0x20
    ||| n == 0x85
    ||| n == 0xA0
    ||| n == 0x1680
    ||| 0x2000 <= n <= 0x200A
    ||| n == 0x2028
    ||| n == 0x2029
    ||| n == 0x202F
    ||| n == 0x205F
    ||| n == 0x3000
}

/// The view of each text of a list.
pub open spec fn views(v: Seq<Vec<char>>) -> Seq<Seq<char>> {
    Seq::new(v.len(), |i: int| v[i]@)
}

/// The words of `s`: its maximal runs of characters that are no white space,
/// in the order in which they occur. Read from the left, a character that is
/// white space ends the word before it, one that follows a word's character
/// lengthens that word, and any other starts a new word.
pub open spec fn words_of(s: Seq<char>) -> Seq<Seq<char>>
    decreases s.len(),
{
    if s.len() == 0 {
        Seq::empty()
    } else {
        let front = s.drop_last();
        let found = words_of(front);
        if is_space(s.last()) {
            found
        } else if front.len() > 0 && !is_space(front.last()) {
            found.drop_last().push(found.last().push(s.last()))
        } else {
            found.push(seq![s.last()])
        }
    }
}

/// The texts of `words` in order, with one space between neighbours.
pub open spec fn join(words: Seq<Seq<char>>) -> Seq<char>
    decreases words.len(),
{
    if words.len() == 0 {
        Seq::empty()
    } else if words.len() == 1 {
        words[0]
    } else {
        join(words.drop_last()) + seq![' '] + words.last()
    }
}

/// The character that writes the digit `d`.
pub open spec fn digit(d: nat) -> char {
    if d == 0 {
        '0'
    } else if d == 1 {
        '1'
    } else if d == 2 {
        '2'
    } else if d == 3 {
        '3'
    } else if d == 4 {
        '4'
    } else if d == 5 {
        '5'
    } else if d == 6 {
        '6'
    } else if d == 7 {
        '7'
    } else if d == 8 {
        '8'
    } else {
        '9'
    }
}

/// `n` written in decimal digits, without leading zeros.
pub open spec fn decimal(n: nat) -> Seq<char>
    decreases n,
{
    if n < 10 {
        seq![digit(n)]
    } else {
        decimal(n / 10).push(digit(n % 10))
    }
}

/// `n` written in decimal digits, with a leading zero where it has one digit.
pub open spec fn two_digits(n: nat) -> Seq<char> {
    if n < 10 {
        seq!['0', digit(n)]
    } else {
        decimal(n)
    }
}

/// Whether `c` is white space.
pub fn is_whitespace(c: char) -> (r: bool)
    ensures
        r == is_space(c),
{
    let n: u32 = c as u32;
    (0x09 <= n && n <= 0x0D) || n == 0x20 || n == 0x85 || n == 0xA0 || n == 0x1680 || (0x2000 <= n
        && n <= 0x200A) || n == 0x2028 || n == 0x2029 || n == 0x202F || n == 0x205F || n == 0x3000
}

/// The characters of `s`, in order.
pub fn chars_of(s: &str) -> (r: Vec<char>)
    ensures
        r@ == s@,
{
    let mut out: Vec<char> = Vec::new();
    for c in it: s.chars()
        invariant
            out@ == it.seq().take(it.index() as int),
            it.seq() == s@,
    {
        out.push(c);
    }
    out
}

/// A copy of `text`.
pub fn copy_text(text: &Vec<char>) -> (r: Vec<char>)
    ensures
        r@ == text@,
{
    let mut out: Vec<char> = Vec::new();
    let mut i: usize = 0;
    while i < text.len()
        invariant
            i <= text.len(),
            out@ == text@.take(i as int),
        decreases text.len() - i,
    {
        out.push(text[i]);
        i += 1;
    }
    out
}

/// The characters of `text` from position `from` up to position `to`, which
/// is left out.
pub fn slice_text(text: &Vec<char>, from: usize, to: usize) -> (r: Vec<char>)
    requires
        from <= to <= text.len(),
    ensures
        r@ == text@.subrange(from as int, to as int),
{
    let mut out: Vec<char> = Vec::new();
    let mut i: usize = from;
    while i < to
        invariant
            from <= i <= to,
            to <= text.len(),
            out@ == text@.subrange(from as int, i as int),
        decreases to - i,
    {
        out.push(text[i]);
        i += 1;
    }
    out
}

/// A word found in a text is not empty and holds no white space, and a text
/// has no more words than characters.
pub proof fn lemma_words_of(s: Seq<char>)
    ensures
        words_of(s).len() <= s.len(),
        forall|k: int| 0 <= k < words_of(s).len() ==> (#[trigger] words_of(s)[k]).len() > 0,
        forall|k: int, j: int|
            0 <= k < words_of(s).len() && 0 <= j < words_of(s)[k].len() ==> !is_space(
                #[trigger] words_of(s)[k][j],
            ),
        s.len() > 0 && !is_space(s.last()) ==> words_of(s).len() > 0,
    decreases s.len(),
{
    if s.len() > 0 {
        let front = s.drop_last();
        lemma_words_of(front);
    }
}

/// The words of `text`, split at white space.
pub fn split_words(text: &Vec<char>) -> (r: Vec<Vec<char>>)
    ensures
        views(r@) == words_of(text@),
{
    let mut out: Vec<Vec<char>> = Vec::new();
    let mut word: Vec<char> = Vec::new();
    let mut i: usize = 0;
    while i < text.len()
        invariant
            i <= text.len(),
            word@.len() > 0 <==> (i > 0 && !is_space(text@[i - 1])),
            word@.len() > 0 ==> words_of(text@.take(i as int)) == views(out@).push(word@),
            word@.len() == 0 ==> words_of(text@.take(i as int)) == views(out@),
        decreases text.len() - i,
    {
        let c = text[i];
        proof {
            let next = text@.take(i + 1);
            assert(next.drop_last() == text@.take(i as int));
        }
        if is_whitespace(c) {
            if word.len() > 0 {
                out.push(word);
                word = Vec::new();
            }
        } else {
            word.push(c);
            assert(word@.len() == 1 ==> word@ == seq![c]);
        }
        i += 1;
    }
    assert(text@.take(i as int) == text@);
    if word.len() > 0 {
        out.push(word);
    }
    out
}

/// The number of words in `text`.
pub fn count_words(text: &Vec<char>) -> (r: usize)
    ensures
        r == words_of(text@).len(),
{
    let mut count: usize = 0;
    let mut in_word = false;
    let mut i: usize = 0;
    while i < text.len()
        invariant
            i <= text.len(),
            in_word <==> (i > 0 && !is_space(text@[i - 1])),
            count == words_of(text@.take(i as int)).len(),
        decreases text.len() - i,
    {
        let c = text[i];
        proof {
            let next = text@.take(i + 1);
            assert(next.drop_last() == text@.take(i as int));
            lemma_words_of(text@.take(i as int));
            lemma_words_of(next);
        }
        if is_whitespace(c) {
            in_word = false;
        } else {
            if !in_word {
                count += 1;
            }
            in_word = true;
        }
        i += 1;
    }
    assert(text@.take(i as int) == text@);
    count
}

/// `w` is a word: it is not empty and holds no white space.
pub open spec fn is_word(w: Seq<char>) -> bool {
    w.len() > 0 && forall|i: int| 0 <= i < w.len() ==> !is_space(#[trigger] w[i])
}

/// What a text says is found in it as words.
pub proof fn lemma_words_are_words(s: Seq<char>)
    ensures
        forall|k: int| 0 <= k < words_of(s).len() ==> is_word(#[trigger] words_of(s)[k]),
{
    lemma_words_of(s);
}

/// A word behind a text that is empty or ends in white space is one more
/// word of the text.
pub proof fn lemma_words_of_append(s: Seq<char>, w: Seq<char>)
    requires
        is_word(w),
        s.len() == 0 || is_space(s.last()),
    ensures
        words_of(s + w) == words_of(s).push(w),
    decreases w.len(),
{
    let front = w.drop_last();
    let c = w.last();
    assert((s + w).drop_last() == s + front);
    if front.len() == 0 {
        assert(w == seq![c]);
    } else {
        lemma_words_of_append(s, front);
        let found = words_of(s).push(front);
        assert(found.last().push(c) == w);
    }
}

/// Words joined with single spaces are found again as the same words.
pub proof fn lemma_words_of_join(words: Seq<Seq<char>>)
    requires
        forall|k: int| 0 <= k < words.len() ==> is_word(#[trigger] words[k]),
    ensures
        words_of(join(words)) == words,
    decreases words.len(),
{
    if words.len() == 1 {
        lemma_words_of_append(Seq::empty(), words[0]);
    } else if words.len() > 1 {
        let front = words.drop_last();
        lemma_words_of_join(front);
        let gap = join(front).push(' ');
        assert(gap.drop_last() == join(front));
        lemma_words_of_append(gap, words.last());
        assert(join(front) + seq![' '] + words.last() == gap + words.last());
    }
}

/// Joining the words and one more is joining the words, then a space and the
/// last word.
pub proof fn lemma_join_push(words: Seq<Seq<char>>, word: Seq<char>)
    ensures
        join(words.push(word)) == if words.len() == 0 {
            word
        } else {
            join(words) + seq![' '] + word
        },
{
    let all = words.push(word);
    assert(all.drop_last() == words);
}

/// The words of `words` in one text, single spaces between them.
pub fn join_words(words: &Vec<Vec<char>>) -> (r: Vec<char>)
    ensures
        r@ == join(views(words@)),
{
    let mut out: Vec<char> = Vec::new();
    let mut i: usize = 0;
    while i < words.len()
        invariant
            i <= words.len(),
            out@ == join(views(words@).take(i as int)),
        decreases words.len() - i,
    {
        let ghost done = views(words@).take(i as int);
        if i > 0 {
            out.push(' ');
        }
        let ghost start = out@;
        let word = &words[i];
        let mut j: usize = 0;
        while j < word.len()
            invariant
                j <= word.len(),
                out@ == start + word@.take(j as int),
            decreases word.len() - j,
        {
            out.push(word[j]);
            j += 1;
        }
        proof {
            lemma_join_push(done, word@);
            assert(views(words@).take(i + 1) == done.push(word@));
        }
        i += 1;
    }
    assert(views(words@).take(i as int) == views(words@));
    out
}

/// The text of one digit.
fn digit_text(d: u64) -> (r: &'static str)
    requires
        d < 10,
    ensures
        r@ == seq![digit(d as nat)],
{
    proof {
        reveal_strlit("0");
        reveal_strlit("1");
        reveal_strlit("2");
        reveal_strlit("3");
        reveal_strlit("4");
        reveal_strlit("5");
        reveal_strlit("6");
        reveal_strlit("7");
        reveal_strlit("8");
        reveal_strlit("9");
    }
    let text = if d == 0 {
        "0"
    } else if d == 1 {
        "1"
    } else if d == 2 {
        "2"
    } else if d == 3 {
        "3"
    } else if d == 4 {
        "4"
    } else if d == 5 {
        "5"
    } else if d == 6 {
        "6"
    } else if d == 7 {
        "7"
    } else if d == 8 {
        "8"
    } else {
        "9"
    };
    text
}

/// Writes `n` in decimal digits at the end of `out`.
pub fn append_decimal(out: &mut String, n: u64)
    ensures
        final(out)@ == old(out)@ + decimal(n as nat),
    decreases n,
{
    if n >= 10 {
        append_decimal(out, n / 10);
    }
    out.append(digit_text(n % 10));
}

/// Writes `n` in decimal digits at the end of `out`, with a leading zero
/// where it has one digit.
pub fn append_two_digits(out: &mut String, n: u64)
    ensures
        final(out)@ == old(out)@ + two_digits(n as nat),
{
    if n < 10 {
        out.append(digit_text(0));
    }
    append_decimal(out, n);
}

} // verus!
