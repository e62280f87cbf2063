//! The command line: the number of words, endless mode, and the call for
//! help.

use crate::sample::DEFAULT_WORDS;
use crate::text::chars_of;
use vstd::prelude::*;

verus! {

/// What the command line asks for.
#[derive(Clone, Copy, Debug, PartialEq, Eq, Structural)]
pub struct Options {
    /// The number of words of an exercise.
    pub words: i32,
    /// Whether a new exercise follows each one that is finished.
    pub endless: bool,
    /// Whether help was called for.
    pub help: bool,
}

/// The view of each argument of a list.
pub open spec fn arg_views(args: Seq<String>) -> Seq<Seq<char>> {
    Seq::new(args.len(), |i: int| args[i]@)
}

/// Whether `c` is one of the digits `0` to `9`.
pub open spec fn is_digit(c: char) -> bool {
    0x30 <= c as u32 <= 0x39
}

/// Whether `s` holds digits only.
pub open spec fn all_digits(s: Seq<char>) -> bool {
    forall|i: int| 0 <= i < s.len() ==> is_digit(#[trigger] s[i])
}

/// The number that the digits `s` write in decimal.
pub open spec fn number_of(s: Seq<char>) -> int
    decreases s.len(),
{
    if s.len() == 0 {
        0
    } else {
        10 * number_of(s.drop_last()) + (s.last() as u32 - 0x30)
    }
}

/// The number that `s` writes: a `+` or a `-` or neither, then one digit or
/// more, and nothing else. A number that no `i32` holds is none.
pub open spec fn signed_of(s: Seq<char>) -> Option<int> {
    let negative = s.len() > 0 && s[0] == '-';
    let body = if s.len() > 0 && (s[0] == '-' || s[0] == '+') {
        s.skip(1)
    } else {
        s
    };
    let value = if negative {
        -number_of(body)
    } else {
        number_of(body)
    };
    if body.len() > 0 && all_digits(body) && i32::MIN <= value <= i32::MAX {
        Some(value)
    } else {
        None
    }
}

/// The number of words that the argument `s` asks for: the number it writes,
/// and `DEFAULT_WORDS` where it writes none.
pub open spec fn quantity_of(s: Seq<char>) -> int {
    match signed_of(s) {
        Some(value) => value,
        None => DEFAULT_WORDS as int,
    }
}

/// What the arguments from position `from` on make of `so_far`. `-w` takes
/// the argument after it, whatever it is, for the number of words, and asks
/// for `DEFAULT_WORDS` where nothing follows it. `help` ends the reading.
/// `-e` asks for endless mode. Any other argument is passed over.
pub open spec fn scan(args: Seq<Seq<char>>, from: int, so_far: Options) -> Options
    decreases args.len() - from,
{
    if from < 0 || from >= args.len() {
        so_far
    } else if args[from] == "-w"@ {
        if from + 1 < args.len() {
            scan(args, from + 2, Options { words: quantity_of(args[from + 1]) as i32, ..so_far })
        } else {
            Options { words: DEFAULT_WORDS as i32, ..so_far }
        }
    } else if args[from] == "help"@ {
        Options { help: true, ..so_far }
    } else if args[from] == "-e"@ {
        scan(args, from + 1, Options { endless: true, ..so_far })
    } else {
        scan(args, from + 1, so_far)
    }
}

/// Digits write a number that is not negative, and none that is less than
/// what their first `k` write.
pub proof fn lemma_number_grows(s: Seq<char>, k: int)
    requires
        all_digits(s),
        0 <= k <= s.len(),
    ensures
        0 <= number_of(s.take(k)) <= number_of(s),
    decreases s.len() - k,
{
    lemma_number_positive(s.take(k));
    if k == s.len() {
        assert(s.take(k) == s);
    } else {
        lemma_number_grows(s, k + 1);
        assert(s.take(k + 1).drop_last() == s.take(k));
    }
}

/// Digits write a number that is not negative.
pub proof fn lemma_number_positive(s: Seq<char>)
    requires
        all_digits(s),
    ensures
        0 <= number_of(s),
    decreases s.len(),
{
    if s.len() > 0 {
        lemma_number_positive(s.drop_last());
    }
}

/// Whether two texts say the same.
pub fn same_text(a: &Vec<char>, b: &Vec<char>) -> (r: bool)
    ensures
        r == (a@ == b@),
{
    if a.len() != b.len() {
        return false;
    }
    let mut i: usize = 0;
    while i < a.len()
        invariant
            i <= a.len(),
            a.len() == b.len(),
            a@.take(i as int) == b@.take(i as int),
        decreases a.len() - i,
    {
        if a[i] != b[i] {
            return false;
        }
        i += 1;
    }
    assert(a@.take(i as int) == a@);
    assert(b@.take(i as int) == b@);
    true
}

/// The number that `text` writes, if it writes one that an `i32` holds.
#[verifier::loop_isolation(false)]
pub fn parse_number(text: &Vec<char>) -> (r: Option<i32>)
    ensures
        match r {
            Some(value) => signed_of(text@) == Some(value as int),
            None => signed_of(text@) is None,
        },
{
    let n: usize = text.len();
    if n == 0 {
        return None;
    }
    let negative: bool = text[0] == '-';
    let start: usize = if text[0] == '-' || text[0] == '+' {
        1
    } else {
        0
    };
    let ghost body = text@.skip(start as int);
    assert(text@.skip(0) == text@);
    if start == n {
        return None;
    }
    let mut value: i64 = 0;
    let mut i: usize = start;
    while i < n
        invariant
            start <= i <= n,
            n == text.len(),
            body == text@.skip(start as int),
            all_digits(body.take(i - start)),
            value == number_of(body.take(i - start)),
            0 <= value <= 2147483648,
        decreases n - i,
    {
        let c: u32 = text[i] as u32;
        let ghost seen = body.take(i - start);
        let ghost more = body.take(i - start + 1);
        proof {
            assert(more.drop_last() == seen);
        }
        if c < 0x30 || c > 0x39 {
            assert(!is_digit(body[i - start]));
            return None;
        }
        value = value * 10 + (c as i64 - 0x30);
        if value > 2147483648 {
            proof {
                if all_digits(body) {
                    lemma_number_grows(body, i - start + 1);
                }
            }
            return None;
        }
        i += 1;
    }
    assert(body.take(n - start) == body);
    if negative {
        Some((-value) as i32)
    } else if value > 2147483647 {
        None
    } else {
        Some(value as i32)
    }
}

/// What the arguments `args`, which follow the program's name on the command
/// line, make of the options `from`.
pub fn parse_options(args: &Vec<String>, from: Options) -> (r: Options)
    ensures
        r == scan(arg_views(args@), 0, from),
{
    let ghost all = arg_views(args@);
    let words_flag = chars_of("-w");
    let help_flag = chars_of("help");
    let endless_flag = chars_of("-e");
    let mut options = from;
    let mut i: usize = 0;
    while i < args.len()
        invariant
            i <= args.len(),
            all == arg_views(args@),
            words_flag@ == "-w"@,
            help_flag@ == "help"@,
            endless_flag@ == "-e"@,
            scan(all, i as int, options) == scan(all, 0, from),
        decreases args.len() - i,
    {
        let arg = chars_of(args[i].as_str());
        if same_text(&arg, &words_flag) {
            if i + 1 < args.len() {
                let next = chars_of(args[i + 1].as_str());
                let words: i32 = match parse_number(&next) {
                    Some(value) => value,
                    None => DEFAULT_WORDS as i32,
                };
                options = Options { words, ..options };
                i += 2;
            } else {
                options = Options { words: DEFAULT_WORDS as i32, ..options };
                i += 1;
            }
        } else if same_text(&arg, &help_flag) {
            return Options { help: true, ..options };
        } else if same_text(&arg, &endless_flag) {
            options = Options { endless: true, ..options };
            i += 1;
        } else {
            i += 1;
        }
    }
    options
}

} // verus!
