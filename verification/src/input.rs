//! Keys, the edits they stand for, and what an edit does to the typed text.

use vstd::prelude::*;

verus! {

/// Modifier bit: control.
pub const CONTROL: u8 = 0b0000_0010;

/// Modifier bit: alt.
pub const ALT: u8 = 0b0000_0100;

/// The key that was pressed.
#[derive(Clone, Copy, Debug, PartialEq, Eq, Structural)]
pub enum KeyCode {
    Esc,
    Backspace,
    Char(char),
    Other,
}

/// A key press: the key, and the modifiers held with it as a set of bits.
#[derive(Clone, Copy, Debug, PartialEq, Eq, Structural)]
pub struct Key {
    pub code: KeyCode,
    pub modifiers: u8,
}

/// What a key press asks for.
#[derive(Clone, Copy, Debug, PartialEq, Eq, Structural)]
pub enum Edit {
    /// Append a character to the typed text.
    Insert(char),
    /// Remove the last character.
    DeleteLast,
    /// Remove the last word.
    DeleteWord,
    /// Leave the exercise.
    Quit,
}

/// The edit that `key` stands for, if any. Escape quits, and so does `c` with
/// control and nothing else held. Backspace with alt and nothing else held
/// deletes a word, any other backspace one character. Every other character
/// is typed.
pub open spec fn edit_of(key: Key) -> Option<Edit> {
    match key.code {
        KeyCode::Esc => Some(Edit::Quit),
        KeyCode::Backspace => if key.modifiers == ALT {
            Some(Edit::DeleteWord)
        } else {
            Some(Edit::DeleteLast)
        },
        KeyCode::Char(c) => if c == 'c' && key.modifiers == CONTROL {
            Some(Edit::Quit)
        } else {
            Some(Edit::Insert(c))
        },
        KeyCode::Other => None,
    }
}

/// The position of the last space in `typed`, or -1 where it has none.
pub open spec fn last_space(typed: Seq<char>) -> int
    decreases typed.len(),
{
    if typed.len() == 0 {
        -1
    } else if typed.last() == ' ' {
        typed.len() - 1
    } else {
        last_space(typed.drop_last())
    }
}

/// `typed` without its last word: what stands before its last space, and
/// nothing where it has no space.
pub open spec fn without_word(typed: Seq<char>) -> Seq<char> {
    if last_space(typed) < 0 {
        Seq::empty()
    } else {
        typed.take(last_space(typed))
    }
}

/// `typed` after `edit`. `Quit` leaves it as it is.
pub open spec fn edited(typed: Seq<char>, edit: Edit) -> Seq<char> {
    match edit {
        Edit::Insert(c) => typed.push(c),
        Edit::DeleteLast => if typed.len() == 0 {
            typed
        } else {
            typed.drop_last()
        },
        Edit::DeleteWord => without_word(typed),
        Edit::Quit => typed,
    }
}

/// `last_space` finds a space with no space after it, and -1 only where there
/// is no space at all.
pub proof fn lemma_last_space(typed: Seq<char>)
    ensures
        -1 <= last_space(typed) < typed.len(),
        last_space(typed) >= 0 ==> typed[last_space(typed)] == ' ',
        forall|i: int| last_space(typed) < i < typed.len() ==> typed[i] != ' ',
    decreases typed.len(),
{
    if typed.len() > 0 && typed.last() != ' ' {
        let front = typed.drop_last();
        lemma_last_space(front);
        assert forall|i: int| last_space(typed) < i < typed.len() implies typed[i] != ' ' by {
            if i < front.len() {
                assert(front[i] == typed[i]);
            }
        }
    }
}

/// A space at `at` with no space after it is the last space.
pub proof fn lemma_last_space_at(typed: Seq<char>, at: int)
    requires
        -1 <= at < typed.len(),
        at >= 0 ==> typed[at] == ' ',
        forall|i: int| at < i < typed.len() ==> typed[i] != ' ',
    ensures
        last_space(typed) == at,
{
    lemma_last_space(typed);
}

/// Deleting a word leaves a text that is shorter, unless there was nothing to
/// delete, and that ends just before a space of the old text.
pub proof fn lemma_without_word(typed: Seq<char>)
    ensures
        without_word(typed).len() <= typed.len(),
        typed.len() > 0 ==> without_word(typed).len() < typed.len(),
        without_word(typed) == typed.take(without_word(typed).len() as int),
{
    lemma_last_space(typed);
}

/// The edit that `key` stands for.
pub fn edit_for(key: Key) -> (r: Option<Edit>)
    ensures
        r == edit_of(key),
{
    match key.code {
        KeyCode::Esc => Some(Edit::Quit),
        KeyCode::Backspace => {
            if key.modifiers == ALT {
                Some(Edit::DeleteWord)
            } else {
                Some(Edit::DeleteLast)
            }
        },
        KeyCode::Char(c) => {
            if c == 'c' && key.modifiers == CONTROL {
                Some(Edit::Quit)
            } else {
                Some(Edit::Insert(c))
            }
        },
        KeyCode::Other => None,
    }
}

/// Removes the last word of `typed`: its last space and what follows it, or
/// everything where it has no space.
pub fn delete_word(typed: &mut Vec<char>)
    ensures
        final(typed)@ == without_word(old(typed)@),
{
    let mut end: usize = typed.len();
    while end > 0 && typed[end - 1] != ' '
        invariant
            end <= typed.len(),
            typed@ == old(typed)@,
            forall|i: int| end <= i < typed.len() ==> typed@[i] != ' ',
        decreases end,
    {
        end -= 1;
    }
    proof {
        lemma_last_space_at(typed@, end - 1);
    }
    if end == 0 {
        typed.clear();
    } else {
        typed.truncate(end - 1);
    }
}

/// Applies `edit` to `typed`.
pub fn apply(typed: &mut Vec<char>, edit: Edit)
    ensures
        final(typed)@ == edited(old(typed)@, edit),
{
    match edit {
        Edit::Insert(c) => {
            typed.push(c);
        },
        Edit::DeleteLast => {
            typed.pop();
        },
        Edit::DeleteWord => {
            delete_word(typed);
        },
        Edit::Quit => {},
    }
}

} // verus!
