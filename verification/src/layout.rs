//! Packing the words of an exercise into centred screen lines.

use crate::text::{
    copy_text, count_words, join, join_words, lemma_join_push, views, words_of,
};
use vstd::prelude::*;

verus! {

/// A cell of the viewport: column and row, both counted from 0.
#[derive(Clone, Copy, Debug, PartialEq, Eq, Structural)]
pub struct Pos {
    pub col: u16,
    pub row: u16,
}

impl Pos {
    /// The cell in column `col` of row `row`.
    pub fn new(col: u16, row: u16) -> (r: Self)
        ensures
            r == (Pos { col, row }),
    {
        Self { col, row }
    }
}

/// One line of an exercise: its tokens (words, with a one-space token between
/// neighbours) and the cell of its first character.
#[derive(Clone, Debug, PartialEq, Eq)]
pub struct Line {
    pub text: Vec<Vec<char>>,
    pub pos: Pos,
}

/// What a `Line` holds.
pub struct LineView {
    pub tokens: Seq<Seq<char>>,
    pub pos: Pos,
}

impl View for Line {
    type V = LineView;

    open spec fn view(&self) -> LineView {
        LineView { tokens: views(self.text@), pos: self.pos }
    }
}

impl LineView {
    /// The characters of the line as it stands on the screen.
    pub open spec fn content(self) -> Seq<char> {
        concat(self.tokens)
    }
}

impl Line {
    /// The line of the tokens `text` that starts at the cell `pos`.
    pub fn new(text: Vec<Vec<char>>, pos: Pos) -> (r: Self)
        ensures
            r.text == text,
            r.pos == pos,
    {
        Self { text, pos }
    }

    /// The characters of the line as it stands on the screen.
    pub fn content(&self) -> (r: Vec<char>)
        ensures
            r@ == self@.content(),
    {
        let mut out: Vec<char> = Vec::new();
        let mut i: usize = 0;
        while i < self.text.len()
            invariant
                i <= self.text.len(),
                out@ == concat(views(self.text@).take(i as int)),
            decreases self.text.len() - i,
        {
            let ghost before = out@;
            let token = &self.text[i];
            let mut j: usize = 0;
            while j < token.len()
                invariant
                    j <= token.len(),
                    out@ == before + token@.take(j as int),
                decreases token.len() - j,
            {
                out.push(token[j]);
                j += 1;
            }
            proof {
                let more = views(self.text@).take(i + 1);
                assert(more.drop_last() == views(self.text@).take(i as int));
            }
            i += 1;
        }
        assert(views(self.text@).take(i as int) == views(self.text@));
        out
    }
}

/// An exercise: its lines from top to bottom, and the text to type, which is
/// all its words with single spaces between them.
#[derive(Clone, Debug, PartialEq, Eq)]
pub struct Exercise {
    pub lines: Vec<Line>,
    pub text: Vec<char>,
}

impl Exercise {
    /// The number of characters of the text to type.
    pub fn char_count(&self) -> (r: usize)
        ensures
            r == self.text@.len(),
    {
        self.text.len()
    }

    /// The number of words of the text to type.
    pub fn word_count(&self) -> (r: usize)
        ensures
            r == words_of(self.text@).len(),
    {
        count_words(&self.text)
    }
}

/// What an `Exercise` holds.
pub struct ExerciseView {
    pub lines: Seq<LineView>,
    pub text: Seq<char>,
}

/// The view of each line of a list.
pub open spec fn line_views(lines: Seq<Line>) -> Seq<LineView> {
    Seq::new(lines.len(), |j: int| lines[j]@)
}

impl View for Exercise {
    type V = ExerciseView;

    open spec fn view(&self) -> ExerciseView {
        ExerciseView { lines: line_views(self.lines@), text: self.text@ }
    }
}

/// The tokens one after the other.
pub open spec fn concat(tokens: Seq<Seq<char>>) -> Seq<char>
    decreases tokens.len(),
{
    if tokens.len() == 0 {
        Seq::empty()
    } else {
        concat(tokens.drop_last()) + tokens.last()
    }
}

/// The tokens of a line that holds `words`: the words, and between each two
/// neighbours a token of one space.
pub open spec fn spaced(words: Seq<Seq<char>>) -> Seq<Seq<char>> {
    Seq::new(
        if words.len() == 0 {
            0
        } else {
            (2 * words.len() - 1) as nat
        },
        |j: int|
            if j % 2 == 0 {
                words[j / 2]
            } else {
                seq![' ']
            },
    )
}

/// The width at which a line is full: the viewport's columns less half of
/// them.
pub open spec fn line_width(columns: u16) -> int {
    columns - columns / 2
}

/// How many of `words` the line that starts with `words[0]` takes in the end,
/// when it holds the first `held` of them so far: it takes one more as long
/// as there is one and the line, spaces counted, is shorter than `width`.
pub open spec fn fill(words: Seq<Seq<char>>, held: int, width: int) -> int
    decreases words.len() - held,
{
    if 1 <= held < words.len() && join(words.take(held)).len() < width {
        fill(words, held + 1, width)
    } else {
        held
    }
}

/// A line takes what it holds or more, and no more than there is.
pub proof fn lemma_fill_bounds(words: Seq<Seq<char>>, held: int, width: int)
    requires
        1 <= held <= words.len(),
    ensures
        held <= fill(words, held, width) <= words.len(),
    decreases words.len() - held,
{
    if held < words.len() && join(words.take(held)).len() < width {
        lemma_fill_bounds(words, held + 1, width);
    }
}

/// The words of each line, from the first line to the last, when `words` are
/// packed against `width`: a line starts with the first word not yet placed,
/// whatever its length, and is filled as `fill` says.
pub open spec fn pack(words: Seq<Seq<char>>, width: int) -> Seq<Seq<Seq<char>>>
    decreases words.len(),
{
    if words.len() == 0 {
        Seq::empty()
    } else {
        let n = fill(words, 1, width);
        proof {
            lemma_fill_bounds(words, 1, width);
        }
        seq![words.take(n)] + pack(words.skip(n), width)
    }
}

/// What `fill` stops at: the line was shorter than `width` whenever it took
/// one more word, and it is full unless the words ran out.
pub proof fn lemma_fill_stops(words: Seq<Seq<char>>, held: int, width: int)
    requires
        1 <= held <= words.len(),
    ensures
        forall|h: int|
            held <= h < fill(words, held, width) ==> (#[trigger] join(words.take(h))).len() < width,
        fill(words, held, width) < words.len() ==> join(
            words.take(fill(words, held, width)),
        ).len() >= width,
    decreases words.len() - held,
{
    if held < words.len() && join(words.take(held)).len() < width {
        lemma_fill_stops(words, held + 1, width);
    }
}

/// Packing places every word, in order, and leaves no line empty: the lines
/// one after the other are the words, each line has at least one word, and
/// the first line starts with the first word whatever the width.
pub proof fn lemma_pack_places_all(words: Seq<Seq<char>>, width: int)
    ensures
        pack(words, width).flatten() == words,
        forall|j: int| 0 <= j < pack(words, width).len() ==> (#[trigger] pack(words, width)[j]).len() > 0,
        words.len() > 0 ==> pack(words, width).len() > 0 && pack(words, width)[0][0] == words[0],
    decreases words.len(),
{
    if words.len() > 0 {
        lemma_fill_bounds(words, 1, width);
        let rest = words.skip(fill(words, 1, width));
        lemma_pack_places_all(rest, width);
        assert(pack(words, width).drop_first() == pack(rest, width));
    }
}

/// Packing is greedy: a line took one more word only while it was shorter
/// than `width`, and every line but the last is at least `width` long.
pub proof fn lemma_pack_greedy(words: Seq<Seq<char>>, width: int)
    ensures
        forall|j: int, h: int|
            0 <= j < pack(words, width).len() && 1 <= h < pack(words, width)[j].len() ==> (
            #[trigger] join(pack(words, width)[j].take(h))).len() < width,
        forall|j: int|
            0 <= j < pack(words, width).len() - 1 ==> join(#[trigger] pack(words, width)[j]).len()
                >= width,
    decreases words.len(),
{
    let lines = pack(words, width);
    if words.len() > 0 {
        lemma_fill_bounds(words, 1, width);
        lemma_fill_stops(words, 1, width);
        let rest = words.skip(fill(words, 1, width));
        lemma_pack_greedy(rest, width);
        lemma_pack_places_all(rest, width);
        assert forall|j: int, h: int| 0 <= j < lines.len() && 1 <= h < lines[j].len() implies (
        #[trigger] join(lines[j].take(h))).len() < width by {
            if j == 0 {
                assert(lines[0].take(h) == words.take(h));
            }
        }
    }
}

/// Packing makes up no word: every word of every line is one of the words
/// packed.
pub proof fn lemma_pack_keeps_words(words: Seq<Seq<char>>, width: int)
    ensures
        forall|j: int, h: int|
            0 <= j < pack(words, width).len() && 0 <= h < pack(words, width)[j].len()
                ==> words.contains(#[trigger] pack(words, width)[j][h]),
    decreases words.len(),
{
    if words.len() > 0 {
        lemma_fill_bounds(words, 1, width);
        let n = fill(words, 1, width);
        let rest = words.skip(n);
        lemma_pack_keeps_words(rest, width);
        assert forall|j: int, h: int|
            0 <= j < pack(words, width).len() && 0 <= h < pack(words, width)[j].len()
                implies words.contains(#[trigger] pack(words, width)[j][h]) by {
            if j == 0 {
                assert(pack(words, width)[0][h] == words[h]);
            } else {
                let word = pack(rest, width)[j - 1][h];
                assert(pack(words, width)[j][h] == word);
                assert(rest.contains(word));
                let at = choose|at: int| 0 <= at < rest.len() && rest[at] == word;
                assert(words[n + at] == word);
            }
        }
    }
}

/// One word alone makes one line, which holds it.
pub proof fn lemma_pack_one_word(words: Seq<Seq<char>>, width: int)
    requires
        words.len() == 1,
    ensures
        pack(words, width) == seq![words],
{
    assert(words.take(1) == words);
    assert(pack(words.skip(1), width) == Seq::<Seq<Seq<char>>>::empty());
}

/// Against a width of 0, which a viewport without columns gives, every line
/// holds exactly one word.
pub proof fn lemma_pack_no_width(words: Seq<Seq<char>>, width: int)
    requires
        width <= 0,
    ensures
        pack(words, width).len() == words.len(),
        forall|j: int| 0 <= j < words.len() ==> #[trigger] pack(words, width)[j] == seq![words[j]],
    decreases words.len(),
{
    if words.len() > 0 {
        lemma_pack_no_width(words.skip(1), width);
    }
}

/// The letters of all the words together, spaces not counted.
pub open spec fn letters(words: Seq<Seq<char>>) -> nat
    decreases words.len(),
{
    if words.len() == 0 {
        0
    } else {
        letters(words.drop_last()) + words.last().len()
    }
}

/// A coordinate brought into the range of the viewport's coordinates.
pub open spec fn clamp(x: int) -> u16 {
    if x < 0 {
        0
    } else if x > u16::MAX {
        u16::MAX
    } else {
        x as u16
    }
}

/// The column at which a line of `len` characters starts so that it stands in
/// the middle of `columns` columns: `columns / 2 - len / 2`, and column 0 for
/// a line too long for that.
pub open spec fn center_col(columns: u16, len: nat) -> u16 {
    clamp(columns / 2 - len / 2)
}

/// The row from which the lines are counted down, the first line standing
/// one row below it: the middle row, less half the rows that the words are
/// reckoned to take, which is their letters divided by `rows`.
pub open spec fn start_row(words: Seq<Seq<char>>, rows: u16) -> u16
    recommends
        rows > 0,
{
    clamp(rows / 2 - (letters(words) / rows as nat) / 2)
}

/// The row of line `number`, lines counted from 1: `start + number`, and the
/// last row that has a coordinate where that lies beyond it.
pub open spec fn line_row(start: u16, number: int) -> u16 {
    clamp(start + number)
}

/// The lines that hold `groups` of words in a viewport of `columns` columns,
/// below row `start`.
pub open spec fn place(groups: Seq<Seq<Seq<char>>>, columns: u16, start: u16) -> Seq<LineView> {
    Seq::new(
        groups.len(),
        |j: int|
            LineView {
                tokens: spaced(groups[j]),
                pos: Pos {
                    col: center_col(columns, join(groups[j]).len()),
                    row: line_row(start, j + 1),
                },
            },
    )
}

/// The exercise made of `words` in a viewport of `columns` by `rows`.
pub open spec fn exercise_of(words: Seq<Seq<char>>, columns: u16, rows: u16) -> ExerciseView
    recommends
        rows > 0,
{
    ExerciseView {
        lines: place(pack(words, line_width(columns)), columns, start_row(words, rows)),
        text: join(words),
    }
}

/// The cell of the character at position `at` of the text to type, for an
/// exercise of the lines `lines`. The lines follow one another in the text
/// with one space between each two; that space has the cell behind the last
/// character of the line before it. Beyond the last line there is no cell.
pub open spec fn cell_of(lines: Seq<LineView>, at: int) -> Option<Pos>
    decreases lines.len(),
{
    if lines.len() == 0 || at < 0 {
        None
    } else {
        let len = lines[0].content().len();
        if at < len || (at == len && lines.len() > 1) {
            Some(Pos { col: clamp(lines[0].pos.col + at), row: lines[0].pos.row })
        } else {
            cell_of(lines.skip(1), at - len - 1)
        }
    }
}

/// Joining two lists of words that are not empty is joining each, with a
/// space between the two texts.
pub proof fn lemma_join_concat(a: Seq<Seq<char>>, b: Seq<Seq<char>>)
    requires
        a.len() > 0,
        b.len() > 0,
    ensures
        join(a + b) == join(a) + seq![' '] + join(b),
    decreases b.len(),
{
    assert((a + b).drop_last() == a + b.drop_last());
    if b.len() > 1 {
        lemma_join_concat(a, b.drop_last());
    }
}

/// The joined text has the letters of its words and one space between each
/// two neighbours.
pub proof fn lemma_join_len(words: Seq<Seq<char>>)
    ensures
        join(words).len() == letters(words) + if words.len() == 0 {
            0
        } else {
            words.len() - 1
        },
    decreases words.len(),
{
    if words.len() > 1 {
        lemma_join_len(words.drop_last());
    } else if words.len() == 1 {
        assert(letters(words.drop_last()) == 0);
    }
}

/// Words that stand together in a list are, joined, no longer than the whole
/// list joined.
pub proof fn lemma_join_part(words: Seq<Seq<char>>, from: int, to: int)
    requires
        0 <= from <= to <= words.len(),
    ensures
        join(words.subrange(from, to)).len() <= join(words).len(),
{
    let part = words.subrange(from, to);
    let head = words.take(from);
    let tail = words.skip(to);
    if part.len() > 0 {
        assert(words == head + part + tail);
        if head.len() > 0 {
            lemma_join_concat(head, part);
        }
        if tail.len() > 0 {
            lemma_join_concat(head + part, tail);
        }
    }
}

/// The tokens of a line say, one after the other, what its words say when
/// joined.
pub proof fn lemma_concat_spaced(words: Seq<Seq<char>>)
    ensures
        concat(spaced(words)) == join(words),
    decreases words.len(),
{
    let tokens = spaced(words);
    if words.len() == 1 {
        assert(concat(tokens.drop_last()) == Seq::<char>::empty());
    } else if words.len() > 1 {
        let front = words.drop_last();
        lemma_concat_spaced(front);
        let gap = tokens.drop_last();
        assert(gap.drop_last() == spaced(front));
        assert(concat(tokens) == concat(gap) + tokens.last());
    }
}

/// The lines of an exercise are the lines of the packing of its words: every
/// line has a token, its first token is the first word of its line, and what
/// it shows is its words joined. An exercise of words has a line, and its
/// first line starts with the first word.
pub proof fn lemma_exercise_lines(words: Seq<Seq<char>>, columns: u16, rows: u16)
    ensures
        exercise_of(words, columns, rows).lines.len() == pack(words, line_width(columns)).len(),
        words.len() > 0 ==> exercise_of(words, columns, rows).lines.len() > 0 && exercise_of(
            words,
            columns,
            rows,
        ).lines[0].tokens[0] == words[0],
        forall|j: int|
            0 <= j < exercise_of(words, columns, rows).lines.len() ==> {
                let line = #[trigger] exercise_of(words, columns, rows).lines[j];
                let group = pack(words, line_width(columns))[j];
                &&& line.tokens.len() > 0
                &&& line.tokens[0] == group[0]
                &&& line.content() == join(group)
            },
{
    let groups = pack(words, line_width(columns));
    let lines = exercise_of(words, columns, rows).lines;
    lemma_pack_places_all(words, line_width(columns));
    assert forall|j: int| 0 <= j < lines.len() implies {
        let line = #[trigger] lines[j];
        let group = groups[j];
        &&& line.tokens.len() > 0
        &&& line.tokens[0] == group[0]
        &&& line.content() == join(group)
    } by {
        lemma_concat_spaced(groups[j]);
    }
}

/// An exercise of words that are not empty shows something on each of its
/// lines, and has a text to type if it has a word.
pub proof fn lemma_exercise_shows(words: Seq<Seq<char>>, columns: u16, rows: u16)
    requires
        forall|k: int| 0 <= k < words.len() ==> (#[trigger] words[k]).len() > 0,
    ensures
        forall|j: int|
            0 <= j < exercise_of(words, columns, rows).lines.len() ==> (#[trigger] exercise_of(
                words,
                columns,
                rows,
            ).lines[j]).content().len() > 0,
        words.len() > 0 ==> exercise_of(words, columns, rows).text.len() > 0,
{
    let groups = pack(words, line_width(columns));
    let lines = exercise_of(words, columns, rows).lines;
    lemma_exercise_lines(words, columns, rows);
    lemma_pack_places_all(words, line_width(columns));
    lemma_pack_keeps_words(words, line_width(columns));
    assert forall|j: int| 0 <= j < lines.len() implies (#[trigger] lines[j]).content().len()
        > 0 by {
        let group = groups[j];
        assert(words.contains(group[0]));
        assert(group.subrange(0, 1) == seq![group[0]]);
        lemma_join_part(group, 0, 1);
    }
    if words.len() > 0 {
        assert(words.subrange(0, 1) == seq![words[0]]);
        lemma_join_part(words, 0, 1);
    }
}

/// The column at which a line of `len` characters starts in a viewport of
/// `columns` columns.
pub fn center(columns: u16, len: usize) -> (r: u16)
    ensures
        r == center_col(columns, len as nat),
{
    let middle: u16 = columns / 2;
    let half: usize = len / 2;
    if half >= middle as usize {
        0
    } else {
        middle - half as u16
    }
}

/// The row of line `number`, lines counted from 1 below row `start`.
pub fn row_at(start: u16, number: usize) -> (r: u16)
    ensures
        r == line_row(start, number as int),
{
    let room: u16 = u16::MAX - start;
    if number >= room as usize {
        u16::MAX
    } else {
        start + number as u16
    }
}

/// The cell of the character at position `at` of the text to type.
pub fn cell_at(lines: &Vec<Line>, at: usize) -> (r: Option<Pos>)
    ensures
        r == cell_of(line_views(lines@), at as int),
{
    let ghost all = line_views(lines@);
    let mut rest: usize = at;
    let mut j: usize = 0;
    proof {
        assert(all.skip(0) == all);
    }
    while j < lines.len()
        invariant
            j <= lines.len(),
            all == line_views(lines@),
            cell_of(all.skip(j as int), rest as int) == cell_of(all, at as int),
        decreases lines.len() - j,
    {
        let line = &lines[j];
        let len: usize = line.content().len();
        proof {
            assert(all.skip(j as int).skip(1) == all.skip(j + 1));
        }
        if rest < len || (rest == len && j + 1 < lines.len()) {
            let room: u16 = u16::MAX - line.pos.col;
            let col: u16 = if rest >= room as usize {
                u16::MAX
            } else {
                line.pos.col + rest as u16
            };
            return Some(Pos::new(col, line.pos.row));
        }
        if rest == len {
            assert(cell_of(all.skip(j + 1), -1) == None::<Pos>);
            return None;
        }
        rest = rest - len - 1;
        j += 1;
    }
    None
}

/// Lays `words` out in a viewport of `columns` by `rows`: packs them into
/// lines, centres each line, and joins them into the text to type.
pub fn layout(words: &Vec<Vec<char>>, columns: u16, rows: u16) -> (ex: Exercise)
    requires
        rows > 0,
    ensures
        ex@ == exercise_of(views(words@), columns, rows),
{
    let ghost all = views(words@);
    let text = join_words(words);
    let n: usize = words.len();
    let count: usize = if n == 0 {
        0
    } else {
        proof {
            lemma_join_len(all);
        }
        text.len() - (n - 1)
    };
    let middle: u16 = rows / 2;
    let half: usize = (count / rows as usize) / 2;
    let start: u16 = if half >= middle as usize {
        0
    } else {
        middle - half as u16
    };
    let width: usize = (columns - columns / 2) as usize;
    let mut lines: Vec<Line> = Vec::new();
    let ghost mut groups: Seq<Seq<Seq<char>>> = Seq::empty();
    let mut i: usize = 0;
    proof {
        assert(all.skip(0) == all);
    }
    while i < n
        invariant
            n == words.len(),
            all == views(words@),
            i <= n,
            width == line_width(columns),
            text@ == join(all),
            lines.len() == groups.len(),
            lines.len() <= i,
            groups + pack(all.skip(i as int), width as int) == pack(all, width as int),
            line_views(lines@) == place(groups, columns, start),
        decreases n - i,
    {
        let ghost rest = all.skip(i as int);
        let mut tokens: Vec<Vec<char>> = Vec::new();
        tokens.push(copy_text(&words[i]));
        let mut len: usize = words[i].len();
        let mut k: usize = i + 1;
        while k < n && len < width
            invariant
                n == words.len(),
                all == views(words@),
                rest == all.skip(i as int),
                i < k <= n,
                text@ == join(all),
                len == join(rest.take(k - i)).len(),
                fill(rest, k - i, width as int) == fill(rest, 1, width as int),
                views(tokens@) == spaced(rest.take(k - i)),
            decreases n - k,
        {
            let ghost held = rest.take(k - i);
            let ghost before = views(tokens@);
            let mut gap: Vec<char> = Vec::new();
            gap.push(' ');
            tokens.push(gap);
            tokens.push(copy_text(&words[k]));
            proof {
                let more = rest.take(k - i + 1);
                assert(more == held.push(all[k as int]));
                lemma_join_push(held, all[k as int]);
                assert(more == all.subrange(i as int, k + 1));
                lemma_join_part(all, i as int, k + 1);
                assert(join(all).len() == text.len());
                assert forall|j: int| 0 <= j < views(tokens@).len() implies views(tokens@)[j]
                    == spaced(more)[j] by {
                    if j < before.len() {
                        assert(views(tokens@)[j] == before[j]);
                    }
                }
                assert(views(tokens@).len() == before.len() + 2);
            }
            len = len + 1 + words[k].len();
            k += 1;
        }
        let ghost group = rest.take(k - i);
        let pos = Pos::new(center(columns, len), row_at(start, lines.len() + 1));
        proof {
            lemma_fill_bounds(rest, 1, width as int);
            assert(rest.skip(k - i) == all.skip(k as int));
        }
        let ghost before = line_views(lines@);
        lines.push(Line::new(tokens, pos));
        proof {
            let placed = place(groups.push(group), columns, start);
            assert forall|j: int| 0 <= j < line_views(lines@).len() implies line_views(lines@)[j]
                == placed[j] by {
                if j < before.len() {
                    assert(line_views(lines@)[j] == before[j]);
                }
            }
            groups = groups.push(group);
        }
        i = k;
    }
    Exercise { lines, text }
}

} // verus!
