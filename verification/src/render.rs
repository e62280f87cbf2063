//! What a frame shows: pieces of text, each with the cell of its first
//! character.

use crate::layout::{
    cell_at, cell_of, center, center_col, line_row, line_views, row_at, Line, LineView, Pos,
};
use crate::text::{append_decimal, chars_of, decimal, slice_text};
use std::collections::HashSet;
use vstd::prelude::*;
use vstd::string::*;

verus! {

broadcast use vstd::std_specs::hash::group_hash_axioms;

/// A piece of text to write from the cell `pos` to the right.
#[derive(Clone, Debug, PartialEq, Eq)]
pub struct Run {
    pub pos: Pos,
    pub text: Vec<char>,
}

/// What a `Run` holds.
pub struct RunView {
    pub pos: Pos,
    pub text: Seq<char>,
}

impl View for Run {
    type V = RunView;

    open spec fn view(&self) -> RunView {
        RunView { pos: self.pos, text: self.text@ }
    }
}

/// The view of each run of a list.
pub open spec fn run_views(runs: Seq<Run>) -> Seq<RunView> {
    Seq::new(runs.len(), |i: int| runs[i]@)
}

/// The lines of a box.
#[derive(Clone, Copy, Debug, PartialEq, Eq, Structural)]
pub enum BorderType {
    Single,
    Double,
}

/// A box on the screen: the cell of its upper left corner, its width and
/// its height in cells.
#[derive(Clone, Copy, Debug, PartialEq, Eq, Structural)]
pub struct Rect {
    pub pos: Pos,
    pub width: u16,
    pub height: u16,
    pub border: BorderType,
}

/// The characters that draw a box.
#[derive(Clone, Copy, Debug, PartialEq, Eq, Structural)]
pub struct Glyphs {
    pub upper_left: char,
    pub level: char,
    pub upper_right: char,
    pub upright: char,
    pub lower_right: char,
    pub lower_left: char,
}

impl Rect {
    /// The box of `width` by `height` cells with its upper left corner at
    /// `pos`, drawn with the lines `border`.
    pub fn new(pos: Pos, width: u16, height: u16, border: BorderType) -> (r: Self)
        ensures
            r == (Rect { pos, width, height, border }),
    {
        Self { pos, width, height, border }
    }

    /// Every cell of the box has coordinates.
    pub open spec fn fits(self) -> bool {
        &&& self.pos.col + self.width <= u16::MAX + 1
        &&& self.pos.row + self.height <= u16::MAX + 1
    }
}

/// The characters that draw a box with the lines `border`.
pub open spec fn glyphs_of(border: BorderType) -> Glyphs {
    match border {
        BorderType::Single => Glyphs {
            upper_left: '\u{256d}',
            level: '\u{2500}',
            upper_right: '\u{256e}',
            upright: '\u{2502}',
            lower_right: '\u{256f}',
            lower_left: '\u{2570}',
        },
        BorderType::Double => Glyphs {
            upper_left: '\u{2554}',
            level: '\u{2550}',
            upper_right: '\u{2557}',
            upright: '\u{2551}',
            lower_right: '\u{255d}',
            lower_left: '\u{255a}',
        },
    }
}

/// An edge of `width` cells that lies level: `left`, then as many `level` as
/// it takes, then `right`; and `left` alone where the width is 1.
pub open spec fn edge(left: char, level: char, right: char, width: int) -> Seq<char> {
    if width <= 1 {
        seq![left]
    } else {
        seq![left] + Seq::new((width - 2) as nat, |i: int| level) + seq![right]
    }
}

/// The upright edges of the first `rows` rows between the upper and the lower
/// edge of `rect`: in each row the left edge, then the right edge unless the
/// box is one cell wide.
pub open spec fn sides(rect: Rect, rows: int) -> Seq<RunView> {
    let text = seq![glyphs_of(rect.border).upright];
    if rect.width > 1 {
        Seq::new(
            (2 * rows) as nat,
            |k: int|
                RunView {
                    pos: Pos {
                        col: if k % 2 == 0 {
                            rect.pos.col
                        } else {
                            (rect.pos.col + rect.width - 1) as u16
                        },
                        row: (rect.pos.row + 1 + k / 2) as u16,
                    },
                    text,
                },
        )
    } else {
        Seq::new(
            rows as nat,
            |k: int|
                RunView { pos: Pos { col: rect.pos.col, row: (rect.pos.row + 1 + k) as u16 }, text },
        )
    }
}

/// The rows of `rect` between its upper and its lower edge.
pub open spec fn inner_rows(rect: Rect) -> int {
    if rect.height >= 2 {
        rect.height - 2
    } else {
        0
    }
}

/// What draws `rect`: nothing for a box without width or height; else its
/// upper edge, its upright edges row by row, and its lower edge if it is
/// more than one cell high.
pub open spec fn frame_of(rect: Rect) -> Seq<RunView> {
    let g = glyphs_of(rect.border);
    if rect.width == 0 || rect.height == 0 {
        Seq::empty()
    } else {
        let upper = RunView {
            pos: rect.pos,
            text: edge(g.upper_left, g.level, g.upper_right, rect.width as int),
        };
        let lower = RunView {
            pos: Pos { col: rect.pos.col, row: (rect.pos.row + rect.height - 1) as u16 },
            text: edge(g.lower_left, g.level, g.lower_right, rect.width as int),
        };
        seq![upper] + sides(rect, inner_rows(rect)) + if rect.height > 1 {
            seq![lower]
        } else {
            Seq::empty()
        }
    }
}

/// What shows the text to type: each line at its cell.
pub open spec fn exercise_of_lines(lines: Seq<LineView>) -> Seq<RunView> {
    Seq::new(lines.len(), |j: int| RunView { pos: lines[j].pos, text: lines[j].content() })
}

/// The smaller of two numbers.
pub open spec fn least(a: int, b: int) -> int {
    if a <= b {
        a
    } else {
        b
    }
}

/// What shows `typed` over the lines: on each line, from its first cell, as
/// much of what is left of `typed` as the line is long. The character typed
/// for the space between two lines is shown on neither. Lines that the
/// typing has not reached show nothing.
pub open spec fn entry_of(lines: Seq<LineView>, typed: Seq<char>) -> Seq<RunView>
    decreases lines.len(),
{
    if lines.len() == 0 || typed.len() == 0 {
        Seq::empty()
    } else {
        let len = lines[0].content().len() as int;
        let shown = typed.take(least(len, typed.len() as int));
        let left = typed.skip(least(len + 1, typed.len() as int));
        seq![RunView { pos: lines[0].pos, text: shown }] + entry_of(lines.skip(1), left)
    }
}

/// What marks the errors among the first `upto` characters of `typed`: each
/// of them that is in `marks` and has a cell, at that cell, in the order of
/// their positions.
pub open spec fn marked(lines: Seq<LineView>, typed: Seq<char>, marks: Set<usize>, upto: int) -> Seq<
    RunView,
>
    decreases upto,
{
    if upto <= 0 {
        Seq::empty()
    } else {
        let before = marked(lines, typed, marks, upto - 1);
        let at = upto - 1;
        if at < typed.len() && marks.contains(at as usize) && cell_of(lines, at) is Some {
            before.push(RunView { pos: cell_of(lines, at)->0, text: seq![typed[at]] })
        } else {
            before
        }
    }
}

/// The words before the time shown.
pub open spec fn elapsed_label() -> Seq<char> {
    "Elapsed : "@
}

/// The words before the number of errors.
pub open spec fn errors_label() -> Seq<char> {
    "Errors : "@
}

/// What shows the time and the errors below the last line: the time two rows
/// below it and the errors three rows below it, each in the middle of the
/// viewport's columns.
pub open spec fn metadata_of(lines: Seq<LineView>, columns: u16, elapsed: Seq<char>, errors: nat) -> Seq<
    RunView,
>
    recommends
        lines.len() > 0,
{
    let row = lines.last().pos.row;
    let time = elapsed_label() + elapsed;
    let count = errors_label() + decimal(errors);
    seq![
        RunView { pos: Pos { col: center_col(columns, time.len()), row: line_row(row, 2) }, text: time },
        RunView {
            pos: Pos { col: center_col(columns, count.len()), row: line_row(row, 3) },
            text: count,
        },
    ]
}

/// The characters that draw a box with the lines `border`.
pub fn glyphs(border: BorderType) -> (r: Glyphs)
    ensures
        r == glyphs_of(border),
{
    match border {
        BorderType::Single => Glyphs {
            upper_left: '\u{256d}',
            level: '\u{2500}',
            upper_right: '\u{256e}',
            upright: '\u{2502}',
            lower_right: '\u{256f}',
            lower_left: '\u{2570}',
        },
        BorderType::Double => Glyphs {
            upper_left: '\u{2554}',
            level: '\u{2550}',
            upper_right: '\u{2557}',
            upright: '\u{2551}',
            lower_right: '\u{255d}',
            lower_left: '\u{255a}',
        },
    }
}

/// An edge of `width` cells that lies level.
fn level_edge(left: char, level: char, right: char, width: u16) -> (r: Vec<char>)
    requires
        width >= 1,
    ensures
        r@ == edge(left, level, right, width as int),
{
    let mut out: Vec<char> = Vec::new();
    out.push(left);
    if width > 1 {
        let mut i: u16 = 0;
        while i < width - 2
            invariant
                width > 1,
                i <= width - 2,
                out@ == seq![left] + Seq::new(i as nat, |k: int| level),
            decreases width - 2 - i,
        {
            out.push(level);
            i += 1;
        }
        out.push(right);
    }
    out
}

/// A run of the one character `c` at the cell `pos`.
fn one(pos: Pos, c: char) -> (r: Run)
    ensures
        r@ == (RunView { pos, text: seq![c] }),
{
    let mut text: Vec<char> = Vec::new();
    text.push(c);
    Run { pos, text }
}

/// What draws `rect`, from its upper edge down.
pub fn frame(rect: Rect) -> (r: Vec<Run>)
    requires
        rect.fits(),
    ensures
        run_views(r@) == frame_of(rect),
{
    let g = glyphs(rect.border);
    let mut out: Vec<Run> = Vec::new();
    if rect.width == 0 || rect.height == 0 {
        return out;
    }
    let left: u16 = rect.pos.col;
    let top: u16 = rect.pos.row;
    out.push(
        Run {
            pos: rect.pos,
            text: level_edge(g.upper_left, g.level, g.upper_right, rect.width),
        },
    );
    let ghost upper = run_views(out@);
    let inner: u16 = if rect.height >= 2 {
        rect.height - 2
    } else {
        0
    };
    let mut dy: u16 = 0;
    while dy < inner
        invariant
            rect.fits(),
            rect.width > 0,
            dy <= inner,
            inner == inner_rows(rect),
            left == rect.pos.col,
            top == rect.pos.row,
            g == glyphs_of(rect.border),
            upper.len() == 1,
            out.len() == 1 + sides(rect, dy as int).len(),
            run_views(out@) == upper + sides(rect, dy as int),
        decreases inner - dy,
    {
        let row: u16 = top + 1 + dy;
        let ghost before = run_views(out@);
        out.push(one(Pos::new(left, row), g.upright));
        if rect.width > 1 {
            out.push(one(Pos::new(left + (rect.width - 1), row), g.upright));
        }
        proof {
            let now = run_views(out@);
            let want = upper + sides(rect, dy + 1);
            assert forall|k: int| 0 <= k < now.len() implies now[k] == want[k] by {
                if k < before.len() {
                    assert(now[k] == before[k]);
                }
            }
        }
        dy += 1;
    }
    if rect.height > 1 {
        let ghost before = run_views(out@);
        out.push(
            Run {
                pos: Pos::new(left, top + (rect.height - 1)),
                text: level_edge(g.lower_left, g.level, g.lower_right, rect.width),
            },
        );
        assert(run_views(out@) == before.push(out@.last()@));
    }
    out
}

/// What shows the text to type: each line at its cell.
pub fn exercise_runs(lines: &Vec<Line>) -> (r: Vec<Run>)
    ensures
        run_views(r@) == exercise_of_lines(line_views(lines@)),
{
    let mut out: Vec<Run> = Vec::new();
    let mut j: usize = 0;
    while j < lines.len()
        invariant
            j <= lines.len(),
            out.len() == j,
            run_views(out@) == exercise_of_lines(line_views(lines@)).take(j as int),
        decreases lines.len() - j,
    {
        out.push(Run { pos: lines[j].pos, text: lines[j].content() });
        j += 1;
    }
    out
}

/// What shows `typed` over the lines.
pub fn entry_runs(lines: &Vec<Line>, typed: &Vec<char>) -> (r: Vec<Run>)
    ensures
        run_views(r@) == entry_of(line_views(lines@), typed@),
{
    let ghost all = line_views(lines@);
    let n: usize = typed.len();
    let mut out: Vec<Run> = Vec::new();
    let mut at: usize = 0;
    let mut j: usize = 0;
    proof {
        assert(all.skip(0) == all);
        assert(typed@.skip(0) == typed@);
    }
    while j < lines.len() && at < n
        invariant
            j <= lines.len(),
            at <= n,
            n == typed.len(),
            all == line_views(lines@),
            run_views(out@) + entry_of(all.skip(j as int), typed@.skip(at as int)) == entry_of(
                all,
                typed@,
            ),
        decreases lines.len() - j,
    {
        let line = &lines[j];
        let len: usize = line.content().len();
        let left: usize = n - at;
        let end: usize = if len >= left {
            n
        } else {
            at + len
        };
        let next: usize = if len >= left {
            n
        } else {
            at + len + 1
        };
        let ghost rest = typed@.skip(at as int);
        out.push(Run { pos: line.pos, text: slice_text(typed, at, end) });
        proof {
            let shown = rest.take(least(len as int, rest.len() as int));
            assert(all.skip(j as int).skip(1) == all.skip(j + 1));
            assert(shown == typed@.subrange(at as int, end as int));
            assert(rest.skip(least(len + 1, rest.len() as int)) == typed@.skip(next as int));
        }
        at = next;
        j += 1;
    }
    out
}

/// What marks the errors in `typed`: each character at a position in `marks`
/// that has a cell, at that cell.
pub fn error_runs(lines: &Vec<Line>, typed: &Vec<char>, marks: &HashSet<usize>) -> (r: Vec<Run>)
    ensures
        run_views(r@) == marked(line_views(lines@), typed@, marks@, typed@.len() as int),
{
    let mut out: Vec<Run> = Vec::new();
    let mut at: usize = 0;
    while at < typed.len()
        invariant
            at <= typed.len(),
            run_views(out@) == marked(line_views(lines@), typed@, marks@, at as int),
        decreases typed.len() - at,
    {
        if marks.contains(&at) {
            if let Some(pos) = cell_at(lines, at) {
                out.push(one(pos, typed[at]));
            }
        }
        at += 1;
    }
    out
}

/// What shows the time `elapsed` and the number `errors` below the last
/// line.
pub fn metadata_runs(lines: &Vec<Line>, columns: u16, elapsed: &str, errors: usize) -> (r: Vec<Run>)
    requires
        lines.len() > 0,
    ensures
        run_views(r@) == metadata_of(line_views(lines@), columns, elapsed@, errors as nat),
{
    let row: u16 = lines[lines.len() - 1].pos.row;
    let mut time = String::from_str("Elapsed : ");
    time.append(elapsed);
    let mut count = String::from_str("Errors : ");
    append_decimal(&mut count, errors as u64);
    let time_text = chars_of(time.as_str());
    let count_text = chars_of(count.as_str());
    let time_pos = Pos::new(center(columns, time_text.len()), row_at(row, 2));
    let count_pos = Pos::new(center(columns, count_text.len()), row_at(row, 3));
    let mut out: Vec<Run> = Vec::new();
    out.push(Run { pos: time_pos, text: time_text });
    out.push(Run { pos: count_pos, text: count_text });
    out
}

} // verus!
