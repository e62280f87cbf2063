//! A typing session: its settings, its exercise, what was typed, and the
//! steps that lead from one frame to the next.

use crate::args::{arg_views, parse_options, scan, Options};
use crate::input::{apply, edit_for, edit_of, edited, lemma_without_word, Edit, Key};
use crate::layout::{cell_at, cell_of, center, center_col, line_views, Exercise, Pos};
use crate::render::{
    entry_of, entry_runs, error_runs, exercise_of_lines, exercise_runs, frame, frame_of, marked,
    metadata_of, metadata_runs, run_views, BorderType, Rect, Run, RunView,
};
use crate::sample::{
    generate, lemma_made_has_lines, lemma_made_word_count, made_of, words_wanted, DEFAULT_WORDS,
};
use crate::stats::{accuracy_of, parts, raw_wpm_of, results, wpm_of, Stats};
use crate::stopwatch::{seconds, shows, StopWatch};
use crate::text::{chars_of, split_words, views, words_of};
use crate::validate::{lemma_new_errors_bounded, mismatches, new_errors, validate};
use std::collections::HashSet;
use vstd::prelude::*;
use vstd::string::*;

verus! {

broadcast use vstd::std_specs::hash::group_hash_axioms;

/// What a session is doing.
#[derive(Clone, Copy, Debug, PartialEq, Eq, Structural)]
pub enum State {
    /// One exercise, which ends the session when it is finished.
    Main,
    /// One exercise after another.
    Endless,
    /// Help was called for.
    Help,
    /// The session is over.
    Quit,
}

/// A typing session.
pub struct Tecken {
    /// The columns of the viewport.
    pub columns: u16,
    /// The rows of the viewport.
    pub rows: u16,
    /// What the session is doing.
    pub state: State,
    /// The time of the exercise, which runs from the first character typed.
    pub stopwatch: StopWatch,
    /// Whether a character was typed since the exercise was made.
    pub first_char_typed: bool,
    /// The words from which exercises are made.
    pub word_pool: Vec<Vec<char>>,
    /// The exercise that is being typed.
    pub exercise: Exercise,
    /// What was typed so far.
    pub typed: Vec<char>,
    /// The errors made so far.
    pub errors: usize,
    /// The positions at which `typed` did not match the text to type when
    /// it was last validated.
    pub mismatches: HashSet<usize>,
    /// The number of words asked for.
    pub word_quantity: i32,
    /// Whether a new exercise follows each one that is finished.
    pub endless_mode: bool,
    /// Whether frames leave out the time and the number of errors.
    pub hide_metadata: bool,
}

/// What a frame shows, layer by layer from the lowest, and whether the
/// screen is to be cleared once it was shown.
pub struct Frame {
    /// The box around the viewport.
    pub border: Vec<Run>,
    /// The text to type.
    pub exercise: Vec<Run>,
    /// What was typed, over the text to type.
    pub entry: Vec<Run>,
    /// The characters typed wrong, over what was typed.
    pub errors: Vec<Run>,
    /// The time and the number of errors.
    pub metadata: Vec<Run>,
    /// Whether the screen is to be cleared once the frame was shown.
    pub clear: bool,
}

impl Tecken {
    /// Whether the session takes keys and shows frames.
    pub open spec fn typing(self) -> bool {
        self.state == State::Main || self.state == State::Endless
    }

    /// Whether as much was typed as the text to type is long, right or
    /// wrong.
    pub open spec fn finished(self) -> bool {
        self.typed@.len() == self.exercise.text@.len()
    }

    /// The errors that validating what was typed would add.
    pub open spec fn fresh_errors(self) -> nat {
        new_errors(self.exercise.text@, self.typed@, self.mismatches@)
    }

    /// The exercise is made of words drawn from the pool, as many as were
    /// asked for, for the session's viewport.
    pub open spec fn exercise_made(self) -> bool {
        made_of(self.exercise@, self.word_quantity, views(self.word_pool@), self.columns, self.rows)
    }

    /// A session before its setup: no viewport, no words, no exercise,
    /// nothing typed, twelve words asked for.
    pub fn new() -> (r: Self)
        ensures
            r.columns == 0,
            r.rows == 0,
            r.state == State::Main,
            !r.stopwatch.running(),
            r.stopwatch.kept() == 0,
            !r.first_char_typed,
            r.word_pool@.len() == 0,
            r.exercise.lines@.len() == 0,
            r.exercise.text@.len() == 0,
            r.typed@.len() == 0,
            r.errors == 0,
            r.mismatches@ == Set::<usize>::empty(),
            r.word_quantity == DEFAULT_WORDS,
            !r.endless_mode,
            !r.hide_metadata,
    {
        Self {
            columns: 0,
            rows: 0,
            state: State::Main,
            stopwatch: StopWatch::new(),
            first_char_typed: false,
            word_pool: Vec::new(),
            exercise: Exercise { lines: Vec::new(), text: Vec::new() },
            typed: Vec::new(),
            errors: 0,
            mismatches: HashSet::new(),
            word_quantity: DEFAULT_WORDS as i32,
            endless_mode: false,
            hide_metadata: false,
        }
    }

    /// What the arguments `args` make of the settings of `self`.
    pub open spec fn options_of(self, args: Seq<Seq<char>>) -> Options {
        scan(args, 0, Options { words: self.word_quantity, endless: false, help: false })
    }

    /// Takes the settings from `args`, the arguments that follow the
    /// program's name on the command line. A call for help makes the state
    /// `Help`; else `-e` makes it `Endless`.
    pub fn parse_args(&mut self, args: &Vec<String>)
        ensures
            *final(self) == (Tecken {
                word_quantity: old(self).options_of(arg_views(args@)).words,
                endless_mode: old(self).endless_mode || old(self).options_of(
                    arg_views(args@),
                ).endless,
                state: if old(self).options_of(arg_views(args@)).help {
                    State::Help
                } else if old(self).options_of(arg_views(args@)).endless {
                    State::Endless
                } else {
                    old(self).state
                },
                ..*old(self)
            }),
    {
        let got = parse_options(
            args,
            Options { words: self.word_quantity, endless: false, help: false },
        );
        self.word_quantity = got.words;
        if got.endless {
            self.endless_mode = true;
            self.state = State::Endless;
        }
        if got.help {
            self.state = State::Help;
        }
    }

    /// Loads the word pool: the words of `corpus`, split at white space.
    pub fn gen_word_pool(&mut self, corpus: &str)
        ensures
            views(final(self).word_pool@) == words_of(corpus@),
            *final(self) == (Tecken { word_pool: final(self).word_pool, ..*old(self) }),
    {
        let text = chars_of(corpus);
        self.word_pool = split_words(&text);
    }

    /// Makes a new exercise of words drawn from the pool.
    pub fn gen_new_sentence(&mut self)
        requires
            old(self).word_pool@.len() > 0,
            old(self).rows > 0,
        ensures
            final(self).exercise_made(),
            *final(self) == (Tecken { exercise: final(self).exercise, ..*old(self) }),
    {
        self.exercise = generate(self.word_quantity, &self.word_pool, self.columns, self.rows);
    }

    /// Sets the session up for a viewport of `columns` by `rows`: loads the
    /// word pool from `corpus`, and makes the first exercise.
    pub fn setup(&mut self, columns: u16, rows: u16, corpus: &str)
        requires
            rows > 0,
            words_of(corpus@).len() > 0,
        ensures
            final(self).columns == columns,
            final(self).rows == rows,
            views(final(self).word_pool@) == words_of(corpus@),
            final(self).exercise_made(),
            final(self).exercise.lines@.len() > 0,
            final(self).exercise.text@.len() > 0,
            words_of(final(self).exercise.text@).len() == words_wanted(old(self).word_quantity),
            *final(self) == (Tecken {
                columns,
                rows,
                word_pool: final(self).word_pool,
                exercise: final(self).exercise,
                ..*old(self)
            }),
    {
        self.columns = columns;
        self.rows = rows;
        self.gen_word_pool(corpus);
        self.gen_new_sentence();
        proof {
            lemma_made_has_lines(
                self.exercise@,
                self.word_quantity,
                views(self.word_pool@),
                self.columns,
                self.rows,
            );
            lemma_made_word_count(
                self.exercise@,
                self.word_quantity,
                corpus@,
                self.columns,
                self.rows,
            );
        }
    }

    /// `after` is what the key `key` makes of `self`. A session that is not
    /// typing takes no key. A key that stands for no edit changes nothing.
    /// `Quit` ends the session. Any other edit changes what was typed, and
    /// a character typed is marked as typed.
    pub open spec fn keyed(self, key: Key, after: Tecken) -> bool {
        if !self.typing() {
            after == self
        } else {
            match edit_of(key) {
                None => after == self,
                Some(Edit::Quit) => after == (Tecken { state: State::Quit, ..self }),
                Some(edit) => {
                    &&& after.typed@ == edited(self.typed@, edit)
                    &&& after == (Tecken {
                        typed: after.typed,
                        first_char_typed: self.first_char_typed || edit is Insert,
                        ..self
                    })
                },
            }
        }
    }

    /// Takes the key `key`.
    pub fn controls(&mut self, key: Key)
        ensures
            old(self).keyed(key, *final(self)),
    {
        match self.state {
            State::Main | State::Endless => {
                match edit_for(key) {
                    None => {},
                    Some(Edit::Quit) => {
                        self.state = State::Quit;
                    },
                    Some(edit) => {
                        if let Edit::Insert(_) = edit {
                            self.first_char_typed = true;
                        }
                        apply(&mut self.typed, edit);
                    },
                }
            },
            _ => {},
        }
    }

    /// Validates what was typed against the text to type: finds the
    /// mismatches, and counts an error for each that was none at the
    /// validation before.
    pub fn validation(&mut self)
        requires
            old(self).errors + old(self).fresh_errors() <= usize::MAX,
        ensures
            final(self).mismatches@ == mismatches(old(self).exercise.text@, old(self).typed@),
            final(self).errors == old(self).errors + old(self).fresh_errors(),
            *final(self) == (Tecken {
                mismatches: final(self).mismatches,
                errors: final(self).errors,
                ..*old(self)
            }),
    {
        let (found, errors) = validate(
            &self.exercise.text,
            &self.typed,
            &self.mismatches,
            self.errors,
        );
        self.mismatches = found;
        self.errors = errors;
    }

    /// Whether the exercise is finished: as much was typed as the text to
    /// type is long, right or wrong.
    pub fn exercise_finished(&self) -> (r: bool)
        ensures
            r == self.finished(),
    {
        self.typed.len() == self.exercise.text.len()
    }

    /// The column at which `line` starts so that it stands in the middle of
    /// the viewport.
    pub fn center_line(&self, line: String) -> (r: u16)
        ensures
            r == center_col(self.columns, line@.len()),
    {
        center(self.columns, line.as_str().unicode_len())
    }

    /// The cell of the character at position `idx` of the text to type.
    pub fn char_idx_to_pos(&self, idx: usize) -> (r: Option<Pos>)
        ensures
            r == cell_of(line_views(self.exercise.lines@), idx as int),
    {
        cell_at(&self.exercise.lines, idx)
    }

    /// `after` is `self` with a new exercise: one made of words drawn from
    /// the pool, nothing typed, no errors, and an idle stopwatch that keeps
    /// no time.
    pub open spec fn renewed(self, after: Tecken) -> bool {
        &&& after.exercise_made()
        &&& !after.first_char_typed
        &&& after.typed@.len() == 0
        &&& after.errors == 0
        &&& after.mismatches@ == Set::<usize>::empty()
        &&& !after.stopwatch.running()
        &&& after.stopwatch.kept() == 0
        &&& after == (Tecken {
            exercise: after.exercise,
            first_char_typed: after.first_char_typed,
            typed: after.typed,
            errors: after.errors,
            mismatches: after.mismatches,
            stopwatch: after.stopwatch,
            ..self
        })
    }

    /// Goes on to the next exercise of an endless session.
    pub fn endless_mode_next_sentence(&mut self)
        requires
            old(self).word_pool@.len() > 0,
            old(self).rows > 0,
        ensures
            old(self).renewed(*final(self)),
    {
        self.first_char_typed = false;
        self.mismatches = HashSet::new();
        self.typed.clear();
        self.errors = 0;
        self.stopwatch = StopWatch::new();
        self.gen_new_sentence();
    }

    /// The box around the viewport.
    pub open spec fn border(self) -> Rect {
        Rect {
            pos: Pos { col: 0, row: 0 },
            width: self.columns,
            height: self.rows,
            border: BorderType::Double,
        }
    }

    /// A frame can be made: there is a line to put the time and the errors
    /// under, unless they are hidden; and an endless session has words and
    /// rows to make the next exercise of.
    pub open spec fn ready(self) -> bool {
        &&& !self.hide_metadata ==> self.exercise.lines@.len() > 0
        &&& self.state == State::Endless ==> self.word_pool@.len() > 0 && self.rows > 0
    }

    /// `frame` shows the session, with `elapsed` for the time.
    pub open spec fn shown(self, frame: Frame, elapsed: Seq<char>) -> bool {
        let lines = line_views(self.exercise.lines@);
        &&& run_views(frame.border@) == frame_of(self.border())
        &&& run_views(frame.exercise@) == exercise_of_lines(lines)
        &&& run_views(frame.entry@) == entry_of(lines, self.typed@)
        &&& run_views(frame.errors@) == marked(
            lines,
            self.typed@,
            self.mismatches@,
            self.typed@.len() as int,
        )
        &&& run_views(frame.metadata@) == if self.hide_metadata {
            Seq::<RunView>::empty()
        } else {
            metadata_of(lines, self.columns, elapsed, self.errors as nat)
        }
    }

    /// The frame that shows the session, with `elapsed` for the time.
    pub fn frame_with(&self, elapsed: &str) -> (r: Frame)
        requires
            !self.hide_metadata ==> self.exercise.lines@.len() > 0,
        ensures
            self.shown(r, elapsed@),
            !r.clear,
    {
        let border = frame(
            Rect::new(Pos::new(0, 0), self.columns, self.rows, BorderType::Double),
        );
        let metadata = if self.hide_metadata {
            let none: Vec<Run> = Vec::new();
            assert(run_views(none@) == Seq::<RunView>::empty());
            none
        } else {
            metadata_runs(&self.exercise.lines, self.columns, elapsed, self.errors)
        };
        Frame {
            border,
            exercise: exercise_runs(&self.exercise.lines),
            entry: entry_runs(&self.exercise.lines, &self.typed),
            errors: error_runs(&self.exercise.lines, &self.typed, &self.mismatches),
            metadata,
            clear: false,
        }
    }

    /// The frame that shows the session, with the time that the stopwatch
    /// shows.
    pub fn frame(&self) -> (r: Frame)
        requires
            !self.hide_metadata ==> self.exercise.lines@.len() > 0,
        ensures
            exists|elapsed: Seq<char>| shows(self.stopwatch, elapsed) && #[trigger] self.shown(r, elapsed),
            !r.clear,
    {
        let elapsed = self.stopwatch.elapsed();
        self.frame_with(elapsed.as_str())
    }

    /// `after` is `self` after validation.
    pub open spec fn validated(self, after: Tecken) -> bool {
        &&& after.mismatches@ == mismatches(self.exercise.text@, self.typed@)
        &&& after.errors == self.errors + self.fresh_errors()
        &&& after == (Tecken { mismatches: after.mismatches, errors: after.errors, ..self })
    }

    /// `after` is what the end of a frame makes of `self`, and `clear` says
    /// whether the screen is to be cleared. Where a character was typed and
    /// the exercise is finished, a session of one exercise is over and its
    /// stopwatch stopped, and an endless session gets a new exercise and a
    /// clear screen. Else nothing changes.
    pub open spec fn completed(self, after: Tecken, clear: bool) -> bool {
        if self.first_char_typed && self.finished() && self.state == State::Main {
            &&& !clear
            &&& !after.stopwatch.running()
            &&& !self.stopwatch.running() ==> after.stopwatch == self.stopwatch
            &&& after == (Tecken { state: State::Quit, stopwatch: after.stopwatch, ..self })
        } else if self.first_char_typed && self.finished() && self.state == State::Endless {
            clear && self.renewed(after)
        } else {
            !clear && after == self
        }
    }

    /// One frame leads from `self` to `after`: `seen` is `self` after
    /// validation, `frame` shows `seen` with a time `elapsed` that its
    /// stopwatch may show, and `after` is what the end of the frame makes
    /// of `seen`.
    pub open spec fn looped(
        self,
        seen: Tecken,
        elapsed: Seq<char>,
        frame: Frame,
        after: Tecken,
    ) -> bool {
        &&& self.validated(seen)
        &&& shows(seen.stopwatch, elapsed)
        &&& seen.shown(frame, elapsed)
        &&& seen.completed(after, frame.clear)
    }

    /// Makes one frame: validates what was typed, shows the session, and
    /// ends or renews the exercise where it is finished.
    pub fn main_loop(&mut self) -> (r: Frame)
        requires
            old(self).ready(),
            old(self).errors + old(self).fresh_errors() <= usize::MAX,
        ensures
            exists|seen: Tecken, elapsed: Seq<char>|
                #[trigger] old(self).looped(seen, elapsed, r, *final(self)),
            final(self).ready(),
    {
        self.validation();
        let ghost seen = *self;
        let elapsed = self.stopwatch.elapsed();
        let mut shown = self.frame_with(elapsed.as_str());
        if self.first_char_typed && self.exercise_finished() {
            match self.state {
                State::Main => {
                    self.stopwatch.stop();
                    self.state = State::Quit;
                },
                State::Endless => {
                    self.endless_mode_next_sentence();
                    shown.clear = true;
                    proof {
                        lemma_made_has_lines(
                            self.exercise@,
                            self.word_quantity,
                            views(self.word_pool@),
                            self.columns,
                            self.rows,
                        );
                    }
                },
                _ => {},
            }
        }
        assert(old(self).looped(seen, elapsed@, shown, *self));
        shown
    }

    /// `after` is `self` once `key`, if there is one, was taken.
    pub open spec fn key_taken(self, key: Option<Key>, after: Tecken) -> bool {
        match key {
            Some(key) => self.keyed(key, after),
            None => after == self,
        }
    }

    /// `after` is `self` with the stopwatch running, if the session is
    /// typing and a character was typed; a stopwatch that ran already is
    /// left as it is.
    pub open spec fn timed(self, after: Tecken) -> bool {
        if self.typing() && self.first_char_typed {
            &&& after.stopwatch.running()
            &&& self.stopwatch.running() ==> after.stopwatch == self.stopwatch
            &&& after == (Tecken { stopwatch: after.stopwatch, ..self })
        } else {
            after == self
        }
    }

    /// What is typed once `key`, if there is one, was taken.
    pub open spec fn typed_after(self, key: Option<Key>) -> Seq<char> {
        match key {
            Some(key) => match edit_of(key) {
                Some(edit) => if self.typing() {
                    edited(self.typed@, edit)
                } else {
                    self.typed@
                },
                None => self.typed@,
            },
            None => self.typed@,
        }
    }

    /// One turn of the session leads from `self` to `after`: `keyed` is
    /// `self` once the key was taken, `timed` is `keyed` with its stopwatch
    /// set running if a character was typed, and a session that is typing
    /// then makes a frame, which leads to `after`.
    pub open spec fn turned(
        self,
        key: Option<Key>,
        keyed: Tecken,
        timed: Tecken,
        frame: Option<Frame>,
        after: Tecken,
    ) -> bool {
        &&& self.key_taken(key, keyed)
        &&& keyed.timed(timed)
        &&& if timed.typing() {
            &&& frame is Some
            &&& exists|seen: Tecken, elapsed: Seq<char>|
                #[trigger] timed.looped(seen, elapsed, frame->0, after)
        } else {
            frame is None && after == timed
        }
    }

    /// A turn can be made with `key`: a session that is typing can make a
    /// frame, and the errors that the turn may add can be counted.
    pub open spec fn may_turn(self, key: Option<Key>) -> bool {
        self.typing() ==> {
            &&& self.ready()
            &&& self.errors + new_errors(
                self.exercise.text@,
                self.typed_after(key),
                self.mismatches@,
            ) <= usize::MAX
        }
    }

    /// Whether a turn can be made with any key: a session that is typing
    /// can make a frame, and there is room in the count for an error at
    /// every character typed and at one more.
    pub fn can_tick(&self) -> (r: bool)
        ensures
            r == (self.typing() ==> self.ready() && self.errors + self.typed@.len() + 1
                <= usize::MAX),
            r ==> forall|key: Option<Key>| self.may_turn(key),
    {
        let typing = match self.state {
            State::Main | State::Endless => true,
            _ => false,
        };
        if !typing {
            return true;
        }
        let shows = self.hide_metadata || self.exercise.lines.len() > 0;
        let renews = match self.state {
            State::Endless => self.word_pool.len() > 0 && self.rows > 0,
            _ => true,
        };
        let counts = self.typed.len() < usize::MAX && self.errors <= usize::MAX - self.typed.len()
            - 1;
        proof {
            assert forall|key: Option<Key>| shows && renews && counts implies self.may_turn(
                key,
            ) by {
                lemma_without_word(self.typed@);
                lemma_new_errors_bounded(
                    self.exercise.text@,
                    self.typed_after(key),
                    self.mismatches@,
                );
            }
        }
        shows && renews && counts
    }

    /// One turn of the session: takes the key, if there is one; sets the
    /// stopwatch running once a character was typed; and makes a frame
    /// while the session is typing.
    pub fn tick(&mut self, key: Option<Key>) -> (r: Option<Frame>)
        requires
            old(self).may_turn(key),
        ensures
            exists|keyed: Tecken, timed: Tecken|
                #[trigger] old(self).turned(key, keyed, timed, r, *final(self)),
            final(self).typing() ==> final(self).ready(),
    {
        if let Some(key) = key {
            self.controls(key);
        }
        let ghost keyed = *self;
        match self.state {
            State::Main | State::Endless => {
                if self.first_char_typed {
                    self.stopwatch.start();
                }
                let ghost timed = *self;
                let shown = self.main_loop();
                let ghost (seen, elapsed) = choose|seen: Tecken, elapsed: Seq<char>|
                    #[trigger] timed.looped(seen, elapsed, shown, *self);
                let r = Some(shown);
                assert(timed.looped(seen, elapsed, r->0, *self));
                assert(old(self).turned(key, keyed, timed, r, *self));
                r
            },
            _ => {
                assert(old(self).turned(key, keyed, keyed, None, *self));
                None
            },
        }
    }

    /// The statistics of the exercise, from the time that the stopwatch
    /// keeps.
    pub fn results(&self) -> (r: Stats)
        requires
            seconds(self.stopwatch.kept()) > 0,
            self.exercise.text@.len() > 0,
        ensures
            parts(r.raw_wpm) == raw_wpm_of(
                words_of(self.exercise.text@).len(),
                seconds(self.stopwatch.kept()),
            ),
            parts(r.wpm) == wpm_of(
                words_of(self.exercise.text@).len(),
                self.errors as nat,
                seconds(self.stopwatch.kept()),
            ),
            parts(r.accuracy) == accuracy_of(self.exercise.text@.len(), self.errors as nat),
            r.seconds == seconds(self.stopwatch.kept()),
    {
        results(
            self.exercise.word_count(),
            self.exercise.char_count(),
            self.errors,
            self.stopwatch.total(),
        )
    }
}

} // verus!
