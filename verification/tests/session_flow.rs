use std::collections::HashSet;
use std::time::{Duration, Instant};
use tecken::input::{Key, KeyCode, ALT, CONTROL};
use tecken::layout::{layout, Pos};
use tecken::session::{State, Tecken};
use tecken::stopwatch::StopWatch;
use tecken::text::split_words;

const CORPUS: &str = "cat dog\nbird  horse\tmouse";

fn session_chars(s: &str) -> Vec<char> {
    s.chars().collect()
}

fn session_text(chars: &[char]) -> String {
    chars.iter().collect()
}

fn plain(c: char) -> Option<Key> {
    Some(Key { code: KeyCode::Char(c), modifiers: 0 })
}

fn session_with(words: &[&str]) -> Tecken {
    let mut t = Tecken::new();
    t.columns = 80;
    t.rows = 24;
    t.word_pool = words.iter().map(|w| w.chars().collect()).collect();
    t.exercise = layout(&t.word_pool, 80, 24);
    t
}

fn stopped_after(secs: u128) -> StopWatch {
    let mut watch = StopWatch::new();
    watch.start_at(Instant::now());
    watch.stop_after(secs * 1_000_000_000);
    watch
}

fn type_text(t: &mut Tecken, text: &str) {
    for c in text.chars() {
        t.tick(plain(c));
    }
}

#[test]
fn a_new_session_is_empty() {
    let t = Tecken::new();
    assert_eq!((t.columns, t.rows), (0, 0));
    assert_eq!(t.state, State::Main);
    assert!(!t.stopwatch.is_active());
    assert_eq!(t.stopwatch.total(), 0);
    assert!(!t.first_char_typed);
    assert!(t.word_pool.is_empty());
    assert!(t.exercise.lines.is_empty());
    assert!(t.exercise.text.is_empty());
    assert!(t.typed.is_empty());
    assert_eq!(t.errors, 0);
    assert!(t.mismatches.is_empty());
    assert_eq!(t.word_quantity, 12);
    assert!(!t.endless_mode);
    assert!(!t.hide_metadata);
}

#[test]
fn gen_word_pool_loads_the_words_of_the_corpus() {
    let mut t = Tecken::new();
    t.gen_word_pool(CORPUS);
    let expected: Vec<Vec<char>> = CORPUS.split_whitespace().map(|w| w.chars().collect()).collect();
    assert_eq!(t.word_pool, expected);
    assert_eq!(t.word_pool.len(), 5);
}

#[test]
fn setup_loads_the_pool_and_makes_an_exercise() {
    let mut t = Tecken::new();
    t.word_quantity = 5;
    t.setup(80, 24, CORPUS);
    assert_eq!((t.columns, t.rows), (80, 24));
    assert_eq!(t.word_pool.len(), 5);
    let words = split_words(&t.exercise.text);
    assert_eq!(words.len(), 5);
    for word in &words {
        assert!(t.word_pool.contains(word));
    }
    assert!(!t.exercise.lines.is_empty());
    assert_eq!(t.state, State::Main);
    assert!(t.typed.is_empty());
}

#[test]
fn gen_new_sentence_replaces_the_exercise() {
    let mut t = session_with(&["cat", "dog"]);
    t.word_quantity = 3;
    t.gen_new_sentence();
    assert_eq!(split_words(&t.exercise.text).len(), 3);
    t.word_quantity = -1;
    t.gen_new_sentence();
    assert_eq!(split_words(&t.exercise.text).len(), 12);
}

#[test]
fn center_line_centres_in_the_viewport() {
    let t = session_with(&["cat"]);
    assert_eq!(t.center_line(String::from("Errors : 3")), 35);
    assert_eq!(t.center_line(String::from("héllo")), 38);
    assert_eq!(t.center_line(String::new()), 40);
    assert_eq!(t.center_line("x".repeat(300)), 0);
}

#[test]
fn char_idx_to_pos_finds_the_cell_in_the_exercise() {
    let t = session_with(&["cat", "dog"]);
    assert_eq!(t.exercise.lines[0].pos, Pos { col: 37, row: 13 });
    assert_eq!(t.char_idx_to_pos(0), Some(Pos { col: 37, row: 13 }));
    assert_eq!(t.char_idx_to_pos(4), Some(Pos { col: 41, row: 13 }));
    assert_eq!(t.char_idx_to_pos(6), Some(Pos { col: 43, row: 13 }));
    assert_eq!(t.char_idx_to_pos(7), None);
}

#[test]
fn exercise_finished_goes_by_length_alone() {
    let mut t = session_with(&["test"]);
    assert!(!t.exercise_finished());
    t.typed = session_chars("xxx");
    assert!(!t.exercise_finished());
    t.typed = session_chars("xxxx");
    assert!(t.exercise_finished());
    t.typed = session_chars("test");
    assert!(t.exercise_finished());
    t.typed = session_chars("tests");
    assert!(!t.exercise_finished());
}

#[test]
fn wrong_input_of_full_length_finishes_with_an_error_for_each_position() {
    let mut t = session_with(&["test"]);
    type_text(&mut t, "xxxx");
    assert!(t.exercise_finished());
    assert_eq!(t.errors, 4);
    assert_eq!(t.state, State::Quit);
}

#[test]
fn controls_types_characters_and_marks_the_first() {
    let mut t = session_with(&["cat", "dog"]);
    t.controls(Key { code: KeyCode::Char('c'), modifiers: 0 });
    assert!(t.first_char_typed);
    t.controls(Key { code: KeyCode::Char('A'), modifiers: 1 });
    assert_eq!(session_text(&t.typed), "cA");
    assert_eq!(t.state, State::Main);
}

#[test]
fn controls_deletes_characters_and_words() {
    let mut t = session_with(&["cat", "dog"]);
    t.typed = session_chars("cat do");
    t.controls(Key { code: KeyCode::Backspace, modifiers: 0 });
    assert_eq!(session_text(&t.typed), "cat d");
    assert!(!t.first_char_typed);
    t.controls(Key { code: KeyCode::Backspace, modifiers: ALT });
    assert_eq!(session_text(&t.typed), "cat");
    t.controls(Key { code: KeyCode::Backspace, modifiers: ALT });
    assert_eq!(session_text(&t.typed), "");
    t.controls(Key { code: KeyCode::Backspace, modifiers: 0 });
    assert_eq!(session_text(&t.typed), "");
}

#[test]
fn controls_quits_on_escape_and_control_c() {
    let mut t = session_with(&["cat"]);
    t.typed = session_chars("c");
    t.controls(Key { code: KeyCode::Esc, modifiers: 0 });
    assert_eq!(t.state, State::Quit);
    assert_eq!(session_text(&t.typed), "c");
    let mut t = session_with(&["cat"]);
    t.state = State::Endless;
    t.controls(Key { code: KeyCode::Char('c'), modifiers: CONTROL });
    assert_eq!(t.state, State::Quit);
    assert!(t.typed.is_empty());
    assert!(!t.first_char_typed);
}

#[test]
fn controls_takes_no_key_when_the_session_is_not_typing() {
    for state in [State::Quit, State::Help] {
        let mut t = session_with(&["cat"]);
        t.state = state;
        t.controls(Key { code: KeyCode::Char('x'), modifiers: 0 });
        t.controls(Key { code: KeyCode::Esc, modifiers: 0 });
        assert!(t.typed.is_empty());
        assert!(!t.first_char_typed);
        assert_eq!(t.state, state);
    }
}

#[test]
fn controls_passes_over_other_keys() {
    let mut t = session_with(&["cat"]);
    t.controls(Key { code: KeyCode::Other, modifiers: 0 });
    assert!(t.typed.is_empty());
    assert!(!t.first_char_typed);
    assert_eq!(t.state, State::Main);
}

#[test]
fn validation_finds_mismatches_and_counts_new_ones() {
    let mut t = session_with(&["cat", "dog"]);
    t.typed = session_chars("cbt dpg");
    t.validation();
    let expected: HashSet<usize> = [1usize, 5].into_iter().collect();
    assert_eq!(t.mismatches, expected);
    assert_eq!(t.errors, 2);
    t.validation();
    assert_eq!(t.errors, 2);
    t.typed = session_chars("cat dpg");
    t.validation();
    assert_eq!(t.errors, 2);
    assert_eq!(t.mismatches.len(), 1);
}

#[test]
fn main_loop_shows_the_session() {
    let mut t = session_with(&["cat", "dog"]);
    t.typed = session_chars("cbt");
    let frame = t.main_loop();
    assert!(!frame.clear);
    assert_eq!(frame.border.len(), 2 + 2 * 22);
    assert_eq!(frame.border[0].pos, Pos { col: 0, row: 0 });
    assert_eq!(frame.border[0].text.len(), 80);
    assert_eq!(frame.border[0].text[0], '╔');
    assert_eq!(frame.border[45].pos, Pos { col: 0, row: 23 });
    assert_eq!(frame.exercise.len(), 1);
    assert_eq!(session_text(&frame.exercise[0].text), "cat dog");
    assert_eq!(frame.exercise[0].pos, Pos { col: 37, row: 13 });
    assert_eq!(frame.entry.len(), 1);
    assert_eq!(session_text(&frame.entry[0].text), "cbt");
    assert_eq!(frame.entry[0].pos, Pos { col: 37, row: 13 });
    assert_eq!(frame.errors.len(), 1);
    assert_eq!(session_text(&frame.errors[0].text), "b");
    assert_eq!(frame.errors[0].pos, Pos { col: 38, row: 13 });
    assert_eq!(frame.metadata.len(), 2);
    assert_eq!(session_text(&frame.metadata[0].text), "Elapsed : 00:00");
    assert_eq!(frame.metadata[0].pos, Pos { col: 33, row: 15 });
    assert_eq!(session_text(&frame.metadata[1].text), "Errors : 1");
    assert_eq!(frame.metadata[1].pos, Pos { col: 35, row: 16 });
    assert_eq!(t.errors, 1);
    assert_eq!(t.state, State::Main);
}

#[test]
fn main_loop_hides_the_metadata_where_asked() {
    let mut t = session_with(&["cat"]);
    t.hide_metadata = true;
    let frame = t.main_loop();
    assert!(frame.metadata.is_empty());
    assert_eq!(frame.exercise.len(), 1);
}

#[test]
fn main_loop_does_not_end_an_exercise_before_a_character_was_typed() {
    let mut t = session_with(&["cat"]);
    t.typed = session_chars("cat");
    t.main_loop();
    assert_eq!(t.state, State::Main);
}

#[test]
fn tick_without_key_changes_nothing_but_shows_a_frame() {
    let mut t = session_with(&["cat", "dog"]);
    let frame = t.tick(None);
    assert!(frame.is_some());
    assert!(t.typed.is_empty());
    assert!(!t.stopwatch.is_active());
    assert_eq!(t.state, State::Main);
}

#[test]
fn tick_starts_the_stopwatch_at_the_first_character() {
    let mut t = session_with(&["cat", "dog"]);
    t.tick(Some(Key { code: KeyCode::Backspace, modifiers: 0 }));
    assert!(!t.stopwatch.is_active());
    t.tick(plain('c'));
    assert!(t.stopwatch.is_active());
    assert!(t.first_char_typed);
}

#[test]
fn tick_shows_no_frame_once_the_session_is_over() {
    let mut t = session_with(&["cat"]);
    assert!(t.tick(Some(Key { code: KeyCode::Esc, modifiers: 0 })).is_none());
    assert_eq!(t.state, State::Quit);
    assert!(t.tick(plain('x')).is_none());
    assert!(t.typed.is_empty());
    assert!(!t.stopwatch.is_active());
}

#[test]
fn a_text_typed_right_in_thirty_seconds() {
    let mut t = session_with(&["cat", "dog"]);
    type_text(&mut t, "cat dog");
    assert_eq!(t.state, State::Quit);
    assert!(!t.stopwatch.is_active());
    assert_eq!(t.errors, 0);
    assert!(t.exercise_finished());
    t.stopwatch = stopped_after(30);
    let stats = t.results();
    assert_eq!(stats.raw_wpm.num as f64 / stats.raw_wpm.den as f64, 4.0);
    assert_eq!(stats.wpm.num as f64 / stats.wpm.den as f64, 4.0);
    assert_eq!(stats.accuracy.num as f64 / stats.accuracy.den as f64, 100.0);
    assert_eq!(stats.seconds, 30);
}

#[test]
fn the_stopwatch_of_a_finished_exercise_keeps_the_time_since_the_first_character() {
    let mut t = session_with(&["cat", "dog"]);
    let now = Instant::now();
    let from = now.checked_sub(Duration::from_secs(30)).unwrap_or(now);
    let waited = from.elapsed().as_secs();
    t.stopwatch.start_at(from);
    type_text(&mut t, "cat dog");
    assert_eq!(t.state, State::Quit);
    assert!(!t.stopwatch.is_active());
    assert!(t.stopwatch.total() >= waited);
    assert!(t.stopwatch.total() <= waited + 5);
}

#[test]
fn a_text_typed_with_two_errors_in_thirty_seconds() {
    let mut t = session_with(&["cat", "dog"]);
    type_text(&mut t, "cbt dpg");
    assert_eq!(t.state, State::Quit);
    assert_eq!(t.errors, 2);
    t.stopwatch = stopped_after(30);
    let stats = t.results();
    assert_eq!(stats.raw_wpm.num as f64 / stats.raw_wpm.den as f64, 4.0);
    assert_eq!(stats.wpm.num as f64 / stats.wpm.den as f64, 2.0);
    let accuracy = stats.accuracy.num as f64 / stats.accuracy.den as f64;
    assert_eq!(format!("{:.2}", accuracy), "71.43");
}

#[test]
fn errors_that_were_mended_still_count() {
    let mut t = session_with(&["cat"]);
    type_text(&mut t, "x");
    t.tick(Some(Key { code: KeyCode::Backspace, modifiers: 0 }));
    type_text(&mut t, "ca");
    assert_eq!(t.errors, 1);
    assert!(t.mismatches.is_empty());
    t.tick(plain('t'));
    assert_eq!(t.state, State::Quit);
    t.stopwatch = stopped_after(60);
    let stats = t.results();
    assert_eq!(stats.accuracy.num * 3, 200 * stats.accuracy.den as i128);
    assert_eq!((stats.wpm.num, stats.wpm.den), (30, 60));
}

#[test]
fn an_endless_session_goes_on_with_a_new_exercise() {
    let mut t = session_with(&["cat"]);
    t.state = State::Endless;
    t.endless_mode = true;
    t.word_quantity = 2;
    type_text(&mut t, "cx");
    assert_eq!(t.errors, 1);
    let frame = t.tick(plain('t')).unwrap();
    assert!(frame.clear);
    assert_eq!(session_text(&frame.entry[0].text), "cxt");
    assert_eq!(session_text(&frame.errors[0].text), "x");
    assert_eq!(t.state, State::Endless);
    assert!(t.typed.is_empty());
    assert!(t.mismatches.is_empty());
    assert_eq!(t.errors, 0);
    assert!(!t.first_char_typed);
    assert!(!t.stopwatch.is_active());
    assert_eq!(t.stopwatch.total(), 0);
    assert_eq!(session_text(&t.exercise.text), "cat cat");
    let frame = t.tick(None).unwrap();
    assert!(!frame.clear);
    assert!(frame.entry.is_empty());
}

#[test]
fn endless_mode_next_sentence_starts_afresh() {
    let mut t = session_with(&["cat", "dog"]);
    t.word_quantity = 4;
    type_text(&mut t, "cx");
    t.endless_mode_next_sentence();
    assert!(t.typed.is_empty());
    assert!(t.mismatches.is_empty());
    assert_eq!(t.errors, 0);
    assert!(!t.first_char_typed);
    assert!(!t.stopwatch.is_active());
    assert_eq!(split_words(&t.exercise.text).len(), 4);
    assert_eq!(t.word_pool.len(), 2);
    assert_eq!((t.columns, t.rows), (80, 24));
}

#[test]
fn can_tick_asks_for_a_line_to_show_the_metadata_under() {
    let mut t = Tecken::new();
    assert!(!t.can_tick());
    t.hide_metadata = true;
    assert!(t.can_tick());
    let t = session_with(&["cat"]);
    assert!(t.can_tick());
}

#[test]
fn can_tick_asks_for_words_and_rows_in_an_endless_session() {
    let mut t = session_with(&["cat"]);
    t.state = State::Endless;
    assert!(t.can_tick());
    t.rows = 0;
    assert!(!t.can_tick());
    t.rows = 24;
    t.word_pool.clear();
    assert!(!t.can_tick());
    t.state = State::Main;
    assert!(t.can_tick());
}

#[test]
fn can_tick_asks_for_room_in_the_count_of_errors() {
    let mut t = session_with(&["cat"]);
    t.typed = session_chars("ca");
    t.errors = usize::MAX - 3;
    assert!(t.can_tick());
    t.errors = usize::MAX - 2;
    assert!(!t.can_tick());
    t.errors = usize::MAX;
    assert!(!t.can_tick());
}

#[test]
fn can_tick_asks_nothing_of_a_session_that_is_not_typing() {
    for state in [State::Quit, State::Help] {
        let mut t = Tecken::new();
        t.state = state;
        t.errors = usize::MAX;
        assert!(t.can_tick());
        assert!(t.tick(None).is_none());
    }
}
