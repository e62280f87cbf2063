use std::collections::HashSet;
use tecken::layout::{layout, Line, Pos};
use tecken::render::{
    entry_runs, error_runs, exercise_runs, frame, glyphs, metadata_runs, BorderType, Rect, Run,
};

fn run_words(words: &[&str]) -> Vec<Vec<char>> {
    words.iter().map(|w| w.chars().collect()).collect()
}

fn run_at(col: u16, row: u16, text: &str) -> Run {
    Run { pos: Pos { col, row }, text: text.chars().collect() }
}

fn two_lines() -> Vec<Line> {
    layout(&run_words(&["aaa", "bbb", "cccc", "dd", "e"]), 20, 10).lines
}

fn keys(s: &str) -> Vec<char> {
    s.chars().collect()
}

#[test]
fn glyphs_are_the_box_drawing_characters() {
    let single = glyphs(BorderType::Single);
    assert_eq!(
        [single.upper_left, single.level, single.upper_right, single.upright, single.lower_right, single.lower_left],
        ['╭', '─', '╮', '│', '╯', '╰']
    );
    let double = glyphs(BorderType::Double);
    assert_eq!(
        [double.upper_left, double.level, double.upper_right, double.upright, double.lower_right, double.lower_left],
        ['╔', '═', '╗', '║', '╝', '╚']
    );
}

#[test]
fn frame_draws_a_box_edge_by_edge() {
    let runs = frame(Rect::new(Pos::new(2, 3), 4, 3, BorderType::Double));
    assert_eq!(
        runs,
        vec![run_at(2, 3, "╔══╗"), run_at(2, 4, "║"), run_at(5, 4, "║"), run_at(2, 5, "╚══╝")]
    );
}

#[test]
fn frame_draws_each_inner_row() {
    let runs = frame(Rect::new(Pos::new(0, 0), 3, 4, BorderType::Single));
    assert_eq!(
        runs,
        vec![
            run_at(0, 0, "╭─╮"),
            run_at(0, 1, "│"),
            run_at(2, 1, "│"),
            run_at(0, 2, "│"),
            run_at(2, 2, "│"),
            run_at(0, 3, "╰─╯"),
        ]
    );
}

#[test]
fn frame_of_a_box_without_width_or_height_is_nothing() {
    assert!(frame(Rect::new(Pos::new(1, 1), 0, 5, BorderType::Single)).is_empty());
    assert!(frame(Rect::new(Pos::new(1, 1), 5, 0, BorderType::Single)).is_empty());
    assert!(frame(Rect::new(Pos::new(1, 1), 0, 0, BorderType::Double)).is_empty());
}

#[test]
fn frame_of_one_cell_is_the_upper_left_corner() {
    assert_eq!(frame(Rect::new(Pos::new(7, 9), 1, 1, BorderType::Single)), vec![run_at(7, 9, "╭")]);
    assert_eq!(frame(Rect::new(Pos::new(7, 9), 1, 1, BorderType::Double)), vec![run_at(7, 9, "╔")]);
}

#[test]
fn frame_of_one_column_has_left_edges_only() {
    assert_eq!(
        frame(Rect::new(Pos::new(4, 1), 1, 3, BorderType::Single)),
        vec![run_at(4, 1, "╭"), run_at(4, 2, "│"), run_at(4, 3, "╰")]
    );
}

#[test]
fn frame_of_one_row_has_the_upper_edge_only() {
    assert_eq!(frame(Rect::new(Pos::new(4, 1), 3, 1, BorderType::Single)), vec![run_at(4, 1, "╭─╮")]);
    assert_eq!(frame(Rect::new(Pos::new(4, 1), 2, 1, BorderType::Double)), vec![run_at(4, 1, "╔╗")]);
}

#[test]
fn frame_of_two_rows_has_no_upright_edge() {
    assert_eq!(
        frame(Rect::new(Pos::new(0, 0), 2, 2, BorderType::Double)),
        vec![run_at(0, 0, "╔╗"), run_at(0, 1, "╚╝")]
    );
}

#[test]
fn frame_reaches_the_last_cell() {
    let runs = frame(Rect::new(Pos::new(65533, 65533), 3, 3, BorderType::Single));
    assert_eq!(
        runs,
        vec![
            run_at(65533, 65533, "╭─╮"),
            run_at(65533, 65534, "│"),
            run_at(65535, 65534, "│"),
            run_at(65533, 65535, "╰─╯"),
        ]
    );
    let whole = frame(Rect::new(Pos::new(0, 0), 65535, 2, BorderType::Single));
    assert_eq!(whole[0].text.len(), 65535);
    assert_eq!(whole.len(), 2);
}

#[test]
fn exercise_runs_show_each_line_at_its_cell() {
    assert_eq!(exercise_runs(&two_lines()), vec![run_at(4, 6, "aaa bbb cccc"), run_at(8, 7, "dd e")]);
    assert!(exercise_runs(&Vec::new()).is_empty());
}

#[test]
fn entry_runs_show_what_was_typed_line_by_line() {
    let lines = two_lines();
    assert_eq!(entry_runs(&lines, &keys("aaa b")), vec![run_at(4, 6, "aaa b")]);
    assert_eq!(
        entry_runs(&lines, &keys("axa bbb cccc dz")),
        vec![run_at(4, 6, "axa bbb cccc"), run_at(8, 7, "dz")]
    );
    assert_eq!(
        entry_runs(&lines, &keys("aaa bbb cccc dd e")),
        vec![run_at(4, 6, "aaa bbb cccc"), run_at(8, 7, "dd e")]
    );
}

#[test]
fn entry_runs_leave_out_the_character_typed_between_lines() {
    let lines = two_lines();
    assert_eq!(entry_runs(&lines, &keys("aaa bbb cccc")), vec![run_at(4, 6, "aaa bbb cccc")]);
    assert_eq!(entry_runs(&lines, &keys("aaa bbb ccccX")), vec![run_at(4, 6, "aaa bbb cccc")]);
    assert_eq!(
        entry_runs(&lines, &keys("aaa bbb ccccXd")),
        vec![run_at(4, 6, "aaa bbb cccc"), run_at(8, 7, "d")]
    );
}

#[test]
fn entry_runs_show_nothing_beyond_the_lines() {
    let lines = two_lines();
    assert_eq!(
        entry_runs(&lines, &keys("aaa bbb cccc dd e and more")),
        vec![run_at(4, 6, "aaa bbb cccc"), run_at(8, 7, "dd e")]
    );
    assert!(entry_runs(&lines, &Vec::new()).is_empty());
    assert!(entry_runs(&Vec::new(), &keys("abc")).is_empty());
}

#[test]
fn error_runs_mark_each_mismatch_at_its_cell() {
    let lines = two_lines();
    let marks: HashSet<usize> = [1usize, 12, 14].into_iter().collect();
    assert_eq!(
        error_runs(&lines, &keys("axa bbb ccccXdz"), &marks),
        vec![run_at(5, 6, "x"), run_at(16, 6, "X"), run_at(9, 7, "z")]
    );
}

#[test]
fn error_runs_pass_over_marks_without_character_or_cell() {
    let lines = two_lines();
    let marks: HashSet<usize> = [0usize, 3, 17, 20, 400].into_iter().collect();
    assert_eq!(error_runs(&lines, &keys("xa"), &marks), vec![run_at(4, 6, "x")]);
    assert_eq!(
        error_runs(&lines, &keys("aaa bbb cccc dd e!!!!"), &marks),
        vec![run_at(4, 6, "a"), run_at(7, 6, " ")]
    );
    assert!(error_runs(&lines, &keys("abc"), &HashSet::new()).is_empty());
}

#[test]
fn metadata_runs_show_time_and_errors_below_the_last_line() {
    let lines = two_lines();
    assert_eq!(
        metadata_runs(&lines, 20, "00:05", 3),
        vec![run_at(3, 9, "Elapsed : 00:05"), run_at(5, 10, "Errors : 3")]
    );
    assert_eq!(
        metadata_runs(&lines, 80, "12:34", 1234),
        vec![run_at(33, 9, "Elapsed : 12:34"), run_at(34, 10, "Errors : 1234")]
    );
}

#[test]
fn metadata_runs_stay_inside_the_coordinates() {
    let lines = vec![Line::new(run_words(&["x"]), Pos::new(0, 65534))];
    assert_eq!(
        metadata_runs(&lines, 4, "00:00", 0),
        vec![run_at(0, 65535, "Elapsed : 00:00"), run_at(0, 65535, "Errors : 0")]
    );
}
