use std::collections::HashSet;
use tecken::validate::validate;

fn typed_chars(s: &str) -> Vec<char> {
    s.chars().collect()
}

fn marks_of(list: &[usize]) -> HashSet<usize> {
    list.iter().copied().collect()
}

#[test]
fn validate_flags_each_position_that_differs() {
    let (marks, errors) = validate(&typed_chars("cat dog"), &typed_chars("cbt dpg"), &HashSet::new(), 0);
    assert_eq!(marks, marks_of(&[1, 5]));
    assert_eq!(errors, 2);
}

#[test]
fn validate_of_the_same_input_gives_the_same_result() {
    let text = typed_chars("the quick brown fox");
    let input = typed_chars("the quack brewn f");
    let previous = marks_of(&[6]);
    let first = validate(&text, &input, &previous, 3);
    let second = validate(&text, &input, &previous, 3);
    assert_eq!(first, second);
    assert_eq!(first.0, marks_of(&[6, 12]));
    assert_eq!(first.1, 4);
}

#[test]
fn validate_counts_a_held_mismatch_once() {
    let text = typed_chars("cat dog");
    let (marks, errors) = validate(&text, &typed_chars("cb"), &HashSet::new(), 0);
    assert_eq!(errors, 1);
    let (marks, errors) = validate(&text, &typed_chars("cbt"), &marks, errors);
    assert_eq!(errors, 1);
    let (marks, errors) = validate(&text, &typed_chars("cbt "), &marks, errors);
    assert_eq!(marks, marks_of(&[1]));
    assert_eq!(errors, 1);
}

#[test]
fn validate_counts_a_mismatch_again_when_it_is_made_again() {
    let text = typed_chars("cat");
    let (marks, errors) = validate(&text, &typed_chars("cx"), &HashSet::new(), 0);
    assert_eq!((marks.len(), errors), (1, 1));
    let (marks, errors) = validate(&text, &typed_chars("c"), &marks, errors);
    assert_eq!((marks.len(), errors), (0, 1));
    let (marks, errors) = validate(&text, &typed_chars("cy"), &marks, errors);
    assert_eq!((marks.len(), errors), (1, 2));
}

#[test]
fn validate_keeps_the_count_when_mismatches_are_mended() {
    let text = typed_chars("cat dog");
    let (marks, errors) = validate(&text, &typed_chars("xxx"), &HashSet::new(), 0);
    assert_eq!(errors, 3);
    let (marks, errors) = validate(&text, &typed_chars("cat"), &marks, errors);
    assert!(marks.is_empty());
    assert_eq!(errors, 3);
}

#[test]
fn validate_never_lowers_the_count() {
    let text = typed_chars("steady as she goes");
    let inputs = ["s", "sx", "s", "st", "stxxx", "st", "steady", "steady xs", "", "zzzzzzzzzzzzzzzzzzzzzzzz"];
    let mut marks = HashSet::new();
    let mut errors = 0usize;
    for input in inputs {
        let (next_marks, next_errors) = validate(&text, &typed_chars(input), &marks, errors);
        assert!(next_errors >= errors);
        marks = next_marks;
        errors = next_errors;
    }
    assert_eq!(errors, 1 + 3 + 1 + 18);
}

#[test]
fn validate_flags_nothing_beyond_the_shorter_text() {
    let (marks, errors) = validate(&typed_chars("cat"), &typed_chars("catalogue"), &HashSet::new(), 0);
    assert!(marks.is_empty());
    assert_eq!(errors, 0);
    let (marks, errors) = validate(&typed_chars("catalogue"), &typed_chars("cut"), &HashSet::new(), 0);
    assert_eq!(marks, marks_of(&[1]));
    assert_eq!(errors, 1);
}

#[test]
fn validate_of_nothing_typed_finds_nothing() {
    let (marks, errors) = validate(&typed_chars("cat"), &Vec::new(), &marks_of(&[0, 2]), 5);
    assert!(marks.is_empty());
    assert_eq!(errors, 5);
}

#[test]
fn validate_of_the_text_itself_finds_nothing() {
    let text = typed_chars("cat dog");
    let (marks, errors) = validate(&text, &text, &HashSet::new(), 0);
    assert!(marks.is_empty());
    assert_eq!(errors, 0);
}

#[test]
fn validate_of_wrong_input_of_full_length_counts_every_position() {
    let (marks, errors) = validate(&typed_chars("test"), &typed_chars("xxxx"), &HashSet::new(), 0);
    assert_eq!(marks, marks_of(&[0, 1, 2, 3]));
    assert_eq!(errors, 4);
}

#[test]
fn validate_adds_to_the_count_it_is_given() {
    let (_, errors) = validate(&typed_chars("ab"), &typed_chars("xy"), &marks_of(&[1, 7]), 40);
    assert_eq!(errors, 41);
}
