use pascal_editor::document::extension_string;
use pascal_editor::layout::fitting_count;
use pascal_editor::text::decimal_string;
use pascal_editor::viewport::{count_digits, follow_offset, gutter_width};
use pascal_editor::words::{next_word_col, prev_word_col};

#[test]
fn word_columns_on_given_classes() {
    // "a_b c": three word graphemes, a space, a word grapheme.
    let w = vec![true, true, true, false, true];
    assert_eq!(next_word_col(&w, 0), 4);
    assert_eq!(next_word_col(&w, 3), 4);
    assert_eq!(next_word_col(&w, 4), 5);
    assert_eq!(next_word_col(&w, 5), 5);
    assert_eq!(prev_word_col(&w, 5), 4);
    assert_eq!(prev_word_col(&w, 4), 0);
    assert_eq!(prev_word_col(&w, 2), 0);
    assert_eq!(prev_word_col(&w, 0), 0);
}

#[test]
fn word_columns_on_punctuation_runs() {
    let w = vec![false, false, true, true, false, false];
    assert_eq!(next_word_col(&w, 0), 2);
    assert_eq!(next_word_col(&w, 2), 6);
    assert_eq!(prev_word_col(&w, 6), 2);
    assert_eq!(prev_word_col(&w, 1), 0);
    assert_eq!(next_word_col(&Vec::new(), 0), 0);
}

#[test]
fn follow_offset_scrolls_just_enough() {
    assert_eq!(follow_offset(10, 0, 5), 6);
    assert_eq!(follow_offset(3, 7, 5), 3);
    assert_eq!(follow_offset(8, 6, 5), 6);
    assert_eq!(follow_offset(0, 0, 1), 0);
    assert_eq!(follow_offset(9, 2, 1), 9);
}

#[test]
fn fitting_count_takes_the_longest_run_that_fits() {
    let w = vec![1, 2, 2, 1];
    assert_eq!(fitting_count(&w, 1, 4), 2);
    assert_eq!(fitting_count(&w, 0, 100), 4);
    assert_eq!(fitting_count(&w, 0, 0), 0);
    assert_eq!(fitting_count(&w, 4, 10), 0);
    assert_eq!(fitting_count(&w, 9, 10), 0);
    assert_eq!(fitting_count(&vec![0, 0, 3], 0, 2), 2);
}

#[test]
fn digits_and_gutter() {
    assert_eq!(count_digits(0), 1);
    assert_eq!(count_digits(9), 1);
    assert_eq!(count_digits(10), 2);
    assert_eq!(count_digits(65535), 5);
    assert_eq!(count_digits(usize::MAX), usize::MAX.to_string().len());
    assert_eq!(gutter_width(1), 4);
    assert_eq!(gutter_width(1000), 7);
    assert_eq!(decimal_string(1203), "1203");
    assert_eq!(decimal_string(0), "0");
}

#[test]
fn extensions() {
    assert_eq!(extension_string("a.b.c"), "c");
    assert_eq!(extension_string("trailing."), "");
    assert_eq!(extension_string(".hidden"), "hidden");
    assert_eq!(extension_string("none"), "");
    assert_eq!(extension_string("caf\u{e9}.r\u{e9}s"), "r\u{e9}s");
}
