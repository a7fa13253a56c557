use typocode::text::wrap::{gutter_labels, visual_rows_for_line, wrap};

fn chars(s: &str) -> Vec<char> {
    s.chars().collect()
}

#[test]
fn empty_line_takes_one_row() {
    assert_eq!(visual_rows_for_line(0, 10), 1);
}

#[test]
fn line_shorter_than_width_takes_one_row() {
    assert_eq!(visual_rows_for_line(5, 10), 1);
}

#[test]
fn line_equal_to_width_takes_one_row() {
    assert_eq!(visual_rows_for_line(10, 10), 1);
}

#[test]
fn line_longer_than_width_wraps() {
    assert_eq!(visual_rows_for_line(11, 10), 2);
    assert_eq!(visual_rows_for_line(25, 10), 3);
}

#[test]
fn cols_zero_is_clamped_to_one() {
    assert_eq!(visual_rows_for_line(3, 0), 3);
}

#[test]
fn wrap_splits_long_line_into_chunks() {
    let rows = wrap(&chars("abcdefgh"), 3);
    assert_eq!(rows.len(), 3);
    assert_eq!(rows[0], chars("abc"));
    assert_eq!(rows[1], chars("def"));
    assert_eq!(rows[2], chars("gh"));
}

#[test]
fn wrap_preserves_blank_lines() {
    let rows = wrap(&chars("a\n\nb"), 5);
    assert_eq!(rows.len(), 3);
    assert_eq!(rows[0], chars("a"));
    assert!(rows[1].is_empty());
    assert_eq!(rows[2], chars("b"));
}

#[test]
fn wrap_drops_newline_terminators() {
    let rows = wrap(&chars("a\nb\n"), 5);
    assert_eq!(rows, vec![chars("a"), chars("b")]);
}

#[test]
fn wrap_row_count_matches_visual_rows_helper() {
    let content = chars("abcdefghij\nxy");
    let rows = wrap(&content, 4);
    let expected = visual_rows_for_line(10, 4) + visual_rows_for_line(2, 4);
    assert_eq!(rows.len(), expected);
}

#[test]
fn gutter_labels_match_source_line_starts() {
    let labels = gutter_labels(&chars("a\nb\nc"), 80, 1);
    assert_eq!(labels, vec![Some(1), Some(2), Some(3)]);
}

#[test]
fn gutter_labels_leave_wrap_continuations_blank() {
    // "abcdef" at cols=2 wraps to 3 visual rows; only the first carries
    // the line number. The following source line gets Some(2).
    let labels = gutter_labels(&chars("abcdef\nx"), 2, 1);
    assert_eq!(labels, vec![Some(1), None, None, Some(2)]);
}

#[test]
fn gutter_labels_respect_line_start_offset() {
    let labels = gutter_labels(&chars("a\nb"), 80, 42);
    assert_eq!(labels, vec![Some(42), Some(43)]);
}

#[test]
fn gutter_labels_length_matches_wrap_row_count() {
    let content = chars("hello world\nfoo\nbar baz\n");
    let rows = wrap(&content, 4);
    let labels = gutter_labels(&content, 4, 1);
    assert_eq!(rows.len(), labels.len());
}

#[test]
fn wrap_of_lone_newline_is_one_empty_row() {
    let rows = wrap(&chars("\n"), 3);
    assert_eq!(rows, vec![Vec::<char>::new()]);
}

#[test]
fn wrap_of_empty_content_is_empty() {
    assert!(wrap(&[], 3).is_empty());
    assert!(gutter_labels(&[], 3, 1).is_empty());
}
