use typocode::text::{Cell, CellState};
use typocode::view::{cursor_visible, uses_frame, CHROME_ROWS};
use typocode::widgets::body::{body_rows, extras_overlay};
use typocode::widgets::chrome::chrome_glyph;
use typocode::widgets::footer::{footer_stats, page_counter};
use typocode::widgets::gutter::gutter_lines;
use typocode::widgets::summary::{lines_width, summary_lines, summary_panel};

fn cells(s: &str) -> Vec<Cell> {
    s.chars().map(Cell::pending).collect()
}

fn row_text(row: &[Cell]) -> String {
    row.iter().map(|c| c.ch).collect()
}

#[test]
fn body_rows_split_at_newlines_and_keep_states() {
    let mut cs = cells("ab\ncd");
    cs[0].state = CellState::Correct;
    cs[1].state = CellState::Wrong;
    let rows = body_rows(&cs, 10);
    assert_eq!(rows.len(), 2);
    assert_eq!(row_text(&rows[0]), "ab");
    assert_eq!(row_text(&rows[1]), "cd");
    assert_eq!(rows[0][0].state, CellState::Correct);
    assert_eq!(rows[0][1].state, CellState::Wrong);
    assert_eq!(rows[1][0].state, CellState::Pending);
}

#[test]
fn body_rows_wrap_long_lines_by_character() {
    let rows = body_rows(&cells("abcde\nf"), 2);
    let texts: Vec<String> = rows.iter().map(|r| row_text(r)).collect();
    assert_eq!(texts, vec!["ab", "cd", "e", "f"]);
}

#[test]
fn body_rows_blank_line_is_an_empty_row_and_trailing_newline_adds_none() {
    let rows = body_rows(&cells("a\n\nb\n"), 4);
    let texts: Vec<String> = rows.iter().map(|r| row_text(r)).collect();
    assert_eq!(texts, vec!["a", "", "b"]);
}

#[test]
fn body_rows_zero_columns_clamp_to_one() {
    let rows = body_rows(&cells("xy"), 0);
    let texts: Vec<String> = rows.iter().map(|r| row_text(r)).collect();
    assert_eq!(texts, vec!["x", "y"]);
}

#[test]
fn body_rows_of_empty_page_is_empty() {
    assert!(body_rows(&[], 5).is_empty());
}

#[test]
fn extras_sit_after_the_cursor_with_special_keys_as_underscores() {
    let overlay = extras_overlay(&cells("abc"), 1, &['x', ' ', '\n'], 10, 5);
    assert_eq!(overlay, vec![(1, 0, 'x'), (2, 0, '_'), (3, 0, '_')]);
}

#[test]
fn extras_below_the_body_are_not_drawn() {
    let overlay = extras_overlay(&cells("abcd"), 1, &['x', 'y'], 2, 1);
    assert_eq!(overlay, vec![(1, 0, 'x')]);
}

#[test]
fn extras_in_a_body_without_columns_are_not_drawn() {
    assert!(extras_overlay(&cells("abc"), 0, &['x'], 0, 5).is_empty());
}

#[test]
fn gutter_lines_right_align_numbers_and_blank_continuations() {
    let lines = gutter_lines(&[Some(7), None, Some(10)], 3);
    assert_eq!(lines, vec![" 7 ".to_string(), "   ".to_string(), "10 ".to_string()]);
}

#[test]
fn gutter_lines_let_a_wide_number_overflow_its_field() {
    assert_eq!(gutter_lines(&[Some(123)], 2), vec!["123 ".to_string()]);
}

#[test]
fn chrome_places_junctions_where_the_seam_meets_a_rule() {
    assert_eq!(chrome_glyph(3, 0, 7, 3, 2, 4), Some('┬'));
    assert_eq!(chrome_glyph(3, 6, 7, 3, 2, 4), Some('┴'));
    assert_eq!(chrome_glyph(3, 2, 7, 3, 2, 4), Some('┼'));
    assert_eq!(chrome_glyph(3, 4, 7, 3, 2, 4), Some('┼'));
    assert_eq!(chrome_glyph(3, 3, 7, 3, 2, 4), Some('│'));
}

#[test]
fn chrome_draws_rules_and_leaves_the_inside_alone() {
    assert_eq!(chrome_glyph(0, 0, 7, 3, 2, 4), Some('─'));
    assert_eq!(chrome_glyph(5, 6, 7, 3, 2, 4), Some('─'));
    assert_eq!(chrome_glyph(1, 4, 7, 3, 2, 4), Some('─'));
    assert_eq!(chrome_glyph(0, 3, 7, 3, 2, 4), None);
    assert_eq!(chrome_glyph(5, 5, 7, 3, 2, 4), None);
}

#[test]
fn footer_order_is_page_time_accuracy_wpm() {
    assert_eq!(page_counter(1, 3), "1/3");
    assert_eq!(footer_stats("01:23", 95, 78), "  01:23  95%  78 WPM");
}

#[test]
fn footer_at_run_start_reads_zero_wpm() {
    assert_eq!(footer_stats("00:00", 100, 0), "  00:00  100%  0 WPM");
}

#[test]
fn summary_at_100_percent() {
    let lines = summary_lines("00:12", 100, 65);
    assert_eq!(
        lines,
        vec![
            "Run complete!".to_string(),
            String::new(),
            "Accuracy:   100%".to_string(),
            "Time:      00:12".to_string(),
            "WPM:          65".to_string(),
            String::new(),
            "Tab to restart   Esc to quit".to_string(),
        ]
    );
    assert_eq!(summary_panel(40, 10, lines_width(&lines) as u16, lines.len() as u16), Some((4, 0, 32, 9)));
}

#[test]
fn summary_at_80_percent() {
    let lines = summary_lines("00:12", 80, 52);
    assert_eq!(
        lines,
        vec![
            "Run complete!".to_string(),
            String::new(),
            "Accuracy:    80%".to_string(),
            "Time:      00:12".to_string(),
            "WPM:          52".to_string(),
            String::new(),
            "Tab to restart   Esc to quit".to_string(),
        ]
    );
    assert_eq!(summary_panel(40, 10, lines_width(&lines) as u16, lines.len() as u16), Some((4, 0, 32, 9)));
}

#[test]
fn summary_at_single_digit_accuracy() {
    let lines = summary_lines("00:12", 7, 4);
    assert_eq!(
        lines,
        vec![
            "Run complete!".to_string(),
            String::new(),
            "Accuracy:     7%".to_string(),
            "Time:      00:12".to_string(),
            "WPM:           4".to_string(),
            String::new(),
            "Tab to restart   Esc to quit".to_string(),
        ]
    );
    assert_eq!(summary_panel(40, 10, lines_width(&lines) as u16, lines.len() as u16), Some((4, 0, 32, 9)));
}

#[test]
fn summary_at_zero_accuracy() {
    let lines = summary_lines("00:12", 0, 0);
    assert_eq!(
        lines,
        vec![
            "Run complete!".to_string(),
            String::new(),
            "Accuracy:     0%".to_string(),
            "Time:      00:12".to_string(),
            "WPM:           0".to_string(),
            String::new(),
            "Tab to restart   Esc to quit".to_string(),
        ]
    );
    assert_eq!(summary_panel(40, 10, lines_width(&lines) as u16, lines.len() as u16), Some((4, 0, 32, 9)));
}

#[test]
fn summary_shows_three_digit_wpm() {
    let lines = summary_lines("00:12", 100, 142);
    assert_eq!(
        lines,
        vec![
            "Run complete!".to_string(),
            String::new(),
            "Accuracy:   100%".to_string(),
            "Time:      00:12".to_string(),
            "WPM:         142".to_string(),
            String::new(),
            "Tab to restart   Esc to quit".to_string(),
        ]
    );
    assert_eq!(summary_panel(40, 10, lines_width(&lines) as u16, lines.len() as u16), Some((4, 0, 32, 9)));
}

#[test]
fn summary_widens_for_a_long_elapsed_time() {
    let lines = summary_lines("123:45", 80, 142);
    assert_eq!(
        lines,
        vec![
            "Run complete!".to_string(),
            String::new(),
            "Accuracy:     80%".to_string(),
            "Time:      123:45".to_string(),
            "WPM:          142".to_string(),
            String::new(),
            "Tab to restart   Esc to quit".to_string(),
        ]
    );
    assert_eq!(summary_panel(40, 10, lines_width(&lines) as u16, lines.len() as u16), Some((4, 0, 32, 9)));
}

#[test]
fn summary_panel_centres_when_it_fits() {
    let lines = summary_lines("00:12", 100, 65);
    assert_eq!(lines_width(&lines), 28);
    assert_eq!(summary_panel(40, 10, 28, 7), Some((4, 0, 32, 9)));
    assert_eq!(summary_panel(41, 13, 28, 7), Some((4, 2, 32, 9)));
}

#[test]
fn summary_panel_falls_back_when_the_body_is_too_small() {
    assert_eq!(summary_panel(31, 10, 28, 7), None);
    assert_eq!(summary_panel(40, 8, 28, 7), None);
}

#[test]
fn frame_needs_room_for_chrome_and_one_body_cell() {
    assert_eq!(CHROME_ROWS, 6);
    assert!(uses_frame(10, 7, 2));
    assert!(!uses_frame(10, 6, 2));
    assert!(!uses_frame(4, 7, 2));
    assert!(uses_frame(5, 7, 2));
}

#[test]
fn cursor_is_shown_only_inside_the_body() {
    assert!(cursor_visible(2, 3, 5, 4));
    assert!(!cursor_visible(5, 0, 5, 4));
    assert!(!cursor_visible(0, 4, 5, 4));
}
