use typocode::text::{paginate, CellState, Page};

fn chars(s: &str) -> Vec<char> {
    s.chars().collect()
}

fn page_chars(page: &Page) -> Vec<char> {
    page.cells.iter().map(|c| c.ch).collect()
}

#[test]
fn empty_input_yields_no_pages() {
    assert!(paginate(&[], 5, 80).is_empty());
}

#[test]
fn single_line_without_newline_is_one_page() {
    let pages = paginate(&chars("hello"), 3, 80);
    assert_eq!(pages.len(), 1);
    assert_eq!(page_chars(&pages[0]), chars("hello"));
    assert_eq!(pages[0].line_start, 1);
    assert_eq!(pages[0].line_end, 1);
}

#[test]
fn single_line_with_trailing_newline_is_one_page() {
    let pages = paginate(&chars("hello\n"), 3, 80);
    assert_eq!(pages.len(), 1);
    assert_eq!(page_chars(&pages[0]), chars("hello\n"));
    assert_eq!(pages[0].line_end, 1);
}

#[test]
fn fits_in_budget_as_single_page() {
    let pages = paginate(&chars("a\nb\nc"), 3, 80);
    assert_eq!(pages.len(), 1);
    assert_eq!(pages[0].line_start, 1);
    assert_eq!(pages[0].line_end, 3);
}

#[test]
fn splits_when_exceeding_budget() {
    let pages = paginate(&chars("a\nb\nc\nd"), 2, 80);
    assert_eq!(pages.len(), 2);
    assert_eq!(page_chars(&pages[0]), chars("a\nb\n"));
    assert_eq!(pages[0].line_start, 1);
    assert_eq!(pages[0].line_end, 2);
    assert_eq!(page_chars(&pages[1]), chars("c\nd"));
    assert_eq!(pages[1].line_start, 3);
    assert_eq!(pages[1].line_end, 4);
}

#[test]
fn rows_per_page_zero_is_clamped_to_one() {
    let pages = paginate(&chars("a\nb\n"), 0, 80);
    assert_eq!(pages.len(), 2);
    assert_eq!(page_chars(&pages[0]), chars("a\n"));
    assert_eq!(page_chars(&pages[1]), chars("b\n"));
}

#[test]
fn pages_concatenate_to_original_input() {
    let input = chars("line1\nline2\nline3\nline4\nline5");
    let pages = paginate(&input, 2, 80);
    let rejoined: Vec<char> = pages
        .iter()
        .flat_map(|p| p.cells.iter().map(|c| c.ch))
        .collect();
    assert_eq!(rejoined, input);
}

#[test]
fn tracks_line_ranges_across_multiple_pages() {
    let pages = paginate(&chars("1\n2\n3\n4\n5\n"), 2, 80);
    assert_eq!(pages.len(), 3);
    assert_eq!((pages[0].line_start, pages[0].line_end), (1, 2));
    assert_eq!((pages[1].line_start, pages[1].line_end), (3, 4));
    assert_eq!((pages[2].line_start, pages[2].line_end), (5, 5));
}

#[test]
fn wrapped_line_consumes_multiple_visual_rows() {
    let pages = paginate(&chars("abcdef\nx"), 2, 3);
    assert_eq!(pages.len(), 2);
    assert_eq!(page_chars(&pages[0]), chars("abcdef\n"));
    assert_eq!((pages[0].line_start, pages[0].line_end), (1, 1));
    assert_eq!(page_chars(&pages[1]), chars("x"));
    assert_eq!((pages[1].line_start, pages[1].line_end), (2, 2));
}

#[test]
fn line_longer_than_budget_gets_its_own_overflowing_page() {
    let pages = paginate(&chars("abcdefghijkl\nfoo"), 2, 3);
    assert_eq!(pages.len(), 2);
    assert_eq!(page_chars(&pages[0]), chars("abcdefghijkl\n"));
    assert_eq!((pages[0].line_start, pages[0].line_end), (1, 1));
    assert_eq!(page_chars(&pages[1]), chars("foo"));
}

#[test]
fn blank_line_still_occupies_one_row() {
    let pages = paginate(&chars("a\n\nb\nc"), 2, 80);
    assert_eq!(pages.len(), 2);
    assert_eq!(page_chars(&pages[0]), chars("a\n\n"));
    assert_eq!((pages[0].line_start, pages[0].line_end), (1, 2));
    assert_eq!(page_chars(&pages[1]), chars("b\nc"));
    assert_eq!((pages[1].line_start, pages[1].line_end), (3, 4));
}

#[test]
fn cells_start_in_pending_state() {
    let pages = paginate(&chars("hi"), 3, 80);
    for cell in &pages[0].cells {
        assert_eq!(cell.state, CellState::Pending);
    }
}

#[test]
fn zero_cols_is_clamped_to_one() {
    // At width 1 "ab" takes two rows, so with a budget of 2 rows the
    // second line moves to a page of its own.
    let pages = paginate(&chars("ab\nc"), 2, 0);
    assert_eq!(pages.len(), 2);
    assert_eq!(page_chars(&pages[0]), chars("ab\n"));
    assert_eq!(page_chars(&pages[1]), chars("c"));
}
