use typocode::text::{Cell, CellState, Page, Pages};

fn page(content: &str, line_start: usize, line_end: usize) -> Page {
    Page {
        cells: content.chars().map(Cell::pending).collect(),
        line_start,
        line_end,
    }
}

#[test]
fn new_rejects_empty_pages() {
    assert!(Pages::new(Vec::new()).is_none());
}

#[test]
fn next_and_prev_saturate_at_bounds() {
    let mut pages = Pages::new(vec![page("a", 1, 1), page("b", 2, 2)]).unwrap();
    assert_eq!(pages.current_index(), 1);
    pages.prev();
    assert_eq!(pages.current_index(), 1);
    pages.next();
    assert_eq!(pages.current_index(), 2);
    pages.next();
    assert_eq!(pages.current_index(), 2);
    pages.prev();
    assert_eq!(pages.current_index(), 1);
}

#[test]
fn total_reflects_page_count() {
    let pages = Pages::new(vec![page("a", 1, 1), page("b", 2, 2), page("c", 3, 3)]).unwrap();
    assert_eq!(pages.total(), 3);
}

#[test]
fn global_progress_sums_prior_pages_plus_cu_ptr() {
    let mut pages = Pages::new(vec![page("abc", 1, 1), page("de", 2, 2)]).unwrap();
    assert_eq!(pages.global_progress(0), 0);
    assert_eq!(pages.global_progress(2), 2);
    pages.next();
    assert_eq!(pages.global_progress(0), 3);
    assert_eq!(pages.global_progress(1), 4);
}

#[test]
fn restore_progress_marks_prefix_correct_and_lands_on_target_page() {
    let mut pages = Pages::new(vec![page("abc", 1, 1), page("def", 2, 2)]).unwrap();
    let cu_ptr = pages.restore_progress(4);
    assert_eq!(pages.current_index(), 2);
    assert_eq!(cu_ptr, 1);
    for cell in &pages.pages()[0].cells {
        assert_eq!(cell.state, CellState::Correct);
    }
    assert_eq!(pages.pages()[1].cells[0].state, CellState::Correct);
    assert_eq!(pages.pages()[1].cells[1].state, CellState::Pending);
}

#[test]
fn restore_progress_zero_stays_on_first_page() {
    let mut pages = Pages::new(vec![page("abc", 1, 1), page("de", 2, 2)]).unwrap();
    pages.next();
    let cu_ptr = pages.restore_progress(0);
    assert_eq!(pages.current_index(), 1);
    assert_eq!(cu_ptr, 0);
    for cell in &pages.pages()[0].cells {
        assert_eq!(cell.state, CellState::Pending);
    }
}

#[test]
fn restore_progress_at_page_boundary_advances_to_next_page() {
    let mut pages = Pages::new(vec![page("abc", 1, 1), page("de", 2, 2)]).unwrap();
    let cu_ptr = pages.restore_progress(3);
    assert_eq!(pages.current_index(), 2);
    assert_eq!(cu_ptr, 0);
    for cell in &pages.pages()[0].cells {
        assert_eq!(cell.state, CellState::Correct);
    }
    for cell in &pages.pages()[1].cells {
        assert_eq!(cell.state, CellState::Pending);
    }
}

#[test]
fn restore_progress_at_end_of_last_page_parks_cursor_past_end() {
    let mut pages = Pages::new(vec![page("abc", 1, 1), page("de", 2, 2)]).unwrap();
    let cu_ptr = pages.restore_progress(5);
    assert_eq!(pages.current_index(), 2);
    assert_eq!(cu_ptr, 2);
    for p in pages.pages() {
        for cell in &p.cells {
            assert_eq!(cell.state, CellState::Correct);
        }
    }
}

#[test]
fn restore_progress_clamps_overflow_to_total() {
    let mut pages = Pages::new(vec![page("ab", 1, 1)]).unwrap();
    let cu_ptr = pages.restore_progress(99);
    assert_eq!(cu_ptr, 2);
    assert_eq!(pages.current_index(), 1);
}

#[test]
fn restore_progress_resets_stale_correct_states_outside_prefix() {
    let mut pages = Pages::new(vec![page("abcd", 1, 1)]).unwrap();
    for cell in &mut pages.current_mut().cells {
        cell.state = CellState::Correct;
    }
    let cu_ptr = pages.restore_progress(2);
    assert_eq!(cu_ptr, 2);
    assert_eq!(pages.pages()[0].cells[0].state, CellState::Correct);
    assert_eq!(pages.pages()[0].cells[1].state, CellState::Correct);
    assert_eq!(pages.pages()[0].cells[2].state, CellState::Pending);
    assert_eq!(pages.pages()[0].cells[3].state, CellState::Pending);
}

#[test]
fn global_progress_and_restore_progress_round_trip() {
    let mut pages = Pages::new(vec![page("abc", 1, 1), page("de", 2, 2)]).unwrap();
    pages.next();
    let g = pages.global_progress(1);
    pages.restart();
    let cu_ptr = pages.restore_progress(g);
    assert_eq!(pages.current_index(), 2);
    assert_eq!(cu_ptr, 1);
}

#[test]
fn total_cells_sums_every_page() {
    let pages = Pages::new(vec![page("abc", 1, 1), page("", 2, 2), page("de", 3, 3)]).unwrap();
    assert_eq!(pages.total_cells(), 5);
}

#[test]
fn restart_clears_states_and_returns_to_first_page() {
    let mut pages = Pages::new(vec![page("ab", 1, 1), page("cd", 2, 2)]).unwrap();
    pages.current_mut().cells[0].state = CellState::Correct;
    pages.next();
    pages.current_mut().cells[1].state = CellState::Wrong;
    pages.restart();
    assert_eq!(pages.current_index(), 1);
    assert!(pages.is_last() == false);
    for p in pages.pages() {
        for cell in &p.cells {
            assert_eq!(cell.state, CellState::Pending);
        }
    }
}

#[test]
fn page_chars_drop_states() {
    let mut p = page("a\nb", 1, 2);
    p.cells[0].state = CellState::Correct;
    assert_eq!(p.chars(), vec!['a', '\n', 'b']);
}
