use typocode::app::Cursor;
use typocode::stats::Keystroke;
use typocode::text::{Cell, CellState, Page, Pages};
use typocode::update::{from_key_event, update, InputEvent, KeyCode, KeyEventKind, Msg};

fn make_pages(content: &str) -> Pages {
    let cells: Vec<Cell> = content.chars().map(Cell::pending).collect();
    Pages::new(vec![Page {
        cells,
        line_start: 1,
        line_end: 1,
    }])
    .unwrap()
}

fn mark_correct(pages: &mut Pages, cursor: &mut Cursor, n: usize) {
    for _ in 0..n {
        let ch = pages.current().cells[cursor.cu_ptr].ch;
        update(pages, cursor, Msg::Char(ch));
    }
}

fn make_two_pages() -> Pages {
    let page_a = Page {
        cells: "ab".chars().map(Cell::pending).collect(),
        line_start: 1,
        line_end: 1,
    };
    let page_b = Page {
        cells: "cd".chars().map(Cell::pending).collect(),
        line_start: 2,
        line_end: 2,
    };
    let mut pages = Pages::new(vec![page_a, page_b]).unwrap();
    pages.next();
    pages
}

#[test]
fn correct_char_marks_cell_and_advances_cursor() {
    let mut pages = make_pages("abc");
    let mut cursor = Cursor::default();
    update(&mut pages, &mut cursor, Msg::Char('a'));
    assert_eq!(cursor.cu_ptr, 1);
    assert!(cursor.extras.is_empty());
    assert_eq!(pages.current().cells[0].state, CellState::Correct);
}

#[test]
fn wrong_char_pushes_extra_without_advancing() {
    let mut pages = make_pages("abc");
    let mut cursor = Cursor::default();
    update(&mut pages, &mut cursor, Msg::Char('x'));
    assert_eq!(cursor.cu_ptr, 0);
    assert_eq!(cursor.extras, vec!['x']);
    assert_eq!(pages.current().cells[0].state, CellState::Pending);
}

#[test]
fn correct_char_with_pending_extras_marks_cell_wrong() {
    let mut pages = make_pages("abc");
    let mut cursor = Cursor::default();
    update(&mut pages, &mut cursor, Msg::Char('x'));
    update(&mut pages, &mut cursor, Msg::Char('a'));
    assert_eq!(cursor.cu_ptr, 1);
    assert_eq!(cursor.extras, vec!['x']);
    assert_eq!(pages.current().cells[0].state, CellState::Wrong);
}

#[test]
fn wrong_char_against_expected_newline_caps_extras_at_one() {
    let mut pages = make_pages("\nx");
    let mut cursor = Cursor::default();
    update(&mut pages, &mut cursor, Msg::Char('a'));
    update(&mut pages, &mut cursor, Msg::Char('b'));
    update(&mut pages, &mut cursor, Msg::Char('c'));
    assert_eq!(cursor.cu_ptr, 0);
    assert_eq!(cursor.extras, vec!['a']);
}

#[test]
fn extras_cap_at_remaining_to_eol_plus_one() {
    // Expected "hello\n"; remaining-to-newline = 5, so up to 6 wrong
    // keystrokes are allowed; the 7th is rejected.
    let mut pages = make_pages("hello\n");
    let mut cursor = Cursor::default();
    for _ in 0..6 {
        update(&mut pages, &mut cursor, Msg::Char('x'));
    }
    assert_eq!(cursor.extras.len(), 6);
    update(&mut pages, &mut cursor, Msg::Char('x'));
    assert_eq!(cursor.extras.len(), 6);
}

#[test]
fn extras_cap_shrinks_as_cursor_advances_toward_eol() {
    let mut pages = make_pages("abc\n");
    let mut cursor = Cursor::default();
    mark_correct(&mut pages, &mut cursor, 2); // cu_ptr at 'c'
    // Remaining = 1 ('c'); cap = 2.
    for _ in 0..5 {
        update(&mut pages, &mut cursor, Msg::Char('x'));
    }
    assert_eq!(cursor.extras.len(), 2);
}

#[test]
fn wrong_enter_mid_line_respects_cap() {
    let mut pages = make_pages("abc");
    let mut cursor = Cursor::default();
    for _ in 0..10 {
        update(&mut pages, &mut cursor, Msg::Enter);
    }
    assert_eq!(cursor.extras.len(), 4);
}

#[test]
fn char_at_end_of_page_is_ignored() {
    let mut pages = make_pages("a");
    let mut cursor = Cursor::default();
    update(&mut pages, &mut cursor, Msg::Char('a'));
    assert_eq!(cursor.cu_ptr, 1);
    // Past end: further Char input is a no-op.
    update(&mut pages, &mut cursor, Msg::Char('z'));
    assert_eq!(cursor.cu_ptr, 1);
    assert!(cursor.extras.is_empty());
}

#[test]
fn backspace_pops_extras_before_reverting_cells() {
    let mut pages = make_pages("abc");
    let mut cursor = Cursor::default();
    mark_correct(&mut pages, &mut cursor, 1);
    update(&mut pages, &mut cursor, Msg::Char('x'));
    update(&mut pages, &mut cursor, Msg::Char('y'));
    assert_eq!(cursor.extras, vec!['x', 'y']);

    update(&mut pages, &mut cursor, Msg::Backspace);
    assert_eq!(cursor.extras, vec!['x']);
    assert_eq!(cursor.cu_ptr, 1);

    update(&mut pages, &mut cursor, Msg::Backspace);
    assert!(cursor.extras.is_empty());
    assert_eq!(cursor.cu_ptr, 1);
}

#[test]
fn backspace_reverts_last_cell_to_pending() {
    let mut pages = make_pages("ab");
    let mut cursor = Cursor::default();
    mark_correct(&mut pages, &mut cursor, 2);
    assert_eq!(pages.current().cells[1].state, CellState::Correct);

    update(&mut pages, &mut cursor, Msg::Backspace);
    assert_eq!(cursor.cu_ptr, 1);
    assert_eq!(pages.current().cells[1].state, CellState::Pending);
}

#[test]
fn backspace_at_origin_of_first_page_is_noop() {
    let mut pages = make_pages("abc");
    let mut cursor = Cursor::default();
    update(&mut pages, &mut cursor, Msg::Backspace);
    assert_eq!(cursor.cu_ptr, 0);
    assert!(cursor.extras.is_empty());
}

#[test]
fn backspace_rewinds_across_auto_skipped_whitespace_to_newline() {
    // The state Enter's auto-skip leaves on "a\n  b": cursor at 'b' with
    // the earlier cells already Correct.
    let mut pages = make_pages("a\n  b");
    let mut cursor = Cursor::default();
    for i in 0..4 {
        pages.current_mut().cells[i].state = CellState::Correct;
    }
    cursor.cu_ptr = 4;

    update(&mut pages, &mut cursor, Msg::Backspace);
    assert_eq!(cursor.cu_ptr, 1);
    for i in 1..4 {
        assert_eq!(pages.current().cells[i].state, CellState::Pending);
    }
    assert_eq!(pages.current().cells[0].state, CellState::Correct);
}

#[test]
fn backspace_at_page_start_rewinds_to_previous_page() {
    let mut pages = make_two_pages();
    let mut cursor = Cursor::default();
    update(&mut pages, &mut cursor, Msg::Backspace);
    assert_eq!(pages.current_index(), 1);
    assert_eq!(cursor.cu_ptr, pages.current().cells.len());
}

#[test]
fn enter_on_newline_advances_and_skips_leading_spaces() {
    let mut pages = make_pages("a\n  b");
    let mut cursor = Cursor::default();
    mark_correct(&mut pages, &mut cursor, 1); // type 'a'
    assert_eq!(cursor.cu_ptr, 1); // at \n

    update(&mut pages, &mut cursor, Msg::Enter);
    // Cursor landed on 'b' (index 4): \n + two spaces auto-skipped.
    assert_eq!(cursor.cu_ptr, 4);
    assert_eq!(pages.current().cells[1].state, CellState::Correct);
    assert_eq!(pages.current().cells[2].state, CellState::Correct);
    assert_eq!(pages.current().cells[3].state, CellState::Correct);
    assert_eq!(pages.current().cells[4].state, CellState::Pending);
}

#[test]
fn enter_mid_line_pushes_extra_without_advancing() {
    let mut pages = make_pages("abc");
    let mut cursor = Cursor::default();
    mark_correct(&mut pages, &mut cursor, 1);
    update(&mut pages, &mut cursor, Msg::Enter);
    assert_eq!(cursor.cu_ptr, 1);
    assert_eq!(cursor.extras, vec!['\n']);
}

#[test]
fn enter_at_newline_with_pending_extras_is_noop() {
    let mut pages = make_pages("a\nb");
    let mut cursor = Cursor::default();
    mark_correct(&mut pages, &mut cursor, 1);
    update(&mut pages, &mut cursor, Msg::Char('x'));
    assert_eq!(cursor.extras, vec!['x']);

    update(&mut pages, &mut cursor, Msg::Enter);
    assert_eq!(cursor.cu_ptr, 1);
    assert_eq!(cursor.extras, vec!['x']);
    assert_eq!(pages.current().cells[1].state, CellState::Pending);
}

#[test]
fn enter_at_last_cell_advances_to_next_page() {
    let mut pages = make_two_pages();
    let mut cursor = Cursor::default();
    pages.prev(); // start on page 1
    mark_correct(&mut pages, &mut cursor, 1); // "ab", now at 'b' (last cell)
    assert_eq!(pages.current_index(), 1);
    assert_eq!(cursor.cu_ptr, 1);

    update(&mut pages, &mut cursor, Msg::Enter);
    assert_eq!(pages.current_index(), 2);
    assert_eq!(cursor.cu_ptr, 0);
    assert!(cursor.extras.is_empty());
}

#[test]
fn enter_on_final_page_last_cell_is_noop() {
    let mut pages = make_pages("ab");
    let mut cursor = Cursor::default();
    mark_correct(&mut pages, &mut cursor, 1); // at 'b' (last cell of only page)

    update(&mut pages, &mut cursor, Msg::Enter);
    assert_eq!(pages.current_index(), 1);
    assert_eq!(cursor.cu_ptr, 1);
    // At a non-newline cell it's a wrong Enter, so it pushes an extra.
    assert_eq!(cursor.extras, vec!['\n']);
}

#[test]
fn space_on_expected_space_advances_cursor() {
    let mut pages = make_pages("a b");
    let mut cursor = Cursor::default();
    mark_correct(&mut pages, &mut cursor, 1);
    update(&mut pages, &mut cursor, Msg::Space);
    assert_eq!(cursor.cu_ptr, 2);
    assert_eq!(pages.current().cells[1].state, CellState::Correct);
}

#[test]
fn space_against_expected_newline_caps_extras_at_one() {
    let mut pages = make_pages("\n");
    let mut cursor = Cursor::default();
    update(&mut pages, &mut cursor, Msg::Space);
    update(&mut pages, &mut cursor, Msg::Space);
    update(&mut pages, &mut cursor, Msg::Space);
    assert_eq!(cursor.cu_ptr, 0);
    assert_eq!(cursor.extras, vec![' ']);
}

#[test]
fn space_mid_line_wrong_stacks_extras() {
    let mut pages = make_pages("abc");
    let mut cursor = Cursor::default();
    update(&mut pages, &mut cursor, Msg::Space);
    update(&mut pages, &mut cursor, Msg::Space);
    assert_eq!(cursor.cu_ptr, 0);
    assert_eq!(cursor.extras, vec![' ', ' ']);
}

#[test]
fn tab_restarts_cells_cursor_and_page() {
    let mut pages = make_two_pages();
    let mut cursor = Cursor::default();
    // Dirty state: on page 2, type a correct char and a wrong extra.
    mark_correct(&mut pages, &mut cursor, 1);
    update(&mut pages, &mut cursor, Msg::Char('z'));
    assert_eq!(pages.current_index(), 2);
    assert!(!cursor.extras.is_empty());

    update(&mut pages, &mut cursor, Msg::Tab);
    assert_eq!(pages.current_index(), 1);
    assert_eq!(cursor.cu_ptr, 0);
    assert!(cursor.extras.is_empty());
}

#[test]
fn quit_reports_should_quit_and_changes_nothing() {
    let mut pages = make_pages("abc");
    let mut cursor = Cursor::default();
    let out = update(&mut pages, &mut cursor, Msg::Quit);
    assert!(out.should_quit);
    assert_eq!(out.keystroke, None);
    assert_eq!(cursor.cu_ptr, 0);
}

#[test]
fn keystrokes_are_classified() {
    let mut pages = make_pages("ab\nc");
    let mut cursor = Cursor::default();
    assert_eq!(update(&mut pages, &mut cursor, Msg::Char('a')).keystroke, Some(Keystroke::Correct));
    assert_eq!(update(&mut pages, &mut cursor, Msg::Char('x')).keystroke, Some(Keystroke::Incorrect));
    assert_eq!(update(&mut pages, &mut cursor, Msg::Backspace).keystroke, None);
    assert_eq!(update(&mut pages, &mut cursor, Msg::Char('b')).keystroke, Some(Keystroke::Correct));
    assert_eq!(update(&mut pages, &mut cursor, Msg::Enter).keystroke, Some(Keystroke::Correct));
    assert_eq!(update(&mut pages, &mut cursor, Msg::Char('c')).keystroke, Some(Keystroke::Correct));
    // Past the end of the final page every typing key is a wrong one.
    assert_eq!(update(&mut pages, &mut cursor, Msg::Char('d')).keystroke, Some(Keystroke::Incorrect));
    assert_eq!(update(&mut pages, &mut cursor, Msg::Space).keystroke, Some(Keystroke::Incorrect));
    assert_eq!(update(&mut pages, &mut cursor, Msg::Enter).keystroke, Some(Keystroke::Incorrect));
    assert_eq!(update(&mut pages, &mut cursor, Msg::Tab).keystroke, None);
}

#[test]
fn backspace_after_correct_char_restores_state() {
    let mut pages = make_pages("xy");
    let mut cursor = Cursor::default();
    update(&mut pages, &mut cursor, Msg::Char('x'));
    update(&mut pages, &mut cursor, Msg::Backspace);
    assert_eq!(cursor.cu_ptr, 0);
    assert!(cursor.extras.is_empty());
    assert_eq!(pages.current().cells[0].state, CellState::Pending);
}

#[test]
fn key_events_map_to_messages() {
    let press = |code| InputEvent::Key { code, kind: KeyEventKind::Press };
    assert_eq!(from_key_event(&press(KeyCode::Esc)), Some(Msg::Quit));
    assert_eq!(from_key_event(&press(KeyCode::Tab)), Some(Msg::Tab));
    assert_eq!(from_key_event(&press(KeyCode::Backspace)), Some(Msg::Backspace));
    assert_eq!(from_key_event(&press(KeyCode::Enter)), Some(Msg::Enter));
    assert_eq!(from_key_event(&press(KeyCode::Char(' '))), Some(Msg::Space));
    assert_eq!(from_key_event(&press(KeyCode::Char('q'))), Some(Msg::Char('q')));
    assert_eq!(from_key_event(&press(KeyCode::Other)), None);
    assert_eq!(
        from_key_event(&InputEvent::Key { code: KeyCode::Char('q'), kind: KeyEventKind::Release }),
        None
    );
    assert_eq!(from_key_event(&InputEvent::Other), None);
}
