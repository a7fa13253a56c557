use typocode::app::{App, Cursor, Phase};
use typocode::comments::{lookup_by_extension, strip_by_extension};
use typocode::file::{load_text, parse, LoadOptions, SourceFile};
use typocode::stats::{Keystroke, Stats};
use typocode::text::{paginate, wrap_content, Cell, CellState, Page, Pages};
use typocode::timer::Stopwatch;
use typocode::update::{update, InputEvent, KeyCode, KeyEventKind, Msg};

fn source(text: &str) -> SourceFile {
    parse(text).unwrap()
}

fn single_page(content: &str) -> Pages {
    Pages::new(vec![Page {
        cells: content.chars().map(Cell::pending).collect(),
        line_start: 1,
        line_end: 1,
    }])
    .unwrap()
}

fn states(pages: &Pages) -> Vec<CellState> {
    pages.current().cells.iter().map(|c| c.state).collect()
}

#[test]
fn every_page_but_the_last_ends_at_a_line_break() {
    let content: Vec<char> = "fn a() {}\nlet b = 1;\n\nlet c = 2;\nlast".chars().collect();
    for rows in 1..5 {
        for cols in 1..12 {
            let pages = paginate(&content, rows, cols);
            assert!(!pages.is_empty());
            for (i, page) in pages.iter().enumerate() {
                assert!(!page.cells.is_empty());
                if i + 1 < pages.len() {
                    assert_eq!(page.cells.last().unwrap().ch, '\n');
                }
            }
        }
    }
}

#[test]
fn every_page_fits_its_row_budget_unless_it_holds_one_tall_line() {
    let content: Vec<char> = "short\na much longer line here\n\nx\nanother longer line\nend".chars().collect();
    for rows in 1..6 {
        for cols in 1..10 {
            for page in paginate(&content, rows, cols) {
                let text: Vec<char> = page.cells.iter().map(|c| c.ch).collect();
                let visual = wrap_content(&text, cols).len();
                let newlines = text.iter().filter(|c| **c == '\n').count();
                let single_line = newlines == 0 || (newlines == 1 && *text.last().unwrap() == '\n');
                assert!(visual <= rows || single_line, "rows {rows} cols {cols}: {text:?}");
            }
        }
    }
}

#[test]
fn every_page_but_the_last_is_full() {
    let content: Vec<char> = "short\na much longer line here\n\nx\nanother longer line\nend".chars().collect();
    for rows in 1..6 {
        for cols in 1..10 {
            let pages = paginate(&content, rows, cols);
            for k in 0..pages.len().saturating_sub(1) {
                let text: Vec<char> = pages[k].cells.iter().map(|c| c.ch).collect();
                let next: Vec<char> = pages[k + 1].cells.iter().map(|c| c.ch).collect();
                let first_line: Vec<char> = next.iter().copied().take_while(|c| *c != '\n').collect();
                let used = wrap_content(&text, cols).len();
                let needed = wrap_content(&first_line, cols).len().max(1);
                assert!(used + needed > rows, "rows {rows} cols {cols}: page {k}");
            }
        }
    }
}

#[test]
fn restoring_a_global_offset_returns_to_the_same_position() {
    let content: Vec<char> = "ab\ncd\nef\ngh".chars().collect();
    let mut pages = Pages::new(paginate(&content, 1, 10)).unwrap();
    assert_eq!(pages.total(), 4);
    for page in 0..pages.total() {
        let len = pages.pages()[page].cells.len();
        let last = page + 1 == pages.total();
        let end = if last { len + 1 } else { len };
        for cu in 0..end {
            while pages.current_index() > 1 {
                pages.prev();
            }
            for _ in 0..page {
                pages.next();
            }
            let global = pages.global_progress(cu);
            let restored = pages.restore_progress(global);
            assert_eq!(pages.current_index(), page + 1);
            assert_eq!(restored, cu);
        }
    }
}

#[test]
fn backspace_undoes_a_correct_keystroke() {
    let mut pages = single_page("xy\n");
    let mut cursor = Cursor::default();
    update(&mut pages, &mut cursor, Msg::Char('x'));
    assert_eq!(cursor.cu_ptr, 1);
    update(&mut pages, &mut cursor, Msg::Backspace);
    assert_eq!(cursor.cu_ptr, 0);
    assert!(cursor.extras.is_empty());
    assert_eq!(states(&pages), vec![CellState::Pending; 3]);
}

#[test]
fn backspace_undoes_a_wrong_keystroke() {
    let mut pages = single_page("xy\n");
    let mut cursor = Cursor::default();
    update(&mut pages, &mut cursor, Msg::Char('x'));
    update(&mut pages, &mut cursor, Msg::Char('q'));
    assert_eq!(cursor.extras, vec!['q']);
    update(&mut pages, &mut cursor, Msg::Backspace);
    assert_eq!(cursor.cu_ptr, 1);
    assert!(cursor.extras.is_empty());
    assert_eq!(states(&pages), vec![CellState::Correct, CellState::Pending, CellState::Pending]);
}

#[test]
fn wrong_keystrokes_never_touch_the_cells() {
    let mut pages = single_page("ab\n");
    let mut cursor = Cursor::default();
    for c in ['z', 'z', 'z', 'z', 'z'] {
        update(&mut pages, &mut cursor, Msg::Char(c));
        assert_eq!(cursor.cu_ptr, 0);
        assert_eq!(states(&pages), vec![CellState::Pending; 3]);
    }
    // Two characters to the end of the line, plus one past it.
    assert_eq!(cursor.extras.len(), 3);
}

#[test]
fn wrong_keystrokes_never_raise_wpm() {
    let mut s = Stats::new();
    for _ in 0..10 {
        s.record(Keystroke::Correct);
    }
    let before = s.wpm(60_000_000_000);
    for _ in 0..50 {
        s.record(Keystroke::Incorrect);
    }
    assert_eq!(s.wpm(60_000_000_000), before);
    s.record(Keystroke::Correct);
    assert!(s.wpm(60_000_000_000) >= before);
}

#[test]
fn parsed_content_ends_on_a_visible_character() {
    assert_eq!(parse("ab \t\r\n\n").unwrap().content.last(), Some(&'b'));
    assert_eq!(parse("a\u{2014}\n").unwrap().content.last(), Some(&'-'));
    assert_eq!(parse("a\u{00A0}\n").unwrap().content.last(), Some(&' '));
}

#[test]
fn extension_lookup_ignores_ascii_case_and_takes_the_first_match() {
    let rust = lookup_by_extension("RS").unwrap();
    assert_eq!(rust.names, vec!["rust"]);
    let c = lookup_by_extension("h").unwrap();
    assert_eq!(c.names, vec!["c"]);
    assert!(lookup_by_extension("").is_none());
    assert!(lookup_by_extension("rs.bak").is_none());
}

#[test]
fn extension_case_does_not_change_the_language() {
    assert_eq!(strip_by_extension("x = 1 # note\n", Some("PY")).unwrap(), "x = 1\n");
    assert_eq!(strip_by_extension("x = 1 # note\n", Some("rs")).unwrap(), "x = 1 # note\n");
}

#[test]
fn stripping_keeps_code_without_comments_apart_from_trailing_spaces() {
    let text = "let a = 1;   \nlet b = \"//\";\n";
    let out = load_text(text, Some("rs"), LoadOptions { strip_comments: true }).unwrap();
    let played: String = out.content.iter().collect();
    assert_eq!(played, "let a = 1;\nlet b = \"//\";");
}

fn key(c: char) -> InputEvent {
    InputEvent::Key {
        code: KeyCode::Char(c),
        kind: KeyEventKind::Press,
    }
}

#[test]
fn typing_the_whole_text_finishes_the_run_and_freezes_the_clock() {
    let mut app = App::new(source("ab"));
    app.ensure_paginated(10, 80);
    app.handle_event(&key('a'), 1_000);
    assert_eq!(app.phase(), Phase::Playing);
    app.handle_event(&key('b'), 4_000);
    assert_eq!(app.phase(), Phase::Finished);
    assert_eq!(app.stopwatch().elapsed(90_000), 3_000);
    assert_eq!(app.stats().correct(), 2);
    assert_eq!(app.stats().accuracy_percent(), 100);
}

#[test]
fn the_finish_screen_only_hears_tab_and_escape() {
    let mut app = App::new(source("a"));
    app.ensure_paginated(10, 80);
    app.dispatch(Msg::Char('a'), 0);
    assert_eq!(app.phase(), Phase::Finished);
    app.dispatch(Msg::Char('z'), 10);
    app.dispatch(Msg::Backspace, 20);
    assert_eq!(app.phase(), Phase::Finished);
    assert_eq!(app.stats().total(), 1);
    app.dispatch(Msg::Tab, 30);
    assert_eq!(app.phase(), Phase::Playing);
    assert_eq!(app.stats().total(), 0);
    assert_eq!(app.cursor().cu_ptr, 0);
    assert!(!app.stopwatch().is_running());
    app.dispatch(Msg::Quit, 40);
    assert!(app.should_quit());
}

#[test]
fn key_releases_and_other_events_change_nothing() {
    let mut app = App::new(source("ab"));
    app.ensure_paginated(10, 80);
    app.handle_event(
        &InputEvent::Key {
            code: KeyCode::Char('a'),
            kind: KeyEventKind::Release,
        },
        5,
    );
    app.handle_event(&InputEvent::Other, 6);
    assert_eq!(app.cursor().cu_ptr, 0);
    assert_eq!(app.stats().total(), 0);
    assert!(!app.stopwatch().is_running());
}

#[test]
fn resizing_repaginates_and_moves_the_cursor_home() {
    let mut app = App::new(source("abc\ndef\nghi"));
    app.ensure_paginated(1, 80);
    assert_eq!(app.pages().as_ref().unwrap().total(), 3);
    app.dispatch(Msg::Char('a'), 0);
    assert_eq!(app.cursor().cu_ptr, 1);
    app.ensure_paginated(1, 80);
    assert_eq!(app.cursor().cu_ptr, 1);
    app.ensure_paginated(3, 80);
    assert_eq!(app.pages().as_ref().unwrap().total(), 1);
    assert_eq!(app.cursor().cu_ptr, 0);
}

#[test]
fn wrapped_rows_never_exceed_the_width() {
    let content: Vec<char> = "abcdefghij\n\nklm\nnopqrstuvwxyz".chars().collect();
    for cols in 0..14 {
        for row in wrap_content(&content, cols) {
            assert!(row.len() <= cols.max(1));
        }
    }
}

#[test]
fn typing_without_mistakes_reads_full_accuracy() {
    let mut s = Stats::new();
    for _ in 0..7 {
        s.record(Keystroke::Correct);
    }
    assert_eq!(s.accuracy_percent(), 100);
}

#[test]
fn keys_past_the_end_of_the_page_change_nothing_but_count_as_incorrect() {
    let mut pages = single_page("ab");
    let mut cursor = Cursor {
        cu_ptr: 2,
        extras: vec![],
    };
    let out = update(&mut pages, &mut cursor, Msg::Char('x'));
    assert_eq!(out.keystroke, Some(Keystroke::Incorrect));
    let out = update(&mut pages, &mut cursor, Msg::Space);
    assert_eq!(out.keystroke, Some(Keystroke::Incorrect));
    let out = update(&mut pages, &mut cursor, Msg::Enter);
    assert_eq!(out.keystroke, Some(Keystroke::Incorrect));
    assert_eq!(cursor.cu_ptr, 2);
    assert!(cursor.extras.is_empty());
    assert_eq!(states(&pages), vec![CellState::Pending; 2]);
    let out = update(&mut pages, &mut cursor, Msg::Backspace);
    assert_eq!(out.keystroke, None);
}

#[test]
fn stopwatch_reads_from_first_start_after_reset_to_first_stop() {
    let mut sw = Stopwatch::new();
    sw.start(100);
    sw.stop(150);
    sw.reset();
    sw.start(1_000);
    sw.start(1_500);
    assert_eq!(sw.elapsed(1_200), 200);
    sw.stop(1_700);
    sw.stop(9_000);
    sw.start(9_500);
    assert_eq!(sw.elapsed(20_000), 700);
    sw.reset();
    assert_eq!(sw.elapsed(20_000), 0);
    sw.start(30_000);
    assert_eq!(sw.elapsed(29_000), 0);
}

#[test]
fn keys_typed_after_the_last_character_with_extras_pending_still_count() {
    let mut app = App::new(source("ab"));
    app.ensure_paginated(10, 80);
    app.dispatch(Msg::Char('a'), 0);
    app.dispatch(Msg::Char('x'), 10);
    app.dispatch(Msg::Char('b'), 20);
    // The last cell was typed while a wrong key was pending: not done yet.
    assert_eq!(app.phase(), Phase::Playing);
    app.dispatch(Msg::Char('y'), 30);
    app.dispatch(Msg::Space, 40);
    app.dispatch(Msg::Enter, 50);
    assert_eq!(app.stats().correct(), 2);
    assert_eq!(app.stats().incorrect(), 4);
    assert_eq!(app.stats().accuracy_percent(), 33);
}

#[test]
fn extras_shift_the_cursor_and_wrap_onto_later_rows() {
    let cells: Vec<Cell> = "abcdef\ngh".chars().map(Cell::pending).collect();
    for cols in 1u16..8 {
        for cu in 0..cells.len() + 2 {
            let (c0, r0) = typocode::widgets::body::cursor_screen_pos(&cells, cu, 0, cols);
            assert!(c0 < cols);
            for extras in 0..10usize {
                let shifted = c0 as usize + extras;
                let expected = (
                    (shifted % cols as usize) as u16,
                    (r0 as usize + shifted / cols as usize) as u16,
                );
                assert_eq!(typocode::widgets::body::cursor_screen_pos(&cells, cu, extras, cols), expected);
            }
        }
    }
}

#[test]
fn a_line_holding_only_comments_and_spaces_disappears() {
    let rust = typocode::comments::languages::c_family::rust();
    let out = typocode::comments::stripper::strip("a\n  /* x */  // y\nb\n   // z", &rust);
    assert_eq!(out, "a\nb\n");
}

#[test]
fn comment_markers_inside_strings_stay() {
    let rust = typocode::comments::languages::c_family::rust();
    let out = typocode::comments::stripper::strip("let s = \"/* not */ // kept\"; // gone\n", &rust);
    assert_eq!(out, "let s = \"/* not */ // kept\";\n");
}
