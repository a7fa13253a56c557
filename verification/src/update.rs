//! Input-to-state dispatch.
//!
//! The run loop translates each input event into a [`Msg`] via
//! [`from_key_event`], then calls [`update`] to mutate the typing state.
//! Strict character match: wrong keystrokes stack as extras, backspace
//! is required to recover, and Tab restarts the run.

use vstd::prelude::*;

use crate::app::Cursor;
use crate::stats::Keystroke;
use crate::text::{
    cur_cells, lemma_mark_compose, mark, page_replaced, same_text, typed_prefix, with_current, Cell, CellState,
    Pages, PagesView,
};

verus! {

/// One typing-loop event, normalised across the platform key variants.
#[derive(Debug, Clone, Copy, PartialEq, Eq, Structural)]
pub enum Msg {
    /// A printable character that isn't space, tab, enter or escape.
    Char(char),
    /// Space bar.
    Space,
    /// Enter / return.
    Enter,
    /// Backspace.
    Backspace,
    /// Tab: restart the current run.
    Tab,
    /// Escape: quit the app.
    Quit,
}

/// The key of a keyboard event, as far as the typing loop cares.
#[derive(Debug, Clone, Copy, PartialEq, Eq, Structural)]
pub enum KeyCode {
    Esc,
    Tab,
    Backspace,
    Enter,
    Char(char),
    /// Any other key (arrows, function keys, ...).
    Other,
}

/// Whether a key went down, auto-repeated or went up.
#[derive(Debug, Clone, Copy, PartialEq, Eq, Structural)]
pub enum KeyEventKind {
    Press,
    Repeat,
    Release,
}

/// A terminal input event.
#[derive(Debug, Clone, Copy, PartialEq, Eq, Structural)]
pub enum InputEvent {
    Key { code: KeyCode, kind: KeyEventKind },
    /// Mouse, resize, focus, paste and other non-key events.
    Other,
}

/// Outcome of dispatching a single [`Msg`].
#[derive(Debug, Clone, Copy)]
pub struct UpdateOutcome {
    /// Set when the player asked to exit.
    pub should_quit: bool,
    /// How the message counts for accuracy, when it was a typing keystroke.
    pub keystroke: Option<Keystroke>,
}

/// The message for an input event: key presses map to messages, key
/// releases / repeats, unknown keys and non-key events to nothing.
pub open spec fn msg_of(event: InputEvent) -> Option<Msg> {
    match event {
        InputEvent::Key { code, kind } => if kind != KeyEventKind::Press {
            None
        } else {
            match code {
                KeyCode::Esc => Some(Msg::Quit),
                KeyCode::Tab => Some(Msg::Tab),
                KeyCode::Backspace => Some(Msg::Backspace),
                KeyCode::Enter => Some(Msg::Enter),
                KeyCode::Char(c) => if c == ' ' { Some(Msg::Space) } else { Some(Msg::Char(c)) },
                KeyCode::Other => None,
            }
        },
        InputEvent::Other => None,
    }
}

/// Converts an input event into a [`Msg`]; `None` for events the
/// typing loop ignores.
pub fn from_key_event(event: &InputEvent) -> (m: Option<Msg>)
    ensures
        m == msg_of(*event),
{
    match event {
        InputEvent::Key { code, kind } => {
            match kind {
                KeyEventKind::Press => {},
                _ => return None,
            }
            match code {
                KeyCode::Esc => Some(Msg::Quit),
                KeyCode::Tab => Some(Msg::Tab),
                KeyCode::Backspace => Some(Msg::Backspace),
                KeyCode::Enter => Some(Msg::Enter),
                KeyCode::Char(c) => if *c == ' ' { Some(Msg::Space) } else { Some(Msg::Char(*c)) },
                KeyCode::Other => None,
            }
        },
        InputEvent::Other => None,
    }
}

/// Number of non-newline cells from `cu` up to the next `\n`.
pub open spec fn remaining_to_eol(cells: Seq<Cell>, cu: int) -> int
    decreases cells.len() - cu,
{
    if cu < 0 || cu >= cells.len() || cells[cu].ch == '\n' {
        0
    } else {
        1 + remaining_to_eol(cells, cu + 1)
    }
}

/// Number of consecutive space cells starting at `p`.
pub open spec fn spaces_run(cells: Seq<Cell>, p: int) -> int
    decreases cells.len() - p,
{
    if p < 0 || p >= cells.len() || cells[p].ch != ' ' {
        0
    } else {
        1 + spaces_run(cells, p + 1)
    }
}

/// Scanning back from `p` over space cells: the position of the `\n`
/// reached first, or `None` when a non-space or the page start comes
/// first.
pub open spec fn back_newline(cells: Seq<Cell>, p: int) -> Option<int>
    decreases p,
{
    if p <= 0 || p > cells.len() {
        None
    } else if cells[p - 1].ch == '\n' {
        Some(p - 1)
    } else if cells[p - 1].ch != ' ' {
        None
    } else {
        back_newline(cells, p - 1)
    }
}

/// The extras after a wrong keystroke `ch`: it is kept only while the
/// extras stay within one column past the end of the current line.
pub open spec fn pushed_extra(cells: Seq<Cell>, cu: int, ex: Seq<char>, ch: char) -> Seq<char> {
    if ex.len() < remaining_to_eol(cells, cu) + 1 {
        ex.push(ch)
    } else {
        ex
    }
}

/// State a correct keystroke commits: `Correct`, or `Wrong` while wrong
/// keystrokes are still pending.
pub open spec fn commit_state(ex: Seq<char>) -> CellState {
    if ex.len() == 0 {
        CellState::Correct
    } else {
        CellState::Wrong
    }
}

/// Typing the printable character `ch` (space included) moves the
/// state `(p0, cu0, ex0)` to `(p1, cu1, ex1)`.
pub open spec fn char_step(p0: PagesView, cu0: int, ex0: Seq<char>, ch: char, p1: PagesView, cu1: int, ex1: Seq<char>) -> bool {
    let cells = cur_cells(p0);
    if cu0 >= cells.len() {
        p1 == p0 && cu1 == cu0 && ex1 == ex0
    } else if ch == cells[cu0].ch && ch != '\n' {
        with_current(p0, p1, mark(cells, cu0, cu0 + 1, commit_state(ex0))) && cu1 == cu0 + 1 && ex1 == ex0
    } else {
        p1 == p0 && cu1 == cu0 && ex1 == pushed_extra(cells, cu0, ex0, ch)
    }
}

/// Backspace moves `(p0, cu0, ex0)` to `(p1, cu1, ex1)`: it drops the
/// last extra; else at a page start it steps back to the end of the
/// previous page; else it reverts the previous cell, or, when only
/// spaces separate the cursor from a `\n`, everything back to that `\n`.
pub open spec fn backspace_step(p0: PagesView, cu0: int, ex0: Seq<char>, p1: PagesView, cu1: int, ex1: Seq<char>) -> bool {
    let cells = cur_cells(p0);
    if ex0.len() > 0 {
        p1 == p0 && cu1 == cu0 && ex1 == ex0.drop_last()
    } else if cu0 == 0 {
        ex1 == ex0 && if p0.current > 0 {
            p1.pages == p0.pages && p1.current == p0.current - 1 && cu1 == p0.pages[p0.current - 1].cells@.len()
        } else {
            p1 == p0 && cu1 == 0
        }
    } else {
        ex1 == ex0 && match back_newline(cells, cu0) {
            Some(j) => with_current(p0, p1, mark(cells, j, cu0, CellState::Pending)) && cu1 == j,
            None => with_current(p0, p1, mark(cells, cu0 - 1, cu0, CellState::Pending)) && cu1 == cu0 - 1,
        }
    }
}

/// Enter moves `(p0, cu0, ex0)` to `(p1, cu1, ex1)`: on the last cell
/// of a non-final page it commits that cell and moves to the next page,
/// skipping its leading spaces; on a `\n` with no extras it commits it
/// and skips the next line's leading spaces; on a `\n` with extras it
/// waits; past the end of the final page it does nothing; elsewhere it
/// is a wrong keystroke.
pub open spec fn enter_step(p0: PagesView, cu0: int, ex0: Seq<char>, p1: PagesView, cu1: int, ex1: Seq<char>) -> bool {
    let cells = cur_cells(p0);
    let len = cells.len() as int;
    let cur = p0.current;
    if cu0 + 1 >= len && cur + 1 < p0.pages.len() {
        let marked = if cu0 < len { mark(cells, cu0, cu0 + 1, commit_state(ex0)) } else { cells };
        let next = p0.pages[cur + 1].cells@;
        let run = spaces_run(next, 0);
        &&& p1.current == cur + 1
        &&& p1.pages.len() == p0.pages.len()
        &&& forall|i: int| 0 <= i < p0.pages.len() && i != cur && i != cur + 1 ==> #[trigger] p1.pages[i] == p0.pages[i]
        &&& page_replaced(p0, p1, cur, marked)
        &&& page_replaced(p0, p1, cur + 1, mark(next, 0, run, CellState::Correct))
        &&& cu1 == run
        &&& ex1 == Seq::<char>::empty()
    } else if cu0 >= len {
        p1 == p0 && cu1 == cu0 && ex1 == ex0
    } else if cells[cu0].ch == '\n' {
        if ex0.len() > 0 {
            p1 == p0 && cu1 == cu0 && ex1 == ex0
        } else {
            let run = spaces_run(cells, cu0 + 1);
            with_current(p0, p1, mark(cells, cu0, cu0 + 1 + run, CellState::Correct)) && cu1 == cu0 + 1 + run && ex1 == ex0
        }
    } else {
        p1 == p0 && cu1 == cu0 && ex1 == pushed_extra(cells, cu0, ex0, '\n')
    }
}

/// Tab: every cell back to `Pending`, first page, cursor at the origin.
pub open spec fn restart_step(p0: PagesView, p1: PagesView, cu1: int, ex1: Seq<char>) -> bool {
    &&& p1.current == 0
    &&& same_text(p0.pages, p1.pages)
    &&& typed_prefix(p1.pages, 0)
    &&& cu1 == 0
    &&& ex1 == Seq::<char>::empty()
}

/// The cursor never sits past the end of the current page.
pub open spec fn cursor_in_page(pages: &Pages, cursor: &Cursor) -> bool {
    pages.wf() && cursor.cu_ptr <= cur_cells(pages@).len()
}

/// How a message counts for accuracy: every typing key (character,
/// space, enter) counts exactly once, `Correct` when it matched and
/// advanced, `Incorrect` when it was stacked as an extra, swallowed at
/// the line-tail cap, or typed past the end of the page; Backspace, Tab
/// and Escape are not keystrokes.
pub open spec fn keystroke_of(p0: PagesView, cu0: int, ex0: Seq<char>, msg: Msg) -> Option<Keystroke> {
    let cells = cur_cells(p0);
    let len = cells.len() as int;
    match msg {
        Msg::Char(c) => char_keystroke(cells, cu0, c),
        Msg::Space => char_keystroke(cells, cu0, ' '),
        Msg::Enter => if cu0 + 1 >= len && p0.current + 1 < p0.pages.len() {
            Some(Keystroke::Correct)
        } else if cu0 >= len {
            Some(Keystroke::Incorrect)
        } else if cells[cu0].ch == '\n' && ex0.len() == 0 {
            Some(Keystroke::Correct)
        } else {
            Some(Keystroke::Incorrect)
        },
        _ => None,
    }
}

/// Classification of a printable keystroke `c` at `cu`: correct only
/// when it matches the expected cell.
pub open spec fn char_keystroke(cells: Seq<Cell>, cu: int, c: char) -> Option<Keystroke> {
    if cu < cells.len() && c == cells[cu].ch && c != '\n' {
        Some(Keystroke::Correct)
    } else {
        Some(Keystroke::Incorrect)
    }
}

/// The typing state `(p0, cu0, ex0)` becomes `(p1, cu1, ex1)` under `msg`.
pub open spec fn update_step(p0: PagesView, cu0: int, ex0: Seq<char>, msg: Msg, p1: PagesView, cu1: int, ex1: Seq<char>) -> bool {
    match msg {
        Msg::Quit => p1 == p0 && cu1 == cu0 && ex1 == ex0,
        Msg::Char(c) => char_step(p0, cu0, ex0, c, p1, cu1, ex1),
        Msg::Space => char_step(p0, cu0, ex0, ' ', p1, cu1, ex1),
        Msg::Backspace => backspace_step(p0, cu0, ex0, p1, cu1, ex1),
        Msg::Enter => enter_step(p0, cu0, ex0, p1, cu1, ex1),
        Msg::Tab => restart_step(p0, p1, cu1, ex1),
    }
}

/// Applies `msg` against the current [`Pages`] and [`Cursor`] (see
/// [`update_step`]), and reports how it counts for accuracy. A cursor
/// within the current page stays within it. Backspace with no pending
/// extras rewinds over the cells before the cursor, so it needs the
/// cursor within the page.
pub fn update(pages: &mut Pages, cursor: &mut Cursor, msg: Msg) -> (out: UpdateOutcome)
    requires
        old(pages).wf(),
        msg == Msg::Backspace && old(cursor).extras@.len() == 0 ==> old(cursor).cu_ptr <= cur_cells(old(pages)@).len(),
    ensures
        final(pages).wf(),
        cursor_in_page(old(pages), old(cursor)) ==> cursor_in_page(final(pages), final(cursor)),
        out.should_quit == (msg == Msg::Quit),
        out.keystroke == keystroke_of(old(pages)@, old(cursor).cu_ptr as int, old(cursor).extras@, msg),
        update_step(old(pages)@, old(cursor).cu_ptr as int, old(cursor).extras@, msg,
            final(pages)@, final(cursor).cu_ptr as int, final(cursor).extras@),
{
    match msg {
        Msg::Quit => UpdateOutcome { should_quit: true, keystroke: None },
        Msg::Char(c) => {
            let k = handle_char(pages, cursor, c);
            UpdateOutcome { should_quit: false, keystroke: k }
        },
        Msg::Space => {
            let k = handle_char(pages, cursor, ' ');
            UpdateOutcome { should_quit: false, keystroke: k }
        },
        Msg::Backspace => {
            handle_backspace(pages, cursor);
            UpdateOutcome { should_quit: false, keystroke: None }
        },
        Msg::Enter => {
            let k = handle_enter(pages, cursor);
            UpdateOutcome { should_quit: false, keystroke: k }
        },
        Msg::Tab => {
            handle_restart(pages, cursor);
            UpdateOutcome { should_quit: false, keystroke: None }
        },
    }
}

/// Strict match of a printable character against the expected cell.
fn handle_char(pages: &mut Pages, cursor: &mut Cursor, ch: char) -> (k: Option<Keystroke>)
    requires
        old(pages).wf(),
    ensures
        final(pages).wf(),
        cursor_in_page(old(pages), old(cursor)) ==> cursor_in_page(final(pages), final(cursor)),
        char_step(old(pages)@, old(cursor).cu_ptr as int, old(cursor).extras@, ch,
            final(pages)@, final(cursor).cu_ptr as int, final(cursor).extras@),
        k == char_keystroke(cur_cells(old(pages)@), old(cursor).cu_ptr as int, ch),
{
    let len = pages.current_cells().len();
    if cursor.cu_ptr >= len {
        return Some(Keystroke::Incorrect);
    }
    let expected = pages.current_cells()[cursor.cu_ptr].ch;
    if ch == expected && expected != '\n' {
        let state = if cursor.extras.len() == 0 { CellState::Correct } else { CellState::Wrong };
        pages.set_current_states(cursor.cu_ptr, cursor.cu_ptr + 1, state);
        cursor.cu_ptr = cursor.cu_ptr + 1;
        Some(Keystroke::Correct)
    } else {
        push_extra(pages.current_cells(), cursor, ch);
        Some(Keystroke::Incorrect)
    }
}

/// Appends `ch` to the extras unless the line-tail cap is reached: at
/// most one extra past the terminating newline of the current line.
fn push_extra(cells: &Vec<Cell>, cursor: &mut Cursor, ch: char)
    ensures
        final(cursor).cu_ptr == old(cursor).cu_ptr,
        final(cursor).extras@ == pushed_extra(cells@, old(cursor).cu_ptr as int, old(cursor).extras@, ch),
{
    let limit = remaining_to_eol_exec(cells, cursor.cu_ptr);
    if cursor.extras.len() <= limit {
        cursor.extras.push(ch);
    }
}

/// Number of non-newline cells between `cu_ptr` and the next `\n`.
fn remaining_to_eol_exec(cells: &Vec<Cell>, cu_ptr: usize) -> (n: usize)
    ensures
        n == remaining_to_eol(cells@, cu_ptr as int),
{
    let mut k = cu_ptr;
    let mut count: usize = 0;
    while k < cells.len()
        invariant
            cu_ptr <= k,
            count == k - cu_ptr,
            remaining_to_eol(cells@, cu_ptr as int) == count + remaining_to_eol(cells@, k as int),
        decreases cells@.len() - k,
    {
        if cells[k].ch == '\n' {
            return count;
        }
        k = k + 1;
        count = count + 1;
    }
    count
}

/// Number of consecutive space cells from `p`.
fn count_spaces(cells: &Vec<Cell>, p: usize) -> (n: usize)
    ensures
        n == spaces_run(cells@, p as int),
        p + n <= cells.len() || n == 0,
{
    let mut k = p;
    while k < cells.len() && cells[k].ch == ' '
        invariant
            p <= k,
            k > p ==> k <= cells@.len(),
            spaces_run(cells@, p as int) == (k - p) + spaces_run(cells@, k as int),
        decreases cells@.len() - k,
    {
        k = k + 1;
    }
    k - p
}

/// Finds the `\n` reached by scanning back from `p` over spaces.
fn scan_back_to_newline(cells: &Vec<Cell>, p: usize) -> (r: Option<usize>)
    requires
        p <= cells@.len(),
    ensures
        r matches Some(j) ==> back_newline(cells@, p as int) == Some(j as int) && j < p,
        r is None ==> back_newline(cells@, p as int) is None,
{
    let mut scan = p;
    while scan > 0
        invariant
            scan <= p <= cells@.len(),
            back_newline(cells@, scan as int) == back_newline(cells@, p as int),
        decreases scan,
    {
        let ch = cells[scan - 1].ch;
        if ch == '\n' {
            return Some(scan - 1);
        }
        if ch != ' ' {
            return None;
        }
        scan = scan - 1;
    }
    None
}

/// Backspace: pops the most recent extra first; at the start of a page
/// steps back to the end of the previous one; otherwise reverts the
/// previous cell, rewinding over auto-skipped leading spaces back to
/// the preceding newline.
fn handle_backspace(pages: &mut Pages, cursor: &mut Cursor)
    requires
        old(pages).wf(),
        old(cursor).extras@.len() == 0 ==> old(cursor).cu_ptr <= cur_cells(old(pages)@).len(),
    ensures
        final(pages).wf(),
        cursor_in_page(old(pages), old(cursor)) ==> cursor_in_page(final(pages), final(cursor)),
        backspace_step(old(pages)@, old(cursor).cu_ptr as int, old(cursor).extras@,
            final(pages)@, final(cursor).cu_ptr as int, final(cursor).extras@),
{
    if cursor.extras.len() > 0 {
        cursor.extras.pop();
        return;
    }
    if cursor.cu_ptr == 0 {
        if pages.current_index() > 1 {
            pages.prev();
            cursor.cu_ptr = pages.current_cells().len();
        }
        return;
    }
    match scan_back_to_newline(pages.current_cells(), cursor.cu_ptr) {
        Some(j) => {
            pages.set_current_states(j, cursor.cu_ptr, CellState::Pending);
            cursor.cu_ptr = j;
        },
        None => {
            pages.set_current_states(cursor.cu_ptr - 1, cursor.cu_ptr, CellState::Pending);
            cursor.cu_ptr = cursor.cu_ptr - 1;
        },
    }
}

/// Skips the space cells at the cursor, marking each `Correct`.
fn skip_leading_whitespace(pages: &mut Pages, cursor: &mut Cursor)
    requires
        cursor_in_page(old(pages), old(cursor)),
    ensures
        cursor_in_page(final(pages), final(cursor)),
        ({
            let run = spaces_run(cur_cells(old(pages)@), old(cursor).cu_ptr as int);
            &&& with_current(old(pages)@, final(pages)@, mark(cur_cells(old(pages)@), old(cursor).cu_ptr as int, old(cursor).cu_ptr + run, CellState::Correct))
            &&& final(cursor).cu_ptr == old(cursor).cu_ptr + run
        }),
        final(cursor).extras@ == old(cursor).extras@,
{
    let run = count_spaces(pages.current_cells(), cursor.cu_ptr);
    pages.set_current_states(cursor.cu_ptr, cursor.cu_ptr + run, CellState::Correct);
    cursor.cu_ptr = cursor.cu_ptr + run;
}

/// Enter: advances to the next page from the last cell of a non-final
/// page; commits an expected newline (when no extras are pending) and
/// skips the next line's indentation; otherwise is a wrong keystroke.
fn handle_enter(pages: &mut Pages, cursor: &mut Cursor) -> (k: Option<Keystroke>)
    requires
        old(pages).wf(),
    ensures
        final(pages).wf(),
        cursor_in_page(old(pages), old(cursor)) ==> cursor_in_page(final(pages), final(cursor)),
        enter_step(old(pages)@, old(cursor).cu_ptr as int, old(cursor).extras@,
            final(pages)@, final(cursor).cu_ptr as int, final(cursor).extras@),
        k == keystroke_of(old(pages)@, old(cursor).cu_ptr as int, old(cursor).extras@, Msg::Enter),
{
    let page_len = pages.current_cells().len();
    let at_last_cell = page_len == 0 || cursor.cu_ptr >= page_len - 1;
    if at_last_cell && !pages.is_last() {
        let ghost p0 = pages@;
        if cursor.cu_ptr < page_len {
            let state = if cursor.extras.len() == 0 { CellState::Correct } else { CellState::Wrong };
            pages.set_current_states(cursor.cu_ptr, cursor.cu_ptr + 1, state);
        }
        let ghost pa = pages@;
        pages.next();
        let ghost pb = pages@;
        cursor.cu_ptr = 0;
        cursor.extras.clear();
        skip_leading_whitespace(pages, cursor);
        proof {
            assert(pb.pages == pa.pages);
            assert(cur_cells(pb) == p0.pages[p0.current + 1].cells@);
        }
        return Some(Keystroke::Correct);
    }
    if cursor.cu_ptr >= page_len {
        return Some(Keystroke::Incorrect);
    }
    let expected = pages.current_cells()[cursor.cu_ptr].ch;
    if expected == '\n' {
        if cursor.extras.len() > 0 {
            return Some(Keystroke::Incorrect);
        }
        let ghost p0 = pages@;
        pages.set_current_states(cursor.cu_ptr, cursor.cu_ptr + 1, CellState::Correct);
        cursor.cu_ptr = cursor.cu_ptr + 1;
        let ghost pa = pages@;
        skip_leading_whitespace(pages, cursor);
        proof {
            let cells = cur_cells(p0);
            let cu0 = old(cursor).cu_ptr as int;
            let run = spaces_run(cells, cu0 + 1);
            assert(cur_cells(pa) == mark(cells, cu0, cu0 + 1, CellState::Correct));
            lemma_spaces_run_same(cells, cur_cells(pa), cu0 + 1);
            assert(spaces_run(cur_cells(pa), cu0 + 1) == run);
            assert(pages@.current == p0.current);
            assert(cur_cells(pages@) == mark(cur_cells(pa), cu0 + 1, cu0 + 1 + run, CellState::Correct));
            lemma_mark_compose(cells, cu0, cu0 + 1, cu0 + 1 + run, CellState::Correct);
        }
        Some(Keystroke::Correct)
    } else {
        push_extra(pages.current_cells(), cursor, '\n');
        Some(Keystroke::Incorrect)
    }
}

/// The run of spaces only depends on the characters past `p`.
proof fn lemma_spaces_run_same(a: Seq<Cell>, b: Seq<Cell>, p: int)
    requires
        a.len() == b.len(),
        forall|j: int| p <= j < a.len() ==> #[trigger] b[j].ch == a[j].ch,
    ensures
        spaces_run(a, p) == spaces_run(b, p),
        spaces_run(a, p) >= 0,
        p >= 0 ==> p + spaces_run(a, p) <= a.len() || spaces_run(a, p) == 0,
    decreases a.len() - p,
{
    if p >= 0 && p < a.len() && a[p].ch == ' ' {
        lemma_spaces_run_same(a, b, p + 1);
    }
}

/// Restarts the run: every cell back to `Pending`, first page, cursor
/// at the origin.
fn handle_restart(pages: &mut Pages, cursor: &mut Cursor)
    requires
        old(pages).wf(),
    ensures
        cursor_in_page(final(pages), final(cursor)),
        restart_step(old(pages)@, final(pages)@, final(cursor).cu_ptr as int, final(cursor).extras@),
{
    pages.restart();
    cursor.reset();
}

/// A wrong keystroke never touches the text: the cells and the cursor
/// stay as they were, and the character joins the extras only while
/// they stay within one column past the end of the current line.
pub proof fn law_wrong_key_keeps_cells(
    p0: PagesView,
    cu0: int,
    ex0: Seq<char>,
    ch: char,
    p1: PagesView,
    cu1: int,
    ex1: Seq<char>,
)
    requires
        0 <= cu0 < cur_cells(p0).len(),
        ch != cur_cells(p0)[cu0].ch || ch == '\n',
        char_step(p0, cu0, ex0, ch, p1, cu1, ex1),
    ensures
        p1 == p0,
        cu1 == cu0,
        ex1 == ex0 || ex1 == ex0.push(ch),
        ex1.len() <= ex0.len() || ex1.len() <= remaining_to_eol(cur_cells(p0), cu0) + 1,
{
}

/// Backspace right after a wrong keystroke that joined the extras
/// undoes it exactly.
pub proof fn law_backspace_undoes_wrong_key(
    p0: PagesView,
    cu0: int,
    ex0: Seq<char>,
    ch: char,
    p1: PagesView,
    cu1: int,
    ex1: Seq<char>,
    p2: PagesView,
    cu2: int,
    ex2: Seq<char>,
)
    requires
        0 <= cu0 < cur_cells(p0).len(),
        ch != cur_cells(p0)[cu0].ch || ch == '\n',
        ex0.len() < remaining_to_eol(cur_cells(p0), cu0) + 1,
        char_step(p0, cu0, ex0, ch, p1, cu1, ex1),
        backspace_step(p1, cu1, ex1, p2, cu2, ex2),
    ensures
        p2 == p0,
        cu2 == cu0,
        ex2 == ex0,
{
    assert(ex1 == ex0.push(ch));
    assert(ex1.drop_last() =~= ex0);
}

/// Backspace right after a correct keystroke on an untyped cell undoes
/// it: the cell is `Pending` again, the cursor back where it was, and
/// nothing else changed. (A space is excluded: backspace after spaces
/// that follow a line break rewinds to the line break.)
pub proof fn law_backspace_undoes_correct_key(
    p0: PagesView,
    cu0: int,
    ch: char,
    p1: PagesView,
    cu1: int,
    ex1: Seq<char>,
    p2: PagesView,
    cu2: int,
    ex2: Seq<char>,
)
    requires
        0 <= p0.current < p0.pages.len(),
        0 <= cu0 < cur_cells(p0).len(),
        cur_cells(p0)[cu0].state == CellState::Pending,
        ch == cur_cells(p0)[cu0].ch,
        ch != '\n',
        ch != ' ',
        char_step(p0, cu0, Seq::<char>::empty(), ch, p1, cu1, ex1),
        backspace_step(p1, cu1, ex1, p2, cu2, ex2),
    ensures
        with_current(p0, p2, cur_cells(p0)),
        cu2 == cu0,
        ex2 == Seq::<char>::empty(),
{
    let cells = cur_cells(p0);
    let typed = mark(cells, cu0, cu0 + 1, CellState::Correct);
    assert(cur_cells(p1) == typed);
    assert(back_newline(typed, cu0 + 1) is None);
    let back = mark(typed, cu0, cu0 + 1, CellState::Pending);
    assert(back =~= cells);
    assert forall|i: int| 0 <= i < p0.pages.len() && i != p0.current implies #[trigger] p2.pages[i] == p0.pages[i] by {
        assert(p2.pages[i] == p1.pages[i]);
    }
}

/// Every typing key (character, space, enter) counts exactly once, as
/// correct or incorrect, whatever the state; Backspace, Tab and Escape
/// never count.
pub proof fn law_typing_keys_always_count(p0: PagesView, cu0: int, ex0: Seq<char>, msg: Msg)
    ensures
        (msg is Char || msg is Space || msg is Enter) <==> keystroke_of(p0, cu0, ex0, msg) is Some,
{
}

/// The run of spaces from `p` is spaces all along, stays within the
/// cells, and is followed by something other than a space.
proof fn lemma_spaces_run_shape(cells: Seq<Cell>, p: int)
    requires
        0 <= p <= cells.len(),
    ensures
        p + spaces_run(cells, p) <= cells.len(),
        spaces_run(cells, p) >= 0,
        forall|j: int| p <= j < p + spaces_run(cells, p) ==> #[trigger] cells[j].ch == ' ',
        p + spaces_run(cells, p) < cells.len() ==> cells[p + spaces_run(cells, p)].ch != ' ',
    decreases cells.len() - p,
{
    if p < cells.len() && cells[p].ch == ' ' {
        lemma_spaces_run_shape(cells, p + 1);
    }
}

/// Enter skips the indentation of the line it moves to: whenever Enter
/// moves the cursor (committing an expected line break, or advancing
/// from the last cell of a page to the next page), the cursor lands past
/// the run of spaces that starts the new line, every one of those spaces
/// counted as typed, and never on a space.
pub proof fn law_enter_skips_indentation(
    p0: PagesView,
    cu0: int,
    ex0: Seq<char>,
    p1: PagesView,
    cu1: int,
    ex1: Seq<char>,
)
    requires
        0 <= p0.current < p0.pages.len(),
        0 <= cu0,
        enter_step(p0, cu0, ex0, p1, cu1, ex1),
        p1.current != p0.current || cu1 != cu0,
    ensures
        ({
            let cells = cur_cells(p1);
            let start = if p1.current != p0.current { 0 } else { cu0 + 1 };
            &&& p1.current != p0.current ==> p1.current == p0.current + 1
            &&& p1.current == p0.current ==> cu0 < cur_cells(p0).len() && cur_cells(p0)[cu0].ch == '\n'
                && cells[cu0].state == CellState::Correct
            &&& start <= cu1 <= cells.len()
            &&& forall|j: int| start <= j < cu1 ==> #[trigger] cells[j].ch == ' ' && cells[j].state == CellState::Correct
            &&& cu1 < cells.len() ==> cells[cu1].ch != ' '
        }),
{
    let cells0 = cur_cells(p0);
    let len = cells0.len() as int;
    let cur = p0.current;
    if cu0 + 1 >= len && cur + 1 < p0.pages.len() {
        let next = p0.pages[cur + 1].cells@;
        lemma_spaces_run_shape(next, 0);
        assert(cur_cells(p1) == mark(next, 0, spaces_run(next, 0), CellState::Correct));
    } else if cu0 < len && cells0[cu0].ch == '\n' && ex0.len() == 0 {
        lemma_spaces_run_shape(cells0, cu0 + 1);
        assert(cur_cells(p1) == mark(cells0, cu0, cu0 + 1 + spaces_run(cells0, cu0 + 1), CellState::Correct));
    }
}

} // verus!
