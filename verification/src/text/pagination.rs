//! Splits expanded source text into [`Page`]s sized to a visual row
//! budget.
//!
//! Pagination packs whole source lines into a page until adding the
//! next one would exceed `rows_per_page` visual rows. A source line
//! taller than the whole budget lands on a page by itself and is
//! allowed to overflow; a source line is never split across pages.
//! `rows_per_page` and `cols` are each clamped to 1; empty input yields
//! an empty page list.

use vstd::prelude::*;

use super::wrap::{
    clamp1, find_newline, lemma_line_rows_len, lemma_newlines_flat, lemma_newlines_mono, lemma_newlines_skip_line,
    lemma_next_newline, newlines_before, next_newline, visual_rows, visual_rows_for_line, wrap_from,
};
use super::{cell_chars, pending_cells, Cell, CellState, Page};

verus! {

/// Where the page that is being filled ends, when its next source line
/// starts at `p` and it already holds `acc` visual rows (`first` when
/// it holds no line yet). The first line always fits; any later line
/// fits only while the row total stays within `rows`.
pub open spec fn page_end_from(s: Seq<char>, rows: int, cols: int, p: int, acc: int, first: bool) -> int
    decreases s.len() - p,
{
    if p < 0 || p >= s.len() {
        s.len() as int
    } else {
        let e = next_newline(s, p);
        let r = visual_rows(e - p, cols);
        if !first && acc + r > rows {
            p
        } else if e < p || e >= s.len() {
            s.len() as int
        } else {
            page_end_from(s, rows, cols, e + 1, acc + r, false)
        }
    }
}

/// End of the page starting at line start `b`.
pub open spec fn page_end(s: Seq<char>, rows: int, cols: int, b: int) -> int {
    page_end_from(s, rows, cols, b, 0, true)
}

/// Start positions of the pages of `s[b..]`, for a row budget `rows`
/// (already clamped to 1) and width `cols`.
pub open spec fn page_starts(s: Seq<char>, rows: int, cols: int, b: int) -> Seq<int>
    decreases s.len() - b,
{
    if b < 0 || b >= s.len() {
        seq![]
    } else {
        let e = page_end(s, rows, cols, b);
        if e <= b || e > s.len() {
            seq![b]
        } else {
            seq![b] + page_starts(s, rows, cols, e)
        }
    }
}

/// End of page `k` given the page starts `st` of a text of length `n`.
pub open spec fn page_stop(st: Seq<int>, k: int, n: int) -> int {
    if k + 1 < st.len() {
        st[k + 1]
    } else {
        n
    }
}

/// `page` holds exactly `s[a..b]` as fresh cells, with the 1-based
/// source-line range of those characters.
pub open spec fn page_holds(page: Page, s: Seq<char>, a: int, b: int) -> bool {
    &&& page.cells@ == pending_cells(s.subrange(a, b))
    &&& page.line_start == 1 + newlines_before(s, a)
    &&& page.line_end == 1 + newlines_before(s, b - 1)
}

/// `pages` is the pagination of `s` for the row budget `rows` (clamped
/// to 1) and width `cols`: one page per greedy page start, each holding
/// its slice of `s` as fresh cells with its source-line range.
pub open spec fn paginated(pages: Seq<Page>, s: Seq<char>, rows: int, cols: int) -> bool {
    let st = page_starts(s, clamp1(rows), cols, 0);
    &&& pages.len() == st.len()
    &&& forall|k: int| 0 <= k < st.len() ==> page_holds(#[trigger] pages[k], s, st[k], page_stop(st, k, s.len() as int))
}

/// The characters of each page, concatenated.
pub open spec fn joined_text(pages: Seq<Page>) -> Seq<char> {
    pages.map_values(|pg: Page| cell_chars(pg.cells@)).flatten()
}

proof fn lemma_page_end_from_ge(s: Seq<char>, rows: int, cols: int, p: int, acc: int, first: bool)
    requires
        0 <= p <= s.len(),
    ensures
        p <= page_end_from(s, rows, cols, p, acc, first) <= s.len(),
        first && p < s.len() ==> p < page_end_from(s, rows, cols, p, acc, first),
    decreases s.len() - p,
{
    if p < s.len() {
        lemma_next_newline(s, p);
        let e = next_newline(s, p);
        let r = visual_rows(e - p, cols);
        if !first && acc + r > rows {
        } else if e >= s.len() {
        } else {
            lemma_page_end_from_ge(s, rows, cols, e + 1, acc + r, false);
        }
    }
}

proof fn lemma_newlines_bounds(s: Seq<char>, q: int)
    requires
        0 <= q <= s.len(),
    ensures
        0 <= newlines_before(s, q) <= q,
    decreases q,
{
    if q > 0 {
        lemma_newlines_bounds(s, q - 1);
    }
}

proof fn lemma_cells_of_chars(s: Seq<char>)
    ensures
        cell_chars(pending_cells(s)) == s,
{
    assert(cell_chars(pending_cells(s)) =~= s);
}

/// Appends fresh cells for `s[from..to]` to `cells`.
fn push_pending(cells: &mut Vec<Cell>, s: &[char], from: usize, to: usize)
    requires
        from <= to <= s@.len(),
    ensures
        final(cells)@ == old(cells)@ + pending_cells(s@.subrange(from as int, to as int)),
{
    let mut k = from;
    while k < to
        invariant
            from <= k <= to <= s@.len(),
            cells@ == old(cells)@ + pending_cells(s@.subrange(from as int, k as int)),
        decreases to - k,
    {
        cells.push(Cell::pending(s[k]));
        k = k + 1;
        assert(cells@ =~= old(cells)@ + pending_cells(s@.subrange(from as int, k as int)));
    }
}

/// Splits `content` into pages.
///
/// `rows_per_page` is the page's visual-row budget and `cols` the
/// width used to compute per-line wrap. Pages are whole source lines,
/// packed greedily; together they cover `content` end-to-end without
/// gaps or overlap, every cell starts `Pending`, and each page records
/// its 1-based source-line range.
pub fn paginate(content: &[char], rows_per_page: usize, cols: usize) -> (pages: Vec<Page>)
    requires
        content@.len() < usize::MAX,
    ensures
        paginated(pages@, content@, rows_per_page as int, cols as int),
        joined_text(pages@) == content@,
        content@.len() == 0 <==> pages@.len() == 0,
{
    let rows = if rows_per_page < 1 { 1 } else { rows_per_page };
    let c = if cols < 1 { 1 } else { cols };
    let n = content.len();
    let ghost s = content@;
    let ghost rr = rows as int;
    let ghost cc = cols as int;
    let mut pages: Vec<Page> = Vec::new();
    if n == 0 {
        assert(joined_text(pages@) =~= content@);
        return pages;
    }
    let mut page_cells: Vec<Cell> = Vec::new();
    let mut page_start: usize = 0;
    let mut page_rows: usize = 0;
    let mut line_start: usize = 1;
    let mut line_cursor: usize = 1;
    let mut p: usize = 0;
    let ghost mut starts: Seq<int> = seq![];
    proof {
        lemma_newlines_mono(s, 0, n as int);
        assert(joined_text(pages@) =~= s.subrange(0, 0));
    }
    while p < n
        invariant
            n == s.len(),
            s == content@,
            n < usize::MAX,
            rr == clamp1(rows_per_page as int),
            rows as int == rr,
            cc == cols as int,
            c >= 1,
            page_start <= p <= n,
            page_start < n,
            p == 0 || p == n || s[p - 1] == '\n',
            page_start == 0 || s[page_start - 1] == '\n',
            page_rows <= p - page_start,
            page_cells@ == pending_cells(s.subrange(page_start as int, p as int)),
            line_start == 1 + newlines_before(s, page_start as int),
            line_cursor == 1 + newlines_before(s, p as int),
            page_end(s, rr, cc, page_start as int) == page_end_from(s, rr, cc, p as int, page_rows as int, p == page_start),
            page_starts(s, rr, cc, 0) == starts + page_starts(s, rr, cc, page_start as int),
            pages@.len() == starts.len(),
            starts.len() > 0 ==> starts.last() < page_start,
            forall|k: int|
                0 <= k < starts.len() ==> page_holds(#[trigger] pages@[k], s, starts[k], page_stop(starts.push(page_start as int), k, n as int)),
            joined_text(pages@) == s.subrange(0, page_start as int),
        decreases n - p,
    {
        let e = find_newline(content, p);
        proof {
            lemma_next_newline(s, p as int);
        }
        let r = visual_rows_for_line(e - p, cols);
        proof {
            lemma_newlines_bounds(s, p as int);
            if e < n {
                lemma_newlines_bounds(s, e as int + 1);
            }
        }
        if p > page_start && page_rows + r > rows {
            // The line does not fit: close the current page before it.
            let ghost old_pages = pages@;
            let ghost old_start = page_start as int;
            proof {
                lemma_page_end_from_ge(s, rr, cc, page_start as int, 0, true);
                assert(page_end(s, rr, cc, page_start as int) == p);
                assert(page_starts(s, rr, cc, page_start as int) =~= seq![page_start as int] + page_starts(s, rr, cc, p as int));
                lemma_newlines_skip_line(s, (p - 1) as int, (p - 1) as int);
            }
            let mut done: Vec<Cell> = Vec::new();
            std::mem::swap(&mut done, &mut page_cells);
            let page = Page { cells: done, line_start, line_end: line_cursor - 1 };
            pages.push(page);
            proof {
                assert(page_holds(page, s, page_start as int, p as int));
                lemma_cells_of_chars(s.subrange(page_start as int, p as int));
                assert(pages@.map_values(|pg: Page| cell_chars(pg.cells@)) =~= old_pages.map_values(|pg: Page| cell_chars(pg.cells@)).push(s.subrange(page_start as int, p as int)));
                old_pages.map_values(|pg: Page| cell_chars(pg.cells@)).lemma_flatten_push(s.subrange(page_start as int, p as int));
                assert(joined_text(pages@) =~= s.subrange(0, page_start as int) + s.subrange(page_start as int, p as int));
                assert(joined_text(pages@) =~= s.subrange(0, p as int));
                assert forall|k: int| 0 <= k < starts.len() + 1 implies page_holds(#[trigger] pages@[k], s, starts.push(old_start)[k], page_stop(starts.push(old_start).push(p as int), k, n as int)) by {
                    if k < starts.len() {
                        assert(pages@[k] == old_pages[k]);
                        assert(page_stop(starts.push(old_start).push(p as int), k, n as int) == page_stop(starts.push(old_start), k, n as int));
                    }
                }
                assert(starts.push(old_start) + page_starts(s, rr, cc, p as int) =~= starts + (seq![old_start] + page_starts(s, rr, cc, p as int)));
                starts = starts.push(old_start);
            }
            page_start = p;
            line_start = line_cursor;
            page_rows = 0;
        }
        let q = if e < n { e + 1 } else { n };
        let ghost before_cells = page_cells@;
        push_pending(&mut page_cells, content, p, q);
        assert(page_cells@ =~= pending_cells(s.subrange(page_start as int, q as int)));
        proof {
            if e < n {
                lemma_newlines_skip_line(s, p as int, e as int);
            } else {
                lemma_newlines_flat(s, p as int, n as int);
            }
        }
        if e < n {
            line_cursor = line_cursor + 1;
        }
        page_rows = page_rows + r;
        p = q;
    }
    // Close the final page.
    let ghost old_pages = pages@;
    proof {
        lemma_page_end_from_ge(s, rr, cc, page_start as int, 0, true);
        assert(page_end(s, rr, cc, page_start as int) == n);
        assert(page_starts(s, rr, cc, n as int) =~= Seq::<int>::empty());
        assert(page_starts(s, rr, cc, page_start as int) =~= seq![page_start as int]);
        lemma_newlines_bounds(s, n as int);
    }
    let last = page_cells[page_cells.len() - 1].ch;
    let line_end = if last == '\n' { line_cursor - 1 } else { line_cursor };
    proof {
        assert(page_cells@[page_cells@.len() - 1].ch == s[n - 1]);
        assert(newlines_before(s, n as int) == newlines_before(s, n - 1) + if s[n - 1] == '\n' { 1int } else { 0int });
    }
    let ghost final_start = page_start as int;
    let page = Page { cells: page_cells, line_start, line_end };
    pages.push(page);
    proof {
        lemma_cells_of_chars(s.subrange(final_start, n as int));
        assert(pages@.map_values(|pg: Page| cell_chars(pg.cells@)) =~= old_pages.map_values(|pg: Page| cell_chars(pg.cells@)).push(s.subrange(final_start, n as int)));
        old_pages.map_values(|pg: Page| cell_chars(pg.cells@)).lemma_flatten_push(s.subrange(final_start, n as int));
        assert(joined_text(pages@) =~= s.subrange(0, final_start) + s.subrange(final_start, n as int));
        assert(joined_text(pages@) =~= s);
        assert(starts + page_starts(s, rr, cc, final_start) =~= starts.push(final_start));
        assert forall|k: int| 0 <= k < starts.len() + 1 implies page_holds(#[trigger] pages@[k], s, starts.push(final_start)[k], page_stop(starts.push(final_start), k, n as int)) by {
            if k < starts.len() {
                assert(pages@[k] == old_pages[k]);
            }
        }
    }
    pages
}

/// A page ends at the end of the text, right after a `\n`, or (when it
/// already holds a line) right where the next line starts.
proof fn lemma_page_end_from_break(s: Seq<char>, rows: int, cols: int, p: int, acc: int, first: bool)
    requires
        0 <= p <= s.len(),
        p == 0 || s[p - 1] == '\n',
    ensures
        ({
            let r = page_end_from(s, rows, cols, p, acc, first);
            r == s.len() || r == 0 || s[r - 1] == '\n'
        }),
    decreases s.len() - p,
{
    if p < s.len() {
        lemma_next_newline(s, p);
        let e = next_newline(s, p);
        let r = visual_rows(e - p, cols);
        if !first && acc + r > rows {
        } else if e >= s.len() {
        } else {
            lemma_page_end_from_break(s, rows, cols, e + 1, acc + r, false);
        }
    }
}

/// Consecutive page starts: each is a line start inside the text, and
/// the next one is where the page started by it ends.
proof fn lemma_page_starts_shape(s: Seq<char>, rows: int, cols: int, b: int)
    requires
        0 <= b <= s.len(),
        b == 0 || s[b - 1] == '\n',
    ensures
        ({
            let st = page_starts(s, rows, cols, b);
            &&& forall|k: int| 0 <= k < st.len() ==> b <= #[trigger] st[k] < s.len()
            &&& forall|k: int| 0 <= k < st.len() ==> (#[trigger] st[k] == 0 || s[st[k] - 1] == '\n')
            &&& forall|k: int| 0 <= k < st.len() - 1 ==> #[trigger] st[k + 1] == page_end(s, rows, cols, st[k])
            &&& forall|k: int| 0 <= k < st.len() - 1 ==> #[trigger] st[k] < st[k + 1]
            &&& st.len() > 0 ==> page_end(s, rows, cols, st.last()) == s.len()
            &&& b < s.len() ==> st.len() > 0 && st[0] == b
        }),
    decreases s.len() - b,
{
    if b < s.len() {
        let e = page_end(s, rows, cols, b);
        lemma_page_end_from_ge(s, rows, cols, b, 0, true);
        lemma_page_end_from_break(s, rows, cols, b, 0, true);
        if e < s.len() {
            lemma_page_starts_shape(s, rows, cols, e);
            let rest = page_starts(s, rows, cols, e);
            let st = page_starts(s, rows, cols, b);
            assert(st == seq![b] + rest);
            assert forall|k: int| 0 <= k < st.len() - 1 implies #[trigger] st[k + 1] == page_end(s, rows, cols, st[k]) by {
                if k > 0 {
                    assert(st[k] == rest[k - 1]);
                    assert(st[k + 1] == rest[k]);
                }
            }
            assert forall|k: int| 0 <= k < st.len() - 1 implies #[trigger] st[k] < st[k + 1] by {
                if k > 0 {
                    assert(st[k] == rest[k - 1]);
                    assert(st[k + 1] == rest[k]);
                }
            }
            assert forall|k: int| 0 <= k < st.len() implies b <= #[trigger] st[k] < s.len() by {
                if k > 0 {
                    assert(st[k] == rest[k - 1]);
                }
            }
            assert forall|k: int| 0 <= k < st.len() implies (#[trigger] st[k] == 0 || s[st[k] - 1] == '\n') by {
                if k > 0 {
                    assert(st[k] == rest[k - 1]);
                }
            }
            assert(rest.len() > 0);
            assert(st.last() == rest.last());
        } else {
            assert(page_starts(s, rows, cols, e) =~= Seq::<int>::empty());
            assert(page_starts(s, rows, cols, b) =~= seq![b]);
        }
    }
}

/// Pagination never splits a source line: every page holds at least
/// one character, and every page but the last ends with a `\n`.
pub proof fn law_pages_end_at_line_breaks(pages: Seq<Page>, s: Seq<char>, rows: int, cols: int)
    requires
        paginated(pages, s, rows, cols),
    ensures
        forall|k: int| 0 <= k < pages.len() ==> (#[trigger] pages[k].cells@).len() > 0,
        forall|k: int| 0 <= k < pages.len() - 1 ==> (#[trigger] pages[k].cells@).last().ch == '\n',
{
    let st = page_starts(s, clamp1(rows), cols, 0);
    lemma_page_starts_shape(s, clamp1(rows), cols, 0);
    assert forall|k: int| 0 <= k < pages.len() implies (#[trigger] pages[k].cells@).len() > 0 by {
        assert(page_holds(pages[k], s, st[k], page_stop(st, k, s.len() as int)));
        if k + 1 < st.len() {
            assert(st[k] < st[k + 1]);
        }
    }
    assert forall|k: int| 0 <= k < pages.len() - 1 implies (#[trigger] pages[k].cells@).last().ch == '\n' by {
        assert(page_holds(pages[k], s, st[k], page_stop(st, k, s.len() as int)));
        assert(st[k] < st[k + 1]);
        assert(st[k + 1] == 0 || s[st[k + 1] - 1] == '\n');
        let cells = pages[k].cells@;
        assert(cells == pending_cells(s.subrange(st[k], st[k + 1])));
        assert(cells.last().ch == s[st[k + 1] - 1]);
    }
}

/// Visual rows taken at width `cols` by the source lines of `s` from
/// the line start `p` up to `b` (a later line start, or the end).
pub open spec fn rows_between(s: Seq<char>, cols: int, p: int, b: int) -> int
    decreases s.len() - p,
{
    if p < 0 || p >= b || p >= s.len() {
        0
    } else {
        let e = next_newline(s, p);
        if e < p || e >= s.len() {
            visual_rows(s.len() - p, cols)
        } else {
            visual_rows(e - p, cols) + rows_between(s, cols, e + 1, b)
        }
    }
}

/// Visual rows the text `t` is wrapped into at width `cols`, as it is
/// laid out on screen.
pub open spec fn text_rows(t: Seq<char>, cols: int) -> int {
    wrap_from(t, cols, 0).len() as int
}

/// Counting rows line by line gives the number of wrapped rows.
proof fn lemma_rows_between_wrap(t: Seq<char>, cols: int, p: int)
    requires
        0 <= p <= t.len(),
    ensures
        rows_between(t, cols, p, t.len() as int) == wrap_from(t, cols, p).len(),
    decreases t.len() - p,
{
    if p < t.len() {
        lemma_next_newline(t, p);
        let e = next_newline(t, p);
        if e >= t.len() {
            lemma_line_rows_len(t.subrange(p, t.len() as int), cols);
        } else {
            lemma_line_rows_len(t.subrange(p, e), cols);
            lemma_rows_between_wrap(t, cols, e + 1);
        }
    }
}

/// Just past the source line starting at `p`: after its `\n`, or the end.
pub open spec fn line_end(s: Seq<char>, p: int) -> int {
    if next_newline(s, p) < s.len() {
        next_newline(s, p) + 1
    } else {
        s.len() as int
    }
}

/// While a page is being filled, the rows it holds stay within the
/// budget, except when its first line alone already exceeds it; then
/// the page ends right after that line.
proof fn lemma_page_end_from_rows(s: Seq<char>, rows: int, cols: int, p: int, acc: int, first: bool)
    requires
        0 <= p <= s.len(),
    ensures
        ({
            let r = page_end_from(s, rows, cols, p, acc, first);
            ||| acc + rows_between(s, cols, p, r) <= rows
            ||| (first && r == line_end(s, p))
            ||| (!first && acc > rows && r == p)
        }),
    decreases s.len() - p,
{
    lemma_page_end_from_ge(s, rows, cols, p, acc, first);
    if p < s.len() {
        lemma_next_newline(s, p);
        let e = next_newline(s, p);
        let r = visual_rows(e - p, cols);
        if !first && acc + r > rows {
        } else if e >= s.len() {
        } else {
            lemma_page_end_from_rows(s, rows, cols, e + 1, acc + r, false);
            lemma_page_end_from_ge(s, rows, cols, e + 1, acc + r, false);
        }
    }
}

/// Rows counted over a slice of `s` that ends at a line start (or the
/// end) are the rows of that slice taken on its own.
proof fn lemma_rows_between_slice(s: Seq<char>, cols: int, a: int, p: int, b: int)
    requires
        0 <= a <= p <= b <= s.len(),
        b == s.len() || (b > 0 && s[b - 1] == '\n'),
    ensures
        rows_between(s, cols, p, b) == rows_between(s.subrange(a, b), cols, p - a, b - a),
    decreases s.len() - p,
{
    let t = s.subrange(a, b);
    if p < b {
        lemma_next_newline(s, p);
        lemma_next_newline(t, p - a);
        let e = next_newline(s, p);
        let et = next_newline(t, p - a);
        if e < b {
            lemma_next_newline_same(s, t, a, b, p, e);
        } else {
            assert(b == s.len());
            lemma_next_newline_none(s, t, a, p);
        }
        if e < s.len() {
            lemma_rows_between_slice(s, cols, a, e + 1, b);
        }
    }
}

/// In the slice `t = s[a..b]`, the first `\n` from `p - a` is the first
/// `\n` of `s` from `p`, shifted.
proof fn lemma_next_newline_same(s: Seq<char>, t: Seq<char>, a: int, b: int, p: int, e: int)
    requires
        0 <= a <= p <= e < b <= s.len(),
        t == s.subrange(a, b),
        s[e] == '\n',
        forall|k: int| p <= k < e ==> s[k] != '\n',
    ensures
        next_newline(t, p - a) == e - a,
    decreases e - p,
{
    if p < e {
        assert(t[p - a] == s[p]);
        lemma_next_newline_same(s, t, a, b, p + 1, e);
    } else {
        assert(t[p - a] == s[p]);
    }
}

/// With no `\n` in `s` from `p` on, there is none in the slice either.
proof fn lemma_next_newline_none(s: Seq<char>, t: Seq<char>, a: int, p: int)
    requires
        0 <= a <= p <= s.len(),
        t == s.subrange(a, s.len() as int),
        forall|k: int| p <= k < s.len() ==> s[k] != '\n',
    ensures
        next_newline(t, p - a) == t.len(),
    decreases s.len() - p,
{
    if p < s.len() {
        assert(t[p - a] == s[p]);
        lemma_next_newline_none(s, t, a, p + 1);
    }
}

/// Every page fits the row budget: the visual rows its source lines take
/// at width `cols` stay within `rows` (clamped to 1), unless the page
/// holds a single source line that is taller than the budget on its own.
pub proof fn law_pages_fit_budget(pages: Seq<Page>, s: Seq<char>, rows: int, cols: int)
    requires
        paginated(pages, s, rows, cols),
    ensures
        forall|k: int| 0 <= k < pages.len() ==> ({
            let t = cell_chars(#[trigger] pages[k].cells@);
            text_rows(t, cols) <= clamp1(rows) || next_newline(t, 0) + 1 >= t.len()
        }),
{
    let st = page_starts(s, clamp1(rows), cols, 0);
    lemma_page_starts_shape(s, clamp1(rows), cols, 0);
    assert forall|k: int| 0 <= k < pages.len() implies ({
        let t = cell_chars(#[trigger] pages[k].cells@);
        text_rows(t, cols) <= clamp1(rows) || next_newline(t, 0) + 1 >= t.len()
    }) by {
        let a = st[k];
        let b = page_stop(st, k, s.len() as int);
        assert(page_holds(pages[k], s, a, b));
        lemma_cells_of_chars(s.subrange(a, b));
        let t = cell_chars(pages[k].cells@);
        assert(t == s.subrange(a, b));
        assert(b == page_end(s, clamp1(rows), cols, a));
        lemma_page_end_from_rows(s, clamp1(rows), cols, a, 0, true);
        lemma_page_end_from_ge(s, clamp1(rows), cols, a, 0, true);
        lemma_page_end_from_break(s, clamp1(rows), cols, a, 0, true);
        lemma_rows_between_slice(s, cols, a, a, b);
        lemma_rows_between_wrap(t, cols, 0);
        assert(text_rows(t, cols) == rows_between(s, cols, a, b));
        if b == line_end(s, a) {
            lemma_next_newline(s, a);
            let e = next_newline(s, a);
            if e < s.len() {
                assert(e < b);
                lemma_next_newline_same(s, t, a, b, a, e);
            } else {
                lemma_next_newline_none(s, t, a, a);
            }
        }
    }
}

/// Rows taken by the source line of `s` starting at `p`.
pub open spec fn line_rows_at(s: Seq<char>, cols: int, p: int) -> int {
    let e = next_newline(s, p);
    visual_rows(if e < s.len() { e - p } else { s.len() - p }, cols)
}

/// A page that stops before the end of the text stops because the next
/// source line would not fit in the budget.
proof fn lemma_page_end_from_full(s: Seq<char>, rows: int, cols: int, p: int, acc: int, first: bool)
    requires
        0 <= p <= s.len(),
        page_end_from(s, rows, cols, p, acc, first) < s.len(),
    ensures
        ({
            let r = page_end_from(s, rows, cols, p, acc, first);
            acc + rows_between(s, cols, p, r) + line_rows_at(s, cols, r) > rows
        }),
    decreases s.len() - p,
{
    lemma_page_end_from_ge(s, rows, cols, p, acc, first);
    if p < s.len() {
        lemma_next_newline(s, p);
        let e = next_newline(s, p);
        let r = visual_rows(e - p, cols);
        if !first && acc + r > rows {
        } else if e >= s.len() {
        } else {
            lemma_page_end_from_full(s, rows, cols, e + 1, acc + r, false);
            lemma_page_end_from_ge(s, rows, cols, e + 1, acc + r, false);
        }
    }
}

/// Pages are filled greedily: every page but the last is followed by a
/// source line that would not have fit in what was left of the row
/// budget (`rows`, clamped to 1).
pub proof fn law_pages_are_full(pages: Seq<Page>, s: Seq<char>, rows: int, cols: int)
    requires
        paginated(pages, s, rows, cols),
    ensures
        forall|k: int| 0 <= k < pages.len() - 1 ==> ({
            let t = cell_chars(#[trigger] pages[k].cells@);
            let u = cell_chars(pages[k + 1].cells@);
            text_rows(t, cols) + line_rows_at(u, cols, 0) > clamp1(rows)
        }),
{
    let st = page_starts(s, clamp1(rows), cols, 0);
    lemma_page_starts_shape(s, clamp1(rows), cols, 0);
    assert forall|k: int| 0 <= k < pages.len() - 1 implies ({
        let t = cell_chars(#[trigger] pages[k].cells@);
        let u = cell_chars(pages[k + 1].cells@);
        text_rows(t, cols) + line_rows_at(u, cols, 0) > clamp1(rows)
    }) by {
        let a = st[k];
        let b = st[k + 1];
        let c = page_stop(st, k + 1, s.len() as int);
        assert(page_holds(pages[k], s, a, b));
        assert(page_holds(pages[k + 1], s, b, c));
        lemma_cells_of_chars(s.subrange(a, b));
        lemma_cells_of_chars(s.subrange(b, c));
        let t = cell_chars(pages[k].cells@);
        let u = cell_chars(pages[k + 1].cells@);
        assert(b == page_end(s, clamp1(rows), cols, a));
        assert(b < s.len());
        lemma_page_end_from_full(s, clamp1(rows), cols, a, 0, true);
        lemma_rows_between_slice(s, cols, a, a, b);
        lemma_rows_between_wrap(t, cols, 0);
        assert(text_rows(t, cols) == rows_between(s, cols, a, b));
        // The first line of the next page, seen in the page and in `s`.
        lemma_page_end_from_ge(s, clamp1(rows), cols, b, 0, true);
        lemma_page_end_from_break(s, clamp1(rows), cols, b, 0, true);
        if k + 2 < st.len() {
            assert(c == page_end(s, clamp1(rows), cols, b));
        } else {
            assert(c == s.len());
        }
        lemma_next_newline(s, b);
        let e = next_newline(s, b);
        if e < c {
            lemma_next_newline_same(s, u, b, c, b, e);
            assert(line_rows_at(u, cols, 0) == visual_rows(e - b, cols));
            assert(line_rows_at(s, cols, b) == visual_rows(e - b, cols));
        } else {
            assert(c == s.len());
            lemma_next_newline_none(s, u, b, b);
            assert(line_rows_at(u, cols, 0) == visual_rows(s.len() - b, cols));
        }
    }
}

} // verus!
