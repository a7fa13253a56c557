//! Typing body layout: how the page's cells fall into visual rows, where
//! the cursor lands on screen, and where the pending wrong keystrokes
//! are drawn.

use vstd::prelude::*;

use crate::text::wrap::{clamp1, find_newline, lemma_next_newline, line_rows, chunks, next_newline, wrap_from};
use crate::text::{cell_chars, Cell};

verus! {

/// `(row, col)` reached after laying out `cells[0..end]` at width
/// `cols`: each non-newline advances one column, wrapping at `cols`;
/// each newline moves to column 0 of the next row.
pub open spec fn walk(cells: Seq<Cell>, end: int, cols: int) -> (int, int)
    decreases end,
{
    if end <= 0 {
        (0, 0)
    } else {
        let (row, col) = walk(cells, end - 1, cols);
        if cells[end - 1].ch == '\n' {
            (row + 1, 0)
        } else if col + 1 >= cols {
            (row + 1, 0)
        } else {
            (row, col + 1)
        }
    }
}

/// The `(col, row)` of the cursor after `cu_ptr` typed cells (capped at
/// the page length) and `extras` wrong characters drawn after them, at
/// width `cols` (> 0).
pub open spec fn cursor_pos(cells: Seq<Cell>, cu_ptr: int, extras: int, cols: int) -> (int, int) {
    let end = if cu_ptr < cells.len() { cu_ptr } else { cells.len() as int };
    let (row, col) = walk(cells, end, cols);
    let c = col + extras;
    if c >= cols {
        (c % cols, row + c / cols)
    } else {
        (c, row)
    }
}

proof fn lemma_walk_bounds(cells: Seq<Cell>, end: int, cols: int)
    requires
        0 <= end <= cells.len(),
        cols >= 1,
    ensures
        0 <= walk(cells, end, cols).0 <= end,
        0 <= walk(cells, end, cols).1 < cols,
    decreases end,
{
    if end > 0 {
        lemma_walk_bounds(cells, end - 1, cols);
    }
}

/// Extras are drawn after the cursor: with `extras` pending, the cursor
/// sits `extras` columns past where it sits with none, wrapping at
/// `cols` onto the following rows.
pub proof fn law_extras_follow_cursor(cells: Seq<Cell>, cu_ptr: int, extras: int, cols: int)
    requires
        cols >= 1,
        extras >= 0,
    ensures
        ({
            let (c0, r0) = cursor_pos(cells, cu_ptr, 0, cols);
            &&& 0 <= c0 < cols
            &&& cursor_pos(cells, cu_ptr, extras, cols) == ((c0 + extras) % cols, r0 + (c0 + extras) / cols)
        }),
{
    let end = if cu_ptr < cells.len() { cu_ptr } else { cells.len() as int };
    if end >= 0 {
        lemma_walk_bounds(cells, end, cols);
    }
    let (row, col) = walk(cells, end, cols);
    if col + extras < cols {
        assert((col + extras) % cols == col + extras) by (nonlinear_arith)
            requires 0 <= col + extras < cols;
        assert((col + extras) / cols == 0) by (nonlinear_arith)
            requires 0 <= col + extras < cols;
    }
}

/// Maps `(cu_ptr, extras_len)` to the `(col, row)` the cursor occupies
/// within the body area, applying char-wrap at `body_cols`; `(0, 0)`
/// when `body_cols` is zero. Coordinates are truncated to `u16` like
/// every other screen coordinate.
pub fn cursor_screen_pos(cells: &[Cell], cu_ptr: usize, extras_len: usize, body_cols: u16) -> (p: (u16, u16))
    requires
        cells@.len() + extras_len + body_cols <= usize::MAX,
    ensures
        body_cols == 0 ==> p == (0u16, 0u16),
        body_cols > 0 ==> ({
            let (col, row) = cursor_pos(cells@, cu_ptr as int, extras_len as int, body_cols as int);
            p == (col as u16, row as u16)
        }),
{
    if body_cols == 0 {
        return (0, 0);
    }
    let cols = body_cols as usize;
    let mut row: usize = 0;
    let mut col: usize = 0;
    let end = if cu_ptr < cells.len() { cu_ptr } else { cells.len() };
    let mut i: usize = 0;
    while i < end
        invariant
            i <= end <= cells@.len(),
            cols == body_cols as int,
            cols >= 1,
            (row as int, col as int) == walk(cells@, i as int, cols as int),
            row <= i,
            col < cols,
        decreases end - i,
    {
        proof {
            lemma_walk_bounds(cells@, i as int, cols as int);
        }
        if cells[i].ch == '\n' {
            row = row + 1;
            col = 0;
        } else {
            col = col + 1;
            if col >= cols {
                col = 0;
                row = row + 1;
            }
        }
        i = i + 1;
    }
    col = col + extras_len;
    if col >= cols {
        proof {
            assert(col / cols <= col) by (nonlinear_arith)
                requires cols >= 1, col >= 0;
        }
        row = row + col / cols;
        col = col % cols;
    }
    (col as u16, row as u16)
}

/// The cells of each row, in order.
pub open spec fn row_cells(rows: Seq<Vec<Cell>>) -> Seq<Seq<Cell>> {
    rows.map_values(|r: Vec<Cell>| r@)
}

/// The characters of each row, in order.
pub open spec fn row_texts(rows: Seq<Vec<Cell>>) -> Seq<Seq<char>> {
    rows.map_values(|r: Vec<Cell>| cell_chars(r@))
}

/// The cells of `cells` that are drawn: every cell but the newlines.
pub open spec fn drawn_cells(cells: Seq<Cell>) -> Seq<Cell>
    decreases cells.len(),
{
    if cells.len() == 0 {
        seq![]
    } else {
        drawn_cells(cells.drop_last()) + if cells.last().ch == '\n' { seq![] } else { seq![cells.last()] }
    }
}

/// Drawn cells of a prefix grow by a run without newlines, and not at
/// all by a newline.
proof fn lemma_drawn_cells_line(cells: Seq<Cell>, p: int, k: int)
    requires
        0 <= p <= k <= cells.len(),
        forall|j: int| p <= j < k ==> #[trigger] cells[j].ch != '\n',
    ensures
        drawn_cells(cells.take(k)) == drawn_cells(cells.take(p)) + cells.subrange(p, k),
    decreases k - p,
{
    if k > p {
        lemma_drawn_cells_line(cells, p, k - 1);
        assert(cells.take(k).drop_last() =~= cells.take(k - 1));
        assert(cells.subrange(p, k) =~= cells.subrange(p, k - 1).push(cells[k - 1]));
    } else {
        assert(cells.subrange(p, k) =~= Seq::<Cell>::empty());
    }
}

/// The characters of a run of cells are the run of their characters.
proof fn lemma_cell_chars_subrange(cells: Seq<Cell>, a: int, b: int)
    requires
        0 <= a <= b <= cells.len(),
    ensures
        cell_chars(cells.subrange(a, b)) == cell_chars(cells).subrange(a, b),
{
    assert(cell_chars(cells.subrange(a, b)) =~= cell_chars(cells).subrange(a, b));
}

/// Copies `cells[from..to]` into a fresh vector.
fn copy_cells(cells: &[Cell], from: usize, to: usize) -> (v: Vec<Cell>)
    requires
        from <= to <= cells@.len(),
    ensures
        v@ == cells@.subrange(from as int, to as int),
{
    let mut v: Vec<Cell> = Vec::new();
    let mut k = from;
    while k < to
        invariant
            from <= k <= to <= cells@.len(),
            v@ == cells@.subrange(from as int, k as int),
        decreases to - k,
    {
        v.push(cells[k]);
        k = k + 1;
        assert(v@ =~= cells@.subrange(from as int, k as int));
    }
    v
}

/// Appends the visual rows of the source line held by `cells[from..to]`
/// to `rows`.
fn push_line_rows(rows: &mut Vec<Vec<Cell>>, cells: &[Cell], from: usize, to: usize, cols: usize)
    requires
        from <= to <= cells@.len(),
        cols >= 1,
    ensures
        row_texts(final(rows)@) == row_texts(old(rows)@)
            + line_rows(cell_chars(cells@).subrange(from as int, to as int), cols as int),
        row_cells(final(rows)@).flatten() == row_cells(old(rows)@).flatten() + cells@.subrange(from as int, to as int),
{
    let ghost chars = cell_chars(cells@);
    let ghost line = chars.subrange(from as int, to as int);
    if from == to {
        let empty: Vec<Cell> = Vec::new();
        assert(cell_chars(empty@) =~= Seq::<char>::empty());
        rows.push(empty);
        assert(row_texts(rows@) =~= row_texts(old(rows)@).push(Seq::<char>::empty()));
        assert(row_cells(rows@) =~= row_cells(old(rows)@).push(Seq::<Cell>::empty()));
        proof {
            row_cells(old(rows)@).lemma_flatten_push(Seq::<Cell>::empty());
        }
        assert(row_cells(rows@).flatten() =~= row_cells(old(rows)@).flatten() + Seq::<Cell>::empty());
        assert(cells@.subrange(from as int, to as int) =~= Seq::<Cell>::empty());
        return;
    }
    let mut k = from;
    while k < to
        invariant
            from <= k <= to <= cells@.len(),
            cols >= 1,
            from < to,
            chars == cell_chars(cells@),
            line == chars.subrange(from as int, to as int),
            k < to ==> row_texts(rows@) + chunks(chars.subrange(k as int, to as int), cols as int)
                == row_texts(old(rows)@) + chunks(line, cols as int),
            k == to ==> row_texts(rows@) == row_texts(old(rows)@) + chunks(line, cols as int),
            row_cells(rows@).flatten() == row_cells(old(rows)@).flatten() + cells@.subrange(from as int, k as int),
        decreases to - k,
    {
        let ghost rest = chars.subrange(k as int, to as int);
        let end = if to - k <= cols { to } else { k + cols };
        let chunk = copy_cells(cells, k, end);
        let ghost before = rows@;
        proof {
            lemma_cell_chars_subrange(cells@, k as int, end as int);
        }
        rows.push(chunk);
        assert(row_texts(rows@) =~= row_texts(before).push(cell_chars(chunk@)));
        assert(row_cells(rows@) =~= row_cells(before).push(chunk@));
        proof {
            row_cells(before).lemma_flatten_push(chunk@);
        }
        assert(row_cells(rows@).flatten() =~= row_cells(before).flatten() + chunk@);
        assert(cells@.subrange(from as int, end as int) =~= cells@.subrange(from as int, k as int) + chunk@);
        if end == to {
            assert(chunks(rest, cols as int) == seq![rest]);
            assert(cell_chars(chunk@) =~= rest);
            assert(row_texts(before) + chunks(rest, cols as int) =~= row_texts(before).push(cell_chars(chunk@)));
        } else {
            assert(rest.take(cols as int) =~= cell_chars(chunk@));
            assert(rest.skip(cols as int) =~= chars.subrange(end as int, to as int));
            assert(row_texts(before) + chunks(rest, cols as int) =~= row_texts(rows@) + chunks(chars.subrange(end as int, to as int), cols as int));
        }
        k = end;
    }
    assert(line_rows(line, cols as int) == chunks(line, cols as int));
}

/// Lays out `cells` into visual rows at width `cols` (clamped to 1) for
/// drawing, one cell per column: the rows are the char-wrapped lines of
/// the page, exactly as [`crate::text::wrap_content`] lays out its
/// characters, and they hold every cell but the newlines, in order, so
/// each cell keeps its typing state for colouring.
pub fn body_rows(cells: &[Cell], cols: usize) -> (rows: Vec<Vec<Cell>>)
    ensures
        row_texts(rows@) == wrap_from(cell_chars(cells@), cols as int, 0),
        row_cells(rows@).flatten() == drawn_cells(cells@),
{
    let c = if cols < 1 { 1 } else { cols };
    let n = cells.len();
    let mut chars: Vec<char> = Vec::new();
    let mut i: usize = 0;
    while i < n
        invariant
            n == cells@.len(),
            i <= n,
            chars@ == cell_chars(cells@.take(i as int)),
        decreases n - i,
    {
        chars.push(cells[i].ch);
        i = i + 1;
        assert(chars@ =~= cell_chars(cells@.take(i as int)));
    }
    assert(cells@.take(n as int) =~= cells@);
    let ghost s = cell_chars(cells@);
    let mut rows: Vec<Vec<Cell>> = Vec::new();
    let mut p: usize = 0;
    proof {
        assert(row_cells(rows@) =~= Seq::<Seq<Cell>>::empty());
        assert(drawn_cells(cells@.take(0)) =~= Seq::<Cell>::empty());
    }
    while p < n
        invariant
            n == cells@.len(),
            chars@ == s,
            s == cell_chars(cells@),
            p <= n,
            c == clamp1(cols as int),
            row_texts(rows@) + wrap_from(s, cols as int, p as int) == wrap_from(s, cols as int, 0),
            row_cells(rows@).flatten() == drawn_cells(cells@.take(p as int)),
        decreases n - p,
    {
        let e = find_newline(chars.as_slice(), p);
        proof {
            lemma_next_newline(s, p as int);
            assert forall|j: int| p <= j < e implies #[trigger] cells@[j].ch != '\n' by {
                assert(s[j] == cells@[j].ch);
            }
            lemma_drawn_cells_line(cells@, p as int, e as int);
        }
        let ghost before = row_texts(rows@);
        push_line_rows(&mut rows, cells, p, e, c);
        assert(line_rows(s.subrange(p as int, e as int), cols as int) == line_rows(s.subrange(p as int, e as int), c as int));
        if e >= n {
            assert(wrap_from(s, cols as int, n as int) =~= Seq::<Seq<char>>::empty());
            assert(row_texts(rows@) + wrap_from(s, cols as int, n as int) =~= row_texts(rows@));
            p = n;
        } else {
            assert(before + wrap_from(s, cols as int, p as int) =~= row_texts(rows@) + wrap_from(s, cols as int, e + 1));
            assert(cells@.take(e + 1).drop_last() =~= cells@.take(e as int));
            assert(cells@.take(e + 1).last() == cells@[e as int]);
            assert(cells@[e as int].ch == s[e as int]);
            p = e + 1;
        }
    }
    assert(row_texts(rows@) + wrap_from(s, cols as int, p as int) =~= row_texts(rows@));
    assert(cells@.take(p as int) =~= cells@);
    rows
}

/// The glyph drawn for a wrong keystroke: a space or newline shows as
/// `_`, so the player sees that a special key landed in the wrong place.
pub open spec fn extra_glyph(c: char) -> char {
    if c == ' ' || c == '\n' {
        '_'
    } else {
        c
    }
}

/// Where the first `n` wrong keystrokes `extras` are drawn inside a body
/// of `cols` columns and `rows` rows: the `i`-th sits where the cursor
/// would with `i` extras, and those falling outside the body are not
/// drawn.
pub open spec fn overlay(cells: Seq<Cell>, cu_ptr: int, extras: Seq<char>, n: int, cols: int, rows: int) -> Seq<(u16, u16, char)>
    decreases n,
{
    if n <= 0 {
        seq![]
    } else {
        let before = overlay(cells, cu_ptr, extras, n - 1, cols, rows);
        let (col, row) = cursor_pos(cells, cu_ptr, n - 1, cols);
        if (col as u16) < cols && (row as u16) < rows {
            before.push((col as u16, row as u16, extra_glyph(extras[n - 1])))
        } else {
            before
        }
    }
}

/// The glyph for one wrong keystroke.
fn glyph_of(c: char) -> (g: char)
    ensures
        g == extra_glyph(c),
{
    if c == ' ' || c == '\n' {
        '_'
    } else {
        c
    }
}

/// The `(col, row, glyph)` of each pending wrong keystroke that falls
/// inside a body of `width` columns and `height` rows, in typing order.
/// Nothing is drawn in a body without columns.
pub fn extras_overlay(cells: &[Cell], cu_ptr: usize, extras: &[char], width: u16, height: u16) -> (v: Vec<(u16, u16, char)>)
    requires
        cells@.len() + extras@.len() + width <= usize::MAX,
    ensures
        width == 0 ==> v@.len() == 0,
        width > 0 ==> v@ == overlay(cells@, cu_ptr as int, extras@, extras@.len() as int, width as int, height as int),
{
    let mut v: Vec<(u16, u16, char)> = Vec::new();
    if width == 0 {
        return v;
    }
    let mut i: usize = 0;
    while i < extras.len()
        invariant
            i <= extras@.len(),
            width > 0,
            cells@.len() + extras@.len() + width <= usize::MAX,
            v@ == overlay(cells@, cu_ptr as int, extras@, i as int, width as int, height as int),
        decreases extras@.len() - i,
    {
        let (col, row) = cursor_screen_pos(cells, cu_ptr, i, width);
        if col < width && row < height {
            v.push((col, row, glyph_of(extras[i])));
        }
        i = i + 1;
    }
    v
}

} // verus!
