//! Pure data model for the typing text.
//!
//! Source text is split into [`Page`]s that each fit within a given row
//! budget. [`Pages`] owns the collection plus the index of the page the
//! player is currently typing through.

pub mod pagination;
pub mod wrap;

pub use pagination::paginate;
pub use wrap::{gutter_labels, visual_rows_for_line, wrap as wrap_content};

use vstd::prelude::*;

verus! {

/// Per-character state of a [`Cell`].
///
/// A cell is `Pending` until the typing engine commits it: `Correct`
/// when it was typed with no wrong keystrokes pending, `Wrong` when it
/// was typed while wrong keystrokes were still waiting to be erased.
#[derive(Debug, Clone, Copy, PartialEq, Eq, Structural)]
pub enum CellState {
    Pending,
    Correct,
    Wrong,
}

/// One typeable character plus the state of the player's last pass
/// through it.
#[derive(Debug, Clone, Copy, PartialEq, Eq, Structural)]
pub struct Cell {
    pub ch: char,
    pub state: CellState,
}

/// The fresh, untyped cell for `c`.
pub open spec fn pending_cell(c: char) -> Cell {
    Cell { ch: c, state: CellState::Pending }
}

/// The fresh, untyped cells for the characters `s`.
pub open spec fn pending_cells(s: Seq<char>) -> Seq<Cell> {
    s.map_values(|c: char| pending_cell(c))
}

/// The characters carried by `cells`.
pub open spec fn cell_chars(cells: Seq<Cell>) -> Seq<char> {
    cells.map_values(|c: Cell| c.ch)
}

impl Cell {
    /// Constructs a fresh cell for `ch` that hasn't been typed yet.
    pub fn pending(ch: char) -> (c: Self)
        ensures
            c == pending_cell(ch),
    {
        Cell { ch, state: CellState::Pending }
    }
}

/// A single page of expanded source text.
///
/// `line_start` and `line_end` are the inclusive 1-based source-line
/// range this page spans, used by the line-number gutter.
#[derive(Debug, Clone)]
pub struct Page {
    pub cells: Vec<Cell>,
    pub line_start: usize,
    pub line_end: usize,
}

impl Page {
    /// Collects the page's expected characters into a fresh vector.
    pub fn chars(&self) -> (v: Vec<char>)
        ensures
            v@ == cell_chars(self.cells@),
    {
        let mut v: Vec<char> = Vec::new();
        let n = self.cells.len();
        for i in 0..n
            invariant
                n == self.cells@.len(),
                v@ == cell_chars(self.cells@.take(i as int)),
        {
            v.push(self.cells[i].ch);
            assert(cell_chars(self.cells@.take(i + 1)) =~= cell_chars(self.cells@.take(i as int)).push(self.cells@[i as int].ch));
        }
        assert(self.cells@.take(n as int) =~= self.cells@);
        v
    }
}

/// Sum of the cell counts of the first `n` pages.
pub open spec fn cells_before(pages: Seq<Page>, n: int) -> int
    decreases n,
{
    if n <= 0 {
        0
    } else {
        cells_before(pages, n - 1) + pages[n - 1].cells@.len()
    }
}

/// `cells` with the states of positions `from..to` set to `st`.
pub open spec fn mark(cells: Seq<Cell>, from: int, to: int, st: CellState) -> Seq<Cell> {
    Seq::new(cells.len(), |j: int| if from <= j < to { Cell { ch: cells[j].ch, state: st } } else { cells[j] })
}

/// Marking two adjacent ranges with the same state marks their union.
pub proof fn lemma_mark_compose(cells: Seq<Cell>, a: int, b: int, c: int, st: CellState)
    requires
        a <= b <= c,
    ensures
        mark(mark(cells, a, b, st), b, c, st) == mark(cells, a, c, st),
{
    let m1 = mark(cells, a, b, st);
    let m2 = mark(m1, b, c, st);
    let m3 = mark(cells, a, c, st);
    assert forall|j: int| 0 <= j < m3.len() implies m2[j] == m3[j] by {
        assert(m1[j].ch == cells[j].ch);
    }
    assert(m2 =~= m3);
}

/// The cells of the current page.
pub open spec fn cur_cells(pv: PagesView) -> Seq<Cell> {
    pv.pages[pv.current].cells@
}

/// Page `i` of `new` holds `cells` and keeps the line range it had in `old`.
pub open spec fn page_replaced(old: PagesView, new: PagesView, i: int, cells: Seq<Cell>) -> bool {
    &&& new.pages[i].cells@ == cells
    &&& new.pages[i].line_start == old.pages[i].line_start
    &&& new.pages[i].line_end == old.pages[i].line_end
}

/// `new` is `old` with only the current page's cells replaced by `cells`.
pub open spec fn with_current(old: PagesView, new: PagesView, cells: Seq<Cell>) -> bool {
    &&& new.current == old.current
    &&& new.pages.len() == old.pages.len()
    &&& forall|i: int| 0 <= i < old.pages.len() && i != old.current ==> #[trigger] new.pages[i] == old.pages[i]
    &&& page_replaced(old, new, old.current, cells)
}

/// Prefix sums of page lengths are non-negative, grow with the page
/// count and never exceed the total.
pub proof fn lemma_cells_before_bounds(pages: Seq<Page>, n: int)
    requires
        0 <= n <= pages.len(),
    ensures
        0 <= cells_before(pages, n) <= cells_before(pages, pages.len() as int),
        forall|m: int| 0 <= m <= n ==> #[trigger] cells_before(pages, m) <= cells_before(pages, n),
    decreases pages.len() - n,
{
    lemma_cells_before_grow(pages, n);
    if n < pages.len() {
        lemma_cells_before_bounds(pages, n + 1);
    }
}

proof fn lemma_cells_before_grow(pages: Seq<Page>, n: int)
    requires
        0 <= n <= pages.len(),
    ensures
        0 <= cells_before(pages, n),
        forall|m: int| 0 <= m <= n ==> #[trigger] cells_before(pages, m) <= cells_before(pages, n),
    decreases n,
{
    if n > 0 {
        lemma_cells_before_grow(pages, n - 1);
    }
}

/// Page `y` holds the same characters and line range as page `x`.
pub open spec fn same_page_text(x: Page, y: Page) -> bool {
    &&& y.line_start == x.line_start
    &&& y.line_end == x.line_end
    &&& cell_chars(y.cells@) == cell_chars(x.cells@)
}

/// `b` holds the same pages as `a` (same characters, same line ranges),
/// whatever the typing states of their cells.
pub open spec fn same_text(a: Seq<Page>, b: Seq<Page>) -> bool {
    &&& a.len() == b.len()
    &&& forall|i: int| 0 <= i < a.len() ==> #[trigger] same_page_text(a[i], b[i])
}

/// Every cell whose global position (counted across pages) is below
/// `upto` is `Correct`; every other cell is `Pending`.
pub open spec fn typed_prefix(pages: Seq<Page>, upto: int) -> bool {
    forall|i: int, j: int|
        0 <= i < pages.len() && 0 <= j < pages[i].cells@.len() ==> (#[trigger] pages[i].cells@[j]).state
            == if cells_before(pages, i) + j < upto {
            CellState::Correct
        } else {
            CellState::Pending
        }
}

/// Abstract view of [`Pages`]: the page list and the current index.
pub struct PagesView {
    pub pages: Seq<Page>,
    pub current: int,
}

/// Ordered collection of [`Page`]s plus the currently displayed index.
#[derive(Debug, Clone)]
pub struct Pages {
    pages: Vec<Page>,
    current: usize,
}

impl View for Pages {
    type V = PagesView;

    closed spec fn view(&self) -> PagesView {
        PagesView { pages: self.pages@, current: self.current as int }
    }
}

/// Index of the first page whose end reaches global position `x`,
/// searching from page `i`.
pub open spec fn first_page_reaching(pages: Seq<Page>, x: int, i: int) -> int
    decreases pages.len() - i,
{
    if i >= pages.len() - 1 || cells_before(pages, i + 1) >= x {
        i
    } else {
        first_page_reaching(pages, x, i + 1)
    }
}

/// The page that [`Pages::restore_progress`] lands on for the (already
/// clamped) global position `x`: the page containing `x`, or the next
/// page when `x` sits exactly on a non-final page's trailing edge.
pub open spec fn restore_target(pages: Seq<Page>, x: int) -> int {
    let i = first_page_reaching(pages, x, 0);
    if cells_before(pages, i + 1) == x && i + 1 < pages.len() {
        i + 1
    } else {
        i
    }
}

impl Pages {
    /// Non-empty, with the current index in range.
    pub open spec fn wf(&self) -> bool {
        &&& self@.pages.len() > 0
        &&& 0 <= self@.current < self@.pages.len()
    }

    /// The page currently displayed.
    pub open spec fn current_page(&self) -> Page {
        self@.pages[self@.current]
    }

    /// Total cell count across every page.
    pub open spec fn cell_total(&self) -> int {
        cells_before(self@.pages, self@.pages.len() as int)
    }

    /// Wraps a non-empty page list. Returns `None` when `pages` is empty.
    pub fn new(pages: Vec<Page>) -> (r: Option<Self>)
        ensures
            r is None <==> pages@.len() == 0,
            r matches Some(p) ==> p.wf() && p@.pages == pages@ && p@.current == 0,
    {
        if pages.len() == 0 {
            None
        } else {
            Some(Pages { pages, current: 0 })
        }
    }

    /// The pages, in order.
    pub fn pages(&self) -> (s: &[Page])
        ensures
            s@ == self@.pages,
    {
        self.pages.as_slice()
    }

    /// Current page reference.
    pub fn current(&self) -> (p: &Page)
        requires
            self.wf(),
        ensures
            *p == self.current_page(),
    {
        &self.pages[self.current]
    }

    /// Mutable access to the current page.
    pub fn current_mut(&mut self) -> (p: &mut Page)
        requires
            old(self).wf(),
        ensures
            *p == old(self).current_page(),
            final(self)@.pages == old(self)@.pages.update(old(self)@.current, *final(p)),
            final(self)@.current == old(self)@.current,
    {
        let i = self.current;
        &mut self.pages[i]
    }

    /// Whether the current page is the last one.
    pub fn is_last(&self) -> (b: bool)
        requires
            self.wf(),
        ensures
            b == (self@.current + 1 == self@.pages.len()),
    {
        self.current == self.pages.len() - 1
    }

    /// Resets every cell on every page to [`CellState::Pending`] and
    /// jumps back to the first page.
    pub fn restart(&mut self)
        requires
            old(self).wf(),
        ensures
            final(self).wf(),
            final(self)@.current == 0,
            same_text(old(self)@.pages, final(self)@.pages),
            typed_prefix(final(self)@.pages, 0),
    {
        self.clear_states();
        self.current = 0;
        assert forall|i: int, j: int|
            0 <= i < self@.pages.len() && 0 <= j < self@.pages[i].cells@.len() implies
            (#[trigger] self@.pages[i].cells@[j]).state == CellState::Pending
            && !(cells_before(self@.pages, i) + j < 0) by {
            lemma_cells_before_bounds(self@.pages, i);
        }
    }

    /// Sets the states of cells `from..to` of page `i` to `st`.
    fn set_page_states(&mut self, i: usize, from: usize, to: usize, st: CellState)
        requires
            i < old(self)@.pages.len(),
            from <= to <= old(self)@.pages[i as int].cells@.len(),
        ensures
            final(self)@.current == old(self)@.current,
            same_text(old(self)@.pages, final(self)@.pages),
            forall|k: int| 0 <= k < old(self)@.pages.len() && k != i ==> #[trigger] final(self)@.pages[k] == old(self)@.pages[k],
            final(self)@.pages[i as int].cells@.len() == old(self)@.pages[i as int].cells@.len(),
            forall|j: int|
                0 <= j < final(self)@.pages[i as int].cells@.len() ==> #[trigger] final(self)@.pages[i as int].cells@[j] == if from <= j < to {
                    Cell { ch: old(self)@.pages[i as int].cells@[j].ch, state: st }
                } else {
                    old(self)@.pages[i as int].cells@[j]
                },
    {
        set_states(&mut self.pages[i].cells, from, to, st);
        assert(cell_chars(self.pages@[i as int].cells@) =~= cell_chars(old(self).pages@[i as int].cells@));
        assert forall|k: int| 0 <= k < old(self)@.pages.len() implies #[trigger] same_page_text(old(self)@.pages[k], self@.pages[k]) by {
            if k != i {
                assert(self@.pages[k] == old(self)@.pages[k]);
            }
        }
    }

    /// Sets every cell of every page to `Pending`, keeping everything else.
    fn clear_states(&mut self)
        ensures
            final(self)@.current == old(self)@.current,
            same_text(old(self)@.pages, final(self)@.pages),
            forall|i: int, j: int|
                0 <= i < final(self)@.pages.len() && 0 <= j < final(self)@.pages[i].cells@.len()
                    ==> (#[trigger] final(self)@.pages[i].cells@[j]).state == CellState::Pending,
    {
        let n = self.pages.len();
        for i in 0..n
            invariant
                n == self.pages@.len(),
                self.current == old(self).current,
                same_text(old(self)@.pages, self.pages@),
                forall|a: int, j: int|
                    0 <= a < i && 0 <= j < self.pages@[a].cells@.len()
                        ==> (#[trigger] self.pages@[a].cells@[j]).state == CellState::Pending,
        {
            let ghost before = self.pages@;
            let m = self.pages[i].cells.len();
            self.set_page_states(i, 0, m, CellState::Pending);
            proof {
                lemma_same_text_trans(old(self)@.pages, before, self.pages@);
            }
        }
    }

    /// 1-based index of the current page, for display in the footer.
    pub fn current_index(&self) -> (n: usize)
        requires
            self.wf(),
        ensures
            n == self@.current + 1,
    {
        let n = self.pages.len();
        assert(self.current < n);
        self.current + 1
    }

    /// Total page count.
    pub fn total(&self) -> (n: usize)
        ensures
            n == self@.pages.len(),
    {
        self.pages.len()
    }

    /// Advance to the next page, saturating at the last index.
    pub fn next(&mut self)
        requires
            old(self).wf(),
        ensures
            final(self).wf(),
            final(self)@.pages == old(self)@.pages,
            final(self)@.current == if old(self)@.current + 1 < old(self)@.pages.len() {
                old(self)@.current + 1
            } else {
                old(self)@.current
            },
    {
        if self.current < self.pages.len() - 1 {
            self.current = self.current + 1;
        }
    }

    /// Step back one page, saturating at 0.
    pub fn prev(&mut self)
        requires
            old(self).wf(),
        ensures
            final(self).wf(),
            final(self)@.pages == old(self)@.pages,
            final(self)@.current == if old(self)@.current > 0 {
                old(self)@.current - 1
            } else {
                0
            },
    {
        if self.current > 0 {
            self.current = self.current - 1;
        }
    }
}

impl Pages {
    /// Total cell count summed across every page.
    pub fn total_cells(&self) -> (n: usize)
        requires
            self.cell_total() <= usize::MAX,
        ensures
            n == self.cell_total(),
    {
        let mut sum: usize = 0;
        let n = self.pages.len();
        for i in 0..n
            invariant
                n == self.pages@.len(),
                self.cell_total() <= usize::MAX,
                sum == cells_before(self.pages@, i as int),
        {
            proof {
                lemma_cells_before_bounds(self.pages@, i + 1);
            }
            sum = sum + self.pages[i].cells.len();
        }
        sum
    }

    /// Converts a local cursor position `(current, cu_ptr)` into a
    /// global character offset into the source text.
    pub fn global_progress(&self, cu_ptr: usize) -> (g: usize)
        requires
            self.wf(),
            cells_before(self@.pages, self@.current) + cu_ptr <= usize::MAX,
        ensures
            g == cells_before(self@.pages, self@.current) + cu_ptr,
    {
        let mut prior: usize = 0;
        let c = self.current;
        for i in 0..c
            invariant
                c == self@.current,
                self.wf(),
                cells_before(self@.pages, self@.current) + cu_ptr <= usize::MAX,
                prior == cells_before(self.pages@, i as int),
        {
            proof {
                lemma_cells_before_bounds(self.pages@, i + 1);
                lemma_cells_before_bounds(self.pages@, c as int);
            }
            prior = prior + self.pages[i].cells.len();
        }
        prior + cu_ptr
    }

    /// Restores typed progress after a fresh pagination: marks the
    /// first `global` cells (clamped to the total) `Correct` and the rest
    /// `Pending`, moves to the page holding that boundary, and returns
    /// the local cursor offset within it. A boundary exactly at a
    /// non-final page's trailing edge lands at offset 0 of the next page.
    pub fn restore_progress(&mut self, global: usize) -> (cu_ptr: usize)
        requires
            old(self).wf(),
            old(self).cell_total() <= usize::MAX,
        ensures
            ({
                let x = if global <= old(self).cell_total() { global as int } else { old(self).cell_total() };
                let t = restore_target(old(self)@.pages, x);
                &&& final(self).wf()
                &&& final(self)@.current == t
                &&& same_text(old(self)@.pages, final(self)@.pages)
                &&& typed_prefix(final(self)@.pages, x)
                &&& cu_ptr == x - cells_before(old(self)@.pages, t)
            }),
    {
        let total = self.total_cells();
        self.clear_states();
        let clamped = if global <= total { global } else { total };
        let n = self.pages.len();
        let ghost pages0 = self.pages@;
        proof {
            lemma_cells_before_bounds(pages0, n as int);
            lemma_same_text_lens(old(self)@.pages, pages0);
            lemma_cells_before_same(old(self)@.pages, pages0, n as int);
            lemma_same_text_refl(pages0);
        }
        let mut remaining = clamped;
        let mut i: usize = 0;
        let cu: usize;
        let target: usize;
        loop
            invariant_except_break
                0 <= i < n,
                n == self.pages@.len(),
                same_text(pages0, self.pages@),
                same_text(old(self)@.pages, self.pages@),
                self.current == old(self)@.current,
                forall|k: int| 0 <= k < n ==> (#[trigger] self.pages@[k].cells@).len() == pages0[k].cells@.len(),
                remaining == clamped - cells_before(pages0, i as int),
                clamped <= cells_before(pages0, n as int),
                first_page_reaching(pages0, clamped as int, 0) == first_page_reaching(pages0, clamped as int, i as int),
                forall|a: int, j: int|
                    0 <= a < n && 0 <= j < self.pages@[a].cells@.len() ==> (#[trigger] self.pages@[a].cells@[j]).state
                        == if a < i { CellState::Correct } else { CellState::Pending },
            ensures
                0 <= target < n,
                n == self.pages@.len(),
                same_text(old(self)@.pages, self.pages@),
                self.current == old(self)@.current,
                target == restore_target(pages0, clamped as int),
                cu == clamped - cells_before(pages0, target as int),
                typed_prefix(self.pages@, clamped as int),
            decreases n - i,
        {
            let len = self.pages[i].cells.len();
            proof {
                lemma_cells_before_bounds(pages0, i as int);
                lemma_cells_before_bounds(pages0, i + 1);
                assert(pages0[i as int].cells@.len() == len);
            }
            if remaining >= len {
                let ghost before = self.pages@;
                self.set_page_states(i, 0, len, CellState::Correct);
                proof {
                    lemma_same_text_trans(old(self)@.pages, before, self.pages@);
                    lemma_same_text_trans(pages0, before, self.pages@);
                }
                remaining = remaining - len;
                if remaining == 0 {
                    proof {
                        lemma_first_page_reaching_stop(pages0, clamped as int, i as int);
                        self.lemma_prefix_states(pages0, clamped as int, i as int + 1);
                    }
                    if i + 1 < n {
                        target = i + 1;
                        cu = 0;
                    } else {
                        target = i;
                        cu = len;
                    }
                    break;
                }
                proof {
                    lemma_first_page_reaching_step(pages0, clamped as int, i as int);
                }
                i = i + 1;
            } else {
                let ghost before = self.pages@;
                self.set_page_states(i, 0, remaining, CellState::Correct);
                proof {
                    lemma_same_text_trans(old(self)@.pages, before, self.pages@);
                    lemma_same_text_trans(pages0, before, self.pages@);
                }
                proof {
                    lemma_first_page_reaching_stop(pages0, clamped as int, i as int);
                    self.lemma_prefix_states(pages0, clamped as int, i as int);
                }
                target = i;
                cu = remaining;
                break;
            }
        }
        self.current = target;
        proof {
            lemma_restore_target_same(old(self)@.pages, pages0, clamped as int);
        }
        cu
    }

    /// After marking whole pages `< i` Correct and the first
    /// `clamped - cells_before(i)` cells of page `i` (if any) Correct,
    /// the page states are exactly the typed prefix of length `clamped`.
    proof fn lemma_prefix_states(&self, pages0: Seq<Page>, clamped: int, i: int)
        requires
            0 <= i <= pages0.len(),
            self.pages@.len() == pages0.len(),
            forall|k: int| 0 <= k < pages0.len() ==> (#[trigger] self.pages@[k].cells@).len() == pages0[k].cells@.len(),
            cells_before(pages0, i) <= clamped,
            i < pages0.len() ==> clamped <= cells_before(pages0, i + 1),
            i == pages0.len() ==> clamped == cells_before(pages0, i),
            forall|a: int, j: int|
                0 <= a < pages0.len() && 0 <= j < self.pages@[a].cells@.len() ==> (#[trigger] self.pages@[a].cells@[j]).state
                    == if a < i || (a == i && j < clamped - cells_before(pages0, i)) { CellState::Correct } else { CellState::Pending },
        ensures
            typed_prefix(self.pages@, clamped),
    {
        assert forall|a: int, j: int|
            0 <= a < self.pages@.len() && 0 <= j < self.pages@[a].cells@.len() implies (#[trigger] self.pages@[a].cells@[j]).state
                == if cells_before(self.pages@, a) + j < clamped { CellState::Correct } else { CellState::Pending } by {
            lemma_cells_before_same(pages0, self.pages@, a);
            lemma_cells_before_bounds(pages0, a);
            lemma_cells_before_bounds(pages0, a + 1);
            if a < i {
                lemma_cells_before_bounds(pages0, i);
                assert(cells_before(pages0, a + 1) <= cells_before(pages0, i));
            } else if a > i {
                lemma_cells_before_bounds(pages0, a);
                assert(cells_before(pages0, i + 1) <= cells_before(pages0, a));
            }
        }
    }
}

/// Pages holding the same text have the same lengths.
pub proof fn lemma_same_text_lens(a: Seq<Page>, b: Seq<Page>)
    requires
        same_text(a, b),
    ensures
        forall|k: int| 0 <= k < a.len() ==> (#[trigger] b[k].cells@).len() == a[k].cells@.len(),
{
    assert forall|k: int| 0 <= k < a.len() implies (#[trigger] b[k].cells@).len() == a[k].cells@.len() by {
        assert(same_page_text(a[k], b[k]));
        assert(cell_chars(b[k].cells@).len() == b[k].cells@.len());
        assert(cell_chars(a[k].cells@).len() == a[k].cells@.len());
    }
}

/// `same_text` is reflexive.
pub proof fn lemma_same_text_refl(a: Seq<Page>)
    ensures
        same_text(a, a),
{
}

/// `same_text` is transitive.
pub proof fn lemma_same_text_trans(a: Seq<Page>, b: Seq<Page>, c: Seq<Page>)
    requires
        same_text(a, b),
        same_text(b, c),
    ensures
        same_text(a, c),
{
    assert forall|i: int| 0 <= i < a.len() implies #[trigger] same_page_text(a[i], c[i]) by {
        assert(same_page_text(a[i], b[i]));
        assert(same_page_text(b[i], c[i]));
    }
}

impl Pages {
    /// Sets the states of cells `from..to` of the current page to `st`.
    pub(crate) fn set_current_states(&mut self, from: usize, to: usize, st: CellState)
        requires
            old(self).wf(),
            from <= to <= cur_cells(old(self)@).len(),
        ensures
            final(self).wf(),
            with_current(old(self)@, final(self)@, mark(cur_cells(old(self)@), from as int, to as int, st)),
    {
        let i = self.current;
        set_states(&mut self.pages[i].cells, from, to, st);
        assert(self.pages@[i as int].cells@ =~= mark(old(self).pages@[i as int].cells@, from as int, to as int, st));
    }

    /// The cells of the current page.
    pub(crate) fn current_cells(&self) -> (c: &Vec<Cell>)
        requires
            self.wf(),
        ensures
            c@ == cur_cells(self@),
    {
        &self.pages[self.current].cells
    }
}

/// Prefix sums only depend on the page lengths.
pub proof fn lemma_cells_before_same(a: Seq<Page>, b: Seq<Page>, n: int)
    requires
        a.len() == b.len(),
        0 <= n <= a.len(),
        forall|k: int| 0 <= k < a.len() ==> (#[trigger] b[k].cells@).len() == a[k].cells@.len(),
    ensures
        cells_before(a, n) == cells_before(b, n),
    decreases n,
{
    if n > 0 {
        lemma_cells_before_same(a, b, n - 1);
        assert(b[n - 1].cells@.len() == a[n - 1].cells@.len());
    }
}

proof fn lemma_first_page_reaching_same(a: Seq<Page>, b: Seq<Page>, x: int, i: int)
    requires
        a.len() == b.len(),
        0 <= i,
        forall|k: int| 0 <= k < a.len() ==> (#[trigger] b[k].cells@).len() == a[k].cells@.len(),
    ensures
        first_page_reaching(a, x, i) == first_page_reaching(b, x, i),
        0 <= i < a.len() ==> cells_before(a, i + 1) == cells_before(b, i + 1),
    decreases a.len() - i,
{
    if i < a.len() {
        lemma_cells_before_same(a, b, i + 1);
    }
    if !(i >= a.len() - 1 || cells_before(a, i + 1) >= x) {
        lemma_first_page_reaching_same(a, b, x, i + 1);
    }
}

/// [`restore_target`] only depends on the page lengths.
proof fn lemma_restore_target_same(a: Seq<Page>, b: Seq<Page>, x: int)
    requires
        a.len() == b.len(),
        a.len() > 0,
        forall|k: int| 0 <= k < a.len() ==> (#[trigger] b[k].cells@).len() == a[k].cells@.len(),
    ensures
        restore_target(a, x) == restore_target(b, x),
        0 <= restore_target(a, x) < a.len(),
        cells_before(a, restore_target(a, x)) == cells_before(b, restore_target(a, x)),
{
    lemma_first_page_reaching_same(a, b, x, 0);
    lemma_first_page_reaching_range(a, x, 0);
    let i = first_page_reaching(a, x, 0);
    lemma_cells_before_same(a, b, i + 1);
    lemma_cells_before_same(a, b, i);
}

proof fn lemma_first_page_reaching_range(a: Seq<Page>, x: int, i: int)
    requires
        0 <= i < a.len(),
    ensures
        i <= first_page_reaching(a, x, i) < a.len(),
    decreases a.len() - i,
{
    if !(i >= a.len() - 1 || cells_before(a, i + 1) >= x) {
        lemma_first_page_reaching_range(a, x, i + 1);
    }
}

proof fn lemma_first_page_reaching_step(pages: Seq<Page>, x: int, i: int)
    requires
        0 <= i < pages.len() - 1,
        cells_before(pages, i + 1) < x,
    ensures
        first_page_reaching(pages, x, i) == first_page_reaching(pages, x, i + 1),
{
}

proof fn lemma_first_page_reaching_stop(pages: Seq<Page>, x: int, i: int)
    requires
        0 <= i < pages.len(),
        cells_before(pages, i + 1) >= x,
    ensures
        first_page_reaching(pages, x, i) == i,
{
}

/// Sets the state of `cells[from..to]` to `st`, leaving the characters
/// and every other cell unchanged.
pub(crate) fn set_states(cells: &mut Vec<Cell>, from: usize, to: usize, st: CellState)
    requires
        from <= to <= old(cells)@.len(),
    ensures
        final(cells)@.len() == old(cells)@.len(),
        forall|j: int|
            0 <= j < final(cells)@.len() ==> #[trigger] final(cells)@[j] == if from <= j < to {
                Cell { ch: old(cells)@[j].ch, state: st }
            } else {
                old(cells)@[j]
            },
{
    let mut k = from;
    while k < to
        invariant
            from <= k <= to <= cells@.len(),
            cells@.len() == old(cells)@.len(),
            forall|j: int|
                0 <= j < cells@.len() ==> #[trigger] cells@[j] == if from <= j < k {
                    Cell { ch: old(cells)@[j].ch, state: st }
                } else {
                    old(cells)@[j]
                },
        decreases to - k,
    {
        let ch = cells[k].ch;
        cells.set(k, Cell { ch, state: st });
        k = k + 1;
    }
}

/// Every page holds at least one cell, as pagination guarantees.
pub open spec fn pages_nonempty(pages: Seq<Page>) -> bool {
    forall|k: int| 0 <= k < pages.len() ==> (#[trigger] pages[k].cells@).len() > 0
}

/// With no empty page, prefix sums strictly grow.
proof fn lemma_cells_before_strict(pages: Seq<Page>, j: int, k: int)
    requires
        pages_nonempty(pages),
        0 <= j < k <= pages.len(),
    ensures
        cells_before(pages, j) < cells_before(pages, k),
    decreases k - j,
{
    assert(pages[k - 1].cells@.len() > 0);
    if j < k - 1 {
        lemma_cells_before_strict(pages, j, k - 1);
    }
}

/// The search for the page reaching `x` stops at the first page from
/// `i` on whose end reaches `x`.
proof fn lemma_first_page_reaching_at(pages: Seq<Page>, x: int, i: int, m: int)
    requires
        0 <= i <= m < pages.len(),
        forall|j: int| i <= j < m ==> #[trigger] cells_before(pages, j + 1) < x,
        m == pages.len() - 1 || cells_before(pages, m + 1) >= x,
    ensures
        first_page_reaching(pages, x, i) == m,
    decreases m - i,
{
    if i < m {
        assert(cells_before(pages, i + 1) < x);
        lemma_first_page_reaching_at(pages, x, i + 1, m);
    }
}

/// The page found for `x` starts at or before `x`, and ends at or after
/// it.
proof fn lemma_first_page_reaching_brackets(pages: Seq<Page>, x: int, i: int)
    requires
        0 <= i < pages.len(),
        cells_before(pages, i) <= x <= cells_before(pages, pages.len() as int),
    ensures
        cells_before(pages, first_page_reaching(pages, x, i)) <= x <= cells_before(pages, first_page_reaching(pages, x, i) + 1),
    decreases pages.len() - i,
{
    if !(i >= pages.len() - 1 || cells_before(pages, i + 1) >= x) {
        lemma_first_page_reaching_brackets(pages, x, i + 1);
    }
}

/// Restoring a global position `x` (within the text) lands on a page
/// whose range contains `x`, so the local offset
/// `x - cells_before(pages, target)` lies within that page; with no
/// empty page, the offset equals the page length only on the final page.
pub proof fn law_restore_lands_in_page(pages: Seq<Page>, x: int)
    requires
        pages.len() > 0,
        pages_nonempty(pages),
        0 <= x <= cells_before(pages, pages.len() as int),
    ensures
        0 <= restore_target(pages, x) < pages.len(),
        cells_before(pages, restore_target(pages, x)) <= x <= cells_before(pages, restore_target(pages, x) + 1),
        x == cells_before(pages, restore_target(pages, x) + 1) ==> restore_target(pages, x) == pages.len() - 1,
{
    lemma_first_page_reaching_range(pages, x, 0);
    lemma_first_page_reaching_brackets(pages, x, 0);
    let i = first_page_reaching(pages, x, 0);
    if cells_before(pages, i + 1) == x && i + 1 < pages.len() {
        lemma_cells_before_strict(pages, i + 1, i + 2);
    }
}

/// Converting a cursor position to a global offset and restoring it
/// gives the same page back, for any position reachable in play: before
/// the end of a page, or at the end of the final page.
pub proof fn law_restore_round_trip(pages: Seq<Page>, i: int, cu: int)
    requires
        pages_nonempty(pages),
        0 <= i < pages.len(),
        0 <= cu < pages[i].cells@.len() || (i == pages.len() - 1 && cu == pages[i].cells@.len()),
    ensures
        restore_target(pages, cells_before(pages, i) + cu) == i,
{
    let x = cells_before(pages, i) + cu;
    assert forall|j: int| 0 <= j < i - 1 implies #[trigger] cells_before(pages, j + 1) < x by {
        lemma_cells_before_strict(pages, j + 1, i);
    }
    if cu == 0 && i > 0 {
        lemma_first_page_reaching_at(pages, x, 0, i - 1);
    } else {
        assert forall|j: int| 0 <= j < i implies #[trigger] cells_before(pages, j + 1) < x by {
            if j + 1 < i {
                lemma_cells_before_strict(pages, j + 1, i);
            }
        }
        lemma_first_page_reaching_at(pages, x, 0, i);
    }
}

} // verus!
