//! Visual layout of page content at a given column width.
//!
//! A deterministic character-based wrap: each source line (run of
//! characters ended by `\n`) is chopped into `cols`-wide visual rows.
//! Empty source lines produce exactly one empty visual row so line
//! counting stays in sync between pagination and rendering. `cols` is
//! clamped to 1 everywhere.

use vstd::prelude::*;

verus! {

/// `cols` clamped to at least 1.
pub open spec fn clamp1(n: int) -> int {
    if n < 1 {
        1
    } else {
        n
    }
}

/// Visual rows taken by a source line of `len` characters at width
/// `cols`: one for an empty line, otherwise `ceil(len / cols)`.
pub open spec fn visual_rows(len: int, cols: int) -> int {
    if len == 0 {
        1
    } else {
        (len + clamp1(cols) - 1) / clamp1(cols)
    }
}

/// Position of the first `\n` in `s` at or after `p`, or `s.len()`.
pub open spec fn next_newline(s: Seq<char>, p: int) -> int
    decreases s.len() - p,
{
    if p >= s.len() {
        s.len() as int
    } else if s[p] == '\n' {
        p
    } else {
        next_newline(s, p + 1)
    }
}

/// Number of `\n` characters in `s[0..p]`.
pub open spec fn newlines_before(s: Seq<char>, p: int) -> int
    decreases p,
{
    if p <= 0 {
        0
    } else {
        newlines_before(s, p - 1) + if s[p - 1] == '\n' { 1int } else { 0int }
    }
}

/// `line` cut into consecutive `cols`-wide chunks (the last may be
/// shorter). An empty line yields no chunks.
pub open spec fn chunks(line: Seq<char>, cols: int) -> Seq<Seq<char>>
    recommends
        cols >= 1,
    decreases line.len(),
{
    if line.len() == 0 || cols < 1 {
        seq![]
    } else if line.len() <= cols {
        seq![line]
    } else {
        seq![line.take(cols)] + chunks(line.skip(cols), cols)
    }
}

/// The visual rows of one source line: a single empty row for an empty
/// line, otherwise its chunks.
pub open spec fn line_rows(line: Seq<char>, cols: int) -> Seq<Seq<char>> {
    if line.len() == 0 {
        seq![seq![]]
    } else {
        chunks(line, clamp1(cols))
    }
}

/// The visual rows of the source lines of `s` starting at position `p`
/// (which must be the start of a line). A trailing `\n` does not open
/// an extra empty line.
pub open spec fn wrap_from(s: Seq<char>, cols: int, p: int) -> Seq<Seq<char>>
    decreases s.len() - p,
{
    if p < 0 || p >= s.len() {
        seq![]
    } else {
        let e = next_newline(s, p);
        if e < p || e >= s.len() {
            line_rows(s.subrange(p, s.len() as int), cols)
        } else {
            line_rows(s.subrange(p, e), cols) + wrap_from(s, cols, e + 1)
        }
    }
}

/// Gutter labels for one source line numbered `n` that takes `rows`
/// visual rows: the number on the first row, blanks on the rest.
pub open spec fn line_labels(n: int, rows: int) -> Seq<Option<usize>> {
    seq![Some(n as usize)] + Seq::new((rows - 1) as nat, |i: int| None)
}

/// Gutter labels for the source lines of `s` from position `p`, the
/// first of which is numbered `n`.
pub open spec fn labels_from(s: Seq<char>, cols: int, p: int, n: int) -> Seq<Option<usize>>
    decreases s.len() - p,
{
    if p < 0 || p >= s.len() {
        seq![]
    } else {
        let e = next_newline(s, p);
        if e < p || e >= s.len() {
            line_labels(n, visual_rows(s.len() - p, cols))
        } else {
            line_labels(n, visual_rows(e - p, cols)) + labels_from(s, cols, e + 1, n + 1)
        }
    }
}

/// The first `\n` at or after `p` lies within `p..=s.len()`, and no
/// `\n` lies in between.
pub proof fn lemma_next_newline(s: Seq<char>, p: int)
    requires
        0 <= p <= s.len(),
    ensures
        p <= next_newline(s, p) <= s.len(),
        next_newline(s, p) < s.len() ==> s[next_newline(s, p)] == '\n',
        forall|k: int| p <= k < next_newline(s, p) ==> s[k] != '\n',
    decreases s.len() - p,
{
    if p < s.len() && s[p] != '\n' {
        lemma_next_newline(s, p + 1);
    }
}

/// A non-empty line has exactly `visual_rows` chunks.
pub proof fn lemma_line_rows_len(line: Seq<char>, cols: int)
    ensures
        line_rows(line, cols).len() == visual_rows(line.len() as int, cols),
{
    if line.len() > 0 {
        lemma_chunks_len(line, clamp1(cols));
    }
}

proof fn lemma_chunks_len(line: Seq<char>, cols: int)
    requires
        cols >= 1,
        line.len() > 0,
    ensures
        chunks(line, cols).len() == (line.len() + cols - 1) / cols,
    decreases line.len(),
{
    if line.len() <= cols {
        assert((line.len() + cols - 1) / cols == 1) by (nonlinear_arith)
            requires line.len() <= cols, line.len() > 0, cols >= 1;
    } else {
        lemma_chunks_len(line.skip(cols), cols);
        let l = line.len() as int;
        assert((l + cols - 1) / cols == (l - cols + cols - 1) / cols + 1) by (nonlinear_arith)
            requires l > cols, cols >= 1;
    }
}

/// Returns the position of the first `\n` in `s` at or after `p`, or
/// `s.len()` when there is none.
pub(crate) fn find_newline(s: &[char], p: usize) -> (e: usize)
    requires
        p <= s@.len(),
    ensures
        e == next_newline(s@, p as int),
        p <= e <= s@.len(),
{
    proof {
        lemma_next_newline(s@, p as int);
    }
    let mut k = p;
    while k < s.len()
        invariant
            p <= k <= s@.len(),
            next_newline(s@, k as int) == next_newline(s@, p as int),
        decreases s@.len() - k,
    {
        if s[k] == '\n' {
            return k;
        }
        k = k + 1;
    }
    k
}

/// Copies `s[from..to]` into a fresh vector.
pub(crate) fn copy_range(s: &[char], from: usize, to: usize) -> (v: Vec<char>)
    requires
        from <= to <= s@.len(),
    ensures
        v@ == s@.subrange(from as int, to as int),
{
    let mut v: Vec<char> = Vec::new();
    let mut k = from;
    while k < to
        invariant
            from <= k <= to <= s@.len(),
            v@ == s@.subrange(from as int, k as int),
        decreases to - k,
    {
        v.push(s[k]);
        k = k + 1;
        assert(v@ =~= s@.subrange(from as int, k as int));
    }
    v
}

/// Number of visual rows a source line of `line_len` characters
/// occupies at width `cols`. An empty line still uses one row; `cols`
/// is clamped to 1.
pub fn visual_rows_for_line(line_len: usize, cols: usize) -> (r: usize)
    ensures
        r == visual_rows(line_len as int, cols as int),
        1 <= r,
        line_len > 0 ==> r <= line_len,
{
    let cols = if cols < 1 { 1 } else { cols };
    if line_len == 0 {
        1
    } else {
        let q = line_len / cols;
        let r = line_len % cols;
        proof {
            let l = line_len as int;
            let c = cols as int;
            assert((l + c - 1) / c == q + if r > 0 { 1int } else { 0int }) by (nonlinear_arith)
                requires q == l / c, r == l % c, c >= 1, l >= 1;
            assert(q + (if r > 0 { 1int } else { 0int }) <= l && q + (if r > 0 { 1int } else { 0int }) >= 1) by (nonlinear_arith)
                requires q == l / c, r == l % c, c >= 1, l >= 1;
        }
        if r > 0 {
            q + 1
        } else {
            q
        }
    }
}

/// Appends the visual rows of the source line `s[from..to]` to `rows`.
fn push_wrapped(rows: &mut Vec<Vec<char>>, s: &[char], from: usize, to: usize, cols: usize)
    requires
        from <= to <= s@.len(),
        cols >= 1,
    ensures
        final(rows).deep_view() == old(rows).deep_view() + line_rows(s@.subrange(from as int, to as int), cols as int),
{
    let ghost line = s@.subrange(from as int, to as int);
    if from == to {
        let empty: Vec<char> = Vec::new();
        assert(empty.deep_view() =~= Seq::<char>::empty());
        rows.push(empty);
        assert(rows.deep_view() =~= old(rows).deep_view() + line_rows(line, cols as int));
        return;
    }
    let mut k = from;
    while k < to
        invariant
            from <= k <= to <= s@.len(),
            cols >= 1,
            from < to,
            line == s@.subrange(from as int, to as int),
            k < to ==> rows.deep_view() + chunks(s@.subrange(k as int, to as int), cols as int) == old(rows).deep_view() + chunks(line, cols as int),
            k == to ==> rows.deep_view() == old(rows).deep_view() + chunks(line, cols as int),
        decreases to - k,
    {
        let ghost rest = s@.subrange(k as int, to as int);
        let end = if to - k <= cols { to } else { k + cols };
        let chunk = copy_range(s, k, end);
        let ghost before = rows.deep_view();
        assert(chunk.deep_view() =~= chunk@);
        rows.push(chunk);
        assert(rows.deep_view() =~= before.push(chunk@));
        if end == to {
            assert(chunks(rest, cols as int) == seq![rest]);
            assert(chunk@ =~= rest);
            assert(before + chunks(rest, cols as int) =~= before.push(chunk@));
        } else {
            assert(rest.take(cols as int) =~= chunk@);
            assert(rest.skip(cols as int) =~= s@.subrange(end as int, to as int));
            assert(before + chunks(rest, cols as int) =~= rows.deep_view() + chunks(s@.subrange(end as int, to as int), cols as int));
        }
        k = end;
    }
}

/// Lays out `content` into visual rows at width `cols`: each source
/// line is split into `cols`-wide chunks, its terminating `\n` is
/// dropped, and an empty source line produces one empty row. `cols` is
/// clamped to 1.
pub fn wrap(content: &[char], cols: usize) -> (rows: Vec<Vec<char>>)
    ensures
        rows.deep_view() == wrap_from(content@, cols as int, 0),
{
    let c = if cols < 1 { 1 } else { cols };
    let n = content.len();
    let mut rows: Vec<Vec<char>> = Vec::new();
    let mut p: usize = 0;
    while p < n
        invariant
            n == content@.len(),
            p <= n,
            c == clamp1(cols as int),
            rows.deep_view() + wrap_from(content@, cols as int, p as int) == wrap_from(content@, cols as int, 0),
        decreases n - p,
    {
        let e = find_newline(content, p);
        let ghost before = rows.deep_view();
        push_wrapped(&mut rows, content, p, e, c);
        if e >= n {
            assert(wrap_from(content@, cols as int, n as int) =~= Seq::<Seq<char>>::empty());
            assert(rows.deep_view() + wrap_from(content@, cols as int, n as int) =~= rows.deep_view());
            p = n;
        } else {
            assert(before + wrap_from(content@, cols as int, p as int) =~= rows.deep_view() + wrap_from(content@, cols as int, e + 1));
            p = e + 1;
        }
    }
    assert(rows.deep_view() + wrap_from(content@, cols as int, p as int) =~= rows.deep_view());
    rows
}

/// Appends the gutter labels of one source line numbered `n` taking
/// `rows` visual rows.
fn emit_labels(labels: &mut Vec<Option<usize>>, n: usize, len: usize, cols: usize)
    ensures
        final(labels)@ == old(labels)@ + line_labels(n as int, visual_rows(len as int, cols as int)),
{
    let rows = visual_rows_for_line(len, cols);
    labels.push(Some(n));
    let mut k: usize = 1;
    while k < rows
        invariant
            1 <= k <= rows,
            rows == visual_rows(len as int, cols as int),
            labels@ == old(labels)@ + seq![Some(n)] + Seq::new((k - 1) as nat, |i: int| None::<usize>),
        decreases rows - k,
    {
        labels.push(None);
        k = k + 1;
        assert(labels@ =~= old(labels)@ + seq![Some(n)] + Seq::new((k - 1) as nat, |i: int| None::<usize>));
    }
    assert(labels@ =~= old(labels)@ + line_labels(n as int, visual_rows(len as int, cols as int)));
}

/// One gutter label per visual row of [`wrap`]ped output:
/// `Some(line_number)` where a source line starts, `None` on the
/// continuation rows of a wrapped line. `line_start` numbers the first
/// line of `content`.
pub fn gutter_labels(content: &[char], cols: usize, line_start: usize) -> (labels: Vec<Option<usize>>)
    requires
        line_start + newlines_before(content@, content@.len() as int) <= usize::MAX,
    ensures
        labels@ == labels_from(content@, cols as int, 0, line_start as int),
{
    let n = content.len();
    let mut labels: Vec<Option<usize>> = Vec::new();
    let mut p: usize = 0;
    let mut line_number = line_start;
    proof {
        lemma_newlines_mono(content@, 0, n as int);
    }
    while p < n
        invariant
            n == content@.len(),
            p <= n,
            line_number == line_start + newlines_before(content@, p as int),
            line_start + newlines_before(content@, n as int) <= usize::MAX,
            forall|q: int| p <= q <= n ==> newlines_before(content@, p as int) <= #[trigger] newlines_before(content@, q),
            labels@ + labels_from(content@, cols as int, p as int, line_number as int) == labels_from(content@, cols as int, 0, line_start as int),
        decreases n - p,
    {
        let e = find_newline(content, p);
        proof {
            lemma_next_newline(content@, p as int);
        }
        let ghost before = labels@;
        emit_labels(&mut labels, line_number, e - p, cols);
        if e >= n {
            assert(labels@ + labels_from(content@, cols as int, n as int, line_number + 1) =~= labels@);
            assert(labels_from(content@, cols as int, n as int, line_number as int) =~= Seq::<Option<usize>>::empty());
            p = n;
            proof {
                lemma_newlines_mono(content@, p as int, n as int);
            }
            assert(labels@ + labels_from(content@, cols as int, p as int, line_number as int) =~= labels@);
            return labels;
        } else {
            proof {
                lemma_newlines_skip_line(content@, p as int, e as int);
                lemma_newlines_mono(content@, e + 1, n as int);
            }
            assert(before + labels_from(content@, cols as int, p as int, line_number as int) =~= labels@ + labels_from(content@, cols as int, e + 1, line_number + 1));
            line_number = line_number + 1;
            p = e + 1;
        }
    }
    assert(labels@ + labels_from(content@, cols as int, p as int, line_number as int) =~= labels@);
    labels
}

/// Newline counts grow with the position.
pub proof fn lemma_newlines_mono(s: Seq<char>, p: int, q: int)
    requires
        0 <= p <= q <= s.len(),
    ensures
        forall|r: int| p <= r <= q ==> newlines_before(s, p) <= #[trigger] newlines_before(s, r) <= newlines_before(s, q),
    decreases q - p,
{
    if p < q {
        lemma_newlines_mono(s, p + 1, q);
        lemma_newlines_mono(s, p, q - 1);
    }
}

/// Stepping over one source line `s[p..e]` and its terminating `\n`
/// adds exactly one to the newline count.
pub proof fn lemma_newlines_skip_line(s: Seq<char>, p: int, e: int)
    requires
        0 <= p <= e < s.len(),
        s[e] == '\n',
        forall|k: int| p <= k < e ==> s[k] != '\n',
    ensures
        newlines_before(s, e + 1) == newlines_before(s, p) + 1,
        newlines_before(s, e) == newlines_before(s, p),
    decreases e - p,
{
    if p < e {
        lemma_newlines_skip_line(s, p + 1, e);
    }
}

/// A stretch without `\n` adds nothing to the newline count.
pub proof fn lemma_newlines_flat(s: Seq<char>, p: int, e: int)
    requires
        0 <= p <= e <= s.len(),
        forall|k: int| p <= k < e ==> s[k] != '\n',
    ensures
        newlines_before(s, e) == newlines_before(s, p),
    decreases e - p,
{
    if p < e {
        lemma_newlines_flat(s, p, e - 1);
    }
}

/// The gutter carries exactly one label per wrapped row, so the
/// line-number column always lines up with the body.
pub proof fn law_gutter_matches_wrap(s: Seq<char>, cols: int, p: int, n: int)
    requires
        0 <= p <= s.len(),
    ensures
        labels_from(s, cols, p, n).len() == wrap_from(s, cols, p).len(),
    decreases s.len() - p,
{
    if p < s.len() {
        lemma_next_newline(s, p);
        let e = next_newline(s, p);
        if e >= s.len() {
            lemma_line_rows_len(s.subrange(p, s.len() as int), cols);
        } else {
            lemma_line_rows_len(s.subrange(p, e), cols);
            law_gutter_matches_wrap(s, cols, e + 1, n + 1);
        }
    }
}

proof fn lemma_chunks_fit(line: Seq<char>, cols: int)
    requires
        cols >= 1,
    ensures
        forall|i: int| 0 <= i < chunks(line, cols).len() ==> (#[trigger] chunks(line, cols)[i]).len() <= cols,
    decreases line.len(),
{
    if line.len() > cols {
        let rest = line.skip(cols);
        lemma_chunks_fit(rest, cols);
        let cs = chunks(line, cols);
        assert(cs == seq![line.take(cols)] + chunks(rest, cols));
        assert forall|i: int| 0 <= i < cs.len() implies (#[trigger] cs[i]).len() <= cols by {
            if i > 0 {
                assert(cs[i] == chunks(rest, cols)[i - 1]);
            }
        }
    }
}

/// Every wrapped row fits the width: no row holds more than `cols`
/// (clamped to 1) characters.
pub proof fn law_wrap_rows_fit(s: Seq<char>, cols: int, p: int)
    requires
        0 <= p <= s.len(),
    ensures
        forall|i: int| 0 <= i < wrap_from(s, cols, p).len() ==> (#[trigger] wrap_from(s, cols, p)[i]).len() <= clamp1(cols),
    decreases s.len() - p,
{
    if p < s.len() {
        lemma_next_newline(s, p);
        let e = next_newline(s, p);
        let line = if e >= s.len() { s.subrange(p, s.len() as int) } else { s.subrange(p, e) };
        lemma_chunks_fit(line, clamp1(cols));
        let lr = line_rows(line, cols);
        assert forall|i: int| 0 <= i < lr.len() implies (#[trigger] lr[i]).len() <= clamp1(cols) by {
            if line.len() == 0 {
                assert(lr == seq![Seq::<char>::empty()]);
            }
        }
        if e < s.len() {
            law_wrap_rows_fit(s, cols, e + 1);
            let w = wrap_from(s, cols, p);
            let rest = wrap_from(s, cols, e + 1);
            assert(w == lr + rest);
            assert forall|i: int| 0 <= i < w.len() implies (#[trigger] w[i]).len() <= clamp1(cols) by {
                if i >= lr.len() {
                    assert(w[i] == rest[i - lr.len()]);
                }
            }
        }
    }
}

} // verus!
