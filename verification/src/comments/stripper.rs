//! Core comment-stripping engine.
//!
//! Two passes:
//! 1. A scan classifies every character of the input as code or
//!    comment. String literals are classified as code so a
//!    comment-looking marker that lives inside data never triggers
//!    stripping.
//! 2. A line-pruning pass walks the input line by line: if a line held
//!    any comment character and nothing but whitespace survives, the
//!    whole line and its newline disappear; otherwise the surviving
//!    code is emitted with trailing whitespace trimmed.

use vstd::prelude::*;

use super::spec::{BlockComment, LanguageSpec, StringLiteral, Syntax};
use crate::chars::{chars_of, string_of};
use crate::text::wrap::{find_newline, lemma_next_newline, next_newline};

verus! {

// ---------------------------------------------------------------------
// Token shapes
// ---------------------------------------------------------------------

/// `m` occurs in `s` at position `p`.
pub open spec fn starts_at(s: Seq<char>, p: int, m: Seq<char>) -> bool {
    0 <= p && p + m.len() <= s.len() && s.subrange(p, p + m.len()) == m
}

/// Scans a quoted string body from `p`: an escape character skips the
/// character after it, `delim` closes the string (just past it), and
/// with `stop_nl` an unescaped newline ends it (at the newline). An
/// unterminated string runs to the end of `s`.
pub open spec fn string_scan(s: Seq<char>, p: int, delim: char, escape: Option<char>, stop_nl: bool) -> int
    decreases s.len() - p,
{
    if p < 0 || p >= s.len() {
        s.len() as int
    } else if escape == Some(s[p]) {
        if p + 1 < s.len() {
            string_scan(s, p + 2, delim, escape, stop_nl)
        } else {
            s.len() as int
        }
    } else if s[p] == delim {
        p + 1
    } else if stop_nl && s[p] == '\n' {
        p
    } else {
        string_scan(s, p + 1, delim, escape, stop_nl)
    }
}

/// Just past the first occurrence of `m` at or after `p`, or the end of
/// `s` when there is none.
pub open spec fn find_end(s: Seq<char>, p: int, m: Seq<char>) -> int
    decreases s.len() - p,
{
    if p < 0 || p >= s.len() {
        s.len() as int
    } else if starts_at(s, p, m) {
        p + m.len()
    } else {
        find_end(s, p + 1, m)
    }
}

/// Number of consecutive `c` in `s` from `p`.
pub open spec fn run_of(s: Seq<char>, p: int, c: char) -> int
    decreases s.len() - p,
{
    if p < 0 || p >= s.len() || s[p] != c {
        0
    } else {
        1 + run_of(s, p + 1, c)
    }
}

/// A long-bracket opener `[=*[` at `q`: where its body starts and how
/// many `=` it has.
pub open spec fn long_open(s: Seq<char>, q: int) -> Option<(int, int)> {
    if 0 <= q < s.len() && s[q] == '[' {
        let e = run_of(s, q + 1, '=');
        let r = q + 1 + e;
        if r < s.len() && s[r] == '[' {
            Some((r + 1, e))
        } else {
            None
        }
    } else {
        None
    }
}

/// The closer `]=*]` with `e` equals signs.
pub open spec fn long_close(e: int) -> Seq<char> {
    seq![']'] + Seq::new(e as nat, |_j: int| '=') + seq![']']
}

/// `n` copies of `c`.
pub open spec fn repeated(c: char, n: int) -> Seq<char> {
    Seq::new(n as nat, |_j: int| c)
}

/// End of the string literal of shape `lit` that opens at `i`, if one
/// opens there.
pub open spec fn string_end(s: Seq<char>, i: int, lit: StringLiteral) -> Option<int> {
    match lit {
        StringLiteral::Simple { delim, escape } => if 0 <= i < s.len() && s[i] == delim {
            Some(string_scan(s, i + 1, delim, escape, true))
        } else {
            None
        },
        StringLiteral::Triple { delim } => if starts_at(s, i, repeated(delim, 3)) {
            Some(find_end(s, i + 3, repeated(delim, 3)))
        } else {
            None
        },
        StringLiteral::Backtick => if 0 <= i < s.len() && s[i] == '`' {
            Some(string_scan(s, i + 1, '`', Some('\\'), false))
        } else {
            None
        },
        StringLiteral::RawHash { prefix, delim } => if starts_at(s, i, prefix@) {
            let a = i + prefix@.len();
            let h = run_of(s, a, '#');
            let q = a + h;
            if q < s.len() && s[q] == delim {
                Some(find_end(s, q + 1, seq![delim] + repeated('#', h)))
            } else {
                None
            }
        } else {
            None
        },
        StringLiteral::LongBracket => match long_open(s, i) {
            Some((b, e)) => Some(find_end(s, b, long_close(e))),
            None => None,
        },
    }
}

/// Scans a block comment body from `p` at nesting `depth`: a nested
/// opener (when `nestable`) deepens, a closer shallows; the comment ends
/// just past the closer that brings the depth to zero, or at the end.
pub open spec fn block_scan(s: Seq<char>, p: int, depth: nat, start: Seq<char>, end: Seq<char>, nestable: bool) -> int
    decreases s.len() - p, depth,
{
    if p < 0 || p >= s.len() || depth == 0 {
        p
    } else if nestable && start.len() > 0 && starts_at(s, p, start) {
        block_scan(s, p + start.len(), depth + 1, start, end, nestable)
    } else if starts_at(s, p, end) {
        if end.len() == 0 {
            block_scan(s, p, (depth - 1) as nat, start, end, nestable)
        } else {
            block_scan(s, p + end.len(), (depth - 1) as nat, start, end, nestable)
        }
    } else {
        block_scan(s, p + 1, depth, start, end, nestable)
    }
}

/// End of the block comment of shape `b` that opens at `i`, if one
/// opens there.
pub open spec fn block_end(s: Seq<char>, i: int, b: BlockComment) -> Option<int> {
    if !starts_at(s, i, b.start@) {
        None
    } else if b.long_bracket {
        match long_open(s, i + b.start@.len()) {
            Some((body, e)) => Some(find_end(s, body, long_close(e))),
            None => None,
        }
    } else {
        Some(block_scan(s, i + b.start@.len(), 1, b.start@, b.end@, b.nestable))
    }
}

/// The first string shape from index `k` on that opens at `i`.
pub open spec fn first_string(s: Seq<char>, i: int, lits: Seq<StringLiteral>, k: int) -> Option<int>
    decreases lits.len() - k,
{
    if k < 0 || k >= lits.len() {
        None
    } else {
        match string_end(s, i, lits[k]) {
            Some(e) => Some(e),
            None => first_string(s, i, lits, k + 1),
        }
    }
}

/// The first block-comment shape from index `k` on that opens at `i`.
pub open spec fn first_block(s: Seq<char>, i: int, blocks: Seq<BlockComment>, k: int) -> Option<int>
    decreases blocks.len() - k,
{
    if k < 0 || k >= blocks.len() {
        None
    } else {
        match block_end(s, i, blocks[k]) {
            Some(e) => Some(e),
            None => first_block(s, i, blocks, k + 1),
        }
    }
}

/// Some line-comment marker from index `k` on occurs at `i`.
pub open spec fn any_prefix(s: Seq<char>, i: int, prefixes: Seq<&'static str>, k: int) -> bool
    decreases prefixes.len() - k,
{
    if k < 0 || k >= prefixes.len() {
        false
    } else {
        starts_at(s, i, prefixes[k]@) || any_prefix(s, i, prefixes, k + 1)
    }
}

/// A line comment opening at `i` runs through the next newline.
pub open spec fn line_comment_end(s: Seq<char>, i: int) -> int {
    let e = next_newline(s, i);
    if e < s.len() {
        e + 1
    } else {
        s.len() as int
    }
}

/// The token at `i`: where it ends and whether it is a comment. Strings
/// take precedence over block comments, which take precedence over line
/// comments; anything else is one character of code.
pub open spec fn step(s: Seq<char>, syn: Syntax, i: int) -> (int, bool) {
    match first_string(s, i, syn.strings, 0) {
        Some(e) => (e, false),
        None => match first_block(s, i, syn.block_comments, 0) {
            Some(e) => (e, true),
            None => if any_prefix(s, i, syn.line_comments, 0) {
                (line_comment_end(s, i), true)
            } else {
                (i + 1, false)
            },
        },
    }
}

/// Comment flags for the characters of `s` from `i` on.
pub open spec fn comment_mask(s: Seq<char>, syn: Syntax, i: int) -> Seq<bool>
    decreases s.len() - i,
{
    if i < 0 || i >= s.len() {
        seq![]
    } else {
        let (e, c) = step(s, syn, i);
        if e <= i || e > s.len() {
            seq![c] + comment_mask(s, syn, i + 1)
        } else {
            Seq::new((e - i) as nat, |_j: int| c) + comment_mask(s, syn, e)
        }
    }
}

// ---------------------------------------------------------------------
// Line pruning
// ---------------------------------------------------------------------

/// Unicode `White_Space` characters, the ones `str::trim_end` removes.
pub open spec fn is_white_space(c: char) -> bool {
    ('\u{9}' <= c && c <= '\u{d}') || c == ' ' || c == '\u{85}' || c == '\u{a0}' || c == '\u{1680}'
        || ('\u{2000}' <= c && c <= '\u{200a}') || c == '\u{2028}' || c == '\u{2029}' || c == '\u{202f}'
        || c == '\u{205f}' || c == '\u{3000}'
}

/// `t` without its trailing whitespace.
pub open spec fn trim_end(t: Seq<char>) -> Seq<char>
    decreases t.len(),
{
    if t.len() > 0 && is_white_space(t.last()) {
        trim_end(t.drop_last())
    } else {
        t
    }
}

/// The code characters of `s[a..b]`.
pub open spec fn kept_chars(s: Seq<char>, mask: Seq<bool>, a: int, b: int) -> Seq<char>
    decreases b - a,
{
    if b <= a {
        seq![]
    } else {
        kept_chars(s, mask, a, b - 1) + if mask[b - 1] { seq![] } else { seq![s[b - 1]] }
    }
}

/// Some character of `s[a..b]` is a comment.
pub open spec fn any_comment(mask: Seq<bool>, a: int, b: int) -> bool
    decreases b - a,
{
    if b <= a {
        false
    } else {
        any_comment(mask, a, b - 1) || mask[b - 1]
    }
}

/// What the line `s[ls..e]` (ended by a newline at `e` when `e` is in
/// range) becomes: nothing when it held a comment and no code survives,
/// otherwise its code with trailing whitespace trimmed, plus its newline.
pub open spec fn line_out(s: Seq<char>, mask: Seq<bool>, ls: int, e: int) -> Seq<char> {
    let at_nl = e < s.len();
    let had = (at_nl && mask[e]) || any_comment(mask, ls, e);
    let t = trim_end(kept_chars(s, mask, ls, e));
    if had && t.len() == 0 {
        seq![]
    } else if at_nl {
        t.push('\n')
    } else {
        t
    }
}

/// The output for the lines of `s` from line start `ls`.
pub open spec fn emit_from(s: Seq<char>, mask: Seq<bool>, ls: int) -> Seq<char>
    decreases s.len() - ls,
{
    if ls < 0 || ls > s.len() {
        seq![]
    } else {
        let e = next_newline(s, ls);
        if e < ls {
            seq![]
        } else if e < s.len() {
            line_out(s, mask, ls, e) + emit_from(s, mask, e + 1)
        } else {
            line_out(s, mask, ls, e)
        }
    }
}

/// `s` with the comments of a language of syntax `syn` removed.
pub open spec fn stripped(s: Seq<char>, syn: Syntax) -> Seq<char> {
    emit_from(s, comment_mask(s, syn, 0), 0)
}

// ---------------------------------------------------------------------
// Scanner
// ---------------------------------------------------------------------

fn starts_with_chars(s: &[char], p: usize, m: &[char]) -> (b: bool)
    ensures
        b == starts_at(s@, p as int, m@),
        b ==> p + m@.len() <= s.len(),
{
    if p > s.len() || m.len() > s.len() - p {
        return false;
    }
    let mut k: usize = 0;
    while k < m.len()
        invariant
            k <= m@.len(),
            p + m@.len() <= s.len(),
            forall|j: int| 0 <= j < k ==> s@[p + j] == m@[j],
        decreases m@.len() - k,
    {
        if s[p + k] != m[k] {
            assert(s@.subrange(p as int, p + m@.len())[k as int] != m@[k as int]);
            return false;
        }
        k = k + 1;
    }
    assert(s@.subrange(p as int, p + m@.len()) =~= m@);
    true
}

fn starts_with_str(s: &[char], p: usize, m: &str) -> (b: bool)
    ensures
        b == starts_at(s@, p as int, m@),
        b ==> p + m@.len() <= s.len(),
{
    let mc = chars_of(m);
    starts_with_chars(s, p, mc.as_slice())
}

fn find_end_exec(s: &[char], p: usize, m: &[char]) -> (r: usize)
    ensures
        r == find_end(s@, p as int, m@),
{
    let mut q = p;
    while q < s.len()
        invariant
            p <= q,
            find_end(s@, q as int, m@) == find_end(s@, p as int, m@),
        decreases s@.len() - q,
    {
        if starts_with_chars(s, q, m) {
            return q + m.len();
        }
        q = q + 1;
    }
    s.len()
}

fn run_of_exec(s: &[char], p: usize, c: char) -> (r: usize)
    requires
        p <= s@.len(),
    ensures
        r == run_of(s@, p as int, c),
        p + r <= s@.len(),
{
    let mut q = p;
    while q < s.len() && s[q] == c
        invariant
            p <= q <= s@.len(),
            run_of(s@, p as int, c) == (q - p) + run_of(s@, q as int, c),
        decreases s@.len() - q,
    {
        q = q + 1;
    }
    q - p
}

fn long_open_exec(s: &[char], q: usize) -> (r: Option<(usize, usize)>)
    requires
        q <= s@.len(),
    ensures
        r matches Some((b, e)) ==> long_open(s@, q as int) == Some((b as int, e as int)) && b <= s@.len(),
        r is None ==> long_open(s@, q as int) is None,
{
    if q < s.len() && s[q] == '[' {
        let e = run_of_exec(s, q + 1, '=');
        let r = q + 1 + e;
        if r < s.len() && s[r] == '[' {
            Some((r + 1, e))
        } else {
            None
        }
    } else {
        None
    }
}

fn repeat_char(c: char, n: usize, out: &mut Vec<char>)
    ensures
        final(out)@ == old(out)@ + repeated(c, n as int),
{
    let mut k: usize = 0;
    while k < n
        invariant
            k <= n,
            out@ == old(out)@ + repeated(c, k as int),
        decreases n - k,
    {
        out.push(c);
        k = k + 1;
        assert(out@ =~= old(out)@ + repeated(c, k as int));
    }
}

fn long_close_exec(e: usize) -> (v: Vec<char>)
    ensures
        v@ == long_close(e as int),
{
    let mut v: Vec<char> = Vec::new();
    v.push(']');
    repeat_char('=', e, &mut v);
    v.push(']');
    assert(v@ =~= long_close(e as int));
    v
}

fn string_scan_exec(s: &[char], p: usize, delim: char, escape: Option<char>, stop_nl: bool) -> (r: usize)
    ensures
        r == string_scan(s@, p as int, delim, escape, stop_nl),
{
    let mut q = p;
    while q < s.len()
        invariant
            p <= q,
            string_scan(s@, q as int, delim, escape, stop_nl) == string_scan(s@, p as int, delim, escape, stop_nl),
        decreases s@.len() - q,
    {
        let ch = s[q];
        if escape == Some(ch) {
            if q + 1 < s.len() {
                q = q + 2;
                continue;
            } else {
                return s.len();
            }
        }
        if ch == delim {
            return q + 1;
        }
        if stop_nl && ch == '\n' {
            return q;
        }
        q = q + 1;
    }
    s.len()
}

fn string_end_exec(s: &[char], i: usize, lit: &StringLiteral) -> (r: Option<usize>)
    requires
        i < s@.len(),
    ensures
        r matches Some(e) ==> string_end(s@, i as int, *lit) == Some(e as int),
        r is None ==> string_end(s@, i as int, *lit) is None,
{
    match lit {
        StringLiteral::Simple { delim, escape } => {
            if s[i] == *delim {
                Some(string_scan_exec(s, i + 1, *delim, *escape, true))
            } else {
                None
            }
        },
        StringLiteral::Triple { delim } => {
            let mut t: Vec<char> = Vec::new();
            repeat_char(*delim, 3, &mut t);
            if starts_with_chars(s, i, t.as_slice()) {
                Some(find_end_exec(s, i + 3, t.as_slice()))
            } else {
                None
            }
        },
        StringLiteral::Backtick => {
            if s[i] == '`' {
                Some(string_scan_exec(s, i + 1, '`', Some('\\'), false))
            } else {
                None
            }
        },
        StringLiteral::RawHash { prefix, delim } => {
            if !starts_with_str(s, i, prefix) {
                return None;
            }
            let a = i + prefix.unicode_len();
            let h = run_of_exec(s, a, '#');
            let q = a + h;
            if q < s.len() && s[q] == *delim {
                let mut close: Vec<char> = Vec::new();
                close.push(*delim);
                repeat_char('#', h, &mut close);
                assert(close@ =~= seq![*delim] + repeated('#', h as int));
                Some(find_end_exec(s, q + 1, close.as_slice()))
            } else {
                None
            }
        },
        StringLiteral::LongBracket => {
            match long_open_exec(s, i) {
                Some((b, e)) => {
                    let close = long_close_exec(e);
                    Some(find_end_exec(s, b, close.as_slice()))
                },
                None => None,
            }
        },
    }
}

fn block_scan_exec(s: &[char], p: usize, start: &[char], end: &[char], nestable: bool) -> (r: usize)
    requires
        p <= s@.len(),
    ensures
        r == block_scan(s@, p as int, 1, start@, end@, nestable),
{
    let mut q = p;
    let mut depth: u128 = 1;
    while q < s.len() && depth > 0
        invariant
            q <= s@.len(),
            p <= q,
            depth <= q + 1,
            block_scan(s@, q as int, depth as nat, start@, end@, nestable) == block_scan(s@, p as int, 1, start@, end@, nestable),
        decreases s@.len() - q, depth,
    {
        if nestable && start.len() > 0 && starts_with_chars(s, q, start) {
            depth = depth + 1;
            q = q + start.len();
        } else if starts_with_chars(s, q, end) {
            depth = depth - 1;
            q = q + end.len();
        } else {
            q = q + 1;
        }
    }
    q
}

fn block_end_exec(s: &[char], i: usize, b: &BlockComment) -> (r: Option<usize>)
    requires
        i <= s@.len(),
    ensures
        r matches Some(e) ==> block_end(s@, i as int, *b) == Some(e as int),
        r is None ==> block_end(s@, i as int, *b) is None,
{
    let start = chars_of(b.start);
    if !starts_with_chars(s, i, start.as_slice()) {
        return None;
    }
    let body = i + start.len();
    if b.long_bracket {
        match long_open_exec(s, body) {
            Some((open_end, e)) => {
                let close = long_close_exec(e);
                Some(find_end_exec(s, open_end, close.as_slice()))
            },
            None => None,
        }
    } else {
        let end = chars_of(b.end);
        Some(block_scan_exec(s, body, start.as_slice(), end.as_slice(), b.nestable))
    }
}

fn first_string_exec(s: &[char], i: usize, lits: &Vec<StringLiteral>) -> (r: Option<usize>)
    requires
        i < s@.len(),
    ensures
        r matches Some(e) ==> first_string(s@, i as int, lits@, 0) == Some(e as int),
        r is None ==> first_string(s@, i as int, lits@, 0) is None,
{
    let mut k: usize = 0;
    while k < lits.len()
        invariant
            k <= lits@.len(),
            i < s@.len(),
            first_string(s@, i as int, lits@, k as int) == first_string(s@, i as int, lits@, 0),
        decreases lits@.len() - k,
    {
        match string_end_exec(s, i, &lits[k]) {
            Some(e) => return Some(e),
            None => {},
        }
        k = k + 1;
    }
    None
}

fn first_block_exec(s: &[char], i: usize, blocks: &Vec<BlockComment>) -> (r: Option<usize>)
    requires
        i < s@.len(),
        forall|k: int| 0 <= k < blocks@.len() ==> (#[trigger] blocks@[k]).makes_progress(),
    ensures
        r matches Some(e) ==> first_block(s@, i as int, blocks@, 0) == Some(e as int),
        r is None ==> first_block(s@, i as int, blocks@, 0) is None,
{
    let mut k: usize = 0;
    while k < blocks.len()
        invariant
            k <= blocks@.len(),
            i < s@.len(),
            forall|k: int| 0 <= k < blocks@.len() ==> (#[trigger] blocks@[k]).makes_progress(),
            first_block(s@, i as int, blocks@, k as int) == first_block(s@, i as int, blocks@, 0),
        decreases blocks@.len() - k,
    {
        match block_end_exec(s, i, &blocks[k]) {
            Some(e) => return Some(e),
            None => {},
        }
        k = k + 1;
    }
    None
}

fn any_prefix_exec(s: &[char], i: usize, prefixes: &Vec<&'static str>) -> (b: bool)
    ensures
        b == any_prefix(s@, i as int, prefixes@, 0),
{
    let mut k: usize = 0;
    while k < prefixes.len()
        invariant
            k <= prefixes@.len(),
            any_prefix(s@, i as int, prefixes@, k as int) == any_prefix(s@, i as int, prefixes@, 0),
        decreases prefixes@.len() - k,
    {
        if starts_with_str(s, i, prefixes[k]) {
            return true;
        }
        k = k + 1;
    }
    false
}

// ---------------------------------------------------------------------
// Progress: every token ends past where it starts
// ---------------------------------------------------------------------

proof fn lemma_string_scan_bounds(s: Seq<char>, p: int, delim: char, escape: Option<char>, stop_nl: bool)
    requires
        0 <= p <= s.len(),
    ensures
        p <= string_scan(s, p, delim, escape, stop_nl) <= s.len(),
    decreases s.len() - p,
{
    if p < s.len() {
        if escape == Some(s[p]) {
            if p + 1 < s.len() {
                lemma_string_scan_bounds(s, p + 2, delim, escape, stop_nl);
            }
        } else if s[p] == delim {
        } else if stop_nl && s[p] == '\n' {
        } else {
            lemma_string_scan_bounds(s, p + 1, delim, escape, stop_nl);
        }
    }
}

proof fn lemma_find_end_bounds(s: Seq<char>, p: int, m: Seq<char>)
    requires
        0 <= p <= s.len(),
    ensures
        p <= find_end(s, p, m) <= s.len(),
    decreases s.len() - p,
{
    if p < s.len() && !starts_at(s, p, m) {
        lemma_find_end_bounds(s, p + 1, m);
    }
}

proof fn lemma_block_scan_bounds(s: Seq<char>, p: int, depth: nat, start: Seq<char>, end: Seq<char>, nestable: bool)
    requires
        0 <= p <= s.len(),
    ensures
        p <= block_scan(s, p, depth, start, end, nestable) <= s.len(),
    decreases s.len() - p, depth,
{
    if p < s.len() && depth > 0 {
        if nestable && start.len() > 0 && starts_at(s, p, start) {
            lemma_block_scan_bounds(s, p + start.len(), depth + 1, start, end, nestable);
        } else if starts_at(s, p, end) {
            if end.len() == 0 {
                lemma_block_scan_bounds(s, p, (depth - 1) as nat, start, end, nestable);
            } else {
                lemma_block_scan_bounds(s, p + end.len(), (depth - 1) as nat, start, end, nestable);
            }
        } else {
            lemma_block_scan_bounds(s, p + 1, depth, start, end, nestable);
        }
    }
}

proof fn lemma_run_of_bounds(s: Seq<char>, p: int, c: char)
    requires
        0 <= p <= s.len(),
    ensures
        0 <= run_of(s, p, c) <= s.len() - p,
    decreases s.len() - p,
{
    if p < s.len() && s[p] == c {
        lemma_run_of_bounds(s, p + 1, c);
    }
}

proof fn lemma_long_open_bounds(s: Seq<char>, q: int)
    requires
        0 <= q <= s.len(),
    ensures
        long_open(s, q) matches Some((b, e)) ==> q + 2 <= b <= s.len(),
{
    if q < s.len() {
        lemma_run_of_bounds(s, q + 1, '=');
    }
}

proof fn lemma_string_end_bounds(s: Seq<char>, i: int, lit: StringLiteral)
    requires
        0 <= i < s.len(),
    ensures
        string_end(s, i, lit) matches Some(e) ==> i < e <= s.len(),
{
    match lit {
        StringLiteral::Simple { delim, escape } => {
            lemma_string_scan_bounds(s, i + 1, delim, escape, true);
        },
        StringLiteral::Triple { delim } => {
            if starts_at(s, i, repeated(delim, 3)) {
                lemma_find_end_bounds(s, i + 3, repeated(delim, 3));
            }
        },
        StringLiteral::Backtick => {
            lemma_string_scan_bounds(s, i + 1, '`', Some('\\'), false);
        },
        StringLiteral::RawHash { prefix, delim } => {
            if starts_at(s, i, prefix@) {
                let a = i + prefix@.len();
                lemma_run_of_bounds(s, a, '#');
                let q = a + run_of(s, a, '#');
                if q < s.len() {
                    lemma_find_end_bounds(s, q + 1, seq![delim] + repeated('#', run_of(s, a, '#')));
                }
            }
        },
        StringLiteral::LongBracket => {
            lemma_long_open_bounds(s, i);
            if let Some((b, e)) = long_open(s, i) {
                lemma_find_end_bounds(s, b, long_close(e));
            }
        },
    }
}

proof fn lemma_block_end_bounds(s: Seq<char>, i: int, b: BlockComment)
    requires
        0 <= i < s.len(),
        b.makes_progress(),
    ensures
        block_end(s, i, b) matches Some(e) ==> i < e <= s.len(),
{
    if starts_at(s, i, b.start@) {
        let body = i + b.start@.len();
        if b.long_bracket {
            lemma_long_open_bounds(s, body);
            if let Some((open_end, e)) = long_open(s, body) {
                lemma_find_end_bounds(s, open_end, long_close(e));
            }
        } else {
            lemma_block_scan_bounds(s, body, 1, b.start@, b.end@, b.nestable);
            if body == i {
                if starts_at(s, i, b.end@) {
                    assert(block_scan(s, i + b.end@.len(), 0, b.start@, b.end@, b.nestable) == i + b.end@.len());
                    assert(block_scan(s, i, 1, b.start@, b.end@, b.nestable) == i + b.end@.len());
                } else {
                    lemma_block_scan_bounds(s, i + 1, 1, b.start@, b.end@, b.nestable);
                }
            }
        }
    }
}

proof fn lemma_first_string_bounds(s: Seq<char>, i: int, lits: Seq<StringLiteral>, k: int)
    requires
        0 <= i < s.len(),
        0 <= k,
    ensures
        first_string(s, i, lits, k) matches Some(e) ==> i < e <= s.len(),
    decreases lits.len() - k,
{
    if k < lits.len() {
        lemma_string_end_bounds(s, i, lits[k]);
        lemma_first_string_bounds(s, i, lits, k + 1);
    }
}

proof fn lemma_first_block_bounds(s: Seq<char>, i: int, blocks: Seq<BlockComment>, k: int)
    requires
        0 <= i < s.len(),
        0 <= k,
        forall|j: int| 0 <= j < blocks.len() ==> (#[trigger] blocks[j]).makes_progress(),
    ensures
        first_block(s, i, blocks, k) matches Some(e) ==> i < e <= s.len(),
    decreases blocks.len() - k,
{
    if k < blocks.len() {
        lemma_block_end_bounds(s, i, blocks[k]);
        lemma_first_block_bounds(s, i, blocks, k + 1);
    }
}

/// Under a well-formed language every token is non-empty and stays in
/// the text.
proof fn lemma_step_bounds(s: Seq<char>, syn: Syntax, i: int)
    requires
        0 <= i < s.len(),
        syn.well_formed(),
    ensures
        i < step(s, syn, i).0 <= s.len(),
{
    lemma_first_string_bounds(s, i, syn.strings, 0);
    lemma_first_block_bounds(s, i, syn.block_comments, 0);
    lemma_next_newline(s, i);
}

// ---------------------------------------------------------------------
// Classification pass
// ---------------------------------------------------------------------

fn step_exec(s: &[char], sp: &LanguageSpec, i: usize) -> (r: (usize, bool))
    requires
        i < s@.len(),
        sp.well_formed(),
    ensures
        (r.0 as int, r.1) == step(s@, sp@.syntax, i as int),
        i < r.0 <= s@.len(),
{
    proof {
        lemma_step_bounds(s@, sp@.syntax, i as int);
    }
    let n = s.len();
    match first_string_exec(s, i, &sp.strings) {
        Some(e) => (e, false),
        None => match first_block_exec(s, i, &sp.block_comments) {
            Some(e) => (e, true),
            None => if any_prefix_exec(s, i, &sp.line_comments) {
                let e = find_newline(s, i);
                if e < s.len() {
                    (e + 1, true)
                } else {
                    (s.len(), true)
                }
            } else {
                (i + 1, false)
            },
        },
    }
}

/// Flags every character of `s` as code (`false`) or comment (`true`).
fn classify(s: &[char], sp: &LanguageSpec) -> (class: Vec<bool>)
    requires
        sp.well_formed(),
    ensures
        class@ == comment_mask(s@, sp@.syntax, 0),
        class@.len() == s@.len(),
{
    let n = s.len();
    let mut class: Vec<bool> = Vec::new();
    let mut k: usize = 0;
    while k < n
        invariant
            k <= n,
            class@ == Seq::new(k as nat, |_j: int| false),
        decreases n - k,
    {
        class.push(false);
        k = k + 1;
        assert(class@ =~= Seq::new(k as nat, |_j: int| false));
    }
    let mut i: usize = 0;
    while i < n
        invariant
            n == s@.len(),
            i <= n,
            sp.well_formed(),
            class@.len() == n,
            forall|j: int| i <= j < n ==> !#[trigger] class@[j],
            class@.take(i as int) + comment_mask(s@, sp@.syntax, i as int) == comment_mask(s@, sp@.syntax, 0),
        decreases n - i,
    {
        let (e, c) = step_exec(s, sp, i);
        let ghost before = class@;
        if c {
            let mut j = i;
            while j < e
                invariant
                    i <= j <= e <= n,
                    class@.len() == n,
                    forall|q: int| 0 <= q < n ==> #[trigger] class@[q] == if i <= q < j { true } else { before[q] },
                decreases e - j,
            {
                class.set(j, true);
                j = j + 1;
            }
        }
        assert(class@.take(e as int) =~= before.take(i as int) + Seq::new((e - i) as nat, |_j: int| c));
        assert(comment_mask(s@, sp@.syntax, i as int) =~= Seq::new((e - i) as nat, |_j: int| c) + comment_mask(s@, sp@.syntax, e as int));
        assert(class@.take(e as int) + comment_mask(s@, sp@.syntax, e as int) =~= before.take(i as int) + comment_mask(s@, sp@.syntax, i as int));
        i = e;
    }
    assert(comment_mask(s@, sp@.syntax, n as int) =~= Seq::<bool>::empty());
    assert(class@.take(n as int) =~= class@);
    class
}

// ---------------------------------------------------------------------
// Line pruning pass
// ---------------------------------------------------------------------

fn is_white_space_exec(c: char) -> (b: bool)
    ensures
        b == is_white_space(c),
{
    ('\u{9}' <= c && c <= '\u{d}') || c == ' ' || c == '\u{85}' || c == '\u{a0}' || c == '\u{1680}'
        || ('\u{2000}' <= c && c <= '\u{200a}') || c == '\u{2028}' || c == '\u{2029}' || c == '\u{202f}'
        || c == '\u{205f}' || c == '\u{3000}'
}

proof fn lemma_trim_end_take(t: Seq<char>, k: int)
    requires
        0 < k <= t.len(),
        is_white_space(t[k - 1]),
    ensures
        trim_end(t.take(k)) == trim_end(t.take(k - 1)),
{
    assert(t.take(k).drop_last() =~= t.take(k - 1));
}

/// Emits the output for line `s[ls..e]`.
fn emit_line(s: &[char], class: &Vec<bool>, ls: usize, e: usize, out: &mut Vec<char>)
    requires
        ls <= e <= s@.len(),
        class@.len() == s@.len(),
    ensures
        final(out)@ == old(out)@ + line_out(s@, class@, ls as int, e as int),
{
    let mut had = e < s.len() && class[e];
    let mut kept: Vec<char> = Vec::new();
    let mut k = ls;
    while k < e
        invariant
            ls <= k <= e <= s@.len(),
            class@.len() == s@.len(),
            had == ((e < s@.len() && class@[e as int]) || any_comment(class@, ls as int, k as int)),
            kept@ == kept_chars(s@, class@, ls as int, k as int),
        decreases e - k,
    {
        if class[k] {
            had = true;
        } else {
            kept.push(s[k]);
        }
        k = k + 1;
        assert(kept@ =~= kept_chars(s@, class@, ls as int, k as int));
    }
    let mut len = kept.len();
    assert(kept@.take(len as int) =~= kept@);
    while len > 0 && is_white_space_exec(kept[len - 1])
        invariant
            len <= kept@.len(),
            trim_end(kept@.take(len as int)) == trim_end(kept@),
        decreases len,
    {
        proof {
            lemma_trim_end_take(kept@, len as int);
        }
        len = len - 1;
    }
    proof {
        if len == kept@.len() {
            assert(kept@.take(len as int) =~= kept@);
        }
    }
    assert(trim_end(kept@.take(len as int)) == kept@.take(len as int));
    if had && len == 0 {
        return;
    }
    let mut j: usize = 0;
    while j < len
        invariant
            j <= len <= kept@.len(),
            out@ == old(out)@ + kept@.take(j as int),
        decreases len - j,
    {
        out.push(kept[j]);
        j = j + 1;
        assert(out@ =~= old(out)@ + kept@.take(j as int));
    }
    if e < s.len() {
        out.push('\n');
    }
    assert(out@ =~= old(out)@ + line_out(s@, class@, ls as int, e as int));
}

/// Emits the surviving code of every line.
fn emit(s: &[char], class: &Vec<bool>) -> (out: Vec<char>)
    requires
        class@.len() == s@.len(),
    ensures
        out@ == emit_from(s@, class@, 0),
{
    let n = s.len();
    let mut out: Vec<char> = Vec::new();
    let mut ls: usize = 0;
    loop
        invariant
            n == s@.len(),
            ls <= n,
            class@.len() == s@.len(),
            out@ + emit_from(s@, class@, ls as int) == emit_from(s@, class@, 0),
        decreases n - ls,
    {
        let e = find_newline(s, ls);
        let ghost before = out@;
        emit_line(s, class, ls, e, &mut out);
        if e < n {
            assert(before + emit_from(s@, class@, ls as int) =~= out@ + emit_from(s@, class@, e + 1));
            ls = e + 1;
        } else {
            assert(out@ =~= before + emit_from(s@, class@, ls as int));
            return out;
        }
    }
}

/// Removes comments from `raw` according to `spec`: comment text goes,
/// a line that held only comments (and whitespace) disappears with its
/// newline, and kept lines lose their trailing whitespace. Comment
/// markers inside string literals are left alone.
///
/// The language must be well formed: a block comment with an empty
/// start marker that nests, or that has no end marker either, would
/// match without consuming anything and the scan would never finish.
pub fn strip(raw: &str, spec: &LanguageSpec) -> (out: String)
    requires
        spec.well_formed(),
    ensures
        out@ == stripped(raw@, spec@.syntax),
{
    let s = chars_of(raw);
    let class = classify(s.as_slice(), spec);
    let out = emit(s.as_slice(), &class);
    string_of(out.as_slice())
}

// ---------------------------------------------------------------------
// Laws
// ---------------------------------------------------------------------

/// The kept characters of a range are a subsequence of it: never more.
proof fn lemma_kept_chars_len(s: Seq<char>, mask: Seq<bool>, a: int, b: int)
    ensures
        kept_chars(s, mask, a, b).len() <= if b > a { b - a } else { 0 },
    decreases b - a,
{
    if b > a {
        lemma_kept_chars_len(s, mask, a, b - 1);
    }
}

/// With no comment in the range, every character of it is kept.
proof fn lemma_kept_chars_all(s: Seq<char>, mask: Seq<bool>, a: int, b: int)
    requires
        0 <= a <= b <= s.len(),
        forall|i: int| a <= i < b ==> !#[trigger] mask[i],
    ensures
        kept_chars(s, mask, a, b) == s.subrange(a, b),
        !any_comment(mask, a, b),
    decreases b - a,
{
    if b > a {
        lemma_kept_chars_all(s, mask, a, b - 1);
        assert(s.subrange(a, b) =~= s.subrange(a, b - 1).push(s[b - 1]));
    } else {
        assert(s.subrange(a, b) =~= Seq::<char>::empty());
    }
}

/// Trimming never lengthens.
proof fn lemma_trim_end_len(t: Seq<char>)
    ensures
        trim_end(t).len() <= t.len(),
    decreases t.len(),
{
    if t.len() > 0 && is_white_space(t.last()) {
        lemma_trim_end_len(t.drop_last());
    }
}

proof fn lemma_emit_from_len(s: Seq<char>, mask: Seq<bool>, ls: int)
    requires
        0 <= ls <= s.len(),
    ensures
        emit_from(s, mask, ls).len() <= s.len() - ls,
    decreases s.len() - ls,
{
    lemma_next_newline(s, ls);
    let e = next_newline(s, ls);
    lemma_kept_chars_len(s, mask, ls, e);
    lemma_trim_end_len(kept_chars(s, mask, ls, e));
    if e < s.len() {
        lemma_emit_from_len(s, mask, e + 1);
    }
}

/// Stripping only ever removes: the output is never longer than the
/// input.
pub proof fn law_strip_never_lengthens(s: Seq<char>, syn: Syntax)
    ensures
        stripped(s, syn).len() <= s.len(),
{
    lemma_emit_from_len(s, comment_mask(s, syn, 0), 0);
}

/// No line of `s` ends in whitespace: a whitespace character other than
/// a newline is always followed, on its line, by something else.
pub open spec fn no_trailing_space(s: Seq<char>) -> bool {
    forall|i: int| 0 <= i < s.len() && s[i] != '\n' && is_white_space(#[trigger] s[i]) ==> i + 1 < s.len() && s[i + 1] != '\n'
}

proof fn lemma_emit_from_clean(s: Seq<char>, mask: Seq<bool>, ls: int)
    requires
        0 <= ls <= s.len(),
        ls == 0 || s[ls - 1] == '\n',
        forall|i: int| 0 <= i < s.len() ==> !#[trigger] mask[i],
        no_trailing_space(s),
    ensures
        emit_from(s, mask, ls) == s.subrange(ls, s.len() as int),
    decreases s.len() - ls,
{
    lemma_next_newline(s, ls);
    let e = next_newline(s, ls);
    lemma_kept_chars_all(s, mask, ls, e);
    let line = s.subrange(ls, e);
    if line.len() > 0 {
        assert(line.last() == s[e - 1]);
        assert(s[e - 1] != '\n');
        if is_white_space(s[e - 1]) {
            assert(s[e - 1] != '\n' && is_white_space(s[e - 1]));
        }
        assert(!is_white_space(line.last()));
    }
    assert(trim_end(line) == line);
    if e < s.len() {
        assert(!mask[e]);
        lemma_emit_from_clean(s, mask, e + 1);
        assert(s.subrange(ls, s.len() as int) =~= line.push('\n') + s.subrange(e + 1, s.len() as int));
    } else {
        assert(s.subrange(ls, s.len() as int) =~= line);
    }
}

/// Text in which the language finds no comment, and in which no line
/// ends in whitespace, passes through stripping unchanged.
pub proof fn law_comment_free_text_unchanged(s: Seq<char>, syn: Syntax)
    requires
        forall|i: int| 0 <= i < s.len() ==> !#[trigger] comment_mask(s, syn, 0)[i],
        no_trailing_space(s),
    ensures
        stripped(s, syn) == s,
{
    lemma_emit_from_clean(s, comment_mask(s, syn, 0), 0);
    assert(s.subrange(0, s.len() as int) =~= s);
}

/// When no code but whitespace is kept from a range, trimming leaves
/// nothing.
proof fn lemma_kept_blank(s: Seq<char>, mask: Seq<bool>, a: int, b: int)
    requires
        0 <= a <= b <= s.len(),
        forall|j: int| a <= j < b ==> mask[j] || is_white_space(#[trigger] s[j]),
    ensures
        trim_end(kept_chars(s, mask, a, b)).len() == 0,
    decreases b - a,
{
    if b > a {
        lemma_kept_blank(s, mask, a, b - 1);
        let k = kept_chars(s, mask, a, b);
        if !mask[b - 1] {
            assert(k.drop_last() =~= kept_chars(s, mask, a, b - 1));
            assert(is_white_space(k.last()));
        } else {
            assert(k =~= kept_chars(s, mask, a, b - 1));
        }
    }
}

/// A comment anywhere in a range is seen.
proof fn lemma_any_comment_found(mask: Seq<bool>, a: int, b: int, j: int)
    requires
        a <= j < b,
        mask[j],
    ensures
        any_comment(mask, a, b),
    decreases b - a,
{
    if j < b - 1 {
        lemma_any_comment_found(mask, a, b - 1, j);
    }
}

/// A line that holds a comment and otherwise only whitespace disappears
/// entirely, newline included: the output from its start is the output
/// from the next line on (nothing, at the end of the text).
pub proof fn law_comment_only_line_disappears(s: Seq<char>, syn: Syntax, ls: int)
    requires
        0 <= ls <= s.len(),
        ls == 0 || s[ls - 1] == '\n',
        exists|j: int|
            ls <= j <= next_newline(s, ls) && j < s.len() && #[trigger] comment_mask(s, syn, 0)[j],
        forall|j: int|
            ls <= j < next_newline(s, ls) ==> comment_mask(s, syn, 0)[j] || is_white_space(#[trigger] s[j]),
    ensures
        emit_from(s, comment_mask(s, syn, 0), ls) == if next_newline(s, ls) < s.len() {
            emit_from(s, comment_mask(s, syn, 0), next_newline(s, ls) + 1)
        } else {
            Seq::<char>::empty()
        },
{
    let mask = comment_mask(s, syn, 0);
    lemma_next_newline(s, ls);
    let e = next_newline(s, ls);
    lemma_kept_blank(s, mask, ls, e);
    let j = choose|j: int| ls <= j <= e && j < s.len() && #[trigger] comment_mask(s, syn, 0)[j];
    if j < e {
        lemma_any_comment_found(mask, ls, e, j);
    }
    assert(line_out(s, mask, ls, e) =~= Seq::<char>::empty());
    if e < s.len() {
        assert(emit_from(s, mask, ls) =~= emit_from(s, mask, e + 1));
    }
}

/// Comment markers inside string literals are left alone: wherever the
/// scan stands on the opening of a string literal, every character up
/// to the string's end is classified as code.
pub proof fn law_string_contents_are_code(s: Seq<char>, syn: Syntax, i: int)
    requires
        syn.well_formed(),
        0 <= i < s.len(),
        first_string(s, i, syn.strings, 0) is Some,
    ensures
        ({
            let e = first_string(s, i, syn.strings, 0)->0;
            &&& i < e <= s.len()
            &&& forall|j: int| 0 <= j < e - i ==> !#[trigger] comment_mask(s, syn, i)[j]
        }),
{
    lemma_step_bounds(s, syn, i);
    let e = first_string(s, i, syn.strings, 0)->0;
    let m = comment_mask(s, syn, i);
    assert(step(s, syn, i) == (e, false));
    assert(m == Seq::new((e - i) as nat, |_j: int| false) + comment_mask(s, syn, e));
    assert forall|j: int| 0 <= j < e - i implies !#[trigger] m[j] by {
        assert(m[j] == Seq::new((e - i) as nat, |_j: int| false)[j]);
    }
}

/// The characters with the Unicode `White_Space` property (Unicode
/// PropList.txt): tab, line feed, vertical tab, form feed, carriage
/// return, space, next line, no-break space, ogham space mark, the
/// en quad through hair space, line and paragraph separators, narrow
/// no-break space, medium mathematical space and ideographic space.
pub open spec fn unicode_white_space(c: char) -> bool {
    ||| c == '\t'
    ||| c == '\n'
    ||| c == '\u{b}'
    ||| c == '\u{c}'
    ||| c == '\r'
    ||| c == ' '
    ||| c == '\u{85}'
    ||| c == '\u{a0}'
    ||| c == '\u{1680}'
    ||| ('\u{2000}' <= c && c <= '\u{200a}')
    ||| c == '\u{2028}'
    ||| c == '\u{2029}'
    ||| c == '\u{202f}'
    ||| c == '\u{205f}'
    ||| c == '\u{3000}'
}

/// No line of `t` ends in whitespace: the character before each line
/// break, and the last character, are never Unicode `White_Space`
/// (line breaks themselves aside).
pub open spec fn lines_end_clean(t: Seq<char>) -> bool {
    forall|i: int|
        0 <= i < t.len() && t[i] != '\n' && (i + 1 == t.len() || t[i + 1] == '\n') ==> !unicode_white_space(
            #[trigger] t[i],
        )
}

/// Trimming leaves no trailing `White_Space`.
proof fn lemma_trim_end_clean(t: Seq<char>)
    ensures
        trim_end(t).len() > 0 ==> !unicode_white_space(trim_end(t).last()),
        trim_end(t).len() <= t.len(),
        trim_end(t) == t.take(trim_end(t).len() as int),
    decreases t.len(),
{
    if t.len() > 0 && is_white_space(t.last()) {
        lemma_trim_end_clean(t.drop_last());
        assert(t.drop_last().take(trim_end(t).len() as int) =~= t.take(trim_end(t).len() as int));
    } else {
        assert(t.take(t.len() as int) =~= t);
    }
}

/// The code kept from a range without line breaks has none either.
proof fn lemma_kept_no_newline(s: Seq<char>, mask: Seq<bool>, a: int, b: int)
    requires
        0 <= a <= b <= s.len(),
        forall|j: int| a <= j < b ==> #[trigger] s[j] != '\n',
    ensures
        forall|k: int| 0 <= k < kept_chars(s, mask, a, b).len() ==> #[trigger] kept_chars(s, mask, a, b)[k] != '\n',
    decreases b - a,
{
    if b > a {
        lemma_kept_no_newline(s, mask, a, b - 1);
        let k0 = kept_chars(s, mask, a, b - 1);
        let k1 = kept_chars(s, mask, a, b);
        assert forall|k: int| 0 <= k < k1.len() implies #[trigger] k1[k] != '\n' by {
            if k < k0.len() {
                assert(k1[k] == k0[k]);
            }
        }
    }
}

/// What a line turns into ends clean, and holds no line break but,
/// possibly, its last character.
proof fn lemma_line_out_clean(s: Seq<char>, mask: Seq<bool>, ls: int, e: int)
    requires
        0 <= ls <= e <= s.len(),
        forall|j: int| ls <= j < e ==> #[trigger] s[j] != '\n',
    ensures
        lines_end_clean(line_out(s, mask, ls, e)),
        forall|k: int| 0 <= k < line_out(s, mask, ls, e).len() - 1 ==> #[trigger] line_out(s, mask, ls, e)[k] != '\n',
        line_out(s, mask, ls, e).len() > 0 && e < s.len() ==> line_out(s, mask, ls, e).last() == '\n',
        line_out(s, mask, ls, e).len() > 0 && e >= s.len() ==> line_out(s, mask, ls, e).last() != '\n',
{
    let kept = kept_chars(s, mask, ls, e);
    lemma_kept_no_newline(s, mask, ls, e);
    lemma_trim_end_clean(kept);
    let t = trim_end(kept);
    assert forall|k: int| 0 <= k < t.len() implies #[trigger] t[k] != '\n' by {
        assert(t[k] == kept[k]);
    }
    let out = line_out(s, mask, ls, e);
    assert forall|i: int|
        0 <= i < out.len() && out[i] != '\n' && (i + 1 == out.len() || out[i + 1] == '\n') implies !unicode_white_space(
            #[trigger] out[i],
        ) by {
        if out.len() > 0 {
            if e < s.len() {
                assert(out == t.push('\n'));
                assert(i == t.len() - 1);
            } else {
                assert(out == t);
                assert(i == t.len() - 1);
            }
        }
    }
}

/// Gluing a text whose lines end clean and which ends in a line break
/// (or is empty) onto another such text keeps every line clean.
proof fn lemma_lines_end_clean_concat(a: Seq<char>, b: Seq<char>)
    requires
        lines_end_clean(a),
        lines_end_clean(b),
        a.len() == 0 || a.last() == '\n' || b.len() == 0,
    ensures
        lines_end_clean(a + b),
{
    let c = a + b;
    assert forall|i: int| 0 <= i < c.len() && c[i] != '\n' && (i + 1 == c.len() || c[i + 1] == '\n') implies !unicode_white_space(
        #[trigger] c[i],
    ) by {
        if i < a.len() {
            assert(c[i] == a[i]);
            if i + 1 < a.len() {
                assert(c[i + 1] == a[i + 1]);
            } else {
                assert(i == a.len() - 1);
            }
        } else {
            assert(c[i] == b[i - a.len()]);
            if i + 1 < c.len() {
                assert(c[i + 1] == b[i + 1 - a.len()]);
            }
        }
    }
}

proof fn lemma_emit_from_clean_lines(s: Seq<char>, mask: Seq<bool>, ls: int)
    requires
        0 <= ls <= s.len(),
    ensures
        lines_end_clean(emit_from(s, mask, ls)),
    decreases s.len() - ls,
{
    lemma_next_newline(s, ls);
    let e = next_newline(s, ls);
    lemma_line_out_clean(s, mask, ls, e);
    if e < s.len() {
        lemma_emit_from_clean_lines(s, mask, e + 1);
        lemma_lines_end_clean_concat(line_out(s, mask, ls, e), emit_from(s, mask, e + 1));
    }
}

/// Stripping leaves no line ending in whitespace: no output line ends
/// in a Unicode `White_Space` character (tabs and spaces included), as
/// `str::trim_end` leaves it.
pub proof fn law_stripped_lines_end_clean(s: Seq<char>, syn: Syntax)
    ensures
        lines_end_clean(stripped(s, syn)),
{
    lemma_emit_from_clean_lines(s, comment_mask(s, syn, 0), 0);
}

/// The Unicode `White_Space` characters are exactly the ones trimmed.
proof fn lemma_white_space_is_unicode(c: char)
    ensures
        is_white_space(c) <==> unicode_white_space(c),
{
}

/// A line that holds a comment and otherwise only Unicode whitespace
/// (tabs and spaces included) disappears entirely, its line break with
/// it.
pub proof fn law_blank_comment_line_disappears(s: Seq<char>, syn: Syntax, ls: int)
    requires
        0 <= ls <= s.len(),
        ls == 0 || s[ls - 1] == '\n',
        exists|j: int|
            ls <= j <= next_newline(s, ls) && j < s.len() && #[trigger] comment_mask(s, syn, 0)[j],
        forall|j: int|
            ls <= j < next_newline(s, ls) ==> comment_mask(s, syn, 0)[j] || unicode_white_space(#[trigger] s[j]),
    ensures
        emit_from(s, comment_mask(s, syn, 0), ls) == if next_newline(s, ls) < s.len() {
            emit_from(s, comment_mask(s, syn, 0), next_newline(s, ls) + 1)
        } else {
            Seq::<char>::empty()
        },
{
    assert forall|j: int| ls <= j < next_newline(s, ls) implies comment_mask(s, syn, 0)[j] || is_white_space(
        #[trigger] s[j],
    ) by {
        lemma_white_space_is_unicode(s[j]);
    }
    law_comment_only_line_disappears(s, syn, ls);
}

/// Without stopping at line breaks, a string scan ends just past a
/// closing delimiter, or at the end of the text.
proof fn lemma_string_scan_closes(s: Seq<char>, p: int, delim: char, escape: Option<char>)
    requires
        0 <= p <= s.len(),
    ensures
        ({
            let r = string_scan(s, p, delim, escape, false);
            r == s.len() || (p < r && s[r - 1] == delim)
        }),
    decreases s.len() - p,
{
    if p < s.len() {
        if escape == Some(s[p]) {
            if p + 1 < s.len() {
                lemma_string_scan_closes(s, p + 2, delim, escape);
            }
        } else if s[p] == delim {
        } else {
            lemma_string_scan_closes(s, p + 1, delim, escape);
        }
    }
}

/// In a language whose first string shape is the backtick template
/// literal, a backtick where the scan stands opens a literal that runs
/// to its closing backtick (or the end of the text), and all of it is
/// code.
pub proof fn lemma_backtick_literal_is_code(s: Seq<char>, syn: Syntax, i: int)
    requires
        syn.well_formed(),
        syn.strings.len() > 0,
        syn.strings[0] is Backtick,
        0 <= i < s.len(),
        s[i] == '`',
    ensures
        ({
            let e = step(s, syn, i).0;
            &&& !step(s, syn, i).1
            &&& e == s.len() || (i + 2 <= e && s[e - 1] == '`')
            &&& i < e <= s.len()
            &&& forall|j: int| i <= j < e ==> !#[trigger] comment_mask(s, syn, i)[j - i]
        }),
{
    let e = string_scan(s, i + 1, '`', Some('\\'), false);
    assert(string_end(s, i, syn.strings[0]) == Some(e));
    assert(first_string(s, i, syn.strings, 0) == Some(e));
    lemma_string_scan_closes(s, i + 1, '`', Some('\\'));
    law_string_contents_are_code(s, syn, i);
    assert forall|j: int| i <= j < e implies !#[trigger] comment_mask(s, syn, i)[j - i] by {
        assert(0 <= j - i < e - i);
    }
}

} // verus!
