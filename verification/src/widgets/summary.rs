//! End-of-run summary panel: its lines and where it sits.
//!
//! The panel shows the accuracy, the elapsed time and the WPM in a
//! small aligned table, with the Tab / Esc hints underneath, centred
//! over the typing body. When the body is too small for it, the panel
//! falls back to covering the whole body.

use vstd::prelude::*;

use crate::chars::{chars_of, pad_left, pad_right, push_padded_left, push_padded_right, string_of};
use crate::timer::{decimal, push_decimal};

verus! {

/// The largest of three integers.
pub open spec fn max3(a: int, b: int, c: int) -> int {
    if a >= b && a >= c {
        a
    } else if b >= c {
        b
    } else {
        c
    }
}

/// One table row: the label left-aligned in `label_w` columns, two
/// spaces, the value right-aligned in `value_w` columns.
pub open spec fn summary_row(label: Seq<char>, value: Seq<char>, label_w: int, value_w: int) -> Seq<char> {
    pad_right(label, label_w) + seq![' ', ' '] + pad_left(value, value_w)
}

/// The lines of the summary panel for a run that took `elapsed` with
/// the given accuracy percentage and WPM. Labels are as wide as the
/// widest one; values are right-aligned to the widest value.
pub open spec fn summary_text(elapsed: Seq<char>, accuracy: nat, wpm: nat) -> Seq<Seq<char>> {
    let acc = decimal(accuracy).push('%');
    let w = decimal(wpm);
    let label_w = "Accuracy:"@.len() as int;
    let value_w = max3(elapsed.len() as int, acc.len() as int, w.len() as int);
    seq![
        "Run complete!"@,
        Seq::<char>::empty(),
        summary_row("Accuracy:"@, acc, label_w, value_w),
        summary_row("Time:"@, elapsed, label_w, value_w),
        summary_row("WPM:"@, w, label_w, value_w),
        Seq::<char>::empty(),
        "Tab to restart   Esc to quit"@,
    ]
}

/// Appends one table row to `lines`.
fn push_row(lines: &mut Vec<String>, label: &str, value: &Vec<char>, label_w: usize, value_w: usize)
    ensures
        final(lines)@.len() == old(lines)@.len() + 1,
        forall|i: int| 0 <= i < old(lines)@.len() ==> #[trigger] final(lines)@[i] == old(lines)@[i],
        final(lines)@.last()@ == summary_row(label@, value@, label_w as int, value_w as int),
{
    let mut out: Vec<char> = Vec::new();
    push_padded_right(&mut out, label, label_w);
    out.push(' ');
    out.push(' ');
    push_padded_left(&mut out, value, value_w);
    assert(out@ =~= summary_row(label@, value@, label_w as int, value_w as int));
    lines.push(string_of(out.as_slice()));
}

/// The lines of the summary panel (see [`summary_text`]).
pub fn summary_lines(elapsed: &str, accuracy: u8, wpm: u32) -> (lines: Vec<String>)
    ensures
        lines@.len() == summary_text(elapsed@, accuracy as nat, wpm as nat).len(),
        forall|i: int| 0 <= i < lines@.len() ==> (#[trigger] lines@[i])@ == summary_text(elapsed@, accuracy as nat, wpm as nat)[i],
{
    let mut acc: Vec<char> = Vec::new();
    push_decimal(accuracy as u64, &mut acc);
    acc.push('%');
    let mut w: Vec<char> = Vec::new();
    push_decimal(wpm as u64, &mut w);
    let elapsed_chars = chars_of(elapsed);
    let label_w = chars_of("Accuracy:").len();
    let e = elapsed_chars.len();
    let value_w = if e >= acc.len() && e >= w.len() {
        e
    } else if acc.len() >= w.len() {
        acc.len()
    } else {
        w.len()
    };
    let ghost text = summary_text(elapsed@, accuracy as nat, wpm as nat);
    let mut lines: Vec<String> = Vec::new();
    lines.push(String::from_str("Run complete!"));
    lines.push(String::new());
    push_row(&mut lines, "Accuracy:", &acc, label_w, value_w);
    push_row(&mut lines, "Time:", &elapsed_chars, label_w, value_w);
    push_row(&mut lines, "WPM:", &w, label_w, value_w);
    lines.push(String::new());
    lines.push(String::from_str("Tab to restart   Esc to quit"));
    assert forall|i: int| 0 <= i < lines@.len() implies (#[trigger] lines@[i])@ == text[i] by {
        if i == 1 || i == 5 {
            assert(lines@[i]@ =~= Seq::<char>::empty());
        }
    }
    lines
}

/// Characters in the widest of `lines`.
pub open spec fn widest(lines: Seq<Seq<char>>) -> nat
    decreases lines.len(),
{
    if lines.len() == 0 {
        0
    } else if widest(lines.drop_last()) >= lines.last().len() {
        widest(lines.drop_last())
    } else {
        lines.last().len()
    }
}

/// The text of each of `lines`.
pub open spec fn texts(lines: Seq<String>) -> Seq<Seq<char>> {
    lines.map_values(|s: String| s@)
}

/// Number of characters in the widest of `lines`.
pub fn lines_width(lines: &Vec<String>) -> (w: usize)
    ensures
        w == widest(texts(lines@)),
{
    let mut w: usize = 0;
    let mut i: usize = 0;
    while i < lines.len()
        invariant
            i <= lines@.len(),
            w == widest(texts(lines@).take(i as int)),
        decreases lines@.len() - i,
    {
        let n = chars_of(lines[i].as_str()).len();
        assert(texts(lines@).take(i + 1).drop_last() =~= texts(lines@).take(i as int));
        if n > w {
            w = n;
        }
        i = i + 1;
    }
    assert(texts(lines@).take(i as int) =~= texts(lines@));
    w
}

/// `n` capped at `u16::MAX`.
pub open spec fn sat16(n: int) -> int {
    if n > 0xffff {
        0xffff
    } else {
        n
    }
}

/// Where the summary panel sits in a body of `area_w` by `area_h`
/// cells, for text `inner_w` wide and `inner_h` tall: framed by a
/// border and a column of padding on each side, centred, as
/// `(x, y, width, height)` relative to the body; `None` when it does
/// not fit and covers the whole body instead.
pub open spec fn panel_rect(area_w: int, area_h: int, inner_w: int, inner_h: int) -> Option<(int, int, int, int)> {
    let h = sat16(inner_h + 2);
    let w = sat16(inner_w + 4);
    if area_w < w || area_h < h {
        None
    } else {
        Some(((area_w - w) / 2, (area_h - h) / 2, w, h))
    }
}

/// The placement of the summary panel (see [`panel_rect`]).
pub fn summary_panel(area_width: u16, area_height: u16, inner_width: u16, inner_height: u16) -> (r: Option<(u16, u16, u16, u16)>)
    ensures
        match panel_rect(area_width as int, area_height as int, inner_width as int, inner_height as int) {
            None => r is None,
            Some((x, y, w, h)) => r == Some((x as u16, y as u16, w as u16, h as u16)),
        },
{
    let height = inner_height.saturating_add(2);
    let width = inner_width.saturating_add(4);
    if area_width < width || area_height < height {
        None
    } else {
        Some(((area_width - width) / 2, (area_height - height) / 2, width, height))
    }
}

} // verus!
