//! Line-number gutter: its width and the text of each of its rows.

use vstd::prelude::*;

use crate::chars::{pad_left, push_padded_left, push_spaces, spaces, string_of};
use crate::timer::{decimal, push_decimal};
use vstd::arithmetic::div_mod::lemma_div_is_ordered;

verus! {

/// Columns reserved for the gutter: the digits of the widest line
/// number (at least one line) plus a trailing space.
pub open spec fn gutter_width(total_lines: nat) -> nat {
    decimal(if total_lines == 0 { 1 } else { total_lines }).len() + 1
}

proof fn lemma_decimal_len_step(n: nat)
    requires
        n >= 10,
    ensures
        decimal(n).len() == decimal(n / 10).len() + 1,
{
}

/// `10^k`.
spec fn pow10(k: nat) -> nat
    decreases k,
{
    if k == 0 { 1 } else { 10 * pow10((k - 1) as nat) }
}

proof fn lemma_decimal_len_le(n: nat, k: nat)
    requires
        k >= 1,
        n < pow10(k),
    ensures
        decimal(n).len() <= k,
    decreases k,
{
    if n >= 10 {
        assert(n / 10 < pow10((k - 1) as nat)) by (nonlinear_arith)
            requires n < pow10(k), k >= 1, pow10(k) == 10 * pow10((k - 1) as nat);
        if k == 1 {
            assert(pow10(1) == 10);
        } else {
            lemma_decimal_len_le(n / 10, (k - 1) as nat);
        }
    }
}

/// Reserves enough columns for the widest source-line number plus a
/// single trailing space separating the gutter from the body.
pub fn column_width(total_lines: usize) -> (w: u16)
    ensures
        w == gutter_width(total_lines as nat),
{
    let mut n = if total_lines == 0 { 1 } else { total_lines };
    let ghost n0 = n as nat;
    proof {
        reveal_with_fuel(pow10, 21);
        assert(pow10(20) == 100000000000000000000);
        lemma_decimal_len_le(n0, 20);
    }
    let mut digits: u16 = 1;
    while n >= 10
        invariant
            1 <= digits,
            n >= 1,
            decimal(n0).len() <= 20,
            decimal(n0).len() == decimal(n as nat).len() + digits - 1,
        decreases n,
    {
        proof {
            lemma_decimal_len_step(n as nat);
        }
        n = n / 10;
        digits = digits + 1;
    }
    digits + 1
}

/// The gutter text of one visual row: the line number right-aligned in
/// `digits` columns followed by a space, or blanks on a continuation row.
pub open spec fn gutter_line(label: Option<usize>, digits: int) -> Seq<char> {
    match label {
        Some(n) => pad_left(decimal(n as nat), digits).push(' '),
        None => spaces(digits + 1),
    }
}

/// The gutter text for each visual row, given the row labels (see
/// [`crate::text::gutter_labels`]) and the gutter width (its digit
/// columns plus the separating space).
pub fn gutter_lines(labels: &[Option<usize>], gutter_width: u16) -> (lines: Vec<String>)
    ensures
        lines@.len() == labels@.len(),
        forall|i: int| 0 <= i < labels@.len() ==> (#[trigger] lines@[i])@ == gutter_line(
            labels@[i],
            if gutter_width > 0 { gutter_width - 1 } else { 0 },
        ),
{
    let digits: usize = if gutter_width > 0 { (gutter_width - 1) as usize } else { 0 };
    let mut lines: Vec<String> = Vec::new();
    let mut i: usize = 0;
    while i < labels.len()
        invariant
            i <= labels@.len(),
            digits == if gutter_width > 0 { gutter_width - 1 } else { 0 },
            lines@.len() == i,
            forall|j: int| 0 <= j < i ==> (#[trigger] lines@[j])@ == gutter_line(labels@[j], digits as int),
        decreases labels@.len() - i,
    {
        let mut out: Vec<char> = Vec::new();
        match labels[i] {
            Some(n) => {
                let mut num: Vec<char> = Vec::new();
                push_decimal(n as u64, &mut num);
                push_padded_left(&mut out, &num, digits);
                out.push(' ');
                assert(out@ =~= gutter_line(labels@[i as int], digits as int));
            },
            None => {
                push_spaces(&mut out, digits + 1);
                assert(out@ =~= gutter_line(labels@[i as int], digits as int));
            },
        }
        lines.push(string_of(out.as_slice()));
        i = i + 1;
    }
    lines
}

proof fn lemma_decimal_len_pos(n: nat)
    ensures
        decimal(n).len() >= 1,
    decreases n,
{
    if n >= 10 {
        lemma_decimal_len_pos(n / 10);
    }
}

/// Larger numbers never have fewer digits.
proof fn lemma_decimal_len_mono(a: nat, b: nat)
    requires
        a <= b,
    ensures
        decimal(a).len() <= decimal(b).len(),
    decreases b,
{
    lemma_decimal_len_pos(b);
    if a >= 10 {
        lemma_div_is_ordered(a as int, b as int, 10);
        lemma_decimal_len_mono(a / 10, b / 10);
    }
}

/// The gutter has room for every line number of the file and a
/// separating space: it is wider than the digits of every line number
/// up to the file's line count (counting at least one line), and the
/// gutter text of each such number fills the gutter exactly.
pub proof fn law_gutter_fits_every_line_number(total_lines: nat, n: nat)
    requires
        1 <= n,
        n <= total_lines || n == 1,
        total_lines <= usize::MAX,
    ensures
        gutter_width(total_lines) > decimal(n).len(),
        gutter_width(total_lines) == decimal(if total_lines == 0 { 1 } else { total_lines }).len() + 1,
        gutter_line(Some(n as usize), gutter_width(total_lines) - 1).len() == gutter_width(total_lines),
{
    let top: nat = if total_lines == 0 { 1 } else { total_lines };
    lemma_decimal_len_mono(n, top);
    let w = gutter_width(total_lines) - 1;
    assert(decimal((n as usize) as nat) == decimal(n));
    assert(pad_left(decimal(n), w).len() == w);
}

} // verus!
