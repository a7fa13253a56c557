//! Status footer text: page counter, elapsed time, accuracy and WPM.

use vstd::prelude::*;

use crate::chars::{push_str, string_of};
use crate::timer::{decimal, push_decimal};

verus! {

/// `current/total`.
pub open spec fn page_counter_text(current: nat, total: nat) -> Seq<char> {
    decimal(current) + seq!['/'] + decimal(total)
}

/// Two spaces, the elapsed time, two spaces, the accuracy percentage,
/// two spaces and the WPM: `  mm:ss  97%  42 WPM`.
pub open spec fn footer_stats_text(elapsed: Seq<char>, accuracy: nat, wpm: nat) -> Seq<char> {
    seq![' ', ' '] + elapsed + seq![' ', ' '] + decimal(accuracy) + seq!['%', ' ', ' '] + decimal(wpm) + seq![
        ' ',
        'W',
        'P',
        'M',
    ]
}

/// The page counter shown after the `Page: ` label.
pub fn page_counter(current: usize, total: usize) -> (s: String)
    ensures
        s@ == page_counter_text(current as nat, total as nat),
{
    let mut out: Vec<char> = Vec::new();
    push_decimal(current as u64, &mut out);
    out.push('/');
    push_decimal(total as u64, &mut out);
    assert(out@ =~= page_counter_text(current as nat, total as nat));
    string_of(out.as_slice())
}

/// The run statistics shown after the page counter.
pub fn footer_stats(elapsed: &str, accuracy: u8, wpm: u32) -> (s: String)
    ensures
        s@ == footer_stats_text(elapsed@, accuracy as nat, wpm as nat),
{
    let mut out: Vec<char> = Vec::new();
    out.push(' ');
    out.push(' ');
    push_str(&mut out, elapsed);
    out.push(' ');
    out.push(' ');
    push_decimal(accuracy as u64, &mut out);
    out.push('%');
    out.push(' ');
    out.push(' ');
    push_decimal(wpm as u64, &mut out);
    out.push(' ');
    out.push('W');
    out.push('P');
    out.push('M');
    assert(out@ =~= footer_stats_text(elapsed@, accuracy as nat, wpm as nat));
    string_of(out.as_slice())
}

} // verus!
