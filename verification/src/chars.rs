//! Conversions between text and character sequences.

use vstd::prelude::*;

verus! {

/// Collects the characters of `s` into a vector, in order.
pub fn chars_of(s: &str) -> (v: Vec<char>)
    ensures
        v@ == s@,
{
    let mut v: Vec<char> = Vec::new();
    for c in it: s.chars()
        invariant
            it.seq() == s@,
            v@ == it.seq().take(it.index()),
    {
        v.push(c);
    }
    v
}

/// Builds a `String` holding exactly `chars`, in order.
///
/// Trusted: calls std's `FromIterator<&char>` impl for `String`, which
/// appends each character in turn; the contract claims only that the
/// resulting string's characters are `chars`.
#[verifier::external_body]
pub fn string_of(chars: &[char]) -> (s: String)
    ensures
        s@ == chars@,
{
    chars.iter().collect()
}

/// `n` spaces.
pub open spec fn spaces(n: int) -> Seq<char> {
    Seq::new(if n > 0 { n as nat } else { 0 }, |_i: int| ' ')
}

/// `s` right-aligned in a field of `w` characters: spaces in front
/// while it is shorter.
pub open spec fn pad_left(s: Seq<char>, w: int) -> Seq<char> {
    spaces(w - s.len()) + s
}

/// `s` left-aligned in a field of `w` characters: spaces after it
/// while it is shorter.
pub open spec fn pad_right(s: Seq<char>, w: int) -> Seq<char> {
    s + spaces(w - s.len())
}

/// Appends `n` spaces to `out`.
pub fn push_spaces(out: &mut Vec<char>, n: usize)
    ensures
        final(out)@ == old(out)@ + spaces(n as int),
{
    let mut k: usize = 0;
    while k < n
        invariant
            k <= n,
            out@ == old(out)@ + spaces(k as int),
        decreases n - k,
    {
        out.push(' ');
        k = k + 1;
        assert(out@ =~= old(out)@ + spaces(k as int));
    }
}

/// Appends the characters of `s` to `out`.
pub fn push_str(out: &mut Vec<char>, s: &str)
    ensures
        final(out)@ == old(out)@ + s@,
{
    let cs = chars_of(s);
    let mut k: usize = 0;
    while k < cs.len()
        invariant
            k <= cs@.len(),
            cs@ == s@,
            out@ == old(out)@ + s@.take(k as int),
        decreases cs@.len() - k,
    {
        out.push(cs[k]);
        k = k + 1;
        assert(out@ =~= old(out)@ + s@.take(k as int));
    }
    assert(s@.take(k as int) =~= s@);
}

/// Appends `s` right-aligned in a field of `w` characters to `out`.
pub fn push_padded_left(out: &mut Vec<char>, s: &Vec<char>, w: usize)
    ensures
        final(out)@ == old(out)@ + pad_left(s@, w as int),
{
    let pad = if s.len() < w { w - s.len() } else { 0 };
    push_spaces(out, pad);
    let mut k: usize = 0;
    let ghost mid = out@;
    while k < s.len()
        invariant
            k <= s@.len(),
            out@ == mid + s@.take(k as int),
        decreases s@.len() - k,
    {
        out.push(s[k]);
        k = k + 1;
        assert(out@ =~= mid + s@.take(k as int));
    }
    assert(s@.take(k as int) =~= s@);
    assert(spaces(pad as int) =~= spaces(w - s@.len()));
}

/// Appends `s` left-aligned in a field of `w` characters to `out`.
pub fn push_padded_right(out: &mut Vec<char>, s: &str, w: usize)
    ensures
        final(out)@ == old(out)@ + pad_right(s@, w as int),
{
    let n = chars_of(s).len();
    push_str(out, s);
    let pad = if n < w { w - n } else { 0 };
    push_spaces(out, pad);
    assert(spaces(pad as int) =~= spaces(w - s@.len()));
}

} // verus!
