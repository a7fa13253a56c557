//! Turning raw source text into the typing challenge.
//!
//! Trims trailing blank lines and whitespace so the run can finish the
//! moment the last visible character is typed, expands tabs to
//! [`TAB_WIDTH`] spaces, drops carriage returns, normalises a handful of
//! un-typeable typographic characters to their ASCII equivalents, and
//! rejects empty inputs. Reading the file from disk is the caller's job.

use vstd::prelude::*;

use crate::chars::chars_of;
use crate::comments::registry::language_for;
use crate::comments::strip_by_extension;
use crate::comments::stripper::stripped;

verus! {

/// Number of spaces each `\t` in the source expands to.
pub const TAB_WIDTH: usize = 2;

/// A source file loaded into memory with tabs expanded.
///
/// `content` is the expanded character sequence used by the typing
/// engine. `line_count` is the number of logical source lines.
/// `display_name` is the basename shown in the header.
#[derive(Debug, Clone)]
pub struct SourceFile {
    pub display_name: String,
    pub content: Vec<char>,
    pub line_count: usize,
}

/// Optional behaviours applied while loading.
#[derive(Debug, Clone, Copy)]
pub struct LoadOptions {
    /// When `true`, comments are removed from the raw text before any
    /// other processing, by the language of the file extension.
    pub strip_comments: bool,
}

impl Default for LoadOptions {
    fn default() -> (o: Self)
        ensures
            !o.strip_comments,
    {
        LoadOptions { strip_comments: false }
    }
}

/// Why a text cannot be played.
#[derive(Debug, Clone, Copy, PartialEq, Eq, Structural)]
pub enum LoadError {
    /// Nothing typeable is left after trimming.
    Empty,
}

impl LoadError {
    /// Human-readable description of the error.
    pub fn message(&self) -> (m: String)
        ensures
            m@ == "cannot play with an empty file"@,
    {
        String::from_str("cannot play with an empty file")
    }
}

/// The ASCII equivalent of a typographic character that a standard
/// keyboard can't produce; any other character is unchanged.
pub open spec fn normalized(c: char) -> char {
    if c == '\u{2013}' || c == '\u{2014}' {
        '-'
    } else if c == '\u{2018}' || c == '\u{2019}' {
        '\''
    } else if c == '\u{201C}' || c == '\u{201D}' {
        '"'
    } else if c == '\u{00A0}' || c == '\u{202F}' {
        ' '
    } else {
        c
    }
}

/// Characters trimmed from the end of the text.
pub open spec fn is_trailing_blank(c: char) -> bool {
    c == '\n' || c == '\r' || c == ' ' || c == '\t'
}

/// Length of `s` once its trailing blanks are trimmed, looking at the
/// first `n` characters.
pub open spec fn trimmed_len(s: Seq<char>, n: int) -> int
    decreases n,
{
    if n <= 0 {
        0
    } else if is_trailing_blank(s[n - 1]) {
        trimmed_len(s, n - 1)
    } else {
        n
    }
}

/// What one raw character becomes: a tab two spaces, a carriage return
/// nothing, anything else its normalised self.
pub open spec fn expand_char(c: char) -> Seq<char> {
    if c == '\t' {
        seq![' ', ' ']
    } else if c == '\r' {
        seq![]
    } else {
        seq![normalized(c)]
    }
}

/// The typing content for raw characters `s`.
pub open spec fn expanded(s: Seq<char>) -> Seq<char>
    decreases s.len(),
{
    if s.len() == 0 {
        seq![]
    } else {
        expanded(s.drop_last()) + expand_char(s.last())
    }
}

/// Number of `\n` in `s`.
pub open spec fn count_newlines(s: Seq<char>) -> int
    decreases s.len(),
{
    if s.len() == 0 {
        0
    } else {
        count_newlines(s.drop_last()) + if s.last() == '\n' { 1int } else { 0int }
    }
}

/// The outcome of preparing the raw text `raw`: the trimmed text must
/// keep at least one character; the content is its expansion and the
/// line count is one more than its newlines.
pub open spec fn parsed(raw: Seq<char>, r: Result<SourceFile, LoadError>) -> bool {
    let t = raw.take(trimmed_len(raw, raw.len() as int));
    match r {
        Ok(f) => t.len() > 0 && f.content@ == expanded(t) && f.line_count == count_newlines(t) + 1
            && f.display_name@ == Seq::<char>::empty(),
        Err(e) => t.len() == 0 && e == LoadError::Empty,
    }
}

/// Rewrites a typographic character to an ASCII equivalent that can be
/// typed on a standard keyboard.
fn normalize_char(c: char) -> (r: char)
    ensures
        r == normalized(c),
{
    if c == '\u{2013}' || c == '\u{2014}' {
        '-'
    } else if c == '\u{2018}' || c == '\u{2019}' {
        '\''
    } else if c == '\u{201C}' || c == '\u{201D}' {
        '"'
    } else if c == '\u{00A0}' || c == '\u{202F}' {
        ' '
    } else {
        c
    }
}

proof fn lemma_count_newlines_le(s: Seq<char>)
    ensures
        0 <= count_newlines(s) <= s.len(),
    decreases s.len(),
{
    if s.len() > 0 {
        lemma_count_newlines_le(s.drop_last());
    }
}

proof fn lemma_trimmed_len(s: Seq<char>, n: int)
    requires
        0 <= n <= s.len(),
    ensures
        0 <= trimmed_len(s, n) <= n,
        trimmed_len(s, n) > 0 ==> !is_trailing_blank(s[trimmed_len(s, n) - 1]),
    decreases n,
{
    if n > 0 && is_trailing_blank(s[n - 1]) {
        lemma_trimmed_len(s, n - 1);
    }
}

/// Trims trailing blank lines and whitespace, expands tabs, drops
/// carriage returns, normalises typographic characters and counts the
/// source lines. The display name is left empty.
///
/// Fails when nothing but blanks is left: you can't play a typing game
/// on a blank file.
pub fn parse(raw: &str) -> (r: Result<SourceFile, LoadError>)
    ensures
        parsed(raw@, r),
{
    let chars = chars_of(raw);
    parse_chars(&chars)
}

/// [`parse`] on text already split into characters.
fn parse_chars(chars: &Vec<char>) -> (r: Result<SourceFile, LoadError>)
    ensures
        parsed(chars@, r),
{
    let mut end = chars.len();
    while end > 0 && (chars[end - 1] == '\n' || chars[end - 1] == '\r' || chars[end - 1] == ' ' || chars[end - 1] == '\t')
        invariant
            end <= chars@.len(),
            trimmed_len(chars@, end as int) == trimmed_len(chars@, chars@.len() as int),
        decreases end,
    {
        end = end - 1;
    }
    let ghost t = chars@.take(end as int);
    let mut content: Vec<char> = Vec::new();
    let mut newlines: usize = 0;
    let mut i: usize = 0;
    while i < end
        invariant
            end <= chars@.len(),
            i <= end,
            t == chars@.take(end as int),
            content@ == expanded(t.take(i as int)),
            newlines == count_newlines(t.take(i as int)),
            newlines <= i,
        decreases end - i,
    {
        let c = chars[i];
        assert(t.take(i + 1).drop_last() =~= t.take(i as int));
        if c == '\t' {
            content.push(' ');
            content.push(' ');
        } else if c == '\r' {
        } else {
            content.push(normalize_char(c));
        }
        if c == '\n' {
            newlines = newlines + 1;
        }
        i = i + 1;
        assert(content@ =~= expanded(t.take(i as int)));
    }
    assert(t.take(end as int) =~= t);
    if end == 0 {
        return Err(LoadError::Empty);
    }
    proof {
        lemma_trimmed_len(chars@, chars@.len() as int);
        lemma_count_newlines_le(t.drop_last());
    }
    Ok(SourceFile { display_name: String::new(), content, line_count: newlines + 1 })
}

/// A blank that may fill a line with nothing typeable on it.
pub open spec fn is_line_blank(c: char) -> bool {
    c == ' ' || c == '\t' || c == '\r'
}

/// Scanning `s` from `i`, where everything before `i` is blank and
/// `start` follows the last newline seen: the position just past the
/// last newline that ends a run of blank lines at the start of `s`.
pub open spec fn blank_lines_end(s: Seq<char>, i: int, start: int) -> int
    decreases s.len() - i,
{
    if i < 0 || i >= s.len() {
        start
    } else if s[i] == '\n' {
        blank_lines_end(s, i + 1, i + 1)
    } else if is_line_blank(s[i]) {
        blank_lines_end(s, i + 1, start)
    } else {
        start
    }
}

/// `s` without the blank lines it starts with.
pub open spec fn without_leading_blank_lines(s: Seq<char>) -> Seq<char> {
    s.skip(blank_lines_end(s, 0, 0))
}

proof fn lemma_blank_lines_end_bounds(s: Seq<char>, i: int, start: int)
    requires
        0 <= start <= i <= s.len(),
    ensures
        start <= blank_lines_end(s, i, start) <= s.len(),
    decreases s.len() - i,
{
    if i < s.len() {
        if s[i] == '\n' {
            lemma_blank_lines_end_bounds(s, i + 1, i + 1);
        } else if is_line_blank(s[i]) {
            lemma_blank_lines_end_bounds(s, i + 1, start);
        }
    }
}

/// Drops the blank lines that `chars` starts with: those a removed
/// header comment leaves behind.
fn drop_leading_blank_lines(chars: &Vec<char>) -> (r: Vec<char>)
    ensures
        r@ == without_leading_blank_lines(chars@),
{
    let mut i: usize = 0;
    let mut start: usize = 0;
    while i < chars.len() && (chars[i] == '\n' || chars[i] == ' ' || chars[i] == '\t' || chars[i] == '\r')
        invariant
            start <= i <= chars@.len(),
            blank_lines_end(chars@, i as int, start as int) == blank_lines_end(chars@, 0, 0),
        decreases chars@.len() - i,
    {
        if chars[i] == '\n' {
            start = i + 1;
        }
        i = i + 1;
    }
    proof {
        lemma_blank_lines_end_bounds(chars@, i as int, start as int);
    }
    let mut out: Vec<char> = Vec::new();
    let mut k: usize = start;
    while k < chars.len()
        invariant
            start <= k <= chars@.len(),
            start == blank_lines_end(chars@, 0, 0),
            out@ == chars@.subrange(start as int, k as int),
        decreases chars@.len() - k,
    {
        out.push(chars[k]);
        k = k + 1;
    }
    out
}

/// The text that is played for the raw text `raw` of a file with
/// extension `ext`: with `strip` and an extension that names a built-in
/// language, the text with that language's comments stripped and the
/// blank lines left at the top dropped; otherwise `raw` itself.
pub open spec fn play_text(raw: Seq<char>, ext: Option<&str>, strip: bool) -> Seq<char> {
    if strip && ext is Some && language_for(ext->0@) is Some {
        without_leading_blank_lines(stripped(raw, language_for(ext->0@)->0.syntax))
    } else {
        raw
    }
}

/// Prepares the raw text of a file with extension `ext` for play.
///
/// With `opts.strip_comments` and an extension that names a known
/// language, comments are stripped first and the blank lines left at
/// the top are dropped, so the run starts on code; unknown languages
/// pass through unchanged. The result is then [`parse`]d. The display
/// name is left empty for the caller to fill in.
pub fn load_text(raw: &str, ext: Option<&str>, opts: LoadOptions) -> (r: Result<SourceFile, LoadError>)
    ensures
        parsed(play_text(raw@, ext, opts.strip_comments), r),
{
    if opts.strip_comments {
        match strip_by_extension(raw, ext) {
            Some(text) => {
                let chars = chars_of(text.as_str());
                let body = drop_leading_blank_lines(&chars);
                parse_chars(&body)
            },
            None => parse(raw),
        }
    } else {
        parse(raw)
    }
}

/// The content of a playable file ends on a visible character, so the
/// run can finish the moment it is typed: never a newline, tab or
/// carriage return, and a space only when the text ends in a no-break
/// space.
pub proof fn law_content_ends_visible(raw: Seq<char>, f: SourceFile)
    requires
        parsed(raw, Ok(f)),
    ensures
        f.content@.len() > 0,
        !is_trailing_blank(f.content@.last()) || (f.content@.last() == ' ' && ({
            let t = raw.take(trimmed_len(raw, raw.len() as int));
            t.last() == '\u{00A0}' || t.last() == '\u{202F}'
        })),
{
    let t = raw.take(trimmed_len(raw, raw.len() as int));
    lemma_trimmed_len(raw, raw.len() as int);
    assert(t.last() == raw[trimmed_len(raw, raw.len() as int) - 1]);
    assert(expanded(t) == expanded(t.drop_last()) + expand_char(t.last()));
}

/// A space, tab or carriage return: a character that leaves a line
/// blank.
pub open spec fn blank_char(c: char) -> bool {
    c == ' ' || c == '\t' || c == '\r'
}

/// `t` starts with a blank line: a line break with nothing but blanks
/// before it.
pub open spec fn starts_with_blank_line(t: Seq<char>) -> bool {
    exists|k: int| 0 <= k < t.len() && t[k] == '\n' && forall|j: int| 0 <= j < k ==> blank_char(#[trigger] t[j])
}

proof fn lemma_blank_lines_end_shape(s: Seq<char>, i: int, start: int)
    requires
        0 <= start <= i <= s.len(),
        start == 0 || s[start - 1] == '\n',
        forall|j: int| 0 <= j < start ==> blank_char(#[trigger] s[j]) || s[j] == '\n',
        forall|j: int| start <= j < i ==> blank_char(#[trigger] s[j]),
    ensures
        ({
            let d = blank_lines_end(s, i, start);
            &&& start <= d <= s.len()
            &&& d == 0 || s[d - 1] == '\n'
            &&& forall|j: int| 0 <= j < d ==> blank_char(#[trigger] s[j]) || s[j] == '\n'
            &&& !starts_with_blank_line(s.skip(d))
        }),
    decreases s.len() - i,
{
    if i < s.len() && s[i] == '\n' {
        lemma_blank_lines_end_shape(s, i + 1, i + 1);
    } else if i < s.len() && is_line_blank(s[i]) {
        lemma_blank_lines_end_shape(s, i + 1, start);
    } else {
        let d = start;
        let t = s.skip(d);
        if starts_with_blank_line(t) {
            let k = choose|k: int| 0 <= k < t.len() && t[k] == '\n' && forall|j: int| 0 <= j < k ==> blank_char(#[trigger] t[j]);
            if k + d < i {
                assert(blank_char(s[k + d]));
                assert(s[k + d] == t[k]);
            } else if i < s.len() {
                assert(t[i - d] == s[i]);
                assert(blank_char(t[i - d]));
            } else {
                assert(k + d < s.len());
            }
        }
    }
}

/// Dropping the leading blank lines removes whole lines made of blanks
/// only (spaces, tabs, carriage returns) and nothing else, and what is
/// left never starts with a blank line: `s` is the dropped lines
/// followed by the result.
pub proof fn law_no_leading_blank_line(s: Seq<char>)
    ensures
        ({
            let r = without_leading_blank_lines(s);
            let d = s.len() - r.len();
            &&& 0 <= d <= s.len()
            &&& s == s.take(d) + r
            &&& d == 0 || s[d - 1] == '\n'
            &&& forall|j: int| 0 <= j < d ==> blank_char(#[trigger] s[j]) || s[j] == '\n'
            &&& !starts_with_blank_line(r)
        }),
{
    lemma_blank_lines_end_shape(s, 0, 0);
    let d = blank_lines_end(s, 0, 0);
    assert(s.take(d) + s.skip(d) =~= s);
}

/// With comment stripping on a file of a known language, the text that
/// is played never starts with a blank line.
pub proof fn law_stripped_text_starts_on_content(raw: Seq<char>, ext: Option<&str>)
    requires
        ext is Some,
        language_for(ext->0@) is Some,
    ensures
        !starts_with_blank_line(play_text(raw, ext, true)),
{
    law_no_leading_blank_line(stripped(raw, language_for(ext->0@)->0.syntax));
}

} // verus!
