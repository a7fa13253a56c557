//! C-family language specs.
//!
//! All members share `//` line comments and `/* */` block comments;
//! the differences live in whether blocks nest and what string
//! literals exist (raw strings in Rust, backticks in JS/TS, an
//! additional `#` line marker in PHP).

use vstd::prelude::*;

use super::{block, raw_hash, simple};
use crate::comments::spec::{BlockComment, LanguageSpec, LanguageView, StringLiteral, Syntax};
use crate::comments::stripper::{comment_mask, lemma_backtick_literal_is_code, step};

verus! {

/// The Rust language, as [`rust`] builds it.
pub open spec fn rust_language() -> LanguageView {
    LanguageView {
        names: seq!["rust"],
        extensions: seq!["rs"],
        syntax: Syntax {
            line_comments: seq!["//"],
            block_comments: seq![BlockComment { start: "/*", end: "*/", nestable: true, long_bracket: false }],
            strings: seq![
                StringLiteral::RawHash { prefix: "r", delim: '"' },
                StringLiteral::RawHash { prefix: "br", delim: '"' },
                StringLiteral::Simple { delim: '"', escape: Some('\\') },
                StringLiteral::Simple { delim: '\'', escape: Some('\\') },
            ],
        },
    }
}

/// Rust.
pub fn rust() -> (sp: LanguageSpec)
    ensures
        sp@ == rust_language(),
        sp.well_formed(),
{
    proof {
        reveal_strlit("/*");
    }
    LanguageSpec {
        names: vec!["rust"],
        extensions: vec!["rs"],
        line_comments: vec!["//"],
        block_comments: vec![block("/*", "*/", true, false)],
        strings: vec![raw_hash("r", '"'), raw_hash("br", '"'), simple('"', Some('\\')), simple('\'', Some('\\'))],
    }
}

/// The C language, as [`c`] builds it.
pub open spec fn c_language() -> LanguageView {
    LanguageView {
        names: seq!["c"],
        extensions: seq!["c", "h"],
        syntax: Syntax {
            line_comments: seq!["//"],
            block_comments: seq![BlockComment { start: "/*", end: "*/", nestable: false, long_bracket: false }],
            strings: seq![
                StringLiteral::Simple { delim: '"', escape: Some('\\') },
                StringLiteral::Simple { delim: '\'', escape: Some('\\') },
            ],
        },
    }
}

/// C.
pub fn c() -> (sp: LanguageSpec)
    ensures
        sp@ == c_language(),
        sp.well_formed(),
{
    proof {
        reveal_strlit("/*");
    }
    LanguageSpec {
        names: vec!["c"],
        extensions: vec!["c", "h"],
        line_comments: vec!["//"],
        block_comments: vec![block("/*", "*/", false, false)],
        strings: vec![simple('"', Some('\\')), simple('\'', Some('\\'))],
    }
}

/// The C++ language, as [`cpp`] builds it.
pub open spec fn cpp_language() -> LanguageView {
    LanguageView {
        names: seq!["cpp", "c++"],
        extensions: seq!["cpp", "cxx", "cc", "hpp", "hxx", "hh"],
        syntax: Syntax {
            line_comments: seq!["//"],
            block_comments: seq![BlockComment { start: "/*", end: "*/", nestable: false, long_bracket: false }],
            strings: seq![
                StringLiteral::Simple { delim: '"', escape: Some('\\') },
                StringLiteral::Simple { delim: '\'', escape: Some('\\') },
            ],
        },
    }
}

/// C++.
pub fn cpp() -> (sp: LanguageSpec)
    ensures
        sp@ == cpp_language(),
        sp.well_formed(),
{
    proof {
        reveal_strlit("/*");
    }
    LanguageSpec {
        names: vec!["cpp", "c++"],
        extensions: vec!["cpp", "cxx", "cc", "hpp", "hxx", "hh"],
        line_comments: vec!["//"],
        block_comments: vec![block("/*", "*/", false, false)],
        strings: vec![simple('"', Some('\\')), simple('\'', Some('\\'))],
    }
}

/// The Java language, as [`java`] builds it.
pub open spec fn java_language() -> LanguageView {
    LanguageView {
        names: seq!["java"],
        extensions: seq!["java"],
        syntax: Syntax {
            line_comments: seq!["//"],
            block_comments: seq![BlockComment { start: "/*", end: "*/", nestable: false, long_bracket: false }],
            strings: seq![
                StringLiteral::Simple { delim: '"', escape: Some('\\') },
                StringLiteral::Simple { delim: '\'', escape: Some('\\') },
            ],
        },
    }
}

/// Java.
pub fn java() -> (sp: LanguageSpec)
    ensures
        sp@ == java_language(),
        sp.well_formed(),
{
    proof {
        reveal_strlit("/*");
    }
    LanguageSpec {
        names: vec!["java"],
        extensions: vec!["java"],
        line_comments: vec!["//"],
        block_comments: vec![block("/*", "*/", false, false)],
        strings: vec![simple('"', Some('\\')), simple('\'', Some('\\'))],
    }
}

/// The JavaScript language, as [`javascript`] builds it.
pub open spec fn javascript_language() -> LanguageView {
    LanguageView {
        names: seq!["javascript", "js"],
        extensions: seq!["js", "mjs", "cjs", "jsx"],
        syntax: Syntax {
            line_comments: seq!["//"],
            block_comments: seq![BlockComment { start: "/*", end: "*/", nestable: false, long_bracket: false }],
            strings: seq![
                StringLiteral::Backtick,
                StringLiteral::Simple { delim: '"', escape: Some('\\') },
                StringLiteral::Simple { delim: '\'', escape: Some('\\') },
            ],
        },
    }
}

/// JavaScript.
pub fn javascript() -> (sp: LanguageSpec)
    ensures
        sp@ == javascript_language(),
        sp.well_formed(),
{
    proof {
        reveal_strlit("/*");
    }
    LanguageSpec {
        names: vec!["javascript", "js"],
        extensions: vec!["js", "mjs", "cjs", "jsx"],
        line_comments: vec!["//"],
        block_comments: vec![block("/*", "*/", false, false)],
        strings: vec![StringLiteral::Backtick, simple('"', Some('\\')), simple('\'', Some('\\'))],
    }
}

/// The TypeScript language, as [`typescript`] builds it.
pub open spec fn typescript_language() -> LanguageView {
    LanguageView {
        names: seq!["typescript", "ts"],
        extensions: seq!["ts", "tsx"],
        syntax: Syntax {
            line_comments: seq!["//"],
            block_comments: seq![BlockComment { start: "/*", end: "*/", nestable: false, long_bracket: false }],
            strings: seq![
                StringLiteral::Backtick,
                StringLiteral::Simple { delim: '"', escape: Some('\\') },
                StringLiteral::Simple { delim: '\'', escape: Some('\\') },
            ],
        },
    }
}

/// TypeScript.
pub fn typescript() -> (sp: LanguageSpec)
    ensures
        sp@ == typescript_language(),
        sp.well_formed(),
{
    proof {
        reveal_strlit("/*");
    }
    LanguageSpec {
        names: vec!["typescript", "ts"],
        extensions: vec!["ts", "tsx"],
        line_comments: vec!["//"],
        block_comments: vec![block("/*", "*/", false, false)],
        strings: vec![StringLiteral::Backtick, simple('"', Some('\\')), simple('\'', Some('\\'))],
    }
}

/// The Go language, as [`go`] builds it.
pub open spec fn go_language() -> LanguageView {
    LanguageView {
        names: seq!["go"],
        extensions: seq!["go"],
        syntax: Syntax {
            line_comments: seq!["//"],
            block_comments: seq![BlockComment { start: "/*", end: "*/", nestable: false, long_bracket: false }],
            strings: seq![
                StringLiteral::Backtick,
                StringLiteral::Simple { delim: '"', escape: Some('\\') },
                StringLiteral::Simple { delim: '\'', escape: Some('\\') },
            ],
        },
    }
}

/// Go.
pub fn go() -> (sp: LanguageSpec)
    ensures
        sp@ == go_language(),
        sp.well_formed(),
{
    proof {
        reveal_strlit("/*");
    }
    LanguageSpec {
        names: vec!["go"],
        extensions: vec!["go"],
        line_comments: vec!["//"],
        block_comments: vec![block("/*", "*/", false, false)],
        strings: vec![StringLiteral::Backtick, simple('"', Some('\\')), simple('\'', Some('\\'))],
    }
}

/// The Swift language, as [`swift`] builds it.
pub open spec fn swift_language() -> LanguageView {
    LanguageView {
        names: seq!["swift"],
        extensions: seq!["swift"],
        syntax: Syntax {
            line_comments: seq!["//"],
            block_comments: seq![BlockComment { start: "/*", end: "*/", nestable: true, long_bracket: false }],
            strings: seq![
                StringLiteral::Simple { delim: '"', escape: Some('\\') },
                StringLiteral::Simple { delim: '\'', escape: Some('\\') },
            ],
        },
    }
}

/// Swift.
pub fn swift() -> (sp: LanguageSpec)
    ensures
        sp@ == swift_language(),
        sp.well_formed(),
{
    proof {
        reveal_strlit("/*");
    }
    LanguageSpec {
        names: vec!["swift"],
        extensions: vec!["swift"],
        line_comments: vec!["//"],
        block_comments: vec![block("/*", "*/", true, false)],
        strings: vec![simple('"', Some('\\')), simple('\'', Some('\\'))],
    }
}

/// The Kotlin language, as [`kotlin`] builds it.
pub open spec fn kotlin_language() -> LanguageView {
    LanguageView {
        names: seq!["kotlin"],
        extensions: seq!["kt", "kts"],
        syntax: Syntax {
            line_comments: seq!["//"],
            block_comments: seq![BlockComment { start: "/*", end: "*/", nestable: true, long_bracket: false }],
            strings: seq![
                StringLiteral::Simple { delim: '"', escape: Some('\\') },
                StringLiteral::Simple { delim: '\'', escape: Some('\\') },
            ],
        },
    }
}

/// Kotlin.
pub fn kotlin() -> (sp: LanguageSpec)
    ensures
        sp@ == kotlin_language(),
        sp.well_formed(),
{
    proof {
        reveal_strlit("/*");
    }
    LanguageSpec {
        names: vec!["kotlin"],
        extensions: vec!["kt", "kts"],
        line_comments: vec!["//"],
        block_comments: vec![block("/*", "*/", true, false)],
        strings: vec![simple('"', Some('\\')), simple('\'', Some('\\'))],
    }
}

/// The Scala language, as [`scala`] builds it.
pub open spec fn scala_language() -> LanguageView {
    LanguageView {
        names: seq!["scala"],
        extensions: seq!["scala", "sc"],
        syntax: Syntax {
            line_comments: seq!["//"],
            block_comments: seq![BlockComment { start: "/*", end: "*/", nestable: true, long_bracket: false }],
            strings: seq![
                StringLiteral::Simple { delim: '"', escape: Some('\\') },
                StringLiteral::Simple { delim: '\'', escape: Some('\\') },
            ],
        },
    }
}

/// Scala.
pub fn scala() -> (sp: LanguageSpec)
    ensures
        sp@ == scala_language(),
        sp.well_formed(),
{
    proof {
        reveal_strlit("/*");
    }
    LanguageSpec {
        names: vec!["scala"],
        extensions: vec!["scala", "sc"],
        line_comments: vec!["//"],
        block_comments: vec![block("/*", "*/", true, false)],
        strings: vec![simple('"', Some('\\')), simple('\'', Some('\\'))],
    }
}

/// The C# language, as [`csharp`] builds it.
pub open spec fn csharp_language() -> LanguageView {
    LanguageView {
        names: seq!["csharp", "c#"],
        extensions: seq!["cs"],
        syntax: Syntax {
            line_comments: seq!["//"],
            block_comments: seq![BlockComment { start: "/*", end: "*/", nestable: false, long_bracket: false }],
            strings: seq![
                StringLiteral::Simple { delim: '"', escape: Some('\\') },
                StringLiteral::Simple { delim: '\'', escape: Some('\\') },
            ],
        },
    }
}

/// C#.
pub fn csharp() -> (sp: LanguageSpec)
    ensures
        sp@ == csharp_language(),
        sp.well_formed(),
{
    proof {
        reveal_strlit("/*");
    }
    LanguageSpec {
        names: vec!["csharp", "c#"],
        extensions: vec!["cs"],
        line_comments: vec!["//"],
        block_comments: vec![block("/*", "*/", false, false)],
        strings: vec![simple('"', Some('\\')), simple('\'', Some('\\'))],
    }
}

/// The Dart language, as [`dart`] builds it.
pub open spec fn dart_language() -> LanguageView {
    LanguageView {
        names: seq!["dart"],
        extensions: seq!["dart"],
        syntax: Syntax {
            line_comments: seq!["//"],
            block_comments: seq![BlockComment { start: "/*", end: "*/", nestable: true, long_bracket: false }],
            strings: seq![
                StringLiteral::Simple { delim: '"', escape: Some('\\') },
                StringLiteral::Simple { delim: '\'', escape: Some('\\') },
            ],
        },
    }
}

/// Dart.
pub fn dart() -> (sp: LanguageSpec)
    ensures
        sp@ == dart_language(),
        sp.well_formed(),
{
    proof {
        reveal_strlit("/*");
    }
    LanguageSpec {
        names: vec!["dart"],
        extensions: vec!["dart"],
        line_comments: vec!["//"],
        block_comments: vec![block("/*", "*/", true, false)],
        strings: vec![simple('"', Some('\\')), simple('\'', Some('\\'))],
    }
}

/// The PHP language, as [`php`] builds it.
pub open spec fn php_language() -> LanguageView {
    LanguageView {
        names: seq!["php"],
        extensions: seq!["php"],
        syntax: Syntax {
            line_comments: seq!["//", "#"],
            block_comments: seq![BlockComment { start: "/*", end: "*/", nestable: false, long_bracket: false }],
            strings: seq![
                StringLiteral::Simple { delim: '"', escape: Some('\\') },
                StringLiteral::Simple { delim: '\'', escape: Some('\\') },
            ],
        },
    }
}

/// PHP.
pub fn php() -> (sp: LanguageSpec)
    ensures
        sp@ == php_language(),
        sp.well_formed(),
{
    proof {
        reveal_strlit("/*");
    }
    LanguageSpec {
        names: vec!["php"],
        extensions: vec!["php"],
        line_comments: vec!["//", "#"],
        block_comments: vec![block("/*", "*/", false, false)],
        strings: vec![simple('"', Some('\\')), simple('\'', Some('\\'))],
    }
}

/// TypeScript reads comments and strings exactly as JavaScript does.
pub proof fn law_typescript_syntax_is_javascript()
    ensures
        typescript_language().syntax == javascript_language().syntax,
{
}

/// In JavaScript and TypeScript a backtick opens a template literal:
/// wherever the scan stands on a backtick, everything up to the closing
/// backtick (or the end of the text) is code, so comment markers inside
/// a template literal are never stripped.
pub proof fn law_template_literals_are_code(s: Seq<char>, i: int)
    requires
        0 <= i < s.len(),
        s[i] == '`',
    ensures
        ({
            let syn = typescript_language().syntax;
            let e = step(s, syn, i).0;
            &&& !step(s, syn, i).1
            &&& e == s.len() || (i + 2 <= e && s[e - 1] == '`')
            &&& forall|j: int| i <= j < e ==> !#[trigger] comment_mask(s, syn, i)[j - i]
        }),
        ({
            let syn = javascript_language().syntax;
            let e = step(s, syn, i).0;
            &&& !step(s, syn, i).1
            &&& e == s.len() || (i + 2 <= e && s[e - 1] == '`')
            &&& forall|j: int| i <= j < e ==> !#[trigger] comment_mask(s, syn, i)[j - i]
        }),
{
    reveal_strlit("/*");
    assert(typescript_language().syntax.well_formed());
    assert(javascript_language().syntax.well_formed());
    lemma_backtick_literal_is_code(s, typescript_language().syntax, i);
    lemma_backtick_literal_is_code(s, javascript_language().syntax, i);
}

} // verus!
