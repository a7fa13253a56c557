//! Specs that don't cluster into a bigger family.
//!
//! Nim (`#` line, `#[ ]#` nestable block), Crystal (`#` line),
//! Zig (`//` line), Gleam (`//` line).

use vstd::prelude::*;

use super::{block, simple};
use crate::comments::spec::{BlockComment, LanguageSpec, LanguageView, StringLiteral, Syntax};

verus! {

/// The Nim language, as [`nim`] builds it.
pub open spec fn nim_language() -> LanguageView {
    LanguageView {
        names: seq!["nim"],
        extensions: seq!["nim"],
        syntax: Syntax {
            line_comments: seq!["#"],
            block_comments: seq![BlockComment { start: "#[", end: "]#", nestable: true, long_bracket: false }],
            strings: seq![
                StringLiteral::Simple { delim: '"', escape: Some('\\') },
                StringLiteral::Simple { delim: '\'', escape: Some('\\') },
            ],
        },
    }
}

/// Nim.
pub fn nim() -> (sp: LanguageSpec)
    ensures
        sp@ == nim_language(),
        sp.well_formed(),
{
    proof {
        reveal_strlit("#[");
    }
    LanguageSpec {
        names: vec!["nim"],
        extensions: vec!["nim"],
        line_comments: vec!["#"],
        block_comments: vec![block("#[", "]#", true, false)],
        strings: vec![simple('"', Some('\\')), simple('\'', Some('\\'))],
    }
}

/// The Crystal language, as [`crystal`] builds it.
pub open spec fn crystal_language() -> LanguageView {
    LanguageView {
        names: seq!["crystal"],
        extensions: seq!["cr"],
        syntax: Syntax {
            line_comments: seq!["#"],
            block_comments: seq![],
            strings: seq![
                StringLiteral::Simple { delim: '"', escape: Some('\\') },
                StringLiteral::Simple { delim: '\'', escape: Some('\\') },
            ],
        },
    }
}

/// Crystal.
pub fn crystal() -> (sp: LanguageSpec)
    ensures
        sp@ == crystal_language(),
        sp.well_formed(),
{
    LanguageSpec {
        names: vec!["crystal"],
        extensions: vec!["cr"],
        line_comments: vec!["#"],
        block_comments: vec![],
        strings: vec![simple('"', Some('\\')), simple('\'', Some('\\'))],
    }
}

/// The Zig language, as [`zig`] builds it.
pub open spec fn zig_language() -> LanguageView {
    LanguageView {
        names: seq!["zig"],
        extensions: seq!["zig"],
        syntax: Syntax {
            line_comments: seq!["//"],
            block_comments: seq![],
            strings: seq![
                StringLiteral::Simple { delim: '"', escape: Some('\\') },
                StringLiteral::Simple { delim: '\'', escape: Some('\\') },
            ],
        },
    }
}

/// Zig.
pub fn zig() -> (sp: LanguageSpec)
    ensures
        sp@ == zig_language(),
        sp.well_formed(),
{
    LanguageSpec {
        names: vec!["zig"],
        extensions: vec!["zig"],
        line_comments: vec!["//"],
        block_comments: vec![],
        strings: vec![simple('"', Some('\\')), simple('\'', Some('\\'))],
    }
}

/// The Gleam language, as [`gleam`] builds it.
pub open spec fn gleam_language() -> LanguageView {
    LanguageView {
        names: seq!["gleam"],
        extensions: seq!["gleam"],
        syntax: Syntax {
            line_comments: seq!["//"],
            block_comments: seq![],
            strings: seq![
                StringLiteral::Simple { delim: '"', escape: Some('\\') },
                StringLiteral::Simple { delim: '\'', escape: Some('\\') },
            ],
        },
    }
}

/// Gleam.
pub fn gleam() -> (sp: LanguageSpec)
    ensures
        sp@ == gleam_language(),
        sp.well_formed(),
{
    LanguageSpec {
        names: vec!["gleam"],
        extensions: vec!["gleam"],
        line_comments: vec!["//"],
        block_comments: vec![],
        strings: vec![simple('"', Some('\\')), simple('\'', Some('\\'))],
    }
}

} // verus!
