//! Lua spec.
//!
//! Lua's block comment shares syntax with its long-bracket string
//! literal: `--[=*[ ... ]=*]`; both use the same level-counting scanner.

use vstd::prelude::*;

use super::{block, simple};
use crate::comments::spec::{BlockComment, LanguageSpec, LanguageView, StringLiteral, Syntax};

verus! {

/// The Lua language, as [`lua`] builds it.
pub open spec fn lua_language() -> LanguageView {
    LanguageView {
        names: seq!["lua"],
        extensions: seq!["lua"],
        syntax: Syntax {
            line_comments: seq!["--"],
            block_comments: seq![BlockComment { start: "--", end: "", nestable: false, long_bracket: true }],
            strings: seq![
                StringLiteral::LongBracket,
                StringLiteral::Simple { delim: '"', escape: Some('\\') },
                StringLiteral::Simple { delim: '\'', escape: Some('\\') },
            ],
        },
    }
}

/// Lua.
pub fn lua() -> (sp: LanguageSpec)
    ensures
        sp@ == lua_language(),
        sp.well_formed(),
{
    proof {
        reveal_strlit("--");
    }
    LanguageSpec {
        names: vec!["lua"],
        extensions: vec!["lua"],
        line_comments: vec!["--"],
        block_comments: vec![block("--", "", false, true)],
        strings: vec![StringLiteral::LongBracket, simple('"', Some('\\')), simple('\'', Some('\\'))],
    }
}

} // verus!
