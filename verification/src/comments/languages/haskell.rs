//! Haskell-family specs.
//!
//! Haskell, Elm, and PureScript all use `--` line comments and
//! nestable `{- -}` block comments.

use vstd::prelude::*;

use super::{block, simple};
use crate::comments::spec::{BlockComment, LanguageSpec, LanguageView, StringLiteral, Syntax};

verus! {

/// The Haskell language, as [`haskell`] builds it.
pub open spec fn haskell_language() -> LanguageView {
    LanguageView {
        names: seq!["haskell"],
        extensions: seq!["hs", "lhs"],
        syntax: Syntax {
            line_comments: seq!["--"],
            block_comments: seq![BlockComment { start: "{-", end: "-}", nestable: true, long_bracket: false }],
            strings: seq![
                StringLiteral::Simple { delim: '"', escape: Some('\\') },
                StringLiteral::Simple { delim: '\'', escape: Some('\\') },
            ],
        },
    }
}

/// Haskell.
pub fn haskell() -> (sp: LanguageSpec)
    ensures
        sp@ == haskell_language(),
        sp.well_formed(),
{
    proof {
        reveal_strlit("{-");
    }
    LanguageSpec {
        names: vec!["haskell"],
        extensions: vec!["hs", "lhs"],
        line_comments: vec!["--"],
        block_comments: vec![block("{-", "-}", true, false)],
        strings: vec![simple('"', Some('\\')), simple('\'', Some('\\'))],
    }
}

/// The Elm language, as [`elm`] builds it.
pub open spec fn elm_language() -> LanguageView {
    LanguageView {
        names: seq!["elm"],
        extensions: seq!["elm"],
        syntax: Syntax {
            line_comments: seq!["--"],
            block_comments: seq![BlockComment { start: "{-", end: "-}", nestable: true, long_bracket: false }],
            strings: seq![
                StringLiteral::Simple { delim: '"', escape: Some('\\') },
                StringLiteral::Simple { delim: '\'', escape: Some('\\') },
            ],
        },
    }
}

/// Elm.
pub fn elm() -> (sp: LanguageSpec)
    ensures
        sp@ == elm_language(),
        sp.well_formed(),
{
    proof {
        reveal_strlit("{-");
    }
    LanguageSpec {
        names: vec!["elm"],
        extensions: vec!["elm"],
        line_comments: vec!["--"],
        block_comments: vec![block("{-", "-}", true, false)],
        strings: vec![simple('"', Some('\\')), simple('\'', Some('\\'))],
    }
}

/// The PureScript language, as [`purescript`] builds it.
pub open spec fn purescript_language() -> LanguageView {
    LanguageView {
        names: seq!["purescript"],
        extensions: seq!["purs"],
        syntax: Syntax {
            line_comments: seq!["--"],
            block_comments: seq![BlockComment { start: "{-", end: "-}", nestable: true, long_bracket: false }],
            strings: seq![
                StringLiteral::Simple { delim: '"', escape: Some('\\') },
                StringLiteral::Simple { delim: '\'', escape: Some('\\') },
            ],
        },
    }
}

/// PureScript.
pub fn purescript() -> (sp: LanguageSpec)
    ensures
        sp@ == purescript_language(),
        sp.well_formed(),
{
    proof {
        reveal_strlit("{-");
    }
    LanguageSpec {
        names: vec!["purescript"],
        extensions: vec!["purs"],
        line_comments: vec!["--"],
        block_comments: vec![block("{-", "-}", true, false)],
        strings: vec![simple('"', Some('\\')), simple('\'', Some('\\'))],
    }
}

} // verus!
