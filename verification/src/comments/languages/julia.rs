//! Julia spec.
//!
//! Line comments are `#`. Block comments are `#= =#` (nestable).

use vstd::prelude::*;

use super::{block, simple};
use crate::comments::spec::{BlockComment, LanguageSpec, LanguageView, StringLiteral, Syntax};

verus! {

/// The Julia language, as [`julia`] builds it.
pub open spec fn julia_language() -> LanguageView {
    LanguageView {
        names: seq!["julia"],
        extensions: seq!["jl"],
        syntax: Syntax {
            line_comments: seq!["#"],
            block_comments: seq![BlockComment { start: "#=", end: "=#", nestable: true, long_bracket: false }],
            strings: seq![
                StringLiteral::Triple { delim: '"' },
                StringLiteral::Simple { delim: '"', escape: Some('\\') },
                StringLiteral::Simple { delim: '\'', escape: Some('\\') },
            ],
        },
    }
}

/// Julia.
pub fn julia() -> (sp: LanguageSpec)
    ensures
        sp@ == julia_language(),
        sp.well_formed(),
{
    proof {
        reveal_strlit("#=");
    }
    LanguageSpec {
        names: vec!["julia"],
        extensions: vec!["jl"],
        line_comments: vec!["#"],
        block_comments: vec![block("#=", "=#", true, false)],
        strings: vec![StringLiteral::Triple { delim: '"' }, simple('"', Some('\\')), simple('\'', Some('\\'))],
    }
}

} // verus!
