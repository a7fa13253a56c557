//! SQL spec.

use vstd::prelude::*;

use super::{block, simple};
use crate::comments::spec::{BlockComment, LanguageSpec, LanguageView, StringLiteral, Syntax};

verus! {

/// The SQL language, as [`sql`] builds it.
pub open spec fn sql_language() -> LanguageView {
    LanguageView {
        names: seq!["sql"],
        extensions: seq!["sql"],
        syntax: Syntax {
            line_comments: seq!["--"],
            block_comments: seq![BlockComment { start: "/*", end: "*/", nestable: false, long_bracket: false }],
            strings: seq![StringLiteral::Simple { delim: '\'', escape: Some('\\') }],
        },
    }
}

/// SQL.
pub fn sql() -> (sp: LanguageSpec)
    ensures
        sp@ == sql_language(),
        sp.well_formed(),
{
    proof {
        reveal_strlit("/*");
    }
    LanguageSpec {
        names: vec!["sql"],
        extensions: vec!["sql"],
        line_comments: vec!["--"],
        block_comments: vec![block("/*", "*/", false, false)],
        strings: vec![simple('\'', Some('\\'))],
    }
}

} // verus!
