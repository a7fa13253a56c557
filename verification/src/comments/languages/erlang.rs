//! Erlang spec. Uses `%` as the line comment marker.

use vstd::prelude::*;

use super::simple;
use crate::comments::spec::{LanguageSpec, LanguageView, StringLiteral, Syntax};

verus! {

/// The Erlang language, as [`erlang`] builds it.
pub open spec fn erlang_language() -> LanguageView {
    LanguageView {
        names: seq!["erlang"],
        extensions: seq!["erl", "hrl"],
        syntax: Syntax {
            line_comments: seq!["%"],
            block_comments: seq![],
            strings: seq![
                StringLiteral::Simple { delim: '"', escape: Some('\\') },
                StringLiteral::Simple { delim: '\'', escape: Some('\\') },
            ],
        },
    }
}

/// Erlang.
pub fn erlang() -> (sp: LanguageSpec)
    ensures
        sp@ == erlang_language(),
        sp.well_formed(),
{
    LanguageSpec {
        names: vec!["erlang"],
        extensions: vec!["erl", "hrl"],
        line_comments: vec!["%"],
        block_comments: vec![],
        strings: vec![simple('"', Some('\\')), simple('\'', Some('\\'))],
    }
}

} // verus!
