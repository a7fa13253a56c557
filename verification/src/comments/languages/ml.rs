//! ML-family specs (OCaml, F#, SML).
//!
//! All use nestable `(* *)` block comments. OCaml and SML have no
//! line comment; F# adds `//`.

use vstd::prelude::*;

use super::{block, simple};
use crate::comments::spec::{BlockComment, LanguageSpec, LanguageView, StringLiteral, Syntax};

verus! {

/// The OCaml language, as [`ocaml`] builds it.
pub open spec fn ocaml_language() -> LanguageView {
    LanguageView {
        names: seq!["ocaml"],
        extensions: seq!["ml", "mli"],
        syntax: Syntax {
            line_comments: seq![],
            block_comments: seq![BlockComment { start: "(*", end: "*)", nestable: true, long_bracket: false }],
            strings: seq![StringLiteral::Simple { delim: '"', escape: Some('\\') }],
        },
    }
}

/// OCaml.
pub fn ocaml() -> (sp: LanguageSpec)
    ensures
        sp@ == ocaml_language(),
        sp.well_formed(),
{
    proof {
        reveal_strlit("(*");
    }
    LanguageSpec {
        names: vec!["ocaml"],
        extensions: vec!["ml", "mli"],
        line_comments: vec![],
        block_comments: vec![block("(*", "*)", true, false)],
        strings: vec![simple('"', Some('\\'))],
    }
}

/// The F# language, as [`fsharp`] builds it.
pub open spec fn fsharp_language() -> LanguageView {
    LanguageView {
        names: seq!["fsharp", "f#"],
        extensions: seq!["fs", "fsi", "fsx"],
        syntax: Syntax {
            line_comments: seq!["//"],
            block_comments: seq![BlockComment { start: "(*", end: "*)", nestable: true, long_bracket: false }],
            strings: seq![StringLiteral::Simple { delim: '"', escape: Some('\\') }],
        },
    }
}

/// F#.
pub fn fsharp() -> (sp: LanguageSpec)
    ensures
        sp@ == fsharp_language(),
        sp.well_formed(),
{
    proof {
        reveal_strlit("(*");
    }
    LanguageSpec {
        names: vec!["fsharp", "f#"],
        extensions: vec!["fs", "fsi", "fsx"],
        line_comments: vec!["//"],
        block_comments: vec![block("(*", "*)", true, false)],
        strings: vec![simple('"', Some('\\'))],
    }
}

/// The Standard ML language, as [`sml`] builds it.
pub open spec fn sml_language() -> LanguageView {
    LanguageView {
        names: seq!["sml", "standard-ml"],
        extensions: seq!["sml"],
        syntax: Syntax {
            line_comments: seq![],
            block_comments: seq![BlockComment { start: "(*", end: "*)", nestable: true, long_bracket: false }],
            strings: seq![StringLiteral::Simple { delim: '"', escape: Some('\\') }],
        },
    }
}

/// Standard ML.
pub fn sml() -> (sp: LanguageSpec)
    ensures
        sp@ == sml_language(),
        sp.well_formed(),
{
    proof {
        reveal_strlit("(*");
    }
    LanguageSpec {
        names: vec!["sml", "standard-ml"],
        extensions: vec!["sml"],
        line_comments: vec![],
        block_comments: vec![block("(*", "*)", true, false)],
        strings: vec![simple('"', Some('\\'))],
    }
}

} // verus!
