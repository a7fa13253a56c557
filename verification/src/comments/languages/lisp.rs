//! Lisp-family specs.
//!
//! All use `;` as the line comment marker. Common Lisp, Scheme, and
//! Racket also have the nestable `#| |#` block comment.

use vstd::prelude::*;

use super::{block, simple};
use crate::comments::spec::{BlockComment, LanguageSpec, LanguageView, StringLiteral, Syntax};

verus! {

/// The Clojure language, as [`clojure`] builds it.
pub open spec fn clojure_language() -> LanguageView {
    LanguageView {
        names: seq!["clojure"],
        extensions: seq!["clj", "cljs", "cljc", "edn"],
        syntax: Syntax {
            line_comments: seq![";"],
            block_comments: seq![],
            strings: seq![StringLiteral::Simple { delim: '"', escape: Some('\\') }],
        },
    }
}

/// Clojure.
pub fn clojure() -> (sp: LanguageSpec)
    ensures
        sp@ == clojure_language(),
        sp.well_formed(),
{
    LanguageSpec {
        names: vec!["clojure"],
        extensions: vec!["clj", "cljs", "cljc", "edn"],
        line_comments: vec![";"],
        block_comments: vec![],
        strings: vec![simple('"', Some('\\'))],
    }
}

/// The Common Lisp language, as [`common_lisp`] builds it.
pub open spec fn common_lisp_language() -> LanguageView {
    LanguageView {
        names: seq!["common-lisp", "lisp"],
        extensions: seq!["lisp", "lsp", "cl"],
        syntax: Syntax {
            line_comments: seq![";"],
            block_comments: seq![BlockComment { start: "#|", end: "|#", nestable: true, long_bracket: false }],
            strings: seq![StringLiteral::Simple { delim: '"', escape: Some('\\') }],
        },
    }
}

/// Common Lisp.
pub fn common_lisp() -> (sp: LanguageSpec)
    ensures
        sp@ == common_lisp_language(),
        sp.well_formed(),
{
    proof {
        reveal_strlit("#|");
    }
    LanguageSpec {
        names: vec!["common-lisp", "lisp"],
        extensions: vec!["lisp", "lsp", "cl"],
        line_comments: vec![";"],
        block_comments: vec![block("#|", "|#", true, false)],
        strings: vec![simple('"', Some('\\'))],
    }
}

/// The Scheme language, as [`scheme`] builds it.
pub open spec fn scheme_language() -> LanguageView {
    LanguageView {
        names: seq!["scheme"],
        extensions: seq!["scm", "ss"],
        syntax: Syntax {
            line_comments: seq![";"],
            block_comments: seq![BlockComment { start: "#|", end: "|#", nestable: true, long_bracket: false }],
            strings: seq![StringLiteral::Simple { delim: '"', escape: Some('\\') }],
        },
    }
}

/// Scheme.
pub fn scheme() -> (sp: LanguageSpec)
    ensures
        sp@ == scheme_language(),
        sp.well_formed(),
{
    proof {
        reveal_strlit("#|");
    }
    LanguageSpec {
        names: vec!["scheme"],
        extensions: vec!["scm", "ss"],
        line_comments: vec![";"],
        block_comments: vec![block("#|", "|#", true, false)],
        strings: vec![simple('"', Some('\\'))],
    }
}

/// The Racket language, as [`racket`] builds it.
pub open spec fn racket_language() -> LanguageView {
    LanguageView {
        names: seq!["racket"],
        extensions: seq!["rkt"],
        syntax: Syntax {
            line_comments: seq![";"],
            block_comments: seq![BlockComment { start: "#|", end: "|#", nestable: true, long_bracket: false }],
            strings: seq![StringLiteral::Simple { delim: '"', escape: Some('\\') }],
        },
    }
}

/// Racket.
pub fn racket() -> (sp: LanguageSpec)
    ensures
        sp@ == racket_language(),
        sp.well_formed(),
{
    proof {
        reveal_strlit("#|");
    }
    LanguageSpec {
        names: vec!["racket"],
        extensions: vec!["rkt"],
        line_comments: vec![";"],
        block_comments: vec![block("#|", "|#", true, false)],
        strings: vec![simple('"', Some('\\'))],
    }
}

} // verus!
