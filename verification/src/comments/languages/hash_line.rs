//! Hash-line language specs.
//!
//! Languages that use `#` as their primary line-comment marker. Ruby
//! and Perl also have a block-comment form (`=begin/=end`,
//! `=pod/=cut`), matched anywhere on the line for simplicity.

use vstd::prelude::*;

use super::{block, simple};
use crate::comments::spec::{BlockComment, LanguageSpec, LanguageView, StringLiteral, Syntax};

verus! {

/// The Python language, as [`python`] builds it.
pub open spec fn python_language() -> LanguageView {
    LanguageView {
        names: seq!["python"],
        extensions: seq!["py", "pyw", "pyi"],
        syntax: Syntax {
            line_comments: seq!["#"],
            block_comments: seq![],
            strings: seq![
                StringLiteral::Triple { delim: '"' },
                StringLiteral::Triple { delim: '\'' },
                StringLiteral::Simple { delim: '"', escape: Some('\\') },
                StringLiteral::Simple { delim: '\'', escape: Some('\\') },
            ],
        },
    }
}

/// Python.
pub fn python() -> (sp: LanguageSpec)
    ensures
        sp@ == python_language(),
        sp.well_formed(),
{
    LanguageSpec {
        names: vec!["python"],
        extensions: vec!["py", "pyw", "pyi"],
        line_comments: vec!["#"],
        block_comments: vec![],
        strings: vec![StringLiteral::Triple { delim: '"' }, StringLiteral::Triple { delim: '\'' }, simple('"', Some('\\')), simple('\'', Some('\\'))],
    }
}

/// The Ruby language, as [`ruby`] builds it.
pub open spec fn ruby_language() -> LanguageView {
    LanguageView {
        names: seq!["ruby"],
        extensions: seq!["rb"],
        syntax: Syntax {
            line_comments: seq!["#"],
            block_comments: seq![
                BlockComment { start: "=begin", end: "=end", nestable: false, long_bracket: false },
            ],
            strings: seq![
                StringLiteral::Simple { delim: '"', escape: Some('\\') },
                StringLiteral::Simple { delim: '\'', escape: Some('\\') },
            ],
        },
    }
}

/// Ruby.
pub fn ruby() -> (sp: LanguageSpec)
    ensures
        sp@ == ruby_language(),
        sp.well_formed(),
{
    proof {
        reveal_strlit("=begin");
    }
    LanguageSpec {
        names: vec!["ruby"],
        extensions: vec!["rb"],
        line_comments: vec!["#"],
        block_comments: vec![block("=begin", "=end", false, false)],
        strings: vec![simple('"', Some('\\')), simple('\'', Some('\\'))],
    }
}

/// The Bash and other POSIX-ish shells language, as [`bash`] builds it.
pub open spec fn bash_language() -> LanguageView {
    LanguageView {
        names: seq!["bash"],
        extensions: seq!["sh", "bash", "zsh"],
        syntax: Syntax {
            line_comments: seq!["#"],
            block_comments: seq![],
            strings: seq![
                StringLiteral::Simple { delim: '"', escape: Some('\\') },
                StringLiteral::Simple { delim: '\'', escape: Some('\\') },
            ],
        },
    }
}

/// Bash and other POSIX-ish shells.
pub fn bash() -> (sp: LanguageSpec)
    ensures
        sp@ == bash_language(),
        sp.well_formed(),
{
    LanguageSpec {
        names: vec!["bash"],
        extensions: vec!["sh", "bash", "zsh"],
        line_comments: vec!["#"],
        block_comments: vec![],
        strings: vec![simple('"', Some('\\')), simple('\'', Some('\\'))],
    }
}

/// The Fish language, as [`fish`] builds it.
pub open spec fn fish_language() -> LanguageView {
    LanguageView {
        names: seq!["fish"],
        extensions: seq!["fish"],
        syntax: Syntax {
            line_comments: seq!["#"],
            block_comments: seq![],
            strings: seq![
                StringLiteral::Simple { delim: '"', escape: Some('\\') },
                StringLiteral::Simple { delim: '\'', escape: Some('\\') },
            ],
        },
    }
}

/// Fish.
pub fn fish() -> (sp: LanguageSpec)
    ensures
        sp@ == fish_language(),
        sp.well_formed(),
{
    LanguageSpec {
        names: vec!["fish"],
        extensions: vec!["fish"],
        line_comments: vec!["#"],
        block_comments: vec![],
        strings: vec![simple('"', Some('\\')), simple('\'', Some('\\'))],
    }
}

/// The Elixir language, as [`elixir`] builds it.
pub open spec fn elixir_language() -> LanguageView {
    LanguageView {
        names: seq!["elixir"],
        extensions: seq!["ex", "exs"],
        syntax: Syntax {
            line_comments: seq!["#"],
            block_comments: seq![],
            strings: seq![
                StringLiteral::Triple { delim: '"' },
                StringLiteral::Triple { delim: '\'' },
                StringLiteral::Simple { delim: '"', escape: Some('\\') },
                StringLiteral::Simple { delim: '\'', escape: Some('\\') },
            ],
        },
    }
}

/// Elixir.
pub fn elixir() -> (sp: LanguageSpec)
    ensures
        sp@ == elixir_language(),
        sp.well_formed(),
{
    LanguageSpec {
        names: vec!["elixir"],
        extensions: vec!["ex", "exs"],
        line_comments: vec!["#"],
        block_comments: vec![],
        strings: vec![StringLiteral::Triple { delim: '"' }, StringLiteral::Triple { delim: '\'' }, simple('"', Some('\\')), simple('\'', Some('\\'))],
    }
}

/// The R language, as [`r`] builds it.
pub open spec fn r_language() -> LanguageView {
    LanguageView {
        names: seq!["r"],
        extensions: seq!["r"],
        syntax: Syntax {
            line_comments: seq!["#"],
            block_comments: seq![],
            strings: seq![
                StringLiteral::Simple { delim: '"', escape: Some('\\') },
                StringLiteral::Simple { delim: '\'', escape: Some('\\') },
            ],
        },
    }
}

/// R.
pub fn r() -> (sp: LanguageSpec)
    ensures
        sp@ == r_language(),
        sp.well_formed(),
{
    LanguageSpec {
        names: vec!["r"],
        extensions: vec!["r"],
        line_comments: vec!["#"],
        block_comments: vec![],
        strings: vec![simple('"', Some('\\')), simple('\'', Some('\\'))],
    }
}

/// The Perl language, as [`perl`] builds it.
pub open spec fn perl_language() -> LanguageView {
    LanguageView {
        names: seq!["perl"],
        extensions: seq!["pl", "pm"],
        syntax: Syntax {
            line_comments: seq!["#"],
            block_comments: seq![BlockComment { start: "=pod", end: "=cut", nestable: false, long_bracket: false }],
            strings: seq![
                StringLiteral::Simple { delim: '"', escape: Some('\\') },
                StringLiteral::Simple { delim: '\'', escape: Some('\\') },
            ],
        },
    }
}

/// Perl.
pub fn perl() -> (sp: LanguageSpec)
    ensures
        sp@ == perl_language(),
        sp.well_formed(),
{
    proof {
        reveal_strlit("=pod");
    }
    LanguageSpec {
        names: vec!["perl"],
        extensions: vec!["pl", "pm"],
        line_comments: vec!["#"],
        block_comments: vec![block("=pod", "=cut", false, false)],
        strings: vec![simple('"', Some('\\')), simple('\'', Some('\\'))],
    }
}

} // verus!
