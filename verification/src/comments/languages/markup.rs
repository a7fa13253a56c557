//! Markup-language specs (HTML, XML, SVG, Markdown).
//!
//! All four share the `<!-- -->` block comment and no line-comment
//! form. Fenced code blocks in Markdown aren't protected.

use vstd::prelude::*;

use super::block;
use crate::comments::spec::{BlockComment, LanguageSpec, LanguageView, Syntax};

verus! {

/// The HTML language, as [`html`] builds it.
pub open spec fn html_language() -> LanguageView {
    LanguageView {
        names: seq!["html"],
        extensions: seq!["html", "htm"],
        syntax: Syntax {
            line_comments: seq![],
            block_comments: seq![BlockComment { start: "<!--", end: "-->", nestable: false, long_bracket: false }],
            strings: seq![],
        },
    }
}

/// HTML.
pub fn html() -> (sp: LanguageSpec)
    ensures
        sp@ == html_language(),
        sp.well_formed(),
{
    proof {
        reveal_strlit("<!--");
    }
    LanguageSpec {
        names: vec!["html"],
        extensions: vec!["html", "htm"],
        line_comments: vec![],
        block_comments: vec![block("<!--", "-->", false, false)],
        strings: vec![],
    }
}

/// The XML language, as [`xml`] builds it.
pub open spec fn xml_language() -> LanguageView {
    LanguageView {
        names: seq!["xml"],
        extensions: seq!["xml"],
        syntax: Syntax {
            line_comments: seq![],
            block_comments: seq![BlockComment { start: "<!--", end: "-->", nestable: false, long_bracket: false }],
            strings: seq![],
        },
    }
}

/// XML.
pub fn xml() -> (sp: LanguageSpec)
    ensures
        sp@ == xml_language(),
        sp.well_formed(),
{
    proof {
        reveal_strlit("<!--");
    }
    LanguageSpec {
        names: vec!["xml"],
        extensions: vec!["xml"],
        line_comments: vec![],
        block_comments: vec![block("<!--", "-->", false, false)],
        strings: vec![],
    }
}

/// The SVG language, as [`svg`] builds it.
pub open spec fn svg_language() -> LanguageView {
    LanguageView {
        names: seq!["svg"],
        extensions: seq!["svg"],
        syntax: Syntax {
            line_comments: seq![],
            block_comments: seq![BlockComment { start: "<!--", end: "-->", nestable: false, long_bracket: false }],
            strings: seq![],
        },
    }
}

/// SVG.
pub fn svg() -> (sp: LanguageSpec)
    ensures
        sp@ == svg_language(),
        sp.well_formed(),
{
    proof {
        reveal_strlit("<!--");
    }
    LanguageSpec {
        names: vec!["svg"],
        extensions: vec!["svg"],
        line_comments: vec![],
        block_comments: vec![block("<!--", "-->", false, false)],
        strings: vec![],
    }
}

/// The Markdown language, as [`markdown`] builds it.
pub open spec fn markdown_language() -> LanguageView {
    LanguageView {
        names: seq!["markdown", "md"],
        extensions: seq!["md", "markdown"],
        syntax: Syntax {
            line_comments: seq![],
            block_comments: seq![BlockComment { start: "<!--", end: "-->", nestable: false, long_bracket: false }],
            strings: seq![],
        },
    }
}

/// Markdown.
pub fn markdown() -> (sp: LanguageSpec)
    ensures
        sp@ == markdown_language(),
        sp.well_formed(),
{
    proof {
        reveal_strlit("<!--");
    }
    LanguageSpec {
        names: vec!["markdown", "md"],
        extensions: vec!["md", "markdown"],
        line_comments: vec![],
        block_comments: vec![block("<!--", "-->", false, false)],
        strings: vec![],
    }
}

} // verus!
