//! Language description used by the comment stripper.
//!
//! Each supported language is a [`LanguageSpec`] built by a function
//! under [`crate::comments::languages`]. The stripper engine never
//! grows when a new language is added; only the registry does.

use vstd::prelude::*;

verus! {

/// Complete description of a language's comment and string syntax.
///
/// Lookups go through `extensions`; `names` is reserved for a manual
/// override and config-file references.
#[derive(Debug, Clone)]
pub struct LanguageSpec {
    pub names: Vec<&'static str>,
    pub extensions: Vec<&'static str>,
    pub line_comments: Vec<&'static str>,
    pub block_comments: Vec<BlockComment>,
    pub strings: Vec<StringLiteral>,
}

/// One block-comment shape supported by a language.
///
/// `nestable` balances `/* /* */ */`. `long_bracket` switches the
/// matcher to Lua's `--[=*[ ... ]=*]` form, where the open and close
/// must agree on the count of `=` characters (`end` is then unused).
#[derive(Debug, Clone, Copy)]
pub struct BlockComment {
    pub start: &'static str,
    pub end: &'static str,
    pub nestable: bool,
    pub long_bracket: bool,
}

/// One string-literal shape the stripper must skip past so it doesn't
/// trip over a comment marker that lives inside source-code data.
#[derive(Debug, Clone, Copy)]
pub enum StringLiteral {
    /// `"..."` or `'...'`, optionally honouring an escape character.
    Simple { delim: char, escape: Option<char> },
    /// Python-style triple-quoted string (`"""..."""` or `'''...'''`).
    Triple { delim: char },
    /// JavaScript template literal with backslash escapes.
    Backtick,
    /// Rust raw string: `r"..."`, `r#"..."#`, ...; the close needs the
    /// same number of `#` as the opening sequence.
    RawHash { prefix: &'static str, delim: char },
    /// Lua long bracket string `[=*[ ... ]=*]`.
    LongBracket,
}

/// The comment and string syntax of a language: everything the
/// stripper reads.
#[verifier::ext_equal]
pub struct Syntax {
    pub line_comments: Seq<&'static str>,
    pub block_comments: Seq<BlockComment>,
    pub strings: Seq<StringLiteral>,
}

/// Abstract view of a [`LanguageSpec`].
#[verifier::ext_equal]
pub struct LanguageView {
    pub names: Seq<&'static str>,
    pub extensions: Seq<&'static str>,
    pub syntax: Syntax,
}

impl View for LanguageSpec {
    type V = LanguageView;

    open spec fn view(&self) -> LanguageView {
        LanguageView {
            names: self.names@,
            extensions: self.extensions@,
            syntax: Syntax {
                line_comments: self.line_comments@,
                block_comments: self.block_comments@,
                strings: self.strings@,
            },
        }
    }
}

impl BlockComment {
    /// Scanning for this block comment always moves past where it
    /// opens: it has a start marker, or it is a long bracket, or, when
    /// the start marker is empty, it does not nest and has an end marker.
    pub open spec fn makes_progress(self) -> bool {
        self.long_bracket || self.start@.len() > 0 || (!self.nestable && self.end@.len() > 0)
    }
}

impl Syntax {
    /// Every block comment makes progress, so the scanner always does.
    pub open spec fn well_formed(self) -> bool {
        forall|k: int| 0 <= k < self.block_comments.len() ==> (#[trigger] self.block_comments[k]).makes_progress()
    }
}

impl LanguageSpec {
    /// The language's syntax is well formed.
    pub open spec fn well_formed(&self) -> bool {
        self@.syntax.well_formed()
    }
}

} // verus!
