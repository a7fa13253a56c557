//! Built-in language specs.
//!
//! Each submodule declares one function per language returning its
//! [`LanguageSpec`]; the registry in [`super::registry`] lists them all.

pub mod c_family;
pub mod erlang;
pub mod hash_line;
pub mod haskell;
pub mod julia;
pub mod lisp;
pub mod lua;
pub mod markup;
pub mod misc;
pub mod ml;
pub mod sql;

use vstd::prelude::*;

use super::spec::{BlockComment, StringLiteral};

verus! {

/// A quoted string closed by `delim`, with an optional escape.
pub(crate) fn simple(delim: char, escape: Option<char>) -> (lit: StringLiteral)
    ensures
        lit == (StringLiteral::Simple { delim, escape }),
{
    StringLiteral::Simple { delim, escape }
}

/// A raw string opened by `prefix`, any number of `#` and `delim`.
pub(crate) fn raw_hash(prefix: &'static str, delim: char) -> (lit: StringLiteral)
    ensures
        lit == (StringLiteral::RawHash { prefix, delim }),
{
    StringLiteral::RawHash { prefix, delim }
}

/// A block comment shape.
pub(crate) fn block(start: &'static str, end: &'static str, nestable: bool, long_bracket: bool) -> (b: BlockComment)
    ensures
        b == (BlockComment { start, end, nestable, long_bracket }),
{
    BlockComment { start, end, nestable, long_bracket }
}

} // verus!
