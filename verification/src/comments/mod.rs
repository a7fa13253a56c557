//! Optional comment stripping for source files.
//!
//! Public entry point: [`strip_by_extension`]. Given the source text and
//! a file extension, it looks up a built-in [`LanguageSpec`] and runs
//! the [`stripper`] engine. Unknown extensions yield `None` so callers
//! can fall back to the original text.

pub mod languages;
pub mod registry;
pub mod spec;
pub mod stripper;

pub use registry::lookup_by_extension;
pub use spec::LanguageSpec;

use vstd::prelude::*;

use self::registry::language_for;
use self::stripper::{strip, stripped};

verus! {

/// Strips comments from `raw` when `ext` names a known language.
///
/// Returns `Some(stripped)` when a language matches; `None` when the
/// extension is unknown or absent.
pub fn strip_by_extension(raw: &str, ext: Option<&str>) -> (r: Option<String>)
    ensures
        r is None <==> (ext is None || language_for(ext->0@) is None),
        r matches Some(out) ==> out@ == stripped(raw@, language_for(ext->0@)->0.syntax),
{
    let e = match ext {
        Some(e) => e,
        None => return None,
    };
    match lookup_by_extension(e) {
        Some(sp) => {
            let out = strip(raw, &sp);
            Some(out)
        },
        None => None,
    }
}

} // verus!
