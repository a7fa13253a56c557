//! Built-in language registry.
//!
//! [`all`] is the single source of truth for which languages the
//! stripper knows about out of the box.

use vstd::prelude::*;

use super::languages::c_family;
use super::languages::hash_line;
use super::languages::erlang;
use super::languages::haskell;
use super::languages::julia;
use super::languages::lisp;
use super::languages::lua;
use super::languages::markup;
use super::languages::misc;
use super::languages::ml;
use super::languages::sql;
use super::spec::{LanguageSpec, LanguageView};
use crate::chars::chars_of;

verus! {

/// Every language the built-in stripper recognises, in lookup order.
pub open spec fn builtin_languages() -> Seq<LanguageView> {
    seq![
        c_family::rust_language(),
        c_family::c_language(),
        c_family::cpp_language(),
        c_family::java_language(),
        c_family::javascript_language(),
        c_family::typescript_language(),
        c_family::go_language(),
        c_family::swift_language(),
        c_family::kotlin_language(),
        c_family::scala_language(),
        c_family::csharp_language(),
        c_family::dart_language(),
        c_family::php_language(),
        hash_line::python_language(),
        hash_line::ruby_language(),
        hash_line::bash_language(),
        hash_line::fish_language(),
        hash_line::elixir_language(),
        hash_line::r_language(),
        hash_line::perl_language(),
        erlang::erlang_language(),
        haskell::haskell_language(),
        haskell::elm_language(),
        haskell::purescript_language(),
        julia::julia_language(),
        lisp::clojure_language(),
        lisp::common_lisp_language(),
        lisp::scheme_language(),
        lisp::racket_language(),
        lua::lua_language(),
        markup::html_language(),
        markup::xml_language(),
        markup::svg_language(),
        markup::markdown_language(),
        misc::nim_language(),
        misc::crystal_language(),
        misc::zig_language(),
        misc::gleam_language(),
        ml::ocaml_language(),
        ml::fsharp_language(),
        ml::sml_language(),
        sql::sql_language(),
    ]
}

/// The views of `langs`, in order.
pub open spec fn views(langs: Seq<LanguageSpec>) -> Seq<LanguageView> {
    langs.map_values(|l: LanguageSpec| l@)
}

/// Every language the built-in stripper recognises, in lookup order.
#[verifier::rlimit(50)]
pub fn all() -> (v: Vec<LanguageSpec>)
    ensures
        views(v@) == builtin_languages(),
        forall|i: int| 0 <= i < v@.len() ==> (#[trigger] v@[i]).well_formed(),
{
    let mut v: Vec<LanguageSpec> = Vec::new();
    v.push(c_family::rust());
    v.push(c_family::c());
    v.push(c_family::cpp());
    v.push(c_family::java());
    v.push(c_family::javascript());
    v.push(c_family::typescript());
    v.push(c_family::go());
    v.push(c_family::swift());
    v.push(c_family::kotlin());
    v.push(c_family::scala());
    v.push(c_family::csharp());
    v.push(c_family::dart());
    v.push(c_family::php());
    v.push(hash_line::python());
    v.push(hash_line::ruby());
    v.push(hash_line::bash());
    v.push(hash_line::fish());
    v.push(hash_line::elixir());
    v.push(hash_line::r());
    v.push(hash_line::perl());
    v.push(erlang::erlang());
    v.push(haskell::haskell());
    v.push(haskell::elm());
    v.push(haskell::purescript());
    v.push(julia::julia());
    v.push(lisp::clojure());
    v.push(lisp::common_lisp());
    v.push(lisp::scheme());
    v.push(lisp::racket());
    v.push(lua::lua());
    v.push(markup::html());
    v.push(markup::xml());
    v.push(markup::svg());
    v.push(markup::markdown());
    v.push(misc::nim());
    v.push(misc::crystal());
    v.push(misc::zig());
    v.push(misc::gleam());
    v.push(ml::ocaml());
    v.push(ml::fsharp());
    v.push(ml::sml());
    v.push(sql::sql());
    assert(views(v@) =~= builtin_languages());
    v
}

/// `c` lower-cased if it is an ASCII capital letter.
pub open spec fn ascii_lower(c: char) -> char {
    if 'A' <= c && c <= 'Z' {
        ((c as int) + 32) as char
    } else {
        c
    }
}

/// `a` and `b` are equal ignoring ASCII case.
pub open spec fn eq_ignore_ascii_case(a: Seq<char>, b: Seq<char>) -> bool {
    a.len() == b.len() && forall|k: int| 0 <= k < a.len() ==> #[trigger] ascii_lower(a[k]) == ascii_lower(b[k])
}

/// Language `l` lists the extension `ext`, ignoring ASCII case.
pub open spec fn has_extension(l: LanguageView, ext: Seq<char>) -> bool {
    exists|k: int| 0 <= k < l.extensions.len() && eq_ignore_ascii_case(#[trigger] l.extensions[k]@, ext)
}

/// The first language of `langs` from index `i` on that lists `ext`.
pub open spec fn first_listing(langs: Seq<LanguageView>, ext: Seq<char>, i: int) -> Option<LanguageView>
    decreases langs.len() - i,
{
    if i < 0 || i >= langs.len() {
        None
    } else if has_extension(langs[i], ext) {
        Some(langs[i])
    } else {
        first_listing(langs, ext, i + 1)
    }
}

/// The built-in language that files with extension `ext` are read as:
/// the first one that lists it, ignoring ASCII case.
pub open spec fn language_for(ext: Seq<char>) -> Option<LanguageView> {
    first_listing(builtin_languages(), ext, 0)
}

/// Languages that don't list `ext` can be skipped over.
proof fn lemma_first_listing_skip(langs: Seq<LanguageView>, ext: Seq<char>, i: int)
    requires
        0 <= i <= langs.len(),
        forall|j: int| 0 <= j < i ==> !has_extension(#[trigger] langs[j], ext),
    ensures
        first_listing(langs, ext, 0) == first_listing(langs, ext, i),
    decreases i,
{
    if i > 0 {
        lemma_first_listing_skip(langs, ext, i - 1);
    }
}

fn ascii_lower_exec(c: char) -> (r: char)
    ensures
        r == ascii_lower(c),
{
    if 'A' <= c && c <= 'Z' {
        ((c as u8) + 32) as char
    } else {
        c
    }
}

fn eq_ignore_case_exec(a: &str, b: &str) -> (r: bool)
    ensures
        r == eq_ignore_ascii_case(a@, b@),
{
    let x = chars_of(a);
    let y = chars_of(b);
    if x.len() != y.len() {
        return false;
    }
    let mut k: usize = 0;
    while k < x.len()
        invariant
            x@ == a@,
            y@ == b@,
            x@.len() == y@.len(),
            k <= x@.len(),
            forall|j: int| 0 <= j < k ==> #[trigger] ascii_lower(x@[j]) == ascii_lower(y@[j]),
        decreases x@.len() - k,
    {
        if ascii_lower_exec(x[k]) != ascii_lower_exec(y[k]) {
            return false;
        }
        k = k + 1;
    }
    true
}

fn lists_extension(sp: &LanguageSpec, ext: &str) -> (r: bool)
    ensures
        r == has_extension(sp@, ext@),
{
    let mut k: usize = 0;
    while k < sp.extensions.len()
        invariant
            k <= sp.extensions@.len(),
            forall|j: int| 0 <= j < k ==> !eq_ignore_ascii_case(#[trigger] sp.extensions@[j]@, ext@),
        decreases sp.extensions@.len() - k,
    {
        if eq_ignore_case_exec(sp.extensions[k], ext) {
            assert(eq_ignore_ascii_case(sp@.extensions[k as int]@, ext@));
            return true;
        }
        k = k + 1;
    }
    assert(forall|j: int| 0 <= j < sp@.extensions.len() ==> !eq_ignore_ascii_case(#[trigger] sp@.extensions[j]@, ext@));
    false
}

/// The first language of `langs` that lists `ext` (ignoring ASCII case),
/// taken out of the list.
pub fn lookup_in(langs: Vec<LanguageSpec>, ext: &str) -> (r: Option<LanguageSpec>)
    ensures
        r is None <==> first_listing(views(langs@), ext@, 0) is None,
        r matches Some(sp) ==> first_listing(views(langs@), ext@, 0) == Some(sp@),
        r matches Some(sp) ==> exists|i: int| 0 <= i < langs@.len() && #[trigger] langs@[i] == sp,
{
    let ghost orig = langs@;
    let mut v = langs;
    let mut i: usize = 0;
    while i < v.len()
        invariant
            v@ == orig,
            orig == langs@,
            i <= orig.len(),
            forall|j: int| 0 <= j < i ==> !has_extension(#[trigger] views(orig)[j], ext@),
        decreases orig.len() - i,
    {
        if lists_extension(&v[i], ext) {
            let sp = v.remove(i);
            proof {
                lemma_first_listing_skip(views(orig), ext@, i as int);
                assert(views(orig)[i as int] == orig[i as int]@);
            }
            return Some(sp);
        }
        i = i + 1;
    }
    proof {
        lemma_first_listing_skip(views(orig), ext@, i as int);
    }
    None
}

/// Looks up a built-in language by case-insensitive file extension
/// (without the leading dot). Returns `None` when no built-in spec
/// matches.
pub fn lookup_by_extension(ext: &str) -> (r: Option<LanguageSpec>)
    ensures
        r is None <==> language_for(ext@) is None,
        r matches Some(sp) ==> language_for(ext@) == Some(sp@) && sp.well_formed(),
{
    let langs = all();
    let r = lookup_in(langs, ext);
    r
}

} // verus!
