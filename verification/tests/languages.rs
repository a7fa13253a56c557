use typocode::comments::languages::{c_family, erlang, hash_line, haskell, julia, lisp, lua, markup, misc, ml, sql};
use typocode::comments::spec::LanguageSpec;
use typocode::comments::stripper::strip;

fn assert_strip(spec: &LanguageSpec, input: &str, expected: &str) {
    assert_eq!(strip(input, spec), expected);
}

// c-family languages

#[test]
fn rust_line_comment_alone_drops_line() {
    assert_strip(&c_family::rust(), "// header\nfn main() {}\n", "fn main() {}\n");
}

#[test]
fn rust_line_comment_after_code_preserves_code() {
    assert_strip(&c_family::rust(), "let x = 1; // tail\n", "let x = 1;\n");
}

#[test]
fn rust_line_marker_inside_string_preserved() {
    let input = "let url = \"http://example.com\";\n";
    assert_strip(&c_family::rust(), input, input);
}

#[test]
fn rust_block_alone_drops_line() {
    assert_strip(&c_family::rust(), "code\n/* block */\nmore\n", "code\nmore\n");
}

#[test]
fn rust_block_spans_lines() {
    assert_strip(&c_family::rust(), "a\n/*\n one\n two\n*/\nb\n", "a\nb\n");
}

#[test]
fn rust_nested_block_balances() {
    let input = "a /* outer /* inner */ outer */ b\n";
    let out = strip(input, &c_family::rust());
    assert!(out.contains("a"));
    assert!(out.contains("b"));
    assert!(!out.contains("outer"));
}

#[test]
fn rust_raw_string_protects_inner_comment_marker() {
    let input = "let s = r#\"// not a comment\"#;\n";
    assert_strip(&c_family::rust(), input, input);
}

#[test]
fn rust_byte_raw_string_supported() {
    let input = "let b = br\"// inside\";\n";
    assert_strip(&c_family::rust(), input, input);
}

#[test]
fn c_block_does_not_nest() {
    // First */ closes; remainder is code.
    let input = "/* outer /* inner */ outer */\n";
    let out = strip(input, &c_family::c());
    assert!(out.contains("outer"));
}

#[test]
fn cpp_handles_both_comment_styles() {
    let input = "int x = 0; /* a */ // tail\nint y = 1;\n";
    assert_strip(&c_family::cpp(), input, "int x = 0;\nint y = 1;\n");
}

#[test]
fn java_line_comment_drops_line() {
    assert_strip(
        &c_family::java(),
        "// header\npublic class X {}\n",
        "public class X {}\n",
    );
}

#[test]
fn javascript_backtick_preserves_comment_markers() {
    let input = "const s = `// not a comment /* also */`;\n";
    assert_strip(&c_family::javascript(), input, input);
}

#[test]
fn javascript_block_comment_inline() {
    assert_strip(
        &c_family::javascript(),
        "const x = 1 /* hint */ + 2;\n",
        "const x = 1  + 2;\n",
    );
}

#[test]
fn typescript_line_comment_drops_line() {
    assert_strip(
        &c_family::typescript(),
        "// header\nlet x: number = 1;\n",
        "let x: number = 1;\n",
    );
}

#[test]
fn go_backtick_string_preserves_markers() {
    let input = "s := `// not a comment`\n";
    assert_strip(&c_family::go(), input, input);
}

#[test]
fn swift_nested_block_balances() {
    let input = "/* outer /* inner */ outer */\nlet x = 1\n";
    assert_strip(&c_family::swift(), input, "let x = 1\n");
}

#[test]
fn kotlin_nested_block_balances() {
    let input = "/* a /* b */ c */\nval x = 1\n";
    assert_strip(&c_family::kotlin(), input, "val x = 1\n");
}

#[test]
fn scala_nested_block_balances() {
    let input = "/* a /* b */ c */\nval x = 1\n";
    assert_strip(&c_family::scala(), input, "val x = 1\n");
}

#[test]
fn csharp_line_comment_drops_line() {
    assert_strip(
        &c_family::csharp(),
        "// header\nclass X {}\n",
        "class X {}\n",
    );
}

#[test]
fn dart_nested_block_balances() {
    let input = "/* a /* b */ c */\nvoid main() {}\n";
    assert_strip(&c_family::dart(), input, "void main() {}\n");
}

#[test]
fn php_hash_line_comment_drops_line() {
    assert_strip(&c_family::php(), "# header\n$x = 1;\n", "$x = 1;\n");
}

#[test]
fn php_slash_slash_line_comment_drops_line() {
    assert_strip(&c_family::php(), "// header\n$x = 1;\n", "$x = 1;\n");
}

// hash-line languages

#[test]
fn python_line_comment_alone_drops_line() {
    assert_strip(&hash_line::python(), "# header\nx = 1\n", "x = 1\n");
}

#[test]
fn python_line_comment_after_code_preserves_code() {
    assert_strip(&hash_line::python(), "x = 1  # tail\n", "x = 1\n");
}

#[test]
fn python_hash_inside_string_preserved() {
    let input = "x = \"#not a comment\"\n";
    assert_strip(&hash_line::python(), input, input);
}

#[test]
fn python_triple_quote_preserves_hash() {
    let input = "doc = \"\"\"line one\n# not a comment\nline three\"\"\"\n";
    assert_strip(&hash_line::python(), input, input);
}

#[test]
fn python_triple_quote_single_quotes() {
    let input = "doc = '''has # inside'''\n";
    assert_strip(&hash_line::python(), input, input);
}

#[test]
fn ruby_block_comment_drops_lines() {
    let input = "code\n=begin\n  doc\n=end\nmore\n";
    assert_strip(&hash_line::ruby(), input, "code\nmore\n");
}

#[test]
fn ruby_line_comment_drops_line() {
    assert_strip(&hash_line::ruby(), "# header\nputs 1\n", "puts 1\n");
}

#[test]
fn bash_line_comment_drops_line() {
    assert_strip(&hash_line::bash(), "# header\necho hi\n", "echo hi\n");
}

#[test]
fn bash_shebang_is_dropped_like_any_comment() {
    // The shebang is syntactically a comment in the shell; tests
    // pin that behaviour so users aren't surprised.
    assert_strip(&hash_line::bash(), "#!/bin/sh\necho hi\n", "echo hi\n");
}

#[test]
fn bash_hash_inside_string_preserved() {
    let input = "echo \"#not a comment\"\n";
    assert_strip(&hash_line::bash(), input, input);
}

#[test]
fn fish_line_comment_drops_line() {
    assert_strip(&hash_line::fish(), "# header\necho hi\n", "echo hi\n");
}

#[test]
fn elixir_line_comment_drops_line() {
    assert_strip(&hash_line::elixir(), "# header\nIO.puts(1)\n", "IO.puts(1)\n");
}

#[test]
fn elixir_triple_quote_heredoc_preserves_hash() {
    let input = "doc = \"\"\"\n# not a comment\n\"\"\"\n";
    assert_strip(&hash_line::elixir(), input, input);
}

#[test]
fn r_line_comment_drops_line() {
    assert_strip(&hash_line::r(), "# header\nx <- 1\n", "x <- 1\n");
}

#[test]
fn perl_line_comment_drops_line() {
    assert_strip(&hash_line::perl(), "# header\nmy $x = 1;\n", "my $x = 1;\n");
}

#[test]
fn perl_pod_block_drops_lines() {
    let input = "code\n=pod\n  doc\n=cut\nmore\n";
    assert_strip(&hash_line::perl(), input, "code\nmore\n");
}

// erlang languages

#[test]
fn erlang_line_comment_drops_line() {
    assert_strip(&erlang::erlang(), "% header\nfoo() -> 1.\n", "foo() -> 1.\n");
}

#[test]
fn erlang_line_comment_after_code_preserves_code() {
    assert_strip(&erlang::erlang(), "X = 1. % tail\n", "X = 1.\n");
}

#[test]
fn percent_inside_string_preserved() {
    let input = "S = \"% not a comment\".\n";
    assert_strip(&erlang::erlang(), input, input);
}

// haskell languages

#[test]
fn haskell_line_comment_drops_line() {
    assert_strip(&haskell::haskell(), "-- header\nx = 1\n", "x = 1\n");
}

#[test]
fn haskell_line_inside_string_preserved() {
    let input = "s = \"-- not a comment\"\n";
    assert_strip(&haskell::haskell(), input, input);
}

#[test]
fn haskell_nested_block_balances() {
    let input = "a {- outer {- inner -} outer -} b\n";
    let out = strip(input, &haskell::haskell());
    assert!(out.contains("a"));
    assert!(out.contains("b"));
    assert!(!out.contains("outer"));
}

#[test]
fn haskell_block_spans_lines() {
    assert_strip(
        &haskell::haskell(),
        "code\n{- block\n  spans -}\nmore\n",
        "code\nmore\n",
    );
}

#[test]
fn elm_line_comment_drops_line() {
    assert_strip(&haskell::elm(), "-- header\nx = 1\n", "x = 1\n");
}

#[test]
fn purescript_block_drops_line() {
    assert_strip(
        &haskell::purescript(),
        "x = 1\n{- doc -}\ny = 2\n",
        "x = 1\ny = 2\n",
    );
}

// julia languages

#[test]
fn julia_line_comment_drops_line() {
    assert_strip(&julia::julia(), "# header\nx = 1\n", "x = 1\n");
}

#[test]
fn julia_block_comment_drops_line() {
    assert_strip(&julia::julia(), "code\n#= doc =#\nmore\n", "code\nmore\n");
}

#[test]
fn julia_nested_block_balances() {
    let input = "#= a #= b =# c =#\nx = 1\n";
    assert_strip(&julia::julia(), input, "x = 1\n");
}

#[test]
fn triple_quote_preserves_hash() {
    let input = "doc = \"\"\"\n# not a comment\n\"\"\"\n";
    assert_strip(&julia::julia(), input, input);
}

// lisp languages

#[test]
fn clojure_line_comment_drops_line() {
    assert_strip(&lisp::clojure(), "; header\n(defn f [] 1)\n", "(defn f [] 1)\n");
}

#[test]
fn clojure_semi_inside_string_preserved() {
    let input = "(def s \"; not a comment\")\n";
    assert_strip(&lisp::clojure(), input, input);
}

#[test]
fn common_lisp_block_drops_line() {
    assert_strip(&lisp::common_lisp(), "code\n#| doc |#\nmore\n", "code\nmore\n");
}

#[test]
fn scheme_block_nests() {
    let input = "#| outer #| inner |# outer |#\n(define x 1)\n";
    assert_strip(&lisp::scheme(), input, "(define x 1)\n");
}

#[test]
fn racket_line_comment_drops_line() {
    assert_strip(&lisp::racket(), "; header\n(define x 1)\n", "(define x 1)\n");
}

// lua languages

#[test]
fn lua_line_comment_drops_line() {
    assert_strip(&lua::lua(), "-- header\nlocal x = 1\n", "local x = 1\n");
}

#[test]
fn lua_line_comment_after_code_preserves_code() {
    assert_strip(&lua::lua(), "local x = 1 -- tail\n", "local x = 1\n");
}

#[test]
fn long_bracket_block_drops_lines() {
    assert_strip(&lua::lua(), "code\n--[[\n block\n]]\nmore\n", "code\nmore\n");
}

#[test]
fn long_bracket_block_with_levels() {
    let input = "code\n--[==[ inner ]] still ]==]\nmore\n";
    assert_strip(&lua::lua(), input, "code\nmore\n");
}

#[test]
fn long_bracket_string_preserves_dash_dash() {
    let input = "s = [==[has -- inside]==]\nx = 1\n";
    assert_strip(&lua::lua(), input, input);
}

#[test]
fn double_quote_string_preserves_dash_dash() {
    let input = "s = \"-- not a comment\"\n";
    assert_strip(&lua::lua(), input, input);
}

// markup languages

#[test]
fn html_block_drops_line() {
    assert_strip(
        &markup::html(),
        "<p>hi</p>\n<!-- doc -->\n<p>bye</p>\n",
        "<p>hi</p>\n<p>bye</p>\n",
    );
}

#[test]
fn html_inline_block_keeps_surrounding_code() {
    let input = "<a>x</a> <!-- hidden --> <b>y</b>\n";
    let out = strip(input, &markup::html());
    assert!(out.contains("<a>x</a>"));
    assert!(out.contains("<b>y</b>"));
    assert!(!out.contains("hidden"));
}

#[test]
fn html_block_spans_lines() {
    assert_strip(&markup::html(), "<x/>\n<!-- a\n   b -->\n<y/>\n", "<x/>\n<y/>\n");
}

#[test]
fn xml_block_drops_line() {
    assert_strip(&markup::xml(), "<root>\n<!-- doc -->\n</root>\n", "<root>\n</root>\n");
}

#[test]
fn svg_block_drops_line() {
    assert_strip(&markup::svg(), "<svg>\n<!-- doc -->\n</svg>\n", "<svg>\n</svg>\n");
}

#[test]
fn markdown_block_drops_line() {
    assert_strip(
        &markup::markdown(),
        "# Title\n<!-- note -->\nBody\n",
        "# Title\nBody\n",
    );
}

// misc languages

#[test]
fn nim_line_comment_drops_line() {
    assert_strip(&misc::nim(), "# header\necho 1\n", "echo 1\n");
}

#[test]
fn nim_nested_block_balances() {
    let input = "#[ a #[ b ]# c ]#\necho 1\n";
    assert_strip(&misc::nim(), input, "echo 1\n");
}

#[test]
fn crystal_line_comment_drops_line() {
    assert_strip(&misc::crystal(), "# header\nputs 1\n", "puts 1\n");
}

#[test]
fn zig_line_comment_drops_line() {
    assert_strip(&misc::zig(), "// header\nconst x = 1;\n", "const x = 1;\n");
}

#[test]
fn gleam_line_comment_drops_line() {
    assert_strip(&misc::gleam(), "// header\nlet x = 1\n", "let x = 1\n");
}

// ml languages

#[test]
fn ocaml_block_drops_line() {
    assert_strip(
        &ml::ocaml(),
        "let x = 1\n(* doc *)\nlet y = 2\n",
        "let x = 1\nlet y = 2\n",
    );
}

#[test]
fn ocaml_nested_block_balances() {
    let input = "(* a (* b *) c *)\nlet x = 1\n";
    assert_strip(&ml::ocaml(), input, "let x = 1\n");
}

#[test]
fn ocaml_marker_inside_string_preserved() {
    let input = "let s = \"(* not a comment *)\"\n";
    assert_strip(&ml::ocaml(), input, input);
}

#[test]
fn fsharp_line_comment_drops_line() {
    assert_strip(&ml::fsharp(), "// header\nlet x = 1\n", "let x = 1\n");
}

#[test]
fn fsharp_block_drops_line() {
    assert_strip(&ml::fsharp(), "code\n(* doc *)\nmore\n", "code\nmore\n");
}

#[test]
fn sml_block_drops_line() {
    assert_strip(
        &ml::sml(),
        "val x = 1\n(* doc *)\nval y = 2\n",
        "val x = 1\nval y = 2\n",
    );
}

// sql languages

#[test]
fn sql_line_comment_drops_line() {
    assert_strip(
        &sql::sql(),
        "-- header\nSELECT 1;\n",
        "SELECT 1;\n",
    );
}

#[test]
fn sql_line_comment_after_code_preserves_code() {
    assert_strip(
        &sql::sql(),
        "SELECT 1; -- tail\n",
        "SELECT 1;\n",
    );
}

#[test]
fn sql_block_comment_drops_line() {
    assert_strip(
        &sql::sql(),
        "code;\n/* doc */\nmore;\n",
        "code;\nmore;\n",
    );
}

#[test]
fn dash_dash_inside_string_preserved() {
    let input = "SELECT '-- not a comment' FROM t;\n";
    assert_strip(&sql::sql(), input, input);
}
