use typocode::comments::spec::{BlockComment, LanguageSpec, StringLiteral};
use typocode::comments::stripper::strip;
use typocode::comments::{lookup_by_extension, strip_by_extension};

const PLAIN_BLOCK: BlockComment = BlockComment {
    start: "/*",
    end: "*/",
    nestable: false,
    long_bracket: false,
};
const NESTABLE_BLOCK: BlockComment = BlockComment {
    start: "/*",
    end: "*/",
    nestable: true,
    long_bracket: false,
};
const LONG_BRACKET_BLOCK: BlockComment = BlockComment {
    start: "--",
    end: "",
    nestable: false,
    long_bracket: true,
};

fn c_like() -> LanguageSpec {
    LanguageSpec {
        names: vec!["test-c"],
        extensions: vec!["test"],
        line_comments: vec!["//"],
        block_comments: vec![PLAIN_BLOCK],
        strings: vec![
            StringLiteral::Simple {
                delim: '"',
                escape: Some('\\'),
            },
            StringLiteral::Simple {
                delim: '\'',
                escape: Some('\\'),
            },
        ],
    }
}

fn rust_like() -> LanguageSpec {
    LanguageSpec {
        names: vec!["test-rust"],
        extensions: vec!["test"],
        line_comments: vec!["//"],
        block_comments: vec![NESTABLE_BLOCK],
        strings: vec![
            StringLiteral::RawHash {
                prefix: "r",
                delim: '"',
            },
            StringLiteral::Simple {
                delim: '"',
                escape: Some('\\'),
            },
        ],
    }
}

fn python_like() -> LanguageSpec {
    LanguageSpec {
        names: vec!["test-py"],
        extensions: vec!["test"],
        line_comments: vec!["#"],
        block_comments: vec![],
        strings: vec![
            StringLiteral::Triple { delim: '"' },
            StringLiteral::Triple { delim: '\'' },
            StringLiteral::Simple {
                delim: '"',
                escape: Some('\\'),
            },
            StringLiteral::Simple {
                delim: '\'',
                escape: Some('\\'),
            },
        ],
    }
}

fn lua_like() -> LanguageSpec {
    LanguageSpec {
        names: vec!["test-lua"],
        extensions: vec!["test"],
        line_comments: vec!["--"],
        block_comments: vec![LONG_BRACKET_BLOCK],
        strings: vec![
            StringLiteral::LongBracket,
            StringLiteral::Simple {
                delim: '"',
                escape: Some('\\'),
            },
        ],
    }
}

fn js_like() -> LanguageSpec {
    LanguageSpec {
        names: vec!["test-js"],
        extensions: vec!["test"],
        line_comments: vec!["//"],
        block_comments: vec![PLAIN_BLOCK],
        strings: vec![
            StringLiteral::Backtick,
            StringLiteral::Simple {
                delim: '"',
                escape: Some('\\'),
            },
            StringLiteral::Simple {
                delim: '\'',
                escape: Some('\\'),
            },
        ],
    }
}

#[test]
fn code_only_passes_through() {
    let input = "let x = 1;\nlet y = 2;\n";
    assert_eq!(strip(input, &c_like()), input);
}

#[test]
fn line_comment_alone_drops_line() {
    let input = "// header\nlet x = 1;\n";
    assert_eq!(strip(input, &c_like()), "let x = 1;\n");
}

#[test]
fn line_comment_after_code_keeps_code() {
    let input = "let x = 1; // tail\nlet y = 2;\n";
    assert_eq!(strip(input, &c_like()), "let x = 1;\nlet y = 2;\n");
}

#[test]
fn indented_line_comment_drops_line() {
    let input = "code;\n    // indented\nmore;\n";
    assert_eq!(strip(input, &c_like()), "code;\nmore;\n");
}

#[test]
fn block_comment_alone_drops_line() {
    let input = "code;\n/* block */\nmore;\n";
    assert_eq!(strip(input, &c_like()), "code;\nmore;\n");
}

#[test]
fn block_comment_inline_keeps_surrounding_code() {
    let input = "a /* hidden */ b\n";
    let out = strip(input, &c_like());
    assert!(out.starts_with("a"));
    assert!(out.contains("b"));
    assert!(!out.contains("hidden"));
    assert!(out.ends_with("\n"));
}

#[test]
fn block_comment_spans_multiple_lines() {
    let input = "code;\n/* line1\n   line2\n   line3 */\nmore;\n";
    assert_eq!(strip(input, &c_like()), "code;\nmore;\n");
}

#[test]
fn block_comment_starting_after_code_keeps_first_line() {
    let input = "code; /* tail\n   continues */\nmore;\n";
    assert_eq!(strip(input, &c_like()), "code;\nmore;\n");
}

#[test]
fn stripper_nested_block_balances() {
    let input = "a /* outer /* inner */ outer */ b\n";
    let out = strip(input, &rust_like());
    assert!(out.contains("a"));
    assert!(out.contains("b"));
    assert!(!out.contains("inner"));
    assert!(!out.contains("outer"));
}

#[test]
fn nestable_engine_does_not_descend_when_disabled() {
    // With nestable=false, the first `*/` closes regardless of
    // depth, leaving the trailing `outer */` as code.
    let input = "/* outer /* inner */ outer */\n";
    let out = strip(input, &c_like());
    assert!(out.contains("outer"));
}

#[test]
fn line_comment_inside_simple_string_preserved() {
    let input = "let s = \"http://x\";\n";
    assert_eq!(strip(input, &c_like()), input);
}

#[test]
fn block_comment_marker_inside_simple_string_preserved() {
    let input = "let s = \"/* not a comment */\";\n";
    assert_eq!(strip(input, &c_like()), input);
}

#[test]
fn escaped_quote_does_not_close_simple_string() {
    let input = "let s = \"he said \\\"hi\\\" // ok\";\n";
    assert_eq!(strip(input, &c_like()), input);
}

#[test]
fn triple_quote_string_preserves_hash() {
    let input = "x = \"\"\"contains # but not a comment\"\"\"\n";
    assert_eq!(strip(input, &python_like()), input);
}

#[test]
fn raw_hash_string_preserves_quote_until_matching_hashes() {
    let input = "let s = r#\"has \"quote\" inside\"#;\n";
    assert_eq!(strip(input, &rust_like()), input);
}

#[test]
fn raw_hash_string_preserves_inner_line_comment() {
    let input = "let s = r\"// not a comment\";\n";
    assert_eq!(strip(input, &rust_like()), input);
}

#[test]
fn long_bracket_string_preserves_inner_line_comment_marker() {
    let input = "local s = [==[has -- and ]=] inside]==]\nlocal y = 1\n";
    assert_eq!(strip(input, &lua_like()), input);
}

#[test]
fn long_bracket_block_comment_drops_lines() {
    let input = "code\n--[[ block\n   spans ]]\nmore\n";
    assert_eq!(strip(input, &lua_like()), "code\nmore\n");
}

#[test]
fn long_bracket_block_with_eq_levels() {
    let input = "code\n--[==[ ]] ]=] still inside ]==]\nmore\n";
    assert_eq!(strip(input, &lua_like()), "code\nmore\n");
}

#[test]
fn backtick_string_preserves_comment_markers() {
    let input = "let s = `// not a comment /* also */`;\n";
    assert_eq!(strip(input, &js_like()), input);
}

#[test]
fn file_entirely_comments_yields_empty() {
    let input = "// a\n// b\n/* c */\n";
    assert_eq!(strip(input, &c_like()), "");
}

#[test]
fn trailing_whitespace_on_kept_line_is_trimmed() {
    let input = "code;   // tail\n";
    assert_eq!(strip(input, &c_like()), "code;\n");
}

#[test]
fn no_trailing_newline_handled() {
    let input = "code // tail";
    assert_eq!(strip(input, &c_like()), "code");
}

#[test]
fn unterminated_block_consumes_to_eof() {
    let input = "code\n/* unterminated\n";
    assert_eq!(strip(input, &c_like()), "code\n");
}

#[test]
fn empty_input_yields_empty_output() {
    assert_eq!(strip("", &c_like()), "");
}

#[test]
fn stripper_preserves_internal_blank_lines() {
    let input = "a\n\nb\n";
    assert_eq!(strip(input, &c_like()), input);
}

#[test]
fn utf8_content_preserved() {
    let input = "// café\nlet x = \"naïve\";\n";
    assert_eq!(strip(input, &c_like()), "let x = \"naïve\";\n");
}

#[test]
fn missing_extension_yields_none() {
    assert!(strip_by_extension("anything", None).is_none());
}

#[test]
fn unknown_extension_yields_none() {
    assert!(strip_by_extension("anything", Some("definitelynotreal")).is_none());
}

#[test]
fn unknown_extension_returns_none() {
    assert!(lookup_by_extension("totallyunknownext").is_none());
}

#[test]
fn extension_lookup_ignores_ascii_case() {
    let spec = lookup_by_extension("RS").unwrap();
    assert_eq!(spec.names, vec!["rust"]);
    let spec = lookup_by_extension("Py").unwrap();
    assert_eq!(spec.names, vec!["python"]);
}

#[test]
fn every_readme_language_is_registered() {
    for ext in [
        "rs", "c", "cpp", "java", "js", "ts", "go", "swift", "kt", "scala", "cs", "dart", "php",
        "py", "rb", "sh", "fish", "ex", "r", "pl", "lua", "hs", "elm", "purs", "sql", "html",
        "xml", "svg", "md", "clj", "lisp", "scm", "rkt", "ml", "fs", "sml", "erl", "jl", "nim",
        "cr", "zig", "gleam",
    ] {
        assert!(lookup_by_extension(ext).is_some(), "missing {ext}");
    }
}

#[test]
fn strip_by_extension_uses_the_language_of_the_extension() {
    let out = strip_by_extension("x = 1 # note\n", Some("py")).unwrap();
    assert_eq!(out, "x = 1\n");
    let out = strip_by_extension("x = 1 # note\n", Some("rs")).unwrap();
    assert_eq!(out, "x = 1 # note\n");
}

#[test]
fn unterminated_simple_string_stops_at_newline() {
    let spec = c_like();
    assert_eq!(strip("s = \"open\n// gone\nkept\n", &spec), "s = \"open\nkept\n");
}

#[test]
fn trailing_unicode_whitespace_is_trimmed() {
    assert_eq!(strip("code\u{3000} // x\n", &c_like()), "code\n");
}

#[test]
fn block_with_empty_start_marker_comments_out_everything_up_to_each_end() {
    let spec = LanguageSpec {
        names: vec!["test-empty-start"],
        extensions: vec!["test"],
        line_comments: vec![],
        block_comments: vec![BlockComment {
            start: "",
            end: "!",
            nestable: false,
            long_bracket: false,
        }],
        strings: vec![StringLiteral::Simple {
            delim: '"',
            escape: None,
        }],
    };
    assert_eq!(strip("ab!cd\n", &spec), "");
    assert_eq!(strip("\"x\"!\n", &spec), "\"x\"\n");
}

#[test]
fn stripped_text_is_never_longer_than_the_input() {
    for input in ["", "a // b\n", "/* x */\n\nfoo  \n", "s = \"/*\"; // t", "/* open"] {
        assert!(strip(input, &c_like()).chars().count() <= input.chars().count());
    }
}
