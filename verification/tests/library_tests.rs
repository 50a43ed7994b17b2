use doc_comments::language::{
    find_language_doc_support, format_python_docstring, format_rust_module_doc, format_tsdoc,
    DocLanguage,
};
use doc_comments::python::{extract_module_docstring, skip_python_leading_trivia};
use doc_comments::rust_docs::{extract_rust_module_doc, extract_rust_module_doc_lines};
use doc_comments::shown::{
    directory_doc_entry_files, format_doc_comment_for_directory, format_doc_comment_for_file,
    format_doc_comment_for_path, DocTarget,
};
use doc_comments::tsdoc::extract_leading_tsdoc;

fn some(s: &str) -> Option<String> {
    Some(s.to_string())
}

// TypeScript

#[test]
fn tsdoc_with_nothing_between_markers_is_none() {
    assert_eq!(extract_leading_tsdoc("/**/"), None);
}

#[test]
fn tsdoc_with_blank_body_is_none() {
    assert_eq!(extract_leading_tsdoc("/** */\nexport {}"), None);
    assert_eq!(extract_leading_tsdoc("/***/"), None);
    assert_eq!(extract_leading_tsdoc("/**\n *\n */"), None);
}

#[test]
fn unclosed_tsdoc_is_none() {
    assert_eq!(extract_leading_tsdoc("/** never closed"), None);
}

#[test]
fn tsdoc_after_indentation_is_none() {
    assert_eq!(extract_leading_tsdoc(" /** Indented */"), None);
    assert_eq!(extract_leading_tsdoc("\n/** After a blank line */"), None);
}

#[test]
fn tsdoc_ends_at_first_closer() {
    assert_eq!(extract_leading_tsdoc("/** First */ /** Second */"), some("First"));
}

#[test]
fn tsdoc_strips_one_star_per_line() {
    assert_eq!(extract_leading_tsdoc("/** ** x */"), some("* x"));
}

#[test]
fn tsdoc_with_crlf_lines() {
    assert_eq!(
        extract_leading_tsdoc("/**\r\n * A\r\n * B\r\n */\r\nexport {}"),
        some("A B")
    );
}

#[test]
fn tsdoc_trims_unicode_whitespace() {
    assert_eq!(extract_leading_tsdoc("/** \u{3000}Hi\u{a0} */"), some("Hi"));
}

#[test]
fn tsdoc_keeps_non_ascii_text() {
    assert_eq!(extract_leading_tsdoc("/** Grüße, 世界 */"), some("Grüße, 世界"));
}

#[test]
fn tsdoc_shebang_without_newline_leaves_nothing() {
    assert_eq!(extract_leading_tsdoc("#!/usr/bin/env node"), None);
}

// Python

#[test]
fn python_single_quoted_docstring() {
    assert_eq!(extract_module_docstring("'Doc'\nx = 1\n"), some("Doc"));
    assert_eq!(extract_module_docstring("\"Doc\""), some("Doc"));
}

#[test]
fn python_escaped_quote_stays_in_docstring() {
    assert_eq!(extract_module_docstring("\"a\\\"b\"\n"), some("a\\\"b"));
}

#[test]
fn python_string_prefixes() {
    assert_eq!(extract_module_docstring("r\"\"\"raw\"\"\""), some("raw"));
    assert_eq!(extract_module_docstring("u'text'"), some("text"));
    assert_eq!(extract_module_docstring("b\"\"\"bytes\"\"\""), None);
    assert_eq!(extract_module_docstring("F'format'"), None);
    assert_eq!(extract_module_docstring("rb'raw bytes'"), None);
}

#[test]
fn python_unterminated_literals_are_none() {
    assert_eq!(extract_module_docstring("\"\"\"never closed\n"), None);
    assert_eq!(extract_module_docstring("'broken\nline'"), None);
}

#[test]
fn python_blank_docstring_is_none() {
    assert_eq!(extract_module_docstring("\"\"\"  \n   \"\"\""), None);
}

#[test]
fn python_multiline_docstring_is_joined() {
    assert_eq!(
        extract_module_docstring("'''Line one.\n\n    Details here.\n'''\n"),
        some("Line one. Details here.")
    );
}

#[test]
fn python_only_comments_is_none() {
    assert_eq!(extract_module_docstring("# just a comment"), None);
    assert_eq!(extract_module_docstring(""), None);
}

#[test]
fn python_bom_and_shebang_before_docstring() {
    assert_eq!(
        extract_module_docstring("\u{feff}#!/usr/bin/python\n'''Doc'''"),
        some("Doc")
    );
}

#[test]
fn python_indented_docstring() {
    assert_eq!(extract_module_docstring("\n\t  \"\"\"Doc\"\"\""), some("Doc"));
}

// Rust

#[test]
fn rust_blank_lines_before_line_docs() {
    assert_eq!(extract_rust_module_doc("\n\n//! A\n"), some("A"));
    assert_eq!(extract_rust_module_doc("  \t//! A"), some("A"));
}

#[test]
fn rust_empty_line_doc_is_skipped() {
    assert_eq!(extract_rust_module_doc("//!\n//! A\n"), some("A"));
}

#[test]
fn rust_line_docs_end_at_blank_line_after_text() {
    assert_eq!(extract_rust_module_doc("//! A\n\n//! B\n"), some("A"));
}

#[test]
fn rust_line_docs_end_at_code() {
    assert_eq!(extract_rust_module_doc("//! A\nfn main() {}\n//! B"), some("A"));
}

#[test]
fn rust_indented_line_docs_continue() {
    assert_eq!(extract_rust_module_doc("//! A\n    //! B\nfn x() {}"), some("A B"));
}

#[test]
fn rust_blank_block_doc_is_none() {
    assert_eq!(extract_rust_module_doc("/*! */"), None);
    assert_eq!(extract_rust_module_doc("/*!"), None);
}

#[test]
fn rust_inner_attribute_line_is_skipped_like_a_shebang() {
    assert_eq!(
        extract_rust_module_doc("#![allow(dead_code)]\n//! Doc\n"),
        some("Doc")
    );
}

#[test]
fn rust_crlf_line_docs() {
    assert_eq!(extract_rust_module_doc("//! A\r\n//! B\r\n"), some("A B"));
}

#[test]
fn rust_outer_doc_is_not_module_doc() {
    assert_eq!(extract_rust_module_doc("/// Item doc\nfn f() {}"), None);
}

// Laws on concrete values

#[test]
fn law_bom_is_ignored() {
    let s = "\"\"\"Doc\"\"\"";
    assert_eq!(
        extract_module_docstring(&format!("\u{feff}{s}")),
        extract_module_docstring(s)
    );
    let r = "//! Doc";
    assert_eq!(
        extract_rust_module_doc(&format!("\u{feff}{r}")),
        extract_rust_module_doc(r)
    );
    let t = "/** Doc */";
    assert_eq!(
        extract_leading_tsdoc(&format!("\u{feff}{t}")),
        extract_leading_tsdoc(t)
    );
}

#[test]
fn law_shebang_is_ignored() {
    for s in ["/** Doc */", "'''Doc'''", "//! Doc", "/*! Doc */", "nothing"] {
        let with = format!("#!/bin/tool --flag\n{s}");
        assert_eq!(extract_leading_tsdoc(&with), extract_leading_tsdoc(s));
        assert_eq!(extract_module_docstring(&with), extract_module_docstring(s));
        assert_eq!(extract_rust_module_doc(&with), extract_rust_module_doc(s));
    }
}

#[test]
fn law_comment_line_before_docstring_is_skipped() {
    for s in ["'''Doc'''", "#!x\n'Doc'", "code = 1", "\n'Doc'"] {
        let with = format!("# a comment\n{s}");
        assert_eq!(extract_module_docstring(&with), extract_module_docstring(s));
        let with_bang = format!("#! a comment\n{s}");
        assert_eq!(extract_module_docstring(&with_bang), extract_module_docstring(s));
    }
}

#[test]
fn law_blank_before_docs_is_skipped() {
    for c in [" ", "\t", "\r", "\n"] {
        let py = "'''Doc'''";
        assert_eq!(
            extract_module_docstring(&format!("{c}{py}")),
            extract_module_docstring(py)
        );
        let rs = "/*! Doc */";
        assert_eq!(
            extract_rust_module_doc(&format!("{c}{rs}")),
            extract_rust_module_doc(rs)
        );
    }
}

#[test]
fn law_docs_are_one_line() {
    let docs = [
        extract_leading_tsdoc("/**\n * a\n *\n * b\n */"),
        extract_module_docstring("'''\n  a\n\n  b  \n'''"),
        extract_rust_module_doc("//!  a \n//! b\n"),
        extract_rust_module_doc("/*!\n a\n b\n*/"),
    ];
    for d in docs {
        let d = d.unwrap();
        assert_eq!(d, "a b");
        assert!(!d.contains('\n'));
    }
}

// Languages and rendering

#[test]
fn languages_by_extension() {
    assert_eq!(find_language_doc_support("ts"), Some(DocLanguage::TypeScript));
    assert_eq!(find_language_doc_support("tsx"), Some(DocLanguage::TypeScript));
    assert_eq!(find_language_doc_support("py"), Some(DocLanguage::Python));
    assert_eq!(find_language_doc_support("rs"), Some(DocLanguage::Rust));
    assert_eq!(find_language_doc_support("md"), None);
    assert_eq!(find_language_doc_support("TS"), None);
    assert_eq!(find_language_doc_support(""), None);
    assert_eq!(find_language_doc_support("t"), None);
}

#[test]
fn rendering_per_language() {
    assert_eq!(format_tsdoc("x y"), " /** x y */");
    assert_eq!(format_python_docstring("x y"), " \"\"\" x y \"\"\"");
    assert_eq!(format_rust_module_doc("x y"), " //! x y");
    assert_eq!(DocLanguage::Python.format("d"), " \"\"\" d \"\"\"");
}

#[test]
fn extract_file_doc_per_language() {
    assert_eq!(DocLanguage::TypeScript.extract_file_doc("/** T */"), some("T"));
    assert_eq!(DocLanguage::Python.extract_file_doc("'P'"), some("P"));
    assert_eq!(DocLanguage::Rust.extract_file_doc("//! R"), some("R"));
    assert_eq!(DocLanguage::Rust.extract_file_doc("/** T */"), None);
}

#[test]
fn file_doc_needs_extension_contents_and_doc() {
    assert_eq!(
        format_doc_comment_for_file(Some("ts"), Some("/** A */")),
        some(" /** A */")
    );
    assert_eq!(
        format_doc_comment_for_file(Some("tsx"), Some("/** A */")),
        some(" /** A */")
    );
    assert_eq!(
        format_doc_comment_for_file(Some("py"), Some("'''A'''")),
        some(" \"\"\" A \"\"\"")
    );
    assert_eq!(
        format_doc_comment_for_file(Some("rs"), Some("//! A")),
        some(" //! A")
    );
    assert_eq!(format_doc_comment_for_file(None, Some("/** A */")), None);
    assert_eq!(format_doc_comment_for_file(Some("ts"), None), None);
    assert_eq!(format_doc_comment_for_file(Some("ts"), Some("const a = 1;")), None);
    assert_eq!(format_doc_comment_for_file(Some("py"), Some("/** A */")), None);
}

#[test]
fn directory_entry_files_in_order() {
    assert_eq!(
        directory_doc_entry_files(),
        vec!["index.ts", "index.tsx", "__init__.py", "mod.rs"]
    );
}

#[test]
fn directory_doc_lists_every_entry_doc() {
    let entries = vec![
        None,
        Some("/** X */".to_string()),
        Some("'''Y'''".to_string()),
        None,
    ];
    assert_eq!(
        format_doc_comment_for_directory(&entries),
        some("\n/** X */\n\n\"\"\" Y \"\"\"")
    );

    let entries = vec![
        Some("no doc here".to_string()),
        None,
        Some("'''Y'''".to_string()),
        Some("//! Z".to_string()),
    ];
    assert_eq!(
        format_doc_comment_for_directory(&entries),
        some("\n\"\"\" Y \"\"\"\n\n//! Z")
    );

    let entries = vec![None, None, None, Some("//! Z".to_string())];
    assert_eq!(format_doc_comment_for_directory(&entries), some(" //! Z"));
}

#[test]
fn rust_docs_of_several_lines_shown_line_by_line_for_file() {
    assert_eq!(
        format_doc_comment_for_file(
            Some("rs"),
            Some("//! API surface\n//! for tree output.\n\npub fn run() {}\n")
        ),
        some("\n//! API surface\n//! for tree output.")
    );
}

#[test]
fn rust_docs_of_several_lines_shown_line_by_line_for_mod_rs_directory() {
    let entries = vec![
        None,
        None,
        None,
        Some("//! Feature module\n//! for tree output.\n\npub fn run() {}\n".to_string()),
    ];
    assert_eq!(
        format_doc_comment_for_directory(&entries),
        some("\n//! Feature module\n//! for tree output.")
    );
}

#[test]
fn directory_combines_typescript_and_python_docs() {
    let entries = vec![
        Some("/** TypeScript module */\nexport const impl_value = 1;\n".to_string()),
        None,
        Some("\"\"\"Python package\"\"\"\nimpl_value = 1\n".to_string()),
        None,
    ];
    assert_eq!(
        format_doc_comment_for_directory(&entries),
        some("\n/** TypeScript module */\n\n\"\"\" Python package \"\"\"")
    );
}

#[test]
fn single_line_docs_stay_inline() {
    assert_eq!(
        format_doc_comment_for_file(
            Some("rs"),
            Some("//! Command-line binary entry point for `tree`.\nfn main() {}\n")
        ),
        some(" //! Command-line binary entry point for `tree`.")
    );
    assert_eq!(
        format_doc_comment_for_file(
            Some("ts"),
            Some("\u{feff}#!/usr/bin/env node\n/** CLI entrypoint */\nconsole.log('hi');\n")
        ),
        some(" /** CLI entrypoint */")
    );
    assert_eq!(
        format_doc_comment_for_file(Some("rs"), Some("/*!\n * A\n * B\n */")),
        some(" //! A B")
    );
}

#[test]
fn rust_module_doc_lines() {
    assert_eq!(
        extract_rust_module_doc_lines("//! A\n//!\n  //! B\nfn f() {}"),
        Some(vec!["A".to_string(), "B".to_string()])
    );
    assert_eq!(
        extract_rust_module_doc_lines("/*! A\n B */"),
        Some(vec!["A B".to_string()])
    );
    assert_eq!(extract_rust_module_doc_lines("fn f() {}"), None);
    assert_eq!(extract_rust_module_doc_lines("//!\n"), None);
}

#[test]
fn doc_lines_per_language() {
    assert_eq!(DocLanguage::TypeScript.format_line("d"), "/** d */");
    assert_eq!(DocLanguage::Python.format_line("d"), "\"\"\" d \"\"\"");
    assert_eq!(DocLanguage::Rust.format_line("d"), "//! d");
    assert_eq!(
        DocLanguage::Python.extract_file_doc_lines("'P'"),
        Some(vec!["P".to_string()])
    );
    assert_eq!(
        DocLanguage::Rust.extract_file_doc_lines("//! a\n//! b"),
        Some(vec!["a".to_string(), "b".to_string()])
    );
}

#[test]
fn law_shown_lines_split_back() {
    let shown = format_doc_comment_for_file(Some("rs"), Some("//! one\n//! two\n//! three"))
        .unwrap();
    let pieces: Vec<&str> = shown.split('\n').collect();
    assert_eq!(pieces, vec!["", "//! one", "//! two", "//! three"]);
    let inline = format_doc_comment_for_file(Some("py"), Some("'''one\ntwo'''")).unwrap();
    assert_eq!(inline, " \"\"\" one two \"\"\"");
    assert!(!inline.contains('\n'));
}

#[test]
fn directory_without_entry_docs_is_none() {
    assert_eq!(format_doc_comment_for_directory(&vec![]), None);
    let entries = vec![Some("x".to_string()), None];
    assert_eq!(format_doc_comment_for_directory(&entries), None);
}

#[test]
fn path_doc_for_file_and_directory() {
    let file = DocTarget::File {
        extension: Some("py".to_string()),
        contents: Some("\"\"\"P\"\"\"".to_string()),
    };
    assert_eq!(format_doc_comment_for_path(&file), some(" \"\"\" P \"\"\""));
    let dir = DocTarget::Directory {
        entry_contents: vec![Some("/** D */".to_string())],
    };
    assert_eq!(format_doc_comment_for_path(&dir), some(" /** D */"));
    let unreadable = DocTarget::File {
        extension: Some("rs".to_string()),
        contents: None,
    };
    assert_eq!(format_doc_comment_for_path(&unreadable), None);
}

#[test]
fn law_crlf_and_lf_give_the_same_docs() {
    let lf = ["/**\n * A\n * B\n */", "'''A\nB\n'''", "//! A\n//! B\n\nfn f() {}"];
    for s in lf {
        let crlf = s.replace('\n', "\r\n");
        assert_eq!(extract_leading_tsdoc(&crlf), extract_leading_tsdoc(s));
        assert_eq!(extract_module_docstring(&crlf), extract_module_docstring(s));
        assert_eq!(extract_rust_module_doc(&crlf), extract_rust_module_doc(s));
    }
    assert_eq!(extract_rust_module_doc("//! A\r\n//! B"), some("A B"));
}

#[test]
fn law_python_trivia_skipped_in_full() {
    let once = "'''X'''";
    let twice = "# a\n\n   # b\n\t\n'''X'''";
    assert_eq!(extract_module_docstring(twice), extract_module_docstring(once));
    assert_eq!(extract_module_docstring(twice), some("X"));
}

#[test]
fn law_skipping_python_trivia_twice_is_skipping_once() {
    for s in ["# a\n\n  # b\n'''X'''\n", "  \t\n", "# only", "code = 1", ""] {
        let chars: Vec<char> = s.chars().collect();
        let once = skip_python_leading_trivia(&chars);
        let twice = skip_python_leading_trivia(&once);
        assert_eq!(twice, once);
    }
    let chars: Vec<char> = "# a\n'''X'''".chars().collect();
    let once: String = skip_python_leading_trivia(&chars).into_iter().collect();
    assert_eq!(once, "'''X'''");
}
