use doc_comments::shown::format_doc_comment_for_file;
use doc_comments::python::extract_module_docstring;
use doc_comments::rust_docs::extract_rust_module_doc;
use doc_comments::tsdoc::extract_leading_tsdoc;

#[test]
fn extracts_single_line_tsdoc() {
    assert_eq!(
        extract_leading_tsdoc("/** Hello world */\nexport const x = 1;"),
        Some("Hello world".to_string())
    );
}

#[test]
fn extracts_multiline_tsdoc() {
    assert_eq!(
        extract_leading_tsdoc("/**\n * Hello\n * world\n */\nexport const x = 1;"),
        Some("Hello world".to_string())
    );
}

#[test]
fn allows_bom_and_shebang_before_tsdoc() {
    assert_eq!(
        extract_leading_tsdoc("\u{feff}#!/usr/bin/env node\n/** Hi */\nconsole.log('x');"),
        Some("Hi".to_string())
    );
}

#[test]
fn rejects_other_content_before_tsdoc() {
    assert_eq!(
        extract_leading_tsdoc("// comment\n/** Hi */\nconsole.log('x');"),
        None
    );
}

#[test]
fn ignores_non_ts_files() {
    assert_eq!(
        format_doc_comment_for_file(Some("md"), Some("/** Not used */\n")),
        None
    );
}

#[test]
fn extracts_python_module_docstring() {
    assert_eq!(
        extract_module_docstring("\"\"\"Hello world\"\"\"\nvalue = 1\n"),
        Some("Hello world".to_string())
    );
}

#[test]
fn extracts_python_module_docstring_after_comments() {
    assert_eq!(
        extract_module_docstring(
            "#!/usr/bin/env python3\n# coding: utf-8\n\n\"\"\"Hello\nworld\"\"\"\nvalue = 1\n"
        ),
        Some("Hello world".to_string())
    );
}

#[test]
fn rejects_non_leading_python_docstring() {
    assert_eq!(
        extract_module_docstring("import os\n\"\"\"Not a module docstring\"\"\"\n"),
        None
    );
}

#[test]
fn extracts_rust_line_module_docs() {
    assert_eq!(
        extract_rust_module_doc(
            "//! Core tree traversal.\n//! Renders output.\n\npub fn run() {}\n"
        ),
        Some("Core tree traversal. Renders output.".to_string())
    );
}

#[test]
fn extracts_rust_block_module_docs() {
    assert_eq!(
        extract_rust_module_doc(
            "/*!\n * Core tree traversal.\n * Renders output.\n */\npub fn run() {}\n"
        ),
        Some("Core tree traversal. Renders output.".to_string())
    );
}

#[test]
fn rejects_non_leading_rust_docs() {
    assert_eq!(
        extract_rust_module_doc(
            "// regular comment\n//! Not module docs here\npub fn run() {}\n"
        ),
        None
    );
}
