//! The supported languages, their extensions, and how their docs are
//! written in their comment syntax.
use vstd::prelude::*;

use crate::chars::{opt_chars, opt_string_seqs, string_seqs};
use crate::python::{extract_module_docstring, module_docstring};
use crate::rust_docs::{
    extract_rust_module_doc,
    extract_rust_module_doc_lines,
    rust_module_doc,
    rust_module_doc_lines,
};
use crate::tsdoc::{extract_leading_tsdoc, leading_tsdoc};

verus! {

/// A language whose leading documentation comments are understood.
#[derive(Clone, Copy, PartialEq, Eq, Structural, Debug)]
pub enum DocLanguage {
    /// TypeScript (`.ts`, `.tsx`): a leading `/** ... */` comment.
    TypeScript,
    /// Python (`.py`): the module docstring.
    Python,
    /// Rust (`.rs`): leading `//!` lines or a `/*! ... */` block.
    Rust,
}

/// The language of files with extension `ext`.
pub open spec fn language_for_extension(ext: Seq<char>) -> Option<DocLanguage> {
    if ext == seq!['t', 's'] || ext == seq!['t', 's', 'x'] {
        Some(DocLanguage::TypeScript)
    } else if ext == seq!['p', 'y'] {
        Some(DocLanguage::Python)
    } else if ext == seq!['r', 's'] {
        Some(DocLanguage::Rust)
    } else {
        None
    }
}

impl DocLanguage {
    /// The leading doc of a file of this language, on one line.
    pub open spec fn file_doc(self, contents: Seq<char>) -> Option<Seq<char>> {
        match self {
            DocLanguage::TypeScript => leading_tsdoc(contents),
            DocLanguage::Python => module_docstring(contents),
            DocLanguage::Rust => rust_module_doc(contents),
        }
    }

    /// The leading doc of a file of this language, line by line: one line for
    /// TypeScript and Python, one per `//!` line with text for Rust.
    pub open spec fn file_doc_lines(self, contents: Seq<char>) -> Option<Seq<Seq<char>>> {
        match self {
            DocLanguage::TypeScript => match leading_tsdoc(contents) {
                Some(d) => Some(seq![d]),
                None => None,
            },
            DocLanguage::Python => match module_docstring(contents) {
                Some(d) => Some(seq![d]),
                None => None,
            },
            DocLanguage::Rust => rust_module_doc_lines(contents),
        }
    }

    /// A line of doc text in the comment syntax of the language.
    pub open spec fn doc_line(self, doc: Seq<char>) -> Seq<char> {
        match self {
            DocLanguage::TypeScript => seq!['/', '*', '*', ' '] + doc + seq![' ', '*', '/'],
            DocLanguage::Python => seq!['"', '"', '"', ' '] + doc + seq![' ', '"', '"', '"'],
            DocLanguage::Rust => seq!['/', '/', '!', ' '] + doc,
        }
    }

    /// How a one-line doc of this language is shown after a name: in the
    /// comment syntax of the language, behind a space.
    pub open spec fn rendered(self, doc: Seq<char>) -> Seq<char> {
        seq![' '] + self.doc_line(doc)
    }

    /// The leading doc of a file of this language line by line, as
    /// `file_doc_lines` says.
    pub fn extract_file_doc_lines(&self, contents: &str) -> (r: Option<Vec<String>>)
        ensures
            opt_string_seqs(r) == self.file_doc_lines(contents@),
    {
        let one = match self {
            DocLanguage::TypeScript => extract_leading_tsdoc(contents),
            DocLanguage::Python => extract_module_docstring(contents),
            DocLanguage::Rust => {
                return extract_rust_module_doc_lines(contents);
            },
        };
        match one {
            Some(d) => {
                let r: Vec<String> = vec![d];
                assert(string_seqs(r@) =~= seq![r@[0]@]);
                Some(r)
            },
            None => None,
        }
    }

    /// `doc` as a line in the comment syntax of the language, as `doc_line`
    /// says.
    pub fn format_line(&self, doc: &str) -> (r: String)
        ensures
            r@ == self.doc_line(doc@),
    {
        proof {
            reveal_strlit("/** ");
            reveal_strlit(" */");
            reveal_strlit("\"\"\" ");
            reveal_strlit(" \"\"\"");
            reveal_strlit("//! ");
        }
        let (open, close) = match self {
            DocLanguage::TypeScript => ("/** ", " */"),
            DocLanguage::Python => ("\"\"\" ", " \"\"\""),
            DocLanguage::Rust => ("//! ", ""),
        };
        proof {
            reveal_strlit("");
        }
        let mut r = String::from_str(open);
        r.append(doc);
        r.append(close);
        assert(r@ =~= self.doc_line(doc@));
        r
    }

    /// The leading doc of a file of this language, as `file_doc` says.
    pub fn extract_file_doc(&self, contents: &str) -> (r: Option<String>)
        ensures
            opt_chars(r) == self.file_doc(contents@),
    {
        match self {
            DocLanguage::TypeScript => extract_leading_tsdoc(contents),
            DocLanguage::Python => extract_module_docstring(contents),
            DocLanguage::Rust => extract_rust_module_doc(contents),
        }
    }

    /// `doc` rendered as `rendered` says.
    pub fn format(&self, doc: &str) -> (r: String)
        ensures
            r@ == self.rendered(doc@),
    {
        match self {
            DocLanguage::TypeScript => format_tsdoc(doc),
            DocLanguage::Python => format_python_docstring(doc),
            DocLanguage::Rust => format_rust_module_doc(doc),
        }
    }
}

/// Whether `a` and `b` hold the same characters.
fn same_text(a: &str, b: &str) -> (r: bool)
    ensures
        r == (a@ == b@),
{
    let n = a.unicode_len();
    if n != b.unicode_len() {
        return false;
    }
    let mut i: usize = 0;
    while i < n
        invariant
            n == a@.len(),
            n == b@.len(),
            i <= n,
            forall|k: int| 0 <= k < i ==> a@[k] == b@[k],
        decreases n - i,
    {
        if a.get_char(i) != b.get_char(i) {
            return false;
        }
        i = i + 1;
    }
    assert(a@ =~= b@);
    true
}

/// The language of files with extension `ext`, as `language_for_extension`
/// says.
pub fn find_language_doc_support(ext: &str) -> (r: Option<DocLanguage>)
    ensures
        r == language_for_extension(ext@),
{
    proof {
        reveal_strlit("ts");
        reveal_strlit("tsx");
        reveal_strlit("py");
        reveal_strlit("rs");
        assert("ts"@ =~= seq!['t', 's']);
        assert("tsx"@ =~= seq!['t', 's', 'x']);
        assert("py"@ =~= seq!['p', 'y']);
        assert("rs"@ =~= seq!['r', 's']);
    }
    if same_text(ext, "ts") || same_text(ext, "tsx") {
        Some(DocLanguage::TypeScript)
    } else if same_text(ext, "py") {
        Some(DocLanguage::Python)
    } else if same_text(ext, "rs") {
        Some(DocLanguage::Rust)
    } else {
        None
    }
}

/// A TSDoc text shown after a name: ` /** doc */`.
pub fn format_tsdoc(doc: &str) -> (r: String)
    ensures
        r@ == DocLanguage::TypeScript.rendered(doc@),
{
    proof {
        reveal_strlit(" /** ");
        reveal_strlit(" */");
    }
    let mut r = String::from_str(" /** ");
    r.append(doc);
    r.append(" */");
    r
}

/// A docstring text shown after a name: ` """ doc """`.
pub fn format_python_docstring(doc: &str) -> (r: String)
    ensures
        r@ == DocLanguage::Python.rendered(doc@),
{
    proof {
        reveal_strlit(" \"\"\" ");
        reveal_strlit(" \"\"\"");
    }
    let mut r = String::from_str(" \"\"\" ");
    r.append(doc);
    r.append(" \"\"\"");
    r
}

/// A module doc text shown after a name: ` //! doc`.
pub fn format_rust_module_doc(doc: &str) -> (r: String)
    ensures
        r@ == DocLanguage::Rust.rendered(doc@),
{
    proof {
        reveal_strlit(" //! ");
    }
    let mut r = String::from_str(" //! ");
    r.append(doc);
    r
}

} // verus!
