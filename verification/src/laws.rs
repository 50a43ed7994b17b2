//! Properties that hold of every input: what may stand before a leading doc
//! without changing it, that extracted docs are one line, and how the doc
//! shown for a path keeps its lines.
use vstd::prelude::*;

use crate::leading::{is_bom, leading_contents, without_bom, without_shebang};
use crate::python::{
    after_python_trivia,
    lemma_trivia_covers_shebang,
    lemma_trivia_end_bounds,
    lemma_trivia_end_shift,
    module_docstring,
    python_string_literal,
    python_trivia_end,
};
use crate::language::{language_for_extension, DocLanguage};
use crate::shown::{
    directory_doc,
    entry_docs_from,
    entry_file_count,
    entry_file_extension,
    file_doc,
    lemma_lines_below_split,
    shown_file_lines,
    shown_text,
    shows_apart,
    stacked,
};
use crate::lines::{
    clean_line,
    has_no_newline,
    is_one_line_text,
    join_words,
    lemma_collapse_one_line,
    lemma_lines_no_newline,
    split_lines,
};
use crate::rust_docs::{
    block_doc_opener,
    lemma_line_doc_run_carriage_return,
    lemma_line_doc_run_one_line,
    lemma_rust_module_doc_one_line,
    rust_module_doc_lines,
    line_doc_opener,
    line_doc_run,
    rust_module_doc,
};
use crate::text::{
    find_from,
    lemma_find_first,
    lemma_occurs_single,
    lemma_run_end_shift,
    lemma_trim_carriage_return,
    occurs_at,
    run_end,
    starts_with,
    trim_start,
    CharSet,
};
use crate::tsdoc::{block_closer, comment_body, leading_tsdoc, tsdoc_opener};

verus! {

/// `s` does not start with a byte order mark.
pub open spec fn starts_without_bom(s: Seq<char>) -> bool {
    !(s.len() > 0 && is_bom(s[0]))
}

/// `line` is a single line: it holds no `'\n'`.
pub open spec fn is_single_line(line: Seq<char>) -> bool {
    forall|i: int| 0 <= i < line.len() ==> line[i] != '\n'
}

proof fn lemma_newline_at(x: Seq<char>, from: int, at: int)
    requires
        0 <= from <= at < x.len(),
        x[at] == '\n',
        forall|k: int| from <= k < at ==> x[k] != '\n',
    ensures
        find_from(x, seq!['\n'], from) == Some(at),
{
    lemma_occurs_single(x, '\n', at);
    assert forall|k: int| from <= k < at implies !occurs_at(x, seq!['\n'], k) by {
        lemma_occurs_single(x, '\n', k);
    }
    lemma_find_first(x, seq!['\n'], from, at);
}

proof fn lemma_no_leading_marks(s: Seq<char>)
    requires
        starts_without_bom(s),
        !starts_with(s, seq!['#', '!']),
    ensures
        leading_contents(s) == s,
{
}

/// A `#!` line, `#!` then `line`, is dropped from the front of `#!` + `line` +
/// `'\n'` + `s`.
proof fn lemma_shebang_dropped(line: Seq<char>, s: Seq<char>)
    requires
        is_single_line(line),
    ensures
        leading_contents(seq!['#', '!'] + line + seq!['\n'] + s) == s,
{
    let x = seq!['#', '!'] + line + seq!['\n'] + s;
    let at: int = 2 + line.len() as int;
    assert(without_bom(x) == x);
    assert(x.subrange(0, 2) =~= seq!['#', '!']);
    assert(x[at] == '\n');
    assert forall|k: int| 2 <= k < at implies x[k] != '\n' by {
        assert(x[k] == line[k - 2]);
    }
    lemma_newline_at(x, 2, at);
    assert(x.skip(at + 1) =~= s);
}

/// A byte order mark before the contents changes no doc: the contents `s`,
/// which do not start with one themselves, have the same TypeScript, Python
/// and Rust doc with one in front.
pub proof fn bom_before_doc_is_ignored(s: Seq<char>)
    requires
        starts_without_bom(s),
    ensures
        leading_tsdoc(seq!['\u{feff}'] + s) == leading_tsdoc(s),
        module_docstring(seq!['\u{feff}'] + s) == module_docstring(s),
        rust_module_doc(seq!['\u{feff}'] + s) == rust_module_doc(s),
{
    let x = seq!['\u{feff}'] + s;
    assert(x.drop_first() =~= s);
    assert(without_bom(x) == without_bom(s));
}

/// A `#!` interpreter line before the contents changes no doc: for contents
/// `s` that start with neither a byte order mark nor `#!`, and a `line`
/// without `'\n'`, `#!` + `line` + `'\n'` + `s` has the same TypeScript,
/// Python and Rust doc as `s`.
pub proof fn shebang_before_doc_is_ignored(line: Seq<char>, s: Seq<char>)
    requires
        is_single_line(line),
        starts_without_bom(s),
        !starts_with(s, seq!['#', '!']),
    ensures
        leading_tsdoc(seq!['#', '!'] + line + seq!['\n'] + s) == leading_tsdoc(s),
        module_docstring(seq!['#', '!'] + line + seq!['\n'] + s) == module_docstring(s),
        rust_module_doc(seq!['#', '!'] + line + seq!['\n'] + s) == rust_module_doc(s),
{
    lemma_shebang_dropped(line, s);
    lemma_no_leading_marks(s);
}

/// A `#` comment line before a Python module docstring does not hide it: for
/// contents `s` that do not start with a byte order mark, and a comment text
/// `line` without `'\n'`, `#` + `line` + `'\n'` + `s` has the docstring of `s`.
pub proof fn comment_line_before_docstring_is_skipped(line: Seq<char>, s: Seq<char>)
    requires
        is_single_line(line),
        starts_without_bom(s),
    ensures
        module_docstring(seq!['#'] + line + seq!['\n'] + s) == module_docstring(s),
{
    let x = seq!['#'] + line + seq!['\n'] + s;
    assert(leading_contents(s) == without_shebang(s));
    lemma_trivia_covers_shebang(s);
    if line.len() > 0 && line[0] == '!' {
        let rest = line.drop_first();
        assert(x =~= seq!['#', '!'] + rest + seq!['\n'] + s);
        lemma_shebang_dropped(rest, s);
    } else {
        let at: int = 1 + line.len() as int;
        assert(without_bom(x) == x);
        assert(x[1] != '!') by {
            if line.len() > 0 {
                assert(x[1] == line[0]);
            } else {
                assert(x[1] == '\n');
            }
        }
        assert(!starts_with(x, seq!['#', '!'])) by {
            if x.len() >= 2 && x.subrange(0, 2) == seq!['#', '!'] {
                assert(x.subrange(0, 2)[1] == x[1]);
            }
        }
        assert(leading_contents(x) == x);
        assert(x[at] == '\n');
        assert forall|k: int| 1 <= k < at implies x[k] != '\n' by {
            assert(x[k] == line[k - 1]);
        }
        lemma_newline_at(x, 1, at);
        let pre = seq!['#'] + line + seq!['\n'];
        assert(x =~= pre + s);
        lemma_trivia_end_shift(pre, s, 0);
        let t = python_trivia_end(s, 0);
        lemma_trivia_end_bounds(s, 0);
        assert(python_trivia_end(x, 0) == python_trivia_end(x, (at + 1) as nat));
        assert(python_trivia_end(x, 0) == pre.len() + t);
        assert(after_python_trivia(x) =~= after_python_trivia(s));
    }
}

/// Blank characters before a Python module docstring do not hide it: for
/// contents `s` that do not start with a byte order mark, and `c` a space,
/// tab, `'\r'` or `'\n'`, `c` + `s` has the docstring of `s`.
pub proof fn blank_before_docstring_is_skipped(c: char, s: Seq<char>)
    requires
        CharSet::Blank.contains(c),
        starts_without_bom(s),
    ensures
        module_docstring(seq![c] + s) == module_docstring(s),
{
    let x = seq![c] + s;
    assert(leading_contents(s) == without_shebang(s));
    lemma_trivia_covers_shebang(s);
    assert(without_bom(x) == x);
    assert(!starts_with(x, seq!['#', '!'])) by {
        if x.len() >= 2 && x.subrange(0, 2) == seq!['#', '!'] {
            assert(x.subrange(0, 2)[0] == x[0]);
        }
    }
    assert(leading_contents(x) == x);
    lemma_trivia_end_shift(seq![c], s, 0);
    lemma_trivia_end_bounds(s, 0);
    assert(python_trivia_end(x, 0) == python_trivia_end(x, 1));
    assert(after_python_trivia(x) =~= after_python_trivia(s));
}

/// Blank characters before Rust module docs do not hide them: for contents
/// `s` that start with neither a byte order mark nor `#!`, and `c` a space,
/// tab, `'\r'` or `'\n'`, `c` + `s` has the module docs of `s`.
pub proof fn blank_before_rust_module_doc_is_skipped(c: char, s: Seq<char>)
    requires
        CharSet::Blank.contains(c),
        starts_without_bom(s),
        !starts_with(s, seq!['#', '!']),
    ensures
        rust_module_doc(seq![c] + s) == rust_module_doc(s),
{
    let x = seq![c] + s;
    lemma_no_leading_marks(s);
    assert(without_bom(x) == x);
    assert(!starts_with(x, seq!['#', '!'])) by {
        if x.len() >= 2 && x.subrange(0, 2) == seq!['#', '!'] {
            assert(x.subrange(0, 2)[0] == x[0]);
        }
    }
    assert(leading_contents(x) == x);
    lemma_run_end_shift(seq![c], s, CharSet::Blank, 0);
    crate::text::lemma_run_end_bounds(s, CharSet::Blank, 0);
    assert(run_end(x, CharSet::Blank, 0) == run_end(x, CharSet::Blank, 1));
    assert(trim_start(x, CharSet::Blank) =~= trim_start(s, CharSet::Blank));
}

/// A doc must lead: other content before it means there is none. A TypeScript
/// file's contents (after a byte order mark and a `#!` line) must start with
/// `/**`; a Rust file's, after blank characters too, with `//!` or `/*!`; and a
/// Python file's first code after blank lines and comments must be a string
/// literal.
pub proof fn docs_must_lead(s: Seq<char>)
    ensures
        leading_tsdoc(s) is Some ==> starts_with(leading_contents(s), tsdoc_opener()),
        rust_module_doc(s) is Some ==> ({
            let c = trim_start(leading_contents(s), CharSet::Blank);
            starts_with(c, line_doc_opener()) || starts_with(c, block_doc_opener())
        }),
        module_docstring(s) is Some ==> python_string_literal(
            after_python_trivia(leading_contents(s)),
        ) is Some,
{
}

/// Every extracted doc is one line of text: when a TypeScript, Python or
/// Rust doc is found, it is not empty, holds no `'\n'`, and neither starts nor
/// ends with whitespace.
pub proof fn extracted_docs_are_one_line(s: Seq<char>)
    ensures
        leading_tsdoc(s) matches Some(d) ==> is_one_line_text(d),
        module_docstring(s) matches Some(d) ==> is_one_line_text(d),
        rust_module_doc(s) matches Some(d) ==> is_one_line_text(d),
{
    let c = leading_contents(s);
    match find_from(c, block_closer(), 0) {
        Some(end) => match comment_body(c.take(end + 2), tsdoc_opener()) {
            Some(inner) => lemma_collapse_one_line(inner, true),
            None => {},
        },
        None => {},
    }
    match python_string_literal(after_python_trivia(c)) {
        Some((literal, _)) => lemma_collapse_one_line(literal, false),
        None => {},
    }
    lemma_rust_module_doc_one_line(s);
}

/// The doc lines of a file of a supported language are each one line of text,
/// and there is at least one.
proof fn lemma_file_doc_lines_one_line(language: DocLanguage, text: Seq<char>)
    ensures
        language.file_doc_lines(text) matches Some(docs) ==> {
            &&& docs.len() > 0
            &&& forall|k: int| 0 <= k < docs.len() ==> is_one_line_text(#[trigger] docs[k])
        },
{
    extracted_docs_are_one_line(text);
    let c = trim_start(leading_contents(text), CharSet::Blank);
    if starts_with(c, line_doc_opener()) {
        lemma_lines_no_newline(c, 0);
        lemma_line_doc_run_one_line(split_lines(c), false);
    }
}

/// The lines shown for a file each hold no `'\n'`, and there is at least one.
proof fn lemma_shown_file_lines(extension: Option<Seq<char>>, contents: Option<Seq<char>>)
    ensures
        shown_file_lines(extension, contents) matches Some(lines) ==> shows_apart(lines),
{
    match (extension, contents) {
        (Some(ext), Some(text)) => match language_for_extension(ext) {
            Some(language) => {
                lemma_file_doc_lines_one_line(language, text);
                match language.file_doc_lines(text) {
                    Some(docs) => {
                        let lines = docs.map_values(|d: Seq<char>| language.doc_line(d));
                        assert forall|k: int| 0 <= k < lines.len() implies has_no_newline(
                            #[trigger] lines[k],
                        ) by {
                            let d = docs[k];
                            assert(is_one_line_text(d));
                            let l = language.doc_line(d);
                            assert(lines[k] == l);
                            assert forall|m: int| 0 <= m < l.len() implies l[m] != '\n' by {
                                if 4 <= m < 4 + d.len() {
                                    assert(l[m] == d[m - 4]);
                                }
                            }
                        }
                    },
                    None => {},
                }
            },
            None => {},
        },
        _ => {},
    }
}

/// The docs of the entry files from `i` on each show apart.
proof fn lemma_entry_docs_apart(entries: Seq<Option<Seq<char>>>, i: nat)
    ensures
        forall|k: int|
            0 <= k < entry_docs_from(entries, i).len() ==> shows_apart(
                #[trigger] entry_docs_from(entries, i)[k],
            ),
    decreases entry_file_count() - i,
{
    if i < entry_file_count() {
        let contents = if i < entries.len() {
            entries[i as int]
        } else {
            None
        };
        lemma_shown_file_lines(Some(entry_file_extension(i as int)), contents);
        lemma_entry_docs_apart(entries, i + 1);
        let rest = entry_docs_from(entries, i + 1);
        match shown_file_lines(Some(entry_file_extension(i as int)), contents) {
            Some(lines) => {
                assert forall|k: int|
                    0 <= k < entry_docs_from(entries, i).len() implies shows_apart(
                    #[trigger] entry_docs_from(entries, i)[k],
                ) by {
                    if k > 0 {
                        assert(entry_docs_from(entries, i)[k] == rest[k - 1]);
                    }
                }
            },
            None => {},
        }
    }
}

/// Docs stacked with empty lines between them still show apart.
proof fn lemma_stacked_apart(docs: Seq<Seq<Seq<char>>>)
    requires
        docs.len() > 0,
        forall|k: int| 0 <= k < docs.len() ==> shows_apart(#[trigger] docs[k]),
    ensures
        shows_apart(stacked(docs)),
    decreases docs.len(),
{
    if docs.len() > 1 {
        let init = docs.drop_last();
        assert forall|k: int| 0 <= k < init.len() implies shows_apart(#[trigger] init[k]) by {
            assert(init[k] == docs[k]);
        }
        lemma_stacked_apart(init);
        let a = stacked(init);
        let l = docs.last();
        assert(shows_apart(l));
        let r = a + seq![seq![]] + l;
        assert forall|k: int| 0 <= k < r.len() implies has_no_newline(#[trigger] r[k]) by {
            if k < a.len() {
                assert(r[k] == a[k]);
            } else if k == a.len() {
                assert(r[k] == Seq::<char>::empty());
            } else {
                assert(r[k] == l[k - a.len() - 1]);
            }
        }
    }
}

/// A doc that is one line stays inline after the name, behind a space; a doc
/// of several lines shows each of them on a line of its own below the name:
/// splitting the shown text at `'\n'` gives an empty first piece (the rest of
/// the name's line) and then exactly the doc's lines. This holds for the doc
/// shown for a file and for a directory.
pub proof fn shown_docs_keep_their_lines(
    extension: Option<Seq<char>>,
    contents: Option<Seq<char>>,
    entry_contents: Seq<Option<Seq<char>>>,
)
    ensures
        shown_file_lines(extension, contents) matches Some(lines) ==> {
            &&& lines.len() == 1 ==> file_doc(extension, contents) == Some(seq![' '] + lines[0])
                && has_no_newline(lines[0])
            &&& lines.len() >= 2 ==> split_lines(file_doc(extension, contents)->0) == seq![
                seq![],
            ] + lines
        },
        entry_docs_from(entry_contents, 0).len() > 0 ==> {
            let lines = stacked(entry_docs_from(entry_contents, 0));
            &&& lines.len() == 1 ==> directory_doc(entry_contents) == Some(seq![' '] + lines[0])
                && has_no_newline(lines[0])
            &&& lines.len() >= 2 ==> split_lines(directory_doc(entry_contents)->0) == seq![
                seq![],
            ] + lines
        },
{
    lemma_shown_file_lines(extension, contents);
    match shown_file_lines(extension, contents) {
        Some(lines) => {
            if lines.len() >= 2 {
                lemma_lines_below_split(lines);
            }
        },
        None => {},
    }
    let docs = entry_docs_from(entry_contents, 0);
    if docs.len() > 0 {
        lemma_entry_docs_apart(entry_contents, 0);
        lemma_stacked_apart(docs);
        let lines = stacked(docs);
        if lines.len() >= 2 {
            lemma_lines_below_split(lines);
        }
    }
}

/// A one-line doc is shown as the language writes it after a name: the
/// rendering of each language, behind a space.
pub proof fn one_line_docs_show_as_rendered(language: DocLanguage, doc: Seq<char>)
    ensures
        shown_text(seq![language.doc_line(doc)]) == language.rendered(doc),
{
}

/// The module doc of a Rust file is its doc lines joined by spaces.
pub proof fn rust_module_doc_is_its_lines_joined(s: Seq<char>)
    ensures
        rust_module_doc(s) == match rust_module_doc_lines(s) {
            Some(lines) => Some(join_words(lines)),
            None => None,
        },
{
}

/// Skipping the blank lines and comments before Python code twice skips no
/// more than doing it once.
pub proof fn skipping_python_trivia_is_idempotent(s: Seq<char>)
    ensures
        after_python_trivia(after_python_trivia(s)) == after_python_trivia(s),
{
    lemma_trivia_end_bounds(s, 0);
    let t = python_trivia_end(s, 0);
    let r = s.skip(t as int);
    assert(r == after_python_trivia(s));
    if t < s.len() {
        assert(r[0] == s[t as int]);
        assert(python_trivia_end(r, 0) == 0);
    } else {
        assert(r.len() == 0);
    }
    assert(r.skip(0) =~= r);
}

/// A `'\r'` at the end of a line, as a `"\r\n"` line ending leaves it,
/// changes nothing: not the cleaned form of a comment line, and not a run of
/// `//!` lines that starts with that line.
pub proof fn carriage_return_at_line_end_changes_nothing(
    line: Seq<char>,
    rest: Seq<Seq<char>>,
    seen: bool,
    strip_star: bool,
)
    ensures
        clean_line(line.push('\r'), strip_star) == clean_line(line, strip_star),
        line_doc_run(seq![line.push('\r')] + rest, seen) == line_doc_run(seq![line] + rest, seen),
{
    lemma_trim_carriage_return(line);
    lemma_line_doc_run_carriage_return(line, rest, seen);
}

} // verus!
