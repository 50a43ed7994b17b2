//! What each comment syntax means, stated over the shape of the input: where
//! a comment or a literal ends, which lines a run of `//!` lines keeps, which
//! extensions are supported, and which lines a file shows.
use vstd::prelude::*;

use crate::language::{language_for_extension, DocLanguage};
use crate::leading::{leading_contents, without_bom};
use crate::lines::collapse_lines;
use crate::python::{after_python_trivia, closing_quote, module_docstring, python_trivia_end};
use crate::rust_docs::{line_doc_run, rust_module_doc, rust_module_doc_lines};
use crate::shown::shown_file_lines;
use crate::text::{
    find_from,
    lemma_find_first,
    occurs_at,
    run_end,
    starts_with,
    trim,
    trim_start,
    CharSet,
};
use crate::tsdoc::leading_tsdoc;

verus! {

proof fn lemma_occurs_pair(s: Seq<char>, a: char, b: char, k: int)
    ensures
        occurs_at(s, seq![a, b], k) <==> (0 <= k && k + 2 <= s.len() && s[k] == a && s[k + 1]
            == b),
{
    if 0 <= k && k + 2 <= s.len() {
        let w = s.subrange(k, k + 2);
        if w == seq![a, b] {
            assert(w[0] == s[k] && w[1] == s[k + 1]);
        }
        if s[k] == a && s[k + 1] == b {
            assert(w =~= seq![a, b]);
        }
    }
}

proof fn lemma_occurs_triple(s: Seq<char>, q: char, k: int)
    ensures
        occurs_at(s, seq![q, q, q], k) <==> (0 <= k && k + 3 <= s.len() && s[k] == q && s[k + 1]
            == q && s[k + 2] == q),
{
    if 0 <= k && k + 3 <= s.len() {
        let w = s.subrange(k, k + 3);
        if w == seq![q, q, q] {
            assert(w[0] == s[k] && w[1] == s[k + 1] && w[2] == s[k + 2]);
        }
        if s[k] == q && s[k + 1] == q && s[k + 2] == q {
            assert(w =~= seq![q, q, q]);
        }
    }
}

/// `pat` occurs nowhere in `s`.
pub open spec fn lacks(s: Seq<char>, pat: Seq<char>) -> bool {
    forall|k: int| !occurs_at(s, pat, k)
}

/// A triple-quoted Python docstring ends only at the next three quotes of its
/// kind: for a body `b` that holds no such three quotes and does not end with
/// the quote, the module docstring of `qqq` + `b` + `qqq` + `rest` is the text
/// of all of `b`, whatever single quotes it holds.
#[verifier::rlimit(30)]
pub proof fn triple_quoted_docstring_runs_to_three_quotes(
    q: char,
    b: Seq<char>,
    rest: Seq<char>,
)
    requires
        q == '"' || q == '\'',
        lacks(b, seq![q, q, q]),
        b.len() == 0 || b.last() != q,
    ensures
        module_docstring(seq![q, q, q] + b + seq![q, q, q] + rest) == collapse_lines(b, false),
{
    let qqq = seq![q, q, q];
    let s = qqq + b + qqq + rest;
    let l = b.len() as int;
    assert(s[0] == q);
    lemma_one_quote_start(s, q);
    lemma_occurs_triple(s, q, 0);
    assert forall|j: int| 0 <= j < l implies s[3 + j] == b[j] by {}
    assert(s[3 + l] == q && s[4 + l] == q && s[5 + l] == q);
    lemma_occurs_triple(s, q, 3 + l);
    assert forall|k: int| 3 <= k < 3 + l implies !occurs_at(s, qqq, k) by {
        lemma_occurs_triple(s, q, k);
        if occurs_at(s, qqq, k) {
            if k + 2 < 3 + l {
                lemma_occurs_triple(b, q, k - 3);
                assert(occurs_at(b, qqq, k - 3));
            } else {
                assert(s[2 + l] == b[l - 1]);
                assert(b.last() == b[l - 1]);
            }
        }
    }
    lemma_find_first(s, qqq, 3, 3 + l);
    assert(s.subrange(3, 3 + l) =~= b);
}

/// A file that starts with `/**` has as its TSDoc the text of everything up to
/// the first `*/`, however long: for a body `b` that holds no `*/` and does
/// not start with `/`, the TSDoc of `/**` + `b` + `*/` + `rest` is the text of
/// all of `b`.
pub proof fn tsdoc_runs_to_first_closer(b: Seq<char>, rest: Seq<char>)
    requires
        lacks(b, seq!['*', '/']),
        b.len() == 0 || b[0] != '/',
    ensures
        leading_tsdoc(seq!['/', '*', '*'] + b + seq!['*', '/'] + rest) == collapse_lines(b, true),
{
    let s = seq!['/', '*', '*'] + b + seq!['*', '/'] + rest;
    let l = b.len() as int;
    lemma_block_ends_at_closer(seq!['/', '*', '*'], b, rest);
    assert(without_bom(s) == s);
    assert(!starts_with(s, seq!['#', '!'])) by {
        lemma_occurs_pair(s, '#', '!', 0);
    }
    assert(leading_contents(s) == s);
    assert(s.subrange(0, 3) =~= seq!['/', '*', '*']);
    let block = s.take(l + 5);
    assert(block =~= seq!['/', '*', '*'] + b + seq!['*', '/']);
    assert(block.subrange(0, 3) =~= seq!['/', '*', '*']);
    assert(block.subrange(l + 3, l + 5) =~= seq!['*', '/']);
    assert(block.subrange(3, l + 3) =~= b);
}

/// A Rust file that starts with `/*!` has as its module doc the text of
/// everything up to the first `*/`, however long: for a body `b` that holds
/// no `*/`, the module doc of `/*!` + `b` + `*/` + `rest` is the text of all
/// of `b`.
pub proof fn rust_block_doc_runs_to_first_closer(b: Seq<char>, rest: Seq<char>)
    requires
        lacks(b, seq!['*', '/']),
    ensures
        rust_module_doc(seq!['/', '*', '!'] + b + seq!['*', '/'] + rest) == collapse_lines(
            b,
            true,
        ),
{
    let s = seq!['/', '*', '!'] + b + seq!['*', '/'] + rest;
    let l = b.len() as int;
    lemma_block_ends_at_closer(seq!['/', '*', '!'], b, rest);
    assert(without_bom(s) == s);
    assert(!starts_with(s, seq!['#', '!'])) by {
        lemma_occurs_pair(s, '#', '!', 0);
    }
    assert(leading_contents(s) == s);
    assert(run_end(s, CharSet::Blank, 0) == 0);
    assert(trim_start(s, CharSet::Blank) =~= s);
    assert(!starts_with(s, seq!['/', '/', '!'])) by {
        if starts_with(s, seq!['/', '/', '!']) {
            assert(s.subrange(0, 3)[1] == s[1]);
        }
    }
    assert(s.subrange(0, 3) =~= seq!['/', '*', '!']);
    let block = s.take(l + 5);
    assert(block =~= seq!['/', '*', '!'] + b + seq!['*', '/']);
    assert(block.subrange(0, 3) =~= seq!['/', '*', '!']);
    assert(block.subrange(l + 3, l + 5) =~= seq!['*', '/']);
    assert(block.subrange(3, l + 3) =~= b);
}

/// The first `*/` after a three-character opener that ends `*` or `!` and a
/// body without `*/` (not starting with `/` after a `*`) is the one after the
/// body.
proof fn lemma_block_ends_at_closer(opener: Seq<char>, b: Seq<char>, rest: Seq<char>)
    requires
        opener == seq!['/', '*', '*'] || opener == seq!['/', '*', '!'],
        lacks(b, seq!['*', '/']),
        opener == seq!['/', '*', '*'] ==> (b.len() == 0 || b[0] != '/'),
    ensures
        find_from(opener + b + seq!['*', '/'] + rest, seq!['*', '/'], 0) == Some(3 + b.len() as int),
{
    let s = opener + b + seq!['*', '/'] + rest;
    let l = b.len() as int;
    assert(s[0] == '/' && s[1] == '*' && s[2] == opener[2]);
    assert forall|j: int| 0 <= j < l implies s[3 + j] == b[j] by {}
    assert(s[3 + l] == '*' && s[4 + l] == '/');
    lemma_occurs_pair(s, '*', '/', 3 + l);
    assert forall|k: int| 0 <= k < 3 + l implies !occurs_at(s, seq!['*', '/'], k) by {
        lemma_occurs_pair(s, '*', '/', k);
        if occurs_at(s, seq!['*', '/'], k) {
            if k == 2 {
                if l > 0 {
                    assert(s[3] == b[0]);
                }
            } else if k >= 3 && k + 1 < 3 + l {
                lemma_occurs_pair(b, '*', '/', k - 3);
                assert(occurs_at(b, seq!['*', '/'], k - 3));
            }
        }
    }
    lemma_find_first(s, seq!['*', '/'], 0, 3 + l);
}

/// A `//!` line: one that starts with `//!` after its indentation.
pub open spec fn is_line_doc_line(line: Seq<char>) -> bool {
    starts_with(trim_start(line, CharSet::Whitespace), seq!['/', '/', '!'])
}

/// The text of a `//!` line: what follows `//!`, trimmed.
pub open spec fn line_doc_text(line: Seq<char>) -> Seq<char> {
    trim(trim_start(line, CharSet::Whitespace).skip(3), CharSet::Whitespace)
}

/// A run made only of `//!` lines keeps the text of every one of them that has
/// some, in order, whatever that text is.
pub proof fn every_line_doc_line_keeps_its_text(lines: Seq<Seq<char>>, seen: bool)
    requires
        forall|k: int| 0 <= k < lines.len() ==> is_line_doc_line(#[trigger] lines[k]),
    ensures
        line_doc_run(lines, seen) == lines.map_values(|l: Seq<char>| line_doc_text(l)).filter(
            |d: Seq<char>| d.len() > 0,
        ),
    decreases lines.len(),
{
    let f = |l: Seq<char>| line_doc_text(l);
    let p = |d: Seq<char>| d.len() > 0;
    if lines.len() == 0 {
        reveal(Seq::filter);
        assert(lines.map_values(f) =~= Seq::<Seq<char>>::empty());
    } else {
        let rest = lines.drop_first();
        assert forall|k: int| 0 <= k < rest.len() implies is_line_doc_line(#[trigger] rest[k]) by {
            assert(rest[k] == lines[k + 1]);
        }
        assert(is_line_doc_line(lines[0]));
        let d = line_doc_text(lines[0]);
        every_line_doc_line_keeps_its_text(rest, seen || d.len() > 0);
        assert(lines.map_values(f) =~= seq![d] + rest.map_values(f));
        Seq::filter_distributes_over_add(seq![d], rest.map_values(f), p);
        reveal_with_fuel(Seq::filter, 2);
        assert(seq![d].drop_last() =~= Seq::<Seq<char>>::empty());
        if d.len() > 0 {
            assert(seq![d].filter(p) =~= seq![d]);
        } else {
            assert(seq![d].filter(p) =~= Seq::<Seq<char>>::empty());
            assert(Seq::<Seq<char>>::empty() + rest.map_values(f).filter(p) =~= rest.map_values(
                f,
            ).filter(p));
        }
    }
}

/// A run of `//!` lines ends at the first line that is not one, unless that
/// line is blank and no text has been found yet: such blank lines are
/// skipped.
pub proof fn line_doc_run_ends_at_other_lines(l: Seq<char>, rest: Seq<Seq<char>>, seen: bool)
    requires
        !is_line_doc_line(l),
    ensures
        (trim_start(l, CharSet::Whitespace).len() > 0 || seen) ==> line_doc_run(
            seq![l] + rest,
            seen,
        ) == Seq::<Seq<char>>::empty(),
        (trim_start(l, CharSet::Whitespace).len() == 0 && !seen) ==> line_doc_run(
            seq![l] + rest,
            seen,
        ) == line_doc_run(rest, seen),
{
    assert((seq![l] + rest)[0] == l);
    assert((seq![l] + rest).drop_first() =~= rest);
}

/// A character that neither ends a one-quote literal nor escapes one.
pub open spec fn is_plain_in_literal(c: char, q: char) -> bool {
    c != q && c != '\n' && c != '\\'
}

proof fn lemma_closing_quote_plain(s: Seq<char>, q: char, i: int, j: int)
    requires
        q != '\n' && q != '\\',
        0 <= i <= j < s.len(),
        s[j] == q,
        forall|k: int| i <= k < j ==> is_plain_in_literal(#[trigger] s[k], q),
    ensures
        closing_quote(s, q, i as nat, false) == Some(j as nat),
    decreases j - i,
{
    if i < j {
        assert(is_plain_in_literal(s[i], q));
        lemma_closing_quote_plain(s, q, i + 1, j);
        assert((i + 1) as nat == i as nat + 1);
    }
}

/// A one-quote Python docstring ends at the next quote of its kind: for a body
/// `b` of at least one character with no quote of that kind, no `'\n'` and no
/// backslash, the module docstring of `q` + `b` + `q` + `rest` is the text of
/// `b`.
pub proof fn one_quote_docstring_runs_to_next_quote(q: char, b: Seq<char>, rest: Seq<char>)
    requires
        q == '"' || q == '\'',
        b.len() > 0,
        forall|k: int| 0 <= k < b.len() ==> is_plain_in_literal(#[trigger] b[k], q),
    ensures
        module_docstring(seq![q] + b + seq![q] + rest) == collapse_lines(b, false),
{
    let s = seq![q] + b + seq![q] + rest;
    let l = b.len() as int;
    lemma_one_quote_start(s, q);
    assert forall|j: int| 0 <= j < l implies s[1 + j] == b[j] by {}
    assert(is_plain_in_literal(b[0], q));
    lemma_occurs_triple(s, q, 0);
    assert(s[1 + l] == q);
    assert forall|k: int| 1 <= k < 1 + l implies is_plain_in_literal(#[trigger] s[k], q) by {
        assert(s[k] == b[k - 1]);
    }
    lemma_closing_quote_plain(s, q, 1, 1 + l);
    assert(s.subrange(1, 1 + l) =~= b);
}

/// A backslash escapes the quote after it: in a one-quote Python docstring
/// `q` + `b1` + `\q` + `b2` + `q`, with `b1` not empty and `b1`, `b2` holding no
/// quote of that kind, no `'\n'` and no backslash, the literal runs on past the
/// escaped quote to the last one, and the docstring keeps the backslash and the
/// quote.
pub proof fn escaped_quote_stays_in_docstring(
    q: char,
    b1: Seq<char>,
    b2: Seq<char>,
    rest: Seq<char>,
)
    requires
        q == '"' || q == '\'',
        b1.len() > 0,
        forall|k: int| 0 <= k < b1.len() ==> is_plain_in_literal(#[trigger] b1[k], q),
        forall|k: int| 0 <= k < b2.len() ==> is_plain_in_literal(#[trigger] b2[k], q),
    ensures
        module_docstring(seq![q] + b1 + seq!['\\', q] + b2 + seq![q] + rest) == collapse_lines(
            b1 + seq!['\\', q] + b2,
            false,
        ),
{
    let s = seq![q] + b1 + seq!['\\', q] + b2 + seq![q] + rest;
    let l1 = b1.len() as int;
    let l2 = b2.len() as int;
    lemma_one_quote_start(s, q);
    assert forall|j: int| 0 <= j < l1 implies s[1 + j] == b1[j] by {}
    assert forall|j: int| 0 <= j < l2 implies s[3 + l1 + j] == b2[j] by {}
    assert(s[1 + l1] == '\\' && s[2 + l1] == q && s[3 + l1 + l2] == q);
    assert(is_plain_in_literal(b1[0], q));
    lemma_occurs_triple(s, q, 0);
    assert forall|k: int| 3 + l1 <= k < 3 + l1 + l2 implies is_plain_in_literal(
        #[trigger] s[k],
        q,
    ) by {
        assert(s[k] == b2[k - 3 - l1]);
    }
    lemma_closing_quote_plain(s, q, 3 + l1, 3 + l1 + l2);
    assert(closing_quote(s, q, (1 + l1) as nat, false) == closing_quote(
        s,
        q,
        (3 + l1) as nat,
        false,
    )) by {
        assert((1 + l1) as nat + 1 == (2 + l1) as nat);
        assert((2 + l1) as nat + 1 == (3 + l1) as nat);
        assert(closing_quote(s, q, (1 + l1) as nat, false) == closing_quote(
            s,
            q,
            (2 + l1) as nat,
            true,
        ));
        assert(closing_quote(s, q, (2 + l1) as nat, true) == closing_quote(
            s,
            q,
            (3 + l1) as nat,
            false,
        ));
    }
    assert(closing_quote(s, q, 1, false) == closing_quote(s, q, (1 + l1) as nat, false)) by {
        lemma_closing_quote_skip_plain(s, q, 1, 1 + l1);
    }
    assert(s.subrange(1, 3 + l1 + l2) =~= b1 + seq!['\\', q] + b2);
}

proof fn lemma_closing_quote_skip_plain(s: Seq<char>, q: char, i: int, j: int)
    requires
        0 <= i <= j <= s.len(),
        forall|k: int| i <= k < j ==> is_plain_in_literal(#[trigger] s[k], q),
    ensures
        closing_quote(s, q, i as nat, false) == closing_quote(s, q, j as nat, false),
    decreases j - i,
{
    if i < j {
        assert(is_plain_in_literal(s[i], q));
        lemma_closing_quote_skip_plain(s, q, i + 1, j);
        assert((i + 1) as nat == i as nat + 1);
    }
}

/// Contents that start with a quote are their own code: no byte order mark,
/// `#!` line, blank or comment is skipped, and no string prefix is read.
proof fn lemma_one_quote_start(s: Seq<char>, q: char)
    requires
        q == '"' || q == '\'',
        s.len() > 0,
        s[0] == q,
    ensures
        after_python_trivia(leading_contents(s)) == s,
        run_end(s, CharSet::AsciiLetter, 0) == 0,
{
    assert(without_bom(s) == s);
    assert(!starts_with(s, seq!['#', '!'])) by {
        lemma_occurs_pair(s, '#', '!', 0);
    }
    assert(leading_contents(s) == s);
    assert(python_trivia_end(s, 0) == 0);
    assert(after_python_trivia(s) =~= s);
}

/// Exactly `ts` and `tsx` are TypeScript, `py` Python and `rs` Rust; no other
/// extension has a supported language.
pub proof fn supported_extensions(ext: Seq<char>)
    ensures
        language_for_extension(ext) == Some(DocLanguage::TypeScript) <==> (ext == seq!['t', 's']
            || ext == seq!['t', 's', 'x']),
        language_for_extension(ext) == Some(DocLanguage::Python) <==> ext == seq!['p', 'y'],
        language_for_extension(ext) == Some(DocLanguage::Rust) <==> ext == seq!['r', 's'],
        language_for_extension(ext) is None <==> !(ext == seq!['t', 's'] || ext == seq![
            't',
            's',
            'x',
        ] || ext == seq!['p', 'y'] || ext == seq!['r', 's']),
{
}

/// A file shows every line of its doc, none dropped and none added, each in
/// the comment syntax of its language: for Rust one `//! ` line per doc line,
/// for TypeScript and Python the one-line doc inside its comment markers.
pub proof fn files_show_all_their_doc_lines(text: Seq<char>)
    ensures
        shown_file_lines(Some(seq!['r', 's']), Some(text)) == match rust_module_doc_lines(text) {
            Some(lines) => Some(lines.map_values(|d: Seq<char>| seq!['/', '/', '!', ' '] + d)),
            None => None,
        },
        shown_file_lines(Some(seq!['t', 's']), Some(text)) == match leading_tsdoc(text) {
            Some(d) => Some(seq![seq!['/', '*', '*', ' '] + d + seq![' ', '*', '/']]),
            None => None,
        },
        shown_file_lines(Some(seq!['t', 's', 'x']), Some(text)) == match leading_tsdoc(text) {
            Some(d) => Some(seq![seq!['/', '*', '*', ' '] + d + seq![' ', '*', '/']]),
            None => None,
        },
        shown_file_lines(Some(seq!['p', 'y']), Some(text)) == match module_docstring(text) {
            Some(d) => Some(seq![seq!['"', '"', '"', ' '] + d + seq![' ', '"', '"', '"']]),
            None => None,
        },
{
    match rust_module_doc_lines(text) {
        Some(lines) => {
            assert(lines.map_values(|d: Seq<char>| DocLanguage::Rust.doc_line(d)) =~= lines.map_values(
                |d: Seq<char>| seq!['/', '/', '!', ' '] + d,
            ));
        },
        None => {},
    }
    match leading_tsdoc(text) {
        Some(d) => {
            assert(seq![d].map_values(|x: Seq<char>| DocLanguage::TypeScript.doc_line(x)) =~= seq![
                seq!['/', '*', '*', ' '] + d + seq![' ', '*', '/'],
            ]);
        },
        None => {},
    }
    match module_docstring(text) {
        Some(d) => {
            assert(seq![d].map_values(|x: Seq<char>| DocLanguage::Python.doc_line(x)) =~= seq![
                seq!['"', '"', '"', ' '] + d + seq![' ', '"', '"', '"'],
            ]);
        },
        None => {},
    }
}

} // verus!
