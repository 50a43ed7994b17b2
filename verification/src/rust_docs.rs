//! The module documentation of a Rust file: leading `//!` lines or a leading
//! `/*! ... */` block.
use vstd::prelude::*;

use crate::chars::{
    chars_seqs,
    opt_chars,
    opt_string_seqs,
    string_seqs,
    strings_from_chars,
    subvec,
    to_chars,
};
use crate::leading::{leading_contents, strip_bom, strip_shebang};
use crate::lines::{
    collapse_lines,
    collapse_lines_chars,
    has_no_newline,
    is_one_line_text,
    join_words,
    join_words_chars,
    lemma_collapse_one_line,
    lemma_join_one_line,
    lemma_lines_from_unfold,
    lemma_lines_no_newline,
    lemma_skip_no_newline,
    lemma_trim_one_line,
    lines_from,
    split_lines,
};
use crate::text::{
    find_from,
    find_from_chars,
    lemma_find_from,
    lemma_run_end_agree,
    lemma_run_end_all,
    lemma_run_end_bounds,
    lemma_trim_carriage_return,
    run_end,
    starts_with,
    starts_with_chars,
    trim,
    trim_chars,
    trim_start,
    trim_start_chars,
    CharSet,
};
use crate::tsdoc::{block_closer, comment_body, comment_body_chars};

verus! {

/// `//!`, which starts an inner line doc comment.
pub open spec fn line_doc_opener() -> Seq<char> {
    seq!['/', '/', '!']
}

/// `/*!`, which opens an inner block doc comment.
pub open spec fn block_doc_opener() -> Seq<char> {
    seq!['/', '*', '!']
}

/// The texts of the run of `//!` lines at the start of `lines`.
///
/// Each `//!` line (indentation allowed) gives its text, trimmed, unless that
/// is empty. Blank lines are skipped until some text has been found; the run
/// ends at the first other line.
pub open spec fn line_doc_run(lines: Seq<Seq<char>>, seen: bool) -> Seq<Seq<char>>
    decreases lines.len(),
{
    if lines.len() == 0 {
        seq![]
    } else {
        let t = trim_start(lines[0], CharSet::Whitespace);
        if starts_with(t, line_doc_opener()) {
            let d = trim(t.skip(3), CharSet::Whitespace);
            let rest = line_doc_run(lines.drop_first(), seen || d.len() > 0);
            if d.len() > 0 {
                seq![d] + rest
            } else {
                rest
            }
        } else if t.len() == 0 && !seen {
            line_doc_run(lines.drop_first(), seen)
        } else {
            seq![]
        }
    }
}

/// The text of the leading `//!` lines of `c`, joined on one line.
pub open spec fn rust_line_docs_text(c: Seq<char>) -> Option<Seq<char>> {
    let parts = line_doc_run(split_lines(c), false);
    if parts.len() == 0 {
        None
    } else {
        Some(join_words(parts))
    }
}

/// The text of the `/*! ... */` block at the start of `c`, which runs to the
/// first `*/`, on one line.
pub open spec fn rust_block_doc_text(c: Seq<char>) -> Option<Seq<char>> {
    match find_from(c, block_closer(), 0) {
        Some(end) => match comment_body(c.take(end + 2), block_doc_opener()) {
            Some(inner) => collapse_lines(inner, true),
            None => None,
        },
        None => None,
    }
}

/// The module documentation of a Rust file: after a byte order mark, a `#!`
/// line and blank characters, either `//!` lines or a `/*!` block.
pub open spec fn rust_module_doc(contents: Seq<char>) -> Option<Seq<char>> {
    let c = trim_start(leading_contents(contents), CharSet::Blank);
    if starts_with(c, line_doc_opener()) {
        rust_line_docs_text(c)
    } else if starts_with(c, block_doc_opener()) {
        rust_block_doc_text(c)
    } else {
        None
    }
}

/// The module documentation of a Rust file line by line: the text of each
/// leading `//!` line that has some, or the whole `/*!` block on one line.
pub open spec fn rust_module_doc_lines(contents: Seq<char>) -> Option<Seq<Seq<char>>> {
    let c = trim_start(leading_contents(contents), CharSet::Blank);
    if starts_with(c, line_doc_opener()) {
        let parts = line_doc_run(split_lines(c), false);
        if parts.len() == 0 {
            None
        } else {
            Some(parts)
        }
    } else if starts_with(c, block_doc_opener()) {
        match rust_block_doc_text(c) {
            Some(d) => Some(seq![d]),
            None => None,
        }
    } else {
        None
    }
}

/// The texts of a run of `//!` lines are each one line.
pub proof fn lemma_line_doc_run_one_line(lines: Seq<Seq<char>>, seen: bool)
    requires
        forall|k: int| 0 <= k < lines.len() ==> has_no_newline(#[trigger] lines[k]),
    ensures
        forall|k: int|
            0 <= k < line_doc_run(lines, seen).len() ==> is_one_line_text(
                #[trigger] line_doc_run(lines, seen)[k],
            ),
    decreases lines.len(),
{
    if lines.len() > 0 {
        let rest = lines.drop_first();
        assert forall|k: int| 0 <= k < rest.len() implies has_no_newline(#[trigger] rest[k]) by {
            assert(rest[k] == lines[k + 1]);
        }
        let line = lines[0];
        assert(has_no_newline(line));
        lemma_run_end_bounds(line, CharSet::Whitespace, 0);
        let t = trim_start(line, CharSet::Whitespace);
        lemma_skip_no_newline(line, run_end(line, CharSet::Whitespace, 0) as int);
        if starts_with(t, line_doc_opener()) {
            lemma_skip_no_newline(t, 3);
            let d = trim(t.skip(3), CharSet::Whitespace);
            lemma_trim_one_line(t.skip(3));
            lemma_line_doc_run_one_line(rest, seen || d.len() > 0);
            let r = line_doc_run(rest, seen || d.len() > 0);
            if d.len() > 0 {
                assert forall|k: int|
                    0 <= k < line_doc_run(lines, seen).len() implies is_one_line_text(
                    #[trigger] line_doc_run(lines, seen)[k],
                ) by {
                    if k > 0 {
                        assert(line_doc_run(lines, seen)[k] == r[k - 1]);
                    }
                }
            } else {
                assert(line_doc_run(lines, seen) == r);
            }
        } else if t.len() == 0 && !seen {
            lemma_line_doc_run_one_line(rest, seen);
            assert(line_doc_run(lines, seen) == line_doc_run(rest, seen));
        } else {
            assert(line_doc_run(lines, seen) =~= seq![]);
        }
    }
}

/// A `'\r'` at the end of the first line changes nothing in a run of `//!`
/// lines.
pub proof fn lemma_line_doc_run_carriage_return(
    line: Seq<char>,
    rest: Seq<Seq<char>>,
    seen: bool,
)
    ensures
        line_doc_run(seq![line.push('\r')] + rest, seen) == line_doc_run(seq![line] + rest, seen),
{
    let w = CharSet::Whitespace;
    let with_cr = seq![line.push('\r')] + rest;
    let plain = seq![line] + rest;
    assert(with_cr[0] == line.push('\r'));
    assert(plain[0] == line);
    assert(with_cr.drop_first() =~= rest);
    assert(plain.drop_first() =~= rest);
    let y = line.push('\r');
    let t = trim_start(line, w);
    let t2 = trim_start(y, w);
    lemma_run_end_bounds(line, w, 0);
    if run_end(line, w, 0) < line.len() {
        lemma_run_end_agree(line, y, w, 0);
        let a = run_end(line, w, 0);
        assert(t2 =~= t.push('\r'));
        let op = line_doc_opener();
        if t.len() >= 3 {
            assert(t2.subrange(0, 3) =~= t.subrange(0, 3));
            assert(starts_with(t2, op) == starts_with(t, op));
            if starts_with(t, op) {
                assert(t2.skip(3) =~= t.skip(3).push('\r'));
                lemma_trim_carriage_return(t.skip(3));
            }
        } else {
            assert(!starts_with(t, op));
            if starts_with(t2, op) {
                assert(t2.subrange(0, 3)[2] == op[2]);
                assert(t2[2] == '\r');
            }
            assert(!starts_with(t2, op));
        }
        assert(t2.len() > 0 && t.len() > 0);
    } else {
        assert forall|k: int| 0 <= k < y.len() implies w.contains(#[trigger] y[k]) by {
            if k < line.len() {
                assert(y[k] == line[k]);
            }
        }
        lemma_run_end_all(y, w, 0);
        assert(t =~= seq![]);
        assert(t2 =~= seq![]);
    }
}

/// Module docs of a Rust file are one line.
pub proof fn lemma_rust_module_doc_one_line(contents: Seq<char>)
    ensures
        rust_module_doc(contents) matches Some(d) ==> is_one_line_text(d),
{
    let c = trim_start(leading_contents(contents), CharSet::Blank);
    if starts_with(c, line_doc_opener()) {
        lemma_lines_no_newline(c, 0);
        lemma_line_doc_run_one_line(split_lines(c), false);
        let parts = line_doc_run(split_lines(c), false);
        if parts.len() > 0 {
            lemma_join_one_line(parts);
        }
    } else if starts_with(c, block_doc_opener()) {
        match find_from(c, block_closer(), 0) {
            Some(end) => match comment_body(c.take(end + 2), block_doc_opener()) {
                Some(inner) => lemma_collapse_one_line(inner, true),
                None => {},
            },
            None => {},
        }
    }
}

/// The texts of the leading `//!` lines of `c`, as `line_doc_run` says.
fn rust_line_doc_parts(c: &Vec<char>) -> (r: Vec<Vec<char>>)
    ensures
        chars_seqs(r@) == line_doc_run(split_lines(c@), false),
{
    let newline: Vec<char> = vec!['\n'];
    assert(newline@ =~= seq!['\n']);
    let opener: Vec<char> = vec!['/', '/', '!'];
    assert(opener@ =~= line_doc_opener());
    let mut parts: Vec<Vec<char>> = Vec::new();
    let mut pos: usize = 0;
    loop
        invariant_except_break
            line_doc_run(lines_from(c@, 0), false) == chars_seqs(parts@) + line_doc_run(
                lines_from(c@, pos as nat),
                parts.len() > 0,
            ),
        invariant
            newline@ == seq!['\n'],
            opener@ == line_doc_opener(),
            pos <= c.len(),
        ensures
            line_doc_run(lines_from(c@, 0), false) == chars_seqs(parts@),
        decreases c.len() - pos,
    {
        let found = find_from_chars(c, &newline, pos);
        proof {
            lemma_lines_from_unfold(c@, pos as nat);
        }
        let end = match found {
            Some(j) => j,
            None => c.len(),
        };
        let seg = subvec(c, pos, end);
        let ghost rest: Seq<Seq<char>> = match found {
            Some(j) => lines_from(c@, (j + 1) as nat),
            None => seq![],
        };
        let ghost done = chars_seqs(parts@);
        proof {
            assert(lines_from(c@, pos as nat) == seq![seg@] + rest);
            assert((seq![seg@] + rest).drop_first() =~= rest);
            assert((seq![seg@] + rest)[0] == seg@);
        }
        let t = trim_start_chars(&seg, CharSet::Whitespace);
        if starts_with_chars(&t, &opener) {
            let body = subvec(&t, 3, t.len());
            assert(body@ =~= t@.skip(3));
            let d = trim_chars(&body, CharSet::Whitespace);
            if d.len() > 0 {
                let ghost dv = d@;
                parts.push(d);
                proof {
                    assert(chars_seqs(parts@) =~= done.push(dv));
                    assert(done + (seq![dv] + line_doc_run(rest, true)) =~= done.push(dv)
                        + line_doc_run(rest, true));
                }
            }
        } else if t.len() == 0 && parts.len() == 0 {
        } else {
            assert(line_doc_run(lines_from(c@, pos as nat), parts.len() > 0) =~= seq![]);
            assert(done + seq![] =~= done);
            break ;
        }
        match found {
            Some(j) => {
                pos = j + 1;
            },
            None => {
                assert(line_doc_run(rest, parts.len() > 0) =~= seq![]);
                assert(chars_seqs(parts@) + seq![] =~= chars_seqs(parts@));
                break ;
            },
        }
    }
    parts
}

/// The text of the leading `//!` lines of `c`, as `rust_line_docs_text` says.
fn normalize_rust_line_docs(c: &Vec<char>) -> (r: Option<String>)
    ensures
        opt_chars(r) == rust_line_docs_text(c@),
{
    let parts = rust_line_doc_parts(c);
    if parts.len() == 0 {
        None
    } else {
        Some(join_words_chars(&parts))
    }
}

/// The text of the `/*! ... */` block at the start of `c`, as
/// `rust_block_doc_text` says.
fn normalize_rust_block_doc(c: &Vec<char>) -> (r: Option<String>)
    ensures
        opt_chars(r) == rust_block_doc_text(c@),
{
    let closer: Vec<char> = vec!['*', '/'];
    assert(closer@ =~= block_closer());
    match find_from_chars(c, &closer, 0) {
        Some(end) => {
            let n = c.len();
            proof {
                lemma_find_from(c@, block_closer(), 0);
                assert(end + 2 <= n);
            }
            let block = subvec(c, 0, end + 2);
            assert(block@ =~= c@.take(end + 2));
            let opener: Vec<char> = vec!['/', '*', '!'];
            assert(opener@ =~= block_doc_opener());
            match comment_body_chars(&block, &opener) {
                Some(inner) => collapse_lines_chars(&inner, true),
                None => None,
            }
        },
        None => None,
    }
}

/// The module documentation of a Rust file line by line, as
/// `rust_module_doc_lines` says: one entry per `//!` line with text, or one for
/// a `/*!` block.
pub fn extract_rust_module_doc_lines(contents: &str) -> (r: Option<Vec<String>>)
    ensures
        opt_string_seqs(r) == rust_module_doc_lines(contents@),
{
    let all = to_chars(contents);
    let without_bom = strip_bom(&all);
    let without_shebang = strip_shebang(&without_bom);
    let c = trim_start_chars(&without_shebang, CharSet::Blank);
    let line_opener: Vec<char> = vec!['/', '/', '!'];
    assert(line_opener@ =~= line_doc_opener());
    let block_opener: Vec<char> = vec!['/', '*', '!'];
    assert(block_opener@ =~= block_doc_opener());
    if starts_with_chars(&c, &line_opener) {
        let parts = rust_line_doc_parts(&c);
        if parts.len() == 0 {
            None
        } else {
            Some(strings_from_chars(&parts))
        }
    } else if starts_with_chars(&c, &block_opener) {
        match normalize_rust_block_doc(&c) {
            Some(d) => {
                let r: Vec<String> = vec![d];
                assert(string_seqs(r@) =~= seq![r@[0]@]);
                Some(r)
            },
            None => None,
        }
    } else {
        None
    }
}

/// The module documentation of a Rust file, on one line.
///
/// A byte order mark, a `#!` line and blank lines may come first; anything
/// else before the `//!` lines or the `/*!` block means there is none.
pub fn extract_rust_module_doc(contents: &str) -> (r: Option<String>)
    ensures
        opt_chars(r) == rust_module_doc(contents@),
{
    let all = to_chars(contents);
    let without_bom = strip_bom(&all);
    let without_shebang = strip_shebang(&without_bom);
    let c = trim_start_chars(&without_shebang, CharSet::Blank);
    let line_opener: Vec<char> = vec!['/', '/', '!'];
    assert(line_opener@ =~= line_doc_opener());
    let block_opener: Vec<char> = vec!['/', '*', '!'];
    assert(block_opener@ =~= block_doc_opener());
    if starts_with_chars(&c, &line_opener) {
        normalize_rust_line_docs(&c)
    } else if starts_with_chars(&c, &block_opener) {
        normalize_rust_block_doc(&c)
    } else {
        None
    }
}

} // verus!
