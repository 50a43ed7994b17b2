//! The leading TSDoc comment (`/** ... */`) of a TypeScript file.
use vstd::prelude::*;

use crate::chars::{opt_chars, subvec, to_chars};
use crate::leading::{leading_contents, strip_bom, strip_shebang};
use crate::lines::{collapse_lines, collapse_lines_chars};
use crate::text::{
    find_from,
    find_from_chars,
    lemma_find_from,
    occurs_at,
    occurs_at_chars,
    starts_with,
    starts_with_chars,
};

verus! {

/// `/**`, which opens a TSDoc comment.
pub open spec fn tsdoc_opener() -> Seq<char> {
    seq!['/', '*', '*']
}

/// `*/`, which closes a block comment.
pub open spec fn block_closer() -> Seq<char> {
    seq!['*', '/']
}

/// The text between `opener` at the start of `block` and `*/` at its end;
/// `None` when `block` does not start with `opener`, or has too few
/// characters left for a closing `*/` after it, or does not end with `*/`.
pub open spec fn comment_body(block: Seq<char>, opener: Seq<char>) -> Option<Seq<char>> {
    if starts_with(block, opener) && block.len() >= opener.len() + 2 && occurs_at(
        block,
        block_closer(),
        block.len() - 2,
    ) {
        Some(block.subrange(opener.len() as int, block.len() - 2))
    } else {
        None
    }
}

/// The doc text of a TSDoc block comment: its lines without the leading `*`,
/// joined on one line.
pub open spec fn tsdoc_block_text(block: Seq<char>) -> Option<Seq<char>> {
    match comment_body(block, tsdoc_opener()) {
        Some(inner) => collapse_lines(inner, true),
        None => None,
    }
}

/// The leading TSDoc of a file: the file must start, after a byte order mark
/// and a `#!` line, with `/**`; the comment runs to the first `*/`.
pub open spec fn leading_tsdoc(contents: Seq<char>) -> Option<Seq<char>> {
    let c = leading_contents(contents);
    if !starts_with(c, tsdoc_opener()) {
        None
    } else {
        match find_from(c, block_closer(), 0) {
            Some(end) => tsdoc_block_text(c.take(end + 2)),
            None => None,
        }
    }
}

/// The body of a block comment, as `comment_body` says.
pub fn comment_body_chars(block: &Vec<char>, opener: &Vec<char>) -> (r: Option<Vec<char>>)
    ensures
        match r {
            Some(inner) => comment_body(block@, opener@) == Some(inner@),
            None => comment_body(block@, opener@) is None,
        },
{
    let closer: Vec<char> = vec!['*', '/'];
    assert(closer@ =~= block_closer());
    let n = block.len();
    if starts_with_chars(block, opener) && opener.len() <= n && n - opener.len() >= 2
        && occurs_at_chars(
        block,
        &closer,
        n - 2,
    ) {
        Some(subvec(block, opener.len(), n - 2))
    } else {
        None
    }
}

/// The doc text of a TSDoc block comment, as `tsdoc_block_text` says.
fn normalize_tsdoc_block(block: &Vec<char>) -> (r: Option<String>)
    ensures
        opt_chars(r) == tsdoc_block_text(block@),
{
    let opener: Vec<char> = vec!['/', '*', '*'];
    assert(opener@ =~= tsdoc_opener());
    match comment_body_chars(block, &opener) {
        Some(inner) => collapse_lines_chars(&inner, true),
        None => None,
    }
}

/// The leading TSDoc comment of a TypeScript file, on one line.
///
/// A byte order mark and a `#!` line may come first; anything else before
/// `/**` means the file has no leading TSDoc.
pub fn extract_leading_tsdoc(contents: &str) -> (r: Option<String>)
    ensures
        opt_chars(r) == leading_tsdoc(contents@),
{
    let all = to_chars(contents);
    let without_bom = strip_bom(&all);
    let c = strip_shebang(&without_bom);
    let opener: Vec<char> = vec!['/', '*', '*'];
    assert(opener@ =~= tsdoc_opener());
    if !starts_with_chars(&c, &opener) {
        return None;
    }
    let closer: Vec<char> = vec!['*', '/'];
    assert(closer@ =~= block_closer());
    match find_from_chars(&c, &closer, 0) {
        Some(end) => {
            let n = c.len();
            proof {
                lemma_find_from(c@, block_closer(), 0);
                assert(end + 2 <= n);
            }
            let block = subvec(&c, 0, end + 2);
            assert(block@ =~= c@.take(end + 2));
            normalize_tsdoc_block(&block)
        },
        None => None,
    }
}

} // verus!
