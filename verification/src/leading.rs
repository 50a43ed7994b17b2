//! What may stand before a leading documentation comment: a byte order mark,
//! then a `#!` interpreter line.
use vstd::prelude::*;

use crate::chars::subvec;
use crate::text::{
    find_from,
    find_from_chars,
    lemma_find_from,
    occurs_at,
    occurs_at_chars,
    starts_with,
};

verus! {

/// The byte order mark, U+FEFF.
pub open spec fn is_bom(c: char) -> bool {
    c == '\u{feff}'
}

/// `s` without one leading byte order mark.
pub open spec fn without_bom(s: Seq<char>) -> Seq<char> {
    if s.len() > 0 && is_bom(s[0]) {
        s.drop_first()
    } else {
        s
    }
}

/// `s` without a leading `#!` line: what follows its `'\n'`, or nothing when
/// the `#!` line is the last line.
pub open spec fn without_shebang(s: Seq<char>) -> Seq<char> {
    if starts_with(s, seq!['#', '!']) {
        match find_from(s, seq!['\n'], 2) {
            Some(p) => s.skip(p + 1),
            None => seq![],
        }
    } else {
        s
    }
}

/// The contents that a leading comment must start: `s` without a byte order
/// mark and then without a `#!` line.
pub open spec fn leading_contents(s: Seq<char>) -> Seq<char> {
    without_shebang(without_bom(s))
}

/// `v` without one leading byte order mark.
pub fn strip_bom(v: &Vec<char>) -> (r: Vec<char>)
    ensures
        r@ == without_bom(v@),
{
    if v.len() > 0 && v[0] == '\u{feff}' {
        let r = subvec(v, 1, v.len());
        assert(r@ =~= v@.drop_first());
        r
    } else {
        subvec(v, 0, v.len())
    }
}

/// `v` without a leading `#!` line.
pub fn strip_shebang(v: &Vec<char>) -> (r: Vec<char>)
    ensures
        r@ == without_shebang(v@),
{
    let marker: Vec<char> = vec!['#', '!'];
    assert(marker@ =~= seq!['#', '!']);
    if occurs_at_chars(v, &marker, 0) {
        let newline: Vec<char> = vec!['\n'];
        assert(newline@ =~= seq!['\n']);
        match find_from_chars(v, &newline, 2) {
            Some(p) => {
                let n = v.len();
                proof {
                    lemma_find_from(v@, seq!['\n'], 2);
                    assert(occurs_at(v@, seq!['\n'], p as int));
                    assert(seq!['\n'].len() == 1);
                    assert(p + 1 <= v@.len());
                }
                let r = subvec(v, p + 1, n);
                assert(r@ =~= v@.skip(p + 1));
                r
            },
            None => Vec::new(),
        }
    } else {
        subvec(v, 0, v.len())
    }
}

} // verus!
