//! Character-level text primitives: character classes, trimming, searching and
//! splitting into lines.
use vstd::prelude::*;

use crate::chars::subvec;

verus! {

/// The classes of characters that the extractors skip or trim.
#[derive(Clone, Copy, PartialEq, Eq, Structural, Debug)]
pub enum CharSet {
    /// Unicode `White_Space`, the class that `char::is_whitespace` accepts.
    Whitespace,
    /// `'\r'` and `'\n'`.
    LineBreak,
    /// Space, tab, `'\r'` and `'\n'`.
    Blank,
    /// `a`..`z` and `A`..`Z`.
    AsciiLetter,
}

/// Unicode `White_Space`: the characters for which `char::is_whitespace` holds.
pub open spec fn is_unicode_whitespace(c: char) -> bool {
    ||| c == ' '
    ||| ('\t' <= c && c <= '\r')
    ||| c == '\u{85}'
    ||| c == '\u{a0}'
    ||| c == '\u{1680}'
    ||| ('\u{2000}' <= c && c <= '\u{200a}')
    ||| c == '\u{2028}'
    ||| c == '\u{2029}'
    ||| c == '\u{202f}'
    ||| c == '\u{205f}'
    ||| c == '\u{3000}'
}

impl CharSet {
    pub open spec fn contains(self, c: char) -> bool {
        match self {
            CharSet::Whitespace => is_unicode_whitespace(c),
            CharSet::LineBreak => c == '\r' || c == '\n',
            CharSet::Blank => c == ' ' || c == '\t' || c == '\r' || c == '\n',
            CharSet::AsciiLetter => ('a' <= c && c <= 'z') || ('A' <= c && c <= 'Z'),
        }
    }

    /// Whether `c` belongs to this class.
    pub fn has(&self, c: char) -> (r: bool)
        ensures
            r == self.contains(c),
    {
        match self {
            CharSet::Whitespace => {
                c == ' ' || ('\t' <= c && c <= '\r') || c == '\u{85}' || c == '\u{a0}' || c
                    == '\u{1680}' || ('\u{2000}' <= c && c <= '\u{200a}') || c == '\u{2028}' || c
                    == '\u{2029}' || c == '\u{202f}' || c == '\u{205f}' || c == '\u{3000}'
            },
            CharSet::LineBreak => c == '\r' || c == '\n',
            CharSet::Blank => c == ' ' || c == '\t' || c == '\r' || c == '\n',
            CharSet::AsciiLetter => ('a' <= c && c <= 'z') || ('A' <= c && c <= 'Z'),
        }
    }
}

/// The end of the run of `set` characters that starts at `i`.
pub open spec fn run_end(s: Seq<char>, set: CharSet, i: nat) -> nat
    decreases s.len() - i,
{
    if i < s.len() && set.contains(s[i as int]) {
        run_end(s, set, i + 1)
    } else {
        i
    }
}

/// The start of the run of `set` characters that ends at `j`.
pub open spec fn run_start(s: Seq<char>, set: CharSet, j: nat) -> nat
    decreases j,
{
    if 0 < j <= s.len() && set.contains(s[j - 1]) {
        run_start(s, set, (j - 1) as nat)
    } else {
        j
    }
}

/// `s` without its leading `set` characters.
pub open spec fn trim_start(s: Seq<char>, set: CharSet) -> Seq<char> {
    s.skip(run_end(s, set, 0) as int)
}

/// `s` without its trailing `set` characters.
pub open spec fn trim_end(s: Seq<char>, set: CharSet) -> Seq<char> {
    s.take(run_start(s, set, s.len()) as int)
}

/// `s` without its leading and trailing `set` characters.
pub open spec fn trim(s: Seq<char>, set: CharSet) -> Seq<char> {
    trim_end(trim_start(s, set), set)
}

pub proof fn lemma_run_end_bounds(s: Seq<char>, set: CharSet, i: nat)
    requires
        i <= s.len(),
    ensures
        i <= run_end(s, set, i) <= s.len(),
        forall|k: int| i <= k < run_end(s, set, i) ==> set.contains(#[trigger] s[k]),
        run_end(s, set, i) < s.len() ==> !set.contains(s[run_end(s, set, i) as int]),
    decreases s.len() - i,
{
    if i < s.len() && set.contains(s[i as int]) {
        lemma_run_end_bounds(s, set, i + 1);
    }
}

pub proof fn lemma_run_start_bounds(s: Seq<char>, set: CharSet, j: nat)
    requires
        j <= s.len(),
    ensures
        run_start(s, set, j) <= j,
        forall|k: int| run_start(s, set, j) <= k < j ==> set.contains(#[trigger] s[k]),
        run_start(s, set, j) > 0 ==> !set.contains(s[run_start(s, set, j) - 1]),
    decreases j,
{
    if 0 < j <= s.len() && set.contains(s[j - 1]) {
        lemma_run_start_bounds(s, set, (j - 1) as nat);
    }
}

/// A run that ends inside `x` ends at the same place in a sequence that
/// agrees with `x` on all of `x`.
pub proof fn lemma_run_end_agree(x: Seq<char>, y: Seq<char>, set: CharSet, i: nat)
    requires
        i <= x.len() <= y.len(),
        forall|k: int| 0 <= k < x.len() ==> y[k] == x[k],
        run_end(x, set, i) < x.len(),
    ensures
        run_end(y, set, i) == run_end(x, set, i),
    decreases x.len() - i,
{
    if i < x.len() && set.contains(x[i as int]) {
        lemma_run_end_agree(x, y, set, i + 1);
    }
}

/// A run of `set` characters that reaches the end ends there.
pub proof fn lemma_run_end_all(y: Seq<char>, set: CharSet, i: nat)
    requires
        i <= y.len(),
        forall|k: int| i <= k < y.len() ==> set.contains(#[trigger] y[k]),
    ensures
        run_end(y, set, i) == y.len(),
    decreases y.len() - i,
{
    if i < y.len() {
        lemma_run_end_all(y, set, i + 1);
    }
}

/// A run that ends at `j` starts at the same place in sequences that agree
/// below `j`.
pub proof fn lemma_run_start_agree(x: Seq<char>, y: Seq<char>, set: CharSet, j: nat)
    requires
        j <= x.len(),
        j <= y.len(),
        forall|k: int| 0 <= k < j ==> y[k] == x[k],
    ensures
        run_start(y, set, j) == run_start(x, set, j),
    decreases j,
{
    if 0 < j && set.contains(x[j - 1]) {
        lemma_run_start_agree(x, y, set, (j - 1) as nat);
    }
}

/// A `'\r'` at the end of a text is trimmed away with the other whitespace.
pub proof fn lemma_trim_carriage_return(x: Seq<char>)
    ensures
        trim(x.push('\r'), CharSet::Whitespace) == trim(x, CharSet::Whitespace),
{
    let w = CharSet::Whitespace;
    let y = x.push('\r');
    lemma_run_end_bounds(x, w, 0);
    if run_end(x, w, 0) < x.len() {
        lemma_run_end_agree(x, y, w, 0);
        let a = run_end(x, w, 0);
        let u = x.skip(a as int);
        let v = y.skip(a as int);
        assert(v =~= u.push('\r'));
        assert(trim_start(y, w) == v);
        assert(run_start(v, w, v.len()) == run_start(v, w, u.len()));
        lemma_run_start_agree(u, v, w, u.len());
        lemma_run_start_bounds(u, w, u.len());
        let b = run_start(u, w, u.len());
        assert(v.take(b as int) =~= u.take(b as int));
    } else {
        assert forall|k: int| 0 <= k < y.len() implies w.contains(#[trigger] y[k]) by {
            if k < x.len() {
                assert(y[k] == x[k]);
            }
        }
        lemma_run_end_all(y, w, 0);
        assert(trim_start(y, w) =~= seq![]);
        assert(trim_start(x, w) =~= seq![]);
    }
}

/// The characters of `v` without its leading `set` characters.
pub fn trim_start_chars(v: &Vec<char>, set: CharSet) -> (r: Vec<char>)
    ensures
        r@ == trim_start(v@, set),
{
    let mut i: usize = 0;
    while i < v.len() && set.has(v[i])
        invariant
            i <= v.len(),
            run_end(v@, set, 0) == run_end(v@, set, i as nat),
        decreases v.len() - i,
    {
        i = i + 1;
    }
    let r = subvec(v, i, v.len());
    assert(r@ =~= v@.skip(i as int));
    r
}

/// The characters of `v` without its trailing `set` characters.
pub fn trim_end_chars(v: &Vec<char>, set: CharSet) -> (r: Vec<char>)
    ensures
        r@ == trim_end(v@, set),
{
    let mut j: usize = v.len();
    while j > 0 && set.has(v[j - 1])
        invariant
            j <= v.len(),
            run_start(v@, set, v@.len()) == run_start(v@, set, j as nat),
        decreases j,
    {
        j = j - 1;
    }
    let r = subvec(v, 0, j);
    assert(r@ =~= v@.take(j as int));
    r
}

/// The characters of `v` without leading and trailing `set` characters.
pub fn trim_chars(v: &Vec<char>, set: CharSet) -> (r: Vec<char>)
    ensures
        r@ == trim(v@, set),
{
    let t = trim_start_chars(v, set);
    trim_end_chars(&t, set)
}

/// Whether `pat` occurs in `s` at index `i`.
pub open spec fn occurs_at(s: Seq<char>, pat: Seq<char>, i: int) -> bool {
    0 <= i && i + pat.len() <= s.len() && s.subrange(i, i + pat.len()) == pat
}

/// Whether `s` begins with `pat`.
pub open spec fn starts_with(s: Seq<char>, pat: Seq<char>) -> bool {
    occurs_at(s, pat, 0)
}

/// The first index at or after `i` where `pat` occurs in `s`.
pub open spec fn find_from(s: Seq<char>, pat: Seq<char>, i: int) -> Option<int>
    decreases s.len() + 1 - i,
{
    if i < 0 || i + pat.len() > s.len() {
        None
    } else if occurs_at(s, pat, i) {
        Some(i)
    } else {
        find_from(s, pat, i + 1)
    }
}

pub proof fn lemma_find_from(s: Seq<char>, pat: Seq<char>, i: int)
    requires
        0 <= i,
    ensures
        match find_from(s, pat, i) {
            Some(j) => {
                &&& i <= j
                &&& occurs_at(s, pat, j)
                &&& forall|k: int| i <= k < j ==> !occurs_at(s, pat, k)
            },
            None => forall|k: int| i <= k ==> !occurs_at(s, pat, k),
        },
    decreases s.len() + 1 - i,
{
    if i + pat.len() > s.len() {
    } else if occurs_at(s, pat, i) {
    } else {
        lemma_find_from(s, pat, i + 1);
    }
}

/// A one-character pattern occurs exactly where that character stands.
pub proof fn lemma_occurs_single(s: Seq<char>, c: char, k: int)
    ensures
        occurs_at(s, seq![c], k) <==> (0 <= k < s.len() && s[k] == c),
{
    if 0 <= k < s.len() {
        if s[k] == c {
            assert(s.subrange(k, k + 1) =~= seq![c]);
        } else {
            assert(s.subrange(k, k + 1)[0] != seq![c][0]);
        }
    }
}

/// The search finds `j` when `pat` occurs at `j` and nowhere from `i` up to it.
pub proof fn lemma_find_first(s: Seq<char>, pat: Seq<char>, i: int, j: int)
    requires
        0 <= i <= j,
        occurs_at(s, pat, j),
        forall|k: int| i <= k < j ==> !occurs_at(s, pat, k),
    ensures
        find_from(s, pat, i) == Some(j),
    decreases j - i,
{
    if i < j {
        lemma_find_first(s, pat, i + 1, j);
    }
}

/// An occurrence in `a + b` at or after `a.len()` is an occurrence in `b`.
pub proof fn lemma_occurs_shift(a: Seq<char>, b: Seq<char>, pat: Seq<char>, j: int)
    requires
        0 <= j,
    ensures
        occurs_at(a + b, pat, a.len() + j) == occurs_at(b, pat, j),
{
    if j + pat.len() <= b.len() {
        assert((a + b).subrange(a.len() + j, a.len() + j + pat.len()) =~= b.subrange(
            j,
            j + pat.len(),
        ));
    }
}

/// Searching `a + b` from inside `b` finds what searching `b` finds, moved by
/// `a.len()`.
pub proof fn lemma_find_shift(a: Seq<char>, b: Seq<char>, pat: Seq<char>, j: int)
    requires
        0 <= j,
    ensures
        find_from(a + b, pat, a.len() + j) == match find_from(b, pat, j) {
            Some(k) => Some(a.len() + k),
            None => None,
        },
    decreases b.len() + 1 - j,
{
    lemma_occurs_shift(a, b, pat, j);
    if j + pat.len() > b.len() {
    } else if occurs_at(b, pat, j) {
    } else {
        lemma_find_shift(a, b, pat, j + 1);
        assert(a.len() + j + 1 == a.len() + (j + 1));
    }
}

/// A run in `a + b` that starts inside `b` is the run in `b`, moved by
/// `a.len()`.
pub proof fn lemma_run_end_shift(a: Seq<char>, b: Seq<char>, set: CharSet, j: nat)
    ensures
        run_end(a + b, set, a.len() + j) == a.len() + run_end(b, set, j),
    decreases b.len() - j,
{
    if j < b.len() && set.contains(b[j as int]) {
        assert((a + b)[a.len() + j as int] == b[j as int]);
        lemma_run_end_shift(a, b, set, j + 1);
        assert(a.len() + j + 1 == a.len() + (j + 1));
    }
}

/// Whether `pat` occurs in `v` at index `i`.
pub fn occurs_at_chars(v: &Vec<char>, pat: &Vec<char>, i: usize) -> (r: bool)
    ensures
        r == occurs_at(v@, pat@, i as int),
{
    if i > v.len() || pat.len() > v.len() - i {
        return false;
    }
    let mut k: usize = 0;
    while k < pat.len()
        invariant
            i + pat.len() <= v.len(),
            k <= pat.len(),
            forall|m: int| 0 <= m < k ==> v@[i + m] == pat@[m],
        decreases pat.len() - k,
    {
        if v[i + k] != pat[k] {
            assert(v@.subrange(i as int, i + pat.len())[k as int] != pat@[k as int]);
            return false;
        }
        k = k + 1;
    }
    assert(v@.subrange(i as int, i + pat.len()) =~= pat@);
    true
}

/// The first index at or after `start` where `pat` occurs in `v`.
pub fn find_from_chars(v: &Vec<char>, pat: &Vec<char>, start: usize) -> (r: Option<usize>)
    ensures
        match r {
            Some(j) => find_from(v@, pat@, start as int) == Some(j as int),
            None => find_from(v@, pat@, start as int) is None,
        },
{
    let mut i = start;
    while i <= v.len() && pat.len() <= v.len() - i
        invariant
            start <= i,
            find_from(v@, pat@, start as int) == find_from(v@, pat@, i as int),
        decreases v.len() + 1 - i,
    {
        if occurs_at_chars(v, pat, i) {
            return Some(i);
        }
        assert(pat@.len() > 0) by {
            if pat@.len() == 0 {
                assert(v@.subrange(i as int, i as int) =~= pat@);
            }
        }
        i = i + 1;
    }
    None
}

/// Whether `v` begins with `pat`.
pub fn starts_with_chars(v: &Vec<char>, pat: &Vec<char>) -> (r: bool)
    ensures
        r == starts_with(v@, pat@),
{
    occurs_at_chars(v, pat, 0)
}

} // verus!
