//! The module docstring of a Python file: its first statement, when that is a
//! string literal.
use vstd::prelude::*;

use crate::chars::{opt_chars, subvec, to_chars};
use crate::leading::{leading_contents, strip_bom, strip_shebang, without_shebang};
use crate::lines::{collapse_lines, collapse_lines_chars};
use crate::text::{
    find_from,
    find_from_chars,
    lemma_find_from,
    lemma_find_shift,
    lemma_occurs_single,
    occurs_at,
    occurs_at_chars,
    run_end,
    starts_with,
    CharSet,
};

verus! {

/// String prefixes that make a literal a bytes or format string, which is
/// never a docstring.
pub open spec fn is_non_doc_prefix(c: char) -> bool {
    c == 'b' || c == 'B' || c == 'f' || c == 'F'
}

/// Where the code of `s` starts when looking from `i`: blank characters and
/// `#` comments (each up to and including its `'\n'`) are skipped; a comment
/// on the last line runs to the end.
pub open spec fn python_trivia_end(s: Seq<char>, i: nat) -> nat
    decreases s.len() - i,
{
    if i >= s.len() {
        i
    } else if CharSet::Blank.contains(s[i as int]) {
        python_trivia_end(s, i + 1)
    } else if s[i as int] == '#' {
        match find_from(s, seq!['\n'], i + 1 as int) {
            Some(p) => {
                proof {
                    lemma_find_from(s, seq!['\n'], i + 1 as int);
                }
                python_trivia_end(s, (p + 1) as nat)
            },
            None => s.len(),
        }
    } else {
        i
    }
}

/// `s` without its leading blank lines, indentation and comments.
pub open spec fn after_python_trivia(s: Seq<char>) -> Seq<char> {
    s.skip(python_trivia_end(s, 0) as int)
}

/// The index of the quote `q` that closes a one-line string literal whose
/// characters start at `i`; `escaped` tells whether the character before `i`
/// is an unescaped backslash. `None` when a `'\n'` or the end comes first.
pub open spec fn closing_quote(s: Seq<char>, q: char, i: nat, escaped: bool) -> Option<nat>
    decreases s.len() - i,
{
    if i >= s.len() || s[i as int] == '\n' {
        None
    } else if escaped {
        closing_quote(s, q, i + 1, false)
    } else if s[i as int] == '\\' {
        closing_quote(s, q, i + 1, true)
    } else if s[i as int] == q {
        Some(i)
    } else {
        closing_quote(s, q, i + 1, false)
    }
}

/// A string literal at the start of `s`: its contents and what follows it.
///
/// The literal may have a prefix of ASCII letters, none of which is `b`, `B`,
/// `f` or `F`. It is quoted by three `'` or `"` (ending at the next three of the
/// same) or by one (ending at the next unescaped one on the same line).
pub open spec fn python_string_literal(s: Seq<char>) -> Option<(Seq<char>, Seq<char>)> {
    let n = run_end(s, CharSet::AsciiLetter, 0);
    if exists|k: int| 0 <= k < n && #[trigger] is_non_doc_prefix(s[k]) {
        None
    } else if n >= s.len() {
        None
    } else {
        let q = s[n as int];
        if q != '\'' && q != '"' {
            None
        } else if occurs_at(s, seq![q, q, q], n as int) {
            match find_from(s, seq![q, q, q], n + 3 as int) {
                Some(e) => Some((s.subrange(n + 3 as int, e), s.skip(e + 3))),
                None => None,
            }
        } else {
            match closing_quote(s, q, n + 1, false) {
                Some(e) => Some((s.subrange(n + 1 as int, e as int), s.skip(e + 1 as int))),
                None => None,
            }
        }
    }
}

/// The text of a docstring on one line: its non-blank lines, trimmed, joined
/// by spaces.
pub open spec fn python_docstring_text(literal: Seq<char>) -> Option<Seq<char>> {
    collapse_lines(literal, false)
}

/// The module docstring of a Python file.
pub open spec fn module_docstring(contents: Seq<char>) -> Option<Seq<char>> {
    match python_string_literal(after_python_trivia(leading_contents(contents))) {
        Some((literal, _)) => python_docstring_text(literal),
        None => None,
    }
}

/// Skipping trivia in `a + b` from inside `b` is skipping it in `b`, moved by
/// `a.len()`.
pub proof fn lemma_trivia_end_shift(a: Seq<char>, b: Seq<char>, j: nat)
    ensures
        python_trivia_end(a + b, a.len() + j) == a.len() + python_trivia_end(b, j),
    decreases b.len() - j,
{
    let s = a + b;
    let i = a.len() + j;
    if j >= b.len() {
    } else {
        assert(s[i as int] == b[j as int]);
        if CharSet::Blank.contains(b[j as int]) {
            lemma_trivia_end_shift(a, b, j + 1);
            assert(i + 1 == a.len() + (j + 1));
        } else if b[j as int] == '#' {
            lemma_find_shift(a, b, seq!['\n'], j + 1 as int);
            assert(a.len() + (j + 1) == i + 1);
            lemma_find_from(b, seq!['\n'], j + 1 as int);
            match find_from(b, seq!['\n'], j + 1 as int) {
                Some(p) => {
                    lemma_trivia_end_shift(a, b, (p + 1) as nat);
                    assert(a.len() + p + 1 == a.len() + (p + 1));
                },
                None => {},
            }
        }
    }
}

pub proof fn lemma_trivia_end_bounds(s: Seq<char>, i: nat)
    requires
        i <= s.len(),
    ensures
        i <= python_trivia_end(s, i) <= s.len(),
        python_trivia_end(s, i) < s.len() ==> {
            let c = s[python_trivia_end(s, i) as int];
            !CharSet::Blank.contains(c) && c != '#'
        },
    decreases s.len() - i,
{
    if i < s.len() {
        if CharSet::Blank.contains(s[i as int]) {
            lemma_trivia_end_bounds(s, i + 1);
        } else if s[i as int] == '#' {
            lemma_find_from(s, seq!['\n'], i + 1 as int);
            match find_from(s, seq!['\n'], i + 1 as int) {
                Some(p) => {
                    lemma_trivia_end_bounds(s, (p + 1) as nat);
                },
                None => {},
            }
        }
    }
}

/// A `#!` line is a comment, so dropping it first skips no more and no less.
pub proof fn lemma_trivia_covers_shebang(s: Seq<char>)
    ensures
        after_python_trivia(without_shebang(s)) == after_python_trivia(s),
{
    if starts_with(s, seq!['#', '!']) {
        assert(s.subrange(0, 2)[0] == s[0]);
        assert(s.subrange(0, 2)[1] == s[1]);
        assert(s[0] == '#' && s[1] == '!');
        lemma_occurs_single(s, '\n', 1);
        assert(find_from(s, seq!['\n'], 1) == find_from(s, seq!['\n'], 2));
        lemma_find_from(s, seq!['\n'], 2);
        match find_from(s, seq!['\n'], 2) {
            Some(p) => {
                let k = (p + 1) as nat;
                assert(s =~= s.take(k as int) + s.skip(k as int));
                lemma_trivia_end_shift(s.take(k as int), s.skip(k as int), 0);
                let t = python_trivia_end(s.skip(k as int), 0);
                lemma_trivia_end_bounds(s.skip(k as int), 0);
                assert(python_trivia_end(s, 0) == k + t);
                assert(s.skip(k as int).skip(t as int) =~= s.skip(k + t as int));
            },
            None => {
                assert(without_shebang(s) =~= seq![]);
            },
        }
    }
}

/// `v` without its leading blank lines, indentation and comments.
pub fn skip_python_leading_trivia(v: &Vec<char>) -> (r: Vec<char>)
    ensures
        r@ == after_python_trivia(v@),
{
    let newline: Vec<char> = vec!['\n'];
    assert(newline@ =~= seq!['\n']);
    let n = v.len();
    let mut i: usize = 0;
    loop
        invariant
            newline@ == seq!['\n'],
            n == v@.len(),
            i <= n,
            python_trivia_end(v@, 0) == python_trivia_end(v@, i as nat),
        ensures
            i <= n,
            python_trivia_end(v@, 0) == i,
        decreases n - i,
    {
        if i >= n {
            break ;
        }
        let c = v[i];
        if CharSet::Blank.has(c) {
            i = i + 1;
        } else if c == '#' {
            match find_from_chars(v, &newline, i + 1) {
                Some(p) => {
                    proof {
                        lemma_find_from(v@, seq!['\n'], i + 1);
                        assert(occurs_at(v@, seq!['\n'], p as int));
                        assert(p + 1 <= n);
                    }
                    i = p + 1;
                },
                None => {
                    i = n;
                    break ;
                },
            }
        } else {
            break ;
        }
    }
    let r = subvec(v, i, n);
    assert(r@ =~= v@.skip(i as int));
    r
}

/// Where the one-line literal whose characters start at `start` is closed.
fn find_closing_quote(v: &Vec<char>, q: char, start: usize) -> (r: Option<usize>)
    ensures
        match r {
            Some(e) => closing_quote(v@, q, start as nat, false) == Some(e as nat),
            None => closing_quote(v@, q, start as nat, false) is None,
        },
{
    let n = v.len();
    let mut i = start;
    let mut escaped = false;
    while i < n
        invariant
            n == v@.len(),
            closing_quote(v@, q, start as nat, false) == closing_quote(
                v@,
                q,
                i as nat,
                escaped,
            ),
        decreases n - i,
    {
        let c = v[i];
        if c == '\n' {
            return None;
        }
        if escaped {
            escaped = false;
        } else if c == '\\' {
            escaped = true;
        } else if c == q {
            return Some(i);
        }
        i = i + 1;
    }
    None
}

/// The string literal at the start of `v`, as `python_string_literal` says.
fn parse_python_string_literal(v: &Vec<char>) -> (r: Option<(Vec<char>, Vec<char>)>)
    ensures
        match r {
            Some((literal, rest)) => python_string_literal(v@) == Some((literal@, rest@)),
            None => python_string_literal(v@) is None,
        },
{
    let len = v.len();
    let mut n: usize = 0;
    while n < len && CharSet::AsciiLetter.has(v[n])
        invariant
            len == v@.len(),
            n <= len,
            run_end(v@, CharSet::AsciiLetter, 0) == run_end(v@, CharSet::AsciiLetter, n as nat),
        decreases len - n,
    {
        n = n + 1;
    }
    assert(run_end(v@, CharSet::AsciiLetter, 0) == n);
    let mut k: usize = 0;
    while k < n
        invariant
            n <= len,
            len == v@.len(),
            run_end(v@, CharSet::AsciiLetter, 0) == n,
            forall|m: int| 0 <= m < k ==> !is_non_doc_prefix(#[trigger] v@[m]),
        decreases n - k,
    {
        let c = v[k];
        if c == 'b' || c == 'B' || c == 'f' || c == 'F' {
            assert(is_non_doc_prefix(v@[k as int]));
            return None;
        }
        k = k + 1;
    }
    if n >= len {
        return None;
    }
    let q = v[n];
    if q != '\'' && q != '"' {
        return None;
    }
    let delimiter: Vec<char> = vec![q, q, q];
    assert(delimiter@ =~= seq![q, q, q]);
    if occurs_at_chars(v, &delimiter, n) {
        match find_from_chars(v, &delimiter, n + 3) {
            Some(e) => {
                proof {
                    lemma_find_from(v@, seq![q, q, q], n + 3);
                    assert(e + 3 <= len);
                }
                let literal = subvec(v, n + 3, e);
                let rest = subvec(v, e + 3, len);
                assert(rest@ =~= v@.skip(e + 3));
                Some((literal, rest))
            },
            None => None,
        }
    } else {
        match find_closing_quote(v, q, n + 1) {
            Some(e) => {
                proof {
                    lemma_closing_quote_bounds(v@, q, (n + 1) as nat, false);
                }
                let literal = subvec(v, n + 1, e);
                let rest = subvec(v, e + 1, len);
                assert(rest@ =~= v@.skip(e + 1));
                Some((literal, rest))
            },
            None => None,
        }
    }
}

pub proof fn lemma_closing_quote_bounds(s: Seq<char>, q: char, i: nat, escaped: bool)
    ensures
        closing_quote(s, q, i, escaped) matches Some(e) ==> i <= e < s.len(),
    decreases s.len() - i,
{
    if i >= s.len() || s[i as int] == '\n' {
    } else if escaped {
        lemma_closing_quote_bounds(s, q, i + 1, false);
    } else if s[i as int] == '\\' {
        lemma_closing_quote_bounds(s, q, i + 1, true);
    } else if s[i as int] == q {
    } else {
        lemma_closing_quote_bounds(s, q, i + 1, false);
    }
}

/// The text of a docstring on one line.
fn normalize_python_docstring(literal: &Vec<char>) -> (r: Option<String>)
    ensures
        opt_chars(r) == python_docstring_text(literal@),
{
    collapse_lines_chars(literal, false)
}

/// The module docstring of a Python file, on one line.
///
/// A byte order mark, a `#!` line, blank lines and comments may come first;
/// any other statement before it means the module has no docstring.
pub fn extract_module_docstring(contents: &str) -> (r: Option<String>)
    ensures
        opt_chars(r) == module_docstring(contents@),
{
    let all = to_chars(contents);
    let without_bom = strip_bom(&all);
    let c = strip_shebang(&without_bom);
    let code = skip_python_leading_trivia(&c);
    match parse_python_string_literal(&code) {
        Some((literal, _rest)) => normalize_python_docstring(&literal),
        None => None,
    }
}

} // verus!
