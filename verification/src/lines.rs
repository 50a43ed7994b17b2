//! Splitting text into lines and collapsing the non-blank lines of a comment
//! into a single line of words.
use vstd::prelude::*;

use crate::chars::{append_chars, chars_seqs, push_char, subvec};
use crate::text::{
    find_from,
    find_from_chars,
    is_unicode_whitespace,
    lemma_find_from,
    lemma_occurs_single,
    lemma_run_end_bounds,
    lemma_run_start_bounds,
    run_end,
    run_start,
    trim,
    trim_chars,
    CharSet,
};

verus! {

/// The lines of `s` from index `i` on: the pieces between consecutive `'\n'`.
///
/// Unlike `str::lines`, a `'\r'` just before a `'\n'` stays at the end of its
/// piece, and a text that ends with `'\n'` has an empty last piece. Neither
/// changes what the callers make of the pieces: a `'\r'` at the end of a line
/// changes neither its cleaned form nor a run of `//!` lines (proved in
/// `laws::carriage_return_at_line_end_changes_nothing`), and an empty piece
/// is dropped by `kept_lines` and gives no text to a `//!` run.
pub open spec fn lines_from(s: Seq<char>, i: nat) -> Seq<Seq<char>>
    decreases s.len() - i,
{
    match find_from(s, seq!['\n'], i as int) {
        Some(j) => {
            proof {
                lemma_find_from(s, seq!['\n'], i as int);
            }
            seq![s.subrange(i as int, j)] + lines_from(s, (j + 1) as nat)
        },
        None => seq![s.subrange(i as int, s.len() as int)],
    }
}

/// The lines of `s`.
pub open spec fn split_lines(s: Seq<char>) -> Seq<Seq<char>> {
    lines_from(s, 0)
}

/// A comment line with surrounding whitespace removed and, when `strip_star`
/// holds, one leading `'*'` (and the whitespace after it) removed too.
pub open spec fn clean_line(line: Seq<char>, strip_star: bool) -> Seq<char> {
    let t = trim(line, CharSet::Whitespace);
    if strip_star && t.len() > 0 && t[0] == '*' {
        trim(t.drop_first(), CharSet::Whitespace)
    } else {
        t
    }
}

/// The cleaned lines of `lines` that are not empty, in order.
pub open spec fn kept_lines(lines: Seq<Seq<char>>, strip_star: bool) -> Seq<Seq<char>>
    decreases lines.len(),
{
    if lines.len() == 0 {
        seq![]
    } else {
        let p = clean_line(lines[0], strip_star);
        let rest = kept_lines(lines.drop_first(), strip_star);
        if p.len() > 0 {
            seq![p] + rest
        } else {
            rest
        }
    }
}

/// The words of `parts` joined by single spaces.
pub open spec fn join_words(parts: Seq<Seq<char>>) -> Seq<char>
    decreases parts.len(),
{
    if parts.len() == 0 {
        seq![]
    } else if parts.len() == 1 {
        parts[0]
    } else {
        join_words(parts.drop_last()) + seq![' '] + parts.last()
    }
}

/// The text of a comment body on one line: its non-blank lines, cleaned,
/// joined by spaces; `None` when every line is blank.
pub open spec fn collapse_lines(text: Seq<char>, strip_star: bool) -> Option<Seq<char>> {
    let parts = kept_lines(split_lines(trim(text, CharSet::LineBreak)), strip_star);
    if parts.len() == 0 {
        None
    } else {
        Some(join_words(parts))
    }
}

/// One line of a split: the piece of `s` that starts at `start`, and where
/// the next line starts, if there is one.
pub proof fn lemma_lines_from_unfold(s: Seq<char>, start: nat)
    ensures
        match find_from(s, seq!['\n'], start as int) {
            Some(j) => {
                &&& start <= j < s.len()
                &&& lines_from(s, start) == seq![s.subrange(start as int, j)] + lines_from(
                    s,
                    (j + 1) as nat,
                )
            },
            None => lines_from(s, start) == seq![s.subrange(start as int, s.len() as int)],
        },
{
    lemma_find_from(s, seq!['\n'], start as int);
}

/// `d` is shown as one line: it is not empty, starts and ends with a
/// character that is not whitespace, and holds no `'\n'`.
pub open spec fn is_one_line_text(d: Seq<char>) -> bool {
    &&& d.len() > 0
    &&& !is_unicode_whitespace(d[0])
    &&& !is_unicode_whitespace(d.last())
    &&& forall|i: int| 0 <= i < d.len() ==> d[i] != '\n'
}

/// `s` holds no `'\n'`.
pub open spec fn has_no_newline(s: Seq<char>) -> bool {
    forall|i: int| 0 <= i < s.len() ==> s[i] != '\n'
}

/// Trimming whitespace leaves nothing or a one-line text, when there was no
/// `'\n'` to begin with.
pub proof fn lemma_trim_one_line(x: Seq<char>)
    requires
        has_no_newline(x),
    ensures
        has_no_newline(trim(x, CharSet::Whitespace)),
        trim(x, CharSet::Whitespace).len() > 0 ==> is_one_line_text(trim(x, CharSet::Whitespace)),
{
    let w = CharSet::Whitespace;
    let a = run_end(x, w, 0);
    lemma_run_end_bounds(x, w, 0);
    let y = x.skip(a as int);
    let b = run_start(y, w, y.len());
    lemma_run_start_bounds(y, w, y.len());
    let t = y.take(b as int);
    assert(t == trim(x, w));
    assert forall|i: int| 0 <= i < t.len() implies t[i] != '\n' by {
        assert(t[i] == x[a + i]);
    }
    if t.len() > 0 {
        assert(t[0] == x[a as int]);
        assert(t.last() == y[b - 1]);
    }
}

/// What follows the first `k` characters of a text without `'\n'` has none.
pub proof fn lemma_skip_no_newline(x: Seq<char>, k: int)
    requires
        has_no_newline(x),
        0 <= k <= x.len(),
    ensures
        has_no_newline(x.skip(k)),
{
    assert forall|i: int| 0 <= i < x.skip(k).len() implies x.skip(k)[i] != '\n' by {
        assert(x.skip(k)[i] == x[k + i]);
    }
}

/// A cleaned line is empty or one line.
pub proof fn lemma_clean_line_one_line(line: Seq<char>, strip_star: bool)
    requires
        has_no_newline(line),
    ensures
        clean_line(line, strip_star).len() > 0 ==> is_one_line_text(clean_line(line, strip_star)),
{
    let t = trim(line, CharSet::Whitespace);
    lemma_trim_one_line(line);
    if strip_star && t.len() > 0 && t[0] == '*' {
        lemma_skip_no_newline(t, 1);
        assert(t.drop_first() == t.skip(1));
        lemma_trim_one_line(t.drop_first());
    }
}

/// No line of a split holds a `'\n'`.
pub proof fn lemma_lines_no_newline(s: Seq<char>, i: nat)
    requires
        i <= s.len(),
    ensures
        forall|k: int| 0 <= k < lines_from(s, i).len() ==> has_no_newline(
            #[trigger] lines_from(s, i)[k],
        ),
    decreases s.len() - i,
{
    lemma_lines_from_unfold(s, i);
    lemma_find_from(s, seq!['\n'], i as int);
    match find_from(s, seq!['\n'], i as int) {
        Some(j) => {
            let piece = s.subrange(i as int, j);
            assert forall|m: int| 0 <= m < piece.len() implies piece[m] != '\n' by {
                lemma_occurs_single(s, '\n', i + m);
            }
            lemma_lines_no_newline(s, (j + 1) as nat);
            let rest = lines_from(s, (j + 1) as nat);
            assert forall|k: int| 0 <= k < lines_from(s, i).len() implies has_no_newline(
                #[trigger] lines_from(s, i)[k],
            ) by {
                if k > 0 {
                    assert(lines_from(s, i)[k] == rest[k - 1]);
                }
            }
        },
        None => {
            let piece = s.subrange(i as int, s.len() as int);
            assert forall|m: int| 0 <= m < piece.len() implies piece[m] != '\n' by {
                lemma_occurs_single(s, '\n', i + m);
            }
        },
    }
}

/// The kept lines of lines without `'\n'` are each one line.
pub proof fn lemma_kept_lines_one_line(lines: Seq<Seq<char>>, strip_star: bool)
    requires
        forall|k: int| 0 <= k < lines.len() ==> has_no_newline(#[trigger] lines[k]),
    ensures
        forall|k: int|
            0 <= k < kept_lines(lines, strip_star).len() ==> is_one_line_text(
                #[trigger] kept_lines(lines, strip_star)[k],
            ),
    decreases lines.len(),
{
    if lines.len() > 0 {
        let rest = lines.drop_first();
        assert forall|k: int| 0 <= k < rest.len() implies has_no_newline(#[trigger] rest[k]) by {
            assert(rest[k] == lines[k + 1]);
        }
        lemma_kept_lines_one_line(rest, strip_star);
        assert(has_no_newline(lines[0]));
        lemma_clean_line_one_line(lines[0], strip_star);
        let p = clean_line(lines[0], strip_star);
        let kr = kept_lines(rest, strip_star);
        if p.len() > 0 {
            assert forall|k: int|
                0 <= k < kept_lines(lines, strip_star).len() implies is_one_line_text(
                #[trigger] kept_lines(lines, strip_star)[k],
            ) by {
                if k > 0 {
                    assert(kept_lines(lines, strip_star)[k] == kr[k - 1]);
                }
            }
        }
    }
}

/// Words that are each one line, joined by spaces, are one line.
pub proof fn lemma_join_one_line(parts: Seq<Seq<char>>)
    requires
        parts.len() > 0,
        forall|k: int| 0 <= k < parts.len() ==> is_one_line_text(#[trigger] parts[k]),
    ensures
        is_one_line_text(join_words(parts)),
    decreases parts.len(),
{
    if parts.len() > 1 {
        let init = parts.drop_last();
        assert forall|k: int| 0 <= k < init.len() implies is_one_line_text(#[trigger] init[k]) by {
            assert(init[k] == parts[k]);
        }
        lemma_join_one_line(init);
        let j = join_words(init);
        let l = parts.last();
        assert(is_one_line_text(l));
        let r = j + seq![' '] + l;
        assert(r[0] == j[0]);
        assert(r.last() == l.last());
        assert forall|i: int| 0 <= i < r.len() implies r[i] != '\n' by {
            if i < j.len() {
                assert(r[i] == j[i]);
            } else if i == j.len() {
                assert(r[i] == ' ');
            } else {
                assert(r[i] == l[i - j.len() - 1]);
            }
        }
    }
}

/// A collapsed comment body is one line.
pub proof fn lemma_collapse_one_line(text: Seq<char>, strip_star: bool)
    ensures
        collapse_lines(text, strip_star) matches Some(d) ==> is_one_line_text(d),
{
    let t = trim(text, CharSet::LineBreak);
    lemma_lines_no_newline(t, 0);
    lemma_kept_lines_one_line(split_lines(t), strip_star);
    let parts = kept_lines(split_lines(t), strip_star);
    if parts.len() > 0 {
        lemma_join_one_line(parts);
    }
}

/// `line` cleaned as `clean_line` says.
pub fn clean_line_chars(line: &Vec<char>, strip_star: bool) -> (r: Vec<char>)
    ensures
        r@ == clean_line(line@, strip_star),
{
    let t = trim_chars(line, CharSet::Whitespace);
    if strip_star && t.len() > 0 && t[0] == '*' {
        let rest = subvec(&t, 1, t.len());
        assert(rest@ =~= t@.drop_first());
        trim_chars(&rest, CharSet::Whitespace)
    } else {
        t
    }
}

/// Adds `part` as the next word of `out`.
pub fn push_word(out: &mut String, any: bool, part: &Vec<char>, Ghost(done): Ghost<
    Seq<Seq<char>>,
>)
    requires
        old(out)@ == join_words(done),
        any == (done.len() > 0),
    ensures
        final(out)@ == join_words(done.push(part@)),
{
    if any {
        push_char(out, ' ');
    }
    append_chars(out, part);
    assert(done.push(part@).drop_last() =~= done);
}

/// The words `parts` joined by single spaces, as `join_words` says.
pub fn join_words_chars(parts: &Vec<Vec<char>>) -> (r: String)
    ensures
        r@ == join_words(chars_seqs(parts@)),
{
    let mut out = String::new();
    let mut i: usize = 0;
    while i < parts.len()
        invariant
            i <= parts.len(),
            out@ == join_words(chars_seqs(parts@.take(i as int))),
        decreases parts.len() - i,
    {
        let ghost done = chars_seqs(parts@.take(i as int));
        push_word(&mut out, i > 0, &parts[i], Ghost(done));
        assert(done.push(parts@[i as int]@) =~= chars_seqs(parts@.take(i + 1)));
        i = i + 1;
    }
    assert(parts@.take(parts.len() as int) =~= parts@);
    out
}

/// The comment body `text` on one line, as `collapse_lines` says.
pub fn collapse_lines_chars(text: &Vec<char>, strip_star: bool) -> (r: Option<String>)
    ensures
        crate::chars::opt_chars(r) == collapse_lines(text@, strip_star),
{
    let t = trim_chars(text, CharSet::LineBreak);
    let newline: Vec<char> = vec!['\n'];
    assert(newline@ =~= seq!['\n']);
    let mut out = String::new();
    let mut any = false;
    let ghost mut done: Seq<Seq<char>> = seq![];
    let mut pos: usize = 0;
    loop
        invariant_except_break
            kept_lines(lines_from(t@, 0), strip_star) == done + kept_lines(
                lines_from(t@, pos as nat),
                strip_star,
            ),
        invariant
            newline@ == seq!['\n'],
            pos <= t.len(),
            out@ == join_words(done),
            any == (done.len() > 0),
        ensures
            kept_lines(lines_from(t@, 0), strip_star) == done,
            out@ == join_words(done),
            any == (done.len() > 0),
        decreases t.len() - pos,
    {
        let found = find_from_chars(&t, &newline, pos);
        proof {
            lemma_lines_from_unfold(t@, pos as nat);
        }
        let end = match found {
            Some(j) => j,
            None => t.len(),
        };
        let seg = subvec(&t, pos, end);
        let part = clean_line_chars(&seg, strip_star);
        let ghost rest: Seq<Seq<char>> = match found {
            Some(j) => lines_from(t@, (j + 1) as nat),
            None => seq![],
        };
        proof {
            assert(lines_from(t@, pos as nat) == seq![seg@] + rest);
            assert((seq![seg@] + rest).drop_first() =~= rest);
            assert((seq![seg@] + rest)[0] == seg@);
        }
        if part.len() > 0 {
            push_word(&mut out, any, &part, Ghost(done));
            proof {
                assert(done + (seq![part@] + kept_lines(rest, strip_star)) =~= done.push(part@)
                    + kept_lines(rest, strip_star));
                done = done.push(part@);
            }
            any = true;
        }
        match found {
            Some(j) => {
                pos = j + 1;
            },
            None => {
                assert(kept_lines(rest, strip_star) =~= seq![]);
                assert(done + seq![] =~= done);
                break ;
            },
        }
    }
    if any {
        Some(out)
    } else {
        None
    }
}

} // verus!
