//! The doc shown after a path's name in a listing: a file's own leading
//! doc, or for a directory the docs of its entry files.
use vstd::prelude::*;

use crate::chars::{opt_chars, opt_string_seqs, push_char, string_seqs};
use crate::language::{find_language_doc_support, language_for_extension, DocLanguage};
use crate::lines::{has_no_newline, lemma_lines_from_unfold, lines_from, split_lines};
use crate::text::{find_from, lemma_find_first, lemma_find_from, lemma_occurs_single, occurs_at};

verus! {

/// The lines of a doc written one after the other, each after a `'\n'`.
pub open spec fn lines_below(lines: Seq<Seq<char>>) -> Seq<char>
    decreases lines.len(),
{
    if lines.len() == 0 {
        seq![]
    } else {
        lines_below(lines.drop_last()) + seq!['\n'] + lines.last()
    }
}

/// The text written after a name for a doc made of `lines`: a doc of one line
/// stays inline, behind a space; a doc of several lines goes below the name,
/// each of its lines after a `'\n'`.
pub open spec fn shown_text(lines: Seq<Seq<char>>) -> Seq<char> {
    if lines.len() == 1 {
        seq![' '] + lines[0]
    } else {
        lines_below(lines)
    }
}

/// Every line of `lines` holds no `'\n'`, and there is at least one.
pub open spec fn shows_apart(lines: Seq<Seq<char>>) -> bool {
    &&& lines.len() > 0
    &&& forall|k: int| 0 <= k < lines.len() ==> has_no_newline(#[trigger] lines[k])
}

/// Splitting text that ends with `'\n'` and a piece without `'\n'` gives the
/// lines of the text before that `'\n'`, then the piece.
pub proof fn lemma_split_after_newline(x: Seq<char>, b: Seq<char>, i: nat)
    requires
        i <= x.len(),
        has_no_newline(b),
    ensures
        lines_from(x + seq!['\n'] + b, i) == lines_from(x, i).push(b),
    decreases x.len() - i,
{
    let y = x + seq!['\n'] + b;
    let nl = seq!['\n'];
    lemma_lines_from_unfold(x, i);
    lemma_lines_from_unfold(y, i);
    lemma_find_from(x, nl, i as int);
    assert forall|k: int| 0 <= k < x.len() implies occurs_at(y, nl, k) == occurs_at(x, nl, k) by {
        lemma_occurs_single(y, '\n', k);
        lemma_occurs_single(x, '\n', k);
        assert(y[k] == x[k]);
    }
    match find_from(x, nl, i as int) {
        Some(j) => {
            lemma_find_first(y, nl, i as int, j);
            lemma_split_after_newline(x, b, (j + 1) as nat);
            assert(y.subrange(i as int, j) =~= x.subrange(i as int, j));
            assert((seq![x.subrange(i as int, j)] + lines_from(x, (j + 1) as nat)).push(b)
                =~= seq![x.subrange(i as int, j)] + lines_from(x, (j + 1) as nat).push(b));
        },
        None => {
            let n = x.len() as int;
            lemma_occurs_single(y, '\n', n);
            assert(y[n] == '\n');
            lemma_find_first(y, nl, i as int, n);
            lemma_lines_from_unfold(y, (n + 1) as nat);
            lemma_find_from(y, nl, n + 1);
            match find_from(y, nl, n + 1) {
                Some(j) => {
                    lemma_occurs_single(y, '\n', j);
                    assert(y[j] == b[j - n - 1]);
                },
                None => {},
            }
            assert(y.subrange(n + 1, y.len() as int) =~= b);
            assert(y.subrange(i as int, n) =~= x.subrange(i as int, n));
        },
    }
}

/// Lines written below a name split back into an empty first piece and the
/// lines themselves.
pub proof fn lemma_lines_below_split(lines: Seq<Seq<char>>)
    requires
        shows_apart(lines),
    ensures
        split_lines(lines_below(lines)) == seq![seq![]] + lines,
    decreases lines.len(),
{
    let init = lines.drop_last();
    let x = lines_below(init);
    assert(has_no_newline(lines[lines.len() - 1]));
    lemma_split_after_newline(x, lines.last(), 0);
    if init.len() == 0 {
        lemma_lines_from_unfold(x, 0);
        lemma_find_from(x, seq!['\n'], 0);
        assert(x =~= Seq::<char>::empty());
        assert(seq!['\n'].len() == 1);
        assert(find_from(x, seq!['\n'], 0) is None);
        assert(x.subrange(0, 0) =~= Seq::<char>::empty());
        assert(split_lines(x) =~= seq![Seq::<char>::empty()]);
        assert(seq![seq![]] + lines =~= seq![Seq::<char>::empty()].push(lines.last()));
    } else {
        assert forall|k: int| 0 <= k < init.len() implies has_no_newline(#[trigger] init[k]) by {
            assert(init[k] == lines[k]);
        }
        lemma_lines_below_split(init);
        assert((seq![seq![]] + init).push(lines.last()) =~= seq![seq![]] + lines);
    }
}

/// The lines shown for a file: it needs an extension of a supported language,
/// readable contents and a leading doc in them; each line of the doc is
/// written in the comment syntax of the language.
pub open spec fn shown_file_lines(extension: Option<Seq<char>>, contents: Option<Seq<char>>) -> Option<
    Seq<Seq<char>>,
> {
    match (extension, contents) {
        (Some(ext), Some(text)) => match language_for_extension(ext) {
            Some(language) => match language.file_doc_lines(text) {
                Some(docs) => Some(docs.map_values(|d: Seq<char>| language.doc_line(d))),
                None => None,
            },
            None => None,
        },
        _ => None,
    }
}

/// The doc shown for a file: its lines as `shown_text` writes them.
pub open spec fn file_doc(extension: Option<Seq<char>>, contents: Option<Seq<char>>) -> Option<
    Seq<char>,
> {
    match shown_file_lines(extension, contents) {
        Some(lines) => Some(shown_text(lines)),
        None => None,
    }
}

/// `lines` written as `shown_text` says.
fn show_doc_lines(lines: &Vec<String>) -> (r: String)
    ensures
        r@ == shown_text(string_seqs(lines@)),
{
    let ghost view = string_seqs(lines@);
    if lines.len() == 1 {
        let mut r = String::new();
        push_char(&mut r, ' ');
        r.append(lines[0].as_str());
        assert(r@ =~= seq![' '] + view[0]);
        r
    } else {
        let mut r = String::new();
        let mut i: usize = 0;
        while i < lines.len()
            invariant
                i <= lines.len(),
                view == string_seqs(lines@),
                r@ == lines_below(view.take(i as int)),
            decreases lines.len() - i,
        {
            push_char(&mut r, '\n');
            r.append(lines[i].as_str());
            assert(view.take(i + 1).drop_last() =~= view.take(i as int));
            assert(view.take(i + 1).last() == lines@[i as int]@);
            i = i + 1;
        }
        assert(view.take(lines.len() as int) =~= view);
        r
    }
}

/// Each doc of `docs` as a line in the comment syntax of `language`.
fn render_doc_lines(language: DocLanguage, docs: &Vec<String>) -> (r: Vec<String>)
    ensures
        string_seqs(r@) == string_seqs(docs@).map_values(|d: Seq<char>| language.doc_line(d)),
{
    let mut r: Vec<String> = Vec::new();
    let mut i: usize = 0;
    while i < docs.len()
        invariant
            i <= docs.len(),
            string_seqs(r@) == string_seqs(docs@.take(i as int)).map_values(
                |d: Seq<char>| language.doc_line(d),
            ),
        decreases docs.len() - i,
    {
        let line = language.format_line(docs[i].as_str());
        let ghost prev = r@;
        assert(string_seqs(prev).len() == prev.len());
        r.push(line);
        assert forall|k: int| 0 <= k < i implies #[trigger] r@[k]@ == language.doc_line(
            docs@[k]@,
        ) by {
            assert(r@[k] == prev[k]);
            assert(string_seqs(prev)[k] == string_seqs(docs@.take(i as int)).map_values(
                |d: Seq<char>| language.doc_line(d),
            )[k]);
        }
        assert(string_seqs(r@) =~= string_seqs(docs@.take(i + 1)).map_values(
            |d: Seq<char>| language.doc_line(d),
        ));
        i = i + 1;
    }
    assert(docs@.take(docs.len() as int) =~= docs@);
    r
}

/// The lines shown for a file, as `shown_file_lines` says.
fn format_doc_lines_for_file(extension: Option<&str>, contents: Option<&str>) -> (r: Option<
    Vec<String>,
>)
    ensures
        opt_string_seqs(r) == shown_file_lines(
            match extension {
                Some(e) => Some(e@),
                None => None,
            },
            match contents {
                Some(c) => Some(c@),
                None => None,
            },
        ),
{
    match (extension, contents) {
        (Some(ext), Some(text)) => match find_language_doc_support(ext) {
            Some(language) => match language.extract_file_doc_lines(text) {
                Some(docs) => Some(render_doc_lines(language, &docs)),
                None => None,
            },
            None => None,
        },
        _ => None,
    }
}

/// The doc shown for a file with extension `extension` (`None` when it has
/// none) and contents `contents` (`None` when it could not be read), as
/// `file_doc` says.
pub fn format_doc_comment_for_file(extension: Option<&str>, contents: Option<&str>) -> (r: Option<
    String,
>)
    ensures
        opt_chars(r) == file_doc(
            match extension {
                Some(e) => Some(e@),
                None => None,
            },
            match contents {
                Some(c) => Some(c@),
                None => None,
            },
        ),
{
    match format_doc_lines_for_file(extension, contents) {
        Some(lines) => Some(show_doc_lines(&lines)),
        None => None,
    }
}

/// The number of files whose doc stands for their directory.
pub open spec fn entry_file_count() -> nat {
    4
}

/// The name of the `i`-th file whose doc stands for its directory, in the
/// order in which they are tried.
pub open spec fn entry_file_name(i: int) -> Seq<char> {
    if i == 0 {
        seq!['i', 'n', 'd', 'e', 'x', '.', 't', 's']
    } else if i == 1 {
        seq!['i', 'n', 'd', 'e', 'x', '.', 't', 's', 'x']
    } else if i == 2 {
        seq!['_', '_', 'i', 'n', 'i', 't', '_', '_', '.', 'p', 'y']
    } else {
        seq!['m', 'o', 'd', '.', 'r', 's']
    }
}

/// The extension of the `i`-th entry file.
pub open spec fn entry_file_extension(i: int) -> Seq<char> {
    if i == 0 {
        seq!['t', 's']
    } else if i == 1 {
        seq!['t', 's', 'x']
    } else if i == 2 {
        seq!['p', 'y']
    } else {
        seq!['r', 's']
    }
}

/// The names of the files whose doc stands for their directory, in the order
/// in which they are tried: TypeScript's, then Python's, then Rust's.
pub fn directory_doc_entry_files() -> (r: Vec<&'static str>)
    ensures
        r@.len() == entry_file_count(),
        forall|i: int| 0 <= i < r@.len() ==> (#[trigger] r@[i])@ == entry_file_name(i),
{
    proof {
        reveal_strlit("index.ts");
        reveal_strlit("index.tsx");
        reveal_strlit("__init__.py");
        reveal_strlit("mod.rs");
    }
    let r: Vec<&'static str> = vec!["index.ts", "index.tsx", "__init__.py", "mod.rs"];
    r
}

/// The extension of the `i`-th entry file.
fn entry_extension(i: usize) -> (r: &'static str)
    ensures
        r@ == entry_file_extension(i as int),
{
    proof {
        reveal_strlit("ts");
        reveal_strlit("tsx");
        reveal_strlit("py");
        reveal_strlit("rs");
    }
    if i == 0 {
        "ts"
    } else if i == 1 {
        "tsx"
    } else if i == 2 {
        "py"
    } else {
        "rs"
    }
}

/// The contents of the entry files as read: `None` for one that is missing
/// or unreadable.
pub open spec fn entry_contents_view(entries: Seq<Option<String>>) -> Seq<Option<Seq<char>>> {
    entries.map_values(|o: Option<String>| opt_chars(o))
}

/// The shown lines of the entry files `i` and on that have a doc, in order.
/// An entry past the end of `entries` is missing.
pub open spec fn entry_docs_from(entries: Seq<Option<Seq<char>>>, i: nat) -> Seq<Seq<Seq<char>>>
    decreases entry_file_count() - i,
{
    if i >= entry_file_count() {
        seq![]
    } else {
        let contents = if i < entries.len() {
            entries[i as int]
        } else {
            None
        };
        let rest = entry_docs_from(entries, i + 1);
        match shown_file_lines(Some(entry_file_extension(i as int)), contents) {
            Some(lines) => seq![lines] + rest,
            None => rest,
        }
    }
}

/// The lines of several docs, one doc after another with an empty line
/// between two docs.
pub open spec fn stacked(docs: Seq<Seq<Seq<char>>>) -> Seq<Seq<char>>
    decreases docs.len(),
{
    if docs.len() == 0 {
        seq![]
    } else if docs.len() == 1 {
        docs[0]
    } else {
        stacked(docs.drop_last()) + seq![seq![]] + docs.last()
    }
}

/// The doc shown for a directory, where `entry_contents[i]` holds the contents
/// of its entry file `directory_doc_entry_files()[i]`: the docs of all its
/// entry files that have one, in that order, an empty line between two of
/// them, written as `shown_text` says; `None` when no entry file has a doc.
pub open spec fn directory_doc(entry_contents: Seq<Option<Seq<char>>>) -> Option<Seq<char>> {
    let docs = entry_docs_from(entry_contents, 0);
    if docs.len() == 0 {
        None
    } else {
        Some(shown_text(stacked(docs)))
    }
}

/// Adds copies of the strings of `more` to the end of `v`.
fn append_strings(v: &mut Vec<String>, more: &Vec<String>)
    ensures
        string_seqs(final(v)@) == string_seqs(old(v)@) + string_seqs(more@),
{
    let ghost start = string_seqs(v@);
    let mut i: usize = 0;
    while i < more.len()
        invariant
            i <= more.len(),
            string_seqs(v@) == start + string_seqs(more@.take(i as int)),
        decreases more.len() - i,
    {
        let s = more[i].clone();
        let ghost prev = v@;
        assert(string_seqs(prev).len() == prev.len());
        v.push(s);
        assert forall|k: int| 0 <= k < prev.len() implies #[trigger] v@[k]@ == string_seqs(
            prev,
        )[k] by {
            assert(v@[k] == prev[k]);
        }
        assert(string_seqs(v@) =~= start + string_seqs(more@.take(i + 1)));
        i = i + 1;
    }
    assert(more@.take(more.len() as int) =~= more@);
}

/// The doc shown for a directory, as `directory_doc` says.
pub fn format_doc_comment_for_directory(entry_contents: &Vec<Option<String>>) -> (r: Option<
    String,
>)
    ensures
        opt_chars(r) == directory_doc(entry_contents_view(entry_contents@)),
{
    let ghost entries = entry_contents_view(entry_contents@);
    let mut lines: Vec<String> = Vec::new();
    let mut any = false;
    let ghost mut docs: Seq<Seq<Seq<char>>> = seq![];
    let mut i: usize = 0;
    while i < 4
        invariant
            i <= 4,
            entries == entry_contents_view(entry_contents@),
            entry_docs_from(entries, 0) == docs + entry_docs_from(entries, i as nat),
            string_seqs(lines@) == stacked(docs),
            any == (docs.len() > 0),
        decreases 4 - i,
    {
        let contents: Option<&str> = if i < entry_contents.len() {
            match &entry_contents[i] {
                Some(text) => Some(text.as_str()),
                None => None,
            }
        } else {
            None
        };
        let ext = entry_extension(i);
        let ghost rest = entry_docs_from(entries, (i + 1) as nat);
        match format_doc_lines_for_file(Some(ext), contents) {
            Some(found) => {
                let ghost f = string_seqs(found@);
                if any {
                    let ghost prev = string_seqs(lines@);
                    lines.push(String::new());
                    assert(string_seqs(lines@) =~= prev + seq![seq![]]);
                }
                append_strings(&mut lines, &found);
                proof {
                    assert(docs.push(f).drop_last() =~= docs);
                    assert(string_seqs(lines@) =~= stacked(docs.push(f)));
                    assert(docs + (seq![f] + rest) =~= docs.push(f) + rest);
                    docs = docs.push(f);
                }
                any = true;
            },
            None => {},
        }
        i = i + 1;
    }
    assert(docs + seq![] =~= docs);
    if any {
        Some(show_doc_lines(&lines))
    } else {
        None
    }
}

/// What was read of a path whose doc is wanted.
pub enum DocTarget {
    /// A file: its extension, if it has one in UTF-8, and its contents, if
    /// they could be read as text.
    File { extension: Option<String>, contents: Option<String> },
    /// A directory: the contents of its entry files, in the order of
    /// `directory_doc_entry_files()`; `None` for one that could not be read.
    Directory { entry_contents: Vec<Option<String>> },
}

/// The doc shown for what `target` describes.
pub open spec fn target_doc(target: DocTarget) -> Option<Seq<char>> {
    match target {
        DocTarget::File { extension, contents } => file_doc(
            opt_chars(extension),
            opt_chars(contents),
        ),
        DocTarget::Directory { entry_contents } => directory_doc(
            entry_contents_view(entry_contents@),
        ),
    }
}

/// The doc comment shown for a path: that of its entry files for a
/// directory, its own for a file.
pub fn format_doc_comment_for_path(target: &DocTarget) -> (r: Option<String>)
    ensures
        opt_chars(r) == target_doc(*target),
{
    match target {
        DocTarget::File { extension, contents } => {
            let ext: Option<&str> = match extension {
                Some(e) => Some(e.as_str()),
                None => None,
            };
            let text: Option<&str> = match contents {
                Some(c) => Some(c.as_str()),
                None => None,
            };
            format_doc_comment_for_file(ext, text)
        },
        DocTarget::Directory { entry_contents } => format_doc_comment_for_directory(
            entry_contents,
        ),
    }
}

} // verus!
