use vstd::prelude::*;

verus! {

/// Appends one character to a string (std's `String::push`).
/// Trusted: the string's characters after the call are those before it, then `c`.
#[verifier::external_body]
pub(crate) fn push_char(s: &mut String, c: char)
    ensures
        final(s)@ == old(s)@.push(c),
{
    s.push(c);
}

/// The characters of `s`, in order.
pub fn to_chars(s: &str) -> (v: Vec<char>)
    ensures
        v@ == s@,
{
    let mut v: Vec<char> = Vec::new();
    for c in it: s.chars()
        invariant
            v@ == it.seq().take(it.index()),
    {
        v.push(c);
    }
    v
}

/// The characters `v[lo..hi]` as a new vector.
pub fn subvec(v: &Vec<char>, lo: usize, hi: usize) -> (r: Vec<char>)
    requires
        lo <= hi <= v.len(),
    ensures
        r@ == v@.subrange(lo as int, hi as int),
{
    let mut r: Vec<char> = Vec::new();
    let mut i = lo;
    while i < hi
        invariant
            lo <= i <= hi <= v.len(),
            r@ == v@.subrange(lo as int, i as int),
        decreases hi - i,
    {
        r.push(v[i]);
        assert(v@.subrange(lo as int, i + 1) =~= v@.subrange(lo as int, i as int).push(v@[i as int]));
        i = i + 1;
    }
    r
}

/// Appends the characters of `v` to `out`.
pub fn append_chars(out: &mut String, v: &Vec<char>)
    ensures
        final(out)@ == old(out)@ + v@,
{
    let mut i: usize = 0;
    while i < v.len()
        invariant
            i <= v.len(),
            out@ == old(out)@ + v@.take(i as int),
        decreases v.len() - i,
    {
        push_char(out, v[i]);
        assert(v@.take(i + 1) =~= v@.take(i as int).push(v@[i as int]));
        i = i + 1;
    }
    assert(v@.take(v.len() as int) =~= v@);
}

/// A string holding the characters of `v`.
pub fn string_from_chars(v: &Vec<char>) -> (r: String)
    ensures
        r@ == v@,
{
    let mut r = String::new();
    append_chars(&mut r, v);
    r
}

/// The characters of each vector of `v`.
pub open spec fn chars_seqs(v: Seq<Vec<char>>) -> Seq<Seq<char>> {
    v.map_values(|x: Vec<char>| x@)
}

/// The characters of each string of `v`.
pub open spec fn string_seqs(v: Seq<String>) -> Seq<Seq<char>> {
    v.map_values(|x: String| x@)
}

/// The characters of each string of an optional list.
pub open spec fn opt_string_seqs(r: Option<Vec<String>>) -> Option<Seq<Seq<char>>> {
    match r {
        Some(v) => Some(string_seqs(v@)),
        None => None,
    }
}

/// Strings holding the characters of each vector of `vs`.
pub fn strings_from_chars(vs: &Vec<Vec<char>>) -> (r: Vec<String>)
    ensures
        string_seqs(r@) == chars_seqs(vs@),
{
    let mut r: Vec<String> = Vec::new();
    let mut i: usize = 0;
    while i < vs.len()
        invariant
            i <= vs.len(),
            string_seqs(r@) == chars_seqs(vs@.take(i as int)),
        decreases vs.len() - i,
    {
        let s = string_from_chars(&vs[i]);
        let ghost prev = r@;
        assert(string_seqs(prev).len() == prev.len());
        assert(chars_seqs(vs@.take(i as int)).len() == i);
        r.push(s);
        assert forall|k: int| 0 <= k < i implies #[trigger] r@[k]@ == vs@[k]@ by {
            assert(r@[k] == prev[k]);
            assert(string_seqs(prev)[k] == chars_seqs(vs@.take(i as int))[k]);
        }
        assert(string_seqs(r@) =~= chars_seqs(vs@.take(i + 1)));
        i = i + 1;
    }
    assert(vs@.take(vs.len() as int) =~= vs@);
    r
}

/// The characters of an optional string.
pub open spec fn opt_chars(r: Option<String>) -> Option<Seq<char>> {
    match r {
        Some(s) => Some(s@),
        None => None,
    }
}

} // verus!
