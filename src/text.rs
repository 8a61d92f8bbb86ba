//! Character-level helpers shared by the parser, the search engine and the
//! template renderer.
use vstd::prelude::*;

verus! {

/// Relies on `String::push`: appends one character at the end.
#[verifier::external_body]
pub(crate) fn push_char(s: &mut String, c: char)
    ensures
        final(s)@ == old(s)@.push(c),
{
    s.push(c)
}

/// The characters of a string slice, in order.
pub fn chars_of(s: &str) -> (r: Vec<char>)
    ensures
        r@ == s@,
{
    let mut v: Vec<char> = Vec::new();
    for c in it: s.chars()
        invariant
            v@ == it.seq().take(it.index() as int),
    {
        v.push(c);
    }
    v
}

/// A string holding `v[lo..hi]`.
pub fn string_of(v: &Vec<char>, lo: usize, hi: usize) -> (r: String)
    requires
        lo <= hi <= v.len(),
    ensures
        r@ == v@.subrange(lo as int, hi as int),
{
    let mut s = String::new();
    let mut i: usize = lo;
    while i < hi
        invariant
            lo <= i <= hi <= v.len(),
            s@ == v@.subrange(lo as int, i as int),
        decreases hi - i,
    {
        push_char(&mut s, v[i]);
        assert(v@.subrange(lo as int, i + 1) =~= v@.subrange(lo as int, i as int).push(v@[i as int]));
        i = i + 1;
    }
    s
}

/// The code of a character with ASCII upper case folded to lower case.
pub open spec fn fold_code(c: char) -> u32 {
    if 'A' <= c && c <= 'Z' {
        (c as u32 + 32) as u32
    } else {
        c as u32
    }
}

/// Two characters equal up to ASCII case.
pub open spec fn eq_ci(a: char, b: char) -> bool {
    fold_code(a) == fold_code(b)
}

pub fn fold_char(c: char) -> (r: u32)
    ensures
        r == fold_code(c),
{
    if 'A' <= c && c <= 'Z' {
        c as u32 + 32
    } else {
        c as u32
    }
}

pub fn chars_eq_ci(a: char, b: char) -> (r: bool)
    ensures
        r == eq_ci(a, b),
{
    fold_char(a) == fold_char(b)
}

/// Two sequences equal up to ASCII case.
pub open spec fn seq_eq_ci(a: Seq<char>, b: Seq<char>) -> bool {
    a.len() == b.len() && forall|k: int| 0 <= k < a.len() ==> eq_ci(#[trigger] a[k], b[k])
}

/// `v[lo..hi]` equals `w` up to ASCII case.
pub fn range_eq_ci(v: &Vec<char>, lo: usize, hi: usize, w: &Vec<char>) -> (r: bool)
    requires
        lo <= hi <= v.len(),
    ensures
        r == seq_eq_ci(v@.subrange(lo as int, hi as int), w@),
{
    if hi - lo != w.len() {
        return false;
    }
    let mut k: usize = 0;
    while k < w.len()
        invariant
            lo <= hi <= v.len(),
            hi - lo == w.len(),
            k <= w.len(),
            forall|m: int| 0 <= m < k ==> eq_ci(v@[lo + m], w@[m]),
        decreases w.len() - k,
    {
        if !chars_eq_ci(v[lo + k], w[k]) {
            assert(v@.subrange(lo as int, hi as int)[k as int] == v@[lo + k]);
            return false;
        }
        k = k + 1;
    }
    assert forall|m: int| 0 <= m < w@.len() implies eq_ci(
        #[trigger] v@.subrange(lo as int, hi as int)[m],
        w@[m],
    ) by {
        assert(v@.subrange(lo as int, hi as int)[m] == v@[lo + m]);
    }
    true
}

/// Blank characters that separate words on a line.
pub open spec fn is_blank(c: char) -> bool {
    c == ' ' || c == '\t' || c == '\r'
}

pub fn blank(c: char) -> (r: bool)
    ensures
        r == is_blank(c),
{
    c == ' ' || c == '\t' || c == '\r'
}

/// The first index in `lo..hi` that holds no blank, or `hi`.
pub open spec fn skip_blank(s: Seq<char>, lo: int, hi: int) -> int
    decreases hi - lo,
{
    if lo >= hi {
        hi
    } else if is_blank(s[lo]) {
        skip_blank(s, lo + 1, hi)
    } else {
        lo
    }
}

/// One past the last index in `lo..hi` that holds no blank, or `lo`.
pub open spec fn trim_end(s: Seq<char>, lo: int, hi: int) -> int
    decreases hi - lo,
{
    if lo >= hi {
        lo
    } else if is_blank(s[hi - 1]) {
        trim_end(s, lo, hi - 1)
    } else {
        hi
    }
}

/// The first index in `lo..hi` that holds a blank, or `hi`.
pub open spec fn word_end(s: Seq<char>, lo: int, hi: int) -> int
    decreases hi - lo,
{
    if lo >= hi {
        hi
    } else if is_blank(s[lo]) {
        lo
    } else {
        word_end(s, lo + 1, hi)
    }
}

pub fn find_non_blank(v: &Vec<char>, lo: usize, hi: usize) -> (r: usize)
    requires
        lo <= hi <= v.len(),
    ensures
        r == skip_blank(v@, lo as int, hi as int),
        lo <= r <= hi,
{
    let mut i = lo;
    while i < hi && blank(v[i])
        invariant
            lo <= i <= hi <= v.len(),
            skip_blank(v@, i as int, hi as int) == skip_blank(v@, lo as int, hi as int),
        decreases hi - i,
    {
        i = i + 1;
    }
    i
}

pub fn find_trim_end(v: &Vec<char>, lo: usize, hi: usize) -> (r: usize)
    requires
        lo <= hi <= v.len(),
    ensures
        r == trim_end(v@, lo as int, hi as int),
        lo <= r <= hi,
{
    let mut j = hi;
    while j > lo && blank(v[j - 1])
        invariant
            lo <= j <= hi <= v.len(),
            trim_end(v@, lo as int, j as int) == trim_end(v@, lo as int, hi as int),
        decreases j - lo,
    {
        j = j - 1;
    }
    j
}

pub fn find_word_end(v: &Vec<char>, lo: usize, hi: usize) -> (r: usize)
    requires
        lo <= hi <= v.len(),
    ensures
        r == word_end(v@, lo as int, hi as int),
        lo <= r <= hi,
{
    let mut i = lo;
    while i < hi && !blank(v[i])
        invariant
            lo <= i <= hi <= v.len(),
            word_end(v@, i as int, hi as int) == word_end(v@, lo as int, hi as int),
        decreases hi - i,
    {
        i = i + 1;
    }
    i
}

} // verus!
