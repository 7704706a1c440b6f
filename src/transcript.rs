//! Assembling the recognised text of an utterance from the engine's segments.
use vstd::prelude::*;
use crate::text::{chars_of, push_chars, string_from_chars};

verus! {

/// Characters with the Unicode `White_Space` property.
pub open spec fn is_white_space(c: char) -> bool {
    ('\t' <= c && c <= '\r') || c == ' ' || c == '\u{85}' || c == '\u{a0}' || c == '\u{1680}' || (
    '\u{2000}' <= c && c <= '\u{200a}') || c == '\u{2028}' || c == '\u{2029}' || c == '\u{202f}'
        || c == '\u{205f}' || c == '\u{3000}'
}

/// First index at or after `i` that does not hold white space, or the length.
pub open spec fn trim_start_at(s: Seq<char>, i: int) -> int
    decreases s.len() - i,
{
    if i >= s.len() || !is_white_space(s[i]) {
        i
    } else {
        trim_start_at(s, i + 1)
    }
}

/// End of `s[lo..j]` with trailing white space removed.
pub open spec fn trim_end_at(s: Seq<char>, lo: int, j: int) -> int
    decreases j - lo,
{
    if j <= lo || !is_white_space(s[j - 1]) {
        j
    } else {
        trim_end_at(s, lo, j - 1)
    }
}

/// `s` without leading and trailing white space.
pub open spec fn trimmed(s: Seq<char>) -> Seq<char> {
    let a = trim_start_at(s, 0);
    s.subrange(a, trim_end_at(s, a, s.len() as int))
}

/// All segment texts, one after another.
pub open spec fn concat_texts(parts: Seq<Seq<char>>) -> Seq<char>
    decreases parts.len(),
{
    if parts.len() == 0 {
        Seq::empty()
    } else {
        concat_texts(parts.drop_last()) + parts.last()
    }
}

/// The text views of a list of strings.
pub open spec fn texts_of(parts: Seq<String>) -> Seq<Seq<char>> {
    parts.map_values(|p: String| p@)
}

fn white_space(c: char) -> (r: bool)
    ensures
        r == is_white_space(c),
{
    ('\t' <= c && c <= '\r') || c == ' ' || c == '\u{85}' || c == '\u{a0}' || c == '\u{1680}' || (
    '\u{2000}' <= c && c <= '\u{200a}') || c == '\u{2028}' || c == '\u{2029}' || c == '\u{202f}'
        || c == '\u{205f}' || c == '\u{3000}'
}

proof fn lemma_trim_bounds(s: Seq<char>, i: int, lo: int, j: int)
    requires
        0 <= i <= s.len(),
        0 <= lo <= j <= s.len(),
    ensures
        i <= trim_start_at(s, i) <= s.len(),
        lo <= trim_end_at(s, lo, j) <= j,
    decreases s.len() - i + j - lo,
{
    if i < s.len() && is_white_space(s[i]) {
        lemma_trim_bounds(s, i + 1, lo, j);
    } else if j > lo && is_white_space(s[j - 1]) {
        lemma_trim_bounds(s, i, lo, j - 1);
    }
}

/// The characters of `s` without surrounding white space.
pub fn trim_chars(s: &Vec<char>) -> (r: Vec<char>)
    ensures
        r@ == trimmed(s@),
{
    let n = s.len();
    let mut a: usize = 0;
    while a < n && white_space(s[a])
        invariant
            n == s@.len(),
            a <= n,
            trim_start_at(s@, a as int) == trim_start_at(s@, 0),
        decreases n - a,
    {
        a = a + 1;
    }
    let mut b: usize = n;
    while b > a && white_space(s[b - 1])
        invariant
            n == s@.len(),
            a <= b <= n,
            trim_end_at(s@, a as int, b as int) == trim_end_at(s@, a as int, n as int),
        decreases b - a,
    {
        b = b - 1;
    }
    let mut out: Vec<char> = Vec::new();
    let mut i: usize = a;
    while i < b
        invariant
            a <= i <= b <= n,
            n == s@.len(),
            out@ == s@.subrange(a as int, i as int),
        decreases b - i,
    {
        out.push(s[i]);
        i = i + 1;
        proof {
            assert(out@ =~= s@.subrange(a as int, i as int));
        }
    }
    out
}

/// The recognised text of an utterance: the segment texts concatenated, with
/// surrounding white space trimmed.
pub fn transcript_text(segments: &Vec<String>) -> (r: String)
    ensures
        r@ == trimmed(concat_texts(texts_of(segments@))),
{
    let mut all: Vec<char> = Vec::new();
    let mut k: usize = 0;
    while k < segments.len()
        invariant
            k <= segments@.len(),
            all@ == concat_texts(texts_of(segments@.subrange(0, k as int))),
        decreases segments@.len() - k,
    {
        let part = chars_of(segments[k].as_str());
        push_chars(&mut all, &part);
        proof {
            let pre = segments@.subrange(0, k as int + 1);
            assert(texts_of(pre).drop_last() =~= texts_of(segments@.subrange(0, k as int)));
            assert(texts_of(pre).last() == segments@[k as int]@);
        }
        k = k + 1;
    }
    proof {
        assert(segments@.subrange(0, segments@.len() as int) =~= segments@);
    }
    string_from_chars(trim_chars(&all))
}

} // verus!
