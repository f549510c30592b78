//! The content compressor: shortens a text toward a character budget, cutting
//! at a natural boundary and marking the cut.

use vstd::prelude::*;
use crate::text::{
    is_trimmed, is_whitespace, lemma_leading_whitespace_is, lemma_trim_bounds,
    lemma_trim_idempotent, push_chars, string_of, to_chars, trim, trim_bounds, trim_end,
    whitespace,
};

verus! {

/// The text appended to every shortened content.
pub open spec fn truncation_marker() -> Seq<char> {
    "...[truncated]"@
}

/// Characters that end a sentence, with their full-width forms.
pub open spec fn is_sentence_end(c: char) -> bool {
    c == '.' || c == '!' || c == '?' || c == '\u{3002}' || c == '\u{ff01}' || c == '\u{ff1f}'
}

/// Characters at which a cut falls between words.
pub open spec fn is_soft_break(c: char) -> bool {
    is_whitespace(c) || c == ','
}

/// The last position in `[lo, hi)` that holds a sentence end, or -1.
pub open spec fn last_sentence_end(s: Seq<char>, lo: int, hi: int) -> int
    decreases hi - lo,
{
    if hi <= lo {
        -1
    } else if is_sentence_end(s[hi - 1]) {
        hi - 1
    } else {
        last_sentence_end(s, lo, hi - 1)
    }
}

/// The last position in `[lo, hi)` that holds a soft break, or -1.
pub open spec fn last_soft_break(s: Seq<char>, lo: int, hi: int) -> int
    decreases hi - lo,
{
    if hi <= lo {
        -1
    } else if is_soft_break(s[hi - 1]) {
        hi - 1
    } else {
        last_soft_break(s, lo, hi - 1)
    }
}

/// Where a text longer than `max` is cut: just after the last sentence end
/// in `[max / 2, max)`; else at the last soft break in that range; else at
/// `max`.
pub open spec fn break_point(s: Seq<char>, max: int) -> int {
    let sentence = last_sentence_end(s, max / 2, max);
    let soft = last_soft_break(s, max / 2, max);
    if sentence >= 0 {
        sentence + 1
    } else if soft >= 0 {
        soft
    } else {
        max
    }
}

/// The compressed form of `content` under a budget of `max` characters.
pub open spec fn compressed(content: Seq<char>, max: int) -> Seq<char> {
    let t = trim(content);
    if t.len() <= max {
        t
    } else {
        trim(t.take(break_point(t, max))) + truncation_marker()
    }
}

/// The marker has 14 characters.
pub proof fn lemma_marker_len()
    ensures
        truncation_marker().len() == 14,
{
    reveal_strlit("...[truncated]");
}

/// The last sentence end of a range lies in the range, holds a sentence end
/// and is followed by none.
pub proof fn lemma_last_sentence_end(s: Seq<char>, lo: int, hi: int)
    requires
        0 <= lo,
    ensures
        last_sentence_end(s, lo, hi) == -1 || lo <= last_sentence_end(s, lo, hi) < hi,
        last_sentence_end(s, lo, hi) >= 0 ==> is_sentence_end(s[last_sentence_end(s, lo, hi)]),
        forall|i: int|
            lo <= i < hi && last_sentence_end(s, lo, hi) < i ==> !is_sentence_end(#[trigger] s[i]),
    decreases hi - lo,
{
    if hi > lo && !is_sentence_end(s[hi - 1]) {
        lemma_last_sentence_end(s, lo, hi - 1);
    }
}

/// The last soft break of a range lies in the range, holds a soft break and
/// is followed by none.
pub proof fn lemma_last_soft_break(s: Seq<char>, lo: int, hi: int)
    requires
        0 <= lo,
    ensures
        last_soft_break(s, lo, hi) == -1 || lo <= last_soft_break(s, lo, hi) < hi,
        last_soft_break(s, lo, hi) >= 0 ==> is_soft_break(s[last_soft_break(s, lo, hi)]),
        forall|i: int|
            lo <= i < hi && last_soft_break(s, lo, hi) < i ==> !is_soft_break(#[trigger] s[i]),
    decreases hi - lo,
{
    if hi > lo && !is_soft_break(s[hi - 1]) {
        lemma_last_soft_break(s, lo, hi - 1);
    }
}

/// The cut never lies beyond the budget.
pub proof fn lemma_break_point_bounds(s: Seq<char>, max: int)
    requires
        0 <= max,
    ensures
        0 <= break_point(s, max) <= max,
{
    lemma_last_sentence_end(s, max / 2, max);
    lemma_last_soft_break(s, max / 2, max);
}

/// A cut before the budget lies at a natural boundary in the second half of
/// the budget: just after a sentence end, or at a soft break where the range
/// holds no sentence end.
pub proof fn lemma_break_point_is_natural(s: Seq<char>, max: int)
    requires
        0 <= max,
        break_point(s, max) < max,
    ensures
        max / 2 <= break_point(s, max),
        is_sentence_end(s[break_point(s, max) - 1]) && max / 2 < break_point(s, max) || (
        is_soft_break(s[break_point(s, max)]) && forall|i: int|
            max / 2 <= i < max ==> !is_sentence_end(#[trigger] s[i])),
{
    lemma_last_sentence_end(s, max / 2, max);
    lemma_last_soft_break(s, max / 2, max);
}

/// Trimming a prefix of a trimmed text gives a prefix of that text.
pub proof fn lemma_trim_of_prefix(t: Seq<char>, n: int)
    requires
        is_trimmed(t),
        0 <= n <= t.len(),
    ensures
        0 <= trim_end(t.take(n)) <= n,
        trim(t.take(n)) == t.take(trim_end(t.take(n))),
{
    let u = t.take(n);
    lemma_trim_bounds(u);
    if n > 0 {
        assert(u[0] == t[0]);
        lemma_leading_whitespace_is(u, 0);
    }
    assert(trim(u) =~= t.take(trim_end(u)));
}

/// A content that fits its budget after trimming comes back trimmed and
/// otherwise unchanged. A longer one comes back as a strict prefix of the
/// trimmed content, at most `max` characters long, followed by the marker.
pub proof fn lemma_compressed_fits_or_is_marked_prefix(content: Seq<char>, max: int)
    requires
        0 <= max,
    ensures
        trim(content).len() <= max ==> compressed(content, max) == trim(content),
        trim(content).len() > max ==> {
            let out = compressed(content, max);
            let kept = out.len() - truncation_marker().len();
            &&& out.len() <= max + truncation_marker().len()
            &&& 0 <= kept <= max
            &&& kept < trim(content).len()
            &&& out == trim(content).take(kept) + truncation_marker()
        },
{
    let t = trim(content);
    if t.len() > max {
        lemma_trim_bounds(content);
        lemma_break_point_bounds(t, max);
        lemma_trim_of_prefix(t, break_point(t, max));
    }
}

/// Compressing an already compressed content that fitted its budget changes
/// nothing.
pub proof fn lemma_compress_idempotent_when_fitting(content: Seq<char>, max: int)
    requires
        trim(content).len() <= max,
    ensures
        compressed(compressed(content, max), max) == compressed(content, max),
{
    lemma_trim_idempotent(content);
}

/// Whether `c` ends a sentence.
fn sentence_end(c: char) -> (r: bool)
    ensures
        r == is_sentence_end(c),
{
    c == '.' || c == '!' || c == '?' || c == '\u{3002}' || c == '\u{ff01}' || c == '\u{ff1f}'
}

/// Whether a cut may fall at `c`.
fn soft_break(c: char) -> (r: bool)
    ensures
        r == is_soft_break(c),
{
    whitespace(c) || c == ','
}

/// The characters `v[from..to]` as a vector of their own.
fn slice_of(v: &Vec<char>, from: usize, to: usize) -> (r: Vec<char>)
    requires
        from <= to <= v.len(),
    ensures
        r@ == v@.subrange(from as int, to as int),
{
    let mut r: Vec<char> = Vec::new();
    let mut i: usize = from;
    while i < to
        invariant
            from <= i <= to <= v.len(),
            r@ == v@.subrange(from as int, i as int),
        decreases to - i,
    {
        r.push(v[i]);
        i += 1;
    }
    r
}

/// The cut position for a text `t` longer than `max` characters.
fn find_break_point(t: &Vec<char>, max: usize) -> (bp: usize)
    requires
        max < t.len(),
    ensures
        bp == break_point(t@, max as int),
        bp <= max,
{
    let half = max / 2;
    let mut i: usize = max;
    while i > half
        invariant
            half <= i <= max < t.len(),
            half == max as int / 2,
            last_sentence_end(t@, half as int, max as int) == last_sentence_end(
                t@,
                half as int,
                i as int,
            ),
        decreases i,
    {
        if sentence_end(t[i - 1]) {
            assert(last_sentence_end(t@, half as int, i as int) == i - 1);
            return i;
        }
        i -= 1;
    }
    assert(last_sentence_end(t@, half as int, max as int) == -1);
    let mut k: usize = max;
    while k > half
        invariant
            half <= k <= max < t.len(),
            half == max as int / 2,
            last_sentence_end(t@, half as int, max as int) == -1,
            last_soft_break(t@, half as int, max as int) == last_soft_break(
                t@,
                half as int,
                k as int,
            ),
        decreases k,
    {
        if soft_break(t[k - 1]) {
            assert(last_soft_break(t@, half as int, k as int) == k - 1);
            return k - 1;
        }
        k -= 1;
    }
    assert(last_soft_break(t@, half as int, max as int) == -1);
    max
}

/// Shortens `content` to about `max_chars` characters. A content that fits
/// after trimming is returned trimmed; a longer one is cut at a sentence
/// end, else between words, else at the budget, trimmed again and marked.
pub fn compress_content(content: &str, max_chars: usize) -> (out: String)
    ensures
        out@ == compressed(content@, max_chars as int),
{
    let chars = to_chars(content);
    let (a, b) = trim_bounds(&chars, chars.len());
    assert(chars@.take(chars.len() as int) == chars@);
    if b - a <= max_chars {
        return string_of(&chars, a, b);
    }
    let t = slice_of(&chars, a, b);
    assert(t@ == trim(content@));
    let bp = find_break_point(&t, max_chars);
    let (c, d) = trim_bounds(&t, bp);
    let mut out = string_of(&t, c, d);
    assert(out@ == trim(t@.take(bp as int))) by {
        assert(t@.take(bp as int).subrange(c as int, d as int) == t@.subrange(c as int, d as int));
    }
    push_chars(&mut out, "...[truncated]");
    out
}

} // verus!
