//! Character classes and whole-text helpers shared by the mention parser and
//! the content compressor. Everything here works on sequences of Unicode
//! scalar values, never on bytes.

use vstd::prelude::*;

verus! {

/// `String::push` appends exactly one character to the end of the string.
pub assume_specification[ String::push ](s: &mut String, c: char)
    ensures
        final(s)@ == old(s)@.push(c),
;

/// ASCII letters and digits.
pub open spec fn is_ascii_alphanumeric(c: char) -> bool {
    ('a' <= c && c <= 'z') || ('A' <= c && c <= 'Z') || ('0' <= c && c <= '9')
}

/// What `char::is_alphanumeric` says of a character: whether Unicode counts
/// it among the letters or the numbers.
pub uninterp spec fn is_unicode_alphanumeric(c: char) -> bool;

/// Letters and digits of every script: those of ASCII, and beyond ASCII the
/// characters that Unicode counts among the letters or the numbers.
pub open spec fn is_alphanumeric(c: char) -> bool {
    if c <= '\u{7f}' {
        is_ascii_alphanumeric(c)
    } else {
        is_unicode_alphanumeric(c)
    }
}

/// The characters carrying the Unicode `White_Space` property.
pub open spec fn is_whitespace(c: char) -> bool {
    ||| ('\u{9}' <= c && c <= '\u{d}')
    ||| c == ' '
    ||| c == '\u{85}'
    ||| c == '\u{a0}'
    ||| c == '\u{1680}'
    ||| ('\u{2000}' <= c && c <= '\u{200a}')
    ||| c == '\u{2028}'
    ||| c == '\u{2029}'
    ||| c == '\u{202f}'
    ||| c == '\u{205f}'
    ||| c == '\u{3000}'
}

/// Whether `c` is an ASCII letter or digit.
pub fn ascii_alphanumeric(c: char) -> (r: bool)
    ensures
        r == is_ascii_alphanumeric(c),
{
    (c >= 'a' && c <= 'z') || (c >= 'A' && c <= 'Z') || (c >= '0' && c <= '9')
}

/// `char::is_alphanumeric`: whether Unicode counts `c` among the letters or
/// the numbers.
#[verifier::external_body]
fn unicode_alphanumeric(c: char) -> (r: bool)
    ensures
        r == is_unicode_alphanumeric(c),
{
    c.is_alphanumeric()
}

/// Whether `c` is a letter or a digit of any script.
pub fn alphanumeric(c: char) -> (r: bool)
    ensures
        r == is_alphanumeric(c),
{
    if c <= '\u{7f}' {
        ascii_alphanumeric(c)
    } else {
        unicode_alphanumeric(c)
    }
}

/// Whether `c` is whitespace.
pub fn whitespace(c: char) -> (r: bool)
    ensures
        r == is_whitespace(c),
{
    (c >= '\u{9}' && c <= '\u{d}') || c == ' ' || c == '\u{85}' || c == '\u{a0}' || c == '\u{1680}'
        || (c >= '\u{2000}' && c <= '\u{200a}') || c == '\u{2028}' || c == '\u{2029}' || c
        == '\u{202f}' || c == '\u{205f}' || c == '\u{3000}'
}

/// Number of whitespace characters at the front of `s`.
pub open spec fn leading_whitespace(s: Seq<char>) -> nat
    decreases s.len(),
{
    if s.len() > 0 && is_whitespace(s[0]) {
        1 + leading_whitespace(s.drop_first())
    } else {
        0
    }
}

/// Number of whitespace characters at the back of `s`.
pub open spec fn trailing_whitespace(s: Seq<char>) -> nat
    decreases s.len(),
{
    if s.len() > 0 && is_whitespace(s.last()) {
        1 + trailing_whitespace(s.drop_last())
    } else {
        0
    }
}

/// Index of the first character that `trim` keeps.
pub open spec fn trim_start(s: Seq<char>) -> int {
    leading_whitespace(s) as int
}

/// Index one past the last character that `trim` keeps.
pub open spec fn trim_end(s: Seq<char>) -> int {
    if leading_whitespace(s) == s.len() {
        s.len() as int
    } else {
        s.len() - trailing_whitespace(s)
    }
}

/// `s` without its surrounding whitespace.
pub open spec fn trim(s: Seq<char>) -> Seq<char> {
    s.subrange(trim_start(s), trim_end(s))
}

/// `s` neither starts nor ends with whitespace.
pub open spec fn is_trimmed(s: Seq<char>) -> bool {
    s.len() > 0 ==> !is_whitespace(s[0]) && !is_whitespace(s.last())
}

/// The leading run lies inside the text, holds only whitespace and is
/// followed by none.
pub proof fn lemma_leading_whitespace(s: Seq<char>)
    ensures
        leading_whitespace(s) <= s.len(),
        forall|i: int| 0 <= i < leading_whitespace(s) ==> is_whitespace(#[trigger] s[i]),
        leading_whitespace(s) < s.len() ==> !is_whitespace(s[leading_whitespace(s) as int]),
    decreases s.len(),
{
    if s.len() > 0 && is_whitespace(s[0]) {
        let rest = s.drop_first();
        lemma_leading_whitespace(rest);
        assert forall|i: int| 0 <= i < leading_whitespace(s) implies is_whitespace(
            #[trigger] s[i],
        ) by {
            if i > 0 {
                assert(s[i] == rest[i - 1]);
            }
        }
        if leading_whitespace(s) < s.len() {
            assert(s[leading_whitespace(s) as int] == rest[leading_whitespace(rest) as int]);
        }
    }
}

/// The trailing run lies inside the text, holds only whitespace and is
/// preceded by none.
pub proof fn lemma_trailing_whitespace(s: Seq<char>)
    ensures
        trailing_whitespace(s) <= s.len(),
        forall|i: int|
            s.len() - trailing_whitespace(s) <= i < s.len() ==> is_whitespace(#[trigger] s[i]),
        trailing_whitespace(s) < s.len() ==> !is_whitespace(
            s[s.len() - trailing_whitespace(s) - 1],
        ),
    decreases s.len(),
{
    if s.len() > 0 && is_whitespace(s.last()) {
        let rest = s.drop_last();
        lemma_trailing_whitespace(rest);
        assert forall|i: int| s.len() - trailing_whitespace(s) <= i < s.len() implies is_whitespace(
            #[trigger] s[i],
        ) by {
            if i < s.len() - 1 {
                assert(s[i] == rest[i]);
            }
        }
        if trailing_whitespace(s) < s.len() {
            assert(s[s.len() - trailing_whitespace(s) - 1] == rest[rest.len()
                - trailing_whitespace(rest) - 1]);
        }
    }
}

/// A run of `n` whitespace characters at the front, followed by the end of
/// the text or by something else, is the whole leading run.
pub proof fn lemma_leading_whitespace_is(s: Seq<char>, n: int)
    requires
        0 <= n <= s.len(),
        forall|i: int| 0 <= i < n ==> is_whitespace(#[trigger] s[i]),
        n < s.len() ==> !is_whitespace(s[n]),
    ensures
        leading_whitespace(s) == n,
    decreases n,
{
    if n > 0 {
        let rest = s.drop_first();
        assert(is_whitespace(s[0]));
        assert forall|i: int| 0 <= i < n - 1 implies is_whitespace(#[trigger] rest[i]) by {
            assert(rest[i] == s[i + 1]);
        }
        lemma_leading_whitespace_is(rest, n - 1);
    }
}

/// A run of `n` whitespace characters at the back, preceded by the start of
/// the text or by something else, is the whole trailing run.
pub proof fn lemma_trailing_whitespace_is(s: Seq<char>, n: int)
    requires
        0 <= n <= s.len(),
        forall|i: int| s.len() - n <= i < s.len() ==> is_whitespace(#[trigger] s[i]),
        n < s.len() ==> !is_whitespace(s[s.len() - n - 1]),
    ensures
        trailing_whitespace(s) == n,
    decreases n,
{
    if n > 0 {
        let rest = s.drop_last();
        assert(is_whitespace(s[s.len() - 1]));
        assert forall|i: int| rest.len() - (n - 1) <= i < rest.len() implies is_whitespace(
            #[trigger] rest[i],
        ) by {
            assert(rest[i] == s[i]);
        }
        lemma_trailing_whitespace_is(rest, n - 1);
    }
}

/// The bounds of `trim` are ordered and lie inside the text.
pub proof fn lemma_trim_bounds(s: Seq<char>)
    ensures
        0 <= trim_start(s) <= trim_end(s) <= s.len(),
        trim(s).len() == trim_end(s) - trim_start(s),
        is_trimmed(trim(s)),
{
    lemma_leading_whitespace(s);
    lemma_trailing_whitespace(s);
    if leading_whitespace(s) < s.len() {
        let a = leading_whitespace(s) as int;
        let k = trailing_whitespace(s) as int;
        // the first kept character is not whitespace, so the trailing run
        // cannot reach it
        if s.len() - k <= a {
            assert(is_whitespace(s[a]));
        }
        assert(trim(s)[0] == s[a]);
        assert(trim(s).last() == s[s.len() - k - 1]);
    }
}

/// Trimming a text that has no surrounding whitespace changes nothing.
pub proof fn lemma_trim_of_trimmed(s: Seq<char>)
    requires
        is_trimmed(s),
    ensures
        trim(s) == s,
{
    if s.len() > 0 {
        lemma_leading_whitespace_is(s, 0);
        lemma_trailing_whitespace_is(s, 0);
    }
    assert(trim(s) =~= s);
}

/// Trimming twice is trimming once.
pub proof fn lemma_trim_idempotent(s: Seq<char>)
    ensures
        trim(trim(s)) == trim(s),
{
    lemma_trim_bounds(s);
    lemma_trim_of_trimmed(trim(s));
}

/// The characters of `s`, one element per Unicode scalar value.
pub fn to_chars(s: &str) -> (v: Vec<char>)
    ensures
        v@ == s@,
{
    broadcast use vstd::string::group_string_axioms;

    let mut v: Vec<char> = Vec::new();
    for c in it: s.chars()
        invariant
            it.seq() == s@,
            v@ == s@.take(it.index()),
    {
        v.push(c);
    }
    assert(s@.take(s@.len() as int) == s@);
    v
}

/// The text made of `v[from..to]`.
pub fn string_of(v: &Vec<char>, from: usize, to: usize) -> (s: String)
    requires
        from <= to <= v.len(),
    ensures
        s@ == v@.subrange(from as int, to as int),
{
    let mut s = String::new();
    let mut i: usize = from;
    while i < to
        invariant
            from <= i <= to <= v.len(),
            s@ == v@.subrange(from as int, i as int),
        decreases to - i,
    {
        s.push(v[i]);
        i += 1;
    }
    s
}

/// Appends every character of `tail` to `s`.
pub fn push_chars(s: &mut String, tail: &str)
    ensures
        final(s)@ == old(s)@ + tail@,
{
    broadcast use vstd::string::group_string_axioms;

    for c in it: tail.chars()
        invariant
            it.seq() == tail@,
            s@ == old(s)@ + tail@.take(it.index()),
    {
        s.push(c);
    }
    assert(tail@.take(tail@.len() as int) == tail@);
}

/// The bounds `(a, b)` of the trimmed part of `v[..len]`.
pub fn trim_bounds(v: &Vec<char>, len: usize) -> (r: (usize, usize))
    requires
        len <= v.len(),
    ensures
        r.0 == trim_start(v@.take(len as int)),
        r.1 == trim_end(v@.take(len as int)),
        r.0 <= r.1 <= len,
{
    let ghost s = v@.take(len as int);
    let mut a: usize = 0;
    while a < len && whitespace(v[a])
        invariant
            a <= len <= v.len(),
            s == v@.take(len as int),
            forall|i: int| 0 <= i < a ==> is_whitespace(#[trigger] s[i]),
        decreases len - a,
    {
        a += 1;
    }
    proof {
        lemma_leading_whitespace_is(s, a as int);
        lemma_trim_bounds(s);
    }
    if a == len {
        return (a, len);
    }
    let mut b: usize = len;
    while b > a && whitespace(v[b - 1])
        invariant
            a <= b <= len <= v.len(),
            s == v@.take(len as int),
            forall|i: int| b <= i < len ==> is_whitespace(#[trigger] s[i]),
        decreases b,
    {
        b -= 1;
    }
    proof {
        // the loop cannot run down to `a`: the character there is kept
        assert(!is_whitespace(s[a as int]));
        if b == a {
            assert(is_whitespace(s[a as int]));
        }
        lemma_trailing_whitespace_is(s, len - b);
    }
    (a, b)
}

} // verus!
