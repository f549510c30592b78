//! The mention parser: the distinct `@handle` references of a text, in the
//! order in which each handle first occurs.

use vstd::prelude::*;
use crate::text::{
    alphanumeric, ascii_alphanumeric, is_alphanumeric, is_ascii_alphanumeric, string_of, to_chars,
};

verus! {

/// A character that may be part of a handle.
pub open spec fn is_handle_char(c: char) -> bool {
    is_ascii_alphanumeric(c) || c == '_' || c == '-'
}

/// A character after which an `@` does not start a mention: a letter or a
/// digit of any script, `_`, `-` or `.`. The `@` then sits inside a longer
/// token such as an e-mail address.
pub open spec fn blocks_mention(c: char) -> bool {
    is_alphanumeric(c) || c == '_' || c == '-' || c == '.'
}

/// Position `i` holds an `@` that may start a mention.
pub open spec fn mention_start(s: Seq<char>, i: int) -> bool {
    &&& 0 <= i < s.len()
    &&& s[i] == '@'
    &&& (i == 0 || !blocks_mention(s[i - 1]))
}

/// The end of the longest run of handle characters that begins at `j`.
pub open spec fn handle_end(s: Seq<char>, j: int) -> int
    decreases s.len() - j,
{
    if 0 <= j < s.len() && is_handle_char(s[j]) {
        handle_end(s, j + 1)
    } else {
        j
    }
}

/// The handle that follows the `@` at position `i`.
pub open spec fn handle_at(s: Seq<char>, i: int) -> Seq<char> {
    s.subrange(i + 1, handle_end(s, i + 1))
}

/// Position `i` starts a mention with a handle of at least one character.
pub open spec fn names_mention(s: Seq<char>, i: int) -> bool {
    mention_start(s, i) && handle_end(s, i + 1) > i + 1
}

/// The mentions that start before position `n`, each handle once, in the
/// order of first occurrence.
pub open spec fn mentions_upto(s: Seq<char>, n: int) -> Seq<Seq<char>>
    decreases n,
{
    if n <= 0 {
        Seq::empty()
    } else {
        let earlier = mentions_upto(s, n - 1);
        if names_mention(s, n - 1) && !earlier.contains(handle_at(s, n - 1)) {
            earlier.push(handle_at(s, n - 1))
        } else {
            earlier
        }
    }
}

/// The mentions of a whole text.
pub open spec fn mentions_of(s: Seq<char>) -> Seq<Seq<char>> {
    mentions_upto(s, s.len() as int)
}

/// The first position at or after `from` whose mention names `handle`, or the
/// length of the text when there is none.
pub open spec fn first_mention_from(s: Seq<char>, handle: Seq<char>, from: int) -> int
    decreases s.len() - from,
{
    if from >= s.len() {
        s.len() as int
    } else if names_mention(s, from) && handle_at(s, from) == handle {
        from
    } else {
        first_mention_from(s, handle, from + 1)
    }
}

/// The first position whose mention names `handle`.
pub open spec fn first_mention(s: Seq<char>, handle: Seq<char>) -> int {
    first_mention_from(s, handle, 0)
}

/// The character contents of a list of strings.
pub open spec fn texts(list: Seq<String>) -> Seq<Seq<char>> {
    Seq::new(list.len(), |k: int| list[k]@)
}

/// The run of a handle ends inside the text, holds only handle characters
/// and is followed by none.
pub proof fn lemma_handle_end(s: Seq<char>, j: int)
    requires
        0 <= j <= s.len(),
    ensures
        j <= handle_end(s, j) <= s.len(),
        forall|k: int| j <= k < handle_end(s, j) ==> is_handle_char(#[trigger] s[k]),
        handle_end(s, j) < s.len() ==> !is_handle_char(s[handle_end(s, j)]),
    decreases s.len() - j,
{
    if j < s.len() && is_handle_char(s[j]) {
        lemma_handle_end(s, j + 1);
    }
}

/// The first mention from a position on lies at or after it, names the
/// handle where it lies inside the text, and no position before it does.
pub proof fn lemma_first_mention_from(s: Seq<char>, handle: Seq<char>, from: int)
    requires
        0 <= from,
    ensures
        from <= first_mention_from(s, handle, from) || first_mention_from(s, handle, from)
            == s.len(),
        first_mention_from(s, handle, from) <= s.len() || from > s.len(),
        forall|p: int|
            from <= p < first_mention_from(s, handle, from) ==> !(#[trigger] names_mention(s, p)
                && handle_at(s, p) == handle),
        first_mention_from(s, handle, from) < s.len() ==> names_mention(
            s,
            first_mention_from(s, handle, from),
        ) && handle_at(s, first_mention_from(s, handle, from)) == handle,
    decreases s.len() - from,
{
    if from < s.len() && !(names_mention(s, from) && handle_at(s, from) == handle) {
        lemma_first_mention_from(s, handle, from + 1);
    }
}

/// Where a handle is named at all, its first mention is a position that
/// names it and no earlier position does.
pub proof fn lemma_first_mention(s: Seq<char>, handle: Seq<char>, p: int)
    requires
        names_mention(s, p),
        handle_at(s, p) == handle,
    ensures
        0 <= first_mention(s, handle) <= p,
        names_mention(s, first_mention(s, handle)),
        handle_at(s, first_mention(s, handle)) == handle,
        forall|q: int|
            0 <= q < first_mention(s, handle) ==> !(#[trigger] names_mention(s, q) && handle_at(
                s,
                q,
            ) == handle),
{
    lemma_first_mention_from(s, handle, 0);
    if first_mention(s, handle) > p {
        assert(!(names_mention(s, p) && handle_at(s, p) == handle));
    }
}

/// What holds of the mentions found before position `n`.
pub open spec fn mentions_upto_law(s: Seq<char>, n: int) -> bool {
    let m = mentions_upto(s, n);
    &&& m.no_duplicates()
    &&& forall|h: Seq<char>|
        m.contains(h) <==> exists|p: int| 0 <= p < n && #[trigger] names_mention(s, p) && handle_at(s, p) == h
    &&& forall|k: int| 0 <= k < m.len() ==> 0 <= #[trigger] first_mention(s, m[k]) < n
    &&& forall|j: int, k: int|
        0 <= j < k < m.len() ==> #[trigger] first_mention(s, m[j]) < #[trigger] first_mention(
            s,
            m[k],
        )
}

/// The law of the mentions found before a position holds at every position.
pub proof fn lemma_mentions_upto(s: Seq<char>, n: int)
    requires
        0 <= n <= s.len(),
    ensures
        mentions_upto_law(s, n),
    decreases n,
{
    let m = mentions_upto(s, n);
    if n == 0 {
        assert forall|h: Seq<char>| m.contains(h) <==> exists|p: int|
            0 <= p < n && #[trigger] names_mention(s, p) && handle_at(s, p) == h by {}
    } else {
        lemma_mentions_upto(s, n - 1);
        let e = mentions_upto(s, n - 1);
        let h0 = handle_at(s, n - 1);
        if names_mention(s, n - 1) && !e.contains(h0) {
            assert(m == e.push(h0));
            // no earlier position names h0, so its first mention is n - 1
            lemma_first_mention(s, h0, n - 1);
            if first_mention(s, h0) < n - 1 {
                let q = first_mention(s, h0);
                assert(names_mention(s, q) && handle_at(s, q) == h0);
                assert(e.contains(h0));
            }
            assert(first_mention(s, h0) == n - 1);
            assert(m.no_duplicates()) by {
                assert forall|j: int, k: int| 0 <= j < m.len() && 0 <= k < m.len() && j != k implies m[j] != m[k] by {
                    if j < e.len() && k < e.len() {
                        assert(e[j] != e[k]);
                    } else if j < e.len() {
                        assert(e.contains(e[j]));
                    } else {
                        assert(e.contains(e[k]));
                    }
                }
            }
            assert forall|h: Seq<char>| m.contains(h) <==> exists|p: int|
                0 <= p < n && #[trigger] names_mention(s, p) && handle_at(s, p) == h by {
                if m.contains(h) {
                    let k = choose|k: int| 0 <= k < m.len() && m[k] == h;
                    if k < e.len() {
                        assert(e.contains(h));
                    } else {
                        assert(names_mention(s, n - 1) && handle_at(s, n - 1) == h);
                    }
                }
                if exists|p: int| 0 <= p < n && #[trigger] names_mention(s, p) && handle_at(s, p) == h {
                    let p = choose|p: int| 0 <= p < n && #[trigger] names_mention(s, p) && handle_at(s, p) == h;
                    if p < n - 1 {
                        assert(e.contains(h));
                        let k = choose|k: int| 0 <= k < e.len() && e[k] == h;
                        assert(m[k] == h);
                    } else {
                        assert(m[e.len() as int] == h);
                    }
                }
            }
            assert forall|k: int| 0 <= k < m.len() implies 0 <= #[trigger] first_mention(s, m[k]) < n by {
                if k < e.len() {
                    assert(m[k] == e[k]);
                }
            }
            assert forall|j: int, k: int| 0 <= j < k < m.len() implies #[trigger] first_mention(s, m[j])
                < #[trigger] first_mention(s, m[k]) by {
                assert(m[j] == e[j]);
                if k < e.len() {
                    assert(m[k] == e[k]);
                }
            }
        } else {
            assert(m == e);
            assert forall|h: Seq<char>| m.contains(h) <==> exists|p: int|
                0 <= p < n && #[trigger] names_mention(s, p) && handle_at(s, p) == h by {
                if exists|p: int| 0 <= p < n && #[trigger] names_mention(s, p) && handle_at(s, p) == h {
                    let p = choose|p: int| 0 <= p < n && #[trigger] names_mention(s, p) && handle_at(s, p) == h;
                    if p == n - 1 {
                        assert(e.contains(h0));
                    }
                }
                if m.contains(h) {
                    assert(e.contains(h));
                }
            }
        }
    }
}

/// The parser's result holds no handle twice, holds exactly the handles that
/// some mention in the text names, and lists them in the order in which each
/// first occurs. Every handle in it has at least one character, and only
/// handle characters.
pub proof fn lemma_mentions_distinct_in_first_occurrence_order(s: Seq<char>)
    ensures
        mentions_of(s).no_duplicates(),
        forall|h: Seq<char>|
            mentions_of(s).contains(h) <==> exists|p: int| #[trigger]
                names_mention(s, p) && handle_at(s, p) == h,
        forall|j: int, k: int|
            0 <= j < k < mentions_of(s).len() ==> #[trigger] first_mention(s, mentions_of(s)[j])
                < #[trigger] first_mention(s, mentions_of(s)[k]),
        forall|k: int|
            0 <= k < mentions_of(s).len() ==> names_mention(
                s,
                #[trigger] first_mention(s, mentions_of(s)[k]),
            ),
        forall|k: int, c: int|
            0 <= k < mentions_of(s).len() && 0 <= c < mentions_of(s)[k].len() ==> is_handle_char(
                #[trigger] mentions_of(s)[k][c],
            ),
        forall|k: int| 0 <= k < mentions_of(s).len() ==> (#[trigger] mentions_of(s)[k]).len() > 0,
{
    lemma_mentions_upto(s, s.len() as int);
    let m = mentions_of(s);
    assert forall|h: Seq<char>| m.contains(h) <==> exists|p: int| #[trigger]
        names_mention(s, p) && handle_at(s, p) == h by {
        if exists|p: int| #[trigger] names_mention(s, p) && handle_at(s, p) == h {
            let p = choose|p: int| #[trigger] names_mention(s, p) && handle_at(s, p) == h;
            assert(0 <= p < s.len() && names_mention(s, p) && handle_at(s, p) == h);
        }
    }
    assert forall|k: int| 0 <= k < m.len() implies names_mention(
        s,
        #[trigger] first_mention(s, m[k]),
    ) by {
        lemma_first_mention_from(s, m[k], 0);
    }
    assert forall|k: int| 0 <= k < m.len() implies (#[trigger] m[k]).len() > 0 && forall|c: int|
        0 <= c < m[k].len() ==> is_handle_char(#[trigger] m[k][c]) by {
        lemma_first_mention_from(s, m[k], 0);
        let p = first_mention(s, m[k]);
        assert(names_mention(s, p) && handle_at(s, p) == m[k]);
        lemma_handle_end(s, p + 1);
        assert forall|c: int| 0 <= c < m[k].len() implies is_handle_char(#[trigger] m[k][c]) by {
            assert(m[k][c] == s[p + 1 + c]);
        }
    }
}

/// Whether `name` already stands in `list`.
pub fn contains_text(list: &Vec<String>, name: &String) -> (found: bool)
    ensures
        found == texts(list@).contains(name@),
{
    let mut k: usize = 0;
    while k < list.len()
        invariant
            k <= list.len(),
            forall|j: int| 0 <= j < k ==> texts(list@)[j] != name@,
        decreases list.len() - k,
    {
        if list[k] == *name {
            assert(texts(list@)[k as int] == name@);
            return true;
        }
        k += 1;
    }
    false
}

/// Whether `c` may be part of a handle.
fn handle_char(c: char) -> (r: bool)
    ensures
        r == is_handle_char(c),
{
    ascii_alphanumeric(c) || c == '_' || c == '-'
}

/// Whether an `@` after `c` starts no mention.
fn mention_blocker(c: char) -> (r: bool)
    ensures
        r == blocks_mention(c),
{
    alphanumeric(c) || c == '_' || c == '-' || c == '.'
}

/// Extracts the handles referenced as `@handle`, each once, in the order of
/// first occurrence. Handles are case-sensitive and are not normalised.
pub fn parse_mentions(content: &str) -> (mentions: Vec<String>)
    ensures
        texts(mentions@) == mentions_of(content@),
{
    let chars = to_chars(content);
    let n = chars.len();
    let mut mentions: Vec<String> = Vec::new();
    let mut i: usize = 0;
    assert(texts(mentions@) =~= mentions_upto(chars@, 0));
    while i < n
        invariant
            i <= n,
            n == chars.len(),
            texts(mentions@) == mentions_upto(chars@, i as int),
        decreases n - i,
    {
        let ghost s = chars@;
        let ghost before = texts(mentions@);
        if chars[i] == '@' && (i == 0 || !mention_blocker(chars[i - 1])) {
            let mut j: usize = i + 1;
            while j < n && handle_char(chars[j])
                invariant
                    i + 1 <= j <= n,
                    n == chars.len(),
                    handle_end(chars@, j as int) == handle_end(chars@, i + 1),
                decreases n - j,
            {
                j += 1;
            }
            assert(j == handle_end(s, i + 1));
            if j > i + 1 {
                let name = string_of(&chars, i + 1, j);
                assert(name@ == handle_at(s, i as int));
                if !contains_text(&mentions, &name) {
                    mentions.push(name);
                    assert(texts(mentions@) =~= before.push(handle_at(s, i as int)));
                }
            }
        }
        i += 1;
    }
    assert(chars@ == content@);
    mentions
}

} // verus!
