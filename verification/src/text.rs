//! Character sequences and what is found in them: lines, separators,
//! tokens.
//!
//! Everything here is stated over the sequence of Unicode scalar values of
//! a text. Positions are counted in characters, never in bytes.

use vstd::prelude::*;

verus! {

/// Whether `c` has the Unicode property White_Space.
pub open spec fn is_whitespace(c: char) -> bool {
    let n: u32 = c as u32;
    ||| 0x09 <= n <= 0x0D
    ||| n == 0x20
    ||| n == 0x85
    ||| n == 0xA0
    ||| n == 0x1680
    ||| 0x2000 <= n <= 0x200A
    ||| n == 0x2028
    ||| n == 0x2029
    ||| n == 0x202F
    ||| n == 0x205F
    ||| n == 0x3000
}

/// Whether `p` stands in `s` at position `i`.
pub open spec fn matches_at(s: Seq<char>, i: int, p: Seq<char>) -> bool {
    0 <= i && i + p.len() <= s.len() && s.subrange(i, i + p.len()) == p
}

/// Whether `s` begins with `p`.
pub open spec fn starts_with(s: Seq<char>, p: Seq<char>) -> bool {
    matches_at(s, 0, p)
}

/// The first position at or after `i` where `p` stands in `s`.
pub open spec fn find_from(s: Seq<char>, p: Seq<char>, i: int) -> Option<int>
    decreases s.len() + 1 - i,
{
    if i < 0 || i + p.len() > s.len() {
        None
    } else if matches_at(s, i, p) {
        Some(i)
    } else {
        find_from(s, p, i + 1)
    }
}

/// The first position where `p` stands in `s`.
pub open spec fn find(s: Seq<char>, p: Seq<char>) -> Option<int> {
    find_from(s, p, 0)
}

/// What follows the first occurrence of `p` in `s`.
pub open spec fn after_first(s: Seq<char>, p: Seq<char>) -> Option<Seq<char>> {
    match find(s, p) {
        Some(i) => Some(s.skip(i + p.len())),
        None => None,
    }
}

/// The pieces of `s` between the occurrences of `p`, taken from the left
/// without overlap. There is always at least one piece; an empty `p`
/// separates nothing.
pub open spec fn split(s: Seq<char>, p: Seq<char>) -> Seq<Seq<char>>
    decreases s.len(),
    via split_decreases
{
    match find(s, p) {
        Some(i) => if p.len() > 0 {
            seq![s.take(i)] + split(s.skip(i + p.len()), p)
        } else {
            seq![s]
        },
        None => seq![s],
    }
}

#[via_fn]
proof fn split_decreases(s: Seq<char>, p: Seq<char>) {
    lemma_find_from(s, p, 0);
}

/// A line without the carriage return that stood before its line feed.
pub open spec fn strip_cr(l: Seq<char>) -> Seq<char> {
    if l.len() > 0 && l.last() == '\r' {
        l.drop_last()
    } else {
        l
    }
}

/// The lines of `s`. A line ends at a line feed, or at a carriage return
/// directly followed by one; the ending belongs to no line, and the last
/// line needs none.
pub open spec fn lines(s: Seq<char>) -> Seq<Seq<char>>
    decreases s.len(),
    via lines_decreases
{
    if s.len() == 0 {
        Seq::empty()
    } else {
        match find(s, seq!['\n']) {
            Some(i) => seq![strip_cr(s.take(i))] + lines(s.skip(i + 1)),
            None => seq![s],
        }
    }
}

#[via_fn]
proof fn lines_decreases(s: Seq<char>) {
    lemma_find_from(s, seq!['\n'], 0);
}

/// The first of `ls` that begins with `p`.
pub open spec fn first_with_prefix(ls: Seq<Seq<char>>, p: Seq<char>) -> Option<Seq<char>>
    decreases ls.len(),
{
    if ls.len() == 0 {
        None
    } else if starts_with(ls[0], p) {
        Some(ls[0])
    } else {
        first_with_prefix(ls.skip(1), p)
    }
}

/// How many characters at the start of `s` are all whitespace (`ws`), or
/// all not.
pub open spec fn run_len(s: Seq<char>, ws: bool) -> nat
    decreases s.len(),
{
    if s.len() > 0 && is_whitespace(s[0]) == ws {
        1 + run_len(s.skip(1), ws)
    } else {
        0
    }
}

/// The maximal runs of characters of `s` that are not whitespace, in order.
pub open spec fn tokens(s: Seq<char>) -> Seq<Seq<char>>
    decreases s.len(),
    via tokens_decreases
{
    let t = s.skip(run_len(s, true) as int);
    if t.len() == 0 {
        Seq::empty()
    } else {
        let n: int = run_len(t, false) as int;
        seq![t.take(n)] + tokens(t.skip(n))
    }
}

#[via_fn]
proof fn tokens_decreases(s: Seq<char>) {
    lemma_run_len(s, true);
    let t = s.skip(run_len(s, true) as int);
    if t.len() > 0 {
        lemma_run_len(t, false);
    }
}

/// A word: not empty, and without whitespace.
pub open spec fn is_word(w: Seq<char>) -> bool {
    w.len() > 0 && forall|j: int| 0 <= j < w.len() ==> !is_whitespace(#[trigger] w[j])
}

/// `s` without the characters `c` at its end.
pub open spec fn strip_trailing(s: Seq<char>, c: char) -> Seq<char>
    decreases s.len(),
{
    if s.len() > 0 && s.last() == c {
        strip_trailing(s.drop_last(), c)
    } else {
        s
    }
}

/// The character sequences of the strings of `v`, in order.
pub open spec fn texts(v: Seq<&str>) -> Seq<Seq<char>> {
    Seq::new(v.len(), |i: int| v[i]@)
}

/// `find_from` gives the least position at or after `i` where `p` stands,
/// and none exactly when there is no such position.
pub proof fn lemma_find_from(s: Seq<char>, p: Seq<char>, i: int)
    requires
        0 <= i,
    ensures
        match find_from(s, p, i) {
            Some(k) => i <= k && matches_at(s, k, p) && forall|j: int|
                i <= j < k ==> !matches_at(s, j, p),
            None => forall|j: int| i <= j ==> !matches_at(s, j, p),
        },
    decreases s.len() + 1 - i,
{
    if i + p.len() <= s.len() && !matches_at(s, i, p) {
        lemma_find_from(s, p, i + 1);
    }
}

/// Where `p` stands at `k` and nowhere before, `k` is what `find` gives.
pub proof fn lemma_find_at(s: Seq<char>, p: Seq<char>, k: int)
    requires
        matches_at(s, k, p),
        forall|j: int| 0 <= j < k ==> !matches_at(s, j, p),
    ensures
        find(s, p) == Some(k),
{
    lemma_find_from(s, p, 0);
}

/// A pattern whose first character is not in `s` is not found in `s`.
pub proof fn lemma_find_absent(s: Seq<char>, p: Seq<char>)
    requires
        p.len() > 0,
        forall|i: int| 0 <= i < s.len() ==> s[i] != p[0],
    ensures
        find(s, p) is None,
{
    lemma_find_from(s, p, 0);
    assert forall|j: int| 0 <= j implies !matches_at(s, j, p) by {
        if matches_at(s, j, p) {
            assert(s.subrange(j, j + p.len())[0] == s[j]);
        }
    }
}

/// The first of a list that starts with `x` is `x` if it has the prefix,
/// else the first of the others.
pub proof fn lemma_first_with_prefix_cons(x: Seq<char>, rest: Seq<Seq<char>>, p: Seq<char>)
    ensures
        first_with_prefix(seq![x] + rest, p) == if starts_with(x, p) {
            Some(x)
        } else {
            first_with_prefix(rest, p)
        },
{
    assert((seq![x] + rest).skip(1) =~= rest);
}

/// What `first_with_prefix` gives has the prefix and stands in the list
/// with no such item before it; it gives nothing exactly when no item has
/// the prefix.
pub proof fn lemma_first_with_prefix(ls: Seq<Seq<char>>, p: Seq<char>)
    ensures
        match first_with_prefix(ls, p) {
            Some(l) => exists|i: int|
                0 <= i < ls.len() && ls[i] == l && starts_with(l, p) && forall|j: int|
                    0 <= j < i ==> !starts_with(ls[j], p),
            None => forall|i: int| 0 <= i < ls.len() ==> !starts_with(ls[i], p),
        },
    decreases ls.len(),
{
    if ls.len() > 0 && !starts_with(ls[0], p) {
        let r = ls.skip(1);
        lemma_first_with_prefix(r, p);
        match first_with_prefix(r, p) {
            Some(l) => {
                let i = choose|i: int|
                    0 <= i < r.len() && r[i] == l && starts_with(l, p) && forall|j: int|
                        0 <= j < i ==> !starts_with(r[j], p);
                assert(ls[i + 1] == r[i]);
                assert forall|j: int| 0 <= j < i + 1 implies !starts_with(ls[j], p) by {
                    if j > 0 {
                        assert(ls[j] == r[j - 1]);
                    }
                }
            },
            None => {
                assert forall|i: int| 0 <= i < ls.len() implies !starts_with(ls[i], p) by {
                    if i > 0 {
                        assert(ls[i] == r[i - 1]);
                    }
                }
            },
        }
    } else if ls.len() > 0 {
        assert(ls[0] == ls[0] && forall|j: int| 0 <= j < 0 ==> !starts_with(ls[j], p));
    }
}

/// No line holds a line feed.
pub proof fn lemma_lines_hold_no_line_feed(s: Seq<char>)
    ensures
        forall|i: int, j: int|
            0 <= i < lines(s).len() && 0 <= j < lines(s)[i].len() ==> lines(s)[i][j] != '\n',
    decreases s.len(),
{
    let nl = seq!['\n'];
    if s.len() > 0 {
        lemma_find_from(s, nl, 0);
        match find(s, nl) {
            Some(k) => {
                let first = strip_cr(s.take(k));
                let rest = lines(s.skip(k + 1));
                lemma_lines_hold_no_line_feed(s.skip(k + 1));
                assert forall|i: int, j: int|
                    0 <= i < lines(s).len() && 0 <= j < lines(s)[i].len() implies lines(s)[i][j]
                    != '\n' by {
                    if i == 0 {
                        assert(lines(s)[0] == first);
                        assert(first[j] == s[j]);
                        if s[j] == '\n' {
                            assert(s.subrange(j, j + 1) =~= nl);
                            assert(matches_at(s, j, nl));
                        }
                    } else {
                        assert(lines(s)[i] == rest[i - 1]);
                    }
                }
            },
            None => {
                assert forall|j: int| 0 <= j < s.len() implies s[j] != '\n' by {
                    if s[j] == '\n' {
                        assert(s.subrange(j, j + 1) =~= nl);
                        assert(matches_at(s, j, nl));
                    }
                }
            },
        }
    }
}

/// A run is as long as it can be: it stays within `s`, every character of
/// it is of the one sort, and the character after it, if any, of the other.
pub proof fn lemma_run_len(s: Seq<char>, ws: bool)
    ensures
        run_len(s, ws) <= s.len(),
        forall|j: int| 0 <= j < run_len(s, ws) ==> is_whitespace(#[trigger] s[j]) == ws,
        run_len(s, ws) < s.len() ==> is_whitespace(s[run_len(s, ws) as int]) != ws,
    decreases s.len(),
{
    if s.len() > 0 && is_whitespace(s[0]) == ws {
        let r = s.skip(1);
        lemma_run_len(r, ws);
        assert forall|j: int| 0 <= j < run_len(s, ws) implies is_whitespace(#[trigger] s[j])
            == ws by {
            if j > 0 {
                assert(s[j] == r[j - 1]);
            }
        }
        if run_len(s, ws) < s.len() {
            assert(s[run_len(s, ws) as int] == r[run_len(r, ws) as int]);
        }
    }
}

/// A run of `n` characters of one sort that ends `s`, or that a character
/// of the other sort follows, is the run at the start of `s`.
pub proof fn lemma_run_len_is(s: Seq<char>, n: int, ws: bool)
    requires
        0 <= n <= s.len(),
        forall|j: int| 0 <= j < n ==> is_whitespace(#[trigger] s[j]) == ws,
        n < s.len() ==> is_whitespace(s[n]) != ws,
    ensures
        run_len(s, ws) == n,
    decreases n,
{
    if n > 0 {
        let r = s.skip(1);
        assert forall|j: int| 0 <= j < n - 1 implies is_whitespace(#[trigger] r[j]) == ws by {
            assert(r[j] == s[j + 1]);
        }
        if n - 1 < r.len() {
            assert(r[n - 1] == s[n]);
        }
        lemma_run_len_is(r, n - 1, ws);
    }
}

/// A word at the start of a text is its first token.
pub proof fn lemma_tokens_word(w: Seq<char>, rest: Seq<char>)
    requires
        w.len() > 0,
        forall|i: int| 0 <= i < w.len() ==> !is_whitespace(#[trigger] w[i]),
        rest.len() == 0 || is_whitespace(rest[0]),
    ensures
        tokens(w + rest) == seq![w] + tokens(rest),
{
    let s = w + rest;
    lemma_run_len_is(s, 0, true);
    assert(s.skip(0) =~= s);
    assert forall|j: int| 0 <= j < w.len() implies is_whitespace(#[trigger] s[j]) == false by {
        assert(s[j] == w[j]);
    }
    if w.len() < s.len() {
        assert(s[w.len() as int] == rest[0]);
    }
    lemma_run_len_is(s, w.len() as int, false);
    assert(s.take(w.len() as int) =~= w);
    assert(s.skip(w.len() as int) =~= rest);
}

/// A space at the start of a text changes none of its tokens.
pub proof fn lemma_tokens_space(rest: Seq<char>)
    ensures
        tokens(seq![' '] + rest) == tokens(rest),
{
    let s = seq![' '] + rest;
    assert(s.skip(1) =~= rest);
    assert(is_whitespace(s[0]));
    lemma_run_len(rest, true);
    let k: int = run_len(rest, true) as int;
    assert(run_len(s, true) == 1 + k);
    assert(s.skip(1 + k) =~= rest.skip(k));
}

} // verus!
