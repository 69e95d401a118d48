//! Scanners that find in a string what the text model describes.

use crate::text::{
    after_first, find, find_from, first_with_prefix, is_whitespace, lemma_find_from,
    lemma_first_with_prefix_cons, lemma_run_len, lines, matches_at, run_len, split, strip_cr,
    strip_trailing, texts, tokens,
};
use vstd::prelude::*;
use vstd::slice::slice_subrange;

verus! {

/// The characters of `s`, in order.
pub fn to_chars(s: &str) -> (v: Vec<char>)
    ensures
        v@ == s@,
{
    let mut v: Vec<char> = Vec::new();
    for c in it: s.chars()
        invariant
            it.seq() == s@,
            v@ == s@.take(it.index() as int),
    {
        v.push(c);
        assert(v@ =~= s@.take(it.index() + 1));
    }
    assert(v@ =~= s@);
    v
}

/// Tells whether `c` is whitespace.
pub fn is_space(c: char) -> (b: bool)
    ensures
        b == is_whitespace(c),
{
    let n: u32 = c as u32;
    (0x09 <= n && n <= 0x0D) || n == 0x20 || n == 0x85 || n == 0xA0 || n == 0x1680 || (0x2000 <= n
        && n <= 0x200A) || n == 0x2028 || n == 0x2029 || n == 0x202F || n == 0x205F || n
        == 0x3000
}

/// Tells whether `p` stands in `s` at position `i`.
pub fn has_at(s: &[char], i: usize, p: &[char]) -> (b: bool)
    ensures
        b == matches_at(s@, i as int, p@),
{
    if p.len() > s.len() || i > s.len() - p.len() {
        return false;
    }
    let mut k: usize = 0;
    while k < p.len()
        invariant
            k <= p.len(),
            i + p.len() <= s.len(),
            forall|j: int| 0 <= j < k ==> s@[i + j] == p@[j],
        decreases p.len() - k,
    {
        if s[i + k] != p[k] {
            assert(s@.subrange(i as int, i + p.len())[k as int] == s@[i + k]);
            return false;
        }
        k += 1;
    }
    assert(s@.subrange(i as int, i + p.len()) =~= p@);
    true
}

/// Finds the first position where `p` stands in `s`.
pub fn find_first(s: &[char], p: &[char]) -> (r: Option<usize>)
    ensures
        match r {
            Some(i) => find(s@, p@) == Some(i as int),
            None => find(s@, p@) is None,
        },
{
    if p.len() > s.len() {
        return None;
    }
    let last: usize = s.len() - p.len();
    let mut i: usize = 0;
    loop
        invariant
            i <= last,
            last + p.len() == s.len(),
            find(s@, p@) == find_from(s@, p@, i as int),
        decreases last - i,
    {
        if has_at(s, i, p) {
            return Some(i);
        }
        if i == last {
            assert(find_from(s@, p@, last + 1) is None);
            return None;
        }
        i += 1;
    }
}

/// Counts the characters at the start of `s` that are all whitespace
/// (`ws`), or all not.
pub fn count_run(s: &[char], ws: bool) -> (n: usize)
    ensures
        n == run_len(s@, ws),
        n <= s@.len(),
{
    let mut i: usize = 0;
    assert(s@.skip(0) =~= s@);
    while i < s.len() && is_space(s[i]) == ws
        invariant
            i <= s.len(),
            run_len(s@, ws) == i + run_len(s@.skip(i as int), ws),
        decreases s.len() - i,
    {
        assert(s@.skip(i as int)[0] == s@[i as int]);
        assert(s@.skip(i as int).skip(1) =~= s@.skip(i + 1));
        i += 1;
    }
    proof {
        if i < s.len() {
            assert(s@.skip(i as int)[0] == s@[i as int]);
        }
    }
    i
}

/// Finds the first line of `text` that begins with `prefix`.
pub fn find_line<'a>(text: &'a str, prefix: &str) -> (r: Option<&'a str>)
    ensures
        match r {
            Some(l) => first_with_prefix(lines(text@), prefix@) == Some(l@),
            None => first_with_prefix(lines(text@), prefix@) is None,
        },
{
    let chars = to_chars(text);
    let pre = to_chars(prefix);
    let nl: Vec<char> = vec!['\n'];
    assert(nl@ =~= seq!['\n']);
    let len: usize = chars.len();
    let mut pos: usize = 0;
    assert(text@.skip(0) =~= text@);
    while pos < len
        invariant
            pos <= len,
            len == chars@.len(),
            chars@ == text@,
            pre@ == prefix@,
            nl@ == seq!['\n'],
            first_with_prefix(lines(text@), prefix@) == first_with_prefix(
                lines(text@.skip(pos as int)),
                prefix@,
            ),
        decreases len - pos,
    {
        let rest = slice_subrange(chars.as_slice(), pos, len);
        assert(rest@ =~= text@.skip(pos as int));
        match find_first(rest, nl.as_slice()) {
            Some(i) => {
                proof {
                    lemma_find_from(rest@, nl@, 0);
                }
                let end: usize = pos + i;
                let stop: usize = if i > 0 && chars[end - 1] == '\r' {
                    end - 1
                } else {
                    end
                };
                let line = slice_subrange(chars.as_slice(), pos, stop);
                proof {
                    let raw = rest@.take(i as int);
                    if i > 0 {
                        assert(raw.last() == chars@[end - 1]);
                    }
                    assert(line@ =~= strip_cr(raw));
                    assert(rest@.skip(i + 1) =~= text@.skip(end + 1));
                    lemma_first_with_prefix_cons(line@, lines(text@.skip(end + 1)), prefix@);
                }
                if has_at(line, 0, pre.as_slice()) {
                    return Some(text.substring_char(pos, stop));
                }
                pos = end + 1;
            },
            None => {
                proof {
                    assert(seq![rest@] + Seq::<Seq<char>>::empty() =~= seq![rest@]);
                    lemma_first_with_prefix_cons(rest@, Seq::empty(), prefix@);
                }
                if has_at(rest, 0, pre.as_slice()) {
                    let line = text.substring_char(pos, len);
                    assert(line@ =~= rest@);
                    return Some(line);
                }
                return None;
            },
        }
    }
    None
}

/// Cuts off `s` up to and including the first occurrence of `sep`.
pub fn cut_after<'a>(s: &'a str, sep: &str) -> (r: Option<&'a str>)
    ensures
        match r {
            Some(t) => after_first(s@, sep@) == Some(t@),
            None => after_first(s@, sep@) is None,
        },
{
    let chars = to_chars(s);
    let p = to_chars(sep);
    let len: usize = chars.len();
    match find_first(chars.as_slice(), p.as_slice()) {
        Some(i) => {
            proof {
                lemma_find_from(s@, sep@, 0);
                assert(matches_at(s@, i as int, sep@));
            }
            let t = s.substring_char(i + p.len(), len);
            assert(t@ =~= s@.skip(i + sep@.len()));
            Some(t)
        },
        None => None,
    }
}

/// Splits `s` at `sep` where that gives exactly two pieces.
pub fn split_pair<'a>(s: &'a str, sep: &str) -> (r: Option<(&'a str, &'a str)>)
    ensures
        match r {
            Some((a, b)) => split(s@, sep@) == seq![a@, b@],
            None => split(s@, sep@).len() != 2,
        },
{
    let chars = to_chars(s);
    let p = to_chars(sep);
    let len: usize = chars.len();
    if p.len() == 0 {
        return None;
    }
    match find_first(chars.as_slice(), p.as_slice()) {
        None => None,
        Some(i) => {
            proof {
                lemma_find_from(s@, sep@, 0);
            }
            let from: usize = i + p.len();
            let rest = slice_subrange(chars.as_slice(), from, len);
            assert(rest@ =~= s@.skip(from as int));
            match find_first(rest, p.as_slice()) {
                Some(j) => {
                    proof {
                        lemma_find_from(rest@, sep@, 0);
                        let tail = split(rest@.skip(j + sep@.len()), sep@);
                        assert(split(rest@, sep@).len() == 1 + tail.len());
                    }
                    None
                },
                None => {
                    let a = s.substring_char(0, i);
                    let b = s.substring_char(from, len);
                    assert(a@ =~= s@.take(i as int));
                    assert(b@ =~= rest@);
                    assert(split(rest@, sep@) == seq![rest@]);
                    assert(split(s@, sep@) =~= seq![a@, b@]);
                    Some((a, b))
                },
            }
        },
    }
}

/// Splits `s` at whitespace into its tokens.
pub fn split_whitespace<'a>(s: &'a str) -> (r: Vec<&'a str>)
    ensures
        texts(r@) == tokens(s@),
{
    let chars = to_chars(s);
    let len: usize = chars.len();
    let mut out: Vec<&'a str> = Vec::new();
    let mut pos: usize = 0;
    assert(s@.skip(0) =~= s@);
    assert(texts(out@) + tokens(s@) =~= tokens(s@));
    while pos < len
        invariant
            pos <= len,
            len == chars@.len(),
            chars@ == s@,
            tokens(s@) == texts(out@) + tokens(s@.skip(pos as int)),
        decreases len - pos,
    {
        let rest = slice_subrange(chars.as_slice(), pos, len);
        assert(rest@ =~= s@.skip(pos as int));
        let start: usize = pos + count_run(rest, true);
        if start == len {
            proof {
                assert(rest@.skip(run_len(rest@, true) as int).len() == 0);
                assert(s@.skip(len as int).len() == 0);
                assert(s@.skip(len as int).skip(run_len(s@.skip(len as int), true) as int).len()
                    == 0);
            }
            pos = len;
        } else {
            let word = slice_subrange(chars.as_slice(), start, len);
            assert(word@ =~= rest@.skip(run_len(rest@, true) as int));
            let n: usize = count_run(word, false);
            proof {
                lemma_run_len(rest@, true);
            }
            let token = s.substring_char(start, start + n);
            proof {
                assert(token@ =~= word@.take(n as int));
                assert(word@.skip(n as int) =~= s@.skip(start + n));
                assert(texts(out@.push(token)) =~= texts(out@) + seq![token@]);
                assert(texts(out@) + (seq![token@] + tokens(s@.skip(start + n))) =~= texts(
                    out@.push(token),
                ) + tokens(s@.skip(start + n)));
            }
            out.push(token);
            pos = start + n;
        }
    }
    proof {
        assert(s@.skip(pos as int).len() == 0);
        assert(s@.skip(pos as int).skip(run_len(s@.skip(pos as int), true) as int).len() == 0);
        assert(texts(out@) + Seq::<Seq<char>>::empty() =~= texts(out@));
    }
    out
}

/// Cuts the characters `c` off the end of `s`.
pub fn trim_end_char<'a>(s: &'a str, c: char) -> (r: &'a str)
    ensures
        r@ == strip_trailing(s@, c),
{
    let chars = to_chars(s);
    let mut n: usize = chars.len();
    assert(s@.take(n as int) =~= s@);
    while n > 0 && chars[n - 1] == c
        invariant
            n <= chars@.len(),
            chars@ == s@,
            strip_trailing(s@, c) == strip_trailing(s@.take(n as int), c),
        decreases n,
    {
        assert(s@.take(n as int).last() == s@[n - 1]);
        assert(s@.take(n as int).drop_last() =~= s@.take(n - 1));
        n -= 1;
    }
    proof {
        if n > 0 {
            assert(s@.take(n as int).last() == s@[n - 1]);
        }
    }
    let r = s.substring_char(0, n);
    assert(r@ =~= s@.take(n as int));
    r
}

} // verus!
