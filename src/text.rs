//! Character-level helpers over `str`, stated over `Seq<char>`.

use vstd::prelude::*;
use vstd::string::*;

verus! {

/// The Unicode `White_Space` property, which `char::is_whitespace`,
/// `str::trim` and `str::split_whitespace` go by.
pub open spec fn is_ws(c: char) -> bool {
    ('\u{9}' <= c && c <= '\u{d}') || c == ' ' || c == '\u{85}' || c == '\u{a0}'
        || c == '\u{1680}' || ('\u{2000}' <= c && c <= '\u{200a}') || c == '\u{2028}'
        || c == '\u{2029}' || c == '\u{202f}' || c == '\u{205f}' || c == '\u{3000}'
}

/// `s` without its leading whitespace.
pub open spec fn trim_start_spec(s: Seq<char>) -> Seq<char>
    decreases s.len(),
{
    if s.len() > 0 && is_ws(s[0]) {
        trim_start_spec(s.skip(1))
    } else {
        s
    }
}

/// `s` without its trailing whitespace.
pub open spec fn trim_end_spec(s: Seq<char>) -> Seq<char>
    decreases s.len(),
{
    if s.len() > 0 && is_ws(s.last()) {
        trim_end_spec(s.drop_last())
    } else {
        s
    }
}

/// `s` without whitespace at either end.
pub open spec fn trim_spec(s: Seq<char>) -> Seq<char> {
    trim_end_spec(trim_start_spec(s))
}

pub open spec fn has_prefix(s: Seq<char>, pre: Seq<char>) -> bool {
    pre.len() <= s.len() && s.take(pre.len() as int) == pre
}

/// Index of the first occurrence of `pat` in `s` at or after `i`.
pub open spec fn find_from(s: Seq<char>, pat: Seq<char>, i: int) -> Option<int>
    decreases s.len() + 1 - i,
{
    if i < 0 || i + pat.len() > s.len() {
        None
    } else if s.subrange(i, i + pat.len()) == pat {
        Some(i)
    } else {
        find_from(s, pat, i + 1)
    }
}

/// Index of the first whitespace character of `s` at or after `i`, or `s.len()`.
pub open spec fn ws_from(s: Seq<char>, i: int) -> int
    decreases s.len() - i,
{
    if i < 0 || i >= s.len() {
        s.len() as int
    } else if is_ws(s[i]) {
        i
    } else {
        ws_from(s, i + 1)
    }
}

/// The first whitespace-separated word of `s`, if it has one.
pub open spec fn first_word_spec(s: Seq<char>) -> Option<Seq<char>> {
    let t = trim_start_spec(s);
    if t.len() == 0 {
        None
    } else {
        Some(t.take(ws_from(t, 0)))
    }
}

/// `s` with every leading repetition of `pre` taken off.
pub open spec fn strip_repeated_spec(s: Seq<char>, pre: Seq<char>) -> Seq<char>
    decreases s.len(),
{
    if pre.len() > 0 && has_prefix(s, pre) {
        strip_repeated_spec(s.skip(pre.len() as int), pre)
    } else {
        s
    }
}

pub fn is_whitespace_char(c: char) -> (r: bool)
    ensures
        r == is_ws(c),
{
    ('\u{9}' <= c && c <= '\u{d}') || c == ' ' || c == '\u{85}' || c == '\u{a0}' || c
        == '\u{1680}' || ('\u{2000}' <= c && c <= '\u{200a}') || c == '\u{2028}' || c
        == '\u{2029}' || c == '\u{202f}' || c == '\u{205f}' || c == '\u{3000}'
}

/// Index of the first non-whitespace character of `s` at or after `from`.
fn skip_ws(s: &str, from: usize) -> (r: usize)
    requires
        from <= s@.len(),
    ensures
        from <= r <= s@.len(),
        trim_start_spec(s@.skip(from as int)) == s@.skip(r as int),
{
    let n = s.unicode_len();
    let mut i = from;
    while i < n && is_whitespace_char(s.get_char(i))
        invariant
            n == s@.len(),
            from <= i <= n,
            trim_start_spec(s@.skip(from as int)) == trim_start_spec(s@.skip(i as int)),
        decreases n - i,
    {
        assert(s@.skip(i as int).skip(1) =~= s@.skip(i + 1));
        i = i + 1;
    }
    i
}

/// End of `s@.take(to)` once its trailing whitespace is dropped.
fn trim_end_index(s: &str, to: usize) -> (r: usize)
    requires
        to <= s@.len(),
    ensures
        r <= to,
        trim_end_spec(s@.take(to as int)) == s@.take(r as int),
{
    let mut j = to;
    while j > 0 && is_whitespace_char(s.get_char(j - 1))
        invariant
            j <= to <= s@.len(),
            trim_end_spec(s@.take(to as int)) == trim_end_spec(s@.take(j as int)),
        decreases j,
    {
        assert(s@.take(j as int).drop_last() =~= s@.take(j - 1));
        j = j - 1;
    }
    j
}

/// `s` with whitespace at both ends removed, as `str::trim` does.
pub fn trim(s: &str) -> (r: String)
    ensures
        r@ == trim_spec(s@),
{
    let a = skip_ws(s, 0);
    assert(s@.skip(0) =~= s@);
    let rest = s.substring_char(a, s.unicode_len());
    assert(rest@ =~= s@.skip(a as int));
    let b = trim_end_index(rest, rest.unicode_len());
    assert(rest@.take(rest@.len() as int) =~= rest@);
    let t = rest.substring_char(0, b);
    assert(t@ =~= rest@.take(b as int));
    String::from_str(t)
}

/// Whether `s` begins with `pre`.
pub fn starts_with(s: &str, pre: &str) -> (r: bool)
    ensures
        r == has_prefix(s@, pre@),
{
    let n = s.unicode_len();
    let m = pre.unicode_len();
    if m > n {
        return false;
    }
    let mut i: usize = 0;
    while i < m
        invariant
            n == s@.len(),
            m == pre@.len(),
            m <= n,
            i <= m,
            forall|k: int| 0 <= k < i ==> s@[k] == pre@[k],
        decreases m - i,
    {
        if s.get_char(i) != pre.get_char(i) {
            assert(s@.take(m as int)[i as int] != pre@[i as int]);
            return false;
        }
        i = i + 1;
    }
    assert(s@.take(m as int) =~= pre@);
    true
}

/// Whether `pat` occurs in `s` at index `i`.
fn matches_at(s: &str, pat: &str, i: usize) -> (r: bool)
    requires
        i + pat@.len() <= s@.len(),
    ensures
        r == (s@.subrange(i as int, i + pat@.len()) == pat@),
{
    let m = pat.unicode_len();
    let n = s.unicode_len();
    let mut k: usize = 0;
    while k < m
        invariant
            m == pat@.len(),
            n == s@.len(),
            i + m <= s@.len(),
            k <= m,
            forall|q: int| 0 <= q < k ==> s@[i + q] == pat@[q],
        decreases m - k,
    {
        if s.get_char(i + k) != pat.get_char(k) {
            assert(s@.subrange(i as int, i + m)[k as int] != pat@[k as int]);
            return false;
        }
        k = k + 1;
    }
    assert(s@.subrange(i as int, i + m) =~= pat@);
    true
}

/// Character index of the first occurrence of `pat` in `s`, as `str::find`
/// gives it (there in bytes).
pub fn find(s: &str, pat: &str) -> (r: Option<usize>)
    ensures
        r matches Some(i) ==> find_from(s@, pat@, 0) == Some(i as int) && i + pat@.len() <= s@.len(),
        r is None ==> find_from(s@, pat@, 0) is None,
{
    let n = s.unicode_len();
    let m = pat.unicode_len();
    let mut i: usize = 0;
    if m > n {
        return None;
    }
    while i <= n - m
        invariant
            n == s@.len(),
            m == pat@.len(),
            m <= n,
            i <= n - m + 1,
            find_from(s@, pat@, 0) == find_from(s@, pat@, i as int),
        decreases n - m + 1 - i,
    {
        if matches_at(s, pat, i) {
            return Some(i);
        }
        if i == n - m {
            assert(find_from(s@, pat@, i + 1) is None);
            return None;
        }
        i = i + 1;
    }
    None
}

/// The first whitespace-separated word of `s`, as
/// `s.split_whitespace().next()` gives it.
pub fn first_word(s: &str) -> (r: Option<String>)
    ensures
        r matches Some(w) ==> first_word_spec(s@) == Some(w@),
        r is None ==> first_word_spec(s@) is None,
{
    let a = skip_ws(s, 0);
    assert(s@.skip(0) =~= s@);
    let n = s.unicode_len();
    if a == n {
        return None;
    }
    let t = s.substring_char(a, n);
    assert(t@ =~= s@.skip(a as int));
    let mut j: usize = 0;
    while j < n - a && !is_whitespace_char(t.get_char(j))
        invariant
            t@.len() == n - a,
            j <= n - a,
            ws_from(t@, 0) == ws_from(t@, j as int),
        decreases n - a - j,
    {
        j = j + 1;
    }
    let w = t.substring_char(0, j);
    assert(w@ =~= t@.take(j as int));
    Some(String::from_str(w))
}

/// `s` with every leading repetition of `pre` removed, as
/// `str::trim_start_matches` does.
pub fn strip_repeated(s: &str, pre: &str) -> (r: String)
    ensures
        r@ == strip_repeated_spec(s@, pre@),
{
    let n = s.unicode_len();
    let m = pre.unicode_len();
    let mut rest = String::from_str(s);
    if m == 0 {
        return rest;
    }
    while starts_with(rest.as_str(), pre)
        invariant
            m == pre@.len(),
            m > 0,
            strip_repeated_spec(s@, pre@) == strip_repeated_spec(rest@, pre@),
        decreases rest@.len(),
    {
        let len = rest.unicode_len();
        let next = String::from_str(rest.as_str().substring_char(m, len));
        assert(next@ =~= rest@.skip(m as int));
        rest = next;
    }
    rest
}

} // verus!
