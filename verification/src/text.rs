//! Small verified helpers on strings, seen as sequences of characters.

use vstd::prelude::*;
use vstd::string::*;

verus! {

/// The texts of a list of strings.
pub open spec fn texts(v: Seq<String>) -> Seq<Seq<char>> {
    v.map_values(|s: String| s@)
}

/// The characters of `s`, in order.
pub fn chars_of(s: &str) -> (r: Vec<char>)
    ensures
        r@ == s@,
{
    let n: usize = s.unicode_len();
    let mut out: Vec<char> = Vec::new();
    let mut i: usize = 0;
    while i < n
        invariant
            n == s@.len(),
            i <= n,
            out@ == s@.subrange(0, i as int),
        decreases n - i,
    {
        let c = s.get_char(i);
        out.push(c);
        i = i + 1;
        assert(out@ =~= s@.subrange(0, i as int));
    }
    assert(s@.subrange(0, n as int) =~= s@);
    out
}

/// Whether two strings hold the same characters.
pub fn str_eq(a: &str, b: &str) -> (r: bool)
    ensures
        r == (a@ == b@),
{
    let x = String::from_str(a);
    let y = String::from_str(b);
    x == y
}

/// `a` followed by `b`.
pub fn concat2(a: &str, b: &str) -> (r: String)
    ensures
        r@ == a@ + b@,
{
    let mut out = String::from_str(a);
    out.append(b);
    out
}

/// `pat` occurs in `s` at index `at`.
pub open spec fn occurs_at(s: Seq<char>, at: int, pat: Seq<char>) -> bool {
    0 <= at && at + pat.len() <= s.len() && s.subrange(at, at + pat.len()) == pat
}

/// Whether `pat` occurs in `s` at index `at`.
pub fn starts_with_at(s: &Vec<char>, at: usize, pat: &Vec<char>) -> (r: bool)
    ensures
        r == occurs_at(s@, at as int, pat@),
{
    let n: usize = s.len();
    let m: usize = pat.len();
    if at > n || m > n - at {
        return false;
    }
    let mut j: usize = 0;
    while j < m
        invariant
            n == s@.len(),
            m == pat@.len(),
            at + m <= n,
            j <= m,
            forall|k: int| 0 <= k < j ==> s@[at + k] == pat@[k],
        decreases m - j,
    {
        if s[at + j] != pat[j] {
            proof {
                let sub = s@.subrange(at as int, at + m);
                assert(sub[j as int] == s@[at + j]);
            }
            return false;
        }
        j = j + 1;
    }
    assert(s@.subrange(at as int, at + m) =~= pat@);
    true
}

/// The first index at or after `i` where `pat` occurs in `s`, if any.
pub open spec fn find_from(s: Seq<char>, pat: Seq<char>, i: int) -> Option<int>
    decreases s.len() - i,
{
    if i < 0 || i + pat.len() > s.len() {
        None
    } else if occurs_at(s, i, pat) {
        Some(i)
    } else if i < s.len() {
        find_from(s, pat, i + 1)
    } else {
        None
    }
}

/// The first index where `pat` occurs in `s`, if any.
pub fn find(s: &Vec<char>, pat: &Vec<char>) -> (r: Option<usize>)
    ensures
        match r {
            Some(i) => find_from(s@, pat@, 0) == Some(i as int) && occurs_at(s@, i as int, pat@),
            None => find_from(s@, pat@, 0).is_none(),
        },
{
    let n: usize = s.len();
    let m: usize = pat.len();
    if m > n {
        return None;
    }
    if m == 0 {
        assert(s@.subrange(0, 0) =~= pat@);
        return Some(0);
    }
    let mut i: usize = 0;
    while i <= n - m
        invariant
            n == s@.len(),
            m == pat@.len(),
            0 < m <= n,
            i <= n - m + 1,
            find_from(s@, pat@, 0) == find_from(s@, pat@, i as int),
        decreases n - m + 1 - i,
    {
        if starts_with_at(s, i, pat) {
            return Some(i);
        }
        i = i + 1;
    }
    None
}

/// The index of the first line feed at or after `i`, or the length of `s`.
pub open spec fn line_end_from(s: Seq<char>, i: int) -> int
    decreases s.len() - i,
{
    if i < 0 || i >= s.len() || s[i] == '\n' {
        i
    } else {
        line_end_from(s, i + 1)
    }
}

/// The first line of `s`: what stands before the first line feed, without a
/// carriage return that directly precedes the line feed; all of `s` where
/// it holds no line feed. Empty for the empty string.
pub open spec fn first_line_of(s: Seq<char>) -> Seq<char> {
    let end = line_end_from(s, 0);
    if 0 < end < s.len() && s[end - 1] == '\r' {
        s.subrange(0, end - 1)
    } else {
        s.subrange(0, end)
    }
}

/// The first line of `s`.
pub fn first_line(s: &str) -> (r: String)
    ensures
        r@ == first_line_of(s@),
{
    let n: usize = s.unicode_len();
    let mut i: usize = 0;
    while i < n && s.get_char(i) != '\n'
        invariant
            n == s@.len(),
            i <= n,
            line_end_from(s@, 0) == line_end_from(s@, i as int),
        decreases n - i,
    {
        i = i + 1;
    }
    let end: usize = if i > 0 && i < n && s.get_char(i - 1) == '\r' {
        i - 1
    } else {
        i
    };
    String::from_str(s.substring_char(0, end))
}

} // verus!
