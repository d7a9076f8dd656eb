//! Character-level string helpers.
//!
//! Everything here works on `&str` through its `Seq<char>` view.  Case
//! folding and whitespace detection are ASCII-only: the comment markers,
//! deny-list names, format names and keywords this crate compares against
//! are all ASCII, so folding other characters is never needed.
use vstd::prelude::*;
use vstd::string::StrSliceExecFns;

verus! {

/// ASCII whitespace, the characters stripped when a line is trimmed.
pub open spec fn is_space_char(c: char) -> bool {
    c == ' ' || c == '\t' || c == '\r' || c == '\n' || c == '\u{b}' || c == '\u{c}'
}

/// A string that is blank once trimmed.
pub open spec fn all_space(s: Seq<char>) -> bool {
    forall|i: int| 0 <= i < s.len() ==> is_space_char(s[i])
}

/// ASCII lower-casing of one character.
pub open spec fn lower_char(c: char) -> char {
    if 'A' <= c && c <= 'Z' {
        ((c as u8) + 32) as char
    } else {
        c
    }
}

/// ASCII lower-casing of a whole string.
pub open spec fn lower_seq(s: Seq<char>) -> Seq<char> {
    s.map_values(|c: char| lower_char(c))
}

/// The needle `m` occurs in `s` starting at index `i`.
pub open spec fn matches_at(s: Seq<char>, m: Seq<char>, i: int) -> bool {
    &&& 0 <= i
    &&& i + m.len() <= s.len()
    &&& forall|j: int| 0 <= j < m.len() ==> s[i + j] == m[j]
}

/// The needle `m` occurs somewhere in `s`.
pub open spec fn contains_seq(s: Seq<char>, m: Seq<char>) -> bool {
    exists|i: int| matches_at(s, m, i)
}

/// Index of the first character at or after `i` that is not whitespace,
/// or the length of `s` when only whitespace remains.
pub open spec fn first_non_space_from(s: Seq<char>, i: int) -> int
    decreases s.len() - i,
{
    if i < 0 || i >= s.len() {
        s.len() as int
    } else if !is_space_char(s[i]) {
        i
    } else {
        first_non_space_from(s, i + 1)
    }
}

pub fn lower_char_exec(c: char) -> (r: char)
    ensures
        r == lower_char(c),
{
    if 'A' <= c && c <= 'Z' {
        ((c as u8) + 32) as char
    } else {
        c
    }
}

pub fn is_space_exec(c: char) -> (r: bool)
    ensures
        r == is_space_char(c),
{
    c == ' ' || c == '\t' || c == '\r' || c == '\n' || c == '\u{b}' || c == '\u{c}'
}

/// Character-wise string equality.
pub fn str_eq(a: &str, b: &str) -> (r: bool)
    ensures
        r == (a@ == b@),
{
    let n = a.unicode_len();
    if n != b.unicode_len() {
        assert(a@ != b@);
        return false;
    }
    let mut i: usize = 0;
    while i < n
        invariant
            n == a@.len(),
            n == b@.len(),
            0 <= i <= n,
            forall|j: int| 0 <= j < i ==> a@[j] == b@[j],
        decreases n - i,
    {
        if a.get_char(i) != b.get_char(i) {
            assert(a@ != b@);
            return false;
        }
        i = i + 1;
    }
    proof {
        assert(a@ =~= b@);
    }
    true
}

/// Does the ASCII-lower-cased `s` equal `lit` character for character?
pub fn str_eq_lower(s: &str, lit: &str) -> (r: bool)
    ensures
        r == (lower_seq(s@) == lit@),
{
    let n = s.unicode_len();
    if n != lit.unicode_len() {
        assert(lower_seq(s@).len() == s@.len());
        assert(lower_seq(s@) != lit@);
        return false;
    }
    let mut i: usize = 0;
    while i < n
        invariant
            n == s@.len(),
            n == lit@.len(),
            0 <= i <= n,
            forall|j: int| 0 <= j < i ==> lower_seq(s@)[j] == lit@[j],
        decreases n - i,
    {
        if lower_char_exec(s.get_char(i)) != lit.get_char(i) {
            assert(lower_seq(s@)[i as int] != lit@[i as int]);
            assert(lower_seq(s@) != lit@);
            return false;
        }
        i = i + 1;
    }
    proof {
        assert(lower_seq(s@) =~= lit@);
    }
    true
}

/// Does `m` occur in `s` at position `i`, after optional case folding of `s`?
fn match_at_exec(s: &str, m: &str, i: usize, fold: bool) -> (r: bool)
    requires
        i + m@.len() <= s@.len(),
    ensures
        r == matches_at(if fold { lower_seq(s@) } else { s@ }, m@, i as int),
{
    let ghost hs = if fold { lower_seq(s@) } else { s@ };
    let slen = s.unicode_len();
    let mlen = m.unicode_len();
    let mut j: usize = 0;
    while j < mlen
        invariant
            slen == s@.len(),
            mlen == m@.len(),
            i + mlen <= slen,
            hs == (if fold { lower_seq(s@) } else { s@ }),
            hs.len() == s@.len(),
            0 <= j <= mlen,
            forall|k: int| 0 <= k < j ==> hs[i + k] == m@[k],
        decreases mlen - j,
    {
        let c = s.get_char(i + j);
        let c = if fold { lower_char_exec(c) } else { c };
        if c != m.get_char(j) {
            assert(!matches_at(hs, m@, i as int));
            return false;
        }
        j = j + 1;
    }
    true
}

fn contains_impl(s: &str, m: &str, fold: bool) -> (r: bool)
    ensures
        r == contains_seq(if fold { lower_seq(s@) } else { s@ }, m@),
{
    let ghost hs = if fold { lower_seq(s@) } else { s@ };
    let n = s.unicode_len();
    let mlen = m.unicode_len();
    if mlen > n {
        assert(forall|i: int| !matches_at(hs, m@, i));
        return false;
    }
    let mut i: usize = 0;
    while i <= n - mlen
        invariant
            n == s@.len(),
            mlen == m@.len(),
            mlen <= n,
            hs == (if fold { lower_seq(s@) } else { s@ }),
            hs.len() == n,
            0 <= i <= n - mlen + 1,
            forall|k: int| 0 <= k < i ==> !matches_at(hs, m@, k),
        decreases n + 1 - i,
    {
        if match_at_exec(s, m, i, fold) {
            return true;
        }
        i = i + 1;
    }
    proof {
        assert(forall|k: int| matches_at(hs, m@, k) ==> 0 <= k <= n - mlen);
    }
    false
}

/// Substring search.
pub fn contains_str(s: &str, m: &str) -> (r: bool)
    ensures
        r == contains_seq(s@, m@),
{
    contains_impl(s, m, false)
}

/// Substring search over the ASCII-lower-cased haystack.
pub fn contains_str_lower(s: &str, m: &str) -> (r: bool)
    ensures
        r == contains_seq(lower_seq(s@), m@),
{
    contains_impl(s, m, true)
}

/// Does the ASCII-lower-cased `s` start with `m`?
pub fn starts_with_lower(s: &str, m: &str) -> (r: bool)
    ensures
        r == matches_at(lower_seq(s@), m@, 0),
{
    let mlen = m.unicode_len();
    if mlen > s.unicode_len() {
        return false;
    }
    match_at_exec(s, m, 0, true)
}

/// Index of the first non-whitespace character of `s` (its length if none).
pub fn first_non_space_idx(s: &str) -> (r: usize)
    ensures
        r == first_non_space_from(s@, 0),
        r <= s@.len(),
{
    let n = s.unicode_len();
    let mut i: usize = 0;
    while i < n
        invariant
            n == s@.len(),
            0 <= i <= n,
            first_non_space_from(s@, 0) == first_non_space_from(s@, i as int),
        decreases n - i,
    {
        if !is_space_exec(s.get_char(i)) {
            return i;
        }
        i = i + 1;
    }
    i
}

/// Does `m` occur in `s` at position `i` (no case folding)?
pub fn starts_at(s: &str, m: &str, i: usize) -> (r: bool)
    requires
        i <= s@.len(),
    ensures
        r == matches_at(s@, m@, i as int),
{
    let mlen = m.unicode_len();
    let slen = s.unicode_len();
    if mlen > slen - i {
        return false;
    }
    match_at_exec(s, m, i, false)
}

/// Position of the last occurrence of `c` in `s`.
pub fn rfind_char(s: &str, c: char) -> (r: Option<usize>)
    ensures
        match r {
            Some(i) => i < s@.len() && s@[i as int] == c && forall|j: int|
                i < j < s@.len() ==> s@[j] != c,
            None => forall|j: int| 0 <= j < s@.len() ==> s@[j] != c,
        },
{
    let n = s.unicode_len();
    let mut i: usize = n;
    while i > 0
        invariant
            n == s@.len(),
            0 <= i <= n,
            forall|j: int| i <= j < n ==> s@[j] != c,
        decreases i,
    {
        i = i - 1;
        if s.get_char(i) == c {
            return Some(i);
        }
    }
    None
}

/// Is every character of `s` whitespace?
pub fn all_space_exec(s: &str) -> (r: bool)
    ensures
        r == all_space(s@),
{
    let n = s.unicode_len();
    let mut i: usize = 0;
    while i < n
        invariant
            n == s@.len(),
            0 <= i <= n,
            forall|j: int| 0 <= j < i ==> is_space_char(s@[j]),
        decreases n - i,
    {
        if !is_space_exec(s.get_char(i)) {
            return false;
        }
        i = i + 1;
    }
    true
}

} // verus!
