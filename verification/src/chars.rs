//! Character classes and low-level text helpers shared by the prompt builder,
//! the output extractor and the sanitizer.
//!
//! All reasoning is done over `Seq<char>` views; the executable functions
//! mirror the spec functions exactly.

use vstd::prelude::*;

verus! {

/// The Unicode white-space characters, the set that `str::trim` removes.
pub open spec fn is_ws_char(c: char) -> bool {
    let u = c as u32;
    u == 0x09 || u == 0x0A || u == 0x0B || u == 0x0C || u == 0x0D || u == 0x20 || u == 0x85
        || u == 0xA0 || u == 0x1680 || (0x2000 <= u && u <= 0x200A) || u == 0x2028 || u == 0x2029
        || u == 0x202F || u == 0x205F || u == 0x3000
}

/// Executable white-space test, equal to [`is_ws_char`].
pub fn is_ws(c: char) -> (b: bool)
    ensures
        b == is_ws_char(c),
{
    let u = c as u32;
    u == 0x09 || u == 0x0A || u == 0x0B || u == 0x0C || u == 0x0D || u == 0x20 || u == 0x85
        || u == 0xA0 || u == 0x1680 || (0x2000 <= u && u <= 0x200A) || u == 0x2028 || u == 0x2029
        || u == 0x202F || u == 0x205F || u == 0x3000
}

/// Word constituents for the correction rules: ASCII letters, digits and
/// `_`, and nothing else. This class is deliberately narrower than a
/// Unicode word class: a non-ASCII letter is no constituent here, so it
/// borders a word rather than extending it, and a correction may fire on a
/// misspelling standing right next to one (`beleiveé` becomes `believeé`).
/// The fixed correction table is ASCII throughout, so the narrow class
/// keeps its whole-word boundaries exactly decidable.
pub open spec fn is_word_char(c: char) -> bool {
    let u = c as u32;
    (0x30 <= u && u <= 0x39) || (0x41 <= u && u <= 0x5A) || (0x61 <= u && u <= 0x7A) || u == 0x5F
}

/// Executable word-constituent test, equal to [`is_word_char`].
pub fn is_word(c: char) -> (b: bool)
    ensures
        b == is_word_char(c),
{
    let u = c as u32;
    (0x30 <= u && u <= 0x39) || (0x41 <= u && u <= 0x5A) || (0x61 <= u && u <= 0x7A) || u == 0x5F
}

/// ASCII lower-casing on code points: `A`..`Z` map 32 places up, all else stays.
pub open spec fn lower_u(u: u32) -> u32 {
    if 0x41 <= u && u <= 0x5A {
        (u + 0x20) as u32
    } else {
        u
    }
}

/// Two characters are equal up to ASCII case.
pub open spec fn eq_ci(a: char, b: char) -> bool {
    lower_u(a as u32) == lower_u(b as u32)
}

/// Executable case-insensitive character comparison, equal to [`eq_ci`].
pub fn chars_eq_ci(a: char, b: char) -> (r: bool)
    ensures
        r == eq_ci(a, b),
{
    let ua = a as u32;
    let ub = b as u32;
    let la = if 0x41 <= ua && ua <= 0x5A {
        ua + 0x20
    } else {
        ua
    };
    let lb = if 0x41 <= ub && ub <= 0x5A {
        ub + 0x20
    } else {
        ub
    };
    la == lb
}

/// `pat` occurs in `s` at position `i` (exact, case-sensitive).
pub open spec fn match_at(s: Seq<char>, pat: Seq<char>, i: int) -> bool {
    0 <= i && i + pat.len() <= s.len() && s.subrange(i, i + pat.len() as int) == pat
}

/// `pat` occurs somewhere in `s`.
pub open spec fn contains_sub(s: Seq<char>, pat: Seq<char>) -> bool {
    exists|i: int| match_at(s, pat, i)
}

/// Position of the first occurrence of `pat` at or after `i`, if any.
pub open spec fn find_from(s: Seq<char>, pat: Seq<char>, i: int) -> Option<int>
    decreases s.len() - i,
{
    if i < 0 || i + pat.len() > s.len() {
        None
    } else if match_at(s, pat, i) {
        Some(i)
    } else if i < s.len() {
        find_from(s, pat, i + 1)
    } else {
        None
    }
}

/// Position of the first occurrence of `pat` in `s`, if any.
pub open spec fn spec_find(s: Seq<char>, pat: Seq<char>) -> Option<int> {
    find_from(s, pat, 0)
}

/// What `find_from` returns: the first match at or after `i`, or no match at all.
pub proof fn lemma_find_from_props(s: Seq<char>, pat: Seq<char>, i: int)
    requires
        0 <= i,
    ensures
        match find_from(s, pat, i) {
            Some(j) => i <= j && match_at(s, pat, j) && forall|k: int|
                i <= k < j ==> !match_at(s, pat, k),
            None => forall|k: int| i <= k ==> !match_at(s, pat, k),
        },
    decreases s.len() - i,
{
    if i + pat.len() > s.len() {
        assert forall|k: int| i <= k implies !match_at(s, pat, k) by {}
    } else if match_at(s, pat, i) {
    } else if i < s.len() {
        lemma_find_from_props(s, pat, i + 1);
    } else {
        assert(s.subrange(i, i + pat.len() as int) =~= pat);
    }
}

/// A position that matches, with none before it, is what `spec_find` returns.
pub proof fn lemma_find_first(s: Seq<char>, pat: Seq<char>, i0: int)
    requires
        match_at(s, pat, i0),
        forall|k: int| 0 <= k < i0 ==> !match_at(s, pat, k),
    ensures
        spec_find(s, pat) == Some(i0),
{
    lemma_find_from_props(s, pat, 0);
    match find_from(s, pat, 0) {
        Some(j) => {
            if j < i0 {
                assert(!match_at(s, pat, j));
            } else if j > i0 {
                assert(!match_at(s, pat, i0));
            }
        },
        None => {
            assert(!match_at(s, pat, i0));
        },
    }
}

/// A pattern that occurs nowhere leaves `spec_find` empty.
pub proof fn lemma_find_none(s: Seq<char>, pat: Seq<char>)
    requires
        !contains_sub(s, pat),
    ensures
        spec_find(s, pat) is None,
{
    lemma_find_from_props(s, pat, 0);
    if let Some(j) = find_from(s, pat, 0) {
        assert(match_at(s, pat, j));
    }
}

/// `t` is a contiguous span of `s`.
pub open spec fn sub_of(t: Seq<char>, s: Seq<char>) -> bool {
    exists|a: int, b: int| 0 <= a <= b <= s.len() && t == #[trigger] s.subrange(a, b)
}

pub proof fn lemma_sub_of_refl(s: Seq<char>)
    ensures
        sub_of(s, s),
{
    assert(s =~= s.subrange(0, s.len() as int));
}

pub proof fn lemma_subrange_sub_of(s: Seq<char>, a: int, b: int)
    requires
        0 <= a <= b <= s.len(),
    ensures
        sub_of(s.subrange(a, b), s),
{
}

/// Spans of spans are spans.
pub proof fn lemma_sub_of_trans(t: Seq<char>, m: Seq<char>, s: Seq<char>)
    requires
        sub_of(t, m),
        sub_of(m, s),
    ensures
        sub_of(t, s),
{
    let (a, b) = choose|a: int, b: int|
        0 <= a <= b <= m.len() && t == #[trigger] m.subrange(a, b);
    let (c, d) = choose|c: int, d: int|
        0 <= c <= d <= s.len() && m == #[trigger] s.subrange(c, d);
    assert(t =~= s.subrange(c + a, c + b));
}

/// A pattern absent from a string is absent from every span of it.
pub proof fn lemma_no_occurrence_in_sub(s: Seq<char>, t: Seq<char>, pat: Seq<char>)
    requires
        !contains_sub(s, pat),
        sub_of(t, s),
    ensures
        !contains_sub(t, pat),
{
    let (a, b) = choose|a: int, b: int|
        0 <= a <= b <= s.len() && t == #[trigger] s.subrange(a, b);
    assert forall|k: int| !match_at(t, pat, k) by {
        if match_at(t, pat, k) {
            assert(s.subrange(a + k, a + k + pat.len() as int) =~= t.subrange(
                k,
                k + pat.len() as int,
            ));
            assert(match_at(s, pat, a + k));
            assert(contains_sub(s, pat));
        }
    }
}

/// First index at or after `i` holding a non-white-space character.
pub open spec fn trim_start_idx(s: Seq<char>, i: int) -> int
    decreases s.len() - i,
{
    if i < 0 || i >= s.len() {
        s.len() as int
    } else if is_ws_char(s[i]) {
        trim_start_idx(s, i + 1)
    } else {
        i
    }
}

/// One past the last non-white-space character strictly before `j`.
pub open spec fn trim_end_idx(s: Seq<char>, j: int) -> int
    decreases j,
{
    if j <= 0 || j > s.len() {
        0
    } else if is_ws_char(s[j - 1]) {
        trim_end_idx(s, j - 1)
    } else {
        j
    }
}

/// The view of `str::trim`: both ends stripped of white space.
pub open spec fn spec_trim(s: Seq<char>) -> Seq<char> {
    let a = trim_start_idx(s, 0);
    if a == s.len() {
        Seq::empty()
    } else {
        s.subrange(a, trim_end_idx(s, s.len() as int))
    }
}

pub proof fn lemma_trim_start_le(s: Seq<char>, i: int)
    requires
        0 <= i <= s.len(),
    ensures
        i <= trim_start_idx(s, i) <= s.len(),
        forall|k: int| i <= k < trim_start_idx(s, i) ==> is_ws_char(s[k]),
        trim_start_idx(s, i) < s.len() ==> !is_ws_char(s[trim_start_idx(s, i)]),
    decreases s.len() - i,
{
    if i < s.len() && is_ws_char(s[i]) {
        lemma_trim_start_le(s, i + 1);
    }
}

pub proof fn lemma_trim_end_ge(s: Seq<char>, j: int)
    requires
        0 <= j <= s.len(),
    ensures
        0 <= trim_end_idx(s, j) <= j,
        forall|k: int| trim_end_idx(s, j) <= k < j ==> is_ws_char(s[k]),
        trim_end_idx(s, j) > 0 ==> !is_ws_char(s[trim_end_idx(s, j) - 1]),
    decreases j,
{
    if j > 0 && is_ws_char(s[j - 1]) {
        lemma_trim_end_ge(s, j - 1);
    }
}

/// When some character at or after `a` is no white space, the end index stays
/// strictly above `a`.
pub proof fn lemma_trim_end_above(s: Seq<char>, a: int, j: int)
    requires
        0 <= a < j <= s.len(),
        !is_ws_char(s[a]),
    ensures
        a < trim_end_idx(s, j),
    decreases j,
{
    if is_ws_char(s[j - 1]) {
        lemma_trim_end_above(s, a, j - 1);
    }
}

/// Trimming is idempotent.
pub proof fn lemma_trim_idempotent(x: Seq<char>)
    ensures
        spec_trim(spec_trim(x)) == spec_trim(x),
{
    let a = trim_start_idx(x, 0);
    lemma_trim_start_le(x, 0);
    if a == x.len() {
        assert(spec_trim(x) =~= Seq::<char>::empty());
        assert(trim_start_idx(Seq::<char>::empty(), 0) == 0);
        assert(spec_trim(Seq::<char>::empty()) =~= Seq::<char>::empty());
    } else {
        let b = trim_end_idx(x, x.len() as int);
        lemma_trim_end_ge(x, x.len() as int);
        lemma_trim_end_above(x, a, x.len() as int);
        let y = x.subrange(a, b);
        assert(y[0] == x[a] && !is_ws_char(y[0]));
        assert(y[y.len() - 1] == x[b - 1] && !is_ws_char(y[y.len() - 1]));
        assert(trim_start_idx(y, 0) == 0);
        assert(trim_end_idx(y, y.len() as int) == y.len());
        assert(spec_trim(y) =~= y);
    }
}

/// The trimmed string is a span of the original.
pub proof fn lemma_trim_sub_of(s: Seq<char>)
    ensures
        sub_of(spec_trim(s), s),
{
    let a = trim_start_idx(s, 0);
    lemma_trim_start_le(s, 0);
    if a == s.len() {
        assert(spec_trim(s) =~= s.subrange(0, 0));
        lemma_subrange_sub_of(s, 0, 0);
    } else {
        let b = trim_end_idx(s, s.len() as int);
        lemma_trim_end_ge(s, s.len() as int);
        lemma_trim_end_above(s, a, s.len() as int);
        lemma_subrange_sub_of(s, a, b);
    }
}

/// `p` is a prefix of `s`.
pub open spec fn starts_with(s: Seq<char>, p: Seq<char>) -> bool {
    p.len() <= s.len() && s.subrange(0, p.len() as int) == p
}

/// `p` is a suffix of `s`.
pub open spec fn ends_with(s: Seq<char>, p: Seq<char>) -> bool {
    p.len() <= s.len() && s.subrange(s.len() - p.len(), s.len() as int) == p
}

/// Whether `pat` occurs at position `i` of `s`, decided character by character.
pub fn match_at_check(s: &str, pat: &str, i: usize, n: usize, m: usize) -> (b: bool)
    requires
        n == s@.len(),
        m == pat@.len(),
        i + m <= n,
    ensures
        b == match_at(s@, pat@, i as int),
{
    let mut j: usize = 0;
    while j < m
        invariant
            n == s@.len(),
            m == pat@.len(),
            i + m <= n,
            0 <= j <= m,
            forall|k: int| 0 <= k < j ==> s@[i + k] == pat@[k],
        decreases m - j,
    {
        if s.get_char(i + j) != pat.get_char(j) {
            assert(!match_at(s@, pat@, i as int)) by {
                if s@.subrange(i as int, i + m) == pat@ {
                    assert(s@.subrange(i as int, i + m)[j as int] == s@[i + j]);
                }
            }
            return false;
        }
        j += 1;
    }
    assert(s@.subrange(i as int, i + m) =~= pat@);
    true
}

/// First occurrence of `pat` in `s`, as `spec_find` describes it.
pub fn find_sub(s: &str, pat: &str) -> (r: Option<usize>)
    ensures
        match r {
            Some(i) => spec_find(s@, pat@) == Some(i as int),
            None => spec_find(s@, pat@) is None,
        },
{
    let n = s.unicode_len();
    let m = pat.unicode_len();
    if m > n {
        return None;
    }
    if m == 0 {
        assert(s@.subrange(0, 0) =~= pat@);
        return Some(0);
    }
    let mut i: usize = 0;
    while i <= n - m
        invariant
            n == s@.len(),
            m == pat@.len(),
            0 < m <= n,
            0 <= i <= n - m + 1,
            find_from(s@, pat@, 0) == find_from(s@, pat@, i as int),
        decreases n - i,
    {
        if match_at_check(s, pat, i, n, m) {
            return Some(i);
        }
        i += 1;
    }
    assert(find_from(s@, pat@, i as int) is None);
    None
}

/// Whether `p` is a prefix of `s`, per [`starts_with`].
pub fn starts_with_str(s: &str, p: &str) -> (b: bool)
    ensures
        b == starts_with(s@, p@),
{
    let n = s.unicode_len();
    let m = p.unicode_len();
    if m > n {
        return false;
    }
    match_at_check(s, p, 0, n, m)
}

/// Whether two string slices hold the same characters.
pub fn str_eq(a: &str, b: &str) -> (r: bool)
    ensures
        r == (a@ == b@),
{
    let n = a.unicode_len();
    let m = b.unicode_len();
    if n != m {
        return false;
    }
    let r = match_at_check(a, b, 0, n, m);
    proof {
        assert(a@.subrange(0, m as int) =~= a@);
    }
    r
}

/// The view of `str::trim`, as a fresh `String`.
pub fn trim_str(s: &str) -> (r: String)
    ensures
        r@ == spec_trim(s@),
{
    let n = s.unicode_len();
    let mut a: usize = 0;
    while a < n && is_ws(s.get_char(a))
        invariant
            n == s@.len(),
            0 <= a <= n,
            trim_start_idx(s@, 0) == trim_start_idx(s@, a as int),
        decreases n - a,
    {
        a += 1;
    }
    if a == n {
        return String::new();
    }
    let mut b: usize = n;
    while b > a && is_ws(s.get_char(b - 1))
        invariant
            n == s@.len(),
            0 <= a < b <= n,
            a < n,
            !is_ws_char(s@[a as int]),
            trim_end_idx(s@, n as int) == trim_end_idx(s@, b as int),
        decreases b,
    {
        b -= 1;
    }
    let r = s.substring_char(a, b);
    proof {
        assert(trim_start_idx(s@, a as int) == a);
        assert(trim_end_idx(s@, b as int) == b);
    }
    String::from_str(r)
}

/// Relies on `String::push`: appends exactly the one character to the end.
#[verifier::external_body]
pub fn push_char(s: &mut String, c: char)
    ensures
        final(s)@ == old(s)@.push(c),
{
    s.push(c)
}

} // verus!
