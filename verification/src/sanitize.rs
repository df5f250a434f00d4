//! Sanitizer and autocorrector: trim, strip one layer of wrapping quotes,
//! drop trailing commentary, and apply a fixed, ordered table of
//! case-insensitive whole-word corrections as a deterministic safety net.
//!
//! A correction only fires on whole words: the matched span must compare
//! equal up to ASCII case and be bordered by non-word characters (word
//! characters being ASCII letters, digits and `_`), so substrings of
//! unrelated words are never corrupted. The boundary class is ASCII by
//! design — narrower than a Unicode word class — so any character outside
//! it, a non-ASCII letter included, counts as a border; see
//! [`crate::chars::is_word_char`].

use vstd::prelude::*;
use crate::chars::{
    eq_ci, find_sub, is_word, is_word_char, lemma_find_from_props, push_char, spec_find, spec_trim,
    trim_str, chars_eq_ci, lemma_trim_idempotent,
};

verus! {

/// The string is wrapped in one matching pair of double or single quotes
/// spanning the whole string. A single quote character alone is no pair.
pub open spec fn quote_wrapped(s: Seq<char>) -> bool {
    s.len() >= 2 && ((s[0] == '"' && s[s.len() - 1] == '"') || (s[0] == '\'' && s[s.len() - 1]
        == '\''))
}

/// One layer of wrapping quotes stripped, when present.
pub open spec fn spec_unquote(s: Seq<char>) -> Seq<char> {
    if quote_wrapped(s) {
        s.subrange(1, s.len() - 1)
    } else {
        s
    }
}

/// Trailing commentary cut: everything from a `(Note:` marker on, or, short
/// of one, from a parenthesis opening more than eight characters in; what
/// stays is trimmed. Short parentheses near the start are preserved.
pub open spec fn spec_paren_cut(s: Seq<char>) -> Seq<char> {
    match spec_find(s, "(Note:"@) {
        Some(i) => spec_trim(s.subrange(0, i)),
        None => match spec_find(s, "("@) {
            Some(i) => if i > 8 {
                spec_trim(s.subrange(0, i))
            } else {
                s
            },
            None => s,
        },
    }
}

/// Two spans compare equal character by character up to ASCII case.
pub open spec fn eq_ci_seq(a: Seq<char>, b: Seq<char>) -> bool {
    a.len() == b.len() && forall|i: int| 0 <= i < a.len() ==> eq_ci(a[i], b[i])
}

/// The word `w` stands at position `i` of `s`: the span compares equal up to
/// ASCII case and no word character touches it on either side.
pub open spec fn word_at(s: Seq<char>, w: Seq<char>, i: int) -> bool {
    0 <= i && i + w.len() <= s.len() && eq_ci_seq(s.subrange(i, i + w.len() as int), w) && (i == 0
        || !is_word_char(s[i - 1])) && (i + w.len() == s.len() || !is_word_char(s[i + w.len()]))
}

/// The word `w` occurs somewhere in `s`.
pub open spec fn has_word(s: Seq<char>, w: Seq<char>) -> bool {
    exists|i: int| word_at(s, w, i)
}

/// The scan of a left-to-right whole-word replacement, from position `i` on:
/// every occurrence of `w` is replaced by `r`, non-overlapping, leftmost
/// first.
pub open spec fn spec_replace_from(s: Seq<char>, w: Seq<char>, r: Seq<char>, i: int) -> Seq<char>
    decreases s.len() - i,
{
    if i < 0 || i >= s.len() {
        Seq::empty()
    } else if w.len() > 0 && word_at(s, w, i) {
        r + spec_replace_from(s, w, r, i + w.len() as int)
    } else {
        seq![s[i]] + spec_replace_from(s, w, r, i + 1)
    }
}

/// Whole-word case-insensitive replacement of `w` by `r` throughout `s`.
pub open spec fn spec_replace(s: Seq<char>, w: Seq<char>, r: Seq<char>) -> Seq<char> {
    spec_replace_from(s, w, r, 0)
}

/// The fixed, ordered correction table applied rule after rule.
pub open spec fn spec_correct_all(s: Seq<char>) -> Seq<char> {
    let s1 = spec_replace(s, "sentance"@, "sentence"@);
    let s2 = spec_replace(s1, "typoos"@, "typos"@);
    let s3 = spec_replace(s2, "typoes"@, "typos"@);
    let s4 = spec_replace(s3, "beleive"@, "believe"@);
    let s5 = spec_replace(s4, "recieve"@, "receive"@);
    let s6 = spec_replace(s5, "seperate"@, "separate"@);
    let s7 = spec_replace(s6, "resturant"@, "restaurant"@);
    let s8 = spec_replace(s7, "degre"@, "degree"@);
    let s9 = spec_replace(s8, "definately"@, "definitely"@);
    let s10 = spec_replace(s9, "quik"@, "quick"@);
    let s11 = spec_replace(s10, "cant"@, "can't"@);
    let s12 = spec_replace(s11, "teh"@, "the"@);
    let s13 = spec_replace(s12, "itmes"@, "items"@);
    s13
}

/// The whole sanitizer: trim, unquote, cut commentary, correct, trim again.
pub open spec fn spec_sanitize(text: Seq<char>) -> Seq<char> {
    spec_trim(spec_correct_all(spec_paren_cut(spec_unquote(spec_trim(text)))))
}

/// Whether the word `w` stands at position `i` of `s`, decided character by
/// character.
fn word_at_check(s: &str, w: &str, i: usize, n: usize, m: usize) -> (b: bool)
    requires
        n == s@.len(),
        m == w@.len(),
        m > 0,
        i < n,
    ensures
        b == word_at(s@, w@, i as int),
{
    if m > n - i {
        return false;
    }
    if i > 0 && is_word(s.get_char(i - 1)) {
        return false;
    }
    if i + m < n && is_word(s.get_char(i + m)) {
        return false;
    }
    let mut j: usize = 0;
    while j < m
        invariant
            n == s@.len(),
            m == w@.len(),
            i + m <= n,
            0 <= j <= m,
            forall|k: int| 0 <= k < j ==> eq_ci(s@[i + k], w@[k]),
        decreases m - j,
    {
        if !chars_eq_ci(s.get_char(i + j), w.get_char(j)) {
            assert(!word_at(s@, w@, i as int)) by {
                let sub = s@.subrange(i as int, i + m);
                if eq_ci_seq(sub, w@) {
                    assert(sub[j as int] == s@[i + j]);
                }
            }
            return false;
        }
        j += 1;
    }
    assert(eq_ci_seq(s@.subrange(i as int, i + m), w@)) by {
        let sub = s@.subrange(i as int, i + m);
        assert forall|k: int| 0 <= k < m implies eq_ci(sub[k], w@[k]) by {
            assert(sub[k] == s@[i + k]);
        }
    }
    true
}

/// Replace every whole-word occurrence of `w` in `s` by `rep`, as
/// [`spec_replace`] describes it.
pub fn replace_word(s: &str, w: &str, rep: &str) -> (out: String)
    requires
        w@.len() > 0,
    ensures
        out@ == spec_replace(s@, w@, rep@),
{
    let n = s.unicode_len();
    let m = w.unicode_len();
    let mut out = String::new();
    let mut i: usize = 0;
    while i < n
        invariant
            n == s@.len(),
            m == w@.len(),
            m > 0,
            0 <= i <= n,
            spec_replace(s@, w@, rep@) == out@ + spec_replace_from(s@, w@, rep@, i as int),
        decreases n - i,
    {
        if word_at_check(s, w, i, n, m) {
            let ghost prev = out@;
            out.append(rep);
            proof {
                assert(spec_replace_from(s@, w@, rep@, i as int) == rep@ + spec_replace_from(
                    s@,
                    w@,
                    rep@,
                    i + m,
                ));
                assert(prev + (rep@ + spec_replace_from(s@, w@, rep@, i + m)) =~= (prev + rep@)
                    + spec_replace_from(s@, w@, rep@, i + m));
            }
            i += m;
        } else {
            let c = s.get_char(i);
            let ghost prev = out@;
            push_char(&mut out, c);
            proof {
                assert(spec_replace_from(s@, w@, rep@, i as int) == seq![c] + spec_replace_from(
                    s@,
                    w@,
                    rep@,
                    i + 1,
                ));
                assert(out@ =~= prev + seq![c]);
                assert(prev + (seq![c] + spec_replace_from(s@, w@, rep@, i + 1)) =~= (prev
                    + seq![c]) + spec_replace_from(s@, w@, rep@, i + 1));
            }
            i += 1;
        }
    }
    proof {
        assert(spec_replace_from(s@, w@, rep@, n as int) =~= Seq::<char>::empty());
        assert(out@ + Seq::<char>::empty() =~= out@);
    }
    out
}

/// Apply the fixed correction table in order, as [`spec_correct_all`].
pub fn correct_all(s: &str) -> (out: String)
    ensures
        out@ == spec_correct_all(s@),
{
    proof {
        reveal_strlit("sentance");
        reveal_strlit("typoos");
        reveal_strlit("typoes");
        reveal_strlit("beleive");
        reveal_strlit("recieve");
        reveal_strlit("seperate");
        reveal_strlit("resturant");
        reveal_strlit("degre");
        reveal_strlit("definately");
        reveal_strlit("quik");
        reveal_strlit("cant");
        reveal_strlit("teh");
        reveal_strlit("itmes");
    }
    let s1 = replace_word(s, "sentance", "sentence");
    let s2 = replace_word(s1.as_str(), "typoos", "typos");
    let s3 = replace_word(s2.as_str(), "typoes", "typos");
    let s4 = replace_word(s3.as_str(), "beleive", "believe");
    let s5 = replace_word(s4.as_str(), "recieve", "receive");
    let s6 = replace_word(s5.as_str(), "seperate", "separate");
    let s7 = replace_word(s6.as_str(), "resturant", "restaurant");
    let s8 = replace_word(s7.as_str(), "degre", "degree");
    let s9 = replace_word(s8.as_str(), "definately", "definitely");
    let s10 = replace_word(s9.as_str(), "quik", "quick");
    let s11 = replace_word(s10.as_str(), "cant", "can't");
    let s12 = replace_word(s11.as_str(), "teh", "the");
    let s13 = replace_word(s12.as_str(), "itmes", "items");
    s13
}

/// Sanitize model output and apply the deterministic corrections, exactly
/// [`spec_sanitize`]: a total function that never fails.
pub fn sanitize_and_autocorrect(text: &str) -> (out: String)
    ensures
        out@ == spec_sanitize(text@),
{
    let t = trim_str(text);
    let n = t.as_str().unicode_len();
    let u: String = if n >= 2 {
        let c0 = t.as_str().get_char(0);
        let cl = t.as_str().get_char(n - 1);
        if (c0 == '"' && cl == '"') || (c0 == '\'' && cl == '\'') {
            String::from_str(t.as_str().substring_char(1, n - 1))
        } else {
            t
        }
    } else {
        t
    };
    let p: String = match find_sub(u.as_str(), "(Note:") {
        Some(i) => {
            proof {
                lemma_find_from_props(u@, "(Note:"@, 0);
            }
            trim_str(u.as_str().substring_char(0, i))
        },
        None => {
            match find_sub(u.as_str(), "(") {
                Some(i) => {
                    if i > 8 {
                        proof {
                            lemma_find_from_props(u@, "("@, 0);
                        }
                        trim_str(u.as_str().substring_char(0, i))
                    } else {
                        u
                    }
                },
                None => u,
            }
        },
    };
    let c = correct_all(p.as_str());
    trim_str(c.as_str())
}

/// Every character of `v` is a word constituent.
pub open spec fn all_word(v: Seq<char>) -> bool {
    forall|i: int| 0 <= i < v.len() ==> is_word_char(#[trigger] v[i])
}

/// Characters equal up to ASCII case are word constituents together.
proof fn lemma_eq_ci_word(a: char, b: char)
    requires
        eq_ci(a, b),
    ensures
        is_word_char(a) == is_word_char(b),
{
}

/// Where a word occurrence in a concatenation can lie: wholly in the left
/// part, wholly in the right part, or across the seam — and a seam crossing
/// forces word constituents on both sides of it.
proof fn lemma_word_at_concat(x: Seq<char>, y: Seq<char>, v: Seq<char>, k: int)
    requires
        word_at(x + y, v, k),
        v.len() > 0,
        all_word(v),
    ensures
        (k + v.len() <= x.len() && word_at(x, v, k)) || (k >= x.len() && word_at(
            y,
            v,
            k - x.len(),
        )) || (k < x.len() < k + v.len() && x.len() > 0 && is_word_char(x[x.len() - 1])
            && y.len() > 0 && is_word_char(y[0])),
{
    let s = x + y;
    let sub = s.subrange(k, k + v.len() as int);
    if k + v.len() <= x.len() {
        assert(x.subrange(k, k + v.len() as int) =~= sub);
        assert(word_at(x, v, k));
    } else if k >= x.len() {
        let k2 = k - x.len();
        assert(y.subrange(k2, k2 + v.len() as int) =~= sub);
        assert(word_at(y, v, k2));
    } else {
        let xl = x.len() as int;
        assert(sub[xl - 1 - k] == s[xl - 1]);
        assert(s[xl - 1] == x[xl - 1]);
        assert(eq_ci(sub[xl - 1 - k], v[xl - 1 - k]));
        lemma_eq_ci_word(sub[xl - 1 - k], v[xl - 1 - k]);
        assert(sub[xl - k] == s[xl]);
        assert(s[xl] == y[0]);
        assert(eq_ci(sub[xl - k], v[xl - k]));
        lemma_eq_ci_word(sub[xl - k], v[xl - k]);
    }
}

/// A word occurrence inside a span of `s` is one in `s` itself, unless it
/// touches a span edge whose outside neighbour is a word constituent.
proof fn lemma_chunk_occ_maps(s: Seq<char>, v: Seq<char>, i: int, b: int, k: int)
    requires
        0 <= i <= b <= s.len(),
        v.len() > 0,
        word_at(s.subrange(i, b), v, k),
    ensures
        word_at(s, v, i + k) || (k == 0 && i > 0 && is_word_char(s[i - 1])) || (k + v.len() == b
            - i && b < s.len() && is_word_char(s[b])),
{
    let chunk = s.subrange(i, b);
    let left_blocked = k == 0 && i > 0 && is_word_char(s[i - 1]);
    let right_blocked = k + v.len() == b - i && b < s.len() && is_word_char(s[b]);
    if !left_blocked && !right_blocked {
        assert(s.subrange(i + k, i + k + v.len() as int) =~= chunk.subrange(
            k,
            k + v.len() as int,
        ));
        assert(word_at(s, v, i + k));
    }
}

/// The scan's next replacement site at or after `i`, or the length if none.
spec fn next_site(s: Seq<char>, w: Seq<char>, i: int) -> int
    decreases s.len() - i,
{
    if i < 0 || i >= s.len() {
        s.len() as int
    } else if word_at(s, w, i) {
        i
    } else {
        next_site(s, w, i + 1)
    }
}

proof fn lemma_next_site_props(s: Seq<char>, w: Seq<char>, i: int)
    requires
        0 <= i <= s.len(),
        w.len() > 0,
    ensures
        i <= next_site(s, w, i) <= s.len(),
        next_site(s, w, i) < s.len() ==> word_at(s, w, next_site(s, w, i)),
        forall|j: int| i <= j < next_site(s, w, i) ==> !word_at(s, w, j),
    decreases s.len() - i,
{
    if i < s.len() && !word_at(s, w, i) {
        lemma_next_site_props(s, w, i + 1);
    }
}

/// The scan's output from `i` on, written as the copied span up to the next
/// site, then the replacement, then the rest.
proof fn lemma_replace_decompose(s: Seq<char>, w: Seq<char>, r: Seq<char>, i: int)
    requires
        0 <= i <= s.len(),
        w.len() > 0,
    ensures
        ({
            let ns = next_site(s, w, i);
            spec_replace_from(s, w, r, i) == if ns < s.len() {
                s.subrange(i, ns) + r + spec_replace_from(s, w, r, ns + w.len() as int)
            } else {
                s.subrange(i, s.len() as int)
            }
        }),
    decreases s.len() - i,
{
    let ns = next_site(s, w, i);
    lemma_next_site_props(s, w, i);
    if i >= s.len() {
        assert(s.subrange(i, s.len() as int) =~= Seq::<char>::empty());
    } else if word_at(s, w, i) {
        assert(ns == i);
        assert(s.subrange(i, i) =~= Seq::<char>::empty());
        assert(s.subrange(i, i) + r + spec_replace_from(s, w, r, i + w.len() as int) =~= r
            + spec_replace_from(s, w, r, i + w.len() as int));
    } else {
        lemma_replace_decompose(s, w, r, i + 1);
        assert(ns == next_site(s, w, i + 1));
        if ns < s.len() {
            assert(seq![s[i]] + s.subrange(i + 1, ns) =~= s.subrange(i, ns));
            assert(seq![s[i]] + (s.subrange(i + 1, ns) + r + spec_replace_from(
                s,
                w,
                r,
                ns + w.len() as int,
            )) =~= s.subrange(i, ns) + r + spec_replace_from(s, w, r, ns + w.len() as int));
        } else {
            assert(seq![s[i]] + s.subrange(i + 1, s.len() as int) =~= s.subrange(
                i,
                s.len() as int,
            ));
        }
    }
}

/// The master absence lemma for one replacement pass. Let `v` be a word
/// (all word constituents) that does not occur in the replacement `r` and
/// whose every occurrence in `s` is also an occurrence of the pattern `w`
/// (so either `v` is `w` itself, or `v` does not occur in `s` at all). Then
/// `v` does not occur in the scan's output: replaced spans are bordered by
/// non-word characters, so no occurrence can straddle a replacement.
proof fn lemma_replace_from_absent(s: Seq<char>, w: Seq<char>, r: Seq<char>, v: Seq<char>, i: int)
    requires
        0 <= i <= s.len(),
        w.len() > 0,
        v.len() > 0,
        all_word(v),
        all_word(w),
        forall|k: int| !word_at(r, v, k),
        forall|j: int| word_at(s, v, j) ==> word_at(s, w, j),
        i == 0 || i >= s.len() || !is_word_char(s[i]),
    ensures
        forall|k: int| !word_at(spec_replace_from(s, w, r, i), v, k),
    decreases s.len() - i,
{
    let out = spec_replace_from(s, w, r, i);
    let ns = next_site(s, w, i);
    lemma_next_site_props(s, w, i);
    lemma_replace_decompose(s, w, r, i);
    let chunk = s.subrange(i, ns);
    if ns < s.len() {
        let wl = w.len() as int;
        let i2 = ns + wl;
        assert(i2 >= s.len() || !is_word_char(s[i2]));
        lemma_replace_from_absent(s, w, r, v, i2);
        let out2 = spec_replace_from(s, w, r, i2);
        let rest = r + out2;
        assert(out == chunk + rest);
        // the last character of the replaced span is a word constituent,
        // so the scan cannot match again right after it, and the copied
        // character that follows the span is no word constituent
        assert(out2.len() > 0 ==> !is_word_char(out2[0])) by {
            if i2 < s.len() {
                assert(is_word_char(s[i2 - 1])) by {
                    let span = s.subrange(ns, ns + wl);
                    assert(span[wl - 1] == s[i2 - 1]);
                    assert(eq_ci(span[wl - 1], w[wl - 1]));
                    lemma_eq_ci_word(span[wl - 1], w[wl - 1]);
                }
                assert(!word_at(s, w, i2));
                lemma_next_site_props(s, w, i2);
                lemma_replace_decompose(s, w, r, i2);
                let ns2 = next_site(s, w, i2);
                assert(ns2 > i2);
                let chunk2 = s.subrange(i2, ns2);
                assert(chunk2.len() > 0);
                if ns2 < s.len() {
                    assert(out2 == chunk2 + (r + spec_replace_from(s, w, r, ns2 + wl)));
                    assert(out2[0] == chunk2[0]);
                } else {
                    assert(out2 == s.subrange(i2, s.len() as int));
                }
                assert(out2[0] == s[i2]);
            } else {
                assert(out2 =~= Seq::<char>::empty());
            }
        }
        assert forall|k: int| !word_at(out, v, k) by {
            if word_at(out, v, k) {
                lemma_word_at_concat(chunk, rest, v, k);
                if k + v.len() <= chunk.len() && word_at(chunk, v, k) {
                    // the occurrence lies in the copied span
                    lemma_chunk_occ_maps(s, v, i, ns, k);
                    if k == 0 && i > 0 && is_word_char(s[i - 1])
                        && !word_at(s, v, i + k) {
                        // the span starts at a copied non-word character
                        assert(eq_ci(chunk[0], v[0]));
                        lemma_eq_ci_word(chunk[0], v[0]);
                        assert(is_word_char(s[i]));
                    } else if k + v.len() == ns - i && ns < s.len() && is_word_char(s[ns])
                        && !word_at(s, v, i + k) {
                        // the span ends right before the site, whose left
                        // neighbour the match made a non-word character
                        assert(ns == 0 || !is_word_char(s[ns - 1]));
                        assert(chunk[ns - i - 1] == s[ns - 1]);
                        assert(eq_ci(chunk[ns - i - 1], v[v.len() - 1]));
                        lemma_eq_ci_word(chunk[ns - i - 1], v[v.len() - 1]);
                    } else {
                        assert(word_at(s, v, i + k));
                        assert(word_at(s, w, i + k));
                        assert(i + k < ns);
                    }
                } else if k >= chunk.len() {
                    let k2 = k - chunk.len();
                    assert(word_at(rest, v, k2));
                    lemma_word_at_concat(r, out2, v, k2);
                    if k2 < r.len() < k2 + v.len() {
                        assert(is_word_char(out2[0]));
                    } else if k2 >= r.len() {
                        assert(word_at(out2, v, k2 - r.len()));
                    } else {
                        assert(word_at(r, v, k2));
                    }
                } else {
                    // straddling the copied span and what follows
                    assert(is_word_char(chunk[chunk.len() - 1]));
                    assert(chunk[chunk.len() - 1] == s[ns - 1]);
                    assert(ns == 0 || !is_word_char(s[ns - 1]));
                }
            }
        }
    } else {
        assert(out == s.subrange(i, s.len() as int));
        assert forall|k: int| !word_at(out, v, k) by {
            if word_at(out, v, k) {
                lemma_chunk_occ_maps(s, v, i, s.len() as int, k);
                if k == 0 && i > 0 && is_word_char(s[i - 1]) && !word_at(s, v, i + k) {
                    assert(eq_ci(out[0], v[0]));
                    lemma_eq_ci_word(out[0], v[0]);
                    assert(is_word_char(s[i]));
                } else {
                    assert(word_at(s, v, i + k));
                    assert(word_at(s, w, i + k));
                    assert(i + k < ns);
                }
            }
        }
    }
}
/// A replacement pass removes every occurrence of its own pattern, provided
/// the replacement text does not spell the pattern again.
proof fn lemma_replace_eliminates(s: Seq<char>, w: Seq<char>, r: Seq<char>)
    requires
        w.len() > 0,
        all_word(w),
        !has_word(r, w),
    ensures
        !has_word(spec_replace(s, w, r), w),
{
    assert(forall|k: int| !word_at(r, w, k));
    lemma_replace_from_absent(s, w, r, w, 0);
}

/// A replacement pass cannot introduce a word absent from both the text and
/// the replacement.
proof fn lemma_replace_preserves_absence(s: Seq<char>, w: Seq<char>, r: Seq<char>, v: Seq<char>)
    requires
        w.len() > 0,
        v.len() > 0,
        all_word(w),
        all_word(v),
        !has_word(r, v),
        !has_word(s, v),
    ensures
        !has_word(spec_replace(s, w, r), v),
{
    assert(forall|k: int| !word_at(r, v, k));
    assert(forall|j: int| !word_at(s, v, j));
    lemma_replace_from_absent(s, w, r, v, 0);
}

/// Trimming cannot introduce a word: white space is no word constituent.
proof fn lemma_trim_preserves_absence(u: Seq<char>, v: Seq<char>)
    requires
        v.len() > 0,
        !has_word(u, v),
    ensures
        !has_word(spec_trim(u), v),
{
    let a = crate::chars::trim_start_idx(u, 0);
    crate::chars::lemma_trim_start_le(u, 0);
    if a == u.len() {
        assert forall|k: int| !word_at(spec_trim(u), v, k) by {}
    } else {
        let b = crate::chars::trim_end_idx(u, u.len() as int);
        crate::chars::lemma_trim_end_ge(u, u.len() as int);
        crate::chars::lemma_trim_end_above(u, a, u.len() as int);
        assert forall|k: int| !word_at(spec_trim(u), v, k) by {
            if word_at(spec_trim(u), v, k) {
                lemma_chunk_occ_maps(u, v, a, b, k);
                assert(a > 0 ==> crate::chars::is_ws_char(u[a - 1]));
                assert(b < u.len() ==> crate::chars::is_ws_char(u[b]));
                assert(word_at(u, v, a + k));
            }
        }
    }
}

/// A single word holds another word only as the whole of itself, up to case.
proof fn lemma_word_no_occ(r: Seq<char>, v: Seq<char>)
    requires
        all_word(r),
        v.len() > 0,
        !(r.len() == v.len() && eq_ci_seq(r, v)),
    ensures
        !has_word(r, v),
{
    assert forall|k: int| !word_at(r, v, k) by {
        if word_at(r, v, k) {
            assert(k == 0);
            assert(k + v.len() == r.len());
            assert(r.subrange(0, r.len() as int) =~= r);
        }
    }
}

/// No word of four or more characters stands whole in `can't`: any such span
/// would cover the apostrophe, which is no word constituent.
proof fn lemma_cant_no_occ(v: Seq<char>)
    requires
        v.len() >= 4,
        all_word(v),
    ensures
        !has_word("can't"@, v),
{
    reveal_strlit("can't");
    let r = "can't"@;
    assert(r.len() == 5);
    assert(r[3] == '\'');
    assert forall|k: int| !word_at(r, v, k) by {
        if word_at(r, v, k) {
            assert(0 <= k <= 1);
            let sub = r.subrange(k, k + v.len() as int);
            assert(sub[3 - k] == r[3]);
            assert(eq_ci(r[3], v[3 - k]));
            lemma_eq_ci_word(r[3], v[3 - k]);
            assert(is_word_char(v[3 - k]));
        }
    }
}

/// The replacement texts of the table are single words of the given
/// lengths, `can't` excepted, which carries an apostrophe.
proof fn lemma_replacements_are_words()
    ensures
        all_word("sentence"@) && "sentence"@.len() == 8,
        all_word("typos"@) && "typos"@.len() == 5,
        all_word("believe"@) && "believe"@.len() == 7,
        all_word("receive"@) && "receive"@.len() == 7,
        all_word("separate"@) && "separate"@.len() == 8,
        all_word("restaurant"@) && "restaurant"@.len() == 10,
        all_word("degree"@) && "degree"@.len() == 6,
        all_word("definitely"@) && "definitely"@.len() == 10,
        all_word("quick"@) && "quick"@.len() == 5,
        all_word("the"@) && "the"@.len() == 3,
        all_word("items"@) && "items"@.len() == 5,
        "can't"@.len() == 5,
{
    reveal_strlit("sentence");
    reveal_strlit("typos");
    reveal_strlit("believe");
    reveal_strlit("receive");
    reveal_strlit("separate");
    reveal_strlit("restaurant");
    reveal_strlit("degree");
    reveal_strlit("definitely");
    reveal_strlit("quick");
    reveal_strlit("the");
    reveal_strlit("items");
    reveal_strlit("can't");
}

/// The misspellings of the table are single words of the given lengths.
proof fn lemma_patterns_are_words()
    ensures
        all_word("sentance"@) && "sentance"@.len() == 8,
        all_word("typoos"@) && "typoos"@.len() == 6,
        all_word("typoes"@) && "typoes"@.len() == 6,
        all_word("beleive"@) && "beleive"@.len() == 7,
        all_word("recieve"@) && "recieve"@.len() == 7,
        all_word("seperate"@) && "seperate"@.len() == 8,
        all_word("resturant"@) && "resturant"@.len() == 9,
        all_word("degre"@) && "degre"@.len() == 5,
        all_word("definately"@) && "definately"@.len() == 10,
        all_word("quik"@) && "quik"@.len() == 4,
        all_word("cant"@) && "cant"@.len() == 4,
        all_word("teh"@) && "teh"@.len() == 3,
        all_word("itmes"@) && "itmes"@.len() == 5,
{
    reveal_strlit("sentance");
    reveal_strlit("typoos");
    reveal_strlit("typoes");
    reveal_strlit("beleive");
    reveal_strlit("recieve");
    reveal_strlit("seperate");
    reveal_strlit("resturant");
    reveal_strlit("degre");
    reveal_strlit("definately");
    reveal_strlit("quik");
    reveal_strlit("cant");
    reveal_strlit("teh");
    reveal_strlit("itmes");
}

/// The misspelling `v` occurs as a whole word in none of the table's
/// replacement texts. The length facts and, for length-equal pairs, one
/// differing character discharge every case; `can't` goes by its
/// apostrophe, or by its first character for the three-letter `teh`.
proof fn lemma_pattern_absent_in_replacements(v: Seq<char>)
    requires
        v == "sentance"@ || v == "typoos"@ || v == "typoes"@ || v == "beleive"@ || v
            == "recieve"@ || v == "seperate"@ || v == "resturant"@ || v == "degre"@ || v
            == "definately"@ || v == "quik"@ || v == "cant"@ || v == "teh"@ || v == "itmes"@,
    ensures
        !has_word("sentence"@, v),
        !has_word("typos"@, v),
        !has_word("believe"@, v),
        !has_word("receive"@, v),
        !has_word("separate"@, v),
        !has_word("restaurant"@, v),
        !has_word("degree"@, v),
        !has_word("definitely"@, v),
        !has_word("quick"@, v),
        !has_word("can't"@, v),
        !has_word("the"@, v),
        !has_word("items"@, v),
{
    lemma_replacements_are_words();
    lemma_patterns_are_words();
    reveal_strlit("sentence");
    reveal_strlit("typos");
    reveal_strlit("believe");
    reveal_strlit("receive");
    reveal_strlit("separate");
    reveal_strlit("restaurant");
    reveal_strlit("degree");
    reveal_strlit("definitely");
    reveal_strlit("quick");
    reveal_strlit("the");
    reveal_strlit("items");
    reveal_strlit("sentance");
    reveal_strlit("typoos");
    reveal_strlit("typoes");
    reveal_strlit("beleive");
    reveal_strlit("recieve");
    reveal_strlit("seperate");
    reveal_strlit("resturant");
    reveal_strlit("degre");
    reveal_strlit("definately");
    reveal_strlit("quik");
    reveal_strlit("cant");
    reveal_strlit("teh");
    reveal_strlit("itmes");
    assert(!eq_ci_seq("sentence"@, "sentance"@)) by {
        if eq_ci_seq("sentence"@, "sentance"@) {
            assert(eq_ci("sentence"@[4], "sentance"@[4]));
        }
    }
    assert(!eq_ci_seq("sentence"@, "seperate"@)) by {
        if eq_ci_seq("sentence"@, "seperate"@) {
            assert(eq_ci("sentence"@[2], "seperate"@[2]));
        }
    }
    assert(!eq_ci_seq("typos"@, "degre"@)) by {
        if eq_ci_seq("typos"@, "degre"@) {
            assert(eq_ci("typos"@[0], "degre"@[0]));
        }
    }
    assert(!eq_ci_seq("typos"@, "itmes"@)) by {
        if eq_ci_seq("typos"@, "itmes"@) {
            assert(eq_ci("typos"@[0], "itmes"@[0]));
        }
    }
    assert(!eq_ci_seq("believe"@, "beleive"@)) by {
        if eq_ci_seq("believe"@, "beleive"@) {
            assert(eq_ci("believe"@[3], "beleive"@[3]));
        }
    }
    assert(!eq_ci_seq("believe"@, "recieve"@)) by {
        if eq_ci_seq("believe"@, "recieve"@) {
            assert(eq_ci("believe"@[0], "recieve"@[0]));
        }
    }
    assert(!eq_ci_seq("receive"@, "beleive"@)) by {
        if eq_ci_seq("receive"@, "beleive"@) {
            assert(eq_ci("receive"@[0], "beleive"@[0]));
        }
    }
    assert(!eq_ci_seq("receive"@, "recieve"@)) by {
        if eq_ci_seq("receive"@, "recieve"@) {
            assert(eq_ci("receive"@[3], "recieve"@[3]));
        }
    }
    assert(!eq_ci_seq("separate"@, "sentance"@)) by {
        if eq_ci_seq("separate"@, "sentance"@) {
            assert(eq_ci("separate"@[2], "sentance"@[2]));
        }
    }
    assert(!eq_ci_seq("separate"@, "seperate"@)) by {
        if eq_ci_seq("separate"@, "seperate"@) {
            assert(eq_ci("separate"@[3], "seperate"@[3]));
        }
    }
    assert(!eq_ci_seq("restaurant"@, "definately"@)) by {
        if eq_ci_seq("restaurant"@, "definately"@) {
            assert(eq_ci("restaurant"@[0], "definately"@[0]));
        }
    }
    assert(!eq_ci_seq("degree"@, "typoos"@)) by {
        if eq_ci_seq("degree"@, "typoos"@) {
            assert(eq_ci("degree"@[0], "typoos"@[0]));
        }
    }
    assert(!eq_ci_seq("degree"@, "typoes"@)) by {
        if eq_ci_seq("degree"@, "typoes"@) {
            assert(eq_ci("degree"@[0], "typoes"@[0]));
        }
    }
    assert(!eq_ci_seq("definitely"@, "definately"@)) by {
        if eq_ci_seq("definitely"@, "definately"@) {
            assert(eq_ci("definitely"@[5], "definately"@[5]));
        }
    }
    assert(!eq_ci_seq("quick"@, "degre"@)) by {
        if eq_ci_seq("quick"@, "degre"@) {
            assert(eq_ci("quick"@[0], "degre"@[0]));
        }
    }
    assert(!eq_ci_seq("quick"@, "itmes"@)) by {
        if eq_ci_seq("quick"@, "itmes"@) {
            assert(eq_ci("quick"@[0], "itmes"@[0]));
        }
    }
    assert(!eq_ci_seq("the"@, "teh"@)) by {
        if eq_ci_seq("the"@, "teh"@) {
            assert(eq_ci("the"@[1], "teh"@[1]));
        }
    }
    assert(!eq_ci_seq("items"@, "degre"@)) by {
        if eq_ci_seq("items"@, "degre"@) {
            assert(eq_ci("items"@[0], "degre"@[0]));
        }
    }
    assert(!eq_ci_seq("items"@, "itmes"@)) by {
        if eq_ci_seq("items"@, "itmes"@) {
            assert(eq_ci("items"@[2], "itmes"@[2]));
        }
    }
    lemma_word_no_occ("sentence"@, v);
    lemma_word_no_occ("typos"@, v);
    lemma_word_no_occ("believe"@, v);
    lemma_word_no_occ("receive"@, v);
    lemma_word_no_occ("separate"@, v);
    lemma_word_no_occ("restaurant"@, v);
    lemma_word_no_occ("degree"@, v);
    lemma_word_no_occ("definitely"@, v);
    lemma_word_no_occ("quick"@, v);
    lemma_word_no_occ("the"@, v);
    lemma_word_no_occ("items"@, v);
    if v.len() >= 4 {
        lemma_cant_no_occ(v);
    } else {
        assert(v == "teh"@);
        let r = "can't"@;
        reveal_strlit("can't");
        assert forall|k: int| !word_at(r, v, k) by {
            if word_at(r, v, k) {
                if k == 0 {
                    assert(r.subrange(0, 3)[0] == r[0]);
                    assert(eq_ci(r[0], v[0]));
                } else {
                    assert(!is_word_char(r[k - 1]));
                }
            }
        }
    }
}

/// After the correction table has run, none of its misspellings occurs as a
/// whole word in the text: each rule removes every occurrence of its own
/// misspelling, and neither a later rule's replacement nor the scan itself
/// can reintroduce an earlier one across the non-word borders of a
/// replaced span.
proof fn lemma_correct_all_no_misspellings(x: Seq<char>)
    ensures
        !has_word(spec_correct_all(x), "sentance"@),
        !has_word(spec_correct_all(x), "typoos"@),
        !has_word(spec_correct_all(x), "typoes"@),
        !has_word(spec_correct_all(x), "beleive"@),
        !has_word(spec_correct_all(x), "recieve"@),
        !has_word(spec_correct_all(x), "seperate"@),
        !has_word(spec_correct_all(x), "resturant"@),
        !has_word(spec_correct_all(x), "degre"@),
        !has_word(spec_correct_all(x), "definately"@),
        !has_word(spec_correct_all(x), "quik"@),
        !has_word(spec_correct_all(x), "cant"@),
        !has_word(spec_correct_all(x), "teh"@),
        !has_word(spec_correct_all(x), "itmes"@),
{
    lemma_patterns_are_words();
    lemma_replacements_are_words();
    let s0 = x;
    let s1 = spec_replace(s0, "sentance"@, "sentence"@);
    let s2 = spec_replace(s1, "typoos"@, "typos"@);
    let s3 = spec_replace(s2, "typoes"@, "typos"@);
    let s4 = spec_replace(s3, "beleive"@, "believe"@);
    let s5 = spec_replace(s4, "recieve"@, "receive"@);
    let s6 = spec_replace(s5, "seperate"@, "separate"@);
    let s7 = spec_replace(s6, "resturant"@, "restaurant"@);
    let s8 = spec_replace(s7, "degre"@, "degree"@);
    let s9 = spec_replace(s8, "definately"@, "definitely"@);
    let s10 = spec_replace(s9, "quik"@, "quick"@);
    let s11 = spec_replace(s10, "cant"@, "can't"@);
    let s12 = spec_replace(s11, "teh"@, "the"@);
    let s13 = spec_replace(s12, "itmes"@, "items"@);
    assert(spec_correct_all(x) == s13);
    lemma_pattern_absent_in_replacements("sentance"@);
    lemma_pattern_absent_in_replacements("typoos"@);
    lemma_pattern_absent_in_replacements("typoes"@);
    lemma_pattern_absent_in_replacements("beleive"@);
    lemma_pattern_absent_in_replacements("recieve"@);
    lemma_pattern_absent_in_replacements("seperate"@);
    lemma_pattern_absent_in_replacements("resturant"@);
    lemma_pattern_absent_in_replacements("degre"@);
    lemma_pattern_absent_in_replacements("definately"@);
    lemma_pattern_absent_in_replacements("quik"@);
    lemma_pattern_absent_in_replacements("cant"@);
    lemma_pattern_absent_in_replacements("teh"@);
    lemma_pattern_absent_in_replacements("itmes"@);
    lemma_replace_eliminates(s0, "sentance"@, "sentence"@);
    lemma_replace_preserves_absence(s1, "typoos"@, "typos"@, "sentance"@);
    lemma_replace_preserves_absence(s2, "typoes"@, "typos"@, "sentance"@);
    lemma_replace_preserves_absence(s3, "beleive"@, "believe"@, "sentance"@);
    lemma_replace_preserves_absence(s4, "recieve"@, "receive"@, "sentance"@);
    lemma_replace_preserves_absence(s5, "seperate"@, "separate"@, "sentance"@);
    lemma_replace_preserves_absence(s6, "resturant"@, "restaurant"@, "sentance"@);
    lemma_replace_preserves_absence(s7, "degre"@, "degree"@, "sentance"@);
    lemma_replace_preserves_absence(s8, "definately"@, "definitely"@, "sentance"@);
    lemma_replace_preserves_absence(s9, "quik"@, "quick"@, "sentance"@);
    lemma_replace_preserves_absence(s10, "cant"@, "can't"@, "sentance"@);
    lemma_replace_preserves_absence(s11, "teh"@, "the"@, "sentance"@);
    lemma_replace_preserves_absence(s12, "itmes"@, "items"@, "sentance"@);
    lemma_replace_eliminates(s1, "typoos"@, "typos"@);
    lemma_replace_preserves_absence(s2, "typoes"@, "typos"@, "typoos"@);
    lemma_replace_preserves_absence(s3, "beleive"@, "believe"@, "typoos"@);
    lemma_replace_preserves_absence(s4, "recieve"@, "receive"@, "typoos"@);
    lemma_replace_preserves_absence(s5, "seperate"@, "separate"@, "typoos"@);
    lemma_replace_preserves_absence(s6, "resturant"@, "restaurant"@, "typoos"@);
    lemma_replace_preserves_absence(s7, "degre"@, "degree"@, "typoos"@);
    lemma_replace_preserves_absence(s8, "definately"@, "definitely"@, "typoos"@);
    lemma_replace_preserves_absence(s9, "quik"@, "quick"@, "typoos"@);
    lemma_replace_preserves_absence(s10, "cant"@, "can't"@, "typoos"@);
    lemma_replace_preserves_absence(s11, "teh"@, "the"@, "typoos"@);
    lemma_replace_preserves_absence(s12, "itmes"@, "items"@, "typoos"@);
    lemma_replace_eliminates(s2, "typoes"@, "typos"@);
    lemma_replace_preserves_absence(s3, "beleive"@, "believe"@, "typoes"@);
    lemma_replace_preserves_absence(s4, "recieve"@, "receive"@, "typoes"@);
    lemma_replace_preserves_absence(s5, "seperate"@, "separate"@, "typoes"@);
    lemma_replace_preserves_absence(s6, "resturant"@, "restaurant"@, "typoes"@);
    lemma_replace_preserves_absence(s7, "degre"@, "degree"@, "typoes"@);
    lemma_replace_preserves_absence(s8, "definately"@, "definitely"@, "typoes"@);
    lemma_replace_preserves_absence(s9, "quik"@, "quick"@, "typoes"@);
    lemma_replace_preserves_absence(s10, "cant"@, "can't"@, "typoes"@);
    lemma_replace_preserves_absence(s11, "teh"@, "the"@, "typoes"@);
    lemma_replace_preserves_absence(s12, "itmes"@, "items"@, "typoes"@);
    lemma_replace_eliminates(s3, "beleive"@, "believe"@);
    lemma_replace_preserves_absence(s4, "recieve"@, "receive"@, "beleive"@);
    lemma_replace_preserves_absence(s5, "seperate"@, "separate"@, "beleive"@);
    lemma_replace_preserves_absence(s6, "resturant"@, "restaurant"@, "beleive"@);
    lemma_replace_preserves_absence(s7, "degre"@, "degree"@, "beleive"@);
    lemma_replace_preserves_absence(s8, "definately"@, "definitely"@, "beleive"@);
    lemma_replace_preserves_absence(s9, "quik"@, "quick"@, "beleive"@);
    lemma_replace_preserves_absence(s10, "cant"@, "can't"@, "beleive"@);
    lemma_replace_preserves_absence(s11, "teh"@, "the"@, "beleive"@);
    lemma_replace_preserves_absence(s12, "itmes"@, "items"@, "beleive"@);
    lemma_replace_eliminates(s4, "recieve"@, "receive"@);
    lemma_replace_preserves_absence(s5, "seperate"@, "separate"@, "recieve"@);
    lemma_replace_preserves_absence(s6, "resturant"@, "restaurant"@, "recieve"@);
    lemma_replace_preserves_absence(s7, "degre"@, "degree"@, "recieve"@);
    lemma_replace_preserves_absence(s8, "definately"@, "definitely"@, "recieve"@);
    lemma_replace_preserves_absence(s9, "quik"@, "quick"@, "recieve"@);
    lemma_replace_preserves_absence(s10, "cant"@, "can't"@, "recieve"@);
    lemma_replace_preserves_absence(s11, "teh"@, "the"@, "recieve"@);
    lemma_replace_preserves_absence(s12, "itmes"@, "items"@, "recieve"@);
    lemma_replace_eliminates(s5, "seperate"@, "separate"@);
    lemma_replace_preserves_absence(s6, "resturant"@, "restaurant"@, "seperate"@);
    lemma_replace_preserves_absence(s7, "degre"@, "degree"@, "seperate"@);
    lemma_replace_preserves_absence(s8, "definately"@, "definitely"@, "seperate"@);
    lemma_replace_preserves_absence(s9, "quik"@, "quick"@, "seperate"@);
    lemma_replace_preserves_absence(s10, "cant"@, "can't"@, "seperate"@);
    lemma_replace_preserves_absence(s11, "teh"@, "the"@, "seperate"@);
    lemma_replace_preserves_absence(s12, "itmes"@, "items"@, "seperate"@);
    lemma_replace_eliminates(s6, "resturant"@, "restaurant"@);
    lemma_replace_preserves_absence(s7, "degre"@, "degree"@, "resturant"@);
    lemma_replace_preserves_absence(s8, "definately"@, "definitely"@, "resturant"@);
    lemma_replace_preserves_absence(s9, "quik"@, "quick"@, "resturant"@);
    lemma_replace_preserves_absence(s10, "cant"@, "can't"@, "resturant"@);
    lemma_replace_preserves_absence(s11, "teh"@, "the"@, "resturant"@);
    lemma_replace_preserves_absence(s12, "itmes"@, "items"@, "resturant"@);
    lemma_replace_eliminates(s7, "degre"@, "degree"@);
    lemma_replace_preserves_absence(s8, "definately"@, "definitely"@, "degre"@);
    lemma_replace_preserves_absence(s9, "quik"@, "quick"@, "degre"@);
    lemma_replace_preserves_absence(s10, "cant"@, "can't"@, "degre"@);
    lemma_replace_preserves_absence(s11, "teh"@, "the"@, "degre"@);
    lemma_replace_preserves_absence(s12, "itmes"@, "items"@, "degre"@);
    lemma_replace_eliminates(s8, "definately"@, "definitely"@);
    lemma_replace_preserves_absence(s9, "quik"@, "quick"@, "definately"@);
    lemma_replace_preserves_absence(s10, "cant"@, "can't"@, "definately"@);
    lemma_replace_preserves_absence(s11, "teh"@, "the"@, "definately"@);
    lemma_replace_preserves_absence(s12, "itmes"@, "items"@, "definately"@);
    lemma_replace_eliminates(s9, "quik"@, "quick"@);
    lemma_replace_preserves_absence(s10, "cant"@, "can't"@, "quik"@);
    lemma_replace_preserves_absence(s11, "teh"@, "the"@, "quik"@);
    lemma_replace_preserves_absence(s12, "itmes"@, "items"@, "quik"@);
    lemma_replace_eliminates(s10, "cant"@, "can't"@);
    lemma_replace_preserves_absence(s11, "teh"@, "the"@, "cant"@);
    lemma_replace_preserves_absence(s12, "itmes"@, "items"@, "cant"@);
    lemma_replace_eliminates(s11, "teh"@, "the"@);
    lemma_replace_preserves_absence(s12, "itmes"@, "items"@, "teh"@);
    lemma_replace_eliminates(s12, "itmes"@, "items"@);
}
/// A word that occurs nowhere in `s` leaves the scan from `i` a plain copy.
proof fn lemma_replace_absent_from(s: Seq<char>, w: Seq<char>, r: Seq<char>, i: int)
    requires
        0 <= i <= s.len(),
        forall|k: int| !word_at(s, w, k),
    ensures
        spec_replace_from(s, w, r, i) == s.subrange(i, s.len() as int),
    decreases s.len() - i,
{
    if i >= s.len() {
        assert(s.subrange(i, s.len() as int) =~= Seq::<char>::empty());
    } else {
        lemma_replace_absent_from(s, w, r, i + 1);
        assert(seq![s[i]] + s.subrange(i + 1, s.len() as int) =~= s.subrange(i, s.len() as int));
    }
}

/// A word that occurs nowhere in `s` is not replaced: the text is unchanged.
pub proof fn lemma_replace_absent(s: Seq<char>, w: Seq<char>, r: Seq<char>)
    requires
        !has_word(s, w),
    ensures
        spec_replace(s, w, r) == s,
{
    assert(forall|k: int| !word_at(s, w, k));
    lemma_replace_absent_from(s, w, r, 0);
    assert(s.subrange(0, s.len() as int) =~= s);
}

/// Whole-word boundaries protect unrelated words: a text in which none of
/// the table's misspellings occurs as a whole word passes the correction
/// table unchanged.
pub proof fn lemma_correct_all_absent(s: Seq<char>)
    requires
        !has_word(s, "sentance"@),
        !has_word(s, "typoos"@),
        !has_word(s, "typoes"@),
        !has_word(s, "beleive"@),
        !has_word(s, "recieve"@),
        !has_word(s, "seperate"@),
        !has_word(s, "resturant"@),
        !has_word(s, "degre"@),
        !has_word(s, "definately"@),
        !has_word(s, "quik"@),
        !has_word(s, "cant"@),
        !has_word(s, "teh"@),
        !has_word(s, "itmes"@),
    ensures
        spec_correct_all(s) == s,
{
    lemma_replace_absent(s, "sentance"@, "sentence"@);
    lemma_replace_absent(s, "typoos"@, "typos"@);
    lemma_replace_absent(s, "typoes"@, "typos"@);
    lemma_replace_absent(s, "beleive"@, "believe"@);
    lemma_replace_absent(s, "recieve"@, "receive"@);
    lemma_replace_absent(s, "seperate"@, "separate"@);
    lemma_replace_absent(s, "resturant"@, "restaurant"@);
    lemma_replace_absent(s, "degre"@, "degree"@);
    lemma_replace_absent(s, "definately"@, "definitely"@);
    lemma_replace_absent(s, "quik"@, "quick"@);
    lemma_replace_absent(s, "cant"@, "can't"@);
    lemma_replace_absent(s, "teh"@, "the"@);
    lemma_replace_absent(s, "itmes"@, "items"@);
}

/// The sanitizer's result is always a trimmed string.
pub proof fn lemma_sanitize_trimmed(s: Seq<char>)
    ensures
        spec_trim(spec_sanitize(s)) == spec_sanitize(s),
{
    lemma_trim_idempotent(spec_correct_all(spec_paren_cut(spec_unquote(spec_trim(s)))));
}

/// The correction table is stable: running it again over its own (trimmed)
/// output changes nothing, because no rule's replacement and no replaced
/// span's border can reintroduce a misspelling.
pub proof fn lemma_corrections_stable(x: Seq<char>)
    ensures
        spec_correct_all(spec_trim(spec_correct_all(x))) == spec_trim(spec_correct_all(x)),
{
    let u = spec_correct_all(x);
    lemma_patterns_are_words();
    lemma_correct_all_no_misspellings(x);
    lemma_trim_preserves_absence(u, "sentance"@);
    lemma_trim_preserves_absence(u, "typoos"@);
    lemma_trim_preserves_absence(u, "typoes"@);
    lemma_trim_preserves_absence(u, "beleive"@);
    lemma_trim_preserves_absence(u, "recieve"@);
    lemma_trim_preserves_absence(u, "seperate"@);
    lemma_trim_preserves_absence(u, "resturant"@);
    lemma_trim_preserves_absence(u, "degre"@);
    lemma_trim_preserves_absence(u, "definately"@);
    lemma_trim_preserves_absence(u, "quik"@);
    lemma_trim_preserves_absence(u, "cant"@);
    lemma_trim_preserves_absence(u, "teh"@);
    lemma_trim_preserves_absence(u, "itmes"@);
    lemma_correct_all_absent(spec_trim(u));
}

/// Sanitizing is idempotent on every input whose sanitized form is not
/// quote-wrapped and keeps no late parenthesis. (On other inputs a second
/// pass can strip or cut further: sanitizing `""a""` gives `"a"`, which a
/// second pass reduces to `a`; and a correction that lengthens a word can
/// push a parenthesis past the cut-off, as in `cant abc(x`.) The correction
/// table itself never disturbs idempotence: by
/// [`lemma_corrections_stable`], a second run of it changes nothing.
pub proof fn lemma_sanitize_idempotent(s: Seq<char>)
    requires
        !quote_wrapped(spec_sanitize(s)),
        spec_paren_cut(spec_sanitize(s)) == spec_sanitize(s),
    ensures
        spec_sanitize(spec_sanitize(s)) == spec_sanitize(s),
{
    let p = spec_paren_cut(spec_unquote(spec_trim(s)));
    let t = spec_sanitize(s);
    lemma_trim_idempotent(spec_correct_all(p));
    assert(spec_trim(t) == t);
    assert(spec_unquote(t) == t);
    lemma_corrections_stable(p);
    assert(spec_correct_all(t) == t);
    assert(spec_sanitize(t) == spec_trim(spec_correct_all(spec_paren_cut(spec_unquote(
        spec_trim(t),
    )))));
    assert(spec_sanitize(t) == spec_trim(t));
}

} // verus!
