//! Output extraction: take the raw text an engine generated and isolate the
//! single corrected line, stripping stop markers, echoed prompt scaffolding
//! and example bleed-through.

use vstd::prelude::*;
use crate::chars::{
    contains_sub, find_from, lemma_find_from_props, match_at, spec_find, spec_trim, starts_with,
    find_sub, starts_with_str, trim_str, str_eq,
};
use crate::error::FixError;

verus! {

/// The end-of-sequence marker the model emits when it considers generation
/// complete.
pub open spec fn eos_marker() -> Seq<char> {
    "<|endoftext|>"@
}

/// A second generated `Input:` turn, opening on a fresh line.
pub open spec fn nl_input_label() -> Seq<char> {
    "\nInput:"@
}

/// A second generated `Output:` turn, opening on a fresh line.
pub open spec fn nl_output_label() -> Seq<char> {
    "\nOutput:"@
}

/// The bare `Input:` prefix the engine sometimes puts before the content.
pub open spec fn bare_input_label() -> Seq<char> {
    "Input:"@
}

/// The bare `Output:` prefix of an echoed prompt line.
pub open spec fn bare_output_label() -> Seq<char> {
    "Output:"@
}

/// The opening of an echoed instruction line.
pub open spec fn fix_typos_label() -> Seq<char> {
    "Fix typos"@
}

/// The corrected sentences of the fixed default examples; a generated line
/// exactly reproducing one of them is prompt bleed-through, not content.
pub open spec fn is_example_sentence(t: Seq<char>) -> bool {
    t == "I believe this is the answer."@ || t == "She received her degree yesterday."@ || t
        == "The restaurant serves good food."@
}

/// `s` cut just before the first occurrence of `pat`, or whole if none.
pub open spec fn truncate_at(s: Seq<char>, pat: Seq<char>) -> Seq<char> {
    match spec_find(s, pat) {
        Some(i) => s.subrange(0, i),
        None => s,
    }
}

/// The raw output after the three truncations: at the end-of-sequence marker,
/// then at a fresh `Input:` turn, then at a fresh `Output:` turn.
pub open spec fn spec_cleaned(raw: Seq<char>) -> Seq<char> {
    truncate_at(truncate_at(truncate_at(raw, eos_marker()), nl_input_label()), nl_output_label())
}

/// Index of the first newline at or after `i`, or the length if none.
pub open spec fn line_break(s: Seq<char>, i: int) -> int
    decreases s.len() - i,
{
    if i < 0 || i >= s.len() {
        s.len() as int
    } else if s[i] == '\n' {
        i
    } else {
        line_break(s, i + 1)
    }
}

/// A line cut at a newline, as `str::lines` yields it: a carriage return
/// standing right before the newline is dropped too.
pub open spec fn strip_cr(l: Seq<char>) -> Seq<char> {
    if l.len() > 0 && l[l.len() - 1] == '\r' {
        l.subrange(0, l.len() - 1)
    } else {
        l
    }
}

/// The lines of `s`, as `str::lines` splits them: split at each newline,
/// a carriage return before a newline dropped, and a final line without
/// line ending kept as it stands.
pub open spec fn spec_lines(s: Seq<char>) -> Seq<Seq<char>>
    decreases s.len(),
{
    if s.len() == 0 {
        Seq::empty()
    } else {
        let i = line_break(s, 0);
        if 0 <= i < s.len() {
            seq![strip_cr(s.subrange(0, i))] + spec_lines(s.subrange(i + 1, s.len() as int))
        } else {
            seq![s]
        }
    }
}

/// A line the scan passes over: blank, echoed `Output:` or instruction lines,
/// and exact reproductions of the fixed example sentences.
pub open spec fn skip_line(l: Seq<char>) -> bool {
    let t = spec_trim(l);
    t.len() == 0 || starts_with(t, bare_output_label()) || starts_with(t, fix_typos_label())
        || is_example_sentence(t)
}

/// What a kept line yields: its trimmed text, with a leading `Input:` label
/// stripped when something non-empty follows it.
pub open spec fn line_result(t: Seq<char>) -> Seq<char> {
    if starts_with(t, bare_input_label()) && spec_trim(
        t.subrange(6, t.len() as int),
    ).len() > 0 {
        spec_trim(t.subrange(6, t.len() as int))
    } else {
        t
    }
}

/// The trimmed text of the first line the scan keeps, if any.
pub open spec fn first_kept(ls: Seq<Seq<char>>) -> Option<Seq<char>>
    decreases ls.len(),
{
    if ls.len() == 0 {
        None
    } else if !skip_line(ls[0]) {
        Some(spec_trim(ls[0]))
    } else {
        first_kept(ls.drop_first())
    }
}

/// The whole extraction: what `extract_correction` returns, or `None` when
/// nothing usable remains after cleaning.
pub open spec fn spec_extract(raw: Seq<char>) -> Option<Seq<char>> {
    let c = spec_cleaned(raw);
    let t = spec_trim(c);
    if starts_with(t, bare_input_label()) && spec_trim(t.subrange(6, t.len() as int)).len() > 0 {
        Some(spec_trim(t.subrange(6, t.len() as int)))
    } else {
        match first_kept(spec_lines(c)) {
            Some(lt) => Some(line_result(lt)),
            None => if t.len() > 0 {
                Some(t)
            } else {
                None
            },
        }
    }
}

/// Stop-at-end-of-sequence: whatever follows the first end-of-sequence
/// marker, extraction sees only what stands before it. Repeated generations
/// separated by markers therefore cannot corrupt the result.
/// The characters of the end-of-sequence marker: its first character recurs
/// nowhere in it, so no occurrence can straddle the seam where the marker is
/// appended to marker-free text.
proof fn lemma_eos_chars()
    ensures
        eos_marker().len() == 13,
        forall|d: int| 1 <= d < 13 ==> #[trigger] eos_marker()[d] != eos_marker()[0],
{
    reveal_strlit("<|endoftext|>");
    let m = eos_marker();
    assert(m.len() == 13);
    assert forall|d: int| 1 <= d < 13 implies #[trigger] m[d] != m[0] by {
        assert(m[0] == '<');
        if d == 1 {
            assert(m[1] == '|');
        } else if d == 2 {
            assert(m[2] == 'e');
        } else if d == 3 {
            assert(m[3] == 'n');
        } else if d == 4 {
            assert(m[4] == 'd');
        } else if d == 5 {
            assert(m[5] == 'o');
        } else if d == 6 {
            assert(m[6] == 'f');
        } else if d == 7 {
            assert(m[7] == 't');
        } else if d == 8 {
            assert(m[8] == 'e');
        } else if d == 9 {
            assert(m[9] == 'x');
        } else if d == 10 {
            assert(m[10] == 't');
        } else if d == 11 {
            assert(m[11] == '|');
        } else {
            assert(m[12] == '>');
        }
    }
}

/// Stop-at-end-of-sequence: whatever follows the first end-of-sequence
/// marker, extraction sees only what stands before it. Repeated generations
/// separated by markers therefore cannot corrupt the result.
pub proof fn lemma_stop_at_eos(a: Seq<char>, b: Seq<char>)
    requires
        !contains_sub(a, eos_marker()),
    ensures
        spec_extract(a + eos_marker() + b) == spec_extract(a),
{
    let m = eos_marker();
    let s = a + m + b;
    let al = a.len() as int;
    lemma_eos_chars();
    assert(match_at(s, m, al)) by {
        assert(s.subrange(al, al + 13) =~= m);
    }
    assert forall|k: int| 0 <= k < al implies !match_at(s, m, k) by {
        if match_at(s, m, k) {
            if k + 13 <= al {
                assert(match_at(a, m, k)) by {
                    assert(a.subrange(k, k + 13) =~= s.subrange(k, k + 13));
                }
                assert(contains_sub(a, m));
            } else {
                let d = al - k;
                assert(0 < d < 13);
                assert(m[d] == m[0]) by {
                    assert(s.subrange(k, k + 13) == m);
                    assert(s.subrange(k, k + 13)[d] == s[al]);
                    assert(s[al] == m[0]);
                }
            }
        }
    }
    crate::chars::lemma_find_first(s, m, al);
    assert(truncate_at(s, m) =~= a);
    crate::chars::lemma_find_none(a, m);
    assert(truncate_at(a, m) == a);
    assert(spec_cleaned(s) == spec_cleaned(a));
}

/// Truncating at a pattern leaves no occurrence of it.
proof fn lemma_truncate_no_pat(s: Seq<char>, pat: Seq<char>)
    requires
        pat.len() > 0,
    ensures
        !contains_sub(truncate_at(s, pat), pat),
{
    lemma_find_from_props(s, pat, 0);
    match spec_find(s, pat) {
        Some(i) => {
            let c = s.subrange(0, i);
            assert forall|k: int| !match_at(c, pat, k) by {
                if match_at(c, pat, k) {
                    assert(s.subrange(k, k + pat.len() as int) =~= c.subrange(
                        k,
                        k + pat.len() as int,
                    ));
                    assert(match_at(s, pat, k));
                }
            }
        },
        None => {
            assert forall|k: int| !match_at(s, pat, k) by {}
        },
    }
}

/// What remains after truncating is a span of the original.
proof fn lemma_truncate_sub_of(s: Seq<char>, pat: Seq<char>)
    ensures
        crate::chars::sub_of(truncate_at(s, pat), s),
{
    lemma_find_from_props(s, pat, 0);
    match spec_find(s, pat) {
        Some(i) => {
            crate::chars::lemma_subrange_sub_of(s, 0, i);
        },
        None => {
            crate::chars::lemma_sub_of_refl(s);
        },
    }
}

/// The cleaned output holds no end-of-sequence marker and no fresh `Input:`
/// or `Output:` turn.
proof fn lemma_cleaned_free_of_markers(raw: Seq<char>)
    ensures
        !contains_sub(spec_cleaned(raw), eos_marker()),
        !contains_sub(spec_cleaned(raw), nl_input_label()),
        !contains_sub(spec_cleaned(raw), nl_output_label()),
{
    reveal_strlit("<|endoftext|>");
    reveal_strlit("\nInput:");
    reveal_strlit("\nOutput:");
    let c1 = truncate_at(raw, eos_marker());
    let c2 = truncate_at(c1, nl_input_label());
    let c3 = truncate_at(c2, nl_output_label());
    lemma_truncate_no_pat(raw, eos_marker());
    lemma_truncate_no_pat(c1, nl_input_label());
    lemma_truncate_no_pat(c2, nl_output_label());
    lemma_truncate_sub_of(c1, nl_input_label());
    lemma_truncate_sub_of(c2, nl_output_label());
    crate::chars::lemma_no_occurrence_in_sub(c1, c2, eos_marker());
    crate::chars::lemma_no_occurrence_in_sub(c2, c3, eos_marker());
    crate::chars::lemma_no_occurrence_in_sub(c2, c3, nl_input_label());
}

/// Every line of `s` is a span of `s`.
proof fn lemma_line_sub_of(s: Seq<char>, i: int)
    requires
        0 <= i < spec_lines(s).len(),
    ensures
        crate::chars::sub_of(spec_lines(s)[i], s),
    decreases s.len(),
{
    let lb = line_break(s, 0);
    lemma_line_break_bounds(s, 0);
    if 0 <= lb < s.len() {
        let head = strip_cr(s.subrange(0, lb));
        let tail = s.subrange(lb + 1, s.len() as int);
        if i == 0 {
            if s.subrange(0, lb).len() > 0 && s.subrange(0, lb)[lb - 1] == '\r' {
                assert(head =~= s.subrange(0, lb - 1));
                crate::chars::lemma_subrange_sub_of(s, 0, lb - 1);
            } else {
                crate::chars::lemma_subrange_sub_of(s, 0, lb);
            }
        } else {
            lemma_line_sub_of(tail, i - 1);
            crate::chars::lemma_subrange_sub_of(s, lb + 1, s.len() as int);
            crate::chars::lemma_sub_of_trans(spec_lines(s)[i], tail, s);
        }
    } else {
        crate::chars::lemma_sub_of_refl(s);
    }
}

/// `line_break` stays within the string's bounds.
proof fn lemma_line_break_bounds(s: Seq<char>, i: int)
    requires
        0 <= i <= s.len(),
    ensures
        i <= line_break(s, i) <= s.len(),
    decreases s.len() - i,
{
    if i < s.len() && s[i] != '\n' {
        lemma_line_break_bounds(s, i + 1);
    }
}

/// The line the scan keeps is the trim of some line of the list.
proof fn lemma_first_kept_from_line(ls: Seq<Seq<char>>)
    requires
        first_kept(ls) is Some,
    ensures
        exists|i: int|
            0 <= i < ls.len() && first_kept(ls) == Some(spec_trim(#[trigger] ls[i])),
    decreases ls.len(),
{
    if ls.len() > 0 && skip_line(ls[0]) {
        lemma_first_kept_from_line(ls.drop_first());
        let j = choose|j: int|
            0 <= j < ls.drop_first().len() && first_kept(ls.drop_first()) == Some(
                spec_trim(#[trigger] ls.drop_first()[j]),
            );
        assert(ls[j + 1] == ls.drop_first()[j]);
    }
}

/// The corrected text the extractor returns carries none of the markers the
/// cleaning stage cuts at: no end-of-sequence marker, no fresh `Input:`
/// turn, no fresh `Output:` turn. Repetition and echoed turns in the raw
/// output can therefore never leak into the result.
pub proof fn lemma_extract_free_of_markers(raw: Seq<char>, t: Seq<char>)
    requires
        spec_extract(raw) == Some(t),
    ensures
        !contains_sub(t, eos_marker()),
        !contains_sub(t, nl_input_label()),
        !contains_sub(t, nl_output_label()),
{
    let c = spec_cleaned(raw);
    lemma_cleaned_free_of_markers(raw);
    let tc = spec_trim(c);
    crate::chars::lemma_trim_sub_of(c);
    assert(crate::chars::sub_of(t, c)) by {
        if starts_with(tc, bare_input_label()) && spec_trim(
            tc.subrange(6, tc.len() as int),
        ).len() > 0 {
            reveal_strlit("Input:");
            crate::chars::lemma_trim_sub_of(tc.subrange(6, tc.len() as int));
            crate::chars::lemma_subrange_sub_of(tc, 6, tc.len() as int);
            crate::chars::lemma_sub_of_trans(t, tc.subrange(6, tc.len() as int), tc);
            crate::chars::lemma_sub_of_trans(t, tc, c);
        } else {
            match first_kept(spec_lines(c)) {
                Some(lt) => {
                    lemma_first_kept_from_line(spec_lines(c));
                    let i = choose|i: int|
                        0 <= i < spec_lines(c).len() && first_kept(spec_lines(c)) == Some(
                            spec_trim(#[trigger] spec_lines(c)[i]),
                        );
                    let l = spec_lines(c)[i];
                    lemma_line_sub_of(c, i);
                    crate::chars::lemma_trim_sub_of(l);
                    crate::chars::lemma_sub_of_trans(lt, l, c);
                    if starts_with(lt, bare_input_label()) && spec_trim(
                        lt.subrange(6, lt.len() as int),
                    ).len() > 0 {
                        reveal_strlit("Input:");
                        crate::chars::lemma_trim_sub_of(lt.subrange(6, lt.len() as int));
                        crate::chars::lemma_subrange_sub_of(lt, 6, lt.len() as int);
                        crate::chars::lemma_sub_of_trans(t, lt.subrange(6, lt.len() as int), lt);
                        crate::chars::lemma_sub_of_trans(t, lt, c);
                    } else {
                        assert(t == lt);
                    }
                },
                None => {
                    assert(t == tc);
                },
            }
        }
    }
    crate::chars::lemma_no_occurrence_in_sub(c, t, eos_marker());
    crate::chars::lemma_no_occurrence_in_sub(c, t, nl_input_label());
    crate::chars::lemma_no_occurrence_in_sub(c, t, nl_output_label());
}

/// A successful extraction is never the empty string: emptiness is exactly
/// the `EmptyOutput` failure.
pub proof fn lemma_extract_nonempty(raw: Seq<char>, t: Seq<char>)
    requires
        spec_extract(raw) == Some(t),
    ensures
        t.len() > 0,
{
    let c = spec_cleaned(raw);
    let tc = spec_trim(c);
    if !(starts_with(tc, bare_input_label()) && spec_trim(
        tc.subrange(6, tc.len() as int),
    ).len() > 0) {
        if first_kept(spec_lines(c)) is Some {
            lemma_first_kept_not_skipped(spec_lines(c));
        }
    }
}

/// The line the scan keeps is no line it skips.
proof fn lemma_first_kept_not_skipped(ls: Seq<Seq<char>>)
    requires
        first_kept(ls) is Some,
    ensures
        exists|i: int|
            0 <= i < ls.len() && !skip_line(#[trigger] ls[i]) && first_kept(ls) == Some(
                spec_trim(ls[i]),
            ),
    decreases ls.len(),
{
    if ls.len() > 0 && skip_line(ls[0]) {
        lemma_first_kept_not_skipped(ls.drop_first());
        let j = choose|j: int|
            0 <= j < ls.drop_first().len() && !skip_line(#[trigger] ls.drop_first()[j])
                && first_kept(ls.drop_first()) == Some(spec_trim(ls.drop_first()[j]));
        assert(ls[j + 1] == ls.drop_first()[j]);
    }
}

/// A successful extraction is a trimmed string: no white space on either
/// side ever reaches the caller.
pub proof fn lemma_extract_trimmed(raw: Seq<char>, t: Seq<char>)
    requires
        spec_extract(raw) == Some(t),
    ensures
        spec_trim(t) == t,
{
    let c = spec_cleaned(raw);
    let tc = spec_trim(c);
    crate::chars::lemma_trim_idempotent(c);
    if starts_with(tc, bare_input_label()) && spec_trim(
        tc.subrange(6, tc.len() as int),
    ).len() > 0 {
        crate::chars::lemma_trim_idempotent(tc.subrange(6, tc.len() as int));
    } else {
        match first_kept(spec_lines(c)) {
            Some(lt) => {
                lemma_first_kept_from_line(spec_lines(c));
                let i = choose|i: int|
                    0 <= i < spec_lines(c).len() && first_kept(spec_lines(c)) == Some(
                        spec_trim(#[trigger] spec_lines(c)[i]),
                    );
                crate::chars::lemma_trim_idempotent(spec_lines(c)[i]);
                if starts_with(lt, bare_input_label()) && spec_trim(
                    lt.subrange(6, lt.len() as int),
                ).len() > 0 {
                    crate::chars::lemma_trim_idempotent(lt.subrange(6, lt.len() as int));
                }
            },
            None => {
            },
        }
    }
}

/// `line_break` is where the first newline stands, in `find_from` terms.
proof fn lemma_line_break_find(s: Seq<char>, i: int)
    requires
        0 <= i <= s.len(),
    ensures
        match find_from(s, seq!['\n'], i) {
            Some(j) => line_break(s, i) == j,
            None => line_break(s, i) == s.len(),
        },
    decreases s.len() - i,
{
    let nl = seq!['\n'];
    if i < s.len() {
        assert(s.subrange(i, i + 1) =~= seq![s[i]]);
        if s[i] == '\n' {
            assert(s.subrange(i, i + 1) =~= nl);
            assert(match_at(s, nl, i));
        } else {
            assert(s.subrange(i, i + 1)[0] == s[i]);
            assert(!match_at(s, nl, i));
            lemma_line_break_find(s, i + 1);
        }
    }
}

/// Truncate a string slice just before the first occurrence of `pat`.
fn truncate_at_str<'a>(s: &'a str, pat: &str) -> (r: &'a str)
    ensures
        r@ == truncate_at(s@, pat@),
{
    match find_sub(s, pat) {
        Some(i) => {
            proof {
                lemma_find_from_props(s@, pat@, 0);
            }
            s.substring_char(0, i)
        },
        None => s,
    }
}

/// Whether the trimmed line `t` is one the scan passes over; equals
/// [`skip_line`] applied to any line whose trim is `t`.
fn skip_trimmed(t: &str) -> (b: bool)
    ensures
        b == (t@.len() == 0 || starts_with(t@, bare_output_label()) || starts_with(
            t@,
            fix_typos_label(),
        ) || is_example_sentence(t@)),
{
    t.is_empty() || starts_with_str(t, "Output:") || starts_with_str(t, "Fix typos") || str_eq(
        t,
        "I believe this is the answer.",
    ) || str_eq(t, "She received her degree yesterday.") || str_eq(
        t,
        "The restaurant serves good food.",
    )
}

/// Split the first line off a non-empty string: the line as `str::lines`
/// yields it, and everything after its line break.
pub fn split_first_line<'a>(rest: &'a str) -> (r: (&'a str, &'a str))
    requires
        rest@.len() > 0,
    ensures
        spec_lines(rest@) == seq![r.0@] + spec_lines(r.1@),
        r.0@ == spec_lines(rest@)[0],
        r.1@.len() < rest@.len(),
{
    let n_r = rest.unicode_len();
    proof {
        reveal_strlit("\n");
        assert("\n"@ =~= seq!['\n']);
        lemma_line_break_find(rest@, 0);
    }
    let ghost lb = line_break(rest@, 0);
    match find_sub(rest, "\n") {
        Some(i) => {
            proof {
                lemma_find_from_props(rest@, "\n"@, 0);
            }
            let line = rest.substring_char(0, i);
            let next = rest.substring_char(i + 1, n_r);
            let ghost full_line = line@;
            proof {
                assert(spec_lines(rest@) == seq![strip_cr(rest@.subrange(0, lb))] + spec_lines(
                    rest@.subrange(lb + 1, rest@.len() as int),
                ));
                assert(full_line == rest@.subrange(0, lb));
                assert(next@ == rest@.subrange(lb + 1, rest@.len() as int));
                assert(spec_lines(rest@)[0] == strip_cr(full_line));
            }
            let n_l = line.unicode_len();
            let line2: &str = if n_l > 0 && line.get_char(n_l - 1) == '\r' {
                line.substring_char(0, n_l - 1)
            } else {
                line
            };
            proof {
                assert(line2@ == strip_cr(full_line));
            }
            (line2, next)
        },
        None => {
            let next = rest.substring_char(n_r, n_r);
            proof {
                assert(lb == rest@.len());
                assert(spec_lines(rest@) == seq![rest@]);
                assert(next@ =~= Seq::<char>::empty());
                assert(spec_lines(next@) =~= Seq::<Seq<char>>::empty());
                assert(seq![rest@] =~= seq![rest@] + spec_lines(next@));
            }
            (rest, next)
        },
    }
}

/// Extract the corrected text from the model's raw output.
///
/// Follows the ordered stages: truncate at the end-of-sequence marker, then
/// at a fresh `Input:` or `Output:` turn; if the trimmed remainder carries a
/// bare `Input:` label with content, that content is the answer; otherwise
/// the first line that is neither blank, nor echoed scaffolding, nor an
/// example sentence; otherwise the whole trimmed remainder; and if even that
/// is empty, the output was unusable.
pub fn extract_correction(raw: &str) -> (r: Result<String, FixError>)
    ensures
        match spec_extract(raw@) {
            Some(t) => r matches Ok(s) && s@ == t,
            None => r matches Err(e) && e is EmptyOutput,
        },
{
    let c1 = truncate_at_str(raw, "<|endoftext|>");
    let c2 = truncate_at_str(c1, "\nInput:");
    let c3 = truncate_at_str(c2, "\nOutput:");
    proof {
        assert(c3@ == spec_cleaned(raw@));
    }
    let t0 = trim_str(c3);
    if starts_with_str(t0.as_str(), "Input:") {
        let n0 = t0.as_str().unicode_len();
        proof {
            reveal_strlit("Input:");
            assert(n0 >= 6);
        }
        let stripped = trim_str(t0.as_str().substring_char(6, n0));
        if !stripped.as_str().is_empty() {
            return Ok(stripped);
        }
    }
    let ghost top_taken = starts_with(t0@, bare_input_label()) && spec_trim(
        t0@.subrange(6, t0@.len() as int),
    ).len() > 0;
    assert(!top_taken);
    let mut rest: &str = c3;
    while !rest.is_empty()
        invariant
            c3@ == spec_cleaned(raw@),
            t0@ == spec_trim(c3@),
            !(starts_with(t0@, bare_input_label()) && spec_trim(
                t0@.subrange(6, t0@.len() as int),
            ).len() > 0),
            first_kept(spec_lines(c3@)) == first_kept(spec_lines(rest@)),
        decreases rest@.len(),
    {
        let (line2, next) = split_first_line(rest);
        let t = trim_str(line2);
        if !skip_trimmed(t.as_str()) {
            proof {
                let l0 = spec_lines(rest@)[0];
                assert(!skip_line(l0));
                assert(first_kept(spec_lines(rest@)) == Some(spec_trim(l0)));
                assert(t@ == spec_trim(l0));
            }
            if starts_with_str(t.as_str(), "Input:") {
                let n_t = t.as_str().unicode_len();
                proof {
                    reveal_strlit("Input:");
                    assert(n_t >= 6);
                }
                let stripped = trim_str(t.as_str().substring_char(6, n_t));
                if !stripped.as_str().is_empty() {
                    return Ok(stripped);
                }
            }
            return Ok(t);
        }
        proof {
            let l0 = spec_lines(rest@)[0];
            assert(skip_line(l0));
            assert(spec_lines(rest@).drop_first() =~= spec_lines(next@));
            assert(first_kept(spec_lines(rest@)) == first_kept(spec_lines(next@)));
        }
        rest = next;
    }
    proof {
        assert(spec_lines(rest@) =~= Seq::<Seq<char>>::empty());
        assert(first_kept(spec_lines(c3@)) is None);
    }
    if !t0.as_str().is_empty() {
        Ok(t0)
    } else {
        Err(FixError::EmptyOutput)
    }
}

} // verus!
