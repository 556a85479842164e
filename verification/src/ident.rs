use vstd::prelude::*;

use crate::text::is_ws;
use crate::text::push_char;
use crate::text::ws_char;

verus! {

/// Index of the first ')' at or after position `k`, or `s.len()` if there
/// is none.
pub open spec fn first_close_from(s: Seq<char>, k: int) -> int
    decreases s.len() - k,
{
    if k >= s.len() {
        s.len() as int
    } else if 0 <= k && s[k] == ')' {
        k
    } else {
        first_close_from(s, k + 1)
    }
}

proof fn lemma_first_close_from(s: Seq<char>, k: int)
    ensures
        first_close_from(s, k) <= s.len(),
        first_close_from(s, k) < s.len() ==> k <= first_close_from(s, k) && s[first_close_from(
            s,
            k,
        )] == ')',
        forall|q: int| k <= q < first_close_from(s, k) && 0 <= q ==> s[q] != ')',
    decreases s.len() - k,
{
    if k >= s.len() {
    } else if 0 <= k && s[k] == ')' {
    } else {
        lemma_first_close_from(s, k + 1);
    }
}

/// There is still a parenthesized group at or after `i`: a '(' with a ')'
/// at least two places further on.
pub open spec fn has_paren_group_from(s: Seq<char>, i: int) -> bool {
    exists|p: int, q: int| i <= p && 0 <= p && p + 2 <= q < s.len() && s[p] == '(' && s[q] == ')'
}

/// The text from position `i` on with every parenthesized group removed.
/// A '(' opens a group only if a ')' follows with at least one character
/// between them, and the group runs to the nearest such ')'; scanning
/// resumes after it.
pub open spec fn strip_parens_from(s: Seq<char>, i: int) -> Seq<char>
    decreases s.len() - i,
    when 0 <= i
    via strip_parens_decreases
{
    if i >= s.len() {
        Seq::empty()
    } else if s[i] == '(' && first_close_from(s, i + 2) < s.len() {
        strip_parens_from(s, first_close_from(s, i + 2) + 1)
    } else {
        seq![s[i]] + strip_parens_from(s, i + 1)
    }
}

#[via_fn]
proof fn strip_parens_decreases(s: Seq<char>, i: int) {
    lemma_first_close_from(s, i + 2);
}

/// The text from position `i` on with each '&' written out as "And".
pub open spec fn amp_expand_from(s: Seq<char>, i: int) -> Seq<char>
    decreases s.len() - i,
{
    if i >= s.len() {
        Seq::empty()
    } else if s[i] == '&' {
        seq!['A', 'n', 'd'] + amp_expand_from(s, i + 1)
    } else {
        seq![s[i]] + amp_expand_from(s, i + 1)
    }
}

/// The text from position `i` on with all whitespace removed; splitting on
/// whitespace and joining the words with nothing between them comes to the
/// same thing.
pub open spec fn drop_ws_from(s: Seq<char>, i: int) -> Seq<char>
    decreases s.len() - i,
{
    if i >= s.len() {
        Seq::empty()
    } else if is_ws(s[i]) {
        drop_ws_from(s, i + 1)
    } else {
        seq![s[i]] + drop_ws_from(s, i + 1)
    }
}

/// The identifier a section heading yields: parenthesized groups are
/// stripped, each '&' becomes "And", and the remaining words are
/// concatenated with no separator.
pub open spec fn spec_identifier(s: Seq<char>) -> Seq<char> {
    drop_ws_from(amp_expand_from(strip_parens_from(s, 0), 0), 0)
}

proof fn lemma_strip_char_source(s: Seq<char>, i: int, k: int)
    requires
        0 <= i,
        0 <= k < strip_parens_from(s, i).len(),
    ensures
        exists|m: int| i + k <= m < s.len() && s[m] == strip_parens_from(s, i)[k],
    decreases s.len() - i,
{
    if i >= s.len() {
    } else if s[i] == '(' && first_close_from(s, i + 2) < s.len() {
        let j = first_close_from(s, i + 2);
        lemma_first_close_from(s, i + 2);
        lemma_strip_char_source(s, j + 1, k);
    } else {
        if k == 0 {
            assert(i + k <= i < s.len() && s[i] == strip_parens_from(s, i)[k]);
        } else {
            lemma_strip_char_source(s, i + 1, k - 1);
            assert(strip_parens_from(s, i)[k] == strip_parens_from(s, i + 1)[k - 1]);
        }
    }
}

proof fn lemma_strip_no_group(s: Seq<char>, i: int)
    requires
        0 <= i,
    ensures
        !has_paren_group_from(strip_parens_from(s, i), 0),
    decreases s.len() - i,
{
    if i >= s.len() {
    } else if s[i] == '(' && first_close_from(s, i + 2) < s.len() {
        lemma_first_close_from(s, i + 2);
        lemma_strip_no_group(s, first_close_from(s, i + 2) + 1);
    } else {
        lemma_strip_no_group(s, i + 1);
        let out = strip_parens_from(s, i);
        let tail = strip_parens_from(s, i + 1);
        if has_paren_group_from(out, 0) {
            let (p, q) = choose|p: int, q: int|
                0 <= p && p + 2 <= q < out.len() && out[p] == '(' && out[q] == ')';
            if p >= 1 {
                assert(tail[p - 1] == '(' && tail[q - 1] == ')');
                assert(has_paren_group_from(tail, 0));
            } else {
                assert(s[i] == '(');
                lemma_first_close_from(s, i + 2);
                assert(forall|m: int| i + 2 <= m < s.len() ==> s[m] != ')');
                assert(tail[q - 1] == ')');
                lemma_strip_char_source(s, i + 1, q - 1);
            }
        }
    }
}

proof fn lemma_strip_fixed(s: Seq<char>, i: int)
    requires
        0 <= i <= s.len(),
        !has_paren_group_from(s, i),
    ensures
        strip_parens_from(s, i) == s.skip(i),
    decreases s.len() - i,
{
    if i == s.len() {
        assert(strip_parens_from(s, i) =~= s.skip(i));
    } else {
        if s[i] == '(' && first_close_from(s, i + 2) < s.len() {
            let q = first_close_from(s, i + 2);
            lemma_first_close_from(s, i + 2);
            assert(i <= i && i + 2 <= q < s.len() && s[i] == '(' && s[q] == ')');
            assert(false);
        }
        lemma_strip_fixed(s, i + 1);
        assert(seq![s[i]] + s.skip(i + 1) =~= s.skip(i));
    }
}

proof fn lemma_amp_mem_close(s: Seq<char>, i: int)
    requires
        0 <= i,
    ensures
        forall|k: int|
            0 <= k < amp_expand_from(s, i).len() && amp_expand_from(s, i)[k] == ')' ==> exists|
                m: int,
            | i <= m < s.len() && s[m] == ')',
    decreases s.len() - i,
{
    if i >= s.len() {
    } else {
        lemma_amp_mem_close(s, i + 1);
        let out = amp_expand_from(s, i);
        let tail = amp_expand_from(s, i + 1);
        assert forall|k: int| 0 <= k < out.len() && out[k] == ')' implies exists|m: int|
            i <= m < s.len() && s[m] == ')' by {
            if s[i] == '&' {
                if k >= 3 {
                    assert(tail[k - 3] == ')');
                }
            } else {
                if k == 0 {
                    assert(s[i] == ')');
                } else {
                    assert(tail[k - 1] == ')');
                }
            }
        }
    }
}

proof fn lemma_amp_close_pos(s: Seq<char>, i: int)
    requires
        0 <= i,
    ensures
        forall|k: int|
            1 <= k < amp_expand_from(s, i).len() && amp_expand_from(s, i)[k] == ')' ==> exists|
                m: int,
            | i + 1 <= m < s.len() && s[m] == ')',
{
    if i >= s.len() {
    } else {
        lemma_amp_mem_close(s, i + 1);
        let out = amp_expand_from(s, i);
        let tail = amp_expand_from(s, i + 1);
        assert forall|k: int| 1 <= k < out.len() && out[k] == ')' implies exists|m: int|
            i + 1 <= m < s.len() && s[m] == ')' by {
            if s[i] == '&' {
                if k >= 3 {
                    assert(tail[k - 3] == ')');
                }
            } else {
                assert(tail[k - 1] == ')');
            }
        }
    }
}

proof fn lemma_amp_group(s: Seq<char>, i: int)
    requires
        0 <= i,
        has_paren_group_from(amp_expand_from(s, i), 0),
    ensures
        has_paren_group_from(s, i),
    decreases s.len() - i,
{
    let out = amp_expand_from(s, i);
    let tail = amp_expand_from(s, i + 1);
    let (p, q) = choose|p: int, q: int|
        0 <= p && p + 2 <= q < out.len() && out[p] == '(' && out[q] == ')';
    if i >= s.len() {
        assert(out.len() == 0);
    } else if s[i] == '&' {
        assert(p >= 3);
        assert(tail[p - 3] == '(' && tail[q - 3] == ')');
        assert(has_paren_group_from(tail, 0));
        lemma_amp_group(s, i + 1);
        let (p2, q2) = choose|p2: int, q2: int|
            i + 1 <= p2 && 0 <= p2 && p2 + 2 <= q2 < s.len() && s[p2] == '(' && s[q2] == ')';
        assert(i <= p2 && 0 <= p2 && p2 + 2 <= q2 < s.len() && s[p2] == '(' && s[q2] == ')');
    } else {
        if p >= 1 {
            assert(tail[p - 1] == '(' && tail[q - 1] == ')');
            assert(has_paren_group_from(tail, 0));
            lemma_amp_group(s, i + 1);
            let (p2, q2) = choose|p2: int, q2: int|
                i + 1 <= p2 && 0 <= p2 && p2 + 2 <= q2 < s.len() && s[p2] == '(' && s[q2] == ')';
            assert(i <= p2 && 0 <= p2 && p2 + 2 <= q2 < s.len() && s[p2] == '(' && s[q2] == ')');
        } else {
            assert(s[i] == '(');
            assert(tail[q - 1] == ')');
            lemma_amp_close_pos(s, i + 1);
            let m = choose|m: int| i + 2 <= m < s.len() && s[m] == ')';
            assert(i <= i && 0 <= i && i + 2 <= m < s.len() && s[i] == '(' && s[m] == ')');
        }
    }
}

proof fn lemma_amp_no_amp(s: Seq<char>, i: int)
    requires
        0 <= i,
    ensures
        forall|k: int|
            0 <= k < amp_expand_from(s, i).len() ==> amp_expand_from(s, i)[k] != '&',
    decreases s.len() - i,
{
    if i >= s.len() {
    } else {
        lemma_amp_no_amp(s, i + 1);
        let out = amp_expand_from(s, i);
        let tail = amp_expand_from(s, i + 1);
        assert forall|k: int| 0 <= k < out.len() implies out[k] != '&' by {
            if s[i] == '&' {
                if k >= 3 {
                    assert(out[k] == tail[k - 3]);
                }
            } else {
                if k >= 1 {
                    assert(out[k] == tail[k - 1]);
                }
            }
        }
    }
}

proof fn lemma_amp_fixed(s: Seq<char>, i: int)
    requires
        0 <= i <= s.len(),
        forall|m: int| i <= m < s.len() ==> s[m] != '&',
    ensures
        amp_expand_from(s, i) == s.skip(i),
    decreases s.len() - i,
{
    if i == s.len() {
        assert(amp_expand_from(s, i) =~= s.skip(i));
    } else {
        lemma_amp_fixed(s, i + 1);
        assert(seq![s[i]] + s.skip(i + 1) =~= s.skip(i));
    }
}

proof fn lemma_ws_source(s: Seq<char>, i: int, k: int)
    requires
        0 <= i,
        0 <= k < drop_ws_from(s, i).len(),
    ensures
        exists|m: int| i + k <= m < s.len() && s[m] == drop_ws_from(s, i)[k],
    decreases s.len() - i,
{
    if i >= s.len() {
    } else if is_ws(s[i]) {
        lemma_ws_source(s, i + 1, k);
        assert(drop_ws_from(s, i)[k] == drop_ws_from(s, i + 1)[k]);
        let m = choose|m: int| (i + 1) + k <= m < s.len() && s[m] == drop_ws_from(s, i + 1)[k];
        assert(i + k <= m < s.len() && s[m] == drop_ws_from(s, i)[k]);
    } else {
        if k == 0 {
            assert(i + k <= i < s.len() && s[i] == drop_ws_from(s, i)[k]);
        } else {
            lemma_ws_source(s, i + 1, k - 1);
            assert(drop_ws_from(s, i)[k] == drop_ws_from(s, i + 1)[k - 1]);
            let m = choose|m: int|
                (i + 1) + (k - 1) <= m < s.len() && s[m] == drop_ws_from(s, i + 1)[k - 1];
            assert(i + k <= m < s.len() && s[m] == drop_ws_from(s, i)[k]);
        }
    }
}

proof fn lemma_ws_group(s: Seq<char>, i: int)
    requires
        0 <= i,
        has_paren_group_from(drop_ws_from(s, i), 0),
    ensures
        has_paren_group_from(s, i),
    decreases s.len() - i,
{
    let out = drop_ws_from(s, i);
    let tail = drop_ws_from(s, i + 1);
    let (p, q) = choose|p: int, q: int|
        0 <= p && p + 2 <= q < out.len() && out[p] == '(' && out[q] == ')';
    if i >= s.len() {
        assert(out.len() == 0);
    } else if is_ws(s[i]) {
        lemma_ws_group(s, i + 1);
        let (p2, q2) = choose|p2: int, q2: int|
            i + 1 <= p2 && 0 <= p2 && p2 + 2 <= q2 < s.len() && s[p2] == '(' && s[q2] == ')';
        assert(i <= p2 && 0 <= p2 && p2 + 2 <= q2 < s.len() && s[p2] == '(' && s[q2] == ')');
    } else {
        if p >= 1 {
            assert(tail[p - 1] == '(' && tail[q - 1] == ')');
            assert(has_paren_group_from(tail, 0));
            lemma_ws_group(s, i + 1);
            let (p2, q2) = choose|p2: int, q2: int|
                i + 1 <= p2 && 0 <= p2 && p2 + 2 <= q2 < s.len() && s[p2] == '(' && s[q2] == ')';
            assert(i <= p2 && 0 <= p2 && p2 + 2 <= q2 < s.len() && s[p2] == '(' && s[q2] == ')');
        } else {
            assert(s[i] == '(');
            assert(tail[q - 1] == ')');
            lemma_ws_source(s, i + 1, q - 1);
            let m = choose|m: int| (i + 1) + (q - 1) <= m < s.len() && s[m] == tail[q - 1];
            assert(i <= i && 0 <= i && i + 2 <= m < s.len() && s[i] == '(' && s[m] == ')');
        }
    }
}

proof fn lemma_ws_no_ws(s: Seq<char>, i: int)
    ensures
        forall|k: int| 0 <= k < drop_ws_from(s, i).len() ==> !is_ws(drop_ws_from(s, i)[k]),
    decreases s.len() - i,
{
    if i >= s.len() {
    } else {
        lemma_ws_no_ws(s, i + 1);
        let out = drop_ws_from(s, i);
        let tail = drop_ws_from(s, i + 1);
        assert forall|k: int| 0 <= k < out.len() implies !is_ws(out[k]) by {
            if !is_ws(s[i]) && k >= 1 {
                assert(out[k] == tail[k - 1]);
            }
        }
    }
}

proof fn lemma_ws_fixed(s: Seq<char>, i: int)
    requires
        0 <= i <= s.len(),
        forall|m: int| i <= m < s.len() ==> !is_ws(s[m]),
    ensures
        drop_ws_from(s, i) == s.skip(i),
    decreases s.len() - i,
{
    if i == s.len() {
        assert(drop_ws_from(s, i) =~= s.skip(i));
    } else {
        lemma_ws_fixed(s, i + 1);
        assert(seq![s[i]] + s.skip(i + 1) =~= s.skip(i));
    }
}

/// Identifier derivation is idempotent: applied to an already-derived
/// identifier, the parenthesis-stripping, ampersand-substitution and
/// whitespace rules change nothing.
pub proof fn lemma_identifier_idempotent(s: Seq<char>)
    ensures
        spec_identifier(spec_identifier(s)) == spec_identifier(s),
{
    let t1 = strip_parens_from(s, 0);
    let t2 = amp_expand_from(t1, 0);
    let t = drop_ws_from(t2, 0);
    lemma_strip_no_group(s, 0);
    if has_paren_group_from(t2, 0) {
        lemma_amp_group(t1, 0);
    }
    if has_paren_group_from(t, 0) {
        lemma_ws_group(t2, 0);
    }
    lemma_strip_fixed(t, 0);
    assert(t.skip(0) =~= t);
    lemma_amp_no_amp(t1, 0);
    assert forall|k: int| 0 <= k < t.len() implies t[k] != '&' by {
        lemma_ws_source(t2, 0, k);
        let m = choose|m: int| 0 + k <= m < t2.len() && t2[m] == drop_ws_from(t2, 0)[k];
        assert(t2[m] != '&');
    }
    lemma_amp_fixed(t, 0);
    lemma_ws_no_ws(t2, 0);
    lemma_ws_fixed(t, 0);
}


/// A derived identifier never contains whitespace: the last derivation
/// step drops every whitespace character, so the words concatenate with
/// nothing between them.
pub proof fn lemma_identifier_no_ws(s: Seq<char>)
    ensures
        forall|k: int|
            0 <= k < spec_identifier(s).len() ==> !is_ws(#[trigger] spec_identifier(s)[k]),
{
    lemma_ws_no_ws(amp_expand_from(strip_parens_from(s, 0), 0), 0);
}

/// Finds the first ')' at or after `k`, or the length if there is none.
fn find_close_from(s: &str, k: usize) -> (r: usize)
    requires
        k <= s@.len(),
    ensures
        r == first_close_from(s@, k as int),
{
    let len = s.unicode_len();
    let mut j = k;
    while j < len
        invariant
            k <= j <= len,
            len == s@.len(),
            first_close_from(s@, k as int) == first_close_from(s@, j as int),
        decreases len - j,
    {
        if s.get_char(j) == ')' {
            return j;
        }
        j = j + 1;
    }
    j
}

/// Removes every parenthesized group from the text.
pub fn strip_parens(s: &str) -> (r: String)
    ensures
        r@ == strip_parens_from(s@, 0),
{
    let len = s.unicode_len();
    let mut out = String::new();
    let mut i: usize = 0;
    while i < len
        invariant
            len == s@.len(),
            0 <= i <= len,
            strip_parens_from(s@, 0) == out@ + strip_parens_from(s@, i as int),
        decreases len - i,
    {
        let c = s.get_char(i);
        if c == '(' {
            let j = if i + 1 < len {
                find_close_from(s, i + 2)
            } else {
                len
            };
            proof {
                if i + 2 > len {
                    assert(first_close_from(s@, i + 2) == s@.len());
                }
            }
            if j < len {
                proof {
                    lemma_first_close_from(s@, i + 2);
                    assert(strip_parens_from(s@, i as int) == strip_parens_from(s@, j + 1));
                }
                i = j + 1;
            } else {
                push_char(&mut out, c);
                proof {
                    assert(out@ + strip_parens_from(s@, i + 1) =~= (out@.drop_last() + (seq![
                        s@[i as int],
                    ] + strip_parens_from(s@, i + 1))));
                }
                i = i + 1;
            }
        } else {
            push_char(&mut out, c);
            proof {
                assert(out@ + strip_parens_from(s@, i + 1) =~= (out@.drop_last() + (seq![
                    s@[i as int],
                ] + strip_parens_from(s@, i + 1))));
            }
            i = i + 1;
        }
    }
    proof {
        assert(out@ + strip_parens_from(s@, len as int) =~= out@);
    }
    out
}

/// Writes each '&' in the text out as "And".
pub fn amp_expand(s: &str) -> (r: String)
    ensures
        r@ == amp_expand_from(s@, 0),
{
    let len = s.unicode_len();
    let mut out = String::new();
    let mut i: usize = 0;
    while i < len
        invariant
            len == s@.len(),
            0 <= i <= len,
            amp_expand_from(s@, 0) == out@ + amp_expand_from(s@, i as int),
        decreases len - i,
    {
        let c = s.get_char(i);
        if c == '&' {
            let ghost pre = out@;
            push_char(&mut out, 'A');
            push_char(&mut out, 'n');
            push_char(&mut out, 'd');
            proof {
                assert(out@ + amp_expand_from(s@, i + 1) =~= (pre + (seq!['A', 'n', 'd']
                    + amp_expand_from(s@, i + 1))));
            }
        } else {
            push_char(&mut out, c);
            proof {
                assert(out@ + amp_expand_from(s@, i + 1) =~= (out@.drop_last() + (seq![
                    s@[i as int],
                ] + amp_expand_from(s@, i + 1))));
            }
        }
        i = i + 1;
    }
    proof {
        assert(out@ + amp_expand_from(s@, len as int) =~= out@);
    }
    out
}

/// Removes all whitespace from the text.
pub fn drop_ws(s: &str) -> (r: String)
    ensures
        r@ == drop_ws_from(s@, 0),
{
    let len = s.unicode_len();
    let mut out = String::new();
    let mut i: usize = 0;
    while i < len
        invariant
            len == s@.len(),
            0 <= i <= len,
            drop_ws_from(s@, 0) == out@ + drop_ws_from(s@, i as int),
        decreases len - i,
    {
        let c = s.get_char(i);
        if !ws_char(c) {
            push_char(&mut out, c);
            proof {
                assert(out@ + drop_ws_from(s@, i + 1) =~= (out@.drop_last() + (seq![s@[i as int]]
                    + drop_ws_from(s@, i + 1))));
            }
        }
        i = i + 1;
    }
    proof {
        assert(out@ + drop_ws_from(s@, len as int) =~= out@);
    }
    out
}

/// Derives a section's identifier from its raw heading text, per the rule
/// of `spec_identifier`.
pub fn derive_identifier(title: &str) -> (r: String)
    ensures
        r@ == spec_identifier(title@),
{
    let stripped = strip_parens(title);
    let expanded = amp_expand(stripped.as_str());
    drop_ws(expanded.as_str())
}

} // verus!
