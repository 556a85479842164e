use vstd::prelude::*;

use crate::text::is_ws;
use crate::text::lower;
use crate::text::push_char;
use crate::text::to_lower;
use crate::text::trim;
use crate::text::trim_str;
use crate::text::ws_char;

verus! {

/// Index of the first occurrence of `c` at or after position `k`, or
/// `s.len()` if there is none.
pub open spec fn first_index_from(s: Seq<char>, c: char, k: int) -> int
    decreases s.len() - k,
{
    if k >= s.len() {
        s.len() as int
    } else if 0 <= k && s[k] == c {
        k
    } else {
        first_index_from(s, c, k + 1)
    }
}

pub proof fn lemma_first_index_from(s: Seq<char>, c: char, k: int)
    ensures
        first_index_from(s, c, k) <= s.len(),
        first_index_from(s, c, k) < s.len() ==> k <= first_index_from(s, c, k) && s[first_index_from(
            s,
            c,
            k,
        )] == c,
        forall|q: int| k <= q < first_index_from(s, c, k) && 0 <= q ==> s[q] != c,
    decreases s.len() - k,
{
    if k >= s.len() {
    } else if 0 <= k && s[k] == c {
    } else {
        lemma_first_index_from(s, c, k + 1);
    }
}

/// Finds the first occurrence of `c` at or after `k`, or the length if
/// there is none.
pub fn find_char_from(s: &str, c: char, k: usize) -> (r: usize)
    requires
        k <= s@.len(),
    ensures
        r == first_index_from(s@, c, k as int),
{
    let len = s.unicode_len();
    let mut j = k;
    while j < len
        invariant
            k <= j <= len,
            len == s@.len(),
            first_index_from(s@, c, k as int) == first_index_from(s@, c, j as int),
        decreases len - j,
    {
        if s.get_char(j) == c {
            return j;
        }
        j = j + 1;
    }
    j
}

/// Index of the first non-whitespace character at or after position `k`,
/// or `s.len()` if there is none.
pub open spec fn first_non_ws_from(s: Seq<char>, k: int) -> int
    decreases s.len() - k,
{
    if k >= s.len() {
        s.len() as int
    } else if 0 <= k && !is_ws(s[k]) {
        k
    } else {
        first_non_ws_from(s, k + 1)
    }
}

proof fn lemma_first_non_ws_from(s: Seq<char>, k: int)
    ensures
        first_non_ws_from(s, k) <= s.len(),
        first_non_ws_from(s, k) < s.len() ==> k <= first_non_ws_from(s, k) && !is_ws(
            s[first_non_ws_from(s, k)],
        ),
    decreases s.len() - k,
{
    if k >= s.len() {
    } else if 0 <= k && !is_ws(s[k]) {
    } else {
        lemma_first_non_ws_from(s, k + 1);
    }
}

/// The text from position `i` on with each maximal whitespace run replaced
/// by a single '_', and a trailing run dropped: what splitting on
/// whitespace and joining the words with '_' yields.
pub open spec fn snake_from(s: Seq<char>, i: int) -> Seq<char>
    decreases s.len() - i,
    when 0 <= i
    via snake_decreases
{
    if i >= s.len() {
        Seq::empty()
    } else if !is_ws(s[i]) {
        seq![s[i]] + snake_from(s, i + 1)
    } else if first_non_ws_from(s, i + 1) >= s.len() {
        Seq::empty()
    } else {
        seq!['_'] + snake_from(s, first_non_ws_from(s, i + 1))
    }
}

#[via_fn]
proof fn snake_decreases(s: Seq<char>, i: int) {
    lemma_first_non_ws_from(s, i + 1);
}

/// Replaces each whitespace run with '_' as `snake_from` describes.
fn snake(s: &str) -> (r: String)
    ensures
        r@ == snake_from(s@, 0),
{
    let len = s.unicode_len();
    let mut out = String::new();
    let mut i: usize = 0;
    while i < len
        invariant
            len == s@.len(),
            0 <= i <= len,
            snake_from(s@, 0) == out@ + snake_from(s@, i as int),
        decreases len - i,
    {
        let c = s.get_char(i);
        if !ws_char(c) {
            push_char(&mut out, c);
            proof {
                assert(out@ + snake_from(s@, i + 1) =~= (out@.drop_last() + (seq![s@[i as int]]
                    + snake_from(s@, i + 1))));
            }
            i = i + 1;
        } else {
            let j = find_non_ws_from(s, i + 1);
            proof {
                lemma_first_non_ws_from(s@, i + 1);
            }
            if j < len {
                push_char(&mut out, '_');
                proof {
                    assert(out@ + snake_from(s@, j as int) =~= (out@.drop_last() + (seq!['_']
                        + snake_from(s@, j as int))));
                }
                i = j;
            } else {
                i = len;
            }
        }
    }
    proof {
        assert(out@ + snake_from(s@, len as int) =~= out@);
    }
    out
}

/// Finds the first non-whitespace character at or after `k`, or the length
/// if there is none.
fn find_non_ws_from(s: &str, k: usize) -> (r: usize)
    requires
        k <= s@.len(),
    ensures
        r == first_non_ws_from(s@, k as int),
{
    let len = s.unicode_len();
    let mut j = k;
    while j < len
        invariant
            k <= j <= len,
            len == s@.len(),
            first_non_ws_from(s@, k as int) == first_non_ws_from(s@, j as int),
        decreases len - j,
    {
        if !ws_char(s.get_char(j)) {
            return j;
        }
        j = j + 1;
    }
    j
}

/// The canonical-name rule for an operation: the heading text, trimmed,
/// lower-cased (ASCII), with internal whitespace runs collapsed to single
/// underscores.
pub open spec fn spec_canonical_name(s: Seq<char>) -> Seq<char> {
    snake_from(lower(trim(s)), 0)
}


proof fn lemma_snake_no_ws(s: Seq<char>, i: int)
    requires
        0 <= i,
    ensures
        forall|k: int|
            0 <= k < snake_from(s, i).len() ==> !is_ws(#[trigger] snake_from(s, i)[k]),
    decreases s.len() - i,
{
    if i >= s.len() {
    } else if !is_ws(s[i]) {
        lemma_snake_no_ws(s, i + 1);
        assert forall|k: int| 0 <= k < snake_from(s, i).len() implies !is_ws(
            #[trigger] snake_from(s, i)[k],
        ) by {
            if k >= 1 {
                assert(snake_from(s, i)[k] == snake_from(s, i + 1)[k - 1]);
            }
        }
    } else if first_non_ws_from(s, i + 1) >= s.len() {
    } else {
        let j = first_non_ws_from(s, i + 1);
        lemma_first_non_ws_from(s, i + 1);
        lemma_snake_no_ws(s, j);
        assert forall|k: int| 0 <= k < snake_from(s, i).len() implies !is_ws(
            #[trigger] snake_from(s, i)[k],
        ) by {
            if k >= 1 {
                assert(snake_from(s, i)[k] == snake_from(s, j)[k - 1]);
            }
        }
    }
}

/// A canonical operation name never contains whitespace: every internal
/// run was collapsed to an underscore and the ends were trimmed.
pub proof fn lemma_canonical_name_no_ws(s: Seq<char>)
    ensures
        forall|k: int|
            0 <= k < spec_canonical_name(s).len() ==> !is_ws(#[trigger] spec_canonical_name(s)[k]),
{
    lemma_snake_no_ws(crate::text::lower(crate::text::trim(s)), 0);
}

/// Derives an operation's canonical name from its heading text.
pub fn canonical_name(heading: &str) -> (r: String)
    ensures
        r@ == spec_canonical_name(heading@),
{
    let t = trim_str(heading);
    let l = to_lower(t.as_str());
    snake(l.as_str())
}

/// The endpoint-name rule: the heading text, trimmed, passed through the
/// fixed table of the two known historically inconsistent labels.
pub open spec fn spec_raw_endpoint_name(s: Seq<char>) -> Seq<char> {
    if trim(s) == "Quote Endpoint"@ {
        "GLOBAL_QUOTE"@
    } else if trim(s) == "Search Endpoint"@ {
        "SYMBOL_SEARCH"@
    } else {
        trim(s)
    }
}

/// Derives the remote endpoint discriminator from an operation's heading
/// text.
pub fn raw_endpoint_name(heading: &str) -> (r: String)
    ensures
        r@ == spec_raw_endpoint_name(heading@),
{
    let t = trim_str(heading);
    if t == String::from_str("Quote Endpoint") {
        String::from_str("GLOBAL_QUOTE")
    } else if t == String::from_str("Search Endpoint") {
        String::from_str("SYMBOL_SEARCH")
    } else {
        t
    }
}

/// `pat` occurs in `s` starting at position `i`.
pub open spec fn contains_at(s: Seq<char>, pat: Seq<char>, i: int) -> bool {
    0 <= i && i + pat.len() <= s.len() && s.subrange(i, i + pat.len()) == pat
}

/// `pat` occurs somewhere in `s`.
pub open spec fn contains_sub(s: Seq<char>, pat: Seq<char>) -> bool {
    exists|i: int| contains_at(s, pat, i)
}

/// Whether `pat` occurs in `s` starting at `i`.
fn matches_at(s: &str, pat: &str, i: usize) -> (r: bool)
    requires
        i + pat@.len() <= s@.len(),
    ensures
        r == contains_at(s@, pat@, i as int),
{
    let slen = s.unicode_len();
    let plen = pat.unicode_len();
    let mut k: usize = 0;
    while k < plen
        invariant
            slen == s@.len(),
            plen == pat@.len(),
            i + plen <= slen,
            0 <= k <= plen,
            forall|kk: int| 0 <= kk < k ==> s@[i + kk] == pat@[kk],
        decreases plen - k,
    {
        if s.get_char(i + k) != pat.get_char(k) {
            proof {
                assert(s@.subrange(i as int, i + plen)[k as int] != pat@[k as int]);
            }
            return false;
        }
        k = k + 1;
    }
    proof {
        assert(s@.subrange(i as int, i + plen) =~= pat@);
    }
    true
}

/// Whether `pat` occurs anywhere in `s`; the substring test the
/// Required/Optional classification uses.
pub fn contains_str(s: &str, pat: &str) -> (r: bool)
    ensures
        r == contains_sub(s@, pat@),
{
    let len = s.unicode_len();
    let plen = pat.unicode_len();
    if plen > len {
        proof {
            assert(forall|i: int| !contains_at(s@, pat@, i));
        }
        return false;
    }
    if plen == 0 {
        proof {
            assert(s@.subrange(0, 0) =~= pat@);
            assert(contains_at(s@, pat@, 0));
        }
        return true;
    }
    let mut i: usize = 0;
    while i <= len - plen
        invariant
            len == s@.len(),
            plen == pat@.len(),
            1 <= plen <= len,
            0 <= i <= len - plen + 1,
            forall|ii: int| 0 <= ii < i ==> !contains_at(s@, pat@, ii),
        decreases len - i,
    {
        if matches_at(s, pat, i) {
            return true;
        }
        i = i + 1;
    }
    proof {
        assert(forall|ii: int| ii >= i ==> !contains_at(s@, pat@, ii));
    }
    false
}

/// The default value carried by an elaboration node's inline code token:
/// the text between the first '=' and the next '=' or the end; `None` when
/// the token has no '=' at all.
pub open spec fn spec_default_of(code: Seq<char>) -> Option<Seq<char>> {
    let a = first_index_from(code, '=', 0);
    if a >= code.len() {
        None
    } else {
        Some(code.subrange(a + 1, first_index_from(code, '=', a + 1)))
    }
}

/// Splits a `name=value` code token and returns the value part, or `None`
/// when there is no '=' separator.
pub fn default_segment(code: &str) -> (r: Option<String>)
    ensures
        r.is_some() == spec_default_of(code@).is_some(),
        r.is_some() ==> r.unwrap()@ == spec_default_of(code@).unwrap(),
{
    let len = code.unicode_len();
    let a = find_char_from(code, '=', 0);
    if a >= len {
        None
    } else {
        proof {
            lemma_first_index_from(code@, '=', 0);
            lemma_first_index_from(code@, '=', a + 1);
        }
        let b = find_char_from(code, '=', a + 1);
        let seg = code.substring_char(a + 1, b);
        Some(seg.to_owned())
    }
}

/// Whether `s` begins with `pat`.
pub fn starts_with_lit(s: &str, pat: &str) -> (r: bool)
    ensures
        r == (pat@.len() <= s@.len() && s@.subrange(0, pat@.len() as int) == pat@),
{
    let plen = pat.unicode_len();
    let len = s.unicode_len();
    if plen > len {
        return false;
    }
    matches_at(s, pat, 0)
}

} // verus!
