use vstd::prelude::*;

use crate::names::find_char_from;
use crate::names::first_index_from;
use crate::names::lemma_first_index_from;
use crate::names::starts_with_lit;

verus! {

/// A request URL taken apart for a raw transport: whether the scheme is
/// the secure one, the host, the port (the scheme's default where none is
/// given), and everything from the first '/' on.
pub struct UrlParts {
    pub https: bool,
    pub host: String,
    pub port: u16,
    pub path_and_query: String,
}

/// Every character is a decimal digit, and there is at least one.
pub open spec fn is_digits(s: Seq<char>) -> bool {
    s.len() > 0 && forall|k: int| 0 <= k < s.len() ==> '0' <= #[trigger] s[k] && s[k] <= '9'
}

/// The number a digit string denotes.
pub open spec fn digits_value(s: Seq<char>) -> int
    decreases s.len(),
{
    if s.len() == 0 {
        0
    } else {
        digits_value(s.drop_last()) * 10 + (s.last() as u32 - '0' as u32)
    }
}

/// The port a string denotes: decimal digits only, at most 65535.
pub open spec fn spec_parse_port(s: Seq<char>) -> Option<u16> {
    if is_digits(s) && digits_value(s) <= 0xffff {
        Some(digits_value(s) as u16)
    } else {
        None
    }
}

proof fn lemma_digits_value_nonneg(s: Seq<char>)
    requires
        forall|k: int| 0 <= k < s.len() ==> '0' <= #[trigger] s[k] && s[k] <= '9',
    ensures
        digits_value(s) >= 0,
    decreases s.len(),
{
    if s.len() > 0 {
        assert forall|k: int| 0 <= k < s.drop_last().len() implies '0' <= #[trigger] s.drop_last()[k]
            && s.drop_last()[k] <= '9' by {
            assert(s.drop_last()[k] == s[k]);
        }
        lemma_digits_value_nonneg(s.drop_last());
    }
}

proof fn lemma_digits_value_extend(s: Seq<char>, i: int)
    requires
        0 <= i <= s.len(),
        forall|k: int| 0 <= k < s.len() ==> '0' <= #[trigger] s[k] && s[k] <= '9',
    ensures
        digits_value(s) >= digits_value(s.subrange(0, i)),
    decreases s.len() - i,
{
    if i < s.len() {
        lemma_digits_value_extend(s, i + 1);
        let a = s.subrange(0, i);
        let b = s.subrange(0, i + 1);
        assert(b.drop_last() =~= a);
        assert(b.last() == s[i]);
        assert forall|k: int| 0 <= k < a.len() implies '0' <= #[trigger] a[k] && a[k] <= '9' by {
            assert(a[k] == s[k]);
        }
        lemma_digits_value_nonneg(a);
        assert(digits_value(b) == digits_value(a) * 10 + (s[i] as u32 - '0' as u32));
        assert(digits_value(b) >= digits_value(a));
    } else {
        assert(s.subrange(0, i) =~= s);
    }
}

/// Parses a decimal port number: digits only, at most 65535; `None` on
/// anything else, as the raw transport split rejects such a URL.
pub fn parse_port(s: &str) -> (r: Option<u16>)
    ensures
        r == spec_parse_port(s@),
{
    let len = s.unicode_len();
    if len == 0 {
        return None;
    }
    let mut acc: u32 = 0;
    let mut i: usize = 0;
    while i < len
        invariant
            len == s@.len(),
            0 <= i <= len,
            forall|k: int| 0 <= k < i ==> '0' <= #[trigger] s@[k] && s@[k] <= '9',
            acc == digits_value(s@.subrange(0, i as int)),
            acc <= 0xffff,
        decreases len - i,
    {
        let c = s.get_char(i);
        if !('0' <= c && c <= '9') {
            proof {
                assert(!is_digits(s@));
            }
            return None;
        }
        let d = (c as u32) - ('0' as u32);
        acc = acc * 10 + d;
        proof {
            let a = s@.subrange(0, i as int);
            let b = s@.subrange(0, i + 1);
            assert(b.drop_last() =~= a);
            assert(b.last() == s@[i as int]);
        }
        i = i + 1;
        if acc > 0xffff {
            proof {
                if is_digits(s@) {
                    lemma_digits_value_extend(s@, i as int);
                    assert(digits_value(s@) > 0xffff);
                }
            }
            return None;
        }
    }
    proof {
        assert(s@.subrange(0, len as int) =~= s@);
    }
    Some(acc as u16)
}

/// What splitting a request URL yields: the secure flag, the host, the
/// port and the path-and-query part, or `None` exactly when the scheme is
/// neither "https://" nor "http://", when no '/' follows the scheme, or
/// when a ':' before the first '/' is not followed by a port number.
pub open spec fn spec_parse_url(s: Seq<char>) -> Option<(bool, Seq<char>, u16, Seq<char>)> {
    let https = s.len() >= 8 && s.subrange(0, 8) == "https://"@;
    let http = s.len() >= 7 && s.subrange(0, 7) == "http://"@;
    if !https && !http {
        None
    } else {
        let rest = if https {
            s.skip(8)
        } else {
            s.skip(7)
        };
        let p = first_index_from(rest, '/', 0);
        if p >= rest.len() {
            None
        } else {
            let c = first_index_from(rest, ':', 0);
            if c < p {
                match spec_parse_port(rest.subrange(c + 1, p)) {
                    None => None,
                    Some(port) => Some((https, rest.subrange(0, c), port, rest.skip(p))),
                }
            } else {
                Some(
                    (
                        https,
                        rest.subrange(0, p),
                        if https {
                            443u16
                        } else {
                            80u16
                        },
                        rest.skip(p),
                    ),
                )
            }
        }
    }
}

/// Splits a request URL for a raw transport, per `spec_parse_url`.
pub fn parse_url(url: &str) -> (r: Option<UrlParts>)
    ensures
        r is Some == spec_parse_url(url@) is Some,
        r matches Some(u) ==> spec_parse_url(url@) == Some::<(bool, Seq<char>, u16, Seq<char>)>(
            (u.https, u.host@, u.port, u.path_and_query@),
        ),
{
    proof {
        reveal_strlit("https://");
        reveal_strlit("http://");
    }
    let len = url.unicode_len();
    let https = len >= 8 && starts_with_lit(url, "https://");
    let http = len >= 7 && starts_with_lit(url, "http://");
    if !https && !http {
        return None;
    }
    let off: usize = if https {
        8
    } else {
        7
    };
    let rest = url.substring_char(off, len).to_owned();
    proof {
        assert(url@.subrange(off as int, len as int) =~= url@.skip(off as int));
    }
    let rlen = rest.as_str().unicode_len();
    let p = find_char_from(rest.as_str(), '/', 0);
    if p >= rlen {
        return None;
    }
    proof {
        lemma_first_index_from(rest@, '/', 0);
        lemma_first_index_from(rest@, ':', 0);
    }
    let c = find_char_from(rest.as_str(), ':', 0);
    if c < p {
        let port_str = rest.as_str().substring_char(c + 1, p);
        match parse_port(port_str) {
            None => None,
            Some(port) => Some(
                UrlParts {
                    https,
                    host: rest.as_str().substring_char(0, c).to_owned(),
                    port,
                    path_and_query: rest.as_str().substring_char(p, rlen).to_owned(),
                },
            ),
        }
    } else {
        Some(
            UrlParts {
                https,
                host: rest.as_str().substring_char(0, p).to_owned(),
                port: if https {
                    443
                } else {
                    80
                },
                path_and_query: rest.as_str().substring_char(p, rlen).to_owned(),
            },
        )
    }
}

} // verus!
