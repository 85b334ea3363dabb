use vstd::prelude::*;

use crate::text::{occurs_in, str_contains};

verus! {

/// The status code the platform uses to refuse a request, among others when
/// the rate limit is exhausted.
pub const FORBIDDEN: u16 = 403;

/// A status code in the 2xx range.
pub open spec fn success_status(status: u16) -> bool {
    200 <= status && status <= 299
}

/// Whether a response status counts as success.
pub fn is_success(status: u16) -> (r: bool)
    ensures
        r == success_status(status),
{
    200 <= status && status <= 299
}

/// Whether a failed response is worth inspecting for rate-limit headers.
pub fn is_rate_limited(status: u16) -> (r: bool)
    ensures
        r == (status == FORBIDDEN),
{
    status == FORBIDDEN
}

/// Seconds to wait until the rate limit resets, never negative.
pub open spec fn wait_seconds(reset: int, now: int) -> int {
    if reset > now {
        reset - now
    } else {
        0
    }
}

/// Remaining wait before a rate limit resets at epoch second `reset`, seen at
/// epoch second `now`; zero once the reset time has passed.
pub fn rate_limit_wait(reset: i64, now: i64) -> (r: u64)
    ensures
        r as int == wait_seconds(reset as int, now as int),
{
    if reset > now {
        let d: i128 = reset as i128 - now as i128;
        d as u64
    } else {
        0
    }
}

/// The marker by which a `link` header announces a further page.
pub open spec fn next_marker() -> Seq<char> {
    seq!['r', 'e', 'l', '=', '"', 'n', 'e', 'x', 't', '"']
}

/// Whether a pagination `link` header announces a next page.
pub fn has_next_link(link: &str) -> (r: bool)
    ensures
        r == occurs_in(link@, next_marker()),
{
    let marker = "rel=\"next\"";
    proof {
        reveal_strlit("rel=\"next\"");
        assert(marker@ =~= next_marker());
    }
    str_contains(link, marker)
}

/// The `Authorization` header value for a token: `token <T>`, or none when
/// the token is empty.
pub open spec fn authorization_of(token: Seq<char>) -> Option<Seq<char>> {
    if token.len() == 0 {
        None
    } else {
        Some(seq!['t', 'o', 'k', 'e', 'n', ' '] + token)
    }
}

/// Builds the `Authorization` header value attached to outbound requests.
pub fn authorization_header(token: &str) -> (r: Option<String>)
    ensures
        r matches Some(v) ==> authorization_of(token@) == Some(v@),
        r is None ==> authorization_of(token@) is None,
{
    if token.is_empty() {
        None
    } else {
        let mut v = String::new();
        let prefix = "token ";
        proof {
            reveal_strlit("token ");
        }
        v.append(prefix);
        v.append(token);
        proof {
            assert(v@ =~= seq!['t', 'o', 'k', 'e', 'n', ' '] + token@);
        }
        Some(v)
    }
}

pub open spec fn is_digit(c: char) -> bool {
    '0' <= c && c <= '9'
}

/// Value of a non-empty run of decimal digits.
pub open spec fn digits_value(s: Seq<char>) -> int
    decreases s.len(),
{
    if s.len() == 0 {
        0
    } else {
        digits_value(s.drop_last()) * 10 + (s.last() as int - '0' as int)
    }
}

/// The integer that `s` writes as an optional `+` or `-` followed by at least
/// one decimal digit, and nothing else.
pub open spec fn signed_decimal(s: Seq<char>) -> Option<int> {
    let signed = s.len() > 0 && (s[0] == '+' || s[0] == '-');
    let d = if signed {
        s.drop_first()
    } else {
        s
    };
    if d.len() > 0 && forall|i: int| 0 <= i < d.len() ==> is_digit(#[trigger] d[i]) {
        Some(
            if signed && s[0] == '-' {
                -digits_value(d)
            } else {
                digits_value(d)
            },
        )
    } else {
        None
    }
}

/// The value `s` writes, where `signed_decimal` reads one that fits `i64`.
pub open spec fn decimal_i64(s: Seq<char>) -> Option<int> {
    match signed_decimal(s) {
        Some(x) => if i64::MIN <= x <= i64::MAX {
            Some(x)
        } else {
            None
        },
        None => None,
    }
}

/// Relies on `str::parse::<i64>`: an optional sign and decimal digits, and an
/// error for anything else or for a value out of range.
#[verifier::external_body]
fn parse_i64(s: &str) -> (r: Option<i64>)
    ensures
        decimal_i64(s@) == match r {
            Some(v) => Some(v as int),
            None => None,
        },
{
    s.parse::<i64>().ok()
}

/// The epoch second at which the rate limit resets, read from the text of
/// the `x-ratelimit-reset` header; zero where the text is no `i64`.
pub fn reset_epoch(text: &str) -> (r: i64)
    ensures
        r as int == match decimal_i64(text@) {
            Some(x) => x,
            None => 0,
        },
{
    match parse_i64(text) {
        Some(v) => v,
        None => 0,
    }
}

} // verus!
