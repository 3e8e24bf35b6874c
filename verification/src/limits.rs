//! How a test resolves a limit read from an environment variable.
use vstd::prelude::*;
use crate::config_scan::{digits_value, is_digit};

verus! {

/// `s` without a leading `+`.
pub open spec fn unsigned_digits(s: Seq<char>) -> Seq<char> {
    if s.len() > 0 && s[0] == '+' {
        s.drop_first()
    } else {
        s
    }
}

/// Every character of `s` is an ASCII digit.
pub open spec fn all_digits(s: Seq<char>) -> bool {
    forall|i: int| 0 <= i < s.len() ==> #[trigger] is_digit(s[i])
}

/// What `u64`'s `from_str` accepts: an optional `+`, then one or more ASCII
/// digits whose value fits in a `u64`; no sign, space or other character.
pub open spec fn parse_u64_spec(s: Seq<char>) -> Option<u64> {
    let body = unsigned_digits(s);
    if body.len() > 0 && all_digits(body) && digits_value(body) <= u64::MAX {
        Some(digits_value(body) as u64)
    } else {
        None
    }
}

/// Parses a decimal `u64` as `str::parse::<u64>` does.
pub fn parse_u64(s: &str) -> (r: Option<u64>)
    ensures
        r == parse_u64_spec(s@),
{
    let n = s.unicode_len();
    let start: usize = if n > 0 && s.get_char(0) == '+' {
        1
    } else {
        0
    };
    let ghost body = unsigned_digits(s@);
    assert(body =~= s@.subrange(start as int, n as int));
    if start == n {
        return None;
    }
    let mut acc: Option<u64> = Some(0);
    let mut k: usize = start;
    while k < n
        invariant
            n == s@.len(),
            start < n,
            start <= k <= n,
            body =~= s@.subrange(start as int, n as int),
            body == unsigned_digits(s@),
            forall|m: int| start <= m < k ==> is_digit(s@[m]),
            acc is Some <==> digits_value(s@.subrange(start as int, k as int)) <= u64::MAX,
            acc matches Some(v) ==> v as nat == digits_value(s@.subrange(start as int, k as int)),
        decreases n - k,
    {
        let c = s.get_char(k);
        if !('0' <= c && c <= '9') {
            assert(body[k - start] == s@[k as int]);
            assert(!is_digit(body[k - start]));
            return None;
        }
        let ghost prefix = s@.subrange(start as int, k as int);
        let ghost next = s@.subrange(start as int, k + 1);
        assert(next.drop_last() =~= prefix);
        assert(next.last() == c);
        let d: u64 = ((c as u32) - 48) as u64;
        assert(digits_value(next) == digits_value(prefix) * 10 + d);
        acc = match acc {
            Some(v) => match v.checked_mul(10) {
                Some(t) => t.checked_add(d),
                None => None,
            },
            None => None,
        };
        k = k + 1;
    }
    assert(s@.subrange(start as int, n as int) =~= body);
    assert forall|i: int| 0 <= i < body.len() implies #[trigger] is_digit(body[i]) by {
        assert(body[i] == s@[start + i]);
    }
    acc
}

/// The limit a strict environment variable gives: `u64::MAX` when it is
/// unset, its value when it is a `u64`, and `None` (the test panics, naming
/// the variable) when it is set to anything else.
pub open spec fn strict_env_limit(value: Option<Seq<char>>) -> Option<u64> {
    match value {
        None => Some(u64::MAX),
        Some(v) => parse_u64_spec(v),
    }
}

/// Resolves the limit of `env = "VAR"` of every budget attribute from the
/// variable's value (`None` when unset).
pub fn env_limit(value: Option<&str>) -> (r: Option<u64>)
    ensures
        r == strict_env_limit(
            match value {
                Some(v) => Some(v@),
                None => None,
            },
        ),
{
    match value {
        None => Some(u64::MAX),
        Some(v) => parse_u64(v),
    }
}

/// Whether a measured cost passes its budget check: the cost must be
/// strictly below the limit, so a cost equal to the limit fails.
pub fn within_limit(cost: u64, limit: u64) -> (r: bool)
    ensures
        r == (cost < limit),
{
    cost < limit
}

} // verus!
