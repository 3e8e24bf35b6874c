//! The lenient reader of `budget.json` that a test uses when the macro could
//! not resolve a `config = "key"` limit while expanding.
//!
//! It does not parse JSON. It walks the text once: a quotation mark starts a
//! key, which runs to the next quotation mark; after the key, colons, spaces,
//! tabs and line feeds are skipped, and a run of ASCII digits that follows is
//! the key's value when it fits in a `u64`. Braces, commas and whitespace
//! between entries are skipped, the first `}` met between entries ends the
//! walk, and any other character is skipped. A key seen again replaces its
//! earlier value.
use vstd::prelude::*;

verus! {

/// A character skipped between a key and its value.
pub open spec fn is_value_gap(c: char) -> bool {
    c == ':' || c == ' ' || c == '\n' || c == '\t'
}

/// An ASCII decimal digit.
pub open spec fn is_digit(c: char) -> bool {
    '0' <= c && c <= '9'
}

/// The position of the first quotation mark at or after `i`, or the end.
pub open spec fn next_quote(s: Seq<char>, i: int) -> int
    decreases s.len() - i,
{
    if i < 0 || i >= s.len() || s[i] == '"' {
        i
    } else {
        next_quote(s, i + 1)
    }
}

/// The first position at or after `i` that is not a value gap.
pub open spec fn skip_value_gaps(s: Seq<char>, i: int) -> int
    decreases s.len() - i,
{
    if i < 0 || i >= s.len() || !is_value_gap(s[i]) {
        i
    } else {
        skip_value_gaps(s, i + 1)
    }
}

/// The first position at or after `i` that is not a digit.
pub open spec fn skip_digits(s: Seq<char>, i: int) -> int
    decreases s.len() - i,
{
    if i < 0 || i >= s.len() || !is_digit(s[i]) {
        i
    } else {
        skip_digits(s, i + 1)
    }
}

/// The number that the digits `d` spell in base ten.
pub open spec fn digits_value(d: Seq<char>) -> nat
    decreases d.len(),
{
    if d.len() == 0 {
        0
    } else {
        digits_value(d.drop_last()) * 10 + ((d.last() as int) - 48) as nat
    }
}

/// The value of `key` found by walking `s` from `i`, given the value
/// `found` recorded before `i`.
pub open spec fn scan_from(s: Seq<char>, i: int, key: Seq<char>, found: Option<u64>) -> Option<u64>
    decreases s.len() + 1 - i,
{
    if i < 0 || i >= s.len() || s[i] == '}' {
        found
    } else if s[i] == '"' {
        let key_end = next_quote(s, i + 1);
        let value_start = skip_value_gaps(s, key_end + 1);
        let value_end = skip_digits(s, value_start);
        let value = digits_value(s.subrange(value_start, value_end));
        let next = if value_start < value_end && value <= u64::MAX && s.subrange(i + 1, key_end)
            == key {
            Some(value as u64)
        } else {
            found
        };
        proof {
            lemma_next_quote_bounds(s, i + 1);
            lemma_skip_value_gaps_bounds(s, key_end + 1);
            lemma_skip_digits_bounds(s, value_start);
        }
        scan_from(s, value_end, key, next)
    } else {
        scan_from(s, i + 1, key, found)
    }
}

/// The value that the lenient reader finds for `key` in `content`.
pub open spec fn config_value(content: Seq<char>, key: Seq<char>) -> Option<u64> {
    scan_from(content, 0, key, None)
}

pub proof fn lemma_next_quote_bounds(s: Seq<char>, i: int)
    requires
        0 <= i <= s.len(),
    ensures
        i <= next_quote(s, i) <= s.len(),
        forall|k: int| i <= k < next_quote(s, i) ==> s[k] != '"',
        next_quote(s, i) < s.len() ==> s[next_quote(s, i)] == '"',
    decreases s.len() - i,
{
    if i < s.len() && s[i] != '"' {
        lemma_next_quote_bounds(s, i + 1);
    }
}

pub proof fn lemma_skip_value_gaps_bounds(s: Seq<char>, i: int)
    requires
        0 <= i,
    ensures
        i <= skip_value_gaps(s, i),
        i <= s.len() ==> skip_value_gaps(s, i) <= s.len(),
        i > s.len() ==> skip_value_gaps(s, i) == i,
        forall|k: int| i <= k < skip_value_gaps(s, i) ==> is_value_gap(s[k]),
        skip_value_gaps(s, i) < s.len() ==> !is_value_gap(s[skip_value_gaps(s, i)]),
    decreases s.len() - i,
{
    if i < s.len() && is_value_gap(s[i]) {
        lemma_skip_value_gaps_bounds(s, i + 1);
    }
}

pub proof fn lemma_skip_digits_bounds(s: Seq<char>, i: int)
    requires
        0 <= i,
    ensures
        i <= skip_digits(s, i),
        i <= s.len() ==> skip_digits(s, i) <= s.len(),
        i > s.len() ==> skip_digits(s, i) == i,
        forall|k: int| i <= k < skip_digits(s, i) ==> is_digit(s[k]),
        skip_digits(s, i) < s.len() ==> !is_digit(s[skip_digits(s, i)]),
    decreases s.len() - i,
{
    if i < s.len() && is_digit(s[i]) {
        lemma_skip_digits_bounds(s, i + 1);
    }
}

fn chars_of(s: &str) -> (r: Vec<char>)
    ensures
        r@ == s@,
{
    let n = s.unicode_len();
    let mut out: Vec<char> = Vec::new();
    let mut i: usize = 0;
    while i < n
        invariant
            n == s@.len(),
            i <= n,
            out@ == s@.subrange(0, i as int),
        decreases n - i,
    {
        out.push(s.get_char(i));
        i = i + 1;
        assert(out@ =~= s@.subrange(0, i as int));
    }
    assert(out@ =~= s@);
    out
}

/// Reads the digits `c[start..end]`: their value when it fits in a `u64`.
fn digits_to_u64(c: &Vec<char>, start: usize, end: usize) -> (r: Option<u64>)
    requires
        start <= end <= c@.len(),
        forall|k: int| start <= k < end ==> is_digit(c@[k]),
    ensures
        r is Some <==> digits_value(c@.subrange(start as int, end as int)) <= u64::MAX,
        r matches Some(v) ==> v as nat == digits_value(c@.subrange(start as int, end as int)),
{
    let mut acc: Option<u64> = Some(0);
    let mut k: usize = start;
    while k < end
        invariant
            start <= k <= end <= c@.len(),
            forall|m: int| start <= m < end ==> is_digit(c@[m]),
            acc is Some <==> digits_value(c@.subrange(start as int, k as int)) <= u64::MAX,
            acc matches Some(v) ==> v as nat == digits_value(c@.subrange(start as int, k as int)),
        decreases end - k,
    {
        let ghost prefix = c@.subrange(start as int, k as int);
        let ghost next = c@.subrange(start as int, k + 1);
        assert(next.drop_last() =~= prefix);
        assert(next.last() == c@[k as int]);
        let d: u64 = ((c[k] as u32) - 48) as u64;
        assert(digits_value(next) == digits_value(prefix) * 10 + d);
        acc = match acc {
            Some(v) => match v.checked_mul(10) {
                Some(t) => t.checked_add(d),
                None => None,
            },
            None => None,
        };
        k = k + 1;
    }
    acc
}

/// Whether `c[start..end]` holds the characters of `k`.
fn range_equals(c: &Vec<char>, start: usize, end: usize, k: &Vec<char>) -> (r: bool)
    requires
        start <= end <= c@.len(),
    ensures
        r == (c@.subrange(start as int, end as int) == k@),
{
    if end - start != k.len() {
        assert(c@.subrange(start as int, end as int).len() != k@.len());
        return false;
    }
    let mut m: usize = 0;
    while m < k.len()
        invariant
            start + k@.len() == end <= c@.len(),
            m <= k@.len(),
            forall|j: int| 0 <= j < m ==> c@[start + j] == k@[j],
        decreases k@.len() - m,
    {
        if c[start + m] != k[m] {
            assert(c@.subrange(start as int, end as int)[m as int] != k@[m as int]);
            return false;
        }
        m = m + 1;
    }
    assert(c@.subrange(start as int, end as int) =~= k@);
    true
}

/// The value of `key` in `content` as the lenient reader finds it; `None`
/// when no entry for `key` holds a value that fits in a `u64`.
pub fn parse_config_value(content: &str, key: &str) -> (r: Option<u64>)
    ensures
        r == config_value(content@, key@),
{
    let c = chars_of(content);
    let k = chars_of(key);
    let n = c.len();
    let mut found: Option<u64> = None;
    let mut i: usize = 0;
    while i < n
        invariant
            n == c@.len(),
            c@ == content@,
            k@ == key@,
            i <= n,
            scan_from(c@, i as int, k@, found) == config_value(content@, key@),
        decreases n - i,
    {
        if c[i] == '}' {
            return found;
        }
        if c[i] != '"' {
            i = i + 1;
            continue;
        }
        let key_start = i + 1;
        let mut key_end = key_start;
        proof {
            lemma_next_quote_bounds(c@, key_start as int);
        }
        while key_end < n && c[key_end] != '"'
            invariant
                key_start <= key_end <= n,
                n == c@.len(),
                next_quote(c@, key_start as int) == next_quote(c@, key_end as int),
            decreases n - key_end,
        {
            key_end = key_end + 1;
        }
        if key_end == n {
            proof {
                lemma_skip_value_gaps_bounds(c@, (n + 1) as int);
                lemma_skip_digits_bounds(c@, (n + 1) as int);
                assert(next_quote(c@, n as int) == n);
                assert(next_quote(c@, (i + 1) as int) == n);
                assert(skip_value_gaps(c@, (n + 1) as int) == n + 1);
                assert(skip_digits(c@, (n + 1) as int) == n + 1);
                assert(scan_from(c@, (n + 1) as int, k@, found) == found);
            }
            return found;
        }
        let mut value_start = key_end + 1;
        proof {
            lemma_skip_value_gaps_bounds(c@, value_start as int);
        }
        while value_start < n && (c[value_start] == ':' || c[value_start] == ' '
            || c[value_start] == '\n' || c[value_start] == '\t')
            invariant
                key_end + 1 <= value_start <= n,
                n == c@.len(),
                skip_value_gaps(c@, (key_end + 1) as int) == skip_value_gaps(c@, value_start as int),
            decreases n - value_start,
        {
            value_start = value_start + 1;
        }
        let mut value_end = value_start;
        proof {
            lemma_skip_digits_bounds(c@, value_start as int);
        }
        while value_end < n && '0' <= c[value_end] && c[value_end] <= '9'
            invariant
                value_start <= value_end <= n,
                n == c@.len(),
                skip_digits(c@, value_start as int) == skip_digits(c@, value_end as int),
            decreases n - value_end,
        {
            value_end = value_end + 1;
        }
        if value_start < value_end {
            let same_key = range_equals(&c, key_start, key_end, &k);
            if same_key {
                match digits_to_u64(&c, value_start, value_end) {
                    Some(v) => {
                        found = Some(v);
                    },
                    None => {},
                }
            }
        }
        i = value_end;
    }
    found
}

/// The limit that a `config = "key"` check applies when the test runs, and
/// whether a warning is due: the key's value when `budget.json` was read and
/// the reader finds one; otherwise `u64::MAX` (no limit) with a warning,
/// both when the file could not be read (`None`) and when the key is missing
/// or holds no `u64`.
pub open spec fn config_limit_of(content: Option<Seq<char>>, key: Seq<char>) -> (u64, bool) {
    match content {
        None => (u64::MAX, true),
        Some(c) => match config_value(c, key) {
            Some(n) => (n, false),
            None => (u64::MAX, true),
        },
    }
}

/// Resolves a `config = "key"` limit at test time from the contents of
/// `budget.json` (`None` when it could not be read); returns the limit and
/// whether to warn that no limit applies.
pub fn config_limit(content: Option<&str>, key: &str) -> (r: (u64, bool))
    ensures
        r == config_limit_of(
            match content {
                Some(c) => Some(c@),
                None => None,
            },
            key@,
        ),
{
    match content {
        None => (u64::MAX, true),
        Some(c) => match parse_config_value(c, key) {
            Some(n) => (n, false),
            None => (u64::MAX, true),
        },
    }
}

} // verus!
