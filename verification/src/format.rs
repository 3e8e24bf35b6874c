//! Human-readable cost values: decimal digits grouped in threes with commas,
//! followed by the unit of the metric.
use vstd::prelude::*;
use crate::text::{contains_seq, push_char, str_contains};

verus! {

/// The ASCII digit for `d` in `0..10`.
pub open spec fn digit_char(d: int) -> char {
    (48 + d) as char
}

/// The decimal digits of `n`, most significant first, without leading zeros.
pub open spec fn decimal(n: nat) -> Seq<char>
    decreases n,
{
    if n < 10 {
        seq![digit_char(n as int)]
    } else {
        decimal(n / 10).push(digit_char((n % 10) as int))
    }
}

/// `digits` with a comma before every group of three counted from the right.
pub open spec fn with_commas(digits: Seq<char>) -> Seq<char>
    decreases digits.len(),
{
    if digits.len() <= 3 {
        digits
    } else {
        with_commas(digits.take(digits.len() - 3)) + seq![','] + digits.skip(digits.len() - 3)
    }
}

/// The unit appended to a value of `metric`: bytes for any metric whose name
/// contains `Bytes`, instructions for every other.
pub open spec fn unit_suffix(metric: Seq<char>) -> Seq<char> {
    if contains_seq(metric, "Bytes"@) {
        " B"@
    } else {
        " inst."@
    }
}

/// How `format_with_commas_and_units` renders `value` of `metric`.
pub open spec fn formatted_cost(value: nat, metric: Seq<char>) -> Seq<char> {
    with_commas(decimal(value)) + unit_suffix(metric)
}

proof fn lemma_decimal_small(n: nat)
    requires
        n < 1000,
    ensures
        n < 10 ==> decimal(n) == seq![digit_char(n as int)],
        10 <= n < 100 ==> decimal(n) == seq![digit_char((n / 10) as int), digit_char((n % 10) as int)],
        100 <= n ==> decimal(n) == seq![
            digit_char((n / 100) as int),
            digit_char(((n / 10) % 10) as int),
            digit_char((n % 10) as int),
        ],
{
    if n >= 10 {
        assert(decimal(n) == decimal(n / 10).push(digit_char((n % 10) as int)));
        if n >= 100 {
            let m = n / 10;
            assert(m >= 10);
            assert(m / 10 == n / 100);
            assert(m / 10 < 10);
            assert(decimal(m / 10) == seq![digit_char((m / 10) as int)]);
            assert(decimal(m) == decimal(m / 10).push(digit_char((m % 10) as int)));
            assert(decimal(m) =~= seq![digit_char((m / 10) as int), digit_char((m % 10) as int)]);
            assert(decimal(n) =~= seq![
                digit_char((n / 100) as int),
                digit_char(((n / 10) % 10) as int),
                digit_char((n % 10) as int),
            ]);
        } else {
            assert(decimal(n) =~= seq![digit_char((n / 10) as int), digit_char((n % 10) as int)]);
        }
    }
}

proof fn lemma_decimal_len(n: nat)
    ensures
        decimal(n).len() >= 1,
        n >= 10 ==> decimal(n).len() >= 2,
        n >= 100 ==> decimal(n).len() >= 3,
        n >= 1000 ==> decimal(n).len() >= 4,
    decreases n,
{
    if n >= 10 {
        lemma_decimal_len(n / 10);
    }
}

/// The last three digits of a number of four or more digits.
pub open spec fn last_three(n: nat) -> Seq<char> {
    seq![
        digit_char(((n / 100) % 10) as int),
        digit_char(((n / 10) % 10) as int),
        digit_char((n % 10) as int),
    ]
}

proof fn lemma_decimal_split(n: nat)
    requires
        n >= 1000,
    ensures
        decimal(n) == decimal(n / 1000) + last_three(n),
{
    let a = n / 10;
    let b = n / 100;
    assert(a / 10 == b);
    assert(b / 10 == n / 1000);
    assert(a % 10 == (n / 10) % 10);
    assert(b % 10 == (n / 100) % 10);
    assert(decimal(n) == decimal(a).push(digit_char((n % 10) as int)));
    assert(decimal(a) == decimal(b).push(digit_char((a % 10) as int)));
    assert(decimal(b) == decimal(n / 1000).push(digit_char((b % 10) as int)));
    assert(decimal(n) =~= decimal(n / 1000) + last_three(n));
}

proof fn lemma_with_commas_split(n: nat)
    requires
        n >= 1000,
    ensures
        with_commas(decimal(n)) == with_commas(decimal(n / 1000)) + seq![','] + last_three(n),
{
    lemma_decimal_split(n);
    lemma_decimal_len(n);
    let d = decimal(n);
    let hi = decimal(n / 1000);
    assert(d.take(d.len() - 3) =~= hi);
    assert(d.skip(d.len() - 3) =~= last_three(n));
}

/// `s` without its commas.
pub open spec fn strip_commas(s: Seq<char>) -> Seq<char>
    decreases s.len(),
{
    if s.len() == 0 {
        s
    } else if s.last() == ',' {
        strip_commas(s.drop_last())
    } else {
        strip_commas(s.drop_last()).push(s.last())
    }
}

proof fn lemma_strip_commas_concat(a: Seq<char>, b: Seq<char>)
    ensures
        strip_commas(a + b) == strip_commas(a) + strip_commas(b),
    decreases b.len(),
{
    if b.len() == 0 {
        assert(a + b =~= a);
        assert(strip_commas(a) + strip_commas(b) =~= strip_commas(a));
    } else {
        lemma_strip_commas_concat(a, b.drop_last());
        assert((a + b).drop_last() =~= a + b.drop_last());
        assert((a + b).last() == b.last());
        assert(strip_commas(a + b) =~= strip_commas(a) + strip_commas(b));
    }
}

/// The separators are the only thing grouping adds: removing the commas from
/// a grouped run of digits gives back the digits, so a formatted value reads
/// as the same number.
pub proof fn lemma_grouping_keeps_digits(digits: Seq<char>)
    requires
        forall|i: int| 0 <= i < digits.len() ==> digits[i] != ',',
    ensures
        strip_commas(with_commas(digits)) == digits,
    decreases digits.len(),
{
    lemma_strip_no_commas(digits);
    if digits.len() > 3 {
        let hi = digits.take(digits.len() - 3);
        let lo = digits.skip(digits.len() - 3);
        lemma_grouping_keeps_digits(hi);
        lemma_strip_commas_concat(with_commas(hi) + seq![','], lo);
        lemma_strip_commas_concat(with_commas(hi), seq![',']);
        lemma_strip_no_commas(lo);
        assert(strip_commas(seq![',']) =~= Seq::<char>::empty()) by {
            assert(seq![','].drop_last() =~= Seq::<char>::empty());
            assert(seq![','].last() == ',');
            assert(strip_commas(Seq::<char>::empty()) =~= Seq::<char>::empty());
        }
        assert(hi + lo =~= digits);
    }
}

proof fn lemma_strip_no_commas(s: Seq<char>)
    requires
        forall|i: int| 0 <= i < s.len() ==> s[i] != ',',
    ensures
        strip_commas(s) == s,
    decreases s.len(),
{
    if s.len() > 0 {
        lemma_strip_no_commas(s.drop_last());
        assert(s.drop_last().push(s.last()) =~= s);
    }
}

/// Every character of `decimal(n)` is a digit.
pub proof fn lemma_decimal_digits(n: nat)
    ensures
        forall|i: int| 0 <= i < decimal(n).len() ==> '0' <= #[trigger] decimal(n)[i] <= '9',
    decreases n,
{
    let d = (n % 10) as int;
    assert('0' <= digit_char(d) <= '9');
    if n >= 10 {
        lemma_decimal_digits(n / 10);
        assert forall|i: int| 0 <= i < decimal(n).len() implies '0' <= #[trigger] decimal(n)[i]
            <= '9' by {
            if i < decimal(n / 10).len() {
                assert(decimal(n)[i] == decimal(n / 10)[i]);
            }
        }
    }
}

/// A formatted value reads back as the same number: its commas removed,
/// the grouped part is the plain decimal numeral of the value.
pub proof fn lemma_formatted_value_keeps_digits(value: nat)
    ensures
        strip_commas(with_commas(decimal(value))) == decimal(value),
{
    lemma_decimal_digits(value);
    assert forall|i: int| 0 <= i < decimal(value).len() implies decimal(value)[i] != ',' by {
        assert('0' <= decimal(value)[i] <= '9');
    }
    lemma_grouping_keeps_digits(decimal(value));
}

fn digit(d: u64) -> (c: char)
    requires
        d < 10,
    ensures
        c == digit_char(d as int),
{
    ((48 + d) as u8) as char
}

/// Appends the digits of `n`, grouped with commas, to `s`.
fn push_grouped(s: &mut String, n: u64)
    ensures
        final(s)@ == old(s)@ + with_commas(decimal(n as nat)),
    decreases n,
{
    if n < 1000 {
        proof {
            lemma_decimal_small(n as nat);
            lemma_decimal_len(n as nat);
        }
        let ghost start = s@;
        if n >= 100 {
            push_char(s, digit(n / 100));
        }
        if n >= 10 {
            push_char(s, digit((n / 10) % 10));
        }
        push_char(s, digit(n % 10));
        proof {
            if n < 10 {
                assert(s@ =~= start + decimal(n as nat));
            } else if n < 100 {
                assert(s@ =~= start + decimal(n as nat));
            } else {
                assert(s@ =~= start + decimal(n as nat));
            }
        }
    } else {
        let ghost start = s@;
        push_grouped(s, n / 1000);
        push_char(s, ',');
        push_char(s, digit((n / 100) % 10));
        push_char(s, digit((n / 10) % 10));
        push_char(s, digit(n % 10));
        proof {
            lemma_with_commas_split(n as nat);
            assert(s@ =~= start + with_commas(decimal(n as nat)));
        }
    }
}

/// Appends the digits of `n` to `s`, without separators.
pub(crate) fn push_decimal(s: &mut String, n: u64)
    ensures
        final(s)@ == old(s)@ + decimal(n as nat),
    decreases n,
{
    if n < 10 {
        push_char(s, digit(n));
        assert(s@ =~= old(s)@ + decimal(n as nat));
    } else {
        let ghost start = s@;
        push_decimal(s, n / 10);
        push_char(s, digit(n % 10));
        assert(s@ =~= start + decimal(n as nat));
    }
}

/// Renders a cost value for display: its digits grouped in threes with
/// commas, then ` B` when the metric's name contains `Bytes` and ` inst.`
/// otherwise. For example `1000000` of `CPU Instructions` is
/// `1,000,000 inst.`.
pub fn format_with_commas_and_units(value: u64, metric: &str) -> (r: String)
    ensures
        r@ == formatted_cost(value as nat, metric@),
{
    let mut s = String::new();
    push_grouped(&mut s, value);
    let is_bytes = str_contains(metric, "Bytes");
    let unit: &str = if is_bytes {
        " B"
    } else {
        " inst."
    };
    s.append(unit);
    s
}

} // verus!
