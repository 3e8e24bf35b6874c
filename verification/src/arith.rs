//! Integer helpers shared by the pool: the `i128` range, division that
//! truncates toward zero (as Rust's `/` does), and the floor square root.
use vstd::prelude::*;

verus! {

/// `x` is representable as an `i128`.
pub open spec fn in_i128(x: int) -> bool {
    i128::MIN <= x <= i128::MAX
}

/// The quotient of `x / d` rounded toward zero, as Rust computes it for
/// signed integers.
pub open spec fn div_toward_zero(x: int, d: int) -> int {
    if x == 0 {
        0
    } else if x > 0 && d > 0 {
        x / d
    } else if x < 0 && d < 0 {
        ((x * -1) / (d * -1))
    } else if x < 0 {
        ((x * -1) / d) * -1
    } else {
        (x / (d * -1)) * -1
    }
}

/// `r` is the floor of the square root of `n`.
pub open spec fn is_floor_sqrt(n: int, r: int) -> bool {
    0 <= r && r * r <= n && n < (r + 1) * (r + 1)
}

/// The floor of the square root of a non-negative `n`.
pub open spec fn floor_sqrt(n: int) -> int {
    choose|r: int| #[trigger] is_floor_sqrt(n, r)
}

proof fn lemma_square_strictly_grows(r: int)
    requires
        r >= 0,
    ensures
        (r + 1) * (r + 1) < (r + 2) * (r + 2),
{
    assert((r + 1) * (r + 1) < (r + 2) * (r + 2)) by (nonlinear_arith)
        requires
            r >= 0,
    ;
}

proof fn lemma_floor_sqrt_exists(n: int)
    requires
        n >= 0,
    ensures
        exists|r: int| #[trigger] is_floor_sqrt(n, r),
    decreases n,
{
    if n == 0 {
        assert(is_floor_sqrt(0, 0));
    } else {
        lemma_floor_sqrt_exists(n - 1);
        let r = choose|r: int| #[trigger] is_floor_sqrt(n - 1, r);
        if n < (r + 1) * (r + 1) {
            assert(is_floor_sqrt(n, r));
        } else {
            lemma_square_strictly_grows(r);
            assert(is_floor_sqrt(n, r + 1));
        }
    }
}

proof fn lemma_floor_sqrt_unique(n: int, r1: int, r2: int)
    requires
        is_floor_sqrt(n, r1),
        is_floor_sqrt(n, r2),
    ensures
        r1 == r2,
{
    if r1 < r2 {
        assert((r1 + 1) * (r1 + 1) <= r2 * r2) by (nonlinear_arith)
            requires
                0 <= r1 < r2,
        ;
    } else if r2 < r1 {
        assert((r2 + 1) * (r2 + 1) <= r1 * r1) by (nonlinear_arith)
            requires
                0 <= r2 < r1,
        ;
    }
}

/// `floor_sqrt(n)` is the one floor square root of `n`.
pub proof fn lemma_floor_sqrt(n: int, r: int)
    requires
        n >= 0,
    ensures
        is_floor_sqrt(n, floor_sqrt(n)),
        is_floor_sqrt(n, r) ==> r == floor_sqrt(n),
{
    lemma_floor_sqrt_exists(n);
    if is_floor_sqrt(n, r) {
        lemma_floor_sqrt_unique(n, r, floor_sqrt(n));
    }
}

/// The floor of the square root of a non-negative `i128`.
pub fn isqrt(n: i128) -> (r: i128)
    requires
        n >= 0,
    ensures
        r as int == floor_sqrt(n as int),
{
    let m: u128 = n as u128;
    let mut lo: u128 = 0;
    let mut hi: u128 = 0x1_0000_0000_0000_0000;
    assert(m < hi * hi) by (nonlinear_arith)
        requires
            m < 0x8000_0000_0000_0000_0000_0000_0000_0000u128,
            hi == 0x1_0000_0000_0000_0000u128,
    ;
    while hi - lo > 1
        invariant
            lo < hi <= 0x1_0000_0000_0000_0000u128,
            lo * lo <= m,
            m < hi * hi,
        decreases hi - lo,
    {
        let mid: u128 = lo + (hi - lo) / 2;
        assert(mid * mid < 0x1_0000_0000_0000_0000_0000_0000_0000_0000) by (nonlinear_arith)
            requires
                mid < 0x1_0000_0000_0000_0000u128,
        ;
        if mid * mid <= m {
            lo = mid;
        } else {
            hi = mid;
        }
    }
    assert(lo * lo <= m);
    proof {
        lemma_floor_sqrt(n as int, lo as int);
    }
    lo as i128
}

} // verus!
