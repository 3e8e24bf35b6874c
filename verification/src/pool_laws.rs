//! Properties that hold across the pool's operations.
use vstd::prelude::*;
use crate::arith::div_toward_zero;
use crate::arith::in_i128;
use crate::pool::{
    deposit_outcome, deposit_shares, in_reserve, out_reserve, swap_amount_out, swap_outcome,
    withdraw_outcome, PoolError, PoolModel,
};

verus! {

/// A swap moves each token between the user's tracked balance and the pool
/// without creating or destroying any: the input token leaves the balance
/// and enters the reserve, the output token leaves the reserve and enters
/// the balance, and the shares are untouched.
pub proof fn lemma_swap_conserves_tokens(p: PoolModel, a_in: bool, amount_in: int, min_out: int)
    ensures
        swap_outcome(p, a_in, amount_in, min_out) matches Ok((q, out)) ==> {
            &&& q.bal_a + q.reserve_a == p.bal_a + p.reserve_a
            &&& q.bal_b + q.reserve_b == p.bal_b + p.reserve_b
            &&& q.reserve_a - p.reserve_a == (if a_in { amount_in } else { -out })
            &&& q.reserve_b - p.reserve_b == (if a_in { -out } else { amount_in })
            &&& q.total_shares == p.total_shares
            &&& q.lp_bal == p.lp_bal
        },
{
}

/// A deposit or a withdrawal moves the tracked balances and the LP balance
/// by the same amounts as the reserves and the share supply.
pub proof fn lemma_liquidity_moves_balances_with_reserves(
    p: PoolModel,
    a: int,
    b: int,
    shares: int,
    min_a: int,
    min_b: int,
)
    ensures
        deposit_outcome(p, a, b) matches Ok((q, s)) ==> {
            &&& q.bal_a - p.bal_a == a && q.reserve_a - p.reserve_a == a
            &&& q.bal_b - p.bal_b == b && q.reserve_b - p.reserve_b == b
            &&& q.lp_bal - p.lp_bal == s && q.total_shares - p.total_shares == s
        },
        withdraw_outcome(p, shares, min_a, min_b) matches Ok((q, (oa, ob))) ==> {
            &&& p.bal_a - q.bal_a == oa && p.reserve_a - q.reserve_a == oa
            &&& p.bal_b - q.bal_b == ob && p.reserve_b - q.reserve_b == ob
            &&& p.lp_bal - q.lp_bal == shares && p.total_shares - q.total_shares == shares
        },
{
}

proof fn lemma_exact_quotient(x: int, s: int)
    requires
        s > 0,
    ensures
        div_toward_zero(x * s, s) == x,
{
    if x > 0 {
        assert(x * s > 0) by (nonlinear_arith)
            requires
                x > 0,
                s > 0,
        ;
        vstd::arithmetic::div_mod::lemma_div_multiples_vanish(x, s);
        assert(s * x == x * s) by (nonlinear_arith);
    } else if x < 0 {
        assert(x * s < 0) by (nonlinear_arith)
            requires
                x < 0,
                s > 0,
        ;
        assert(x * s * -1 == (-x) * s) by (nonlinear_arith);
        vstd::arithmetic::div_mod::lemma_div_multiples_vanish(-x, s);
        assert(s * (-x) == (-x) * s) by (nonlinear_arith);
    } else {
        assert(x * s == 0);
    }
}

/// Withdrawing every share minted by the first deposit into an empty pool
/// pays back exactly what was deposited and restores the pool, wherever the
/// pay-out arithmetic (`amount * shares`) fits in an `i128`.
pub proof fn lemma_withdraw_all_undoes_first_deposit(p: PoolModel, a: int, b: int)
    requires
        p.initialized,
        p.fits(),
        p.reserve_a == 0,
        p.reserve_b == 0,
        p.total_shares == 0,
        deposit_outcome(p, a, b) matches Ok((q, s)) && s > 0 && in_i128(a * s) && in_i128(b * s),
    ensures
        deposit_outcome(p, a, b) matches Ok((q, s)) && withdraw_outcome(q, s, a, b) == Ok::<
            (PoolModel, (int, int)),
            PoolError,
        >((p, (a, b))),
{
    let s = deposit_outcome(p, a, b)->Ok_0.1;
    lemma_exact_quotient(a, s);
    lemma_exact_quotient(b, s);
    assert(a * s == s * a) by (nonlinear_arith);
}

proof fn lemma_floor_quotient_bound(x: int, d: int)
    requires
        x >= 0,
        d > 0,
    ensures
        div_toward_zero(x, d) == x / d,
        0 <= x / d,
        d * (x / d) <= x,
{
    vstd::arithmetic::div_mod::lemma_fundamental_div_mod(x, d);
    vstd::arithmetic::div_mod::lemma_div_pos_is_pos(x, d);
    assert(x % d >= 0) by {
        vstd::arithmetic::div_mod::lemma_mod_pos_bound(x, d);
    }
}

/// A swap pays out no more than the reserve it draws from, and never a
/// negative amount, when the reserves and the input are non-negative.
pub proof fn lemma_swap_pays_within_reserve(p: PoolModel, a_in: bool, amount_in: int, min_out: int)
    requires
        p.reserve_a >= 0,
        p.reserve_b >= 0,
        amount_in >= 0,
        swap_outcome(p, a_in, amount_in, min_out) is Ok,
    ensures
        swap_amount_out(p, a_in, amount_in) matches Some(out) && 0 <= out <= out_reserve(p, a_in),
        swap_outcome(p, a_in, amount_in, min_out) matches Ok((q, _)) && q.reserve_a >= 0
            && q.reserve_b >= 0,
{
    let inr = in_reserve(p, a_in);
    let outr = out_reserve(p, a_in);
    let den = inr + amount_in;
    let x = outr * amount_in;
    assert(x >= 0) by (nonlinear_arith)
        requires
            outr >= 0,
            amount_in >= 0,
            x == outr * amount_in,
    ;
    lemma_floor_quotient_bound(x, den);
    let out = x / den;
    assert(out <= outr) by (nonlinear_arith)
        requires
            den * out <= x,
            x == outr * amount_in,
            amount_in <= den,
            den > 0,
            outr >= 0,
            out >= 0,
    ;
}

/// With no fee and the output rounded down, a swap never lowers the product
/// of the two reserves, when the reserves and the input are non-negative.
pub proof fn lemma_swap_never_decreases_product(
    p: PoolModel,
    a_in: bool,
    amount_in: int,
    min_out: int,
)
    requires
        p.reserve_a >= 0,
        p.reserve_b >= 0,
        amount_in >= 0,
        swap_outcome(p, a_in, amount_in, min_out) is Ok,
    ensures
        swap_outcome(p, a_in, amount_in, min_out) matches Ok((q, _)) && q.reserve_a * q.reserve_b
            >= p.reserve_a * p.reserve_b,
{
    let inr = in_reserve(p, a_in);
    let outr = out_reserve(p, a_in);
    let den = inr + amount_in;
    let x = outr * amount_in;
    assert(x >= 0) by (nonlinear_arith)
        requires
            outr >= 0,
            amount_in >= 0,
            x == outr * amount_in,
    ;
    lemma_floor_quotient_bound(x, den);
    let out = x / den;
    assert(den * (outr - out) >= inr * outr) by (nonlinear_arith)
        requires
            den * out <= x,
            x == outr * amount_in,
            den == inr + amount_in,
    ;
    if a_in {
        assert((inr + amount_in) * (outr - out) >= inr * outr);
    } else {
        assert((outr - out) * (inr + amount_in) >= outr * inr) by (nonlinear_arith)
            requires
                den * (outr - out) >= inr * outr,
                den == inr + amount_in,
        ;
    }
}

/// Redeeming at most the outstanding shares pays out a non-negative part of
/// each reserve, never more than the reserve holds.
pub proof fn lemma_withdraw_within_reserves(p: PoolModel, shares: int, min_a: int, min_b: int)
    requires
        p.reserve_a >= 0,
        p.reserve_b >= 0,
        0 <= shares <= p.total_shares,
        withdraw_outcome(p, shares, min_a, min_b) is Ok,
    ensures
        withdraw_outcome(p, shares, min_a, min_b) matches Ok((q, (amount_a, amount_b))) && 0
            <= amount_a <= p.reserve_a && 0 <= amount_b <= p.reserve_b && q.reserve_a >= 0
            && q.reserve_b >= 0 && q.total_shares >= 0,
{
    let t = p.total_shares;
    let xa = p.reserve_a * shares;
    let xb = p.reserve_b * shares;
    assert(xa >= 0 && xb >= 0) by (nonlinear_arith)
        requires
            p.reserve_a >= 0,
            p.reserve_b >= 0,
            shares >= 0,
            xa == p.reserve_a * shares,
            xb == p.reserve_b * shares,
    ;
    lemma_floor_quotient_bound(xa, t);
    lemma_floor_quotient_bound(xb, t);
    assert(xa / t <= p.reserve_a) by (nonlinear_arith)
        requires
            t * (xa / t) <= xa,
            xa == p.reserve_a * shares,
            shares <= t,
            t > 0,
            p.reserve_a >= 0,
            xa / t >= 0,
    ;
    assert(xb / t <= p.reserve_b) by (nonlinear_arith)
        requires
            t * (xb / t) <= xb,
            xb == p.reserve_b * shares,
            shares <= t,
            t > 0,
            p.reserve_b >= 0,
            xb / t >= 0,
    ;
}

/// Swapping the proceeds of a swap straight back never returns more than
/// was put in, when the reserves and the input are non-negative.
pub proof fn lemma_swap_round_trip_never_profits(
    p: PoolModel,
    a_in: bool,
    amount_in: int,
    min_out: int,
    min_back: int,
)
    requires
        p.reserve_a >= 0,
        p.reserve_b >= 0,
        amount_in >= 0,
        swap_outcome(p, a_in, amount_in, min_out) is Ok,
        swap_outcome(p, a_in, amount_in, min_out) matches Ok((q, out)) && swap_outcome(
            q,
            !a_in,
            out,
            min_back,
        ) is Ok,
    ensures
        swap_outcome(p, a_in, amount_in, min_out) matches Ok((q, out)) && swap_outcome(
            q,
            !a_in,
            out,
            min_back,
        ) matches Ok((_, back)) && back <= amount_in,
{
    let inr = in_reserve(p, a_in);
    let outr = out_reserve(p, a_in);
    let den = inr + amount_in;
    let x = outr * amount_in;
    assert(x >= 0) by (nonlinear_arith)
        requires
            outr >= 0,
            amount_in >= 0,
            x == outr * amount_in,
    ;
    lemma_floor_quotient_bound(x, den);
    lemma_swap_pays_within_reserve(p, a_in, amount_in, min_out);
    let out = x / den;
    // Back through the pool: the input reserve is now `outr - out`, the
    // output reserve `den`, and the input `out`.
    let den2 = outr - out + out;
    let x2 = den * out;
    assert(x2 >= 0) by (nonlinear_arith)
        requires
            den > 0,
            out >= 0,
            x2 == den * out,
    ;
    assert(den2 == outr);
    assert(den2 > 0);
    lemma_floor_quotient_bound(x2, den2);
    let back = x2 / den2;
    assert(back <= amount_in) by (nonlinear_arith)
        requires
            den2 * back <= x2,
            x2 == den * out,
            den * out <= x,
            x == outr * amount_in,
            den2 == outr,
            outr > 0,
            back >= 0,
    ;
    if a_in {
        assert(in_reserve(swap_outcome(p, a_in, amount_in, min_out)->Ok_0.0, !a_in) == outr - out);
    } else {
        assert(in_reserve(swap_outcome(p, a_in, amount_in, min_out)->Ok_0.0, !a_in) == outr - out);
    }
}

/// A deposit into a pool that already has shares never dilutes the existing
/// holders: the shares minted are at most proportional to either amount.
pub proof fn lemma_deposit_never_dilutes(p: PoolModel, a: int, b: int)
    requires
        p.reserve_a > 0,
        p.reserve_b > 0,
        p.total_shares > 0,
        a >= 0,
        b >= 0,
        deposit_outcome(p, a, b) is Ok,
    ensures
        deposit_outcome(p, a, b) matches Ok((_, s)) && s * p.reserve_a <= a * p.total_shares && s
            * p.reserve_b <= b * p.total_shares,
{
    let t = p.total_shares;
    let xa = a * t;
    let xb = b * t;
    assert(xa >= 0 && xb >= 0) by (nonlinear_arith)
        requires
            a >= 0,
            b >= 0,
            t > 0,
            xa == a * t,
            xb == b * t,
    ;
    lemma_floor_quotient_bound(xa, p.reserve_a);
    lemma_floor_quotient_bound(xb, p.reserve_b);
    let fa = xa / p.reserve_a;
    let fb = xb / p.reserve_b;
    assert(deposit_shares(p, a, b) == Some(if fa <= fb { fa } else { fb }));
    let s = if fa <= fb { fa } else { fb };
    assert(s * p.reserve_a <= xa) by (nonlinear_arith)
        requires
            s <= fa,
            p.reserve_a * fa <= xa,
            p.reserve_a > 0,
    ;
    assert(s * p.reserve_b <= xb) by (nonlinear_arith)
        requires
            s <= fb,
            p.reserve_b * fb <= xb,
            p.reserve_b > 0,
    ;
}

/// A swap pays the constant-product amount `out * amount_in / (in +
/// amount_in)` (rounded toward zero) and never less than the caller's
/// minimum: in either direction, when that amount is below `min_out` the
/// swap is refused with `SlippageExceeded` (and, by `swap`'s contract, the
/// pool is left unchanged).
pub proof fn lemma_swap_respects_minimum(p: PoolModel, a_in: bool, amount_in: int, min_out: int)
    ensures
        ({
            let inr = if a_in { p.reserve_a } else { p.reserve_b };
            let outr = if a_in { p.reserve_b } else { p.reserve_a };
            let amount = div_toward_zero(outr * amount_in, inr + amount_in);
            &&& swap_outcome(p, a_in, amount_in, min_out) matches Ok((q, out)) ==> out >= min_out
                && out == amount
            &&& (p.initialized && in_i128(inr + amount_in) && in_i128(outr * amount_in) && inr
                + amount_in != 0 && in_i128(amount) && amount < min_out) ==> swap_outcome(
                p,
                a_in,
                amount_in,
                min_out,
            ) == Err::<(PoolModel, int), PoolError>(PoolError::SlippageExceeded)
        }),
{
}

/// A withdrawal pays `reserve * shares / total_shares` of each token
/// (rounded toward zero) and never less than the caller's minimum for
/// either token: when either amount is below its minimum the withdrawal is
/// refused with `SlippageExceeded`.
pub proof fn lemma_withdraw_respects_minimums(p: PoolModel, shares: int, min_a: int, min_b: int)
    ensures
        ({
            let amount_a = div_toward_zero(p.reserve_a * shares, p.total_shares);
            let amount_b = div_toward_zero(p.reserve_b * shares, p.total_shares);
            &&& withdraw_outcome(p, shares, min_a, min_b) matches Ok((q, (oa, ob))) ==> oa >= min_a
                && ob >= min_b && oa == amount_a && ob == amount_b
            &&& (p.initialized && p.total_shares != 0 && in_i128(p.reserve_a * shares) && in_i128(
                p.reserve_b * shares,
            ) && in_i128(amount_a) && in_i128(amount_b) && (amount_a < min_a || amount_b
                < min_b)) ==> withdraw_outcome(p, shares, min_a, min_b) == Err::<
                (PoolModel, (int, int)),
                PoolError,
            >(PoolError::SlippageExceeded)
        }),
{
}

} // verus!
