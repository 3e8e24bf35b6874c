//! The constant-product AMM pool used as the benchmark fixture.
//!
//! The pool's state is the set of values the contract keeps in its instance
//! storage. Each operation maps a state and its arguments to either a new
//! state and a result, or the error that makes the contract call fail; the
//! contract glue (authorisation, storage, events) performs the effects.
use vstd::prelude::*;
use crate::arith::{div_toward_zero, floor_sqrt, in_i128, isqrt};

verus! {

/// Why a pool operation is refused. Every variant aborts the contract call.
#[derive(Debug, Clone, Copy, PartialEq, Eq, Structural)]
pub enum PoolError {
    /// `initialize` on a pool that already holds its reserves.
    AlreadyInitialized,
    /// An operation on a pool that was never initialized.
    NotInitialized,
    /// The amount paid out is below the caller's minimum.
    SlippageExceeded,
    /// An `i128` overflow, a division by zero, or the square root of a
    /// negative number.
    Arithmetic,
}

/// The state that the pool keeps in its instance storage.
///
/// `bal_a`, `bal_b` and `lp_bal` read as zero until first written.
#[derive(Debug, Clone, Copy, PartialEq, Eq, Structural)]
pub struct ConstantProductPool {
    pub initialized: bool,
    pub reserve_a: i128,
    pub reserve_b: i128,
    pub total_shares: i128,
    pub bal_a: i128,
    pub bal_b: i128,
    pub lp_bal: i128,
}

/// The pool state as mathematical integers.
pub struct PoolModel {
    pub initialized: bool,
    pub reserve_a: int,
    pub reserve_b: int,
    pub total_shares: int,
    pub bal_a: int,
    pub bal_b: int,
    pub lp_bal: int,
}

impl View for ConstantProductPool {
    type V = PoolModel;

    open spec fn view(&self) -> PoolModel {
        PoolModel {
            initialized: self.initialized,
            reserve_a: self.reserve_a as int,
            reserve_b: self.reserve_b as int,
            total_shares: self.total_shares as int,
            bal_a: self.bal_a as int,
            bal_b: self.bal_b as int,
            lp_bal: self.lp_bal as int,
        }
    }
}

impl PoolModel {
    /// Every field fits in an `i128`.
    pub open spec fn fits(self) -> bool {
        &&& in_i128(self.reserve_a)
        &&& in_i128(self.reserve_b)
        &&& in_i128(self.total_shares)
        &&& in_i128(self.bal_a)
        &&& in_i128(self.bal_b)
        &&& in_i128(self.lp_bal)
    }
}

/// `x + y - z` evaluated left to right stays in range at every step.
pub open spec fn add_sub_fits(x: int, y: int, z: int) -> bool {
    in_i128(x + y) && in_i128(x + y - z)
}

/// `x - y + z` evaluated left to right stays in range at every step.
pub open spec fn sub_add_fits(x: int, y: int, z: int) -> bool {
    in_i128(x - y) && in_i128(x - y + z)
}

/// `x * y / d` evaluated left to right stays defined and in range.
pub open spec fn mul_div_fits(x: int, y: int, d: int) -> bool {
    in_i128(x * y) && d != 0 && in_i128(div_toward_zero(x * y, d))
}

/// The result of `initialize` on pool `p`.
pub open spec fn initialize_outcome(p: PoolModel) -> Result<PoolModel, PoolError> {
    if p.initialized {
        Err(PoolError::AlreadyInitialized)
    } else {
        Ok(PoolModel { initialized: true, reserve_a: 0, reserve_b: 0, total_shares: 0, ..p })
    }
}

/// The LP shares minted for a deposit of `a` and `b`: the floor square root of
/// `a * b` for the first deposit, else the smaller of the two proportional
/// amounts. `None` where the arithmetic fails.
pub open spec fn deposit_shares(p: PoolModel, a: int, b: int) -> Option<int> {
    if p.total_shares == 0 {
        if in_i128(a * b) && a * b >= 0 {
            Some(floor_sqrt(a * b))
        } else {
            None
        }
    } else if mul_div_fits(a, p.total_shares, p.reserve_a) && mul_div_fits(
        b,
        p.total_shares,
        p.reserve_b,
    ) {
        let from_a = div_toward_zero(a * p.total_shares, p.reserve_a);
        let from_b = div_toward_zero(b * p.total_shares, p.reserve_b);
        Some(if from_a <= from_b { from_a } else { from_b })
    } else {
        None
    }
}

/// The result of depositing `a` of token A and `b` of token B into `p`: the
/// new state and the shares minted.
pub open spec fn deposit_outcome(p: PoolModel, a: int, b: int) -> Result<(PoolModel, int), PoolError> {
    if !p.initialized {
        Err(PoolError::NotInitialized)
    } else {
        match deposit_shares(p, a, b) {
            None => Err(PoolError::Arithmetic),
            Some(s) => {
                let q = PoolModel {
                    initialized: true,
                    reserve_a: p.reserve_a + a,
                    reserve_b: p.reserve_b + b,
                    total_shares: p.total_shares + s,
                    bal_a: p.bal_a + a,
                    bal_b: p.bal_b + b,
                    lp_bal: p.lp_bal + s,
                };
                if q.fits() {
                    Ok((q, s))
                } else {
                    Err(PoolError::Arithmetic)
                }
            },
        }
    }
}

/// The reserve that receives the input of a swap.
pub open spec fn in_reserve(p: PoolModel, a_in: bool) -> int {
    if a_in {
        p.reserve_a
    } else {
        p.reserve_b
    }
}

/// The reserve that pays the output of a swap.
pub open spec fn out_reserve(p: PoolModel, a_in: bool) -> int {
    if a_in {
        p.reserve_b
    } else {
        p.reserve_a
    }
}

/// The constant-product output of a swap, `out * amount_in / (in + amount_in)`,
/// rounded toward zero; `None` where the arithmetic fails.
pub open spec fn swap_amount_out(p: PoolModel, a_in: bool, amount_in: int) -> Option<int> {
    let inr = in_reserve(p, a_in);
    let outr = out_reserve(p, a_in);
    if in_i128(inr + amount_in) && mul_div_fits(outr, amount_in, inr + amount_in) {
        Some(div_toward_zero(outr * amount_in, inr + amount_in))
    } else {
        None
    }
}

/// The result of swapping `amount_in` of one token for the other, paying out
/// at least `min_out`: the new state and the amount paid out. The input token
/// flows into the pool and out of the user's tracked balance; the output token
/// flows out of the pool and into the user's tracked balance.
pub open spec fn swap_outcome(p: PoolModel, a_in: bool, amount_in: int, min_out: int) -> Result<
    (PoolModel, int),
    PoolError,
> {
    if !p.initialized {
        Err(PoolError::NotInitialized)
    } else {
        match swap_amount_out(p, a_in, amount_in) {
            None => Err(PoolError::Arithmetic),
            Some(out) => {
                if out < min_out {
                    Err(PoolError::SlippageExceeded)
                } else {
                    let add_a = if a_in { amount_in } else { 0 };
                    let sub_a = if a_in { 0 } else { out };
                    let add_b = if a_in { 0 } else { amount_in };
                    let sub_b = if a_in { out } else { 0 };
                    if sub_add_fits(p.bal_a, add_a, sub_a) && sub_add_fits(p.bal_b, add_b, sub_b)
                        && add_sub_fits(p.reserve_a, add_a, sub_a) && add_sub_fits(
                        p.reserve_b,
                        add_b,
                        sub_b,
                    ) {
                        Ok(
                            (
                                PoolModel {
                                    reserve_a: p.reserve_a + add_a - sub_a,
                                    reserve_b: p.reserve_b + add_b - sub_b,
                                    bal_a: p.bal_a - add_a + sub_a,
                                    bal_b: p.bal_b - add_b + sub_b,
                                    ..p
                                },
                                out,
                            ),
                        )
                    } else {
                        Err(PoolError::Arithmetic)
                    }
                }
            },
        }
    }
}

/// The result of redeeming `shares` LP shares for at least `min_a` of token A
/// and `min_b` of token B: the new state and the two amounts paid out.
pub open spec fn withdraw_outcome(p: PoolModel, shares: int, min_a: int, min_b: int) -> Result<
    (PoolModel, (int, int)),
    PoolError,
> {
    if !p.initialized {
        Err(PoolError::NotInitialized)
    } else if !mul_div_fits(p.reserve_a, shares, p.total_shares) || !mul_div_fits(
        p.reserve_b,
        shares,
        p.total_shares,
    ) {
        Err(PoolError::Arithmetic)
    } else {
        let amount_a = div_toward_zero(p.reserve_a * shares, p.total_shares);
        let amount_b = div_toward_zero(p.reserve_b * shares, p.total_shares);
        if amount_a < min_a || amount_b < min_b {
            Err(PoolError::SlippageExceeded)
        } else {
            let q = PoolModel {
                initialized: true,
                reserve_a: p.reserve_a - amount_a,
                reserve_b: p.reserve_b - amount_b,
                total_shares: p.total_shares - shares,
                bal_a: p.bal_a - amount_a,
                bal_b: p.bal_b - amount_b,
                lp_bal: p.lp_bal - shares,
            };
            if q.fits() {
                Ok((q, (amount_a, amount_b)))
            } else {
                Err(PoolError::Arithmetic)
            }
        }
    }
}

fn mul_div(x: i128, y: i128, d: i128) -> (r: Option<i128>)
    ensures
        r is Some <==> mul_div_fits(x as int, y as int, d as int),
        r matches Some(v) ==> v as int == div_toward_zero(x * y, d as int),
{
    match x.checked_mul(y) {
        None => None,
        Some(p) => p.checked_div(d),
    }
}

fn add_sub(x: i128, y: i128, z: i128) -> (r: Option<i128>)
    ensures
        r is Some <==> add_sub_fits(x as int, y as int, z as int),
        r matches Some(v) ==> v == x + y - z,
{
    match x.checked_add(y) {
        None => None,
        Some(s) => s.checked_sub(z),
    }
}

fn sub_add(x: i128, y: i128, z: i128) -> (r: Option<i128>)
    ensures
        r is Some <==> sub_add_fits(x as int, y as int, z as int),
        r matches Some(v) ==> v == x - y + z,
{
    match x.checked_sub(y) {
        None => None,
        Some(s) => s.checked_add(z),
    }
}

impl ConstantProductPool {
    /// A pool that has not been initialized: nothing is stored yet.
    pub fn new() -> (p: Self)
        ensures
            !p.initialized,
            p.reserve_a == 0 && p.reserve_b == 0 && p.total_shares == 0,
            p.bal_a == 0 && p.bal_b == 0 && p.lp_bal == 0,
    {
        ConstantProductPool {
            initialized: false,
            reserve_a: 0,
            reserve_b: 0,
            total_shares: 0,
            bal_a: 0,
            bal_b: 0,
            lp_bal: 0,
        }
    }

    /// Sets both reserves and the share supply to zero; refused when the pool
    /// is already initialized.
    pub fn initialize(&mut self) -> (r: Result<(), PoolError>)
        ensures
            match initialize_outcome(old(self)@) {
                Ok(q) => r is Ok && final(self)@ == q,
                Err(e) => r == Err::<(), PoolError>(e) && *final(self) == *old(self),
            },
    {
        if self.initialized {
            return Err(PoolError::AlreadyInitialized);
        }
        self.initialized = true;
        self.reserve_a = 0;
        self.reserve_b = 0;
        self.total_shares = 0;
        Ok(())
    }

    /// Adds `amount_a` and `amount_b` to the pool and mints LP shares for
    /// them; returns the shares minted.
    pub fn deposit(&mut self, amount_a: i128, amount_b: i128) -> (r: Result<i128, PoolError>)
        ensures
            match deposit_outcome(old(self)@, amount_a as int, amount_b as int) {
                Ok((q, s)) => r == Ok::<i128, PoolError>(s as i128) && final(self)@ == q,
                Err(e) => r == Err::<i128, PoolError>(e) && *final(self) == *old(self),
            },
    {
        if !self.initialized {
            return Err(PoolError::NotInitialized);
        }
        let shares: i128 = if self.total_shares == 0 {
            match amount_a.checked_mul(amount_b) {
                None => return Err(PoolError::Arithmetic),
                Some(product) => {
                    if product < 0 {
                        return Err(PoolError::Arithmetic);
                    }
                    isqrt(product)
                },
            }
        } else {
            let from_a = match mul_div(amount_a, self.total_shares, self.reserve_a) {
                None => return Err(PoolError::Arithmetic),
                Some(v) => v,
            };
            let from_b = match mul_div(amount_b, self.total_shares, self.reserve_b) {
                None => return Err(PoolError::Arithmetic),
                Some(v) => v,
            };
            if from_a <= from_b {
                from_a
            } else {
                from_b
            }
        };
        let bal_a = match self.bal_a.checked_add(amount_a) {
            None => return Err(PoolError::Arithmetic),
            Some(v) => v,
        };
        let bal_b = match self.bal_b.checked_add(amount_b) {
            None => return Err(PoolError::Arithmetic),
            Some(v) => v,
        };
        let reserve_a = match self.reserve_a.checked_add(amount_a) {
            None => return Err(PoolError::Arithmetic),
            Some(v) => v,
        };
        let reserve_b = match self.reserve_b.checked_add(amount_b) {
            None => return Err(PoolError::Arithmetic),
            Some(v) => v,
        };
        let total_shares = match self.total_shares.checked_add(shares) {
            None => return Err(PoolError::Arithmetic),
            Some(v) => v,
        };
        let lp_bal = match self.lp_bal.checked_add(shares) {
            None => return Err(PoolError::Arithmetic),
            Some(v) => v,
        };
        self.bal_a = bal_a;
        self.bal_b = bal_b;
        self.reserve_a = reserve_a;
        self.reserve_b = reserve_b;
        self.total_shares = total_shares;
        self.lp_bal = lp_bal;
        Ok(shares)
    }

    /// Swaps `amount_in` of token A (when `is_a_in`) or token B for the other
    /// token at the constant-product price; returns the amount paid out.
    pub fn swap(&mut self, is_a_in: bool, amount_in: i128, min_amount_out: i128) -> (r: Result<
        i128,
        PoolError,
    >)
        ensures
            match swap_outcome(old(self)@, is_a_in, amount_in as int, min_amount_out as int) {
                Ok((q, out)) => r == Ok::<i128, PoolError>(out as i128) && final(self)@ == q,
                Err(e) => r == Err::<i128, PoolError>(e) && *final(self) == *old(self),
            },
    {
        if !self.initialized {
            return Err(PoolError::NotInitialized);
        }
        let (in_res, out_res) = if is_a_in {
            (self.reserve_a, self.reserve_b)
        } else {
            (self.reserve_b, self.reserve_a)
        };
        let denominator = match in_res.checked_add(amount_in) {
            None => return Err(PoolError::Arithmetic),
            Some(v) => v,
        };
        let amount_out = match mul_div(out_res, amount_in, denominator) {
            None => return Err(PoolError::Arithmetic),
            Some(v) => v,
        };
        if amount_out < min_amount_out {
            return Err(PoolError::SlippageExceeded);
        }
        let add_a: i128 = if is_a_in { amount_in } else { 0 };
        let sub_a: i128 = if is_a_in { 0 } else { amount_out };
        let add_b: i128 = if is_a_in { 0 } else { amount_in };
        let sub_b: i128 = if is_a_in { amount_out } else { 0 };
        let bal_a = match sub_add(self.bal_a, add_a, sub_a) {
            None => return Err(PoolError::Arithmetic),
            Some(v) => v,
        };
        let bal_b = match sub_add(self.bal_b, add_b, sub_b) {
            None => return Err(PoolError::Arithmetic),
            Some(v) => v,
        };
        let reserve_a = match add_sub(self.reserve_a, add_a, sub_a) {
            None => return Err(PoolError::Arithmetic),
            Some(v) => v,
        };
        let reserve_b = match add_sub(self.reserve_b, add_b, sub_b) {
            None => return Err(PoolError::Arithmetic),
            Some(v) => v,
        };
        self.bal_a = bal_a;
        self.bal_b = bal_b;
        self.reserve_a = reserve_a;
        self.reserve_b = reserve_b;
        Ok(amount_out)
    }

    /// Redeems `shares` LP shares for the proportional part of both reserves;
    /// returns the amounts of token A and token B paid out.
    pub fn withdraw(&mut self, shares: i128, min_a: i128, min_b: i128) -> (r: Result<
        (i128, i128),
        PoolError,
    >)
        ensures
            match withdraw_outcome(old(self)@, shares as int, min_a as int, min_b as int) {
                Ok((q, (a, b))) => r == Ok::<(i128, i128), PoolError>((a as i128, b as i128))
                    && final(self)@ == q,
                Err(e) => r == Err::<(i128, i128), PoolError>(e) && *final(self) == *old(self),
            },
    {
        if !self.initialized {
            return Err(PoolError::NotInitialized);
        }
        let amount_a = match mul_div(self.reserve_a, shares, self.total_shares) {
            None => return Err(PoolError::Arithmetic),
            Some(v) => v,
        };
        let amount_b = match mul_div(self.reserve_b, shares, self.total_shares) {
            None => return Err(PoolError::Arithmetic),
            Some(v) => v,
        };
        if amount_a < min_a || amount_b < min_b {
            return Err(PoolError::SlippageExceeded);
        }
        let bal_a = match self.bal_a.checked_sub(amount_a) {
            None => return Err(PoolError::Arithmetic),
            Some(v) => v,
        };
        let bal_b = match self.bal_b.checked_sub(amount_b) {
            None => return Err(PoolError::Arithmetic),
            Some(v) => v,
        };
        let reserve_a = match self.reserve_a.checked_sub(amount_a) {
            None => return Err(PoolError::Arithmetic),
            Some(v) => v,
        };
        let reserve_b = match self.reserve_b.checked_sub(amount_b) {
            None => return Err(PoolError::Arithmetic),
            Some(v) => v,
        };
        let total_shares = match self.total_shares.checked_sub(shares) {
            None => return Err(PoolError::Arithmetic),
            Some(v) => v,
        };
        let lp_bal = match self.lp_bal.checked_sub(shares) {
            None => return Err(PoolError::Arithmetic),
            Some(v) => v,
        };
        self.bal_a = bal_a;
        self.bal_b = bal_b;
        self.reserve_a = reserve_a;
        self.reserve_b = reserve_b;
        self.total_shares = total_shares;
        self.lp_bal = lp_bal;
        Ok((amount_a, amount_b))
    }
}

} // verus!
