//! The synthetic benchmark entry points of the fixture contracts.
use vstd::prelude::*;
use crate::pool::ConstantProductPool;

verus! {

/// 2^32, the modulus of `u32` wrapping arithmetic.
pub open spec fn u32_modulus() -> int {
    0x1_0000_0000
}

/// `0² + 1² + ... + (n-1)²`.
pub open spec fn sum_of_squares(n: nat) -> int
    decreases n,
{
    if n == 0 {
        0
    } else {
        sum_of_squares((n - 1) as nat) + (n - 1) * (n - 1)
    }
}

/// The numbers `0, 1, ..., min(n, 100) - 1` that `do_expensive_work` stores.
pub open spec fn stored_prefix(n: nat) -> Seq<u32> {
    let len: nat = if n < 100 { n } else { 100 };
    Seq::new(len, |i: int| i as u32)
}

/// Cross-contract call target of the fixture.
pub struct HelperContract;

impl HelperContract {
    /// Multiplies two `u32` values, wrapping on overflow.
    pub fn multiply(a: u32, b: u32) -> (r: u32)
        ensures
            r as int == (a * b) % u32_modulus(),
    {
        a.wrapping_mul(b)
    }
}

proof fn lemma_wrapping_step(acc: u32, i: u32, n: nat)
    requires
        acc as int == sum_of_squares(n) % u32_modulus(),
        i as int == n,
    ensures
        vstd::wrapping::u32_specs::wrapping_add(
            acc,
            vstd::wrapping::u32_specs::wrapping_mul(i, i),
        ) as int == sum_of_squares(n + 1) % u32_modulus(),
{
    let m = u32_modulus();
    let sq = vstd::wrapping::u32_specs::wrapping_mul(i, i);
    assert(sq as int == (i * i) % m);
    let sum = vstd::wrapping::u32_specs::wrapping_add(acc, sq);
    assert(sum as int == (acc + sq) % m) by {
        if acc + sq >= m {
            vstd::arithmetic::div_mod::lemma_fundamental_div_mod_converse(acc + sq, m, 1, acc + sq - m);
        } else {
            vstd::arithmetic::div_mod::lemma_small_mod((acc + sq) as nat, m as nat);
        }
    }
    vstd::arithmetic::div_mod::lemma_add_mod_noop(sum_of_squares(n), i * i, m);
    vstd::arithmetic::div_mod::lemma_mod_twice(i * i, m);
    assert(sum_of_squares(n + 1) == sum_of_squares(n) + i * i);
}

impl ConstantProductPool {
    /// The CPU-bound benchmark: the sum of `i²` for `i` in `0..n` with
    /// wrapping arithmetic, and the numbers `0..min(n, 100)` that the
    /// contract stores under the key `vec`.
    pub fn do_expensive_work(n: u32) -> (r: (u32, Vec<u32>))
        ensures
            r.0 as int == sum_of_squares(n as nat) % u32_modulus(),
            r.1@ == stored_prefix(n as nat),
    {
        let mut result: u32 = 0;
        let mut i: u32 = 0;
        while i < n
            invariant
                i <= n,
                result as int == sum_of_squares(i as nat) % u32_modulus(),
            decreases n - i,
        {
            proof {
                lemma_wrapping_step(result, i, i as nat);
            }
            result = result.wrapping_add(i.wrapping_mul(i));
            i = i + 1;
        }
        let limit: u32 = if n < 100 { n } else { 100 };
        let mut stored: Vec<u32> = Vec::new();
        let mut j: u32 = 0;
        while j < limit
            invariant
                j <= limit,
                limit as nat == stored_prefix(n as nat).len(),
                stored@ == stored_prefix(n as nat).subrange(0, j as int),
            decreases limit - j,
        {
            stored.push(j);
            j = j + 1;
            assert(stored@ =~= stored_prefix(n as nat).subrange(0, j as int));
        }
        assert(stored@ =~= stored_prefix(n as nat));
        (result, stored)
    }

    /// The 256-byte payload that `do_write_heavy_work` stores for entry `i`:
    /// every byte is the low byte of `i`.
    pub fn write_heavy_payload(i: u32) -> (r: Vec<u8>)
        ensures
            r@.len() == 256,
            forall|k: int| 0 <= k < 256 ==> r@[k] as int == (i as int) % 256,
    {
        let byte: u8 = (i % 256) as u8;
        let mut payload: Vec<u8> = Vec::new();
        let mut k: u32 = 0;
        while k < 256
            invariant
                k <= 256,
                byte as int == (i as int) % 256,
                payload@.len() == k,
                forall|m: int| 0 <= m < k ==> payload@[m] == byte,
            decreases 256 - k,
        {
            payload.push(byte);
            k = k + 1;
        }
        payload
    }
}

/// Progress of `do_cross_contract_work`: it calls the helper's `multiply`
/// with `(i, i)` for `i` in `0..n` and adds the products, wrapping.
pub struct CrossContractWork {
    pub n: u32,
    pub next: u32,
    pub result: u32,
}

impl CrossContractWork {
    /// Work that will make `n` calls.
    pub fn new(n: u32) -> (w: Self)
        ensures
            w.n == n && w.next == 0 && w.result == 0,
    {
        CrossContractWork { n, next: 0, result: 0 }
    }

    /// The arguments of the next call to the helper, or `None` when all `n`
    /// calls have been made.
    pub fn next_call(&self) -> (r: Option<(u32, u32)>)
        ensures
            self.next < self.n ==> r == Some((self.next, self.next)),
            self.next >= self.n ==> r is None,
    {
        if self.next < self.n {
            Some((self.next, self.next))
        } else {
            None
        }
    }

    /// Adds the product the helper returned for the pending call.
    pub fn record(&mut self, product: u32)
        requires
            old(self).next < old(self).n,
        ensures
            final(self).n == old(self).n,
            final(self).next == old(self).next + 1,
            final(self).result as int == (old(self).result + product) % u32_modulus(),
    {
        proof {
            let m = u32_modulus();
            let s = self.result + product;
            if s >= m {
                vstd::arithmetic::div_mod::lemma_fundamental_div_mod_converse(s, m, 1, s - m);
            } else {
                vstd::arithmetic::div_mod::lemma_small_mod(s as nat, m as nat);
            }
        }
        self.result = self.result.wrapping_add(product);
        self.next = self.next + 1;
    }
}

/// Against the helper contract, the cross-contract loop computes what the
/// CPU-bound loop computes: after each call whose product is `multiply(i, i)`,
/// the running result is the wrapped sum of squares of the calls made.
pub proof fn lemma_cross_contract_matches_expensive_work(w: CrossContractWork, product: u32)
    requires
        w.next < w.n,
        w.result as int == sum_of_squares(w.next as nat) % u32_modulus(),
        product as int == (w.next * w.next) % u32_modulus(),
    ensures
        (w.result + product) % u32_modulus() == sum_of_squares((w.next + 1) as nat)
            % u32_modulus(),
{
    let m = u32_modulus();
    let n = w.next as nat;
    vstd::arithmetic::div_mod::lemma_add_mod_noop(sum_of_squares(n), (n * n) as int, m);
    vstd::arithmetic::div_mod::lemma_mod_twice((n * n) as int, m);
    vstd::arithmetic::div_mod::lemma_mod_twice(sum_of_squares(n), m);
    assert(sum_of_squares(n + 1) == sum_of_squares(n) + n * n);
}

} // verus!
