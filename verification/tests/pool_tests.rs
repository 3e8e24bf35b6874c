use soroban_budget_assert::arith::isqrt;
use soroban_budget_assert::bench::{CrossContractWork, HelperContract};
use soroban_budget_assert::pool::{ConstantProductPool, PoolError};

fn initialized_pool() -> ConstantProductPool {
    let mut pool = ConstantProductPool::new();
    pool.initialize().expect("fresh pool initializes");
    pool
}

#[test]
fn initialize_sets_empty_reserves() {
    let pool = initialized_pool();
    assert!(pool.initialized);
    assert_eq!((pool.reserve_a, pool.reserve_b, pool.total_shares), (0, 0, 0));
}

#[test]
fn initialize_twice_is_refused_and_keeps_state() {
    let mut pool = initialized_pool();
    pool.deposit(10_000, 10_000).unwrap();
    let before = pool;
    assert_eq!(pool.initialize(), Err(PoolError::AlreadyInitialized));
    assert_eq!(pool, before);
}

#[test]
fn operations_before_initialize_are_refused() {
    let mut pool = ConstantProductPool::new();
    assert_eq!(pool.deposit(1, 1), Err(PoolError::NotInitialized));
    assert_eq!(pool.swap(true, 1, 0), Err(PoolError::NotInitialized));
    assert_eq!(pool.withdraw(1, 0, 0), Err(PoolError::NotInitialized));
    assert_eq!(pool, ConstantProductPool::new());
}

#[test]
fn first_deposit_mints_geometric_mean() {
    let mut pool = initialized_pool();
    assert_eq!(pool.deposit(10_000, 10_000), Ok(10_000));
    assert_eq!(pool.reserve_a, 10_000);
    assert_eq!(pool.reserve_b, 10_000);
    assert_eq!(pool.total_shares, 10_000);
    assert_eq!(pool.lp_bal, 10_000);
}

#[test]
fn first_deposit_rounds_square_root_down() {
    let mut pool = initialized_pool();
    // sqrt(2 * 5) = 3.16...
    assert_eq!(pool.deposit(2, 5), Ok(3));
}

#[test]
fn later_deposit_mints_the_smaller_proportion() {
    let mut pool = initialized_pool();
    pool.deposit(10_000, 10_000).unwrap();
    // from_a = 1000 * 10000 / 10000 = 1000, from_b = 500 * 10000 / 10000 = 500
    assert_eq!(pool.deposit(1_000, 500), Ok(500));
    assert_eq!(pool.reserve_a, 11_000);
    assert_eq!(pool.reserve_b, 10_500);
    assert_eq!(pool.total_shares, 10_500);
}

#[test]
fn deposit_with_negative_product_is_refused() {
    let mut pool = initialized_pool();
    assert_eq!(pool.deposit(-4, 9), Err(PoolError::Arithmetic));
}

#[test]
fn deposit_overflow_is_refused() {
    let mut pool = initialized_pool();
    assert_eq!(pool.deposit(i128::MAX, 2), Err(PoolError::Arithmetic));
}

#[test]
fn readme_scenario_deposit_swap_withdraw() {
    let mut pool = initialized_pool();
    assert_eq!(pool.deposit(10_000, 10_000), Ok(10_000));
    // 10000 * 100 / 10100 = 99
    assert_eq!(pool.swap(true, 100, 90), Ok(99));
    assert_eq!(pool.reserve_a, 10_100);
    assert_eq!(pool.reserve_b, 9_901);
    // 10100 * 1000 / 10000 = 1010, 9901 * 1000 / 10000 = 990
    assert_eq!(pool.withdraw(1_000, 900, 900), Ok((1_010, 990)));
    assert_eq!(pool.reserve_a, 9_090);
    assert_eq!(pool.reserve_b, 8_911);
    assert_eq!(pool.total_shares, 9_000);
    // The swap moved A out of and B into the user's tracked balances:
    // 10000 - 100 - 1010 and 10000 + 99 - 990.
    assert_eq!(pool.bal_a, 8_890);
    assert_eq!(pool.bal_b, 9_109);
    assert_eq!(pool.lp_bal, pool.total_shares);
}

#[test]
fn swap_moves_input_out_of_and_output_into_tracked_balances() {
    let mut pool = initialized_pool();
    pool.deposit(10_000, 20_000).unwrap();
    let out = pool.swap(false, 1_000, 0).unwrap();
    assert_eq!(out, 476);
    assert_eq!(pool.bal_b, 20_000 - 1_000);
    assert_eq!(pool.bal_a, 10_000 + 476);
    assert_eq!(pool.bal_a + pool.reserve_a, 20_000);
    assert_eq!(pool.bal_b + pool.reserve_b, 40_000);
}

#[test]
fn withdrawing_all_first_shares_returns_the_deposit() {
    let mut pool = initialized_pool();
    let shares = pool.deposit(4_000, 9_000).unwrap();
    assert_eq!(shares, 6_000);
    assert_eq!(pool.withdraw(shares, 4_000, 9_000), Ok((4_000, 9_000)));
    assert_eq!(pool, initialized_pool());
}

#[test]
fn swap_b_for_a() {
    let mut pool = initialized_pool();
    pool.deposit(10_000, 20_000).unwrap();
    // out = 10000 * 1000 / (20000 + 1000) = 476
    assert_eq!(pool.swap(false, 1_000, 0), Ok(476));
    assert_eq!(pool.reserve_a, 9_524);
    assert_eq!(pool.reserve_b, 21_000);
}

#[test]
fn swap_below_minimum_is_refused_and_keeps_state() {
    let mut pool = initialized_pool();
    pool.deposit(10_000, 10_000).unwrap();
    let before = pool;
    assert_eq!(pool.swap(true, 100, 100), Err(PoolError::SlippageExceeded));
    assert_eq!(pool, before);
}

#[test]
fn swap_on_empty_pool_divides_by_zero() {
    let mut pool = initialized_pool();
    assert_eq!(pool.swap(true, 0, 0), Err(PoolError::Arithmetic));
}

#[test]
fn swap_never_lowers_reserve_product() {
    let mut pool = initialized_pool();
    pool.deposit(12_345, 67_890).unwrap();
    let k_before = pool.reserve_a * pool.reserve_b;
    pool.swap(true, 777, 0).unwrap();
    assert!(pool.reserve_a * pool.reserve_b >= k_before);
}

#[test]
fn withdraw_below_minimum_is_refused() {
    let mut pool = initialized_pool();
    pool.deposit(10_000, 10_000).unwrap();
    assert_eq!(pool.withdraw(1_000, 1_001, 0), Err(PoolError::SlippageExceeded));
}

#[test]
fn withdraw_from_empty_supply_divides_by_zero() {
    let mut pool = initialized_pool();
    assert_eq!(pool.withdraw(1, 0, 0), Err(PoolError::Arithmetic));
}

#[test]
fn withdraw_all_shares_empties_the_pool() {
    let mut pool = initialized_pool();
    pool.deposit(10_000, 40_000).unwrap();
    let shares = pool.total_shares;
    assert_eq!(pool.withdraw(shares, 0, 0), Ok((10_000, 40_000)));
    assert_eq!((pool.reserve_a, pool.reserve_b, pool.total_shares), (0, 0, 0));
}

#[test]
fn isqrt_values() {
    assert_eq!(isqrt(0), 0);
    assert_eq!(isqrt(1), 1);
    assert_eq!(isqrt(15), 3);
    assert_eq!(isqrt(16), 4);
    assert_eq!(isqrt(100_000_000), 10_000);
    let big = i128::MAX;
    let r = isqrt(big);
    assert!(r * r <= big);
    assert!((r + 1).checked_mul(r + 1).map_or(true, |sq| sq > big));
}

#[test]
fn multiply_wraps() {
    assert_eq!(HelperContract::multiply(6, 7), 42);
    assert_eq!(HelperContract::multiply(u32::MAX, 2), u32::MAX - 1);
    assert_eq!(HelperContract::multiply(0x1_0000, 0x1_0000), 0);
}

#[test]
fn expensive_work_sums_squares() {
    let (sum, stored) = ConstantProductPool::do_expensive_work(10);
    assert_eq!(sum, 285);
    assert_eq!(stored, (0..10).collect::<Vec<u32>>());
    let (_, stored) = ConstantProductPool::do_expensive_work(250);
    assert_eq!(stored, (0..100).collect::<Vec<u32>>());
    let (sum, stored) = ConstantProductPool::do_expensive_work(0);
    assert_eq!(sum, 0);
    assert!(stored.is_empty());
}

#[test]
fn expensive_work_wraps() {
    let n: u32 = 10_000;
    let expected = (0..n as u64).map(|i| i * i).sum::<u64>() % (1u64 << 32);
    let (sum, _) = ConstantProductPool::do_expensive_work(n);
    assert_eq!(u64::from(sum), expected);
}

#[test]
fn write_heavy_payload_repeats_low_byte() {
    let p = ConstantProductPool::write_heavy_payload(3);
    assert_eq!(p, vec![3u8; 256]);
    let p = ConstantProductPool::write_heavy_payload(257);
    assert_eq!(p, vec![1u8; 256]);
}

#[test]
fn cross_contract_work_matches_expensive_work() {
    let n: u32 = 1_000;
    let mut work = CrossContractWork::new(n);
    let mut calls = 0u32;
    while let Some((a, b)) = work.next_call() {
        assert_eq!((a, b), (calls, calls));
        let product = HelperContract::multiply(a, b);
        work.record(product);
        calls += 1;
    }
    assert_eq!(calls, n);
    let (expected, _) = ConstantProductPool::do_expensive_work(n);
    assert_eq!(work.result, expected);
}

#[test]
fn swap_round_trip_returns_no_more_than_was_put_in() {
    let mut pool = initialized_pool();
    pool.deposit(10_000, 10_000).unwrap();
    // 10000 * 500 / 10500 = 476
    let out = pool.swap(true, 500, 0).unwrap();
    assert_eq!(out, 476);
    // back: 10500 * 476 / (9524 + 476) = 499
    let back = pool.swap(false, out, 0).unwrap();
    assert_eq!(back, 499);
    assert!(back <= 500);
}

#[test]
fn later_deposit_never_dilutes_existing_shares() {
    let mut pool = initialized_pool();
    pool.deposit(3_000, 7_000).unwrap();
    let (ra, rb, t) = (pool.reserve_a, pool.reserve_b, pool.total_shares);
    let minted = pool.deposit(1_234, 4_321).unwrap();
    assert!(minted * ra <= 1_234 * t);
    assert!(minted * rb <= 4_321 * t);
}
