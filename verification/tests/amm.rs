use simple_amm::arith::isqrt;
use simple_amm::arith::mul_u64;
use simple_amm::config::initialize_amm;
use simple_amm::config::AmmState;
use simple_amm::errors::ErrorCodes;
use simple_amm::liquidity::add_liquidity;
use simple_amm::liquidity::remove_liquidity;
use simple_amm::pool::Pool;
use simple_amm::quoting::get_quote;
use simple_amm::quoting::quote;
use simple_amm::swap::swap_token_for_token;
use simple_amm::swap::SwapDirection;

fn funded_pool(reserve_a: u64, reserve_b: u64, claim_token_supply: u64) -> Pool {
    Pool { asset_a_mint: 1, asset_b_mint: 2, reserve_a, reserve_b, claim_token_supply }
}

#[test]
fn quote_is_proportional_floor() {
    assert_eq!(quote(50, 100, 400), Ok(200));
    assert_eq!(quote(1, 3, 1), Ok(0));
    assert_eq!(quote(7, 3, 10), Ok(23));
    // Widened multiplication: no overflow before the division.
    assert_eq!(quote(u64::MAX, u64::MAX, u64::MAX), Ok(u64::MAX));
}

#[test]
fn quote_rejects_zero_amount() {
    assert_eq!(quote(0, 100, 400), Err(ErrorCodes::InsufficientAmountToDeposit));
}

#[test]
fn quote_rejects_empty_reserves() {
    assert_eq!(quote(5, 0, 400), Err(ErrorCodes::InsufficientLiquidity));
    assert_eq!(quote(5, 100, 0), Err(ErrorCodes::InsufficientLiquidity));
}

#[test]
fn planner_accepts_desired_on_empty_pool() {
    assert_eq!(get_quote(0, 0, 123, 456, 0, 0), Ok((123, 456)));
}

#[test]
fn planner_binds_on_the_a_side() {
    // quote(50, 100, 400) = 200 <= 300, so the A side binds.
    assert_eq!(get_quote(100, 400, 50, 300, 0, 0), Ok((50, 200)));
}

#[test]
fn planner_binds_on_the_b_side() {
    // quote(50, 100, 400) = 200 > 100, re-quote: quote(100, 400, 100) = 25.
    assert_eq!(get_quote(100, 400, 50, 100, 0, 0), Ok((25, 100)));
}

#[test]
fn planner_enforces_minimum_b() {
    assert_eq!(get_quote(100, 400, 50, 300, 0, 201), Err(ErrorCodes::InsufficientTokenBAmount));
    // The floor is inclusive: an optimal amount equal to the minimum passes.
    assert_eq!(get_quote(100, 400, 50, 300, 0, 200), Ok((50, 200)));
}

#[test]
fn planner_enforces_minimum_a() {
    assert_eq!(get_quote(100, 400, 50, 100, 26, 0), Err(ErrorCodes::InsufficientTokenAAmount));
}

#[test]
fn first_deposit_sets_ratio_and_mints_geometric_mean() {
    let mut pool = Pool::new(1, 2);
    let minted = add_liquidity(&mut pool, 100, 400, 0, 0);
    assert_eq!(minted, Ok(200));
    assert_eq!(pool.reserve_a, 100);
    assert_eq!(pool.reserve_b, 400);
    assert_eq!(pool.claim_token_supply, 200);
}

#[test]
fn proportional_redeposit_mints_smaller_share() {
    let mut pool = funded_pool(100, 400, 200);
    let minted = add_liquidity(&mut pool, 50, 300, 0, 0);
    assert_eq!(minted, Ok(100));
    assert_eq!(pool.reserve_a, 150);
    assert_eq!(pool.reserve_b, 600);
    assert_eq!(pool.claim_token_supply, 300);
}

#[test]
fn dust_deposit_is_rejected_and_mutates_nothing() {
    // A pool whose supply is small against its reserves floors tiny
    // contribution shares down to zero claim tokens.
    let mut pool = funded_pool(1000000, 1000000, 10);
    let before = pool;
    let minted = add_liquidity(&mut pool, 5, 5, 0, 0);
    assert_eq!(minted, Err(ErrorCodes::MintAmountTooSmall));
    assert_eq!(pool, before);

    // An empty pool offered a one-sided deposit also mints zero.
    let mut empty = Pool::new(3, 4);
    let e = empty;
    assert_eq!(add_liquidity(&mut empty, 5, 0, 0, 0), Err(ErrorCodes::MintAmountTooSmall));
    assert_eq!(empty, e);
}

#[test]
fn round_trip_returns_at_most_the_deposit() {
    let mut pool = funded_pool(100, 400, 200);
    let minted = add_liquidity(&mut pool, 50, 300, 0, 0).unwrap();
    assert_eq!(minted, 100);
    let returned = remove_liquidity(&mut pool, minted, minted);
    assert_eq!(returned, Ok((50, 200)));
    assert_eq!(pool.reserve_a, 100);
    assert_eq!(pool.reserve_b, 400);
    assert_eq!(pool.claim_token_supply, 200);
}

#[test]
fn full_redemption_drains_the_pool_exactly() {
    let mut pool = Pool::new(1, 2);
    let minted = add_liquidity(&mut pool, 100, 400, 0, 0).unwrap();
    let returned = remove_liquidity(&mut pool, minted, minted);
    assert_eq!(returned, Ok((100, 400)));
    assert_eq!(pool.reserve_a, 0);
    assert_eq!(pool.reserve_b, 0);
    assert_eq!(pool.claim_token_supply, 0);
}

#[test]
fn withdrawal_needs_the_claim_balance() {
    let mut pool = funded_pool(100, 400, 200);
    let before = pool;
    assert_eq!(remove_liquidity(&mut pool, 50, 49), Err(ErrorCodes::InsufficientClaimBalance));
    assert_eq!(pool, before);
}

#[test]
fn dust_withdrawal_is_rejected() {
    let mut pool = funded_pool(3, 3, 100);
    let before = pool;
    // floor(33 * 3 / 100) = 0 on both sides.
    assert_eq!(remove_liquidity(&mut pool, 33, 33), Err(ErrorCodes::ZeroReturnAmount));
    assert_eq!(pool, before);
}

#[test]
fn swap_without_fee_follows_constant_product() {
    let mut pool = funded_pool(1000, 1000, 1000);
    // out = floor(100 * 1000 / 1100) = 90.
    let out = swap_token_for_token(&mut pool, 0, SwapDirection::AToB, 100, 0);
    assert_eq!(out, Ok(90));
    assert_eq!(pool.reserve_a, 1100);
    assert_eq!(pool.reserve_b, 910);
    // Without a fee the product is conserved up to the integer rounding of
    // one output computation: the overshoot stays below the new input reserve.
    let product = 1100u128 * 910u128;
    assert!(product >= 1000u128 * 1000u128);
    assert!(product - 1000u128 * 1000u128 < 1100);
}

#[test]
fn swap_with_fee_grows_the_product() {
    let mut pool = funded_pool(1000, 1000, 1000);
    let mut last_product = 1000u128 * 1000u128;
    // effective = floor(100 * 9970 / 10000) = 99, out = floor(99*1000/1099) = 90.
    let out = swap_token_for_token(&mut pool, 30, SwapDirection::AToB, 100, 0);
    assert_eq!(out, Ok(90));
    let product = u128::from(pool.reserve_a) * u128::from(pool.reserve_b);
    // A fee-bearing swap grows the product strictly.
    assert!(product > last_product);
    last_product = product;
    // A swap back in the other direction keeps the product non-decreasing.
    let out2 = swap_token_for_token(&mut pool, 30, SwapDirection::BToA, 50, 0);
    assert_eq!(out2, Ok(56));
    let product2 = u128::from(pool.reserve_a) * u128::from(pool.reserve_b);
    assert!(product2 > last_product);
}

#[test]
fn swap_enforces_slippage_and_mutates_nothing() {
    let mut pool = funded_pool(1000, 1000, 1000);
    let before = pool;
    let out = swap_token_for_token(&mut pool, 0, SwapDirection::AToB, 100, 91);
    assert_eq!(out, Err(ErrorCodes::SlippageExceeded));
    assert_eq!(pool, before);
}

#[test]
fn pools_are_independent() {
    let mut pool_xy = funded_pool(1000, 1000, 1000);
    let mut pool_zw = Pool {
        asset_a_mint: 3,
        asset_b_mint: 4,
        reserve_a: 500,
        reserve_b: 2000,
        claim_token_supply: 1000,
    };
    let other_before = pool_zw;
    swap_token_for_token(&mut pool_xy, 30, SwapDirection::AToB, 100, 0).unwrap();
    add_liquidity(&mut pool_xy, 10, 10, 0, 0).unwrap();
    assert_eq!(pool_zw, other_before);
    let xy_after = pool_xy;
    remove_liquidity(&mut pool_zw, 100, 100).unwrap();
    assert_eq!(pool_xy, xy_after);
}

#[test]
fn pool_pairs_are_canonicalized() {
    let p = Pool::new(7, 3);
    let q = Pool::new(3, 7);
    assert_eq!(p, q);
    assert_eq!(p.asset_a_mint, 3);
    assert_eq!(p.asset_b_mint, 7);
    assert_eq!(p.current_reserves(), (0, 0));
    assert_eq!(p.current_supply(), 0);
}

#[test]
fn ledger_mutators_enforce_the_funding_invariant() {
    // Crediting an empty pool without minting claims breaks the invariant.
    let mut empty = Pool::new(1, 2);
    assert_eq!(empty.credit(5, 5), Err(ErrorCodes::InternalInvariantViolation));
    assert_eq!(empty, Pool::new(1, 2));
    // Minting claims over empty reserves breaks it too.
    assert_eq!(empty.mint_claims(5), Err(ErrorCodes::InternalInvariantViolation));

    let mut funded = funded_pool(10, 10, 10);
    // Draining one reserve while claims remain outstanding is refused.
    assert_eq!(funded.debit(10, 0), Err(ErrorCodes::InternalInvariantViolation));
    // Burning every claim while reserves remain is refused.
    assert_eq!(funded.burn_claims(10), Err(ErrorCodes::InternalInvariantViolation));
    // A balanced mutation passes.
    assert_eq!(funded.credit(1, 2), Ok(()));
    assert_eq!(funded.current_reserves(), (11, 12));
    assert_eq!(funded.debit(1, 2), Ok(()));
    assert_eq!(funded.current_reserves(), (10, 10));
    assert_eq!(funded.mint_claims(7), Ok(()));
    assert_eq!(funded.burn_claims(7), Ok(()));
    assert_eq!(funded.current_supply(), 10);
}

#[test]
fn initialization_happens_exactly_once() {
    let mut slot: Option<AmmState> = None;
    assert_eq!(initialize_amm(&mut slot, 42, 30), Ok(()));
    assert_eq!(slot, Some(AmmState { authority: 42, lp_fees_basis_points: 30 }));
    assert_eq!(initialize_amm(&mut slot, 43, 25), Err(ErrorCodes::AlreadyInitialized));
    assert_eq!(slot, Some(AmmState { authority: 42, lp_fees_basis_points: 30 }));
}

#[test]
fn isqrt_floors_the_root() {
    assert_eq!(isqrt(0), 0);
    assert_eq!(isqrt(1), 1);
    assert_eq!(isqrt(3), 1);
    assert_eq!(isqrt(4), 2);
    assert_eq!(isqrt(40000), 200);
    assert_eq!(isqrt(40400), 200);
    assert_eq!(isqrt(40401), 201);
    let max_product = mul_u64(u64::MAX, u64::MAX);
    assert_eq!(isqrt(max_product), u64::MAX);
}
