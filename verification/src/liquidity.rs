//! Liquidity operations: provisioning (deposit of both assets against
//! proportional claim-token issuance) and withdrawal (claim-token redemption
//! against a proportional asset return).  Validation happens before any
//! ledger mutation; a failed operation leaves the pool untouched.

use vstd::prelude::*;
use vstd::arithmetic::div_mod::lemma_div_multiples_vanish;
use vstd::arithmetic::div_mod::lemma_multiply_divide_le;
use vstd::arithmetic::div_mod::lemma_multiply_divide_lt;
use vstd::arithmetic::mul::lemma_mul_inequality;
use vstd::arithmetic::mul::lemma_mul_strict_inequality;
use vstd::arithmetic::mul::lemma_mul_upper_bound;
use crate::arith::isqrt;
use crate::arith::isqrt_spec;
use crate::arith::mul_u64;
use crate::errors::ErrorCodes;
use crate::pool::Pool;
use crate::quoting::get_quote;
use crate::quoting::plan_deposit_spec;
use crate::quoting::quote_spec;

verus! {

/// Claim tokens minted for an accepted contribution pair: the floor square
/// root of the product (the geometric mean) sets the unit for the first
/// deposit; afterwards the smaller of the two proportional shares is minted,
/// so a depositor never receives a claim worth more than the lesser side of
/// the contribution.
pub open spec fn mint_amount(
    reserve_a: int,
    reserve_b: int,
    supply: int,
    amount_a: int,
    amount_b: int,
) -> int {
    if supply == 0 {
        isqrt_spec((amount_a * amount_b) as nat) as int
    } else {
        vstd::math::min(amount_a * supply / reserve_a, amount_b * supply / reserve_b)
    }
}

/// Full outcome of a deposit against a ledger holding `reserve_a`,
/// `reserve_b` with `supply` claim tokens outstanding: the rejection, or
/// `(new_reserve_a, new_reserve_b, new_supply, minted)`.
pub open spec fn add_liquidity_result(
    reserve_a: int,
    reserve_b: int,
    supply: int,
    desired_a: int,
    desired_b: int,
    min_a: int,
    min_b: int,
) -> Result<(int, int, int, int), ErrorCodes> {
    match plan_deposit_spec(reserve_a, reserve_b, desired_a, desired_b, min_a, min_b) {
        Err(e) => Err(e),
        Ok(p) => {
            let minted = mint_amount(reserve_a, reserve_b, supply, p.0, p.1);
            if minted == 0 {
                Err(ErrorCodes::MintAmountTooSmall)
            } else {
                Ok((reserve_a + p.0, reserve_b + p.1, supply + minted, minted))
            }
        },
    }
}

/// Full outcome of redeeming `claim_amount` claim tokens from a balance of
/// `claim_balance`: the rejection, or
/// `(new_reserve_a, new_reserve_b, new_supply, return_a, return_b)`.
pub open spec fn remove_liquidity_result(
    reserve_a: int,
    reserve_b: int,
    supply: int,
    claim_amount: int,
    claim_balance: int,
) -> Result<(int, int, int, int, int), ErrorCodes> {
    if claim_balance < claim_amount {
        Err(ErrorCodes::InsufficientClaimBalance)
    } else {
        let return_a = claim_amount * reserve_a / supply;
        let return_b = claim_amount * reserve_b / supply;
        if return_a == 0 && return_b == 0 {
            Err(ErrorCodes::ZeroReturnAmount)
        } else {
            Ok(
                (
                    reserve_a - return_a,
                    reserve_b - return_b,
                    supply - claim_amount,
                    return_a,
                    return_b,
                ),
            )
        }
    }
}

/// Deposits liquidity: plans the accepted amounts with the deposit planner,
/// mints the proportional claim amount, and credits the reserves.  The caller
/// transfers the accepted amounts into pool custody only when `Ok` comes
/// back, so a rejection moves no funds.
///
/// A funded pool is quoted with a positive `amount_a_desired` (and a positive
/// `amount_b_desired` when the B side overshoots); the successful outcome
/// must fit the machine words that hold the ledger.
pub fn add_liquidity(
    pool: &mut Pool,
    amount_a_desired: u64,
    amount_b_desired: u64,
    amount_a_min: u64,
    amount_b_min: u64,
) -> (r: Result<u64, ErrorCodes>)
    requires
        old(pool).well_formed(),
        old(pool).is_funded() ==> amount_a_desired > 0,
        old(pool).is_funded() && quote_spec(
            amount_a_desired as int,
            old(pool).reserve_a as int,
            old(pool).reserve_b as int,
        ) > amount_b_desired ==> amount_b_desired > 0,
        add_liquidity_result(
            old(pool).reserve_a as int,
            old(pool).reserve_b as int,
            old(pool).claim_token_supply as int,
            amount_a_desired as int,
            amount_b_desired as int,
            amount_a_min as int,
            amount_b_min as int,
        ) matches Ok(o) ==> o.0 <= u64::MAX && o.1 <= u64::MAX && o.2 <= u64::MAX,
    ensures
        final(pool).well_formed(),
        final(pool).asset_a_mint == old(pool).asset_a_mint,
        final(pool).asset_b_mint == old(pool).asset_b_mint,
        add_liquidity_result(
            old(pool).reserve_a as int,
            old(pool).reserve_b as int,
            old(pool).claim_token_supply as int,
            amount_a_desired as int,
            amount_b_desired as int,
            amount_a_min as int,
            amount_b_min as int,
        ) matches Err(e) ==> r == Err::<u64, ErrorCodes>(e) && *final(pool) == *old(pool),
        add_liquidity_result(
            old(pool).reserve_a as int,
            old(pool).reserve_b as int,
            old(pool).claim_token_supply as int,
            amount_a_desired as int,
            amount_b_desired as int,
            amount_a_min as int,
            amount_b_min as int,
        ) matches Ok(o) ==> r matches Ok(m) && m == o.3 && final(pool).reserve_a == o.0
            && final(pool).reserve_b == o.1 && final(pool).claim_token_supply == o.2,
{
    let token_a_reserves = pool.reserve_a;
    let token_b_reserves = pool.reserve_b;
    let supply = pool.claim_token_supply;
    let planned = get_quote(
        token_a_reserves,
        token_b_reserves,
        amount_a_desired,
        amount_b_desired,
        amount_a_min,
        amount_b_min,
    );
    let (amount_a, amount_b) = match planned {
        Ok(p) => p,
        Err(e) => {
            return Err(e);
        },
    };
    let minted: u64 = if supply == 0 {
        proof {
            lemma_mul_upper_bound(
                amount_a as int,
                u64::MAX as int,
                amount_b as int,
                u64::MAX as int,
            );
        }
        isqrt(mul_u64(amount_a, amount_b))
    } else {
        let share_a: u128 = mul_u64(amount_a, supply) / (token_a_reserves as u128);
        let share_b: u128 = mul_u64(amount_b, supply) / (token_b_reserves as u128);
        let share: u128 = if share_a <= share_b {
            share_a
        } else {
            share_b
        };
        proof {
            assert(share as int == mint_amount(
                token_a_reserves as int,
                token_b_reserves as int,
                supply as int,
                amount_a as int,
                amount_b as int,
            ));
        }
        share as u64
    };
    if minted == 0 {
        return Err(ErrorCodes::MintAmountTooSmall);
    }
    proof {
        if supply == 0 {
            assert(minted as int * minted as int >= 1) by (nonlinear_arith)
                requires minted >= 1;
            assert(amount_a as int * amount_b as int >= 1);
            if amount_a == 0 || amount_b == 0 {
                assert(amount_a as int * amount_b as int == 0) by (nonlinear_arith)
                    requires amount_a == 0 || amount_b == 0;
            }
        }
    }
    pool.reserve_a = token_a_reserves + amount_a;
    pool.reserve_b = token_b_reserves + amount_b;
    pool.claim_token_supply = supply + minted;
    Ok(minted)
}

/// Redeems `claim_amount` claim tokens out of a holder balance of
/// `claim_balance` for the proportional share of both reserves, flooring in
/// the pool's favor; any rounding remainder stays in the pool.  Redeeming the
/// entire outstanding supply drains the pool to exactly zero.  The caller
/// burns the claims and pays the returned amounts out of custody only when
/// `Ok` comes back.
pub fn remove_liquidity(pool: &mut Pool, claim_amount: u64, claim_balance: u64) -> (r: Result<
    (u64, u64),
    ErrorCodes,
>)
    requires
        old(pool).well_formed(),
        claim_amount > 0,
        claim_balance <= old(pool).claim_token_supply,
    ensures
        final(pool).well_formed(),
        final(pool).asset_a_mint == old(pool).asset_a_mint,
        final(pool).asset_b_mint == old(pool).asset_b_mint,
        remove_liquidity_result(
            old(pool).reserve_a as int,
            old(pool).reserve_b as int,
            old(pool).claim_token_supply as int,
            claim_amount as int,
            claim_balance as int,
        ) matches Err(e) ==> r == Err::<(u64, u64), ErrorCodes>(e) && *final(pool) == *old(pool),
        remove_liquidity_result(
            old(pool).reserve_a as int,
            old(pool).reserve_b as int,
            old(pool).claim_token_supply as int,
            claim_amount as int,
            claim_balance as int,
        ) matches Ok(w) ==> r matches Ok(q) && q.0 == w.3 && q.1 == w.4 && final(pool).reserve_a
            == w.0 && final(pool).reserve_b == w.1 && final(pool).claim_token_supply == w.2,
        r is Ok && claim_amount == old(pool).claim_token_supply ==> final(pool).reserve_a == 0
            && final(pool).reserve_b == 0 && final(pool).claim_token_supply == 0,
{
    if claim_balance < claim_amount {
        return Err(ErrorCodes::InsufficientClaimBalance);
    }
    let supply = pool.claim_token_supply;
    let reserve_a = pool.reserve_a;
    let reserve_b = pool.reserve_b;
    proof {
        lemma_mul_inequality(claim_amount as int, supply as int, reserve_a as int);
        lemma_multiply_divide_le(
            claim_amount as int * reserve_a as int,
            supply as int,
            reserve_a as int,
        );
        lemma_mul_inequality(claim_amount as int, supply as int, reserve_b as int);
        lemma_multiply_divide_le(
            claim_amount as int * reserve_b as int,
            supply as int,
            reserve_b as int,
        );
        if claim_amount < supply {
            lemma_mul_strict_inequality(claim_amount as int, supply as int, reserve_a as int);
            lemma_multiply_divide_lt(
                claim_amount as int * reserve_a as int,
                supply as int,
                reserve_a as int,
            );
            lemma_mul_strict_inequality(claim_amount as int, supply as int, reserve_b as int);
            lemma_multiply_divide_lt(
                claim_amount as int * reserve_b as int,
                supply as int,
                reserve_b as int,
            );
        } else {
            lemma_div_multiples_vanish(reserve_a as int, supply as int);
            lemma_div_multiples_vanish(reserve_b as int, supply as int);
        }
    }
    let return_a: u64 = (mul_u64(claim_amount, reserve_a) / (supply as u128)) as u64;
    let return_b: u64 = (mul_u64(claim_amount, reserve_b) / (supply as u128)) as u64;
    if return_a == 0 && return_b == 0 {
        return Err(ErrorCodes::ZeroReturnAmount);
    }
    pool.reserve_a = reserve_a - return_a;
    pool.reserve_b = reserve_b - return_b;
    pool.claim_token_supply = supply - claim_amount;
    Ok((return_a, return_b))
}

} // verus!
