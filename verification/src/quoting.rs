//! Quoting engine and deposit planner: the proportional exchange rate between
//! two reserves, and the planned contribution pair for a deposit.

use vstd::prelude::*;
use crate::arith::lemma_quote_flip;
use crate::arith::mul_u64;
use crate::errors::ErrorCodes;

verus! {

/// The proportional counterpart of `amount_a` at the current reserve ratio:
/// `floor(amount_a * reserve_b / reserve_a)`.
pub open spec fn quote_spec(amount_a: int, reserve_a: int, reserve_b: int) -> int {
    amount_a * reserve_b / reserve_a
}

/// Amount of asset B that matches `amount_a` of asset A at the current
/// reserve ratio, flooring in the pool's favor.  The multiplication is
/// widened to 128 bits, so it cannot overflow before the division.
pub fn quote(amount_a: u64, token_a_reserves: u64, token_b_reserves: u64) -> (r: Result<
    u64,
    ErrorCodes,
>)
    requires
        amount_a > 0 && token_a_reserves > 0 && token_b_reserves > 0 ==> quote_spec(
            amount_a as int,
            token_a_reserves as int,
            token_b_reserves as int,
        ) <= u64::MAX,
    ensures
        amount_a == 0 ==> r == Err::<u64, ErrorCodes>(ErrorCodes::InsufficientAmountToDeposit),
        amount_a > 0 && (token_a_reserves == 0 || token_b_reserves == 0) ==> r == Err::<
            u64,
            ErrorCodes,
        >(ErrorCodes::InsufficientLiquidity),
        amount_a > 0 && token_a_reserves > 0 && token_b_reserves > 0 ==> r == Ok::<
            u64,
            ErrorCodes,
        >(
            quote_spec(amount_a as int, token_a_reserves as int, token_b_reserves as int) as u64,
        ),
{
    if amount_a == 0 {
        return Err(ErrorCodes::InsufficientAmountToDeposit);
    }
    if token_a_reserves == 0 || token_b_reserves == 0 {
        return Err(ErrorCodes::InsufficientLiquidity);
    }
    let wide: u128 = mul_u64(amount_a, token_b_reserves);
    let amount_b: u128 = wide / (token_a_reserves as u128);
    Ok(amount_b as u64)
}

/// The deposit planner's verdict on one request, over unbounded integers.
/// An empty pool accepts the desired amounts as the initial ratio; a funded
/// pool accepts the smaller implied contribution, so a deposit can never
/// distort the existing ratio, and enforces the caller's slippage floors.
pub open spec fn plan_deposit_spec(
    reserve_a: int,
    reserve_b: int,
    desired_a: int,
    desired_b: int,
    min_a: int,
    min_b: int,
) -> Result<(int, int), ErrorCodes> {
    if reserve_a == 0 && reserve_b == 0 {
        Ok((desired_a, desired_b))
    } else {
        let optimal_b = quote_spec(desired_a, reserve_a, reserve_b);
        if optimal_b <= desired_b {
            if optimal_b >= min_b {
                Ok((desired_a, optimal_b))
            } else {
                Err(ErrorCodes::InsufficientTokenBAmount)
            }
        } else {
            let optimal_a = quote_spec(desired_b, reserve_b, reserve_a);
            if optimal_a >= min_a {
                Ok((optimal_a, desired_b))
            } else {
                Err(ErrorCodes::InsufficientTokenAAmount)
            }
        }
    }
}

/// Plans the amounts a deposit actually consumes: `desired_*` are the offered
/// amounts, `amount_*_min` the slippage floors.  Exactly the pair (or the
/// rejection) that `plan_deposit_spec` assigns to the inputs comes back.
///
/// A funded pool must be quoted with a positive `amount_a_desired`, and with
/// a positive `amount_b_desired` whenever the B-side quote of the A amount
/// overshoots it; outside that the planner has no ratio to re-quote against.
pub fn get_quote(
    token_a_reserves: u64,
    token_b_reserves: u64,
    amount_a_desired: u64,
    amount_b_desired: u64,
    amount_a_min: u64,
    amount_b_min: u64,
) -> (r: Result<(u64, u64), ErrorCodes>)
    requires
        (token_a_reserves == 0) == (token_b_reserves == 0),
        token_a_reserves > 0 ==> amount_a_desired > 0,
        token_a_reserves > 0 && quote_spec(
            amount_a_desired as int,
            token_a_reserves as int,
            token_b_reserves as int,
        ) > amount_b_desired ==> amount_b_desired > 0,
    ensures
        plan_deposit_spec(
            token_a_reserves as int,
            token_b_reserves as int,
            amount_a_desired as int,
            amount_b_desired as int,
            amount_a_min as int,
            amount_b_min as int,
        ) matches Ok(p) ==> r matches Ok(q) && q.0 == p.0 && q.1 == p.1,
        plan_deposit_spec(
            token_a_reserves as int,
            token_b_reserves as int,
            amount_a_desired as int,
            amount_b_desired as int,
            amount_a_min as int,
            amount_b_min as int,
        ) matches Err(e) ==> r == Err::<(u64, u64), ErrorCodes>(e),
{
    if token_a_reserves == 0 && token_b_reserves == 0 {
        Ok((amount_a_desired, amount_b_desired))
    } else {
        let wide_b: u128 = mul_u64(amount_a_desired, token_b_reserves) / (token_a_reserves
            as u128);
        if wide_b <= amount_b_desired as u128 {
            let amount_b_optimal: u64 = wide_b as u64;
            if amount_b_optimal >= amount_b_min {
                Ok((amount_a_desired, amount_b_optimal))
            } else {
                Err(ErrorCodes::InsufficientTokenBAmount)
            }
        } else {
            proof {
                lemma_quote_flip(
                    amount_a_desired as int,
                    amount_b_desired as int,
                    token_a_reserves as int,
                    token_b_reserves as int,
                );
            }
            let wide_a: u128 = mul_u64(amount_b_desired, token_a_reserves) / (token_b_reserves
                as u128);
            let amount_a_optimal: u64 = wide_a as u64;
            if amount_a_optimal >= amount_a_min {
                Ok((amount_a_optimal, amount_b_desired))
            } else {
                Err(ErrorCodes::InsufficientTokenAAmount)
            }
        }
    }
}

/// The planner never accepts more than the depositor offered on either side.
pub proof fn lemma_plan_within_desired(
    reserve_a: int,
    reserve_b: int,
    desired_a: int,
    desired_b: int,
    min_a: int,
    min_b: int,
)
    requires
        0 <= reserve_a,
        0 <= reserve_b,
        (reserve_a == 0) == (reserve_b == 0),
        0 <= desired_a,
        0 <= desired_b,
    ensures
        plan_deposit_spec(reserve_a, reserve_b, desired_a, desired_b, min_a, min_b) matches Ok(p)
            ==> 0 <= p.0 <= desired_a && 0 <= p.1 <= desired_b,
{
    if !(reserve_a == 0 && reserve_b == 0) {
        let optimal_b = quote_spec(desired_a, reserve_a, reserve_b);
        crate::arith::lemma_div_mul_le(desired_a * reserve_b, reserve_a);
        if optimal_b > desired_b {
            lemma_quote_flip(desired_a, desired_b, reserve_a, reserve_b);
            crate::arith::lemma_div_mul_le(desired_b * reserve_a, reserve_b);
        }
    }
}

} // verus!
