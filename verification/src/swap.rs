//! Swap engine: asset-for-asset exchange against the pool under the
//! constant-product rule, net of a basis-point fee that is retained in the
//! pool's reserves for the benefit of the claim-token holders.

use vstd::prelude::*;
use vstd::arithmetic::div_mod::lemma_fundamental_div_mod;
use vstd::arithmetic::div_mod::lemma_mod_division_less_than_divisor;
use vstd::arithmetic::div_mod::lemma_div_pos_is_pos;
use vstd::arithmetic::div_mod::lemma_multiply_divide_le;
use vstd::arithmetic::div_mod::lemma_multiply_divide_lt;
use vstd::arithmetic::mul::lemma_mul_inequality;
use vstd::arithmetic::mul::lemma_mul_strict_inequality;
use vstd::arithmetic::mul::lemma_mul_is_commutative;
use vstd::arithmetic::mul::lemma_mul_is_distributive_add_other_way;
use vstd::arithmetic::mul::lemma_mul_is_distributive_sub;
use vstd::arithmetic::mul::lemma_mul_nonnegative;
use crate::arith::lemma_div_mul_le;
use crate::arith::mul_u64;
use crate::config::MAX_FEE_BASIS_POINTS;
use crate::errors::ErrorCodes;
use crate::pool::Pool;

verus! {

/// Which asset the trader sells into the pool.
#[derive(Clone, Copy, Debug, PartialEq, Eq, Structural)]
pub enum SwapDirection {
    /// Sell asset A, receive asset B.
    AToB,
    /// Sell asset B, receive asset A.
    BToA,
}

/// The reserve of the asset being sold, before the trade.
pub open spec fn input_reserve_of(p: Pool, direction: SwapDirection) -> int {
    if direction is AToB {
        p.reserve_a as int
    } else {
        p.reserve_b as int
    }
}

/// The reserve of the asset being bought, before the trade.
pub open spec fn output_reserve_of(p: Pool, direction: SwapDirection) -> int {
    if direction is AToB {
        p.reserve_b as int
    } else {
        p.reserve_a as int
    }
}

/// The input net of the fee: `floor(input * (10000 - fee) / 10000)`.
pub open spec fn effective_input_spec(input_amount: int, fee_basis_points: int) -> int {
    input_amount * (MAX_FEE_BASIS_POINTS - fee_basis_points) / (MAX_FEE_BASIS_POINTS as int)
}

/// Constant-product output for a net input:
/// `floor(effective_input * output_reserve / (input_reserve + effective_input))`.
pub open spec fn swap_output_spec(
    input_reserve: int,
    output_reserve: int,
    effective_input: int,
) -> int {
    effective_input * output_reserve / (input_reserve + effective_input)
}

/// Full outcome of a swap against the given reserves: the rejection, or
/// `(new_input_reserve, new_output_reserve, output_amount)`.  The input
/// reserve is credited with the full input amount — the fee stays in the
/// pool — while the output reserve only gives up the constant-product output.
pub open spec fn swap_result(
    input_reserve: int,
    output_reserve: int,
    fee_basis_points: int,
    input_amount: int,
    min_output: int,
) -> Result<(int, int, int), ErrorCodes> {
    let out = swap_output_spec(
        input_reserve,
        output_reserve,
        effective_input_spec(input_amount, fee_basis_points),
    );
    if out < min_output {
        Err(ErrorCodes::SlippageExceeded)
    } else {
        Ok((input_reserve + input_amount, output_reserve - out, out))
    }
}

/// The constant-product output stays strictly inside the output reserve, the
/// reserve product never decreases across the trade, and when the whole input
/// is effective (no fee) the product overshoots the old one by less than one
/// unit of the new input reserve — the unavoidable integer rounding.
pub proof fn lemma_swap_product(
    input_reserve: int,
    output_reserve: int,
    effective_input: int,
    input_amount: int,
)
    requires
        0 < input_reserve,
        0 < output_reserve,
        0 <= effective_input <= input_amount,
    ensures
        ({
            let out = swap_output_spec(input_reserve, output_reserve, effective_input);
            &&& 0 <= out < output_reserve
            &&& (input_reserve + input_amount) * (output_reserve - out) >= input_reserve
                * output_reserve
            &&& effective_input == input_amount ==> (input_reserve + input_amount) * (output_reserve
                - out) < input_reserve * output_reserve + input_reserve + input_amount
            &&& effective_input < input_amount ==> (input_reserve + input_amount) * (output_reserve
                - out) > input_reserve * output_reserve
        }),
{
    let ri = input_reserve;
    let ro = output_reserve;
    let eff = effective_input;
    let d = ri + eff;
    let num = eff * ro;
    let out = num / d;
    lemma_mul_nonnegative(eff, ro);
    lemma_div_pos_is_pos(num, d);
    lemma_mul_strict_inequality(eff, d, ro);
    lemma_multiply_divide_lt(num, d, ro);
    assert(out < ro);
    lemma_div_mul_le(num, d);
    assert(d * out <= num);
    lemma_mul_is_distributive_sub(d, ro, out);
    lemma_mul_is_distributive_add_other_way(ro, ri, eff);
    assert(d * ro == ri * ro + eff * ro);
    assert(d * (ro - out) >= ri * ro);
    lemma_mul_inequality(d, ri + input_amount, ro - out);
    lemma_mul_is_commutative(d, ro - out);
    lemma_mul_is_commutative(ri + input_amount, ro - out);
    assert((ri + input_amount) * (ro - out) >= ri * ro);
    if eff == input_amount {
        lemma_fundamental_div_mod(num, d);
        lemma_mod_division_less_than_divisor(num, d);
        assert(d * (ro - out) == d * ro - d * out);
        assert(d * out == num - num % d);
        assert(d * (ro - out) == ri * ro + num % d);
        assert((ri + input_amount) * (ro - out) < ri * ro + ri + input_amount);
    }
    if eff < input_amount {
        // One extra unit of input reserve grows the product by at least the
        // remaining output reserve, which is positive.
        lemma_mul_inequality(d + 1, ri + input_amount, ro - out);
        assert((d + 1) * (ro - out) == d * (ro - out) + (ro - out)) by (nonlinear_arith);
        lemma_mul_is_commutative(d + 1, ro - out);
        assert((ri + input_amount) * (ro - out) > ri * ro);
    }
}

/// Executes a swap: sells `input_amount` of the direction's input asset for
/// the constant-product output of the other, net of the fee, enforcing the
/// caller's minimum output.  The caller moves the input into custody and the
/// output out of it only when `Ok` comes back; a rejection moves no funds.
pub fn swap_token_for_token(
    pool: &mut Pool,
    fee_basis_points: u16,
    direction: SwapDirection,
    input_amount: u64,
    min_output_amount: u64,
) -> (r: Result<u64, ErrorCodes>)
    requires
        old(pool).well_formed(),
        old(pool).is_funded(),
        input_amount > 0,
        fee_basis_points <= MAX_FEE_BASIS_POINTS,
        input_reserve_of(*old(pool), direction) + input_amount <= u64::MAX,
    ensures
        final(pool).well_formed(),
        final(pool).asset_a_mint == old(pool).asset_a_mint,
        final(pool).asset_b_mint == old(pool).asset_b_mint,
        final(pool).claim_token_supply == old(pool).claim_token_supply,
        swap_result(
            input_reserve_of(*old(pool), direction),
            output_reserve_of(*old(pool), direction),
            fee_basis_points as int,
            input_amount as int,
            min_output_amount as int,
        ) matches Err(e) ==> r == Err::<u64, ErrorCodes>(e) && *final(pool) == *old(pool),
        swap_result(
            input_reserve_of(*old(pool), direction),
            output_reserve_of(*old(pool), direction),
            fee_basis_points as int,
            input_amount as int,
            min_output_amount as int,
        ) matches Ok(o) ==> r matches Ok(out) && out == o.2
            && input_reserve_of(*final(pool), direction) == o.0
            && output_reserve_of(*final(pool), direction) == o.1,
        r is Ok ==> (final(pool).reserve_a as int * final(pool).reserve_b as int)
            >= (old(pool).reserve_a as int * old(pool).reserve_b as int),
        r is Ok && fee_basis_points > 0 ==> (final(pool).reserve_a as int
            * final(pool).reserve_b as int) > (old(pool).reserve_a as int
            * old(pool).reserve_b as int),
        r is Ok && fee_basis_points == 0 ==> (final(pool).reserve_a as int
            * final(pool).reserve_b as int) < (old(pool).reserve_a as int
            * old(pool).reserve_b as int) + input_reserve_of(*old(pool), direction)
            + input_amount,
{
    let (input_reserve, output_reserve) = match direction {
        SwapDirection::AToB => (pool.reserve_a, pool.reserve_b),
        SwapDirection::BToA => (pool.reserve_b, pool.reserve_a),
    };
    let keep: u64 = (MAX_FEE_BASIS_POINTS - fee_basis_points) as u64;
    proof {
        lemma_mul_inequality(keep as int, MAX_FEE_BASIS_POINTS as int, input_amount as int);
        lemma_mul_is_commutative(keep as int, input_amount as int);
        lemma_mul_is_commutative(MAX_FEE_BASIS_POINTS as int, input_amount as int);
        lemma_multiply_divide_le(
            input_amount as int * keep as int,
            MAX_FEE_BASIS_POINTS as int,
            input_amount as int,
        );
    }
    let effective_input: u64 = (mul_u64(input_amount, keep) / (MAX_FEE_BASIS_POINTS as u128))
        as u64;
    proof {
        if fee_basis_points > 0 {
            lemma_mul_strict_inequality(keep as int, MAX_FEE_BASIS_POINTS as int, input_amount as int);
            lemma_multiply_divide_lt(
                input_amount as int * keep as int,
                MAX_FEE_BASIS_POINTS as int,
                input_amount as int,
            );
        }
        lemma_swap_product(
            input_reserve as int,
            output_reserve as int,
            effective_input as int,
            input_amount as int,
        );
    }
    let denominator: u128 = (input_reserve as u128) + (effective_input as u128);
    let output_amount: u64 = (mul_u64(effective_input, output_reserve) / denominator) as u64;
    if output_amount < min_output_amount {
        return Err(ErrorCodes::SlippageExceeded);
    }
    let new_input_reserve = input_reserve + input_amount;
    let new_output_reserve = output_reserve - output_amount;
    proof {
        lemma_mul_is_commutative(new_output_reserve as int, new_input_reserve as int);
        lemma_mul_is_commutative(output_reserve as int, input_reserve as int);
    }
    match direction {
        SwapDirection::AToB => {
            pool.reserve_a = new_input_reserve;
            pool.reserve_b = new_output_reserve;
        },
        SwapDirection::BToA => {
            pool.reserve_b = new_input_reserve;
            pool.reserve_a = new_output_reserve;
        },
    }
    Ok(output_amount)
}

} // verus!
