//! Laws relating the pool operations to one another, stated and proved over
//! the same spec-level outcome functions that specify the executable
//! operations: the round trip of a deposit and a full redemption, the
//! monotonicity of the reserve product under any sequence of swaps, and the
//! independence of distinct pools under every operation.

use vstd::prelude::*;
use vstd::arithmetic::div_mod::lemma_div_multiples_vanish;
use vstd::arithmetic::div_mod::lemma_div_pos_is_pos;
use vstd::arithmetic::div_mod::lemma_multiply_divide_le;
use vstd::arithmetic::mul::lemma_mul_inequality;
use vstd::arithmetic::mul::lemma_mul_is_commutative;
use vstd::arithmetic::mul::lemma_mul_is_distributive_add;
use vstd::arithmetic::mul::lemma_mul_nonnegative;
use crate::arith::lemma_div_mul_le;
use crate::arith::lemma_isqrt_spec_bounds;
use crate::arith::square;
use crate::config::MAX_FEE_BASIS_POINTS;
use crate::errors::ErrorCodes;
use crate::liquidity::add_liquidity_result;
use crate::liquidity::mint_amount;
use crate::liquidity::remove_liquidity_result;
use crate::pool::i1_holds;
use crate::quoting::plan_deposit_spec;
use crate::swap::SwapDirection;
use crate::swap::effective_input_spec;
use crate::swap::swap_result;

verus! {

/// Round trip of liquidity: a deposit accepted as `(amount_a, amount_b)` and
/// minting `minted` claim tokens, immediately followed by a redemption of all
/// `minted` tokens, returns at most the deposited amount on each side,
/// restores the claim-token supply exactly, and leaves each reserve at least
/// at its pre-deposit value — the rounding dust is never negative and stays
/// in the pool.  A first deposit into an empty pool comes back in full and
/// leaves the pool exactly empty.
pub proof fn lemma_liquidity_round_trip(
    reserve_a: int,
    reserve_b: int,
    supply: int,
    desired_a: int,
    desired_b: int,
    min_a: int,
    min_b: int,
    amount_a: int,
    amount_b: int,
    minted: int,
)
    requires
        0 <= reserve_a,
        0 <= reserve_b,
        0 <= supply,
        0 <= desired_a,
        0 <= desired_b,
        i1_holds(reserve_a, reserve_b, supply),
        plan_deposit_spec(reserve_a, reserve_b, desired_a, desired_b, min_a, min_b) == Ok::<
            (int, int),
            ErrorCodes,
        >((amount_a, amount_b)),
        minted == mint_amount(reserve_a, reserve_b, supply, amount_a, amount_b),
        minted > 0,
    ensures
        add_liquidity_result(reserve_a, reserve_b, supply, desired_a, desired_b, min_a, min_b)
            == Ok::<(int, int, int, int), ErrorCodes>(
            (reserve_a + amount_a, reserve_b + amount_b, supply + minted, minted),
        ),
        remove_liquidity_result(
            reserve_a + amount_a,
            reserve_b + amount_b,
            supply + minted,
            minted,
            minted,
        ) matches Ok(w) ==> w.3 <= amount_a && w.4 <= amount_b && w.0 >= reserve_a && w.1
            >= reserve_b && w.2 == supply,
        supply == 0 ==> remove_liquidity_result(
            reserve_a + amount_a,
            reserve_b + amount_b,
            supply + minted,
            minted,
            minted,
        ) == Ok::<(int, int, int, int, int), ErrorCodes>((0, 0, 0, amount_a, amount_b)),
{
    crate::quoting::lemma_plan_within_desired(
        reserve_a,
        reserve_b,
        desired_a,
        desired_b,
        min_a,
        min_b,
    );
    if supply == 0 {
        // First deposit: `minted > 0` forces both accepted amounts positive,
        // and redeeming the whole supply returns each amount exactly.
        lemma_isqrt_spec_bounds((amount_a * amount_b) as nat);
        assert(minted * minted >= 1) by (nonlinear_arith)
            requires minted >= 1;
        assert(square(minted) == minted * minted);
        assert(amount_a * amount_b >= 1);
        if amount_a == 0 || amount_b == 0 {
            assert(amount_a * amount_b == 0) by (nonlinear_arith)
                requires amount_a == 0 || amount_b == 0;
        }
        assert(reserve_a == 0 && reserve_b == 0);
        lemma_div_multiples_vanish(amount_a, minted);
        lemma_div_multiples_vanish(amount_b, minted);
        lemma_mul_is_commutative(minted, amount_a);
        lemma_mul_is_commutative(minted, amount_b);
    } else {
        // Re-deposit: the minted claim is the smaller proportional share, so
        // on each side `minted * reserve <= amount * supply`, and the
        // redemption of `minted` out of the grown pool stays within the
        // deposited amounts.
        let new_ra = reserve_a + amount_a;
        let new_rb = reserve_b + amount_b;
        let new_supply = supply + minted;
        let share_a = amount_a * supply / reserve_a;
        let share_b = amount_b * supply / reserve_b;
        lemma_mul_nonnegative(amount_a, supply);
        lemma_mul_nonnegative(amount_b, supply);
        lemma_div_mul_le(amount_a * supply, reserve_a);
        lemma_div_mul_le(amount_b * supply, reserve_b);
        lemma_mul_inequality(minted, share_a, reserve_a);
        lemma_mul_is_commutative(share_a, reserve_a);
        assert(minted * reserve_a <= amount_a * supply);
        lemma_mul_inequality(minted, share_b, reserve_b);
        lemma_mul_is_commutative(share_b, reserve_b);
        assert(minted * reserve_b <= amount_b * supply);
        lemma_mul_is_distributive_add(minted, reserve_a, amount_a);
        lemma_mul_is_distributive_add(amount_a, supply, minted);
        lemma_mul_is_commutative(minted, amount_a);
        assert(minted * new_ra <= amount_a * new_supply);
        lemma_mul_is_distributive_add(minted, reserve_b, amount_b);
        lemma_mul_is_distributive_add(amount_b, supply, minted);
        lemma_mul_is_commutative(minted, amount_b);
        assert(minted * new_rb <= amount_b * new_supply);
        lemma_mul_nonnegative(minted, new_ra);
        lemma_mul_nonnegative(minted, new_rb);
        lemma_mul_is_commutative(amount_a, new_supply);
        lemma_mul_is_commutative(amount_b, new_supply);
        lemma_multiply_divide_le(minted * new_ra, new_supply, amount_a);
        lemma_multiply_divide_le(minted * new_rb, new_supply, amount_b);
    }
}

/// One swap request: the direction, the input amount, and the caller's
/// minimum output.  Reserves after the request: a rejected swap (slippage)
/// leaves them unchanged.
pub open spec fn reserves_after_swap(
    reserve_a: int,
    reserve_b: int,
    fee_basis_points: int,
    request: (SwapDirection, int, int),
) -> (int, int) {
    if request.0 is AToB {
        match swap_result(reserve_a, reserve_b, fee_basis_points, request.1, request.2) {
            Ok(o) => (o.0, o.1),
            Err(_) => (reserve_a, reserve_b),
        }
    } else {
        match swap_result(reserve_b, reserve_a, fee_basis_points, request.1, request.2) {
            Ok(o) => (o.1, o.0),
            Err(_) => (reserve_a, reserve_b),
        }
    }
}

/// Reserves after a sequence of swap requests, applied in order.
pub open spec fn reserves_after_swaps(
    reserve_a: int,
    reserve_b: int,
    fee_basis_points: int,
    requests: Seq<(SwapDirection, int, int)>,
) -> (int, int)
    decreases requests.len(),
{
    if requests.len() == 0 {
        (reserve_a, reserve_b)
    } else {
        let stepped = reserves_after_swap(reserve_a, reserve_b, fee_basis_points, requests[0]);
        reserves_after_swaps(stepped.0, stepped.1, fee_basis_points, requests.drop_first())
    }
}

/// One swap keeps both reserves positive and never decreases their product.
pub proof fn lemma_swap_step_product(
    reserve_a: int,
    reserve_b: int,
    fee_basis_points: int,
    request: (SwapDirection, int, int),
)
    requires
        0 < reserve_a,
        0 < reserve_b,
        0 <= fee_basis_points <= MAX_FEE_BASIS_POINTS,
        0 < request.1,
    ensures
        ({
            let stepped = reserves_after_swap(reserve_a, reserve_b, fee_basis_points, request);
            &&& 0 < stepped.0
            &&& 0 < stepped.1
            &&& stepped.0 * stepped.1 >= reserve_a * reserve_b
        }),
{
    let x = request.1;
    let eff = effective_input_spec(x, fee_basis_points);
    lemma_mul_nonnegative(x, MAX_FEE_BASIS_POINTS - fee_basis_points);
    lemma_div_pos_is_pos(x * (MAX_FEE_BASIS_POINTS - fee_basis_points), MAX_FEE_BASIS_POINTS as int);
    lemma_mul_inequality(
        MAX_FEE_BASIS_POINTS - fee_basis_points,
        MAX_FEE_BASIS_POINTS as int,
        x,
    );
    lemma_mul_is_commutative(MAX_FEE_BASIS_POINTS - fee_basis_points, x);
    lemma_mul_is_commutative(MAX_FEE_BASIS_POINTS as int, x);
    lemma_multiply_divide_le(
        x * (MAX_FEE_BASIS_POINTS - fee_basis_points),
        MAX_FEE_BASIS_POINTS as int,
        x,
    );
    assert(0 <= eff <= x);
    if request.0 is AToB {
        crate::swap::lemma_swap_product(reserve_a, reserve_b, eff, x);
    } else {
        crate::swap::lemma_swap_product(reserve_b, reserve_a, eff, x);
        let out = crate::swap::swap_output_spec(reserve_b, reserve_a, eff);
        lemma_mul_is_commutative(reserve_b + x, reserve_a - out);
        lemma_mul_is_commutative(reserve_b, reserve_a);
    }
}

/// Monotonicity of the invariant under swaps: any sequence of swap requests
/// against a funded pool keeps both reserves positive and never decreases the
/// reserve product, whatever mix of directions, amounts, fees collected, and
/// rejected requests it contains.
pub proof fn lemma_product_monotone_under_swaps(
    reserve_a: int,
    reserve_b: int,
    fee_basis_points: int,
    requests: Seq<(SwapDirection, int, int)>,
)
    requires
        0 < reserve_a,
        0 < reserve_b,
        0 <= fee_basis_points <= MAX_FEE_BASIS_POINTS,
        forall|i: int| 0 <= i < requests.len() ==> 0 < (#[trigger] requests[i]).1,
    ensures
        ({
            let fin = reserves_after_swaps(reserve_a, reserve_b, fee_basis_points, requests);
            &&& 0 < fin.0
            &&& 0 < fin.1
            &&& fin.0 * fin.1 >= reserve_a * reserve_b
        }),
    decreases requests.len(),
{
    if requests.len() > 0 {
        lemma_swap_step_product(reserve_a, reserve_b, fee_basis_points, requests[0]);
        let stepped = reserves_after_swap(reserve_a, reserve_b, fee_basis_points, requests[0]);
        lemma_product_monotone_under_swaps(
            stepped.0,
            stepped.1,
            fee_basis_points,
            requests.drop_first(),
        );
    }
}

/// Many pool ledgers keyed by their canonical asset pair, each state a triple
/// `(reserve_a, reserve_b, claim_token_supply)` over unbounded integers.
/// Ledgers after a deposit addressed to `key`.
pub open spec fn ledgers_after_deposit(
    pools: Map<(u64, u64), (int, int, int)>,
    key: (u64, u64),
    desired_a: int,
    desired_b: int,
    min_a: int,
    min_b: int,
) -> Map<(u64, u64), (int, int, int)> {
    let st = pools[key];
    match add_liquidity_result(st.0, st.1, st.2, desired_a, desired_b, min_a, min_b) {
        Ok(o) => pools.insert(key, (o.0, o.1, o.2)),
        Err(_) => pools,
    }
}

/// Ledgers after a withdrawal addressed to `key`.
pub open spec fn ledgers_after_withdrawal(
    pools: Map<(u64, u64), (int, int, int)>,
    key: (u64, u64),
    claim_amount: int,
    claim_balance: int,
) -> Map<(u64, u64), (int, int, int)> {
    let st = pools[key];
    match remove_liquidity_result(st.0, st.1, st.2, claim_amount, claim_balance) {
        Ok(w) => pools.insert(key, (w.0, w.1, w.2)),
        Err(_) => pools,
    }
}

/// Ledgers after a swap addressed to `key`.
pub open spec fn ledgers_after_swap(
    pools: Map<(u64, u64), (int, int, int)>,
    key: (u64, u64),
    fee_basis_points: int,
    request: (SwapDirection, int, int),
) -> Map<(u64, u64), (int, int, int)> {
    let st = pools[key];
    let stepped = reserves_after_swap(st.0, st.1, fee_basis_points, request);
    pools.insert(key, (stepped.0, stepped.1, st.2))
}

/// Concurrent-pool independence: an operation addressed to one pool never
/// observes another pool — its outcome is a function of the addressed pool's
/// state and the request alone — and never affects another pool: every other
/// key keeps its state, under deposits, withdrawals, and swaps alike.
pub proof fn lemma_concurrent_pool_independence(
    pools: Map<(u64, u64), (int, int, int)>,
    other_pools: Map<(u64, u64), (int, int, int)>,
    key: (u64, u64),
    other: (u64, u64),
    desired_a: int,
    desired_b: int,
    min_a: int,
    min_b: int,
    claim_amount: int,
    claim_balance: int,
    fee_basis_points: int,
    request: (SwapDirection, int, int),
)
    requires
        pools.dom().contains(key),
        pools.dom().contains(other),
        other != key,
        other_pools.dom().contains(key),
        other_pools[key] == pools[key],
    ensures
        ledgers_after_deposit(pools, key, desired_a, desired_b, min_a, min_b)[other]
            == pools[other],
        ledgers_after_withdrawal(pools, key, claim_amount, claim_balance)[other] == pools[other],
        ledgers_after_swap(pools, key, fee_basis_points, request)[other] == pools[other],
        ledgers_after_deposit(pools, key, desired_a, desired_b, min_a, min_b)[key]
            == ledgers_after_deposit(other_pools, key, desired_a, desired_b, min_a, min_b)[key],
        ledgers_after_withdrawal(pools, key, claim_amount, claim_balance)[key]
            == ledgers_after_withdrawal(other_pools, key, claim_amount, claim_balance)[key],
        ledgers_after_swap(pools, key, fee_basis_points, request)[key] == ledgers_after_swap(
            other_pools,
            key,
            fee_basis_points,
            request,
        )[key],
{
}

} // verus!
