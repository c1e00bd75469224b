//! Wide integer arithmetic shared by the quoting, liquidity, and swap logic:
//! a widening multiply, a floor integer square root, and lemmas about floor
//! division that the proportional-share proofs rely on.

use vstd::prelude::*;
use vstd::arithmetic::div_mod::lemma_fundamental_div_mod;
use vstd::arithmetic::div_mod::lemma_mod_division_less_than_divisor;
use vstd::arithmetic::div_mod::lemma_div_pos_is_pos;
use vstd::arithmetic::div_mod::lemma_multiply_divide_lt;
use vstd::arithmetic::mul::lemma_mul_upper_bound;
use vstd::arithmetic::mul::lemma_mul_left_inequality;
use vstd::arithmetic::mul::lemma_mul_is_commutative;

verus! {

/// Widening product of two machine words; `u128` always has room for it.
pub fn mul_u64(a: u64, b: u64) -> (r: u128)
    ensures
        r as int == a as int * b as int,
{
    proof {
        lemma_mul_upper_bound(a as int, u64::MAX as int, b as int, u64::MAX as int);
    }
    (a as u128) * (b as u128)
}

/// The remainder of a floor division is nonnegative and below the divisor,
/// so `d * (x / d)` never overshoots `x`.
pub proof fn lemma_div_mul_le(x: int, d: int)
    requires
        0 <= x,
        0 < d,
    ensures
        d * (x / d) <= x,
        0 <= x / d,
{
    lemma_fundamental_div_mod(x, d);
    lemma_mod_division_less_than_divisor(x, d);
    lemma_div_pos_is_pos(x, d);
    assert(x % d >= 0) by (nonlinear_arith)
        requires 0 <= x, 0 < d;
}

/// If the B-side quote of `desired_a` strictly exceeds `desired_b`, then the
/// A-side quote of `desired_b` falls strictly below `desired_a`: re-quoting
/// from the other side can only shrink the binding contribution.
pub proof fn lemma_quote_flip(da: int, db: int, ra: int, rb: int)
    requires
        0 < ra,
        0 < rb,
        0 <= da,
        0 <= db,
        db < da * rb / ra,
    ensures
        db * ra / rb < da,
{
    let q = da * rb / ra;
    lemma_div_mul_le(da * rb, ra);
    lemma_mul_left_inequality(ra, db + 1, q);
    assert(ra * (db + 1) <= da * rb);
    lemma_mul_is_commutative(ra, db + 1);
    lemma_mul_is_commutative(db, ra);
    assert(db * ra < (db + 1) * ra) by (nonlinear_arith)
        requires 0 < ra, 0 <= db;
    lemma_multiply_divide_lt(db * ra, rb, da);
}

/// The square of an integer, as one named term for the proofs to latch onto.
pub open spec fn square(x: int) -> int {
    x * x
}

/// Floor of the square root, defined by primitive recursion on `n`.
pub open spec fn isqrt_spec(n: nat) -> nat
    decreases n,
{
    if n == 0 {
        0
    } else {
        let r = isqrt_spec((n - 1) as nat);
        if (r + 1) * (r + 1) <= n {
            r + 1
        } else {
            r
        }
    }
}

/// The floor square root satisfies `r * r <= n < (r + 1) * (r + 1)`.
pub proof fn lemma_isqrt_spec_bounds(n: nat)
    ensures
        square(isqrt_spec(n) as int) <= n,
        n < square(isqrt_spec(n) as int + 1),
    decreases n,
{
    if n > 0 {
        lemma_isqrt_spec_bounds((n - 1) as nat);
        let r = isqrt_spec((n - 1) as nat);
        if (r + 1) * (r + 1) <= n {
            assert(isqrt_spec(n) == r + 1);
            assert(n == (r + 1) * (r + 1));
            assert(square(r as int + 2) > (r as int + 1) * (r as int + 1)) by (nonlinear_arith);
        } else {
            assert(isqrt_spec(n) == r);
            assert(square(r as int + 1) == (r as int + 1) * (r as int + 1));
        }
    } else {
        assert(isqrt_spec(n) == 0);
        assert(square(1) == 1);
    }
}

/// `r * r <= n < (r + 1) * (r + 1)` pins `r` down: it is the floor square root.
pub proof fn lemma_isqrt_unique(n: nat, r: nat)
    requires
        r * r <= n,
        n < (r + 1) * (r + 1),
    ensures
        r == isqrt_spec(n),
{
    lemma_isqrt_spec_bounds(n);
    let s = isqrt_spec(n);
    assert(square(s as int) == s * s);
    assert(square(s as int + 1) == (s as int + 1) * (s as int + 1));
    if r < s {
        assert((r + 1) * (r + 1) <= s * s) by (nonlinear_arith)
            requires r + 1 <= s;
        assert(false);
    }
    if s < r {
        assert((s + 1) * (s + 1) <= r * r) by (nonlinear_arith)
            requires s + 1 <= r;
        assert(false);
    }
}

/// Floor square root of a wide word, by binary search over the answer.
/// The input is capped at the largest product of two machine words, so the
/// root always fits back into one word.
pub fn isqrt(n: u128) -> (r: u64)
    requires
        n as int <= u64::MAX as int * u64::MAX as int,
    ensures
        r as nat == isqrt_spec(n as nat),
        r as int * r as int <= n as int,
        (n as int) < ((r as int + 1) * (r as int + 1)),
{
    let mut lo: u64 = 0;
    let mut hi: u64 = u64::MAX;
    proof {
        assert((u64::MAX as int + 1) * (u64::MAX as int + 1) > u64::MAX as int * u64::MAX as int)
            by (nonlinear_arith);
    }
    while lo < hi
        invariant
            lo <= hi,
            n as int <= u64::MAX as int * u64::MAX as int,
            lo as int * lo as int <= n as int,
            (n as int) < ((hi as int + 1) * (hi as int + 1)),
        decreases hi - lo,
    {
        let mid: u64 = (((lo as u128) + (hi as u128) + 1) / 2) as u64;
        let sq: u128 = mul_u64(mid, mid);
        if sq <= n {
            lo = mid;
        } else {
            hi = mid - 1;
        }
    }
    proof {
        lemma_isqrt_unique(n as nat, lo as nat);
    }
    lo
}

} // verus!
