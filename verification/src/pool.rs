//! The pool ledger: the authoritative record of one asset pair's reserves and
//! the outstanding supply of its claim token, together with the funding
//! invariant that a pool is either fully empty or fully funded.

use vstd::prelude::*;
use crate::errors::ErrorCodes;

verus! {

/// The funding invariant of a ledger: each reserve is positive exactly when
/// claim tokens are outstanding, so a pool is either fully empty or fully
/// funded.
pub open spec fn i1_holds(reserve_a: int, reserve_b: int, claim_token_supply: int) -> bool {
    &&& (reserve_a > 0 <==> claim_token_supply > 0)
    &&& (reserve_b > 0 <==> claim_token_supply > 0)
}

/// One pool: the reserves of an asset pair and the total supply of the claim
/// token that represents ownership of them.  Asset identities are opaque
/// integer ids; the pair is stored in canonical (ascending) order, so one
/// unordered pair maps to exactly one pool value.
#[derive(Clone, Copy, Debug, PartialEq, Eq, Structural)]
pub struct Pool {
    /// Identity of the asset held in `reserve_a`.
    pub asset_a_mint: u64,
    /// Identity of the asset held in `reserve_b`.
    pub asset_b_mint: u64,
    /// Balance of asset A currently held by the pool.
    pub reserve_a: u64,
    /// Balance of asset B currently held by the pool.
    pub reserve_b: u64,
    /// Total outstanding claim tokens for this pool.
    pub claim_token_supply: u64,
}

impl Pool {
    /// A pool is well formed when its mints are in canonical order (hence
    /// distinct) and the funding invariant holds.
    pub open spec fn well_formed(self) -> bool {
        &&& self.asset_a_mint < self.asset_b_mint
        &&& i1_holds(self.reserve_a as int, self.reserve_b as int, self.claim_token_supply as int)
    }

    /// A pool is funded when claim tokens are outstanding (with the funding
    /// invariant: when both reserves are positive).
    pub open spec fn is_funded(self) -> bool {
        self.claim_token_supply > 0
    }

    /// Creates the empty pool of an unordered asset pair.  The two mints are
    /// stored in ascending order, so both argument orders build the same pool.
    pub fn new(mint_x: u64, mint_y: u64) -> (p: Pool)
        requires
            mint_x != mint_y,
        ensures
            p.well_formed(),
            !p.is_funded(),
            p.reserve_a == 0,
            p.reserve_b == 0,
            p.claim_token_supply == 0,
            p.asset_a_mint == if mint_x < mint_y { mint_x as int } else { mint_y as int },
            p.asset_b_mint == if mint_x < mint_y { mint_y as int } else { mint_x as int },
    {
        let (lo, hi) = if mint_x < mint_y {
            (mint_x, mint_y)
        } else {
            (mint_y, mint_x)
        };
        Pool { asset_a_mint: lo, asset_b_mint: hi, reserve_a: 0, reserve_b: 0, claim_token_supply: 0 }
    }

    /// Current reserve balances, asset A first.
    pub fn current_reserves(&self) -> (r: (u64, u64))
        ensures
            r.0 == self.reserve_a,
            r.1 == self.reserve_b,
    {
        (self.reserve_a, self.reserve_b)
    }

    /// Current outstanding claim-token supply.
    pub fn current_supply(&self) -> (r: u64)
        ensures
            r == self.claim_token_supply,
    {
        self.claim_token_supply
    }

    /// Credits both reserves.  The increase is validated against the funding
    /// invariant before anything is written: crediting an empty pool without
    /// minting would break it, and is refused as a fatal internal fault.
    pub fn credit(&mut self, a_delta: u64, b_delta: u64) -> (r: Result<(), ErrorCodes>)
        requires
            old(self).reserve_a + a_delta <= u64::MAX,
            old(self).reserve_b + b_delta <= u64::MAX,
        ensures
            final(self).asset_a_mint == old(self).asset_a_mint,
            final(self).asset_b_mint == old(self).asset_b_mint,
            final(self).claim_token_supply == old(self).claim_token_supply,
            i1_holds(
                old(self).reserve_a + a_delta,
                old(self).reserve_b + b_delta,
                old(self).claim_token_supply as int,
            ) ==> r == Ok::<(), ErrorCodes>(()) && final(self).reserve_a == old(self).reserve_a
                + a_delta && final(self).reserve_b == old(self).reserve_b + b_delta,
            !i1_holds(
                old(self).reserve_a + a_delta,
                old(self).reserve_b + b_delta,
                old(self).claim_token_supply as int,
            ) ==> r == Err::<(), ErrorCodes>(ErrorCodes::InternalInvariantViolation) && *final(self)
                == *old(self),
    {
        let new_a = self.reserve_a + a_delta;
        let new_b = self.reserve_b + b_delta;
        let funded = self.claim_token_supply > 0;
        if (new_a > 0) == funded && (new_b > 0) == funded {
            self.reserve_a = new_a;
            self.reserve_b = new_b;
            Ok(())
        } else {
            Err(ErrorCodes::InternalInvariantViolation)
        }
    }

    /// Debits both reserves.  The decrease is validated against the funding
    /// invariant before anything is written; draining a reserve while claim
    /// tokens remain outstanding is refused as a fatal internal fault.
    pub fn debit(&mut self, a_delta: u64, b_delta: u64) -> (r: Result<(), ErrorCodes>)
        requires
            a_delta <= old(self).reserve_a,
            b_delta <= old(self).reserve_b,
        ensures
            final(self).asset_a_mint == old(self).asset_a_mint,
            final(self).asset_b_mint == old(self).asset_b_mint,
            final(self).claim_token_supply == old(self).claim_token_supply,
            i1_holds(
                old(self).reserve_a - a_delta,
                old(self).reserve_b - b_delta,
                old(self).claim_token_supply as int,
            ) ==> r == Ok::<(), ErrorCodes>(()) && final(self).reserve_a == old(self).reserve_a
                - a_delta && final(self).reserve_b == old(self).reserve_b - b_delta,
            !i1_holds(
                old(self).reserve_a - a_delta,
                old(self).reserve_b - b_delta,
                old(self).claim_token_supply as int,
            ) ==> r == Err::<(), ErrorCodes>(ErrorCodes::InternalInvariantViolation) && *final(self)
                == *old(self),
    {
        let new_a = self.reserve_a - a_delta;
        let new_b = self.reserve_b - b_delta;
        let funded = self.claim_token_supply > 0;
        if (new_a > 0) == funded && (new_b > 0) == funded {
            self.reserve_a = new_a;
            self.reserve_b = new_b;
            Ok(())
        } else {
            Err(ErrorCodes::InternalInvariantViolation)
        }
    }

    /// Raises the claim-token supply, validating the funding invariant first:
    /// claims may only be outstanding over positive reserves.
    pub fn mint_claims(&mut self, amount: u64) -> (r: Result<(), ErrorCodes>)
        requires
            old(self).claim_token_supply + amount <= u64::MAX,
        ensures
            final(self).asset_a_mint == old(self).asset_a_mint,
            final(self).asset_b_mint == old(self).asset_b_mint,
            final(self).reserve_a == old(self).reserve_a,
            final(self).reserve_b == old(self).reserve_b,
            i1_holds(
                old(self).reserve_a as int,
                old(self).reserve_b as int,
                old(self).claim_token_supply + amount,
            ) ==> r == Ok::<(), ErrorCodes>(()) && final(self).claim_token_supply == old(self).claim_token_supply + amount,
            !i1_holds(
                old(self).reserve_a as int,
                old(self).reserve_b as int,
                old(self).claim_token_supply + amount,
            ) ==> r == Err::<(), ErrorCodes>(ErrorCodes::InternalInvariantViolation) && *final(self)
                == *old(self),
    {
        let new_supply = self.claim_token_supply + amount;
        if (self.reserve_a > 0) == (new_supply > 0) && (self.reserve_b > 0) == (new_supply > 0) {
            self.claim_token_supply = new_supply;
            Ok(())
        } else {
            Err(ErrorCodes::InternalInvariantViolation)
        }
    }

    /// Lowers the claim-token supply, validating the funding invariant first:
    /// the last claim may only be burned together with the last reserves.
    pub fn burn_claims(&mut self, amount: u64) -> (r: Result<(), ErrorCodes>)
        requires
            amount <= old(self).claim_token_supply,
        ensures
            final(self).asset_a_mint == old(self).asset_a_mint,
            final(self).asset_b_mint == old(self).asset_b_mint,
            final(self).reserve_a == old(self).reserve_a,
            final(self).reserve_b == old(self).reserve_b,
            i1_holds(
                old(self).reserve_a as int,
                old(self).reserve_b as int,
                old(self).claim_token_supply - amount,
            ) ==> r == Ok::<(), ErrorCodes>(()) && final(self).claim_token_supply == old(self).claim_token_supply - amount,
            !i1_holds(
                old(self).reserve_a as int,
                old(self).reserve_b as int,
                old(self).claim_token_supply - amount,
            ) ==> r == Err::<(), ErrorCodes>(ErrorCodes::InternalInvariantViolation) && *final(self)
                == *old(self),
    {
        let new_supply = self.claim_token_supply - amount;
        if (self.reserve_a > 0) == (new_supply > 0) && (self.reserve_b > 0) == (new_supply > 0) {
            self.claim_token_supply = new_supply;
            Ok(())
        } else {
            Err(ErrorCodes::InternalInvariantViolation)
        }
    }
}

} // verus!
