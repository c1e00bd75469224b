//! Accounting and pricing core of a constant-product automated market maker.
//!
//! A pool holds integer reserves of two assets and the total supply of a
//! claim token that represents proportional ownership of those reserves.
//! The library provides the quoting engine, the deposit planner, the pool
//! ledger with its funding invariant, liquidity provisioning and withdrawal,
//! and the constant-product swap engine with a basis-point fee.  Asset
//! custody, transfers, and claim-token account bookkeeping are external
//! collaborators: the library computes the amounts, a host moves the funds.

pub mod arith;
pub mod config;
pub mod errors;
pub mod laws;
pub mod liquidity;
pub mod pool;
pub mod quoting;
pub mod swap;
