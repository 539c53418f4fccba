//! A multi-outcome automated market maker for prediction-market option
//! tokens. A pool holds reserves of N mutually exclusive options; swap
//! prices follow a conserved-product invariant over the reserves, and
//! liquidity providers hold shares proportional to their deposits.
//!
//! The AMM core lives in [`engine`], [`pricing`], [`pool`] and
//! [`prod`], with its guarantees collected in [`laws`]. Around it sit
//! the odds-based market heuristic ([`market`]), the oracle vote tally
//! ([`oracle`]) and the trading-bot strategy rules ([`bot`]).
//!
//! All monetary arithmetic is deterministic fixed point (see [`amount`]):
//! reserves, shares, fees and volumes are non-negative quantities that
//! saturate instead of wrapping or panicking.

use vstd::prelude::*;

pub mod amount;
pub mod arith;
pub mod bot;
pub mod engine;
pub mod errors;
pub mod laws;
pub mod market;
pub mod oracle;
pub mod pool;
pub mod pricing;
pub mod prod;

verus! {

} // verus!
