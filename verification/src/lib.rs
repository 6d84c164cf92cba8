//! Verified core of a small DeFi suite: a constant-product swap pool, a
//! concentrated-liquidity pool manager and a collateralised lending pool.
//!
//! Each contract is modelled as a plain state value with operations that
//! either succeed with a new state and an output, or fail with a typed
//! error and leave the state exactly as it was.

pub mod account;
pub mod math;
pub mod swap;
pub mod lending;
pub mod liquidity;
