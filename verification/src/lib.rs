//! Pricing and settlement of exact-input trades against a pool whose price
//! follows a piecewise bonding curve, with the swallow-cap and slippage guard
//! around it and the fee-operator registry's closing rule.

pub mod config;
pub mod curve;
pub mod error;
pub mod fee;
pub mod pool;
pub mod registry;
pub mod swap;
