//! Signer-authorized arbitrage-opportunity evaluation over three fixed
//! liquidity sources.
//!
//! The core is [`evaluator::evaluate`]: a pure decision procedure that
//! compares quoted prices pairwise, in both directions, against a fee
//! threshold and selects a single outcome under a fixed priority order.
//! [`handler::handle`] places the authorization gate in front of it.
//! Quote acquisition and signal delivery are left to the caller.

pub mod evaluator;
pub mod handler;
pub mod laws;
pub mod model;
