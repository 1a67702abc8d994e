//! Constant-product liquidity-pool deposit engine.
//!
//! Given a pool that holds two reserve assets and issues a pool-share
//! ("marker") asset, the library computes and validates the exact amounts to
//! move when a party deposits liquidity: it fills in partially specified
//! amounts, preserves (or initializes) the pool's price ratio, enforces the
//! minimum-liquidity floor and every caller-supplied bound, and turns each
//! violation into a distinct error.  The engine itself performs no I/O: the
//! caller reads reserve and account balances from its ledger, hands them in as
//! plain values, and performs the transfers that a successful validation
//! prescribes.

pub mod arith;
pub mod bounds;
pub mod errors;
pub mod action;
pub mod calc;
pub mod laws;
