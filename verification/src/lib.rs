//! Two constant-product automated-market-maker contracts — a two-asset
//! liquidity pool with proportional shares, and a market maker that pairs a
//! native-currency reserve with a token reserve — together with the
//! satellite contracts that live alongside them: a fungible-token ledger,
//! an escrow, a token bridge, a staking farm, a wagering book and a ballot.
//!
//! The pool owns two asset reserves and the total supply of liquidity shares;
//! the liquidity engine mints and burns shares against proportional deposits
//! and withdrawals, and the swap engine prices one-directional trades with the
//! zero-fee constant-product formula. Asset custody and event delivery belong
//! to the surrounding execution environment: every operation here is a pure
//! state transition that validates first and mutates only on success, so a
//! host can stage a transition, attempt the paired transfer, and commit or
//! discard atomically.

use vstd::prelude::*;

pub mod assoc;
pub mod bet;
pub mod bridge;
pub mod dex;
pub mod escrow;
pub mod farming;
pub mod liquidity;
pub mod market_making;
pub mod pool;
pub mod swap;
pub mod token;
pub mod voting;

verus! {

/// A stable account identifier handed in by the execution environment.
pub type AccountId = u64;

/// An unsigned amount of an asset or of liquidity shares.
pub type Balance = u128;

} // verus!
