//! The pool record: the single source of truth for the two asset reserves and
//! the outstanding liquidity-share supply.

use vstd::prelude::*;

use crate::Balance;

verus! {

/// Failure modes of pool operations. Every operation validates before it
/// mutates, returns one of these instead of aborting, and leaves the state
/// exactly as it was on failure.
#[derive(Clone, Copy, Debug, PartialEq, Eq, Structural)]
pub enum AmmError {
    /// A zero or otherwise invalid input amount.
    InvalidAmount,
    /// A withdrawal asked for more shares than the provider holds.
    InsufficientShares,
    /// A division by a zero reserve, or an intermediate product or sum that
    /// does not fit in `Balance`.
    ArithmeticError,
    /// The custody gateway declined the paired asset transfer. The pool logic
    /// itself never returns this; the host maps a declined transfer to it.
    TransferFailed,
}

/// The pooled funds and the total claim supply against them.
#[derive(Clone, Copy, Debug, PartialEq, Eq, Structural)]
pub struct Pool {
    pub reserve_a: Balance,
    pub reserve_b: Balance,
    pub total_shares: Balance,
}

impl Pool {
    /// The pool is either empty or fully funded: whenever shares are
    /// outstanding, both reserves are positive.
    pub open spec fn wf(self) -> bool {
        self.total_shares > 0 ==> self.reserve_a > 0 && self.reserve_b > 0
    }

    /// An uninitialized pool; it becomes active on the first deposit.
    pub fn new() -> (p: Pool)
        ensures
            p.reserve_a == 0,
            p.reserve_b == 0,
            p.total_shares == 0,
            p.wf(),
    {
        Pool { reserve_a: 0, reserve_b: 0, total_shares: 0 }
    }
}

} // verus!
