//! A three-party escrow: a buyer funds it, and only the arbiter may release
//! the amount to the seller or refund it to the buyer. Asset custody is the
//! host's: each operation validates and mutates, and the host performs the
//! paired transfer, committing or discarding the staged state.

use vstd::prelude::*;

use crate::AccountId;
use crate::Balance;

verus! {

/// Why an escrow operation was rejected; the state is left unchanged.
#[derive(Clone, Copy, Debug, PartialEq, Eq, Structural)]
pub enum EscrowError {
    /// The escrow already holds a deposit.
    AlreadyFunded,
    /// Only the arbiter may release or refund.
    NotArbiter,
    /// Nothing has been deposited yet.
    NotFunded,
    /// The funds have already been released.
    AlreadyReleased,
}

/// A deposit was made.
#[derive(Clone, Copy, Debug, PartialEq, Eq, Structural)]
pub struct Funded {
    pub buyer: AccountId,
    pub amount: Balance,
}

/// The deposit was paid out to the seller.
#[derive(Clone, Copy, Debug, PartialEq, Eq, Structural)]
pub struct Released {
    pub to: AccountId,
    pub amount: Balance,
}

/// The deposit was returned to the buyer.
#[derive(Clone, Copy, Debug, PartialEq, Eq, Structural)]
pub struct Refunded {
    pub to: AccountId,
    pub amount: Balance,
}

/// One recorded escrow occurrence.
#[derive(Clone, Copy, Debug, PartialEq, Eq, Structural)]
pub enum EscrowEvent {
    Funded(Funded),
    Released(Released),
    Refunded(Refunded),
}

/// The escrow state: the three parties, the held amount, and the lifecycle
/// flags.
#[derive(Clone)]
pub struct Escrow {
    pub buyer: AccountId,
    pub seller: AccountId,
    pub arbiter: AccountId,
    pub amount: Balance,
    pub is_funded: bool,
    pub is_released: bool,
    pub events: Vec<EscrowEvent>,
}

impl Escrow {
    /// A fresh escrow between a seller and an arbiter; the buyer is fixed by
    /// the first deposit.
    pub fn new(seller: AccountId, arbiter: AccountId) -> (r: Escrow)
        ensures
            r.buyer == 0,
            r.seller == seller,
            r.arbiter == arbiter,
            r.amount == 0,
            !r.is_funded,
            !r.is_released,
            r.events@ == Seq::<EscrowEvent>::empty(),
    {
        Escrow {
            buyer: 0,
            seller,
            arbiter,
            amount: 0,
            is_funded: false,
            is_released: false,
            events: Vec::new(),
        }
    }

    /// Records a deposit of `transferred` made by `caller`, who becomes the
    /// buyer. Rejected once the escrow is funded.
    pub fn fund(&mut self, caller: AccountId, transferred: Balance) -> (r: Result<
        (),
        EscrowError,
    >)
        ensures
            match r {
                Ok(()) => {
                    &&& !old(self).is_funded
                    &&& final(self).buyer == caller
                    &&& final(self).amount == transferred
                    &&& final(self).is_funded
                    &&& final(self).is_released == old(self).is_released
                    &&& final(self).seller == old(self).seller
                    &&& final(self).arbiter == old(self).arbiter
                    &&& final(self).events@ == old(self).events@.push(
                        EscrowEvent::Funded((Funded { buyer: caller, amount: transferred })),
                    )
                },
                Err(EscrowError::AlreadyFunded) => old(self).is_funded && *final(self) == *old(
                    self,
                ),
                _ => false,
            },
    {
        if self.is_funded {
            return Err(EscrowError::AlreadyFunded);
        }
        self.buyer = caller;
        self.amount = transferred;
        self.is_funded = true;
        self.events.push(EscrowEvent::Funded(Funded { buyer: caller, amount: transferred }));
        Ok(())
    }

    /// Marks the deposit as released to the seller; the host then pays
    /// `amount` to `seller`. Only the arbiter may release, only once, and
    /// only after funding.
    pub fn release(&mut self, caller: AccountId) -> (r: Result<(), EscrowError>)
        ensures
            match r {
                Ok(()) => {
                    &&& caller == old(self).arbiter
                    &&& old(self).is_funded
                    &&& !old(self).is_released
                    &&& *final(self) == (Escrow {
                        is_released: true,
                        events: final(self).events,
                        ..*old(self)
                    })
                    &&& final(self).events@ == old(self).events@.push(
                        EscrowEvent::Released(
                            (Released { to: old(self).seller, amount: old(self).amount }),
                        ),
                    )
                },
                Err(EscrowError::NotArbiter) => caller != old(self).arbiter && *final(self)
                    == *old(self),
                Err(EscrowError::NotFunded) => caller == old(self).arbiter && !old(self).is_funded
                    && *final(self) == *old(self),
                Err(EscrowError::AlreadyReleased) => caller == old(self).arbiter && old(
                    self,
                ).is_funded && old(self).is_released && *final(self) == *old(self),
                _ => false,
            },
    {
        if caller != self.arbiter {
            return Err(EscrowError::NotArbiter);
        }
        if !self.is_funded {
            return Err(EscrowError::NotFunded);
        }
        if self.is_released {
            return Err(EscrowError::AlreadyReleased);
        }
        self.is_released = true;
        let to = self.seller;
        let amount = self.amount;
        self.events.push(EscrowEvent::Released(Released { to, amount }));
        Ok(())
    }

    /// Marks the deposit as returned to the buyer; the host then pays
    /// `amount` back to `buyer`. Only the arbiter may refund, and only while
    /// the deposit is held and unreleased.
    pub fn refund(&mut self, caller: AccountId) -> (r: Result<(), EscrowError>)
        ensures
            match r {
                Ok(()) => {
                    &&& caller == old(self).arbiter
                    &&& old(self).is_funded
                    &&& !old(self).is_released
                    &&& *final(self) == (Escrow {
                        is_funded: false,
                        events: final(self).events,
                        ..*old(self)
                    })
                    &&& final(self).events@ == old(self).events@.push(
                        EscrowEvent::Refunded(
                            (Refunded { to: old(self).buyer, amount: old(self).amount }),
                        ),
                    )
                },
                Err(EscrowError::NotArbiter) => caller != old(self).arbiter && *final(self)
                    == *old(self),
                Err(EscrowError::NotFunded) => caller == old(self).arbiter && !old(self).is_funded
                    && *final(self) == *old(self),
                Err(EscrowError::AlreadyReleased) => caller == old(self).arbiter && old(
                    self,
                ).is_funded && old(self).is_released && *final(self) == *old(self),
                _ => false,
            },
    {
        if caller != self.arbiter {
            return Err(EscrowError::NotArbiter);
        }
        if !self.is_funded {
            return Err(EscrowError::NotFunded);
        }
        if self.is_released {
            return Err(EscrowError::AlreadyReleased);
        }
        self.is_funded = false;
        let to = self.buyer;
        let amount = self.amount;
        self.events.push(EscrowEvent::Refunded(Refunded { to, amount }));
        Ok(())
    }

    /// The parties, the held amount and the lifecycle flags, in one tuple.
    pub fn get_status(&self) -> (r: (AccountId, AccountId, AccountId, Balance, bool, bool))
        ensures
            r == (
                self.buyer,
                self.seller,
                self.arbiter,
                self.amount,
                self.is_funded,
                self.is_released,
            ),
    {
        (self.buyer, self.seller, self.arbiter, self.amount, self.is_funded, self.is_released)
    }
}

} // verus!
