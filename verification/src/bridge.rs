//! A token bridge: accounts lock tokens for a target chain and address, and
//! admin accounts may unlock tokens back out. The underlying token movement
//! is a custody hook left to the host.

use vstd::prelude::*;

use crate::AccountId;
use crate::Balance;
use crate::assoc::AssocMap;
use crate::liquidity::AccountLedger;

verus! {

/// Why a bridge operation was rejected; the state is left unchanged.
#[derive(Clone, Copy, Debug, PartialEq, Eq, Structural)]
pub enum BridgeError {
    /// Only an admin account may do this.
    NotAdmin,
}

/// Tokens were locked for a target chain and address.
#[derive(Clone, Copy, Debug, PartialEq, Eq)]
pub struct Locked {
    pub from: AccountId,
    pub amount: Balance,
    pub target_chain: u32,
    pub target_address: [u8; 32],
}

/// Tokens were unlocked back out.
#[derive(Clone, Copy, Debug, PartialEq, Eq, Structural)]
pub struct Unlocked {
    pub to: AccountId,
    pub amount: Balance,
}

/// One recorded bridge occurrence.
#[derive(Clone, Copy, Debug, PartialEq, Eq)]
pub enum BridgeEvent {
    Locked(Locked),
    Unlocked(Unlocked),
}

/// The bridge state: the locked balance of each account, the admin set, and
/// the recorded events.
pub struct Bridge {
    pub locked_tokens: AccountLedger,
    pub admins: AssocMap<bool>,
    pub events: Vec<BridgeEvent>,
}

impl Bridge {
    /// Whether `id` is currently an admin; accounts start as non-admins.
    pub open spec fn is_admin(self, id: AccountId) -> bool {
        match self.admins.spec_get(id) {
            Some(b) => b,
            None => false,
        }
    }

    /// A fresh bridge whose only admin is `admin`.
    pub fn new(admin: AccountId) -> (r: Bridge)
        ensures
            r.is_admin(admin),
            forall|x: AccountId| x != admin ==> !r.is_admin(x),
            forall|x: AccountId| r.locked_tokens.balance_of(x) == 0,
            r.events@ == Seq::<BridgeEvent>::empty(),
    {
        let mut admins: AssocMap<bool> = AssocMap::new();
        admins.set(admin, true);
        Bridge { locked_tokens: AccountLedger::new(), admins, events: Vec::new() }
    }

    /// The custody hook that would move tokens between accounts; the host
    /// supplies real custody, so booking always succeeds here.
    fn transfer_from(&self, from: AccountId, to: AccountId, amount: Balance) -> (r: Result<
        (),
        BridgeError,
    >)
        ensures
            r is Ok,
    {
        let _ = (from, to, amount);
        Ok(())
    }

    /// Locks `amount` of the caller's tokens for the given target chain and
    /// address, raising the caller's locked balance and recording the
    /// occurrence.
    pub fn lock(&mut self, caller: AccountId, target_chain: u32, target_address: [u8; 32], amount: Balance)
        -> (r: Result<(), BridgeError>)
        requires
            old(self).locked_tokens.balance_of(caller) + amount <= Balance::MAX,
        ensures
            r is Ok,
            final(self).locked_tokens.balance_of(caller) == old(self).locked_tokens.balance_of(
                caller,
            ) + amount,
            forall|x: AccountId|
                x != caller ==> final(self).locked_tokens.balance_of(x) == old(
                    self,
                ).locked_tokens.balance_of(x),
            forall|x: AccountId| final(self).is_admin(x) == old(self).is_admin(x),
            final(self).events@ == old(self).events@.push(
                BridgeEvent::Locked(
                    (Locked { from: caller, amount, target_chain, target_address }),
                ),
            ),
    {
        match self.transfer_from(caller, 0, amount) {
            Ok(()) => {},
            Err(e) => {
                return Err(e);
            },
        }
        let current = self.locked_tokens.get(caller);
        self.locked_tokens.set(caller, current + amount);
        self.events.push(
            BridgeEvent::Locked(Locked { from: caller, amount, target_chain, target_address }),
        );
        Ok(())
    }

    /// Unlocks `amount` out to `to`; only an admin may do so. The locked
    /// balances themselves are not reduced; the occurrence is recorded.
    pub fn unlock(&mut self, caller: AccountId, to: AccountId, amount: Balance) -> (r: Result<
        (),
        BridgeError,
    >)
        ensures
            match r {
                Ok(()) => {
                    &&& old(self).is_admin(caller)
                    &&& forall|x: AccountId|
                        final(self).locked_tokens.balance_of(x) == old(
                            self,
                        ).locked_tokens.balance_of(x)
                    &&& forall|x: AccountId| final(self).is_admin(x) == old(self).is_admin(x)
                    &&& final(self).events@ == old(self).events@.push(
                        BridgeEvent::Unlocked((Unlocked { to, amount })),
                    )
                },
                Err(BridgeError::NotAdmin) => !old(self).is_admin(caller) && *final(self) == *old(
                    self,
                ),
            },
    {
        let is_admin = match self.admins.get(caller) {
            Some(b) => b,
            None => false,
        };
        if !is_admin {
            return Err(BridgeError::NotAdmin);
        }
        match self.transfer_from(0, to, amount) {
            Ok(()) => {},
            Err(e) => {
                return Err(e);
            },
        }
        self.events.push(BridgeEvent::Unlocked(Unlocked { to, amount }));
        Ok(())
    }

    /// Makes `new_admin` an admin; only an existing admin may do so.
    pub fn add_admin(&mut self, caller: AccountId, new_admin: AccountId) -> (r: Result<
        (),
        BridgeError,
    >)
        ensures
            match r {
                Ok(()) => {
                    &&& old(self).is_admin(caller)
                    &&& final(self).is_admin(new_admin)
                    &&& forall|x: AccountId|
                        x != new_admin ==> final(self).is_admin(x) == old(self).is_admin(x)
                    &&& forall|x: AccountId|
                        final(self).locked_tokens.balance_of(x) == old(
                            self,
                        ).locked_tokens.balance_of(x)
                    &&& final(self).events@ == old(self).events@
                },
                Err(BridgeError::NotAdmin) => !old(self).is_admin(caller) && *final(self) == *old(
                    self,
                ),
            },
    {
        let is_admin = match self.admins.get(caller) {
            Some(b) => b,
            None => false,
        };
        if !is_admin {
            return Err(BridgeError::NotAdmin);
        }
        self.admins.set(new_admin, true);
        Ok(())
    }

    /// Strips `admin` of admin rights; only an existing admin may do so.
    pub fn remove_admin(&mut self, caller: AccountId, admin: AccountId) -> (r: Result<
        (),
        BridgeError,
    >)
        ensures
            match r {
                Ok(()) => {
                    &&& old(self).is_admin(caller)
                    &&& !final(self).is_admin(admin)
                    &&& forall|x: AccountId|
                        x != admin ==> final(self).is_admin(x) == old(self).is_admin(x)
                    &&& forall|x: AccountId|
                        final(self).locked_tokens.balance_of(x) == old(
                            self,
                        ).locked_tokens.balance_of(x)
                    &&& final(self).events@ == old(self).events@
                },
                Err(BridgeError::NotAdmin) => !old(self).is_admin(caller) && *final(self) == *old(
                    self,
                ),
            },
    {
        let is_admin = match self.admins.get(caller) {
            Some(b) => b,
            None => false,
        };
        if !is_admin {
            return Err(BridgeError::NotAdmin);
        }
        self.admins.set(admin, false);
        Ok(())
    }

    /// The locked balance recorded for one account.
    pub fn get_locked(&self, account: AccountId) -> (r: Balance)
        ensures
            r == self.locked_tokens.balance_of(account),
    {
        self.locked_tokens.get(account)
    }

    /// Every event recorded so far, oldest first.
    pub fn get_events(&self) -> (r: &Vec<BridgeEvent>)
        ensures
            r@ == self.events@,
    {
        &self.events
    }
}

} // verus!
