//! A staking farm: accounts stake a balance, accrue a block-proportional
//! reward, and claim it. The reward payout is the host's transfer; the farm
//! books the state transition and hands the pending amount out.

use vstd::prelude::*;

use crate::AccountId;
use crate::Balance;
use crate::assoc::AssocMap;

verus! {

/// Why a farm operation was rejected; the state is left unchanged.
#[derive(Clone, Copy, Debug, PartialEq, Eq, Structural)]
pub enum FarmError {
    /// The caller has no stake on record.
    NoStake,
    /// The caller's stake is smaller than the requested withdrawal.
    InsufficientStake,
}

/// One account's stake: the staked balance, the reward already accounted
/// for, and the block of the last stake movement.
#[derive(Clone, Copy, Debug, PartialEq, Eq, Structural)]
pub struct StakeInfo {
    pub amount: Balance,
    pub reward_debt: Balance,
    pub last_staked: u64,
}

/// The reward pending for a stake at `block_number`:
/// `amount * reward_rate * blocks_since_last_stake - reward_debt`, and zero
/// where no stake is on record.
pub open spec fn spec_pending(
    stake: Option<StakeInfo>,
    reward_rate: Balance,
    block_number: u64,
) -> int {
    match stake {
        Some(si) => si.amount * reward_rate * (block_number - si.last_staked) - si.reward_debt,
        None => 0,
    }
}

/// The arithmetic of the pending-reward formula stays within `Balance` and
/// never goes negative.
pub open spec fn pending_fits(
    stake: Option<StakeInfo>,
    reward_rate: Balance,
    block_number: u64,
) -> bool {
    match stake {
        Some(si) => {
            &&& si.last_staked <= block_number
            &&& si.amount * reward_rate <= Balance::MAX
            &&& (si.amount * reward_rate) * (block_number - si.last_staked) <= Balance::MAX
            &&& si.reward_debt <= (si.amount * reward_rate) * (block_number - si.last_staked)
        },
        None => true,
    }
}

/// The farm state: the total staked balance, the per-block reward rate, and
/// each account's stake record.
#[derive(Clone)]
pub struct Farming {
    pub total_staked: Balance,
    pub reward_rate: Balance,
    pub stakers: AssocMap<StakeInfo>,
}

impl Farming {
    /// A fresh farm with the given reward rate and nothing staked.
    pub fn new(reward_rate: Balance) -> (r: Farming)
        ensures
            r.total_staked == 0,
            r.reward_rate == reward_rate,
            forall|x: AccountId| r.stakers.spec_get(x) is None,
    {
        Farming { total_staked: 0, reward_rate, stakers: AssocMap::new() }
    }

    /// The reward pending for `staker` at `block_number`; zero for an
    /// account with no stake.
    pub fn pending_reward(&self, staker: AccountId, block_number: u64) -> (r: Balance)
        requires
            pending_fits(self.stakers.spec_get(staker), self.reward_rate, block_number),
        ensures
            r == spec_pending(self.stakers.spec_get(staker), self.reward_rate, block_number),
    {
        match self.stakers.get(staker) {
            Some(si) => {
                let staked_time = block_number - si.last_staked;
                let pending = si.amount * self.reward_rate * (staked_time as Balance);
                pending - si.reward_debt
            },
            None => 0,
        }
    }

    /// Stakes `amount` more for `caller` at `block_number`: the pending
    /// reward is folded into the reward debt, the stake grows by `amount`,
    /// and the last-staked block is refreshed.
    pub fn stake(&mut self, caller: AccountId, block_number: u64, amount: Balance)
        requires
            pending_fits(old(self).stakers.spec_get(caller), old(self).reward_rate, block_number),
            (match old(self).stakers.spec_get(caller) {
                Some(si) => si.amount + amount <= Balance::MAX && si.reward_debt + spec_pending(
                    old(self).stakers.spec_get(caller),
                    old(self).reward_rate,
                    block_number,
                ) <= Balance::MAX,
                None => true,
            }),
            old(self).total_staked + amount <= Balance::MAX,
        ensures
            final(self).stakers.spec_get(caller) == Some(
                (StakeInfo {
                    amount: (match old(self).stakers.spec_get(caller) {
                        Some(si) => (si.amount + amount) as Balance,
                        None => amount,
                    }),
                    reward_debt: (match old(self).stakers.spec_get(caller) {
                        Some(si) => (si.reward_debt + spec_pending(
                            old(self).stakers.spec_get(caller),
                            old(self).reward_rate,
                            block_number,
                        )) as Balance,
                        None => 0,
                    }),
                    last_staked: block_number,
                }),
            ),
            forall|x: AccountId|
                x != caller ==> final(self).stakers.spec_get(x) == old(self).stakers.spec_get(x),
            final(self).total_staked == old(self).total_staked + amount,
            final(self).reward_rate == old(self).reward_rate,
    {
        let pending = self.pending_reward(caller, block_number);
        let mut info = match self.stakers.get(caller) {
            Some(si) => si,
            None => StakeInfo { amount: 0, reward_debt: 0, last_staked: 0 },
        };
        info.amount = info.amount + amount;
        info.reward_debt = info.reward_debt + pending;
        info.last_staked = block_number;
        self.total_staked = self.total_staked + amount;
        self.stakers.set(caller, info);
    }

    /// Withdraws `amount` of `caller`'s stake at `block_number`, folding the
    /// pending reward into the reward debt. Fails, changing nothing, when no
    /// stake exists or the stake is too small.
    pub fn withdraw(&mut self, caller: AccountId, block_number: u64, amount: Balance) -> (r:
        Result<(), FarmError>)
        requires
            pending_fits(old(self).stakers.spec_get(caller), old(self).reward_rate, block_number),
            (match old(self).stakers.spec_get(caller) {
                Some(si) => si.reward_debt + spec_pending(
                    old(self).stakers.spec_get(caller),
                    old(self).reward_rate,
                    block_number,
                ) <= Balance::MAX && (amount <= si.amount ==> amount <= old(self).total_staked),
                None => true,
            }),
        ensures
            match r {
                Ok(()) => {
                    &&& old(self).stakers.spec_get(caller) is Some
                    &&& amount <= old(self).stakers.spec_get(caller)->Some_0.amount
                    &&& final(self).stakers.spec_get(caller) == Some(
                        (StakeInfo {
                            amount: (old(self).stakers.spec_get(caller)->Some_0.amount
                                - amount) as Balance,
                            reward_debt: (old(self).stakers.spec_get(caller)->Some_0.reward_debt
                                + spec_pending(
                                old(self).stakers.spec_get(caller),
                                old(self).reward_rate,
                                block_number,
                            )) as Balance,
                            last_staked: block_number,
                        }),
                    )
                    &&& forall|x: AccountId|
                        x != caller ==> final(self).stakers.spec_get(x) == old(
                            self,
                        ).stakers.spec_get(x)
                    &&& final(self).total_staked == old(self).total_staked - amount
                    &&& final(self).reward_rate == old(self).reward_rate
                },
                Err(FarmError::NoStake) => (old(self).stakers.spec_get(caller) is None)
                    && *final(self) == *old(self),
                Err(FarmError::InsufficientStake) => {
                    &&& old(self).stakers.spec_get(caller) is Some
                    &&& amount > old(self).stakers.spec_get(caller)->Some_0.amount
                    &&& *final(self) == *old(self)
                },
            },
    {
        let mut info = match self.stakers.get(caller) {
            Some(si) => si,
            None => {
                return Err(FarmError::NoStake);
            },
        };
        if info.amount < amount {
            return Err(FarmError::InsufficientStake);
        }
        let pending = self.pending_reward(caller, block_number);
        info.amount = info.amount - amount;
        info.reward_debt = info.reward_debt + pending;
        info.last_staked = block_number;
        self.total_staked = self.total_staked - amount;
        self.stakers.set(caller, info);
        Ok(())
    }

    /// Pays out the pending reward: the host transfers the returned amount
    /// to the caller, and the reward debt is cleared. Fails, changing
    /// nothing, when no stake exists.
    pub fn claim(&mut self, caller: AccountId, block_number: u64) -> (r: Result<
        Balance,
        FarmError,
    >)
        requires
            pending_fits(old(self).stakers.spec_get(caller), old(self).reward_rate, block_number),
        ensures
            match r {
                Ok(pending) => {
                    &&& old(self).stakers.spec_get(caller) is Some
                    &&& pending == spec_pending(
                        old(self).stakers.spec_get(caller),
                        old(self).reward_rate,
                        block_number,
                    )
                    &&& final(self).stakers.spec_get(caller) == Some(
                        (StakeInfo {
                            reward_debt: 0,
                            ..old(self).stakers.spec_get(caller)->Some_0
                        }),
                    )
                    &&& forall|x: AccountId|
                        x != caller ==> final(self).stakers.spec_get(x) == old(
                            self,
                        ).stakers.spec_get(x)
                    &&& final(self).total_staked == old(self).total_staked
                    &&& final(self).reward_rate == old(self).reward_rate
                },
                Err(FarmError::NoStake) => (old(self).stakers.spec_get(caller) is None)
                    && *final(self) == *old(self),
                _ => false,
            },
    {
        let pending = self.pending_reward(caller, block_number);
        let mut info = match self.stakers.get(caller) {
            Some(si) => si,
            None => {
                return Err(FarmError::NoStake);
            },
        };
        info.reward_debt = 0;
        self.stakers.set(caller, info);
        Ok(pending)
    }

    /// The staked balance of one account; zero when none is on record.
    pub fn get_staked_amount(&self, staker: AccountId) -> (r: Balance)
        ensures
            r == (match self.stakers.spec_get(staker) {
                Some(si) => si.amount,
                None => 0,
            }),
    {
        match self.stakers.get(staker) {
            Some(si) => si.amount,
            None => 0,
        }
    }

    /// The total staked balance across every account.
    pub fn get_total_staked(&self) -> (r: Balance)
        ensures
            r == self.total_staked,
    {
        self.total_staked
    }
}

} // verus!
