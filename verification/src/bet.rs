//! A two-way wagering book: bettors stake on one of two options, the owner
//! closes the book and selects the winner, and winners are paid out at the
//! pool-wide ratio. The payouts themselves are the host's transfers; the
//! book computes who is owed what.

use vstd::prelude::*;

use crate::AccountId;
use crate::Balance;
use crate::assoc::AssocMap;

verus! {

/// Why a wagering operation was rejected; the state is left unchanged.
#[derive(Clone, Copy, Debug, PartialEq, Eq, Structural)]
pub enum BetError {
    /// The book is closed for new bets.
    BettingClosed,
    /// The bet amount was zero.
    InvalidAmount,
    /// Only the owner may do this.
    NotOwner,
    /// The book must be closed first.
    BettingOpen,
    /// No winner has been selected yet.
    NoWinner,
    /// A division by a zero option pool, or a payout that does not fit in
    /// `Balance`.
    ArithmeticError,
}

/// The two sides of the wager.
#[derive(Clone, Copy, Debug, PartialEq, Eq, Structural)]
pub enum BetOption {
    Option1,
    Option2,
}

/// One bettor's stake: the amount wagered and the side it backs.
#[derive(Clone, Copy, Debug, PartialEq, Eq, Structural)]
pub struct Bet {
    pub amount: Balance,
    pub option: BetOption,
}

/// The payouts owed to the backers of `winning_option` at `payout_ratio`,
/// in ledger order.
pub open spec fn spec_payouts(
    bets: Seq<(AccountId, Bet)>,
    winning_option: BetOption,
    payout_ratio: int,
) -> Seq<(AccountId, Balance)>
    decreases bets.len(),
{
    if bets.len() == 0 {
        Seq::empty()
    } else {
        let rest = spec_payouts(bets.drop_last(), winning_option, payout_ratio);
        let last = bets.last();
        if last.1.option == winning_option {
            rest.push((last.0, (last.1.amount * payout_ratio) as Balance))
        } else {
            rest
        }
    }
}

/// Every winning payout fits in `Balance`.
pub open spec fn payouts_fit(
    bets: Seq<(AccountId, Bet)>,
    winning_option: BetOption,
    payout_ratio: int,
) -> bool {
    forall|j: int|
        0 <= j < bets.len() && (#[trigger] bets[j]).1.option == winning_option ==> bets[j].1.amount
            * payout_ratio <= Balance::MAX
}

/// The wagering book: the owner, every bettor's stake, the three running
/// totals, and the winner once selected.
#[derive(Clone)]
pub struct Betting {
    pub owner: AccountId,
    pub bets: AssocMap<Bet>,
    pub total_amount: Balance,
    pub option1_amount: Balance,
    pub option2_amount: Balance,
    pub betting_open: bool,
    pub winner: Option<BetOption>,
}

impl Betting {
    /// The running total staked on one side.
    pub open spec fn spec_option_amount(self, option: BetOption) -> Balance {
        match option {
            BetOption::Option1 => self.option1_amount,
            BetOption::Option2 => self.option2_amount,
        }
    }

    /// A fresh, open book owned by its deployer, with no bets.
    pub fn new(caller: AccountId) -> (r: Betting)
        ensures
            r.owner == caller,
            forall|x: AccountId| r.bets.spec_get(x) is None,
            r.total_amount == 0,
            r.option1_amount == 0,
            r.option2_amount == 0,
            r.betting_open,
            r.winner is None,
    {
        Betting {
            owner: caller,
            bets: AssocMap::new(),
            total_amount: 0,
            option1_amount: 0,
            option2_amount: 0,
            betting_open: true,
            winner: None,
        }
    }

    /// Books a stake of `value` (already transferred in by the host) on
    /// `option` for `caller`, overwriting any earlier bet of the caller
    /// while keeping both stakes in the running totals.
    pub fn place_bet(&mut self, caller: AccountId, value: Balance, option: BetOption) -> (r:
        Result<(), BetError>)
        requires
            old(self).total_amount + value <= Balance::MAX,
            old(self).spec_option_amount(option) + value <= Balance::MAX,
        ensures
            match r {
                Ok(()) => {
                    &&& old(self).betting_open && value > 0
                    &&& final(self).bets.spec_get(caller) == Some(
                        (Bet { amount: value, option }),
                    )
                    &&& forall|x: AccountId|
                        x != caller ==> final(self).bets.spec_get(x) == old(self).bets.spec_get(x)
                    &&& final(self).total_amount == old(self).total_amount + value
                    &&& final(self).spec_option_amount(option) == old(self).spec_option_amount(
                        option,
                    ) + value
                    &&& (match option {
                        BetOption::Option1 => final(self).option2_amount == old(
                            self,
                        ).option2_amount,
                        BetOption::Option2 => final(self).option1_amount == old(
                            self,
                        ).option1_amount,
                    })
                    &&& final(self).owner == old(self).owner
                    &&& final(self).betting_open == old(self).betting_open
                    &&& final(self).winner == old(self).winner
                },
                Err(BetError::BettingClosed) => !old(self).betting_open && *final(self) == *old(self),
                Err(BetError::InvalidAmount) => old(self).betting_open && value == 0 && *final(self) == *old(self),
                _ => false,
            },
    {
        if !self.betting_open {
            return Err(BetError::BettingClosed);
        }
        if value == 0 {
            return Err(BetError::InvalidAmount);
        }
        let new_option1: Balance;
        let new_option2: Balance;
        match option {
            BetOption::Option1 => {
                new_option1 = self.option1_amount + value;
                new_option2 = self.option2_amount;
            },
            BetOption::Option2 => {
                new_option1 = self.option1_amount;
                new_option2 = self.option2_amount + value;
            },
        }
        self.total_amount = self.total_amount + value;
        self.option1_amount = new_option1;
        self.option2_amount = new_option2;
        self.bets.set(caller, Bet { amount: value, option });
        Ok(())
    }

    /// Closes the book for new bets; only the owner may do so.
    pub fn close_betting(&mut self, caller: AccountId) -> (r: Result<(), BetError>)
        ensures
            match r {
                Ok(()) => caller == old(self).owner && *final(self) == (Betting {
                    betting_open: false,
                    ..*old(self)
                }),
                Err(BetError::NotOwner) => caller != old(self).owner && *final(self) == *old(self),
                _ => false,
            },
    {
        if caller != self.owner {
            return Err(BetError::NotOwner);
        }
        self.betting_open = false;
        Ok(())
    }

    /// The payouts owed to the backers of `winning_option`: each winning
    /// stake times the pool-wide ratio `total_amount / winning side's
    /// total`, rounded down once in the ratio. Fails when the winning side
    /// holds nothing or a payout does not fit in `Balance`.
    pub fn distribute_rewards(&self, winning_option: BetOption) -> (r: Result<
        Vec<(AccountId, Balance)>,
        BetError,
    >)
        ensures
            match r {
                Ok(v) => {
                    &&& self.spec_option_amount(winning_option) > 0
                    &&& payouts_fit(
                        self.bets.entries@,
                        winning_option,
                        self.total_amount as int / self.spec_option_amount(winning_option) as int,
                    )
                    &&& v@ == spec_payouts(
                        self.bets.entries@,
                        winning_option,
                        self.total_amount as int / self.spec_option_amount(winning_option) as int,
                    )
                },
                Err(BetError::ArithmeticError) => self.spec_option_amount(winning_option) == 0
                    || !payouts_fit(
                    self.bets.entries@,
                    winning_option,
                    self.total_amount as int / self.spec_option_amount(winning_option) as int,
                ),
                _ => false,
            },
    {
        let pool = match winning_option {
            BetOption::Option1 => self.option1_amount,
            BetOption::Option2 => self.option2_amount,
        };
        if pool == 0 {
            return Err(BetError::ArithmeticError);
        }
        let payout_ratio = self.total_amount / pool;
        let n = self.bets.entries.len();
        let mut payouts: Vec<(AccountId, Balance)> = Vec::new();
        let mut i: usize = 0;
        proof {
            assert(self.bets.entries@.take(0) =~= Seq::<(AccountId, Bet)>::empty());
        }
        while i < n
            invariant
                n == self.bets.entries.len(),
                i <= n,
                pool == self.spec_option_amount(winning_option),
                pool > 0,
                payout_ratio == self.total_amount as int / pool as int,
                payouts@ == spec_payouts(
                    self.bets.entries@.take(i as int),
                    winning_option,
                    payout_ratio as int,
                ),
                forall|j: int|
                    0 <= j < i && (#[trigger] self.bets.entries@[j]).1.option == winning_option
                        ==> self.bets.entries@[j].1.amount * payout_ratio <= Balance::MAX,
            decreases n - i,
        {
            proof {
                let s = self.bets.entries@.take(i + 1);
                assert(s.len() == i + 1);
                assert(s.drop_last() =~= self.bets.entries@.take(i as int));
                assert(s.last() == self.bets.entries@[i as int]);
            }
            let entry_account = self.bets.entries[i].0;
            let entry_bet = self.bets.entries[i].1;
            if matches!(entry_bet.option, BetOption::Option1) == matches!(winning_option, BetOption::Option1) {
                let payout = match entry_bet.amount.checked_mul(payout_ratio) {
                    Some(p) => p,
                    None => {
                        return Err(BetError::ArithmeticError);
                    },
                };
                payouts.push((entry_account, payout));
            }
            i += 1;
        }
        proof {
            assert(self.bets.entries@.take(n as int) =~= self.bets.entries@);
        }
        Ok(payouts)
    }

    /// Selects the winner and computes the payout list the host must pay;
    /// only the owner may do so, and only once the book is closed. On
    /// failure nothing changes, the winner included.
    pub fn select_winner(&mut self, caller: AccountId, option: BetOption) -> (r: Result<
        Vec<(AccountId, Balance)>,
        BetError,
    >)
        ensures
            match r {
                Ok(v) => {
                    &&& caller == old(self).owner
                    &&& !old(self).betting_open
                    &&& *final(self) == (Betting { winner: Some(option), ..*old(self) })
                    &&& old(self).spec_option_amount(option) > 0
                    &&& v@ == spec_payouts(
                        old(self).bets.entries@,
                        option,
                        old(self).total_amount as int / old(self).spec_option_amount(
                            option,
                        ) as int,
                    )
                },
                Err(BetError::NotOwner) => caller != old(self).owner && *final(self) == *old(self),
                Err(BetError::BettingOpen) => caller == old(self).owner && old(self).betting_open
                    && *final(self) == *old(self),
                Err(BetError::ArithmeticError) => {
                    &&& caller == old(self).owner && !old(self).betting_open
                    &&& (old(self).spec_option_amount(option) == 0 || !payouts_fit(
                        old(self).bets.entries@,
                        option,
                        old(self).total_amount as int / old(self).spec_option_amount(
                            option,
                        ) as int,
                    ))
                    &&& *final(self) == *old(self)
                },
                _ => false,
            },
    {
        if caller != self.owner {
            return Err(BetError::NotOwner);
        }
        if self.betting_open {
            return Err(BetError::BettingOpen);
        }
        let payouts = match self.distribute_rewards(option) {
            Ok(v) => v,
            Err(e) => {
                return Err(e);
            },
        };
        self.winner = Some(option);
        Ok(payouts)
    }

    /// Pays out the caller's own winning bet, if any: returns the amount the
    /// host must transfer and strikes the caller's bet from the book, so a
    /// second call pays nothing. A caller without a winning bet is paid zero
    /// and keeps their record. Fails when no winner is selected, the winning
    /// pool is empty, or the payout does not fit in `Balance`.
    pub fn withdraw(&mut self, caller: AccountId) -> (r: Result<Balance, BetError>)
        ensures
            match r {
                Ok(payout) => {
                    &&& old(self).winner is Some
                    &&& (match old(self).bets.spec_get(caller) {
                        Some(bet) => {
                            if bet.option == old(self).winner->Some_0 {
                                &&& payout == bet.amount * (old(self).total_amount as int / old(
                                    self,
                                ).spec_option_amount(bet.option) as int)
                                &&& final(self).bets.spec_get(caller) is None
                            } else {
                                payout == 0 && final(self).bets.spec_get(caller) == old(
                                    self,
                                ).bets.spec_get(caller)
                            }
                        },
                        None => payout == 0 && final(self).bets.spec_get(caller) == old(
                            self,
                        ).bets.spec_get(caller),
                    })
                    &&& forall|x: AccountId|
                        x != caller ==> final(self).bets.spec_get(x) == old(self).bets.spec_get(x)
                    &&& final(self).total_amount == old(self).total_amount
                    &&& final(self).option1_amount == old(self).option1_amount
                    &&& final(self).option2_amount == old(self).option2_amount
                    &&& final(self).owner == old(self).owner
                    &&& final(self).betting_open == old(self).betting_open
                    &&& final(self).winner == old(self).winner
                },
                Err(BetError::NoWinner) => (old(self).winner is None) && *final(self) == *old(self),
                Err(BetError::ArithmeticError) => {
                    &&& old(self).winner is Some
                    &&& (match old(self).bets.spec_get(caller) {
                        Some(bet) => bet.option == old(self).winner->Some_0 && (old(
                            self,
                        ).spec_option_amount(bet.option) == 0 || bet.amount * (old(
                            self,
                        ).total_amount as int / old(self).spec_option_amount(bet.option) as int)
                            > Balance::MAX),
                        None => false,
                    })
                    &&& *final(self) == *old(self)
                },
                _ => false,
            },
    {
        let winning_option = match self.winner {
            Some(w) => w,
            None => {
                return Err(BetError::NoWinner);
            },
        };
        let bet = match self.bets.get(caller) {
            Some(b) => b,
            None => {
                return Ok(0);
            },
        };
        let is_winner = matches!(bet.option, BetOption::Option1) == matches!(winning_option, BetOption::Option1);
        if !is_winner {
            return Ok(0);
        }
        let pool = match bet.option {
            BetOption::Option1 => self.option1_amount,
            BetOption::Option2 => self.option2_amount,
        };
        if pool == 0 {
            return Err(BetError::ArithmeticError);
        }
        let payout_ratio = self.total_amount / pool;
        let payout = match bet.amount.checked_mul(payout_ratio) {
            Some(p) => p,
            None => {
                return Err(BetError::ArithmeticError);
            },
        };
        self.bets.remove(caller);
        Ok(payout)
    }
}

} // verus!
