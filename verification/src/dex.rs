//! The two-asset constant-product pool: proportional-share deposits and
//! withdrawals, and constant-product swaps, as all-or-nothing state
//! transitions over the pool record and the provider ledger.

use vstd::prelude::*;

use crate::AccountId;
use crate::Balance;
use crate::liquidity::AccountLedger;
use crate::liquidity::lemma_first_deposit_round_trip;
use crate::liquidity::lemma_withdraw_le_reserve;
use crate::liquidity::lemma_withdraw_lt_reserve;
use crate::liquidity::spec_first_shares;
use crate::liquidity::spec_minted_shares;
use crate::liquidity::spec_withdraw_amount;
use crate::pool::AmmError;
use crate::pool::Pool;
use crate::swap::lemma_swap_preserves_product;
use vstd::arithmetic::mul::lemma_mul_is_commutative;
use crate::swap::spec_swap_out;
use crate::swap::spec_swap_step;
use crate::swap::swap;
use crate::swap::swap_fits;

verus! {

/// What kind of occurrence an event records.
#[derive(Clone, Copy, Debug, PartialEq, Eq, Structural)]
pub enum PoolEventKind {
    LiquidityAdded,
    LiquidityRemoved,
    Swapped,
}

/// One recorded occurrence, kept for observers; events never affect pool
/// state. For a swap, `amount_a` and `amount_b` are the amounts that entered
/// and left the pool, whatever the direction.
#[derive(Clone, Copy, Debug, PartialEq, Eq, Structural)]
pub struct PoolEvent {
    pub kind: PoolEventKind,
    pub participant: AccountId,
    pub amount_a: Balance,
    pub amount_b: Balance,
}

/// Shares minted by a deposit: the first deposit mints by the documented
/// minimum policy; later deposits mint in proportion to the grown reserve of
/// the first asset.
pub open spec fn spec_shares_minted(p: Pool, amount_a: int, amount_b: int) -> int {
    if p.total_shares == 0 {
        spec_first_shares(amount_a, amount_b)
    } else {
        spec_minted_shares(amount_a, p.total_shares as int, p.reserve_a as int)
    }
}

/// Every intermediate value of a deposit fits in `Balance`.
pub open spec fn add_fits(p: Pool, amount_a: int, amount_b: int) -> bool {
    &&& p.reserve_a + amount_a <= Balance::MAX
    &&& p.reserve_b + amount_b <= Balance::MAX
    &&& (p.total_shares > 0 ==> amount_a * p.total_shares <= Balance::MAX && p.total_shares
        + spec_minted_shares(amount_a, p.total_shares as int, p.reserve_a as int) <= Balance::MAX)
}

/// Every intermediate value of a withdrawal fits in `Balance`.
pub open spec fn remove_fits(p: Pool, shares: int) -> bool {
    &&& shares * p.reserve_a <= Balance::MAX
    &&& shares * p.reserve_b <= Balance::MAX
}

/// Law: a first deposit of `(amount_a, amount_b)` into an empty pool mints
/// `min(amount_a, amount_b)` shares, and — whenever the withdrawal products
/// fit in `Balance`, the one machine limit — withdrawing every minted share
/// is accepted, pays back exactly the deposited amounts with no rounding
/// loss, and leaves the pool empty again.
pub proof fn lemma_first_deposit_fully_undone(amount_a: Balance, amount_b: Balance)
    requires
        amount_a > 0,
        amount_b > 0,
        spec_first_shares(amount_a as int, amount_b as int) * amount_a <= Balance::MAX,
        spec_first_shares(amount_a as int, amount_b as int) * amount_b <= Balance::MAX,
    ensures
        ({
            let minted = spec_first_shares(amount_a as int, amount_b as int);
            let funded = (Pool {
                reserve_a: amount_a,
                reserve_b: amount_b,
                total_shares: minted as Balance,
            });
            &&& minted > 0
            &&& remove_fits(funded, minted)
            &&& spec_withdraw_amount(minted, amount_a as int, minted) == amount_a
            &&& spec_withdraw_amount(minted, amount_b as int, minted) == amount_b
        }),
{
    lemma_first_deposit_round_trip(amount_a as int, amount_b as int);
}

/// The pool contract: reserves and share supply, the provider ledger, and
/// the recorded events.
#[derive(Clone)]
pub struct SimpleDex {
    pub pool: Pool,
    pub providers: AccountLedger,
    pub events: Vec<PoolEvent>,
}

impl SimpleDex {
    /// The pool record is well formed and the share supply equals the sum of
    /// every provider's position.
    pub open spec fn wf(self) -> bool {
        &&& self.pool.wf()
        &&& self.providers.total() == self.pool.total_shares
    }

    /// An uninitialized pool with no reserves, no shares and no events; it
    /// becomes active on the first deposit.
    pub fn new() -> (r: SimpleDex)
        ensures
            r.wf(),
            r.pool.reserve_a == 0,
            r.pool.reserve_b == 0,
            r.pool.total_shares == 0,
            forall|x: AccountId| r.providers.balance_of(x) == 0,
            r.events@ == Seq::<PoolEvent>::empty(),
    {
        SimpleDex { pool: Pool::new(), providers: AccountLedger::new(), events: Vec::new() }
    }

    /// The first-deposit minting policy: the smaller of the two deposited
    /// amounts, and zero when either amount is zero.
    pub fn calculate_liquidity(amount_a: Balance, amount_b: Balance) -> (r: Balance)
        ensures
            r == if amount_a == 0 || amount_b == 0 {
                0
            } else {
                spec_first_shares(amount_a as int, amount_b as int)
            },
    {
        if amount_a == 0 || amount_b == 0 {
            0
        } else if amount_a <= amount_b {
            amount_a
        } else {
            amount_b
        }
    }

    /// Deposits `amount_a` and `amount_b` for `provider` and mints liquidity
    /// shares.
    ///
    /// Both amounts must be positive, otherwise nothing changes and the
    /// deposit is rejected as an invalid amount; an intermediate value that
    /// does not fit in `Balance` leaves the pool untouched and is reported as
    /// an arithmetic failure. On success the reserves grow by exactly the
    /// deposited amounts and both the share supply and the provider's
    /// position grow by the minted shares. A first deposit on an empty pool
    /// with positive amounts always succeeds, funds the pool with exactly the
    /// deposit, and mints a positive number of shares.
    pub fn add_liquidity(&mut self, provider: AccountId, amount_a: Balance, amount_b: Balance)
        -> (r: Result<Balance, AmmError>)
        requires
            old(self).wf(),
        ensures
            final(self).wf(),
            (old(self).pool == (Pool { reserve_a: 0, reserve_b: 0, total_shares: 0 }) && amount_a
                > 0 && amount_b > 0) ==> (r is Ok && final(self).pool.reserve_a == amount_a
                && final(self).pool.reserve_b == amount_b && final(self).pool.total_shares > 0),
            match r {
                Ok(minted) => {
                    &&& amount_a > 0 && amount_b > 0
                    &&& add_fits(old(self).pool, amount_a as int, amount_b as int)
                    &&& minted == spec_shares_minted(
                        old(self).pool,
                        amount_a as int,
                        amount_b as int,
                    )
                    &&& old(self).pool.total_shares == 0 ==> minted > 0
                    &&& final(self).pool.reserve_a == old(self).pool.reserve_a + amount_a
                    &&& final(self).pool.reserve_b == old(self).pool.reserve_b + amount_b
                    &&& final(self).pool.total_shares == old(self).pool.total_shares + minted
                    &&& final(self).providers.balance_of(provider) == old(
                        self,
                    ).providers.balance_of(provider) + minted
                    &&& forall|x: AccountId|
                        x != provider ==> final(self).providers.balance_of(x) == old(
                            self,
                        ).providers.balance_of(x)
                    &&& final(self).events@ == old(self).events@.push(
                        (PoolEvent {
                            kind: PoolEventKind::LiquidityAdded,
                            participant: provider,
                            amount_a,
                            amount_b,
                        }),
                    )
                },
                Err(AmmError::InvalidAmount) => (amount_a == 0 || amount_b == 0) && *final(self)
                    == *old(self),
                Err(AmmError::ArithmeticError) => amount_a > 0 && amount_b > 0 && !add_fits(
                    old(self).pool,
                    amount_a as int,
                    amount_b as int,
                ) && *final(self) == *old(self),
                _ => false,
            },
    {
        if amount_a == 0 || amount_b == 0 {
            return Err(AmmError::InvalidAmount);
        }
        let minted: Balance;
        if self.pool.total_shares == 0 {
            minted = if amount_a <= amount_b {
                amount_a
            } else {
                amount_b
            };
        } else {
            let numerator = match amount_a.checked_mul(self.pool.total_shares) {
                Some(n) => n,
                None => {
                    return Err(AmmError::ArithmeticError);
                },
            };
            minted = numerator / self.pool.reserve_a;
        }
        let new_reserve_a = match self.pool.reserve_a.checked_add(amount_a) {
            Some(v) => v,
            None => {
                return Err(AmmError::ArithmeticError);
            },
        };
        let new_reserve_b = match self.pool.reserve_b.checked_add(amount_b) {
            Some(v) => v,
            None => {
                return Err(AmmError::ArithmeticError);
            },
        };
        let new_total = match self.pool.total_shares.checked_add(minted) {
            Some(v) => v,
            None => {
                return Err(AmmError::ArithmeticError);
            },
        };
        let held = self.providers.get(provider);
        proof {
            self.providers.lemma_position_le_total(provider);
        }
        self.pool.reserve_a = new_reserve_a;
        self.pool.reserve_b = new_reserve_b;
        self.pool.total_shares = new_total;
        self.providers.set(provider, held + minted);
        self.events.push(
            PoolEvent {
                kind: PoolEventKind::LiquidityAdded,
                participant: provider,
                amount_a,
                amount_b,
            },
        );
        Ok(minted)
    }

    /// Burns `shares` of `provider`'s position and pays out both assets in
    /// proportion, rounding down so the remainder stays in the pool.
    ///
    /// A withdrawal of more shares than the provider holds, or from a pool
    /// with no outstanding shares, is rejected as insufficient shares; an
    /// intermediate product that does not fit in `Balance` is an arithmetic
    /// failure. Either way the state is left exactly as it was.
    pub fn remove_liquidity(&mut self, provider: AccountId, shares: Balance) -> (r: Result<
        (Balance, Balance),
        AmmError,
    >)
        requires
            old(self).wf(),
        ensures
            final(self).wf(),
            match r {
                Ok(amounts) => {
                    &&& old(self).pool.total_shares > 0
                    &&& shares <= old(self).providers.balance_of(provider)
                    &&& remove_fits(old(self).pool, shares as int)
                    &&& amounts.0 == spec_withdraw_amount(
                        shares as int,
                        old(self).pool.reserve_a as int,
                        old(self).pool.total_shares as int,
                    )
                    &&& amounts.1 == spec_withdraw_amount(
                        shares as int,
                        old(self).pool.reserve_b as int,
                        old(self).pool.total_shares as int,
                    )
                    &&& final(self).pool.reserve_a == old(self).pool.reserve_a - amounts.0
                    &&& final(self).pool.reserve_b == old(self).pool.reserve_b - amounts.1
                    &&& final(self).pool.total_shares == old(self).pool.total_shares - shares
                    &&& final(self).providers.balance_of(provider) == old(
                        self,
                    ).providers.balance_of(provider) - shares
                    &&& forall|x: AccountId|
                        x != provider ==> final(self).providers.balance_of(x) == old(
                            self,
                        ).providers.balance_of(x)
                    &&& final(self).events@ == old(self).events@.push(
                        (PoolEvent {
                            kind: PoolEventKind::LiquidityRemoved,
                            participant: provider,
                            amount_a: amounts.0,
                            amount_b: amounts.1,
                        }),
                    )
                },
                Err(AmmError::InsufficientShares) => (old(self).pool.total_shares == 0 || shares
                    > old(self).providers.balance_of(provider)) && *final(self) == *old(self),
                Err(AmmError::ArithmeticError) => {
                    &&& old(self).pool.total_shares > 0
                    &&& shares <= old(self).providers.balance_of(provider)
                    &&& !remove_fits(old(self).pool, shares as int)
                    &&& *final(self) == *old(self)
                },
                _ => false,
            },
    {
        let held = self.providers.get(provider);
        if self.pool.total_shares == 0 || shares > held {
            return Err(AmmError::InsufficientShares);
        }
        let numerator_a = match shares.checked_mul(self.pool.reserve_a) {
            Some(n) => n,
            None => {
                return Err(AmmError::ArithmeticError);
            },
        };
        let numerator_b = match shares.checked_mul(self.pool.reserve_b) {
            Some(n) => n,
            None => {
                return Err(AmmError::ArithmeticError);
            },
        };
        let amount_a = numerator_a / self.pool.total_shares;
        let amount_b = numerator_b / self.pool.total_shares;
        proof {
            self.providers.lemma_position_le_total(provider);
            lemma_withdraw_le_reserve(
                shares as int,
                self.pool.reserve_a as int,
                self.pool.total_shares as int,
            );
            lemma_withdraw_le_reserve(
                shares as int,
                self.pool.reserve_b as int,
                self.pool.total_shares as int,
            );
            if shares < self.pool.total_shares {
                lemma_withdraw_lt_reserve(
                    shares as int,
                    self.pool.reserve_a as int,
                    self.pool.total_shares as int,
                );
                lemma_withdraw_lt_reserve(
                    shares as int,
                    self.pool.reserve_b as int,
                    self.pool.total_shares as int,
                );
            }
        }
        self.pool.reserve_a = self.pool.reserve_a - amount_a;
        self.pool.reserve_b = self.pool.reserve_b - amount_b;
        self.pool.total_shares = self.pool.total_shares - shares;
        self.providers.set(provider, held - shares);
        self.events.push(
            PoolEvent {
                kind: PoolEventKind::LiquidityRemoved,
                participant: provider,
                amount_a,
                amount_b,
            },
        );
        Ok((amount_a, amount_b))
    }

    /// Trades `amount_a` of the first asset for the second at the
    /// constant-product price.
    ///
    /// Whatever happens, the product of the reserves never shrinks: rounding
    /// always favors the pool. On success the output is strictly smaller than
    /// the second reserve, so one trade can never drain it.
    pub fn swap_a_for_b(&mut self, caller: AccountId, amount_a: Balance) -> (r: Result<
        Balance,
        AmmError,
    >)
        requires
            old(self).wf(),
        ensures
            final(self).wf(),
            final(self).pool == spec_swap_step(old(self).pool, true, amount_a as int),
            final(self).pool.reserve_a * final(self).pool.reserve_b >= old(self).pool.reserve_a
                * old(self).pool.reserve_b,
            final(self).pool.total_shares == old(self).pool.total_shares,
            final(self).providers == old(self).providers,
            match r {
                Ok(amount_b_out) => {
                    &&& amount_a > 0 && old(self).pool.reserve_a > 0 && old(self).pool.reserve_b
                        > 0
                    &&& swap_fits(
                        amount_a as int,
                        old(self).pool.reserve_a as int,
                        old(self).pool.reserve_b as int,
                    )
                    &&& amount_b_out == spec_swap_out(
                        amount_a as int,
                        old(self).pool.reserve_a as int,
                        old(self).pool.reserve_b as int,
                    )
                    &&& amount_b_out < old(self).pool.reserve_b
                    &&& final(self).pool.reserve_a == old(self).pool.reserve_a + amount_a
                    &&& final(self).pool.reserve_b == old(self).pool.reserve_b - amount_b_out
                    &&& final(self).events@ == old(self).events@.push(
                        (PoolEvent {
                            kind: PoolEventKind::Swapped,
                            participant: caller,
                            amount_a,
                            amount_b: amount_b_out,
                        }),
                    )
                },
                Err(AmmError::InvalidAmount) => amount_a == 0 && *final(self) == *old(self),
                Err(AmmError::ArithmeticError) => {
                    &&& amount_a > 0
                    &&& (old(self).pool.reserve_a == 0 || old(self).pool.reserve_b == 0
                        || !swap_fits(
                        amount_a as int,
                        old(self).pool.reserve_a as int,
                        old(self).pool.reserve_b as int,
                    ))
                    &&& *final(self) == *old(self)
                },
                _ => false,
            },
    {
        let amount_b_out = match swap(amount_a, self.pool.reserve_a, self.pool.reserve_b) {
            Ok(out) => out,
            Err(e) => {
                return Err(e);
            },
        };
        proof {
            lemma_swap_preserves_product(
                amount_a as int,
                self.pool.reserve_a as int,
                self.pool.reserve_b as int,
            );
        }
        self.pool.reserve_a = self.pool.reserve_a + amount_a;
        self.pool.reserve_b = self.pool.reserve_b - amount_b_out;
        self.events.push(
            PoolEvent {
                kind: PoolEventKind::Swapped,
                participant: caller,
                amount_a,
                amount_b: amount_b_out,
            },
        );
        Ok(amount_b_out)
    }

    /// Trades `amount_b` of the second asset for the first at the
    /// constant-product price; the mirror image of `swap_a_for_b`.
    pub fn swap_b_for_a(&mut self, caller: AccountId, amount_b: Balance) -> (r: Result<
        Balance,
        AmmError,
    >)
        requires
            old(self).wf(),
        ensures
            final(self).wf(),
            final(self).pool == spec_swap_step(old(self).pool, false, amount_b as int),
            final(self).pool.reserve_a * final(self).pool.reserve_b >= old(self).pool.reserve_a
                * old(self).pool.reserve_b,
            final(self).pool.total_shares == old(self).pool.total_shares,
            final(self).providers == old(self).providers,
            match r {
                Ok(amount_a_out) => {
                    &&& amount_b > 0 && old(self).pool.reserve_a > 0 && old(self).pool.reserve_b
                        > 0
                    &&& swap_fits(
                        amount_b as int,
                        old(self).pool.reserve_b as int,
                        old(self).pool.reserve_a as int,
                    )
                    &&& amount_a_out == spec_swap_out(
                        amount_b as int,
                        old(self).pool.reserve_b as int,
                        old(self).pool.reserve_a as int,
                    )
                    &&& amount_a_out < old(self).pool.reserve_a
                    &&& final(self).pool.reserve_a == old(self).pool.reserve_a - amount_a_out
                    &&& final(self).pool.reserve_b == old(self).pool.reserve_b + amount_b
                    &&& final(self).events@ == old(self).events@.push(
                        (PoolEvent {
                            kind: PoolEventKind::Swapped,
                            participant: caller,
                            amount_a: amount_a_out,
                            amount_b,
                        }),
                    )
                },
                Err(AmmError::InvalidAmount) => amount_b == 0 && *final(self) == *old(self),
                Err(AmmError::ArithmeticError) => {
                    &&& amount_b > 0
                    &&& (old(self).pool.reserve_a == 0 || old(self).pool.reserve_b == 0
                        || !swap_fits(
                        amount_b as int,
                        old(self).pool.reserve_b as int,
                        old(self).pool.reserve_a as int,
                    ))
                    &&& *final(self) == *old(self)
                },
                _ => false,
            },
    {
        let amount_a_out = match swap(amount_b, self.pool.reserve_b, self.pool.reserve_a) {
            Ok(out) => out,
            Err(e) => {
                return Err(e);
            },
        };
        proof {
            lemma_swap_preserves_product(
                amount_b as int,
                self.pool.reserve_b as int,
                self.pool.reserve_a as int,
            );
            let out = spec_swap_out(
                amount_b as int,
                self.pool.reserve_b as int,
                self.pool.reserve_a as int,
            );
            lemma_mul_is_commutative(
                self.pool.reserve_b + amount_b,
                self.pool.reserve_a - out,
            );
            lemma_mul_is_commutative(self.pool.reserve_b as int, self.pool.reserve_a as int);
        }
        self.pool.reserve_b = self.pool.reserve_b + amount_b;
        self.pool.reserve_a = self.pool.reserve_a - amount_a_out;
        self.events.push(
            PoolEvent {
                kind: PoolEventKind::Swapped,
                participant: caller,
                amount_a: amount_a_out,
                amount_b,
            },
        );
        Ok(amount_a_out)
    }

    /// Both reserves, in order.
    pub fn get_reserves(&self) -> (r: (Balance, Balance))
        ensures
            r.0 == self.pool.reserve_a,
            r.1 == self.pool.reserve_b,
    {
        (self.pool.reserve_a, self.pool.reserve_b)
    }

    /// The outstanding liquidity-share supply.
    pub fn get_total_liquidity(&self) -> (r: Balance)
        ensures
            r == self.pool.total_shares,
    {
        self.pool.total_shares
    }

    /// The shares held by one provider.
    pub fn get_user_liquidity(&self, user: AccountId) -> (r: Balance)
        ensures
            r == self.providers.balance_of(user),
    {
        self.providers.get(user)
    }

    /// Every event recorded so far, oldest first.
    pub fn get_events(&self) -> (r: &Vec<PoolEvent>)
        ensures
            r@ == self.events@,
    {
        &self.events
    }
}

} // verus!
