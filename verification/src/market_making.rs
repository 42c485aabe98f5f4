//! A market maker holding a native-currency reserve and a token reserve.
//! Trades are priced with the same zero-fee constant-product formula as the
//! pool's swap engine, so the reserve product never shrinks; deposits grow
//! the depositor's recorded claims, and withdrawals are bounded by them.
//! The host performs the paired transfers around each staged transition.

use vstd::prelude::*;

use crate::AccountId;
use crate::Balance;
use crate::liquidity::AccountLedger;
use crate::pool::AmmError;
use crate::swap::lemma_swap_preserves_product;
use crate::swap::spec_swap_out;
use crate::swap::swap;
use crate::swap::swap_fits;
use vstd::arithmetic::mul::lemma_mul_is_commutative;

verus! {

/// Why a market-maker operation was rejected; the state is left unchanged.
#[derive(Clone, Copy, Debug, PartialEq, Eq, Structural)]
pub enum MarketError {
    /// A zero input amount.
    InvalidAmount,
    /// The requested withdrawal exceeds what a reserve holds.
    InsufficientLiquidity,
    /// The caller's recorded claim is too small.
    InsufficientBalance,
    /// A division by an empty reserve, or a value that does not fit in
    /// `Balance`.
    ArithmeticError,
}

/// Liquidity entered the reserves.
#[derive(Clone, Copy, Debug, PartialEq, Eq, Structural)]
pub struct LiquidityAdded {
    pub provider: AccountId,
    pub eth_amount: Balance,
    pub token_amount: Balance,
}

/// Liquidity left the reserves.
#[derive(Clone, Copy, Debug, PartialEq, Eq, Structural)]
pub struct LiquidityRemoved {
    pub provider: AccountId,
    pub eth_amount: Balance,
    pub token_amount: Balance,
}

/// Native currency came in and tokens went out.
#[derive(Clone, Copy, Debug, PartialEq, Eq, Structural)]
pub struct TokensSwapped {
    pub swapper: AccountId,
    pub eth_in: Balance,
    pub token_out: Balance,
}

/// Tokens came in and native currency went out.
#[derive(Clone, Copy, Debug, PartialEq, Eq, Structural)]
pub struct ETHSwapped {
    pub swapper: AccountId,
    pub token_in: Balance,
    pub eth_out: Balance,
}

/// One recorded market-maker occurrence.
#[derive(Clone, Copy, Debug, PartialEq, Eq, Structural)]
pub enum MarketEvent {
    LiquidityAdded(LiquidityAdded),
    LiquidityRemoved(LiquidityRemoved),
    TokensSwapped(TokensSwapped),
    ETHSwapped(ETHSwapped),
}

/// The market-maker state: the owner, the two reserves, each account's
/// recorded claims on what it deposited, and the recorded events.
#[derive(Clone)]
pub struct MarketMaker {
    pub owner: AccountId,
    pub eth_reserve: Balance,
    pub token_reserve: Balance,
    pub eth_balances: AccountLedger,
    pub token_balances: AccountLedger,
    pub events: Vec<MarketEvent>,
}

impl MarketMaker {
    /// A fresh market maker with empty reserves, owned by its deployer.
    pub fn new(caller: AccountId) -> (r: MarketMaker)
        ensures
            r.owner == caller,
            r.eth_reserve == 0,
            r.token_reserve == 0,
            forall|x: AccountId| r.eth_balances.balance_of(x) == 0,
            forall|x: AccountId| r.token_balances.balance_of(x) == 0,
            r.events@ == Seq::<MarketEvent>::empty(),
    {
        MarketMaker {
            owner: caller,
            eth_reserve: 0,
            token_reserve: 0,
            eth_balances: AccountLedger::new(),
            token_balances: AccountLedger::new(),
            events: Vec::new(),
        }
    }

    /// Books a deposit of `eth_amount` native currency (already transferred
    /// in by the host) and `token_amount` tokens, growing both reserves and
    /// both of the caller's recorded claims by exactly the deposit.
    pub fn add_liquidity(&mut self, caller: AccountId, eth_amount: Balance, token_amount: Balance)
        -> (r: Result<(), MarketError>)
        ensures
            match r {
                Ok(()) => {
                    &&& token_amount > 0 && eth_amount > 0
                    &&& old(self).eth_reserve + eth_amount <= Balance::MAX
                    &&& old(self).token_reserve + token_amount <= Balance::MAX
                    &&& old(self).eth_balances.balance_of(caller) + eth_amount <= Balance::MAX
                    &&& old(self).token_balances.balance_of(caller) + token_amount <= Balance::MAX
                    &&& final(self).eth_reserve == old(self).eth_reserve + eth_amount
                    &&& final(self).token_reserve == old(self).token_reserve + token_amount
                    &&& final(self).eth_balances.balance_of(caller) == old(
                        self,
                    ).eth_balances.balance_of(caller) + eth_amount
                    &&& final(self).token_balances.balance_of(caller) == old(
                        self,
                    ).token_balances.balance_of(caller) + token_amount
                    &&& forall|x: AccountId|
                        x != caller ==> final(self).eth_balances.balance_of(x) == old(
                            self,
                        ).eth_balances.balance_of(x)
                    &&& forall|x: AccountId|
                        x != caller ==> final(self).token_balances.balance_of(x) == old(
                            self,
                        ).token_balances.balance_of(x)
                    &&& final(self).events@ == old(self).events@.push(
                        MarketEvent::LiquidityAdded(
                            (LiquidityAdded { provider: caller, eth_amount, token_amount }),
                        ),
                    )
                    &&& final(self).owner == old(self).owner
                },
                Err(MarketError::InvalidAmount) => (token_amount == 0 || eth_amount == 0)
                    && *final(self) == *old(self),
                Err(MarketError::ArithmeticError) => {
                    &&& token_amount > 0 && eth_amount > 0
                    &&& (old(self).eth_reserve + eth_amount > Balance::MAX || old(
                        self,
                    ).token_reserve + token_amount > Balance::MAX || old(
                        self,
                    ).eth_balances.balance_of(caller) + eth_amount > Balance::MAX || old(
                        self,
                    ).token_balances.balance_of(caller) + token_amount > Balance::MAX)
                    &&& *final(self) == *old(self)
                },
                _ => false,
            },
    {
        if token_amount == 0 || eth_amount == 0 {
            return Err(MarketError::InvalidAmount);
        }
        let new_eth = match self.eth_reserve.checked_add(eth_amount) {
            Some(v) => v,
            None => {
                return Err(MarketError::ArithmeticError);
            },
        };
        let new_token = match self.token_reserve.checked_add(token_amount) {
            Some(v) => v,
            None => {
                return Err(MarketError::ArithmeticError);
            },
        };
        let eth_claim = self.eth_balances.get(caller);
        let new_eth_claim = match eth_claim.checked_add(eth_amount) {
            Some(v) => v,
            None => {
                return Err(MarketError::ArithmeticError);
            },
        };
        let token_claim = self.token_balances.get(caller);
        let new_token_claim = match token_claim.checked_add(token_amount) {
            Some(v) => v,
            None => {
                return Err(MarketError::ArithmeticError);
            },
        };
        self.eth_reserve = new_eth;
        self.token_reserve = new_token;
        self.eth_balances.set(caller, new_eth_claim);
        self.token_balances.set(caller, new_token_claim);
        self.events.push(
            MarketEvent::LiquidityAdded(LiquidityAdded { provider: caller, eth_amount, token_amount }),
        );
        Ok(())
    }

    /// The native currency a trade of `token_amount` tokens is worth at the
    /// current reserves, by the constant-product formula.
    pub fn get_eth_price(&self, token_amount: Balance) -> (r: Balance)
        requires
            self.token_reserve > 0,
            swap_fits(token_amount as int, self.token_reserve as int, self.eth_reserve as int),
        ensures
            r == spec_swap_out(
                token_amount as int,
                self.token_reserve as int,
                self.eth_reserve as int,
            ),
    {
        (token_amount * self.eth_reserve) / (self.token_reserve + token_amount)
    }

    /// The tokens a trade of `eth_amount` native currency is worth at the
    /// current reserves, by the constant-product formula.
    pub fn get_token_price(&self, eth_amount: Balance) -> (r: Balance)
        requires
            self.eth_reserve > 0,
            swap_fits(eth_amount as int, self.eth_reserve as int, self.token_reserve as int),
        ensures
            r == spec_swap_out(
                eth_amount as int,
                self.eth_reserve as int,
                self.token_reserve as int,
            ),
    {
        (eth_amount * self.token_reserve) / (self.eth_reserve + eth_amount)
    }

    /// Books a trade of `eth_in` native currency (already transferred in by
    /// the host) for tokens at the constant-product price, crediting the
    /// caller's recorded token claim with the output. The reserve product
    /// never shrinks, and the output is strictly below the token reserve.
    pub fn swap_eth_for_tokens(&mut self, caller: AccountId, eth_in: Balance) -> (r: Result<
        Balance,
        MarketError,
    >)
        ensures
            final(self).eth_reserve * final(self).token_reserve >= old(self).eth_reserve * old(
                self,
            ).token_reserve,
            match r {
                Ok(token_out) => {
                    &&& eth_in > 0 && old(self).eth_reserve > 0 && old(self).token_reserve > 0
                    &&& swap_fits(
                        eth_in as int,
                        old(self).eth_reserve as int,
                        old(self).token_reserve as int,
                    )
                    &&& token_out == spec_swap_out(
                        eth_in as int,
                        old(self).eth_reserve as int,
                        old(self).token_reserve as int,
                    )
                    &&& token_out < old(self).token_reserve
                    &&& old(self).token_balances.balance_of(caller) + token_out <= Balance::MAX
                    &&& final(self).eth_reserve == old(self).eth_reserve + eth_in
                    &&& final(self).token_reserve == old(self).token_reserve - token_out
                    &&& final(self).token_balances.balance_of(caller) == old(
                        self,
                    ).token_balances.balance_of(caller) + token_out
                    &&& forall|x: AccountId|
                        x != caller ==> final(self).token_balances.balance_of(x) == old(
                            self,
                        ).token_balances.balance_of(x)
                    &&& final(self).eth_balances == old(self).eth_balances
                    &&& final(self).events@ == old(self).events@.push(
                        MarketEvent::TokensSwapped(
                            (TokensSwapped { swapper: caller, eth_in, token_out }),
                        ),
                    )
                    &&& final(self).owner == old(self).owner
                },
                Err(MarketError::InvalidAmount) => eth_in == 0 && *final(self) == *old(self),
                Err(MarketError::ArithmeticError) => {
                    &&& eth_in > 0
                    &&& (old(self).eth_reserve == 0 || old(self).token_reserve == 0 || !swap_fits(
                        eth_in as int,
                        old(self).eth_reserve as int,
                        old(self).token_reserve as int,
                    ) || old(self).token_balances.balance_of(caller) + spec_swap_out(
                        eth_in as int,
                        old(self).eth_reserve as int,
                        old(self).token_reserve as int,
                    ) > Balance::MAX)
                    &&& *final(self) == *old(self)
                },
                _ => false,
            },
    {
        let token_out = match swap(eth_in, self.eth_reserve, self.token_reserve) {
            Ok(out) => out,
            Err(AmmError::InvalidAmount) => {
                return Err(MarketError::InvalidAmount);
            },
            Err(_) => {
                return Err(MarketError::ArithmeticError);
            },
        };
        let claim = self.token_balances.get(caller);
        let new_claim = match claim.checked_add(token_out) {
            Some(v) => v,
            None => {
                return Err(MarketError::ArithmeticError);
            },
        };
        proof {
            lemma_swap_preserves_product(
                eth_in as int,
                self.eth_reserve as int,
                self.token_reserve as int,
            );
        }
        self.eth_reserve = self.eth_reserve + eth_in;
        self.token_reserve = self.token_reserve - token_out;
        self.token_balances.set(caller, new_claim);
        self.events.push(
            MarketEvent::TokensSwapped(TokensSwapped { swapper: caller, eth_in, token_out }),
        );
        Ok(token_out)
    }

    /// Books a trade of `token_in` of the caller's recorded tokens for
    /// native currency at the constant-product price; the host then pays
    /// `eth_out` to the caller. The reserve product never shrinks, and the
    /// output is strictly below the native reserve.
    pub fn swap_tokens_for_eth(&mut self, caller: AccountId, token_in: Balance) -> (r: Result<
        Balance,
        MarketError,
    >)
        ensures
            final(self).eth_reserve * final(self).token_reserve >= old(self).eth_reserve * old(
                self,
            ).token_reserve,
            match r {
                Ok(eth_out) => {
                    &&& token_in > 0 && old(self).eth_reserve > 0 && old(self).token_reserve > 0
                    &&& swap_fits(
                        token_in as int,
                        old(self).token_reserve as int,
                        old(self).eth_reserve as int,
                    )
                    &&& eth_out == spec_swap_out(
                        token_in as int,
                        old(self).token_reserve as int,
                        old(self).eth_reserve as int,
                    )
                    &&& eth_out < old(self).eth_reserve
                    &&& old(self).token_balances.balance_of(caller) >= token_in
                    &&& final(self).eth_reserve == old(self).eth_reserve - eth_out
                    &&& final(self).token_reserve == old(self).token_reserve + token_in
                    &&& final(self).token_balances.balance_of(caller) == old(
                        self,
                    ).token_balances.balance_of(caller) - token_in
                    &&& forall|x: AccountId|
                        x != caller ==> final(self).token_balances.balance_of(x) == old(
                            self,
                        ).token_balances.balance_of(x)
                    &&& final(self).eth_balances == old(self).eth_balances
                    &&& final(self).events@ == old(self).events@.push(
                        MarketEvent::ETHSwapped(
                            (ETHSwapped { swapper: caller, token_in, eth_out }),
                        ),
                    )
                    &&& final(self).owner == old(self).owner
                },
                Err(MarketError::InvalidAmount) => token_in == 0 && *final(self) == *old(self),
                Err(MarketError::ArithmeticError) => {
                    &&& token_in > 0
                    &&& (old(self).eth_reserve == 0 || old(self).token_reserve == 0 || !swap_fits(
                        token_in as int,
                        old(self).token_reserve as int,
                        old(self).eth_reserve as int,
                    ))
                    &&& *final(self) == *old(self)
                },
                Err(MarketError::InsufficientBalance) => {
                    &&& token_in > 0 && old(self).eth_reserve > 0 && old(self).token_reserve > 0
                    &&& swap_fits(
                        token_in as int,
                        old(self).token_reserve as int,
                        old(self).eth_reserve as int,
                    )
                    &&& old(self).token_balances.balance_of(caller) < token_in
                    &&& *final(self) == *old(self)
                },
                _ => false,
            },
    {
        let eth_out = match swap(token_in, self.token_reserve, self.eth_reserve) {
            Ok(out) => out,
            Err(AmmError::InvalidAmount) => {
                return Err(MarketError::InvalidAmount);
            },
            Err(_) => {
                return Err(MarketError::ArithmeticError);
            },
        };
        let claim = self.token_balances.get(caller);
        if claim < token_in {
            return Err(MarketError::InsufficientBalance);
        }
        proof {
            lemma_swap_preserves_product(
                token_in as int,
                self.token_reserve as int,
                self.eth_reserve as int,
            );
            let out = spec_swap_out(
                token_in as int,
                self.token_reserve as int,
                self.eth_reserve as int,
            );
            lemma_mul_is_commutative(self.token_reserve + token_in, self.eth_reserve - out);
            lemma_mul_is_commutative(self.eth_reserve as int, self.token_reserve as int);
        }
        self.eth_reserve = self.eth_reserve - eth_out;
        self.token_reserve = self.token_reserve + token_in;
        self.token_balances.set(caller, claim - token_in);
        self.events.push(
            MarketEvent::ETHSwapped(ETHSwapped { swapper: caller, token_in, eth_out }),
        );
        Ok(eth_out)
    }

    /// Books a withdrawal of `eth_amount` native currency and `token_amount`
    /// tokens; the host then pays the native amount to the caller. Both
    /// amounts must be covered by the reserves and by the caller's own
    /// recorded claims, which are debited by exactly the withdrawal.
    pub fn withdraw_liquidity(&mut self, caller: AccountId, eth_amount: Balance, token_amount: Balance)
        -> (r: Result<(), MarketError>)
        ensures
            match r {
                Ok(()) => {
                    &&& eth_amount <= old(self).eth_reserve
                    &&& token_amount <= old(self).token_reserve
                    &&& eth_amount <= old(self).eth_balances.balance_of(caller)
                    &&& token_amount <= old(self).token_balances.balance_of(caller)
                    &&& final(self).eth_reserve == old(self).eth_reserve - eth_amount
                    &&& final(self).token_reserve == old(self).token_reserve - token_amount
                    &&& final(self).eth_balances.balance_of(caller) == old(
                        self,
                    ).eth_balances.balance_of(caller) - eth_amount
                    &&& final(self).token_balances.balance_of(caller) == old(
                        self,
                    ).token_balances.balance_of(caller) - token_amount
                    &&& forall|x: AccountId|
                        x != caller ==> final(self).eth_balances.balance_of(x) == old(
                            self,
                        ).eth_balances.balance_of(x)
                    &&& forall|x: AccountId|
                        x != caller ==> final(self).token_balances.balance_of(x) == old(
                            self,
                        ).token_balances.balance_of(x)
                    &&& final(self).events@ == old(self).events@.push(
                        MarketEvent::LiquidityRemoved(
                            (LiquidityRemoved { provider: caller, eth_amount, token_amount }),
                        ),
                    )
                    &&& final(self).owner == old(self).owner
                },
                Err(MarketError::InsufficientLiquidity) => (eth_amount > old(self).eth_reserve
                    || token_amount > old(self).token_reserve) && *final(self) == *old(self),
                Err(MarketError::InsufficientBalance) => {
                    &&& eth_amount <= old(self).eth_reserve
                    &&& token_amount <= old(self).token_reserve
                    &&& (eth_amount > old(self).eth_balances.balance_of(caller) || token_amount
                        > old(self).token_balances.balance_of(caller))
                    &&& *final(self) == *old(self)
                },
                _ => false,
            },
    {
        if eth_amount > self.eth_reserve || token_amount > self.token_reserve {
            return Err(MarketError::InsufficientLiquidity);
        }
        let eth_claim = self.eth_balances.get(caller);
        let token_claim = self.token_balances.get(caller);
        if eth_amount > eth_claim || token_amount > token_claim {
            return Err(MarketError::InsufficientBalance);
        }
        self.eth_reserve = self.eth_reserve - eth_amount;
        self.token_reserve = self.token_reserve - token_amount;
        self.eth_balances.set(caller, eth_claim - eth_amount);
        self.token_balances.set(caller, token_claim - token_amount);
        self.events.push(
            MarketEvent::LiquidityRemoved(
                LiquidityRemoved { provider: caller, eth_amount, token_amount },
            ),
        );
        Ok(())
    }

    /// Every event recorded so far, oldest first.
    pub fn get_events(&self) -> (r: &Vec<MarketEvent>)
        ensures
            r@ == self.events@,
    {
        &self.events
    }
}

} // verus!
