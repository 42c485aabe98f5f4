use amm_pool::bet::{Bet, BetError, BetOption, Betting};
use amm_pool::bridge::{Bridge, BridgeError};
use amm_pool::escrow::{Escrow, EscrowError, EscrowEvent};
use amm_pool::farming::{FarmError, Farming};
use amm_pool::market_making::{MarketError, MarketEvent, MarketMaker};
use amm_pool::voting::{VoteError, Voting};

#[test]
fn escrow_release_flow() {
    let mut escrow = Escrow::new(2, 3);
    assert_eq!(escrow.get_status(), (0, 2, 3, 0, false, false));
    escrow.fund(1, 500).unwrap();
    assert_eq!(escrow.fund(4, 9), Err(EscrowError::AlreadyFunded));
    assert_eq!(escrow.release(1), Err(EscrowError::NotArbiter));
    escrow.release(3).unwrap();
    assert_eq!(escrow.release(3), Err(EscrowError::AlreadyReleased));
    assert_eq!(escrow.refund(3), Err(EscrowError::AlreadyReleased));
    assert_eq!(escrow.get_status(), (1, 2, 3, 500, true, true));
    assert_eq!(escrow.events.len(), 2);
    assert!(matches!(escrow.events[0], EscrowEvent::Funded(f) if f.buyer == 1 && f.amount == 500));
    assert!(matches!(escrow.events[1], EscrowEvent::Released(r) if r.to == 2 && r.amount == 500));
}

#[test]
fn escrow_refund_flow() {
    let mut escrow = Escrow::new(2, 3);
    assert_eq!(escrow.release(3), Err(EscrowError::NotFunded));
    assert_eq!(escrow.refund(3), Err(EscrowError::NotFunded));
    escrow.fund(1, 42).unwrap();
    escrow.refund(3).unwrap();
    assert_eq!(escrow.get_status(), (1, 2, 3, 42, false, false));
    assert!(matches!(escrow.events[1], EscrowEvent::Refunded(r) if r.to == 1 && r.amount == 42));
}

#[test]
fn bridge_lock_accumulates() {
    let mut bridge = Bridge::new(1);
    bridge.lock(2, 5, [0u8; 32], 100).unwrap();
    bridge.lock(2, 5, [0u8; 32], 50).unwrap();
    assert_eq!(bridge.get_locked(2), 150);
    assert_eq!(bridge.get_locked(3), 0);
    assert_eq!(bridge.get_events().len(), 2);
}

#[test]
fn bridge_admin_rights() {
    let mut bridge = Bridge::new(1);
    assert_eq!(bridge.unlock(2, 9, 10), Err(BridgeError::NotAdmin));
    bridge.unlock(1, 9, 10).unwrap();
    assert_eq!(bridge.add_admin(2, 2), Err(BridgeError::NotAdmin));
    bridge.add_admin(1, 2).unwrap();
    bridge.unlock(2, 9, 10).unwrap();
    bridge.remove_admin(1, 2).unwrap();
    assert_eq!(bridge.unlock(2, 9, 10), Err(BridgeError::NotAdmin));
    assert_eq!(bridge.remove_admin(2, 1), Err(BridgeError::NotAdmin));
}

#[test]
fn farming_accrues_rewards() {
    let mut farm = Farming::new(2);
    farm.stake(1, 10, 100);
    assert_eq!(farm.get_staked_amount(1), 100);
    assert_eq!(farm.get_total_staked(), 100);
    // 100 staked * rate 2 * 5 blocks = 1000 pending.
    assert_eq!(farm.pending_reward(1, 15), 1000);
    let paid = farm.claim(1, 15).unwrap();
    assert_eq!(paid, 1000);
    // Withdrawal folds the pending reward into the debt and refreshes the block.
    farm.withdraw(1, 20, 40).unwrap();
    assert_eq!(farm.get_staked_amount(1), 60);
    assert_eq!(farm.get_total_staked(), 60);
}

#[test]
fn farming_rejections() {
    let mut farm = Farming::new(1);
    assert_eq!(farm.claim(1, 5), Err(FarmError::NoStake));
    assert_eq!(farm.withdraw(1, 5, 1), Err(FarmError::NoStake));
    farm.stake(1, 5, 10);
    assert_eq!(farm.withdraw(1, 5, 11), Err(FarmError::InsufficientStake));
    assert_eq!(farm.get_staked_amount(1), 10);
    assert_eq!(farm.pending_reward(2, 9), 0);
}

#[test]
fn betting_payout_at_pool_ratio() {
    let mut book = Betting::new(1);
    book.place_bet(2, 100, BetOption::Option1).unwrap();
    book.place_bet(3, 300, BetOption::Option2).unwrap();
    assert_eq!(book.place_bet(4, 0, BetOption::Option1), Err(BetError::InvalidAmount));
    assert_eq!(book.select_winner(1, BetOption::Option1), Err(BetError::BettingOpen));
    assert_eq!(book.close_betting(2), Err(BetError::NotOwner));
    book.close_betting(1).unwrap();
    assert_eq!(book.place_bet(5, 10, BetOption::Option1), Err(BetError::BettingClosed));
    assert_eq!(book.select_winner(2, BetOption::Option1), Err(BetError::NotOwner));
    // Ratio: 400 total / 100 on the winning side = 4.
    let payouts = book.select_winner(1, BetOption::Option1).unwrap();
    assert_eq!(payouts, vec![(2, 400)]);
    assert_eq!(book.winner, Some(BetOption::Option1));
}

#[test]
fn betting_withdraw_pays_once() {
    let mut book = Betting::new(1);
    book.place_bet(2, 100, BetOption::Option1).unwrap();
    book.place_bet(3, 300, BetOption::Option2).unwrap();
    assert_eq!(book.withdraw(2), Err(BetError::NoWinner));
    book.close_betting(1).unwrap();
    book.select_winner(1, BetOption::Option1).unwrap();
    assert_eq!(book.withdraw(2).unwrap(), 400);
    // The paid bet is struck from the book: a second withdrawal pays nothing.
    assert_eq!(book.bets.get(2), None);
    assert_eq!(book.withdraw(2).unwrap(), 0);
    // A losing bettor and a stranger are paid nothing and keep their record.
    assert_eq!(book.withdraw(3).unwrap(), 0);
    assert_eq!(book.bets.get(3), Some(Bet { amount: 300, option: BetOption::Option2 }));
    assert_eq!(book.withdraw(9).unwrap(), 0);
}

#[test]
fn betting_empty_winning_pool_is_arithmetic_error() {
    let mut book = Betting::new(1);
    book.place_bet(2, 100, BetOption::Option1).unwrap();
    book.close_betting(1).unwrap();
    assert_eq!(book.select_winner(1, BetOption::Option2), Err(BetError::ArithmeticError));
    assert_eq!(book.winner, None);
}

#[test]
fn betting_rebet_overwrites_stake() {
    let mut book = Betting::new(1);
    book.place_bet(2, 100, BetOption::Option1).unwrap();
    book.place_bet(2, 50, BetOption::Option1).unwrap();
    // Both stakes stay in the running totals; the recorded bet is the last.
    assert_eq!(book.total_amount, 150);
    assert_eq!(book.bets.get(2), Some(Bet { amount: 50, option: BetOption::Option1 }));
}

#[test]
fn voting_counts_one_vote_per_account() {
    let mut ballot = Voting::new(vec!["alice".to_string(), "bob".to_string()]);
    ballot.vote(1, "alice".to_string()).unwrap();
    assert_eq!(ballot.vote(1, "bob".to_string()), Err(VoteError::AlreadyVoted));
    assert_eq!(ballot.vote(2, "carol".to_string()), Err(VoteError::CandidateNotFound));
    ballot.vote(2, "alice".to_string()).unwrap();
    ballot.vote(3, "bob".to_string()).unwrap();
    assert_eq!(ballot.get_votes("alice".to_string()), 2);
    assert_eq!(ballot.get_votes("bob".to_string()), 1);
    assert_eq!(ballot.get_votes("carol".to_string()), 0);
    assert_eq!(ballot.get_candidates(), vec!["alice".to_string(), "bob".to_string()]);
}

#[test]
fn market_swap_prices_constant_product() {
    let mut market = MarketMaker::new(1);
    market.add_liquidity(2, 1000, 1000).unwrap();
    // token_out = floor(100 * 1000 / (1000 + 100)) = 90.
    assert_eq!(market.swap_eth_for_tokens(3, 100).unwrap(), 90);
    assert_eq!((market.eth_reserve, market.token_reserve), (1100, 910));
    assert_eq!(market.token_balances.get(3), 90);
    // eth_out = floor(50 * 1100 / (910 + 50)) = 57.
    assert_eq!(market.swap_tokens_for_eth(3, 50).unwrap(), 57);
    assert_eq!((market.eth_reserve, market.token_reserve), (1043, 960));
    assert_eq!(market.token_balances.get(3), 40);
    // Rounding favors the reserves: the product never shrinks.
    assert!(1043u128 * 960 >= 1000u128 * 1000);
    assert_eq!(market.get_events().len(), 3);
    assert!(matches!(
        market.get_events()[1],
        MarketEvent::TokensSwapped(s) if s.swapper == 3 && s.eth_in == 100 && s.token_out == 90
    ));
}

#[test]
fn market_deposit_grows_claims() {
    let mut market = MarketMaker::new(1);
    market.add_liquidity(2, 1000, 1000).unwrap();
    market.add_liquidity(2, 500, 500).unwrap();
    assert_eq!(market.eth_balances.get(2), 1500);
    assert_eq!(market.token_balances.get(2), 1500);
    assert_eq!((market.eth_reserve, market.token_reserve), (1500, 1500));
}

#[test]
fn market_withdraw_liquidity_debits_claims() {
    let mut market = MarketMaker::new(1);
    market.add_liquidity(2, 1000, 1000).unwrap();
    market.withdraw_liquidity(2, 100, 100).unwrap();
    assert_eq!((market.eth_reserve, market.token_reserve), (900, 900));
    assert_eq!(market.eth_balances.get(2), 900);
    assert_eq!(market.token_balances.get(2), 900);
    assert!(matches!(
        market.get_events()[1],
        MarketEvent::LiquidityRemoved(w) if w.provider == 2 && w.eth_amount == 100 && w.token_amount == 100
    ));
    assert_eq!(
        market.withdraw_liquidity(2, 10_000, 0),
        Err(MarketError::InsufficientLiquidity)
    );
    assert_eq!(
        market.withdraw_liquidity(3, 0, 10),
        Err(MarketError::InsufficientBalance)
    );
    // Another provider's deposit never covers the first one's withdrawal:
    // the reserves would allow it, the caller's own claim does not.
    market.add_liquidity(4, 500, 500).unwrap();
    assert_eq!(
        market.withdraw_liquidity(2, 1000, 0),
        Err(MarketError::InsufficientBalance)
    );
    assert_eq!((market.eth_reserve, market.token_reserve), (1400, 1400));
}

#[test]
fn market_rejections() {
    let mut market = MarketMaker::new(1);
    assert_eq!(market.add_liquidity(2, 0, 5), Err(MarketError::InvalidAmount));
    assert_eq!(market.swap_eth_for_tokens(3, 0), Err(MarketError::InvalidAmount));
    // Empty reserves: pricing would divide by zero.
    assert_eq!(market.swap_eth_for_tokens(3, 5), Err(MarketError::ArithmeticError));
    assert_eq!(market.swap_tokens_for_eth(3, 5), Err(MarketError::ArithmeticError));
    market.add_liquidity(2, 10, 1000).unwrap();
    // Even a huge input cannot drain the token reserve.
    let out = market.swap_eth_for_tokens(3, 1_000_000).unwrap();
    assert!(out < 1000);
    // Account 4 holds no tokens to swap away.
    assert_eq!(market.swap_tokens_for_eth(4, 10), Err(MarketError::InsufficientBalance));
}
