use amm_pool::token::{TokenContract, TokenError};

#[test]
fn new_token_credits_owner() {
    let token = TokenContract::new("Yato".to_string(), "YTO".to_string(), 1_000_000);
    let (name, symbol, supply) = token.get_token_info();
    assert_eq!(name, "Yato");
    assert_eq!(symbol, "YTO");
    assert_eq!(supply, 1_000_000);
    assert_eq!(token.balance_of("owner"), 1_000_000);
    assert_eq!(token.balance_of("alice"), 0);
}

#[test]
fn ledger_lifecycle() {
    let mut token = TokenContract::new("Yato".to_string(), "YTO".to_string(), 1_000_000);
    token.transfer("owner", "alice", 1000).unwrap();
    token.approve("alice", "bob", 500).unwrap();
    token.transfer_from("alice", "bob", "bob", 300).unwrap();
    token.mint("owner", 5000).unwrap();
    token.burn("owner", 2000).unwrap();

    assert_eq!(token.balance_of("owner"), 1_002_000);
    assert_eq!(token.balance_of("alice"), 700);
    assert_eq!(token.balance_of("bob"), 300);
    assert_eq!(token.allowance("alice", "bob"), 200);
    let (_, _, supply) = token.get_token_info();
    assert_eq!(supply, 1_003_000);

    let events = token.get_events();
    assert_eq!(events.len(), 5);
    assert_eq!(events[0].event_type, "Transfer");
    assert_eq!(events[1].event_type, "Approval");
    assert_eq!(events[2].event_type, "TransferFrom");
    assert_eq!(events[3].event_type, "Mint");
    assert_eq!(events[3].from, "0x0");
    assert_eq!(events[4].event_type, "Burn");
    assert_eq!(events[4].to, "0x0");

    let (transferred, minted, burned) = token.event_volumes();
    assert_eq!(transferred, 1300);
    assert_eq!(minted, 5000);
    assert_eq!(burned, 2000);
}

#[test]
fn transfer_insufficient_balance_changes_nothing() {
    let mut token = TokenContract::new("T".to_string(), "T".to_string(), 10);
    assert_eq!(token.transfer("owner", "alice", 11), Err(TokenError::InsufficientBalance));
    assert_eq!(token.balance_of("owner"), 10);
    assert_eq!(token.balance_of("alice"), 0);
    assert_eq!(token.get_events().len(), 0);
}

#[test]
fn transfer_to_self_keeps_balance() {
    let mut token = TokenContract::new("T".to_string(), "T".to_string(), 10);
    token.transfer("owner", "owner", 4).unwrap();
    assert_eq!(token.balance_of("owner"), 10);
}

#[test]
fn transfer_from_needs_allowance() {
    let mut token = TokenContract::new("T".to_string(), "T".to_string(), 100);
    token.transfer("owner", "alice", 50).unwrap();
    assert_eq!(
        token.transfer_from("alice", "bob", "bob", 10),
        Err(TokenError::InsufficientAllowance)
    );
    token.approve("alice", "bob", 10).unwrap();
    token.transfer_from("alice", "bob", "bob", 10).unwrap();
    assert_eq!(token.balance_of("bob"), 10);
    assert_eq!(token.allowance("alice", "bob"), 0);
}

#[test]
fn transfer_from_checks_balance_first() {
    let mut token = TokenContract::new("T".to_string(), "T".to_string(), 100);
    token.approve("alice", "bob", 500).unwrap();
    assert_eq!(
        token.transfer_from("alice", "bob", "bob", 10),
        Err(TokenError::InsufficientBalance)
    );
}

#[test]
fn only_owner_account_can_mint() {
    let mut token = TokenContract::new("T".to_string(), "T".to_string(), 100);
    assert_eq!(token.mint("alice", 5), Err(TokenError::NotOwner));
    assert_eq!(token.balance_of("alice"), 0);
    let (_, _, supply) = token.get_token_info();
    assert_eq!(supply, 100);
}

#[test]
fn burn_insufficient_balance_rejected() {
    let mut token = TokenContract::new("T".to_string(), "T".to_string(), 100);
    assert_eq!(token.burn("owner", 101), Err(TokenError::InsufficientBalance));
    assert_eq!(token.balance_of("owner"), 100);
}

#[test]
fn checks_match_balances() {
    let mut token = TokenContract::new("T".to_string(), "T".to_string(), 100);
    assert!(token.check_balance("owner", 100).is_ok());
    assert_eq!(token.check_balance("owner", 101), Err(TokenError::InsufficientBalance));
    assert_eq!(token.check_allowance("a", "b", 1), Err(TokenError::InsufficientAllowance));
    token.approve("a", "b", 1).unwrap();
    assert!(token.check_allowance("a", "b", 1).is_ok());
}

#[test]
fn approve_overwrites_earlier_grant() {
    let mut token = TokenContract::new("T".to_string(), "T".to_string(), 100);
    token.approve("a", "b", 7).unwrap();
    token.approve("a", "b", 3).unwrap();
    assert_eq!(token.allowance("a", "b"), 3);
    assert_eq!(token.allowance("a", "c"), 0);
}
