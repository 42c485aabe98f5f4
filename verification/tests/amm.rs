use amm_pool::dex::{PoolEvent, PoolEventKind, SimpleDex};
use amm_pool::pool::AmmError;
use amm_pool::swap::swap;

#[test]
fn first_deposit_mints_minimum() {
    let mut dex = SimpleDex::new();
    let minted = dex.add_liquidity(1, 1000, 2000).unwrap();
    assert_eq!(minted, 1000);
    assert_eq!(dex.get_reserves(), (1000, 2000));
    assert_eq!(dex.get_total_liquidity(), 1000);
    assert_eq!(dex.get_user_liquidity(1), 1000);
}

#[test]
fn first_deposit_always_succeeds_on_empty_pool() {
    let mut dex = SimpleDex::new();
    assert!(dex.add_liquidity(7, u128::MAX, 1).is_ok());
    assert_eq!(dex.get_total_liquidity(), 1);
}

#[test]
fn zero_amount_deposit_rejected() {
    let mut dex = SimpleDex::new();
    assert_eq!(dex.add_liquidity(1, 0, 5), Err(AmmError::InvalidAmount));
    assert_eq!(dex.add_liquidity(1, 5, 0), Err(AmmError::InvalidAmount));
    assert_eq!(dex.get_reserves(), (0, 0));
    assert_eq!(dex.get_total_liquidity(), 0);
}

#[test]
fn subsequent_deposit_mints_proportionally() {
    let mut dex = SimpleDex::new();
    dex.add_liquidity(1, 1000, 1000).unwrap();
    // 500 * 1000 / 1000 = 500 shares, whatever the second amount says.
    let minted = dex.add_liquidity(2, 500, 700).unwrap();
    assert_eq!(minted, 500);
    assert_eq!(dex.get_reserves(), (1500, 1700));
    assert_eq!(dex.get_total_liquidity(), 1500);
    assert_eq!(dex.get_user_liquidity(2), 500);
}

#[test]
fn deposit_overflow_is_arithmetic_error() {
    let mut dex = SimpleDex::new();
    dex.add_liquidity(1, u128::MAX, u128::MAX).unwrap();
    assert_eq!(dex.add_liquidity(1, 1, 1), Err(AmmError::ArithmeticError));
    assert_eq!(dex.get_reserves(), (u128::MAX, u128::MAX));
}

#[test]
fn round_trip_returns_exact_deposit() {
    let mut dex = SimpleDex::new();
    let minted = dex.add_liquidity(9, 7, 13).unwrap();
    assert_eq!(minted, 7);
    let (back_a, back_b) = dex.remove_liquidity(9, minted).unwrap();
    assert_eq!((back_a, back_b), (7, 13));
    assert_eq!(dex.get_user_liquidity(9), 0);
    assert_eq!(dex.get_total_liquidity(), 0);
    assert_eq!(dex.get_reserves(), (0, 0));
}

#[test]
fn withdrawal_rounds_down_in_favor_of_pool() {
    let mut dex = SimpleDex::new();
    dex.add_liquidity(1, 10, 10).unwrap();
    dex.add_liquidity(2, 3, 3).unwrap();
    // 3 shares of 13 total against reserves (13, 13): floor(3*13/13) = 3.
    assert_eq!(dex.remove_liquidity(2, 3).unwrap(), (3, 3));
    // Now 10 shares against (10, 10); remove 3: floor(3*10/10) = 3.
    assert_eq!(dex.remove_liquidity(1, 3).unwrap(), (3, 3));
}

#[test]
fn insufficient_shares_rejected() {
    let mut dex = SimpleDex::new();
    dex.add_liquidity(1, 1000, 1000).unwrap();
    assert_eq!(dex.remove_liquidity(1, 1001), Err(AmmError::InsufficientShares));
    assert_eq!(dex.remove_liquidity(2, 1), Err(AmmError::InsufficientShares));
    assert_eq!(dex.get_total_liquidity(), 1000);
}

#[test]
fn withdrawal_from_empty_pool_rejected() {
    let mut dex = SimpleDex::new();
    assert_eq!(dex.remove_liquidity(1, 0), Err(AmmError::InsufficientShares));
}

#[test]
fn swap_formula_exact() {
    // floor(100 * 1000 / (1000 + 100)) = 90.
    assert_eq!(swap(100, 1000, 1000), Ok(90));
    // floor(50 * 200 / 150) = 66.
    assert_eq!(swap(50, 100, 200), Ok(66));
}

#[test]
fn swap_zero_reserve_is_arithmetic_error() {
    assert_eq!(swap(5, 0, 10), Err(AmmError::ArithmeticError));
    assert_eq!(swap(5, 10, 0), Err(AmmError::ArithmeticError));
}

#[test]
fn swap_zero_input_is_invalid_amount() {
    assert_eq!(swap(0, 10, 10), Err(AmmError::InvalidAmount));
}

#[test]
fn swap_overflow_is_arithmetic_error() {
    assert_eq!(swap(2, u128::MAX, u128::MAX), Err(AmmError::ArithmeticError));
}

#[test]
fn swap_output_strictly_below_reserve() {
    // Even a huge input cannot drain the outgoing reserve.
    let out = swap(1_000_000_000, 1, 5).unwrap();
    assert!(out < 5);
    let out = swap(u128::MAX / 2, 1, 2).unwrap();
    assert!(out < 2);
}

#[test]
fn scenario_pool_swap() {
    // First deposit of (1000, 1000) mints 1000 shares; a swap of 100 in
    // returns floor(100*1000/1100) = 90 and leaves reserves (1100, 910).
    let mut dex = SimpleDex::new();
    assert_eq!(dex.add_liquidity(1, 1000, 1000).unwrap(), 1000);
    assert_eq!(dex.get_total_liquidity(), 1000);
    let out = dex.swap_a_for_b(1, 100).unwrap();
    assert_eq!(out, 90);
    assert_eq!(dex.get_reserves(), (1100, 910));
}

#[test]
fn scenario_partial_withdrawal() {
    // Holding all 1000 shares against reserves (1100, 910), removing 500
    // pays floor(500*1100/1000) = 550 and floor(500*910/1000) = 455.
    let mut dex = SimpleDex::new();
    dex.add_liquidity(1, 1000, 1000).unwrap();
    dex.swap_a_for_b(1, 100).unwrap();
    let (out_a, out_b) = dex.remove_liquidity(1, 500).unwrap();
    assert_eq!((out_a, out_b), (550, 455));
    assert_eq!(dex.get_user_liquidity(1), 500);
    assert_eq!(dex.get_total_liquidity(), 500);
    assert_eq!(dex.get_reserves(), (550, 455));
}

#[test]
fn swap_sequence_never_shrinks_reserve_product() {
    let mut dex = SimpleDex::new();
    dex.add_liquidity(1, 1000, 1000).unwrap();
    let mut product = 1000u128 * 1000u128;
    for amount in [100u128, 37, 1, 999, 5] {
        let (ra, rb) = dex.get_reserves();
        let result = if amount % 2 == 0 {
            dex.swap_a_for_b(2, amount)
        } else {
            dex.swap_b_for_a(2, amount)
        };
        assert!(result.is_ok());
        let (na, nb) = dex.get_reserves();
        assert!(na * nb >= product);
        assert!(na * nb >= ra * rb);
        product = na * nb;
    }
}

#[test]
fn swap_direction_agnostic() {
    let mut dex = SimpleDex::new();
    dex.add_liquidity(1, 500, 2000).unwrap();
    // b -> a: floor(100 * 500 / (2000 + 100)) = 23.
    let out = dex.swap_b_for_a(3, 100).unwrap();
    assert_eq!(out, 23);
    assert_eq!(dex.get_reserves(), (477, 2100));
}

#[test]
fn calculate_liquidity_minimum_policy() {
    assert_eq!(SimpleDex::calculate_liquidity(0, 5), 0);
    assert_eq!(SimpleDex::calculate_liquidity(5, 0), 0);
    assert_eq!(SimpleDex::calculate_liquidity(3, 5), 3);
    assert_eq!(SimpleDex::calculate_liquidity(8, 2), 2);
}

#[test]
fn pool_events_recorded_in_order() {
    let mut dex = SimpleDex::new();
    dex.add_liquidity(1, 1000, 1000).unwrap();
    dex.swap_a_for_b(2, 100).unwrap();
    dex.remove_liquidity(1, 500).unwrap();
    let events = dex.get_events();
    assert_eq!(events.len(), 3);
    assert_eq!(
        events[0],
        PoolEvent {
            kind: PoolEventKind::LiquidityAdded,
            participant: 1,
            amount_a: 1000,
            amount_b: 1000,
        }
    );
    assert_eq!(
        events[1],
        PoolEvent { kind: PoolEventKind::Swapped, participant: 2, amount_a: 100, amount_b: 90 }
    );
    assert_eq!(
        events[2],
        PoolEvent {
            kind: PoolEventKind::LiquidityRemoved,
            participant: 1,
            amount_a: 550,
            amount_b: 455,
        }
    );
}

#[test]
fn failed_operation_records_no_event() {
    let mut dex = SimpleDex::new();
    let _ = dex.add_liquidity(1, 0, 5);
    let _ = dex.swap_a_for_b(1, 5);
    assert_eq!(dex.get_events().len(), 0);
}

#[test]
fn withdrawal_overflow_is_arithmetic_error() {
    let mut dex = SimpleDex::new();
    dex.add_liquidity(1, u128::MAX, u128::MAX).unwrap();
    // 2 shares * a full reserve does not fit in the balance type.
    assert_eq!(dex.remove_liquidity(1, 2), Err(AmmError::ArithmeticError));
    assert_eq!(dex.get_reserves(), (u128::MAX, u128::MAX));
}

#[test]
fn dex_swap_rejections() {
    let mut dex = SimpleDex::new();
    assert_eq!(dex.swap_a_for_b(1, 0), Err(AmmError::InvalidAmount));
    // An uninitialized pool has nothing to price against.
    assert_eq!(dex.swap_a_for_b(1, 5), Err(AmmError::ArithmeticError));
    assert_eq!(dex.swap_b_for_a(1, 5), Err(AmmError::ArithmeticError));
    assert_eq!(dex.get_reserves(), (0, 0));
}
