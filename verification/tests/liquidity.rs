use defi_suite::account::AccountId;
use defi_suite::liquidity::{
    AddLiquidityResult, LiquidityContract, LiquidityError, RemoveLiquidityResult,
};

fn account(tag: u8) -> AccountId {
    let mut strkey = [b'C'; 56];
    strkey[0] = b'G';
    strkey[55] = tag;
    AccountId::new(strkey)
}

fn manager_with_pool() -> (LiquidityContract, u32) {
    let mut manager = LiquidityContract::new();
    manager.initialize(account(1)).unwrap();
    let pool_id = manager.create_pool(account(2), account(3), 30, 1, 1000000).unwrap();
    (manager, pool_id)
}

#[test]
fn lib_test_initialize() {
    let mut manager = LiquidityContract::new();
    manager.initialize(account(1)).unwrap();
    assert_eq!(manager.get_pool_count(), 0);
}

#[test]
fn test_create_pool() {
    let mut manager = LiquidityContract::new();
    manager.initialize(account(1)).unwrap();

    let pool_id = manager.create_pool(account(2), account(3), 30, 1, 1000000).unwrap();
    assert_eq!(pool_id, 1);
    assert_eq!(manager.get_pool_count(), 1);

    let pool = manager.get_pool(1).unwrap();
    assert_eq!(pool.fee_tier_bps, 30);
    assert_eq!(pool.total_liquidity, 0);
}

#[test]
fn test_add_liquidity() {
    let (mut manager, pool_id) = manager_with_pool();

    let result = manager.add_liquidity(account(4), pool_id, -100, 100, 5000, 5000);
    assert!(result.is_ok());

    let result = result.unwrap();
    assert_eq!(result.amount_a, 5000);
    assert_eq!(result.amount_b, 5000);
}

#[test]
fn test_invalid_tick_range() {
    let (mut manager, pool_id) = manager_with_pool();

    let result = manager.add_liquidity(account(4), pool_id, 100, 100, 5000, 5000);
    assert!(result.is_err());
}

#[test]
fn test_remove_liquidity() {
    let (mut manager, pool_id) = manager_with_pool();

    let add_result = manager.add_liquidity(account(4), pool_id, -100, 100, 5000, 5000).unwrap();
    let remove_result =
        manager.remove_liquidity(account(4), add_result.position_id, add_result.liquidity_minted);
    assert!(remove_result.is_ok());
}

#[test]
fn uninitialized_manager_has_nothing() {
    let manager = LiquidityContract::new();
    assert_eq!(manager.get_pool_count(), 0);
    assert!(manager.get_fee_tiers().is_empty());
    assert_eq!(manager.get_pool(1).unwrap_err(), LiquidityError::PositionNotFound);
}

#[test]
fn default_fee_tiers() {
    let (manager, _) = manager_with_pool();
    assert_eq!(manager.get_fee_tiers(), vec![1, 5, 30, 100]);
}

#[test]
fn pools_are_numbered_in_order() {
    let (mut manager, first) = manager_with_pool();
    let second = manager.create_pool(account(5), account(6), 100, 10, 42).unwrap();
    assert_eq!((first, second), (1, 2));
    assert_eq!(manager.get_pool_count(), 2);
    let pool = manager.get_pool(2).unwrap();
    assert_eq!(pool.token_a, account(5));
    assert_eq!(pool.tick_spacing, 10);
    assert_eq!(pool.sqrt_price, 42);
}

#[test]
fn pool_count_overflow_is_reported() {
    let (mut manager, _) = manager_with_pool();
    manager.pool_count = Some(u32::MAX);
    assert_eq!(
        manager.create_pool(account(5), account(6), 100, 10, 42),
        Err(LiquidityError::MathOverflow)
    );
    assert_eq!(manager.pool_count, Some(u32::MAX));
}

#[test]
fn position_ids_count_up_and_liquidity_adds_up() {
    let (mut manager, pool_id) = manager_with_pool();
    let first = manager.add_liquidity(account(4), pool_id, -100, 100, 5000, 5000).unwrap();
    assert_eq!(
        first,
        AddLiquidityResult { position_id: 1, amount_a: 5000, amount_b: 5000, liquidity_minted: 10_000 }
    );
    let second = manager.add_liquidity(account(7), pool_id, 0, 10, 0, 300).unwrap();
    assert_eq!(second.position_id, 2);
    assert_eq!(manager.get_pool(pool_id).unwrap().total_liquidity, 10_300);
    let stored = manager.positions.get(&1).unwrap();
    assert_eq!(stored.owner, account(4));
    assert_eq!(stored.liquidity, 10_000);
}

#[test]
fn add_liquidity_errors() {
    let (mut manager, pool_id) = manager_with_pool();
    assert_eq!(
        manager.add_liquidity(account(4), pool_id, 5, -5, 1, 1),
        Err(LiquidityError::InvalidRange)
    );
    assert_eq!(
        manager.add_liquidity(account(4), pool_id, -5, 5, 0, 0),
        Err(LiquidityError::InvalidAmount)
    );
    assert_eq!(
        manager.add_liquidity(account(4), 9, -5, 5, 1, 1),
        Err(LiquidityError::PositionNotFound)
    );
    assert_eq!(
        manager.add_liquidity(account(4), pool_id, -5, 5, u128::MAX, 1),
        Err(LiquidityError::MathOverflow)
    );
    assert_eq!(manager.position_count, None);
    assert!(manager.positions.is_empty());
}

#[test]
fn removal_pays_out_and_restores_the_pool() {
    let (mut manager, pool_id) = manager_with_pool();
    let added = manager.add_liquidity(account(4), pool_id, -100, 100, 5000, 5000).unwrap();
    // 5000 * 1000 / 10000 = 500 of each token
    let half = manager.remove_liquidity(account(4), added.position_id, 5000).unwrap();
    assert_eq!(half, RemoveLiquidityResult { amount_a: 500, amount_b: 500, fees_a: 0, fees_b: 0 });
    assert_eq!(manager.get_pool(pool_id).unwrap().total_liquidity, 5000);
    // 5000 * 1000 / 5000 = 1000
    let rest = manager.remove_liquidity(account(4), added.position_id, 5000).unwrap();
    assert_eq!(rest.amount_a, 1000);
    assert_eq!(manager.get_pool(pool_id).unwrap().total_liquidity, 0);
    assert_eq!(manager.positions.get(&added.position_id).unwrap().liquidity, 0);
}

#[test]
fn removal_errors() {
    let (mut manager, pool_id) = manager_with_pool();
    let added = manager.add_liquidity(account(4), pool_id, -100, 100, 5000, 5000).unwrap();
    assert_eq!(
        manager.remove_liquidity(account(4), 99, 1),
        Err(LiquidityError::PositionNotFound)
    );
    assert_eq!(
        manager.remove_liquidity(account(8), added.position_id, 1),
        Err(LiquidityError::Unauthorized)
    );
    assert_eq!(
        manager.remove_liquidity(account(4), added.position_id, 10_001),
        Err(LiquidityError::InsufficientLiquidity)
    );
    assert_eq!(manager.get_pool(pool_id).unwrap().total_liquidity, 10_000);
}

#[test]
fn removal_from_a_recreated_pool_underflows() {
    let (mut manager, pool_id) = manager_with_pool();
    let added = manager.add_liquidity(account(4), pool_id, -100, 100, 5000, 5000).unwrap();
    // initializing again resets the count, so the next pool replaces pool 1
    manager.initialize(account(1)).unwrap();
    let again = manager.create_pool(account(2), account(3), 30, 1, 1000000).unwrap();
    assert_eq!(again, pool_id);
    assert_eq!(
        manager.remove_liquidity(account(4), added.position_id, 10),
        Err(LiquidityError::MathOverflow)
    );
}

#[test]
fn fees_are_collected_by_the_owner_only() {
    let (mut manager, pool_id) = manager_with_pool();
    let added = manager.add_liquidity(account(4), pool_id, -100, 100, 5000, 5000).unwrap();
    assert_eq!(
        manager.collect_fees(account(8), added.position_id),
        Err(LiquidityError::Unauthorized)
    );
    assert_eq!(manager.collect_fees(account(4), 77), Err(LiquidityError::PositionNotFound));
    assert_eq!(manager.collect_fees(account(4), added.position_id), Ok((0, 0)));
}

#[test]
fn owed_fees_are_paid_once() {
    let (mut manager, pool_id) = manager_with_pool();
    let added = manager.add_liquidity(account(4), pool_id, -100, 100, 5000, 5000).unwrap();
    let mut position = *manager.positions.get(&added.position_id).unwrap();
    position.tokens_owed_a = 7;
    position.tokens_owed_b = 9;
    manager.positions.insert(added.position_id, position);
    assert_eq!(manager.collect_fees(account(4), added.position_id), Ok((7, 9)));
    assert_eq!(manager.collect_fees(account(4), added.position_id), Ok((0, 0)));
}

#[test]
fn opening_positions_keeps_earlier_ones() {
    let (mut manager, pool_id) = manager_with_pool();
    let first = manager.add_liquidity(account(4), pool_id, -100, 100, 5000, 5000).unwrap();
    let second = manager.add_liquidity(account(7), pool_id, -10, 10, 100, 100).unwrap();
    assert_ne!(first.position_id, second.position_id);
    assert_eq!(manager.positions.get(&first.position_id).unwrap().owner, account(4));
    let removed =
        manager.remove_liquidity(account(4), first.position_id, first.liquidity_minted);
    assert!(removed.is_ok());
}
