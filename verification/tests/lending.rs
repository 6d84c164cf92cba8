use defi_suite::account::AccountId;
use defi_suite::lending::{
    BorrowResult, InterestRateModel, LendingContract, LendingError, SupplyResult, UserPosition,
    INITIAL_EXCHANGE_RATE,
};

fn account(tag: u8) -> AccountId {
    let mut strkey = [b'B'; 56];
    strkey[0] = b'G';
    strkey[55] = tag;
    AccountId::new(strkey)
}

/// base = 2%, slope = 40%, optimal = 80%, reserve factor = 5%.
fn pool() -> LendingContract {
    LendingContract::initialize(account(1), account(2), 500, 200, 4000, 8000, 100).unwrap()
}

#[test]
fn test_initialize() {
    let contract = pool();
    let info = contract.get_pool_info();
    assert_eq!(info.total_deposits, 0);
    assert_eq!(info.total_borrowed, 0);
}

#[test]
fn test_supply() {
    let mut contract = pool();
    let mut supplier: Option<UserPosition> = None;

    let result = contract.supply(&mut supplier, 10_000, 100).unwrap();
    assert!(result.shares > 0);

    let info = contract.get_pool_info();
    assert_eq!(info.total_deposits, 10_000);
}

#[test]
fn test_borrow_requires_collateral() {
    let mut contract = pool();
    let mut supplier: Option<UserPosition> = None;
    let mut borrower: Option<UserPosition> = None;
    contract.supply(&mut supplier, 100_000, 100).unwrap();

    let result = contract.borrow(&mut borrower, 1000, 100);
    assert!(result.is_err());
}

#[test]
fn test_borrow_with_collateral() {
    let mut contract = pool();
    let mut supplier: Option<UserPosition> = None;
    let mut borrower: Option<UserPosition> = None;
    contract.supply(&mut supplier, 100_000, 100).unwrap();
    LendingContract::deposit_collateral(&mut borrower, 10_000, 100).unwrap();

    let result = contract.borrow(&mut borrower, 5000, 100);
    assert!(result.is_ok());

    let borrow_result = result.unwrap();
    assert!(borrow_result.health_factor >= 10_000);
}

#[test]
fn test_health_factor() {
    let _contract = pool();
    let mut user: Option<UserPosition> = None;
    LendingContract::deposit_collateral(&mut user, 10_000, 100).unwrap();

    let hf = LendingContract::get_health_factor(user);
    assert_eq!(hf, u128::MAX);
}

#[test]
fn test_interest_rate_calculation() {
    let mut contract = pool();
    let mut supplier: Option<UserPosition> = None;
    contract.supply(&mut supplier, 100_000, 100).unwrap();

    assert!(contract.interest_rates_fit());
    let borrow_apy = contract.get_borrow_apy();
    assert!(borrow_apy > 0);

    let supply_apy = contract.get_supply_apy();
    assert!(supply_apy < borrow_apy);
}

#[test]
fn initialize_records_the_model() {
    let info = pool().get_pool_info();
    assert_eq!(
        info.interest_rate_model,
        InterestRateModel { base_rate_bps: 200, slope_bps: 4000, optimal_utilization: 8000 }
    );
    assert_eq!(info.reserve_factor_bps, 500);
    assert_eq!(info.exchange_rate, INITIAL_EXCHANGE_RATE);
    assert_eq!(info.last_update_timestamp, 100);
    assert_eq!(info.asset, account(2));
}

#[test]
fn reserve_factor_above_half_is_refused() {
    let refused = LendingContract::initialize(account(1), account(2), 5001, 200, 4000, 8000, 0);
    assert_eq!(refused.unwrap_err(), LendingError::InvalidAmount);
    assert!(LendingContract::initialize(account(1), account(2), 5000, 200, 4000, 8000, 0).is_ok());
}

#[test]
fn first_supply_mints_at_par() {
    let mut contract = pool();
    let mut supplier: Option<UserPosition> = None;
    let result = contract.supply(&mut supplier, 10_000, 250).unwrap();
    assert_eq!(result, SupplyResult { shares: 10_000, exchange_rate: 1_000_000_000 });
    let position = supplier.unwrap();
    assert_eq!(position.deposited, 10_000);
    assert_eq!(position.last_accrued, 250);
    assert_eq!(contract.get_pool_info().last_update_timestamp, 250);
}

#[test]
fn later_supply_shares_and_exchange_rate() {
    let mut contract = pool();
    let mut supplier: Option<UserPosition> = None;
    let mut borrower: Option<UserPosition> = None;
    contract.supply(&mut supplier, 100_000, 100).unwrap();
    LendingContract::deposit_collateral(&mut borrower, 100_000, 100).unwrap();
    contract.borrow(&mut borrower, 50_000, 100).unwrap();
    // shares = 10000 * 100000 / 150000 = 6666; rate = 160000 * 10^9 / 110000
    let result = contract.supply(&mut supplier, 10_000, 200).unwrap();
    assert_eq!(result.shares, 6666);
    assert_eq!(result.exchange_rate, 1_454_545_454);
    assert_eq!(supplier.unwrap().deposited, 110_000);
}

#[test]
fn supply_of_zero_is_refused_and_changes_nothing() {
    let mut contract = pool();
    let mut supplier: Option<UserPosition> = None;
    assert_eq!(contract.supply(&mut supplier, 0, 100), Err(LendingError::InvalidAmount));
    assert_eq!(supplier, None);
    assert_eq!(contract.get_pool_info().total_deposits, 0);
}

#[test]
fn supply_overflow_is_reported() {
    let mut contract = pool();
    let mut supplier: Option<UserPosition> = None;
    // total value * 10^9 overflows
    assert_eq!(
        contract.supply(&mut supplier, u128::MAX / 2, 100),
        Err(LendingError::MathOverflow)
    );
    assert_eq!(supplier, None);
}

#[test]
fn borrow_reports_health_and_utilization() {
    let mut contract = pool();
    let mut supplier: Option<UserPosition> = None;
    let mut borrower: Option<UserPosition> = None;
    contract.supply(&mut supplier, 100_000, 100).unwrap();
    LendingContract::deposit_collateral(&mut borrower, 10_000, 100).unwrap();
    let result = contract.borrow(&mut borrower, 5000, 300).unwrap();
    assert_eq!(
        result,
        BorrowResult { amount: 5000, health_factor: 16_000, new_utilization: 500 }
    );
    assert_eq!(LendingContract::get_health_factor(borrower), 16_000);
    assert_eq!(borrower.unwrap().borrowed, 5000);
    assert_eq!(borrower.unwrap().last_accrued, 300);
    assert_eq!(contract.get_pool_info().total_borrowed, 5000);
    assert_eq!(contract.get_utilization_rate(), 500);
}

#[test]
fn borrow_errors() {
    let mut contract = pool();
    let mut supplier: Option<UserPosition> = None;
    let mut borrower: Option<UserPosition> = None;
    assert_eq!(contract.borrow(&mut borrower, 0, 100), Err(LendingError::InvalidAmount));
    assert_eq!(contract.borrow(&mut borrower, 1, 100), Err(LendingError::InsufficientLiquidity));
    contract.supply(&mut supplier, 100_000, 100).unwrap();
    assert_eq!(contract.borrow(&mut borrower, 1000, 100), Err(LendingError::Undercollateralized));
    assert_eq!(borrower, None);
    LendingContract::deposit_collateral(&mut borrower, 10_000, 100).unwrap();
    // at most 75% of the collateral may be borrowed
    assert_eq!(contract.borrow(&mut borrower, 7501, 100), Err(LendingError::Undercollateralized));
    assert!(contract.borrow(&mut borrower, 7500, 100).is_ok());
    assert_eq!(contract.borrow(&mut borrower, 1, 100), Err(LendingError::Undercollateralized));
    assert_eq!(LendingContract::get_health_factor(borrower), 10_666);
}

#[test]
fn collateral_accumulates() {
    let mut user: Option<UserPosition> = None;
    assert_eq!(LendingContract::deposit_collateral(&mut user, 0, 5), Err(LendingError::InvalidAmount));
    assert_eq!(LendingContract::deposit_collateral(&mut user, 300, 5), Ok(300));
    assert_eq!(LendingContract::deposit_collateral(&mut user, 200, 9), Ok(500));
    let position = LendingContract::get_user_position(user);
    assert_eq!(position.collateral_value, 500);
    assert_eq!(position.last_accrued, 5);
    assert_eq!(
        LendingContract::deposit_collateral(&mut user, u128::MAX, 9),
        Err(LendingError::MathOverflow)
    );
}

#[test]
fn missing_position_reads_as_empty() {
    let position = LendingContract::get_user_position(None);
    assert_eq!(
        position,
        UserPosition {
            deposited: 0,
            borrowed: 0,
            collateral_value: 0,
            last_accrued: 0,
            interest_earned: 0,
            interest_owed: 0,
        }
    );
    assert_eq!(LendingContract::get_health_factor(None), u128::MAX);
}

#[test]
fn rates_follow_the_two_slopes() {
    // deposits 100000, borrowed 50000: utilization 5000 (50%)
    let mut contract = pool();
    contract.pool.total_deposits = 100_000;
    contract.pool.total_borrowed = 50_000;
    assert_eq!(contract.get_utilization_rate(), 5000);
    // 200 + 5000 * 4000 / 8000 = 2700
    assert_eq!(contract.get_borrow_apy(), 2700);
    // 2700 * 5000 / 10000 = 1350; 1350 * 9500 / 10000 = 1282
    assert_eq!(contract.get_supply_apy(), 1282);
    // above the optimum: utilization 9000
    contract.pool.total_borrowed = 90_000;
    // 200 + 4000 + 1000 * 4000 / 2000 = 6200
    assert_eq!(contract.get_borrow_apy(), 6200);
}

#[test]
fn empty_pool_rates() {
    let contract = pool();
    assert_eq!(contract.get_utilization_rate(), 0);
    assert_eq!(contract.get_borrow_apy(), 200);
    assert_eq!(contract.get_supply_apy(), 0);
}

#[test]
fn overflowing_rate_is_detected() {
    let contract =
        LendingContract::initialize(account(1), account(2), 0, u128::MAX, 1, 8000, 0).unwrap();
    assert!(contract.interest_rates_fit());
    let mut busy = contract;
    busy.pool.total_deposits = 100;
    busy.pool.total_borrowed = 90;
    // above the optimum the rate is MAX + 1 + ..., which does not fit
    assert!(!busy.interest_rates_fit());
}

#[test]
fn borrow_beyond_the_deposits_left_is_refused() {
    let mut contract = pool();
    let mut supplier: Option<UserPosition> = None;
    let mut first: Option<UserPosition> = None;
    let mut second: Option<UserPosition> = None;
    contract.supply(&mut supplier, 100_000, 100).unwrap();
    LendingContract::deposit_collateral(&mut first, 200_000, 100).unwrap();
    LendingContract::deposit_collateral(&mut second, 100_000, 100).unwrap();
    contract.borrow(&mut first, 90_000, 100).unwrap();
    // only 10000 is left to lend
    assert_eq!(
        contract.borrow(&mut second, 20_000, 100),
        Err(LendingError::InsufficientLiquidity)
    );
    assert_eq!(second.unwrap().borrowed, 0);
    assert_eq!(contract.get_pool_info().total_borrowed, 90_000);
    let rest = contract.borrow(&mut second, 10_000, 100).unwrap();
    assert_eq!(rest.new_utilization, 10_000);
    assert_eq!(contract.borrow(&mut second, 1, 100), Err(LendingError::InsufficientLiquidity));
    assert!(contract.get_supply_apy() <= contract.get_borrow_apy());
}

#[test]
fn borrow_rate_rises_with_utilization_and_meets_at_the_kink() {
    let mut contract = pool();
    contract.pool.total_deposits = 10_000;
    let mut last = 0;
    for borrowed in [0u128, 2000, 4000, 7999, 8000, 8001, 9000, 10_000] {
        contract.pool.total_borrowed = borrowed;
        let rate = contract.get_borrow_apy();
        assert!(rate >= last);
        last = rate;
        if borrowed == 8000 {
            // base + slope at the optimum
            assert_eq!(rate, 4200);
        }
    }
    assert_eq!(last, 8200);
}
