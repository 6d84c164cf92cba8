use defi_suite::account::AccountId;
use defi_suite::swap::{
    PoolInfo, SwapContract, SwapError, SwapQuote, INITIAL_LIQUIDITY, MAX_FEE_BPS,
};

fn account(tag: u8) -> AccountId {
    let mut strkey = [b'A'; 56];
    strkey[0] = b'G';
    strkey[55] = tag;
    AccountId::new(strkey)
}

fn pool_with_fee(fee_bps: u128) -> SwapContract {
    SwapContract::initialize(account(1), account(2), account(3), fee_bps).unwrap()
}

#[test]
fn swap_test_initialize() {
    let result = SwapContract::initialize(account(1), account(2), account(3), 30);
    assert!(result.is_ok());

    let info = result.unwrap().get_pool_info();
    assert_eq!(info.reserve_a, 0);
    assert_eq!(info.reserve_b, 0);
    assert_eq!(info.fee_bps, 30);
}

#[test]
fn lib_test_add_liquidity() {
    let mut contract = pool_with_fee(30);

    let shares = contract.add_liquidity(1000, 2000).unwrap();
    assert!(shares > 0);

    let info = contract.get_pool_info();
    assert_eq!(info.reserve_a, 1000);
    assert_eq!(info.reserve_b, 2000);
}

#[test]
fn test_swap_quote() {
    let mut contract = pool_with_fee(30);
    contract.add_liquidity(10_000, 10_000).unwrap();

    let quote = contract.get_swap_quote(1000, true).unwrap();
    assert!(quote.amount_out > 0);
    assert!(quote.fee > 0);
    assert!(quote.amount_out < 1000);
}

#[test]
fn test_swap_zero_amount() {
    let contract = pool_with_fee(30);

    let result = contract.get_swap_quote(0, true);
    assert!(result.is_err());
}

#[test]
fn test_fee_cannot_exceed_10_percent() {
    let result = SwapContract::initialize(account(1), account(2), account(3), 1001);
    assert!(result.is_err());
}

#[test]
fn quote_exact_values() {
    let mut contract = pool_with_fee(30);
    contract.add_liquidity(10_000, 10_000).unwrap();
    // fee = 1000 * 30 / 10000 = 3; net = 997; out = 10000 * 997 / 10997 = 906
    let quote = contract.get_swap_quote(1000, true).unwrap();
    assert_eq!(
        quote,
        SwapQuote { amount_in: 1000, amount_out: 906, fee: 3, price_impact_pct: 1000 }
    );
}

#[test]
fn quote_in_either_direction() {
    let mut contract = pool_with_fee(30);
    contract.add_liquidity(10_000, 20_000).unwrap();
    // A to B: out = 20000 * 997 / 10997 = 1813
    assert_eq!(contract.get_swap_quote(1000, true).unwrap().amount_out, 1813);
    // B to A: out = 10000 * 997 / 20997 = 474; impact = 1000 * 10000 / 20000 = 500
    let back = contract.get_swap_quote(1000, false).unwrap();
    assert_eq!(back.amount_out, 474);
    assert_eq!(back.price_impact_pct, 500);
}

#[test]
fn fee_at_the_cap_is_accepted() {
    let contract = SwapContract::initialize(account(1), account(2), account(3), MAX_FEE_BPS);
    assert_eq!(contract.unwrap().get_pool_info().fee_bps, 1000);
    let refused = SwapContract::initialize(account(1), account(2), account(3), MAX_FEE_BPS + 1);
    assert_eq!(refused.unwrap_err(), SwapError::InvalidAmount);
}

#[test]
fn quote_on_an_empty_pool_is_refused() {
    let contract = pool_with_fee(30);
    assert_eq!(contract.get_swap_quote(1000, true), Err(SwapError::InsufficientLiquidity));
}

#[test]
fn quote_too_small_to_pay_anything() {
    let mut contract = pool_with_fee(30);
    contract.add_liquidity(10_000, 10).unwrap();
    // net = 1, out = 10 * 1 / 10001 = 0
    assert_eq!(contract.get_swap_quote(1, true), Err(SwapError::ZeroOutput));
}

#[test]
fn quote_overflow_is_reported() {
    let mut contract = pool_with_fee(30);
    contract.add_liquidity(10, 10).unwrap();
    assert_eq!(contract.get_swap_quote(u128::MAX, true), Err(SwapError::MathOverflow));
}

#[test]
fn swap_updates_reserves_and_pays_the_quote() {
    let mut contract = pool_with_fee(30);
    contract.add_liquidity(10_000, 10_000).unwrap();
    let quote = contract.get_swap_quote(1000, true).unwrap();
    let out = contract.swap(1000, 900, true).unwrap();
    assert_eq!(out, quote.amount_out);
    let info = contract.get_pool_info();
    assert_eq!(info.reserve_a, 11_000);
    assert_eq!(info.reserve_b, 10_000 - 906);
    assert!(info.reserve_a * info.reserve_b >= 10_000 * 10_000);
}

#[test]
fn swap_b_to_a_updates_the_other_side() {
    let mut contract = pool_with_fee(30);
    contract.add_liquidity(10_000, 10_000).unwrap();
    let out = contract.swap(1000, 0, false).unwrap();
    assert_eq!(out, 906);
    let info = contract.get_pool_info();
    assert_eq!(info.reserve_b, 11_000);
    assert_eq!(info.reserve_a, 9_094);
}

#[test]
fn swap_below_minimum_is_refused_and_changes_nothing() {
    let mut contract = pool_with_fee(30);
    contract.add_liquidity(10_000, 10_000).unwrap();
    let before = contract.get_pool_info();
    assert_eq!(contract.swap(1000, 990, true), Err(SwapError::SlippageExceeded));
    assert_eq!(contract.get_pool_info(), before);
}

#[test]
fn swap_overflowing_the_input_reserve_is_refused() {
    let mut contract = pool_with_fee(0);
    contract.add_liquidity(u128::MAX - 5, 100).unwrap();
    // net = 10, out = 100 * 10 / (MAX - 5 + 10) overflows the denominator
    assert_eq!(contract.swap(10, 0, true), Err(SwapError::MathOverflow));
}

#[test]
fn first_deposit_mints_initial_liquidity() {
    let mut contract = pool_with_fee(30);
    assert_eq!(contract.add_liquidity(1000, 2000), Ok(INITIAL_LIQUIDITY));
    assert_eq!(contract.get_pool_info().total_shares, 1000);
}

#[test]
fn later_deposit_mints_the_smaller_share() {
    let mut contract = pool_with_fee(30);
    contract.add_liquidity(1000, 2000).unwrap();
    // share_a = 500 * 1000 / 1000 = 500, share_b = 500 * 1000 / 2000 = 250
    assert_eq!(contract.add_liquidity(500, 500), Ok(250));
    let info = contract.get_pool_info();
    assert_eq!((info.reserve_a, info.reserve_b, info.total_shares), (1500, 2500, 1250));
}

#[test]
fn deposit_of_zero_is_refused() {
    let mut contract = pool_with_fee(30);
    assert_eq!(contract.add_liquidity(0, 5), Err(SwapError::InvalidAmount));
    assert_eq!(contract.add_liquidity(5, 0), Err(SwapError::InvalidAmount));
}

#[test]
fn withdrawal_pays_the_burnt_fraction() {
    let mut contract = pool_with_fee(30);
    contract.add_liquidity(1000, 2000).unwrap();
    assert_eq!(contract.remove_liquidity(250), Ok((250, 500)));
    let info = contract.get_pool_info();
    assert_eq!((info.reserve_a, info.reserve_b, info.total_shares), (750, 1500, 750));
}

#[test]
fn burning_every_share_empties_the_pool() {
    let mut contract = pool_with_fee(30);
    contract.add_liquidity(1234, 5678).unwrap();
    assert_eq!(contract.remove_liquidity(1000), Ok((1234, 5678)));
    let info = contract.get_pool_info();
    assert_eq!((info.reserve_a, info.reserve_b, info.total_shares), (0, 0, 0));
}

#[test]
fn withdrawal_errors() {
    let mut contract = pool_with_fee(30);
    contract.add_liquidity(1000, 2000).unwrap();
    assert_eq!(contract.remove_liquidity(0), Err(SwapError::InvalidAmount));
    assert_eq!(contract.remove_liquidity(1001), Err(SwapError::InsufficientLiquidity));
    let mut big = pool_with_fee(30);
    big.add_liquidity(u128::MAX / 2, 1).unwrap();
    assert_eq!(big.remove_liquidity(1000), Err(SwapError::MathOverflow));
    assert_eq!(big.get_pool_info().total_shares, 1000);
}

#[test]
fn pool_info_keeps_the_tokens() {
    let contract = pool_with_fee(30);
    let info: PoolInfo = contract.get_pool_info();
    assert_eq!(info.token_a, account(2));
    assert_eq!(info.token_b, account(3));
    assert_eq!(info.total_shares, 0);
}

fn shares_match_reserves(info: &PoolInfo) -> bool {
    (info.total_shares == 0) == (info.reserve_a == 0)
        && (info.total_shares == 0) == (info.reserve_b == 0)
}

#[test]
fn shares_outstanding_exactly_while_reserves_are_held() {
    let mut contract = pool_with_fee(30);
    assert!(shares_match_reserves(&contract.get_pool_info()));
    contract.add_liquidity(1000, 3000).unwrap();
    assert!(shares_match_reserves(&contract.get_pool_info()));
    contract.swap(500, 0, true).unwrap();
    contract.swap(2000, 0, false).unwrap();
    assert!(shares_match_reserves(&contract.get_pool_info()));
    contract.remove_liquidity(999).unwrap();
    let info = contract.get_pool_info();
    assert!(shares_match_reserves(&info));
    assert!(info.reserve_a > 0 && info.reserve_b > 0);
    contract.remove_liquidity(1).unwrap();
    let info = contract.get_pool_info();
    assert_eq!((info.reserve_a, info.reserve_b, info.total_shares), (0, 0, 0));
}
