use cluster_lend::checks::{
    borrow_obligation_liquidity_checks, deposit_reserve_liquidity_checks, flash_borrow_reserve_liquidity_checks,
    liquidate_obligation_checks, process_refresh_reserve, validate_token_info_config,
};
use cluster_lend::errors::LendingError;
use cluster_lend::fraction::FRACTION_ONE_SCALED;
use cluster_lend::market::LendingMarket;
use cluster_lend::oracle::RawPriceFeed;
use cluster_lend::reserve::Reserve;
use cluster_lend::types::Pubkey;

fn key(n: u64) -> Pubkey {
    Pubkey::new_from_words(n, 0, 0, 0)
}

fn reserve() -> Reserve {
    // liquidity vault key(4), collateral vault key(7)
    Reserve::new(10, key(2), key(3), 6, key(4), key(5), key(6), key(7))
}

#[test]
fn vault_accounts_cannot_be_user_accounts() {
    let mut r = reserve();
    assert!(deposit_reserve_liquidity_checks(&r, key(40), key(41)).is_ok());
    assert_eq!(deposit_reserve_liquidity_checks(&r, key(4), key(41)), Err(LendingError::InvalidAccountInput));
    assert_eq!(deposit_reserve_liquidity_checks(&r, key(40), key(7)), Err(LendingError::InvalidAccountInput));
    assert_eq!(borrow_obligation_liquidity_checks(&r, key(4)), Err(LendingError::InvalidAccountInput));
    assert_eq!(liquidate_obligation_checks(&r, &r, key(40), key(7)), Err(LendingError::InvalidAccountInput));
    r.config.status = 1;
    assert_eq!(borrow_obligation_liquidity_checks(&r, key(40)), Err(LendingError::ReserveObsolete));
    r.config.status = 0;
    r.version = 0;
    assert_eq!(borrow_obligation_liquidity_checks(&r, key(40)), Err(LendingError::ReserveDeprecated));
    r.version = 1;
    r.config.fees.flash_loan_fee_sf = u64::MAX;
    assert_eq!(flash_borrow_reserve_liquidity_checks(&r, key(40)), Err(LendingError::FlashLoansDisabled));
}

#[test]
fn refresh_reserve_reads_the_configured_feed() {
    let m = LendingMarket::new(key(1), 254, [0; 32]);
    let mut r = reserve();
    r.config.token_info.pyth_price = key(77);
    r.config.token_info.max_age_price_seconds = 100;
    let feed = RawPriceFeed { price: 250, conf: 1, expo: -2, publish_time: 100, ema_price: 250, ema_conf: 1, ema_publish_time: 100 };
    assert_eq!(validate_token_info_config(&r.config.token_info, Some(key(78))), Err(LendingError::InvalidPythPriceAccount));
    assert!(process_refresh_reserve(&mut r, &m, 11, 120, Some(key(77)), &Some(feed)).is_ok());
    assert_eq!(r.liquidity.market_price_sf, 5 * FRACTION_ONE_SCALED / 2);
    assert!(r.last_update.price_status.price_loaded && r.last_update.price_status.price_age_checked);
    assert_eq!(r.last_update.slot, 11);
    assert!(!r.last_update.stale);
    // a slot earlier than the last update is refused
    assert_eq!(process_refresh_reserve(&mut r, &m, 5, 120, Some(key(77)), &Some(feed)), Err(LendingError::MathOverflow));
}
