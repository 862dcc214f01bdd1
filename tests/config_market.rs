use cluster_lend::config::{decode_reserve_config, process_update_reserve, validate_reserve_config, RESERVE_CONFIG_BYTES};
use cluster_lend::errors::LendingError;
use cluster_lend::fraction::{Fraction, FRACTION_ONE_SCALED};
use cluster_lend::market::{update_market, update_market_owner, LendingMarket, MARKET_UPDATE_BYTES};
use cluster_lend::oracle::{get_price, get_validated_price, price_to_fraction, validate_confidence, RawPriceFeed, TimestampedPrice, CONFIDENCE_FACTOR};
use cluster_lend::reserve::Reserve;
use cluster_lend::types::Pubkey;

const ONE: u128 = FRACTION_ONE_SCALED;
const USDC_QUOTE_CURRENCY: [u8; 32] = [
    b'U', b'S', b'D', 0, 0, 0, 0, 0, 0, 0, 0, 0, 0, 0, 0, 0, 0, 0, 0, 0, 0, 0, 0, 0, 0, 0, 0, 0, 0, 0, 0, 0,
];

fn key(n: u64) -> Pubkey {
    Pubkey::new_from_words(n, 0, 0, 0)
}

#[test]
fn success_init_lending_market() {
    let m = LendingMarket::new(key(1), 254, USDC_QUOTE_CURRENCY);
    assert_eq!(m.quote_currency, USDC_QUOTE_CURRENCY);
    assert_eq!(m.owner, key(1));
    assert_eq!(m.liquidation_max_debt_close_factor_pct, 20);
    assert_eq!(m.min_net_value_in_obligation_sf, ONE / 1_000_000);
}

#[test]
fn success_update_lending_market() {
    let mut m = LendingMarket::new(key(1), 254, USDC_QUOTE_CURRENCY);
    let mut value = [0u8; 72];
    value[0] = 1;
    assert!(update_market(&mut m, key(1), 1, &value).is_ok());
    assert_eq!(m.emergency_mode, 1);
    value[0] = 2;
    assert_eq!(update_market(&mut m, key(1), 1, &value), Err(LendingError::InvalidFlag));
    let mut v = [0u8; MARKET_UPDATE_BYTES];
    v[..8].copy_from_slice(&1234u64.to_le_bytes());
    assert!(update_market(&mut m, key(1), 5, &v).is_ok());
    assert_eq!(m.global_allowed_borrow_value, 1234);
    v[..16].copy_from_slice(&(77u128).to_le_bytes());
    assert!(update_market(&mut m, key(1), 15, &v).is_ok());
    assert_eq!(m.min_net_value_in_obligation_sf, 77);
    assert_eq!(update_market(&mut m, key(1), 6, &v), Err(LendingError::InvalidFlag));
}

#[test]
fn success_update_lending_market_owner() {
    let mut m = LendingMarket::new(key(1), 254, USDC_QUOTE_CURRENCY);
    assert!(update_market_owner(&mut m, key(1), key(9)).is_ok());
    assert_eq!(m.quote_currency, USDC_QUOTE_CURRENCY);
    assert_eq!(m.owner, key(9));
}

#[test]
fn failure_update_lending_market_with_invalid_owner() {
    let mut m = LendingMarket::new(key(1), 254, USDC_QUOTE_CURRENCY);
    assert!(update_market_owner(&mut m, key(1), key(9)).is_ok());
    let mut value = [0u8; 72];
    value[0] = 1;
    let r = update_market(&mut m, key(1), 14, &value);
    assert!(r.is_err());
    assert_eq!(r, Err(LendingError::InvalidMarketOwner));
    assert_eq!(m.borrow_disabled, 0);
}

fn put_u64(b: &mut [u8], off: usize, v: u64) {
    b[off..off + 8].copy_from_slice(&v.to_le_bytes());
}

fn put_u16(b: &mut [u8], off: usize, v: u16) {
    b[off..off + 2].copy_from_slice(&v.to_le_bytes());
}

/// The serialized test configuration: active, regular, LTV 75, threshold 85.
fn test_config_bytes() -> Vec<u8> {
    let mut b = vec![0u8; RESERVE_CONFIG_BYTES];
    b[0] = 0;
    b[1] = 0;
    b[4] = 75;
    b[5] = 85;
    put_u16(&mut b, 6, 200);
    put_u16(&mut b, 8, 500);
    put_u16(&mut b, 10, 10);
    put_u64(&mut b, 16, 259200);
    put_u64(&mut b, 24, 7200);
    let points: [(u32, u32); 3] = [(0, 1), (100, 100), (10000, 100000)];
    for i in 0..11 {
        let (u, r) = if i < 3 { points[i] } else { points[2] };
        b[56 + 8 * i..60 + 8 * i].copy_from_slice(&u.to_le_bytes());
        b[60 + 8 * i..64 + 8 * i].copy_from_slice(&r.to_le_bytes());
    }
    put_u64(&mut b, 144, 100);
    put_u64(&mut b, 152, 10_000_000_000_000);
    put_u64(&mut b, 160, 10_000_000_000_000);
    put_u64(&mut b, 208, 1_000_000_000);
    put_u64(&mut b, 224, 77);
    b
}

#[test]
fn success_init_update_reserve() {
    let m = LendingMarket::new(key(1), 254, USDC_QUOTE_CURRENCY);
    let mk = key(2);
    let mut reserve = Reserve::new(10, mk, key(3), 6, key(4), key(5), key(6), key(7));
    assert_eq!(reserve.lending_market, mk);
    assert_eq!(reserve.config.status, 2);
    let bytes = test_config_bytes();
    assert!(process_update_reserve(&mut reserve, &m, mk, key(1), 10, 120, 25, &bytes).is_ok());
    assert_eq!(reserve.config.status, 0);
    assert_eq!(reserve.config.deleveraging_margin_call_period_secs, 259200);
    assert_eq!(reserve.config.borrow_rate_curve.points[2].borrow_rate_bps, 100000);
    let mut value = [0u8; 32];
    value[0] = 32;
    assert!(process_update_reserve(&mut reserve, &m, mk, key(1), 10, 120, 1, &value).is_ok());
    assert_eq!(reserve.config.loan_to_value_pct, 32);
    // an LTV above the liquidation threshold is refused
    value[0] = 90;
    assert_eq!(process_update_reserve(&mut reserve, &m, mk, key(1), 10, 120, 1, &value), Err(LendingError::InvalidConfig));
    assert_eq!(process_update_reserve(&mut reserve, &m, mk, key(9), 10, 120, 1, &value), Err(LendingError::InvalidMarketOwner));
    assert_eq!(process_update_reserve(&mut reserve, &m, mk, key(1), 10, 120, 99, &value), Err(LendingError::InvalidConfig));
}

#[test]
fn reserve_config_validation() {
    let bytes = test_config_bytes();
    let c = decode_reserve_config(&bytes);
    assert!(validate_reserve_config(&c).is_ok());
    let mut no_oracle = c;
    no_oracle.token_info.pyth_price = Pubkey::default_key();
    assert_eq!(validate_reserve_config(&no_oracle), Err(LendingError::InvalidOracleConfig));
    let mut twap = c;
    twap.token_info.max_twap_divergence_bps = 100;
    assert_eq!(validate_reserve_config(&twap), Err(LendingError::InvalidTwapConfig));
    let mut iso = c;
    iso.asset_tier = 2;
    assert_eq!(validate_reserve_config(&iso), Err(LendingError::InvalidConfig));
    let mut curve = c;
    curve.borrow_rate_curve.points[10].utilization_rate_bps = 9000;
    assert_eq!(validate_reserve_config(&curve), Err(LendingError::InvalidBorrowRateCurvePoint));
}

#[test]
fn oracle_confidence_and_conversion() {
    assert_eq!(validate_confidence(0, 0, CONFIDENCE_FACTOR), Err(LendingError::PriceIsZero));
    assert_eq!(validate_confidence(100, 3, CONFIDENCE_FACTOR), Err(LendingError::PriceConfidenceTooWide));
    assert!(validate_confidence(100, 2, CONFIDENCE_FACTOR).is_ok());
    let p = TimestampedPrice { value: 150, exp: 2, timestamp: 5 };
    assert_eq!(price_to_fraction(&p).unwrap().bits, 3 * ONE / 2);
}

#[test]
fn oracle_flags_set_independently() {
    let m = LendingMarket::new(key(1), 254, USDC_QUOTE_CURRENCY);
    let mut reserve = Reserve::new(10, key(2), key(3), 6, key(4), key(5), key(6), key(7));
    process_update_reserve(&mut reserve, &m, key(2), key(1), 10, 120, 25, &test_config_bytes()).unwrap();
    let mut info = reserve.config.token_info;
    info.max_age_price_seconds = 60;
    info.max_twap_divergence_bps = 100;
    info.max_age_twap_seconds = 60;
    let price = TimestampedPrice { value: 100_000, exp: 5, timestamp: 100 };
    let twap = TimestampedPrice { value: 100_500, exp: 5, timestamp: 100 };
    let fresh = get_validated_price(&price, &Some(twap), &info, 120).unwrap();
    assert_eq!(fresh.price, Fraction::from_u64(1));
    assert!(fresh.status.price_loaded && fresh.status.price_age_checked);
    assert!(fresh.status.twap_checked && fresh.status.twap_age_checked);
    let old = get_validated_price(&price, &Some(twap), &info, 500).unwrap();
    assert!(old.status.price_loaded && !old.status.price_age_checked && !old.status.twap_age_checked);
    let far = TimestampedPrice { value: 102_000, exp: 5, timestamp: 100 };
    let diverging = get_validated_price(&price, &Some(far), &info, 120).unwrap();
    assert!(!diverging.status.twap_checked && diverging.status.twap_age_checked);
    let missing = get_validated_price(&price, &None, &info, 120).unwrap();
    assert!(!missing.status.twap_checked && !missing.status.twap_age_checked && missing.status.price_age_checked);
    let feed = RawPriceFeed { price: 100_000, conf: 10, expo: -5, publish_time: 100, ema_price: 100_000, ema_conf: 10, ema_publish_time: 100 };
    let got = get_price(&info, &Some(feed), 120).unwrap().unwrap();
    assert_eq!(got.price.bits, ONE);
    assert_eq!(get_price(&info, &None, 120), Err(LendingError::PriceNotValid));
    let zero = RawPriceFeed { price: 0, ..feed };
    assert_eq!(get_price(&info, &Some(zero), 120), Err(LendingError::PriceIsZero));
}
