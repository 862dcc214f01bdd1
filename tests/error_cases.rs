use cluster_lend::caps::WithdrawalCaps;
use cluster_lend::curve::{BorrowRateCurve, CurvePoint};
use cluster_lend::errors::LendingError;
use cluster_lend::fraction::{Fraction, FRACTION_ONE_SCALED};
use cluster_lend::liquidation::liquidate_obligation;
use cluster_lend::market::LendingMarket;
use cluster_lend::obligation::{Obligation, ObligationLiquidity};
use cluster_lend::operations::{
    borrow_obligation_liquidity, deposit_liquidity_collateral, deposit_obligation_collateral,
    redeem_reserve_collateral, refresh_reserve, repay_obligation_liquidity, withdraw_obligation_collateral,
};
use cluster_lend::refresh::refresh_obligation;
use cluster_lend::reserve::{FeeCalculation, Reserve, ReserveConfig, ReserveFees, TokenInfo};
use cluster_lend::types::{GetPriceResult, PriceStatusFlags, Pubkey};
use cluster_lend::wide::BigFraction;

const ONE: u128 = FRACTION_ONE_SCALED;
const SLOT: u64 = 50;
const TS: u64 = 1000;

fn key(n: u64) -> Pubkey {
    Pubkey::new_from_words(n, 7, 0, 0)
}

fn config() -> ReserveConfig {
    let caps = WithdrawalCaps {
        config_capacity: 0,
        current_total: 0,
        last_interval_start_timestamp: 0,
        config_interval_length_seconds: 0,
    };
    let full = CurvePoint { utilization_rate_bps: 10000, borrow_rate_bps: 2000 };
    let mut points = [full; 11];
    points[0] = CurvePoint { utilization_rate_bps: 0, borrow_rate_bps: 0 };
    ReserveConfig {
        status: 0,
        asset_tier: 0,
        protocol_take_rate_pct: 10,
        protocol_liquidation_fee_pct: 0,
        loan_to_value_pct: 50,
        liquidation_threshold_pct: 60,
        min_liquidation_bonus_bps: 100,
        max_liquidation_bonus_bps: 300,
        bad_debt_liquidation_bonus_bps: 10,
        deleveraging_margin_call_period_secs: 1,
        deleveraging_threshold_slots_per_bps: 1,
        fees: ReserveFees { borrow_fee_sf: 0, flash_loan_fee_sf: 0 },
        borrow_rate_curve: BorrowRateCurve { points },
        borrow_factor_pct: 100,
        deposit_limit: u64::MAX,
        borrow_limit: u64::MAX,
        token_info: TokenInfo {
            name: [0; 32],
            max_twap_divergence_bps: 0,
            max_age_price_seconds: 100,
            max_age_twap_seconds: 0,
            pyth_price: key(77),
        },
        deposit_withdrawal_cap: caps,
        debt_withdrawal_cap: caps,
    }
}

fn fresh_reserve(n: u64) -> Reserve {
    let mut r = Reserve::new(SLOT, key(2), key(n), 6, key(n + 1), key(n + 2), key(n + 3), key(n + 4));
    r.config = config();
    let p = GetPriceResult { price: Fraction::from_u64(1), timestamp: TS, status: PriceStatusFlags::all_checks() };
    refresh_reserve(&mut r, SLOT, TS, Some(p)).unwrap();
    r
}

fn market() -> LendingMarket {
    LendingMarket::new(key(1), 1, [0; 32])
}

#[test]
fn more_than_eight_collaterals() {
    let m = market();
    let mut ob = Obligation::new(0, SLOT, key(2), key(3));
    for i in 0..8u64 {
        let mut r = fresh_reserve(100 + 10 * i);
        deposit_obligation_collateral(&mut r, &mut ob, SLOT, 5, key(1000 + i), &m).unwrap();
    }
    let mut r = fresh_reserve(300);
    assert_eq!(deposit_obligation_collateral(&mut r, &mut ob, SLOT, 5, key(2000), &m), Err(LendingError::ObligationReserveLimit));
}

#[test]
fn index_going_down_is_refused() {
    let mut l = ObligationLiquidity::new(key(5), BigFraction::from_fraction(Fraction::from_u64(2)));
    assert_eq!(l.accrue_interest(BigFraction::from_fraction(Fraction::from_u64(1))), Err(LendingError::NegativeInterestRate));
    l.borrowed_amount_sf = 10 * ONE;
    assert!(l.accrue_interest(BigFraction::from_fraction(Fraction::from_u64(3))).is_ok());
    assert_eq!(l.borrowed_amount_sf, 15 * ONE);
}

#[test]
fn fees_that_take_everything_are_refused() {
    let fees = ReserveFees { borrow_fee_sf: (ONE / 2) as u64, flash_loan_fee_sf: 0 };
    assert_eq!(fees.calculate_borrow_fees(Fraction::from_u64(1), FeeCalculation::Exclusive), Err(LendingError::BorrowTooSmall));
    assert_eq!(fees.calculate_borrow_fees(Fraction::from_u64(10), FeeCalculation::Exclusive), Ok(5));
    // inclusive: rate / (1 + rate) = 1/3 of 30
    assert_eq!(fees.calculate_borrow_fees(Fraction::from_u64(30), FeeCalculation::Inclusive), Ok(10));
}

fn funded(amount: u64) -> (LendingMarket, Reserve, Obligation) {
    let m = market();
    let mut r = fresh_reserve(100);
    let mut ob = Obligation::new(0, SLOT, key(2), key(3));
    deposit_liquidity_collateral(&mut r, &mut ob, &m, SLOT, TS, amount, key(10)).unwrap();
    let p = GetPriceResult { price: Fraction::from_u64(1), timestamp: TS, status: PriceStatusFlags::all_checks() };
    refresh_reserve(&mut r, SLOT, TS, Some(p)).unwrap();
    refresh_obligation(&mut ob, &m, SLOT, &vec![key(10)], &vec![r]).unwrap();
    (m, r, ob)
}

#[test]
fn borrowing_past_the_available_liquidity() {
    let (m, mut r, mut ob) = funded(1_000_000);
    r.liquidity.available_amount = 10;
    assert_eq!(
        borrow_obligation_liquidity(&m, &mut r, &mut ob, 100, SLOT, TS, key(10)).map(|x| x.receive_amount),
        Err(LendingError::InsufficientLiquidity)
    );
}

#[test]
fn repaying_a_debt_that_is_not_there() {
    let (m, mut r, mut ob) = funded(1_000_000);
    assert_eq!(
        repay_obligation_liquidity(&mut r, &mut ob, SLOT, TS, 10, key(10), &m),
        Err(LendingError::InvalidObligationLiquidity)
    );
}

#[test]
fn withdrawing_from_an_active_reserve_beside_an_obsolete_one() {
    let (m, r, mut ob) = funded(1_000_000);
    ob.num_of_obsolete_reserves = 1;
    assert_eq!(
        withdraw_obligation_collateral(&m, &r, &mut ob, 10, SLOT, key(10)),
        Err(LendingError::ObligationInDeprecatedReserve)
    );
    ob.num_of_obsolete_reserves = 0;
    assert_eq!(
        withdraw_obligation_collateral(&m, &r, &mut ob, 10, SLOT, key(11)),
        Err(LendingError::InvalidObligationCollateral)
    );
}

#[test]
fn redeeming_against_the_withdrawal_cap() {
    let (_, mut r, _) = funded(1_000_000);
    r.config.deposit_withdrawal_cap = WithdrawalCaps {
        config_capacity: 100,
        current_total: 0,
        last_interval_start_timestamp: TS,
        config_interval_length_seconds: 60,
    };
    assert_eq!(redeem_reserve_collateral(&mut r, 101, SLOT, TS, true), Err(LendingError::WithdrawalCapReached));
}

#[test]
fn liquidation_refusals() {
    let (m, mut r, mut ob) = funded(1_000_000);
    borrow_obligation_liquidity(&m, &mut r, &mut ob, 400_000, SLOT, TS, key(10)).unwrap();
    let p = GetPriceResult { price: Fraction::from_u64(1), timestamp: TS, status: PriceStatusFlags::all_checks() };
    refresh_reserve(&mut r, SLOT, TS, Some(p)).unwrap();
    refresh_obligation(&mut ob, &m, SLOT, &vec![key(10), key(10)], &vec![r, r]).unwrap();
    let mut reserves = vec![r];
    assert_eq!(
        liquidate_obligation(&m, &mut reserves, 0, key(10), 0, key(10), &mut ob, SLOT, TS, 1_000, 0).map(|x| x.repay_amount),
        Err(LendingError::ObligationHealthy)
    );
    let mut zero_ltv = r;
    zero_ltv.config.loan_to_value_pct = 0;
    let mut reserves = vec![zero_ltv];
    assert_eq!(
        liquidate_obligation(&m, &mut reserves, 0, key(10), 0, key(10), &mut ob, SLOT, TS, 1_000, 0).map(|x| x.repay_amount),
        Err(LendingError::CollateralNonLiquidatable)
    );
    // make it unhealthy, then ask for more collateral than a small repayment earns
    let mut strict = r;
    strict.config.loan_to_value_pct = 20;
    strict.config.liquidation_threshold_pct = 30;
    refresh_obligation(&mut ob, &m, SLOT, &vec![key(10), key(10)], &vec![strict, strict]).unwrap();
    let mut reserves = vec![strict];
    assert_eq!(
        liquidate_obligation(&m, &mut reserves, 0, key(10), 0, key(10), &mut ob, SLOT, TS, 1_000, 1_000_000).map(|x| x.repay_amount),
        Err(LendingError::LiquidationSlippageError)
    );
}

#[test]
fn stale_price_clears_the_checks() {
    let mut r = fresh_reserve(100);
    assert!(r.last_update.price_status.price_loaded);
    // no new price and the stored one is older than the maximum age
    refresh_reserve(&mut r, SLOT + 1, TS + 500, None).unwrap();
    assert!(!r.last_update.price_status.price_loaded);
    assert_eq!(r.last_update.slot, SLOT + 1);
}
