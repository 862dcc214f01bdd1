use cluster_lend::caps::WithdrawalCaps;
use cluster_lend::config::{update_reserve_config, UpdateConfigMode};
use cluster_lend::curve::{BorrowRateCurve, CurvePoint};
use cluster_lend::errors::LendingError;
use cluster_lend::fraction::{Fraction, FRACTION_ONE_SCALED};
use cluster_lend::liquidation::{calculate_protocol_liquidation_fee, LiquidateAndRedeemResult};
use cluster_lend::market::LendingMarket;
use cluster_lend::obligation::Obligation;
use cluster_lend::operations::{
    borrow_obligation_liquidity, deposit_liquidity_collateral, deposit_reserve_liquidity, refresh_reserve,
};
use cluster_lend::process::{post_liquidation_vault_checks, process_deposit_reserve_liquidity};
use cluster_lend::refresh::refresh_obligation;
use cluster_lend::reserve::{Reserve, ReserveConfig, ReserveFees, TokenInfo};
use cluster_lend::types::{GetPriceResult, PriceStatusFlags, Pubkey};

const ONE: u128 = FRACTION_ONE_SCALED;
const SLOT: u64 = 70;
const TS: u64 = 500;

fn key(n: u64) -> Pubkey {
    Pubkey::new_from_words(n, 3, 3, 3)
}

fn fresh_reserve() -> Reserve {
    let caps = WithdrawalCaps {
        config_capacity: 0,
        current_total: 0,
        last_interval_start_timestamp: 0,
        config_interval_length_seconds: 0,
    };
    let mut points = [CurvePoint { utilization_rate_bps: 10000, borrow_rate_bps: 1000 }; 11];
    points[0] = CurvePoint { utilization_rate_bps: 0, borrow_rate_bps: 0 };
    let mut r = Reserve::new(SLOT, key(2), key(10), 6, key(11), key(12), key(13), key(14));
    r.config = ReserveConfig {
        status: 0,
        asset_tier: 0,
        protocol_take_rate_pct: 0,
        protocol_liquidation_fee_pct: 20,
        loan_to_value_pct: 50,
        liquidation_threshold_pct: 60,
        min_liquidation_bonus_bps: 100,
        max_liquidation_bonus_bps: 300,
        bad_debt_liquidation_bonus_bps: 10,
        deleveraging_margin_call_period_secs: 1,
        deleveraging_threshold_slots_per_bps: 1,
        fees: ReserveFees { borrow_fee_sf: 0, flash_loan_fee_sf: 0 },
        borrow_rate_curve: BorrowRateCurve { points },
        borrow_factor_pct: 100,
        deposit_limit: 1_000_000_000,
        borrow_limit: 1_000_000_000,
        token_info: TokenInfo {
            name: [0; 32],
            max_twap_divergence_bps: 0,
            max_age_price_seconds: 100,
            max_age_twap_seconds: 0,
            pyth_price: key(77),
        },
        deposit_withdrawal_cap: caps,
        debt_withdrawal_cap: caps,
    };
    let p = GetPriceResult { price: Fraction::from_u64(1), timestamp: TS, status: PriceStatusFlags::all_checks() };
    refresh_reserve(&mut r, SLOT, TS, Some(p)).unwrap();
    r
}

#[test]
fn deposit_over_the_limit_changes_nothing() {
    let mut r = fresh_reserve();
    r.config.deposit_limit = 10;
    let before = r;
    assert_eq!(deposit_reserve_liquidity(&mut r, SLOT, TS, 11), Err(LendingError::DepositLimitExceeded));
    assert_eq!(r.liquidity, before.liquidity);
    assert_eq!(r.collateral, before.collateral);
    assert_eq!(r.config.deposit_withdrawal_cap, before.config.deposit_withdrawal_cap);
}

#[test]
fn refused_borrow_changes_nothing() {
    let m = LendingMarket::new(key(1), 1, [0; 32]);
    let mut r = fresh_reserve();
    let mut ob = Obligation::new(0, SLOT, key(2), key(3));
    deposit_liquidity_collateral(&mut r, &mut ob, &m, SLOT, TS, 1_000_000, key(20)).unwrap();
    let p = GetPriceResult { price: Fraction::from_u64(1), timestamp: TS, status: PriceStatusFlags::all_checks() };
    refresh_reserve(&mut r, SLOT, TS, Some(p)).unwrap();
    refresh_obligation(&mut ob, &m, SLOT, &vec![key(20)], &vec![r]).unwrap();
    // a debt cap of 100 refuses a borrow of 200
    r.config.debt_withdrawal_cap = WithdrawalCaps {
        config_capacity: 100,
        current_total: 0,
        last_interval_start_timestamp: TS,
        config_interval_length_seconds: 60,
    };
    let before = r;
    let borrows_before = ob.borrows.clone();
    assert_eq!(
        borrow_obligation_liquidity(&m, &mut r, &mut ob, 200, SLOT, TS, key(20)).map(|x| x.receive_amount),
        Err(LendingError::WithdrawalCapReached)
    );
    assert_eq!(r.liquidity, before.liquidity);
    assert_eq!(r.config.debt_withdrawal_cap, before.config.debt_withdrawal_cap);
    assert_eq!(ob.borrows, borrows_before);
    // within the cap the borrow goes through and is counted
    let res = borrow_obligation_liquidity(&m, &mut r, &mut ob, 60, SLOT, TS, key(20)).unwrap();
    assert_eq!(res.receive_amount, 60);
    assert_eq!(r.config.debt_withdrawal_cap.current_total, 60);
}

#[test]
fn emergency_mode_stops_deposit_instructions() {
    let mut m = LendingMarket::new(key(1), 1, [0; 32]);
    m.emergency_mode = 1;
    let mut r = fresh_reserve();
    assert_eq!(
        process_deposit_reserve_liquidity(&m, &mut r, key(40), key(41), 10, SLOT, TS),
        Err(LendingError::GlobalEmergencyMode)
    );
}

#[test]
fn config_update_marks_the_reserve_stale() {
    let mut r = fresh_reserve();
    assert!(!r.last_update.stale);
    let mut value = [0u8; 32];
    value[0] = 40;
    assert!(update_reserve_config(&mut r, UpdateConfigMode::UpdateLoanToValuePct, &value).is_ok());
    assert_eq!(r.config.loan_to_value_pct, 40);
    assert!(r.last_update.stale);
}

#[test]
fn protocol_liquidation_fee_formula() {
    // 10% bonus: the bonus part of 1_100 is 100, 20% of it is 20
    let bonus = Fraction::from_percent(10);
    let fee = calculate_protocol_liquidation_fee(1_100, bonus, 20).unwrap();
    assert!(fee == 20 || fee == 21);
    assert_eq!(calculate_protocol_liquidation_fee(1_100, Fraction::zero(), 20), Ok(0));
}

#[test]
fn liquidation_vaults_reconcile_with_netting() {
    let res = LiquidateAndRedeemResult {
        repay_amount: 100,
        withdraw_amount: 150,
        withdraw_collateral_amount: 150,
        total_withdraw_liquidity_amount: Some((150, 3)),
    };
    // one shared vault: 100 in, 150 out, net 50 out
    assert!(post_liquidation_vault_checks(&res, true, 1000, 950, 800, 750, 1000, 950, 800, 750).is_ok());
    assert!(post_liquidation_vault_checks(&res, true, 1000, 900, 800, 750, 1000, 900, 800, 750).is_err());
    // two vaults: 150 out of one, 100 into the other
    assert!(post_liquidation_vault_checks(&res, false, 1000, 850, 800, 650, 500, 600, 400, 500).is_ok());
    let over = LiquidateAndRedeemResult { repay_amount: 200, ..res };
    assert_eq!(
        post_liquidation_vault_checks(&over, true, 1000, 950, 800, 750, 1000, 950, 800, 750),
        Err(LendingError::MathOverflow)
    );
    let _ = ONE;
}

#[test]
fn obligation_flags_are_the_intersection() {
    let m = LendingMarket::new(key(1), 1, [0; 32]);
    let mut a = fresh_reserve();
    let mut b = fresh_reserve();
    let mut ob = Obligation::new(0, SLOT, key(2), key(3));
    deposit_liquidity_collateral(&mut a, &mut ob, &m, SLOT, TS, 1_000, key(20)).unwrap();
    deposit_liquidity_collateral(&mut b, &mut ob, &m, SLOT, TS, 1_000, key(21)).unwrap();
    let all = GetPriceResult { price: Fraction::from_u64(1), timestamp: TS, status: PriceStatusFlags::all_checks() };
    let mut partial = PriceStatusFlags::all_checks();
    partial.twap_checked = false;
    let some = GetPriceResult { status: partial, ..all };
    refresh_reserve(&mut a, SLOT, TS, Some(all)).unwrap();
    refresh_reserve(&mut b, SLOT, TS, Some(some)).unwrap();
    refresh_obligation(&mut ob, &m, SLOT, &vec![key(20), key(21)], &vec![a, b]).unwrap();
    assert_eq!(ob.last_update.price_status, partial);
    // too few reserves handed in
    assert_eq!(refresh_obligation(&mut ob, &m, SLOT, &vec![key(20)], &vec![a]), Err(LendingError::InvalidAccountInput));
}
