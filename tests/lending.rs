use cluster_lend::caps::WithdrawalCaps;
use cluster_lend::curve::{BorrowRateCurve, CurvePoint};
use cluster_lend::errors::LendingError;
use cluster_lend::fraction::{Fraction, FRACTION_ONE_SCALED};
use cluster_lend::liquidation::{liquidate_and_redeem, liquidate_obligation};
use cluster_lend::market::LendingMarket;
use cluster_lend::obligation::{check_init_obligation_args, validate_obligation_asset_tiers, Obligation};
use cluster_lend::operations::{
    borrow_obligation_liquidity, deposit_liquidity_collateral, deposit_obligation_collateral,
    deposit_reserve_liquidity, emergency_mode_disabled, flash_borrow_reserve_liquidity,
    flash_repay_reserve_liquidity, post_transfer_vault_balance_liquidity_reserve_checks,
    redeem_fees, redeem_reserve_collateral, refresh_reserve, repay_obligation_liquidity,
    withdraw_obligation_collateral, LendingAction,
};
use cluster_lend::process::{
    process_borrow_obligation_liquidity, process_deposit_reserve_liquidity, process_flash_borrow_reserve,
    liquidation_net_withdrawal, process_flash_repay_reserve, process_redeem_reserve_collateral,
    process_withdraw_obligation_collateral,
};
use cluster_lend::refresh::refresh_obligation;
use cluster_lend::transaction::{IxKind, TxContext, TxInstruction};
use cluster_lend::reserve::{approximate_compounded_interest, Reserve, ReserveConfig, ReserveFees, TokenInfo};
use cluster_lend::types::{GetPriceResult, PriceStatusFlags, Pubkey};
use cluster_lend::wide::BigFraction;

const ONE: u128 = FRACTION_ONE_SCALED;
const SLOT: u64 = 1000;
const TS: u64 = 120;

fn key(n: u64) -> Pubkey {
    Pubkey::new_from_words(n, 0, 0, 0)
}

fn test_curve() -> BorrowRateCurve {
    let full = CurvePoint { utilization_rate_bps: 10000, borrow_rate_bps: 100000 };
    let mut points = [full; 11];
    points[0] = CurvePoint { utilization_rate_bps: 0, borrow_rate_bps: 1 };
    points[1] = CurvePoint { utilization_rate_bps: 100, borrow_rate_bps: 100 };
    BorrowRateCurve { points }
}

fn test_config() -> ReserveConfig {
    let caps = WithdrawalCaps {
        config_capacity: 0,
        current_total: 0,
        last_interval_start_timestamp: 0,
        config_interval_length_seconds: 0,
    };
    ReserveConfig {
        status: 0,
        asset_tier: 0,
        protocol_take_rate_pct: 0,
        protocol_liquidation_fee_pct: 0,
        loan_to_value_pct: 75,
        liquidation_threshold_pct: 85,
        min_liquidation_bonus_bps: 200,
        max_liquidation_bonus_bps: 500,
        bad_debt_liquidation_bonus_bps: 10,
        deleveraging_margin_call_period_secs: 259200,
        deleveraging_threshold_slots_per_bps: 7200,
        fees: ReserveFees { borrow_fee_sf: 0, flash_loan_fee_sf: 0 },
        borrow_rate_curve: test_curve(),
        borrow_factor_pct: 100,
        deposit_limit: 10_000_000_000_000,
        borrow_limit: 10_000_000_000_000,
        token_info: TokenInfo {
            name: [0; 32],
            max_twap_divergence_bps: 0,
            max_age_price_seconds: 1_000_000_000,
            max_age_twap_seconds: 0,
            pyth_price: key(77),
        },
        deposit_withdrawal_cap: caps,
        debt_withdrawal_cap: caps,
    }
}

fn price(p: Fraction) -> Option<GetPriceResult> {
    Some(GetPriceResult { price: p, timestamp: TS, status: PriceStatusFlags::all_checks() })
}

fn usdc_reserve(market_key: Pubkey, mint: u64) -> Reserve {
    let mut r = Reserve::new(SLOT, market_key, key(mint), 6, key(mint + 1), key(mint + 2), key(mint + 3), key(mint + 4));
    r.config = test_config();
    refresh_reserve(&mut r, SLOT, TS, price(Fraction::from_u64(1))).unwrap();
    r
}

fn market() -> (LendingMarket, Pubkey) {
    (LendingMarket::new(key(1), 255, [7; 32]), key(2))
}

#[test]
fn success_deposit_withdraw() {
    let (m, mk) = market();
    let rk = key(10);
    let mut reserve = usdc_reserve(mk, 100);
    let mut ob = Obligation::new(0, SLOT, mk, key(3));
    let vault_before: u64 = 0;
    let avail_before = reserve.liquidity.available_amount;
    let deposit_amount = 1_000_000;
    let c = deposit_liquidity_collateral(&mut reserve, &mut ob, &m, SLOT, TS, deposit_amount, rk).unwrap();
    assert_eq!(c, 1_000_000);
    assert_eq!(reserve.liquidity.available_amount, 1_000_000);
    assert_eq!(reserve.collateral.mint_total_supply, 1_000_000);
    assert_eq!(ob.deposits[0].deposited_amount, 1_000_000);
    let vault_after = vault_before + deposit_amount;
    assert!(post_transfer_vault_balance_liquidity_reserve_checks(
        vault_after,
        reserve.liquidity.available_amount,
        vault_before,
        avail_before,
        LendingAction::Additive(deposit_amount),
    )
    .is_ok());
    refresh_reserve(&mut reserve, SLOT, TS, price(Fraction::from_u64(1))).unwrap();
    refresh_obligation(&mut ob, &m, SLOT, &vec![rk], &vec![reserve]).unwrap();
    assert_eq!(ob.deposited_value_sf, ONE);
    let w = withdraw_obligation_collateral(&m, &reserve, &mut ob, 1000, SLOT, rk).unwrap();
    assert_eq!(w, 1000);
    assert_eq!(ob.deposits[0].deposited_amount, 999_000);
    let l = redeem_reserve_collateral(&mut reserve, 1000, SLOT, TS, true).unwrap();
    assert_eq!(l, 1000);
    assert_eq!(reserve.liquidity.available_amount, 999_000);
    assert_eq!(reserve.collateral.mint_total_supply, 999_000);
}

#[test]
fn deposit_redeem_round_trip_on_empty_reserve() {
    let (_, mk) = market();
    let mut reserve = usdc_reserve(mk, 100);
    let c = deposit_reserve_liquidity(&mut reserve, SLOT, TS, 12_345).unwrap();
    assert_eq!(c, 12_345);
    refresh_reserve(&mut reserve, SLOT, TS, None).unwrap();
    let y = redeem_reserve_collateral(&mut reserve, c, SLOT, TS, false).unwrap();
    assert_eq!(y, 12_345);
    assert_eq!(reserve.liquidity.available_amount, 0);
}

#[test]
fn deposit_errors() {
    let (_, mk) = market();
    let mut reserve = usdc_reserve(mk, 100);
    assert_eq!(deposit_reserve_liquidity(&mut reserve, SLOT, TS, 0), Err(LendingError::InvalidAmount));
    assert_eq!(deposit_reserve_liquidity(&mut reserve, SLOT + 1, TS, 5), Err(LendingError::ReserveStale));
    reserve.config.deposit_limit = 100;
    assert_eq!(deposit_reserve_liquidity(&mut reserve, SLOT, TS, 101), Err(LendingError::DepositLimitExceeded));
    assert_eq!(deposit_reserve_liquidity(&mut reserve, SLOT, TS, 100), Ok(100));
    // the deposit marks the reserve stale
    assert_eq!(deposit_reserve_liquidity(&mut reserve, SLOT, TS, 1), Err(LendingError::ReserveStale));
}

fn funded_obligation(m: &LendingMarket, mk: Pubkey, rk: Pubkey, amount: u64) -> (Reserve, Obligation) {
    let mut reserve = usdc_reserve(mk, 100);
    let mut ob = Obligation::new(0, SLOT, mk, key(3));
    deposit_liquidity_collateral(&mut reserve, &mut ob, m, SLOT, TS, amount, rk).unwrap();
    refresh_reserve(&mut reserve, SLOT, TS, price(Fraction::from_u64(1))).unwrap();
    refresh_obligation(&mut ob, m, SLOT, &vec![rk], &vec![reserve]).unwrap();
    (reserve, ob)
}

#[test]
fn success_borrow_repay() {
    let (m, mk) = market();
    let rk = key(10);
    let (mut reserve, mut ob) = funded_obligation(&m, mk, rk, 1_000_000);
    let before = reserve.liquidity.borrowed_amount_sf;
    let res = borrow_obligation_liquidity(&m, &mut reserve, &mut ob, 300_000, SLOT, TS, rk).unwrap();
    assert_eq!(res.receive_amount, 300_000);
    assert_eq!(res.borrow_fee, 0);
    assert_eq!(res.borrow_amount_f.bits, 300_000 * ONE);
    assert_eq!(reserve.liquidity.available_amount, 700_000);
    assert_eq!(reserve.liquidity.borrowed_amount_sf, 300_000 * ONE);
    assert_eq!(ob.has_debt, 1);
    assert_eq!(ob.borrows[0].borrowed_amount_sf, 300_000 * ONE);
    assert!(validate_obligation_asset_tiers(&ob).is_ok());
    // repay everything in the same slot
    refresh_reserve(&mut reserve, SLOT, TS, price(Fraction::from_u64(1))).unwrap();
    refresh_obligation(&mut ob, &m, SLOT, &vec![rk, rk], &vec![reserve, reserve]).unwrap();
    let repaid = repay_obligation_liquidity(&mut reserve, &mut ob, SLOT, TS, u64::MAX, rk, &m).unwrap();
    assert_eq!(repaid, 300_000);
    assert_eq!(ob.borrows[0].borrowed_amount_sf, 0);
    assert_eq!(reserve.liquidity.borrowed_amount_sf, before);
    assert_eq!(reserve.liquidity.available_amount, 1_000_000);
    assert_eq!(ob.has_debt, 0);
}

#[test]
fn borrow_refused_cases() {
    let (m, mk) = market();
    let rk = key(10);
    let (mut reserve, mut ob) = funded_obligation(&m, mk, rk, 1_000_000);
    assert_eq!(
        borrow_obligation_liquidity(&m, &mut reserve, &mut ob, 0, SLOT, TS, rk).map(|r| r.receive_amount),
        Err(LendingError::InvalidAmount)
    );
    assert_eq!(
        borrow_obligation_liquidity(&m, &mut reserve, &mut ob, 800_000, SLOT, TS, rk).map(|r| r.receive_amount),
        Err(LendingError::BorrowTooLarge)
    );
    let mut disabled = m;
    disabled.borrow_disabled = 1;
    assert_eq!(
        borrow_obligation_liquidity(&disabled, &mut reserve, &mut ob, 10, SLOT, TS, rk).map(|r| r.receive_amount),
        Err(LendingError::BorrowingDisabled)
    );
    reserve.config.borrow_limit = 5;
    assert_eq!(
        borrow_obligation_liquidity(&m, &mut reserve, &mut ob, 10, SLOT, TS, rk).map(|r| r.receive_amount),
        Err(LendingError::BorrowLimitExceeded)
    );
    let mut emergency = m;
    emergency.emergency_mode = 1;
    assert_eq!(emergency_mode_disabled(&emergency), Err(LendingError::GlobalEmergencyMode));
    assert!(emergency_mode_disabled(&m).is_ok());
}

#[test]
fn interest_accrues_over_a_year() {
    let (m, mk) = market();
    let rk = key(10);
    let (mut reserve, mut ob) = funded_obligation(&m, mk, rk, 1_000_000);
    borrow_obligation_liquidity(&m, &mut reserve, &mut ob, 500_000, SLOT, TS, rk).unwrap();
    let index_before = reserve.liquidity.cumulative_borrow_rate_bsf;
    let later = SLOT + cluster_lend::constants::SLOTS_PER_YEAR;
    let rate = reserve.current_borrow_rate().unwrap();
    // utilization one half on the test curve
    assert_eq!(rate.bits, 5712202000097560017);
    let growth = approximate_compounded_interest(rate, cluster_lend::constants::SLOTS_PER_YEAR).unwrap();
    refresh_reserve(&mut reserve, later, TS, price(Fraction::from_u64(1))).unwrap();
    assert!(reserve.liquidity.cumulative_borrow_rate_bsf.lo > index_before.lo);
    assert_eq!(reserve.liquidity.cumulative_borrow_rate_bsf, BigFraction { hi: 0, lo: growth.bits });
    assert_eq!(reserve.liquidity.borrowed_amount_sf, 500_000 * growth.bits);
    let got = reserve.liquidity.borrowed_amount_sf as f64 / ONE as f64;
    let r = rate.bits as f64 / ONE as f64;
    // within the third-order Taylor bound of the exact growth
    assert!(got > 500_000.0 * (1.0 + r) && got < 500_000.0 * r.exp());
    assert_eq!(reserve.liquidity.accumulated_protocol_fees_sf, 0);
    // a later refresh of the obligation sees the grown debt
    refresh_obligation(&mut ob, &m, later, &vec![rk, rk], &vec![reserve, reserve]).unwrap();
    assert!(ob.borrows[0].borrowed_amount_sf > 500_000 * ONE);
}

#[test]
fn liquidation_is_capped_by_close_factor() {
    let (m, mk) = market();
    let ck = key(10);
    let dk = key(20);
    let mut coll = usdc_reserve(mk, 100);
    let mut debt = usdc_reserve(mk, 200);
    let mut ob = Obligation::new(0, SLOT, mk, key(3));
    deposit_liquidity_collateral(&mut coll, &mut ob, &m, SLOT, TS, 100_000_000, ck).unwrap();
    deposit_reserve_liquidity(&mut debt, SLOT, TS, 100_000_000).unwrap();
    refresh_reserve(&mut coll, SLOT, TS, price(Fraction::from_u64(1))).unwrap();
    refresh_reserve(&mut debt, SLOT, TS, price(Fraction::from_u64(1))).unwrap();
    refresh_obligation(&mut ob, &m, SLOT, &vec![ck], &vec![coll]).unwrap();
    borrow_obligation_liquidity(&m, &mut debt, &mut ob, 70_000_000, SLOT, TS, dk).unwrap();
    // collateral price drops by 20%
    refresh_reserve(&mut coll, SLOT, TS, price(Fraction::from_percent(80))).unwrap();
    refresh_reserve(&mut debt, SLOT, TS, price(Fraction::from_u64(1))).unwrap();
    refresh_obligation(&mut ob, &m, SLOT, &vec![ck, dk], &vec![coll, debt]).unwrap();
    assert!(ob.borrow_factor_adjusted_debt_value_sf > ob.unhealthy_borrow_value_sf);
    let mut reserves = vec![debt, coll];
    let res = liquidate_obligation(&m, &mut reserves, 0, dk, 1, ck, &mut ob, SLOT, TS, u64::MAX, 0).unwrap();
    assert!(res.repay_amount >= 13_999_999 && res.repay_amount <= 14_000_001);
    assert!(res.withdraw_amount >= 17_937_400 && res.withdraw_amount <= 17_937_600);
    let bonus = res.liquidation_bonus_rate.bits as f64 / ONE as f64;
    assert!((bonus - 0.025).abs() < 1e-6);
    assert_eq!(res.withdraw_collateral_amount, res.withdraw_amount);
}

#[test]
fn healthy_obligation_is_not_liquidated() {
    let (m, mk) = market();
    let rk = key(10);
    let (reserve, mut ob) = funded_obligation(&m, mk, rk, 1_000_000);
    let mut reserves = vec![reserve];
    assert_eq!(
        liquidate_obligation(&m, &mut reserves, 0, rk, 0, rk, &mut ob, SLOT, TS, 10, 0).map(|r| r.repay_amount),
        Err(LendingError::ObligationBorrowsZero)
    );
}

#[test]
fn flash_loan_leaves_reserve_unchanged_but_fee() {
    let (_, mk) = market();
    let mut reserve = usdc_reserve(mk, 100);
    reserve.config.fees.flash_loan_fee_sf = (ONE / 1000) as u64;
    deposit_reserve_liquidity(&mut reserve, SLOT, TS, 10_000).unwrap();
    let before = reserve.liquidity;
    flash_borrow_reserve_liquidity(&mut reserve, 1_000).unwrap();
    assert_eq!(reserve.liquidity.available_amount, 9_000);
    let (amount, fee) = flash_repay_reserve_liquidity(&mut reserve, 1_000, SLOT).unwrap();
    assert_eq!(amount, 1_000);
    assert_eq!(fee, 1);
    assert_eq!(reserve.liquidity.available_amount, before.available_amount);
    assert_eq!(reserve.liquidity.borrowed_amount_sf, before.borrowed_amount_sf);
    reserve.config.fees.flash_loan_fee_sf = u64::MAX;
    assert_eq!(flash_borrow_reserve_liquidity(&mut reserve, 1), Err(LendingError::FlashLoansDisabled));
}

#[test]
fn isolated_tier_violation() {
    let (m, mk) = market();
    let ak = key(10);
    let bk = key(20);
    let mut a = usdc_reserve(mk, 100);
    a.config.asset_tier = 1;
    a.config.borrow_limit = 0;
    let mut b = usdc_reserve(mk, 200);
    let mut ob = Obligation::new(0, SLOT, mk, key(3));
    deposit_obligation_collateral(&mut a, &mut ob, SLOT, 1_000, ak, &m).unwrap();
    assert_eq!(
        deposit_obligation_collateral(&mut b, &mut ob, SLOT, 1_000, bk, &m),
        Err(LendingError::IsolatedAssetTierViolation)
    );
}

#[test]
fn redeem_protocol_fees() {
    let (_, mk) = market();
    let mut reserve = usdc_reserve(mk, 100);
    assert_eq!(redeem_fees(&mut reserve, SLOT), Err(LendingError::InsufficientProtocolFeesToRedeem));
    reserve.liquidity.available_amount = 50;
    reserve.liquidity.accumulated_protocol_fees_sf = 30 * ONE + ONE / 2;
    assert_eq!(redeem_fees(&mut reserve, SLOT), Ok(30));
    assert_eq!(reserve.liquidity.available_amount, 20);
    assert_eq!(reserve.liquidity.accumulated_protocol_fees_sf, ONE / 2);
}

#[test]
fn balance_reconciliation_mismatches() {
    assert!(post_transfer_vault_balance_liquidity_reserve_checks(90, 40, 100, 50, LendingAction::Subtractive(10)).is_ok());
    assert_eq!(
        post_transfer_vault_balance_liquidity_reserve_checks(90, 41, 100, 50, LendingAction::Subtractive(10)),
        Err(LendingError::ReserveTokenBalanceMismatch)
    );
    assert_eq!(
        post_transfer_vault_balance_liquidity_reserve_checks(91, 41, 100, 50, LendingAction::Subtractive(10)),
        Err(LendingError::ReserveVaultBalanceMismatch)
    );
}

#[test]
fn success_init_update_obligation() {
    let (m, mk) = market();
    assert!(check_init_obligation_args(0, 0, Pubkey::default_key(), Pubkey::default_key()).is_ok());
    assert_eq!(
        check_init_obligation_args(0, 1, Pubkey::default_key(), Pubkey::default_key()),
        Err(LendingError::InvalidObligationId)
    );
    assert_eq!(
        check_init_obligation_args(0, 0, key(5), Pubkey::default_key()),
        Err(LendingError::InvalidObligationSeedsValue)
    );
    let mut ob = Obligation::new(0, SLOT, mk, key(3));
    assert_eq!(ob.lending_market, mk);
    assert_eq!(ob.tag, 0);
    assert!(refresh_obligation(&mut ob, &m, SLOT, &vec![], &vec![]).is_ok());
    assert!(!ob.last_update.stale);
}

fn tx_ix(kind: IxKind, accounts: Vec<Pubkey>) -> TxInstruction {
    TxInstruction { program_id: key(999), kind, liquidity_amount: 0, borrow_instruction_index: 0, accounts }
}

#[test]
fn borrow_needs_refreshes_right_before_it() {
    let (m, mk) = market();
    let rk = key(10);
    let ok = key(11);
    let (mut reserve, mut ob) = funded_obligation(&m, mk, rk, 1_000_000);
    let alone = TxContext { instructions: vec![tx_ix(IxKind::Other, vec![])], current_index: 0, top_level: true };
    assert_eq!(
        process_borrow_obligation_liquidity(&alone, key(999), &m, &mut reserve, rk, &mut ob, ok, key(40), 1_000, SLOT, TS)
            .map(|r| r.receive_amount),
        Err(LendingError::IncorrectInstructionInPosition)
    );
    let refreshed = TxContext {
        instructions: vec![
            tx_ix(IxKind::RefreshReserve, vec![rk]),
            tx_ix(IxKind::RefreshObligation, vec![mk, ok]),
            tx_ix(IxKind::Other, vec![]),
        ],
        current_index: 2,
        top_level: true,
    };
    let res = process_borrow_obligation_liquidity(&refreshed, key(999), &m, &mut reserve, rk, &mut ob, ok, key(40), 1_000, SLOT, TS)
        .unwrap();
    assert_eq!(res.receive_amount, 1_000);
}

#[test]
fn emergency_mode_stops_borrows() {
    let (m, mk) = market();
    let rk = key(10);
    let (mut reserve, mut ob) = funded_obligation(&m, mk, rk, 1_000_000);
    let mut emergency = m;
    emergency.emergency_mode = 1;
    assert_eq!(
        borrow_obligation_liquidity(&emergency, &mut reserve, &mut ob, 10, SLOT, TS, rk).map(|r| r.receive_amount),
        Err(LendingError::GlobalEmergencyMode)
    );
}

#[test]
fn flash_loan_instructions_in_one_transaction() {
    let (m, mk) = market();
    let rk = key(10);
    let mut reserve = usdc_reserve(mk, 100);
    reserve.config.fees.flash_loan_fee_sf = (ONE / 1000) as u64;
    process_deposit_reserve_liquidity(&m, &mut reserve, key(40), key(41), 10_000, SLOT, TS).unwrap();
    let accounts = vec![key(1), key(2), key(3), rk, key(5)];
    let ixs = vec![
        TxInstruction { program_id: key(999), kind: IxKind::FlashBorrow, liquidity_amount: 1_000, borrow_instruction_index: 0, accounts: accounts.clone() },
        TxInstruction { program_id: key(999), kind: IxKind::FlashRepay, liquidity_amount: 1_000, borrow_instruction_index: 0, accounts },
    ];
    let before = reserve.liquidity;
    let at_borrow = TxContext { instructions: ixs.clone(), current_index: 0, top_level: true };
    process_flash_borrow_reserve(&at_borrow, key(999), &m, &mut reserve, key(40), 1_000).unwrap();
    let at_repay = TxContext { instructions: ixs, current_index: 1, top_level: true };
    let (amount, fee) = process_flash_repay_reserve(&at_repay, key(999), &m, &mut reserve, rk, key(40), 1_000, 0, SLOT).unwrap();
    assert_eq!((amount, fee), (1_000, 1));
    assert_eq!(reserve.liquidity.available_amount, before.available_amount);
    assert_eq!(reserve.liquidity.borrowed_amount_sf, before.borrowed_amount_sf);
    // the vault received the deposit: 10_000 in, available 10_000
    assert_eq!(process_redeem_reserve_collateral(&m, &mut reserve, key(41), key(40), 4_000, SLOT, TS), Ok(4_000));
    assert_eq!(reserve.liquidity.available_amount, 6_000);
    assert_eq!(
        process_deposit_reserve_liquidity(&m, &mut reserve, key(101), key(41), 10, SLOT, TS),
        Err(LendingError::InvalidAccountInput)
    );
}

#[test]
fn withdraw_with_debt_needs_refreshes_and_borrowing_power() {
    let (m, mk) = market();
    let rk = key(10);
    let ok = key(11);
    let (mut reserve, mut ob) = funded_obligation(&m, mk, rk, 1_000_000);
    borrow_obligation_liquidity(&m, &mut reserve, &mut ob, 600_000, SLOT, TS, rk).unwrap();
    refresh_reserve(&mut reserve, SLOT, TS, price(Fraction::from_u64(1))).unwrap();
    refresh_obligation(&mut ob, &m, SLOT, &vec![rk, rk], &vec![reserve, reserve]).unwrap();
    let alone = TxContext { instructions: vec![tx_ix(IxKind::Other, vec![])], current_index: 0, top_level: true };
    assert_eq!(
        process_withdraw_obligation_collateral(&alone, key(999), &m, &reserve, rk, &mut ob, ok, key(40), 1_000, SLOT),
        Err(LendingError::IncorrectInstructionInPosition)
    );
    let refreshed = TxContext {
        instructions: vec![
            tx_ix(IxKind::RefreshReserve, vec![rk]),
            tx_ix(IxKind::RefreshObligation, vec![mk, ok]),
            tx_ix(IxKind::Other, vec![]),
        ],
        current_index: 2,
        top_level: true,
    };
    // allowed 0.75, debt 0.6: at most (0.75 - 0.6) / 0.75 = 0.2 of the value may leave
    assert_eq!(
        process_withdraw_obligation_collateral(&refreshed, key(999), &m, &reserve, rk, &mut ob, ok, key(40), 300_000, SLOT),
        Err(LendingError::WithdrawTooLarge)
    );
    let w = process_withdraw_obligation_collateral(&refreshed, key(999), &m, &reserve, rk, &mut ob, ok, key(40), u64::MAX, SLOT)
        .unwrap();
    assert!(w >= 199_999 && w <= 200_000);
}

#[test]
fn liquidation_within_one_reserve() {
    let (m, mk) = market();
    let rk = key(10);
    let (mut reserve, mut ob) = funded_obligation(&m, mk, rk, 100_000_000);
    borrow_obligation_liquidity(&m, &mut reserve, &mut ob, 70_000_000, SLOT, TS, rk).unwrap();
    // the collateral now counts for less: the obligation becomes unhealthy
    reserve.config.loan_to_value_pct = 40;
    reserve.config.liquidation_threshold_pct = 50;
    refresh_reserve(&mut reserve, SLOT, TS, price(Fraction::from_u64(1))).unwrap();
    refresh_obligation(&mut ob, &m, SLOT, &vec![rk, rk], &vec![reserve, reserve]).unwrap();
    let available_before = reserve.liquidity.available_amount;
    let mut reserves = vec![reserve];
    let res = liquidate_and_redeem(&m, &mut reserves, 0, rk, 0, rk, &mut ob, SLOT, TS, 1_000_000, 0).unwrap();
    assert_eq!(res.repay_amount, 1_000_000);
    let (redeemed, fee) = res.total_withdraw_liquidity_amount.unwrap();
    assert!(redeemed > res.repay_amount);
    assert!(fee <= redeemed);
    // one vault: the net outflow is what was redeemed less what was repaid
    assert_eq!(liquidation_net_withdrawal(&res, true), Ok(Some(redeemed - res.repay_amount)));
    assert_eq!(reserves[0].liquidity.available_amount, available_before + res.repay_amount - redeemed);
}
