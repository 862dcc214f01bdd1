use vstd::prelude::*;
use crate::errors::{LendingError, LendingResult};
use crate::fraction::{Fraction, add_s, ceil_s, div_s, floor_s, fres, math_only, min_s, mul_s, one};
use crate::market::LendingMarket;
use crate::obligation::{Obligation, any_debt, debt_settled, deposit_taken, MAX_BORROWS, MAX_DEPOSITS};
use crate::operations::{fresh, fresh_check_s, redeem_reserve_collateral, refresh_reserve, same_obligation};
use crate::reserve::{Reserve, ReserveLiquidity, accrue_s, exchange_rate_s, liquidity_to_collateral_s, total_supply_s};
use crate::types::{LastUpdate, PriceStatusFlags, Pubkey};

verus! {

/// What `calculate_liquidation` yields.
#[derive(Clone, Copy, Debug, PartialEq, Eq, Structural)]
pub struct CalculateLiquidationResult {
    pub settle_amount_f: Fraction,
    pub repay_amount: u64,
    pub withdraw_amount: u64,
    pub liquidation_bonus_rate: Fraction,
}

/// What `liquidate_obligation` yields.
#[derive(Clone, Copy, Debug, PartialEq, Eq, Structural)]
pub struct LiquidateObligationResult {
    pub settle_amount_f: Fraction,
    pub repay_amount: u64,
    pub withdraw_amount: u64,
    pub withdraw_collateral_amount: u64,
    pub liquidation_bonus_rate: Fraction,
}

/// What `liquidate_and_redeem` yields: the liquidity redeemed and the protocol's fee,
/// when any collateral was redeemed.
#[derive(Clone, Copy, Debug)]
pub struct LiquidateAndRedeemResult {
    pub repay_amount: u64,
    pub withdraw_amount: u64,
    pub withdraw_collateral_amount: u64,
    pub total_withdraw_liquidity_amount: Option<(u64, u64)>,
}

pub open spec fn min_bonus_s(min_bps: u16) -> int {
    min_bps * one() / 10000
}

pub open spec fn max_bonus_s(max_bps: u16) -> int {
    max_bps * one() / 10000
}

/// How far the loan-to-value is past the unhealthy one, kept between the minimum and
/// maximum bonus.
pub open spec fn bonus_s(o: Obligation, min_bps: u16, max_bps: u16) -> Option<int> {
    let ltv = div_s(Some(o.borrow_factor_adjusted_debt_value_sf as int), Some(o.deposited_value_sf as int));
    let unhealthy = div_s(Some(o.unhealthy_borrow_value_sf as int), Some(o.deposited_value_sf as int));
    match (ltv, unhealthy) {
        (Some(a), Some(b)) => {
            let excess = if a >= b { a - b } else { 0 };
            let lo = if excess >= min_bonus_s(min_bps) { excess } else { min_bonus_s(min_bps) };
            Some(if lo <= max_bonus_s(max_bps) { lo } else { max_bonus_s(max_bps) })
        },
        _ => None,
    }
}

/// The liquidator's bonus: how far the loan-to-value is past the unhealthy one, kept
/// between the reserve's minimum and maximum bonus.
pub fn liquidation_bonus_rate(obligation: &Obligation, min_bps: u16, max_bps: u16) -> (r: LendingResult<Fraction>)
    requires
        min_bps <= max_bps,
    ensures
        fres(r) == bonus_s(*obligation, min_bps, max_bps),
        r is Ok ==> min_bonus_s(min_bps) <= r->Ok_0.bits <= max_bonus_s(max_bps),
        math_only(r),
{
    let ltv = obligation.loan_to_value()?;
    let unhealthy = obligation.unhealthy_loan_to_value()?;
    let excess = ltv.saturating_sub(unhealthy);
    let lo = Fraction::from_bps(min_bps as u64);
    let hi = Fraction::from_bps(max_bps as u64);
    proof {
        vstd::arithmetic::div_mod::lemma_div_is_ordered(min_bps * one(), max_bps * one(), 10000);
    }
    Ok(excess.max(lo).min(hi))
}

/// The most debt value one liquidation may settle: the whole borrow below the
/// full-liquidation threshold, else the close factor of it, capped per liquidation.
pub open spec fn max_value_s(o: Obligation, li: int, m: LendingMarket) -> Option<int> {
    let mv = o.borrows@[li].market_value_sf as int;
    if o.borrow_factor_adjusted_debt_value_sf < m.min_full_liquidation_value_threshold * one() {
        Some(mv)
    } else {
        min_s(
            mul_s(Some(mv), Some(m.liquidation_max_debt_close_factor_pct * one() / 100)),
            Some(m.max_liquidatable_debt_market_value_at_once * one()),
        )
    }
}

/// The debt settled before the collateral bound: `amount` (everything allowed for
/// `u64::MAX`) capped by the allowed share of the borrowed amount.
pub open spec fn settle_s(o: Obligation, li: int, m: LendingMarket, amount: u64) -> Option<int> {
    let b = o.borrows@[li];
    let max_settle = div_s(mul_s(Some(b.borrowed_amount_sf as int), max_value_s(o, li, m)), Some(b.market_value_sf as int));
    if amount == u64::MAX {
        max_settle
    } else {
        min_s(Some(amount * one()), max_settle)
    }
}

/// Value of the collateral owed: the settled debt's value plus the bonus.
pub open spec fn withdraw_value_s(o: Obligation, li: int, settle: Option<int>, bonus: int) -> Option<int> {
    let b = o.borrows@[li];
    mul_s(
        div_s(mul_s(Some(b.market_value_sf as int), settle), Some(b.borrowed_amount_sf as int)),
        add_s(Some(one()), Some(bonus)),
    )
}

/// The whole liquidation: settled debt, tokens to repay, c-tokens to take, bonus.
pub open spec fn liquidation_s(
    o: Obligation,
    li: int,
    ci: int,
    m: LendingMarket,
    amount: u64,
    bonus: int,
) -> Option<(int, int, int)> {
    let settle = settle_s(o, li, m, amount);
    let wv = withdraw_value_s(o, li, settle, bonus);
    let c = o.deposits@[ci];
    match (settle, wv) {
        (Some(st), Some(w)) => if w > c.market_value_sf {
            match div_s(mul_s(Some(st), Some(c.market_value_sf as int)), Some(w)) {
                Some(scaled) => {
                    let st2 = if st <= scaled { st } else { scaled };
                    match ceil_s(Some(st2)) {
                        Some(rp) => Some((st2, rp, c.deposited_amount as int)),
                        None => None,
                    }
                },
                None => None,
            }
        } else {
            match floor_s(div_s(mul_s(Some(c.deposited_amount * one()), Some(w)), Some(c.market_value_sf as int))) {
                Some(wd) => match ceil_s(Some(st)) {
                    Some(rp) => Some((st, rp, if wd <= c.deposited_amount { wd } else { c.deposited_amount as int })),
                    None => None,
                },
                None => None,
            }
        },
        _ => None,
    }
}

/// The outcome of sizing a liquidation (see `calculate_liquidation`).
pub open spec fn calc_liq_s(o: Obligation, li: int, ci: int, m: LendingMarket, amount: u64, min_bps: u16, max_bps: u16) -> LendingResult<
    CalculateLiquidationResult,
> {
    if o.borrow_factor_adjusted_debt_value_sf <= o.unhealthy_borrow_value_sf {
        Err(LendingError::ObligationHealthy)
    } else {
        match bonus_s(o, min_bps, max_bps) {
            None => Err(LendingError::MathOverflow),
            Some(bonus) => if o.borrows@[li].market_value_sf == 0 || o.borrows@[li].borrowed_amount_sf == 0 {
                Err(LendingError::ObligationLiquidityEmpty)
            } else if o.deposits@[ci].market_value_sf == 0 {
                Err(LendingError::ObligationCollateralEmpty)
            } else {
                match liquidation_s(o, li, ci, m, amount, bonus) {
                    None => Err(LendingError::MathOverflow),
                    Some(t) => Ok(
                        CalculateLiquidationResult {
                            settle_amount_f: Fraction { bits: t.0 as u128 },
                            repay_amount: t.1 as u64,
                            withdraw_amount: t.2 as u64,
                            liquidation_bonus_rate: Fraction { bits: bonus as u128 },
                        },
                    ),
                }
            },
        }
    }
}

/// Sizes a liquidation of the debt in borrow slot `li` against the collateral in deposit
/// slot `ci`: the debt settled is capped by the close factor of the borrow's value (all of
/// it for an obligation below the full-liquidation threshold) and by the market's cap
/// per liquidation; the collateral taken is worth the settled debt plus the bonus, at most
/// all of the slot, in which case the settled debt shrinks to match.
pub fn calculate_liquidation(
    amount: u64,
    market: &LendingMarket,
    obligation: &Obligation,
    li: usize,
    ci: usize,
    min_bps: u16,
    max_bps: u16,
) -> (r: LendingResult<CalculateLiquidationResult>)
    requires
        obligation.wf(),
        li < MAX_BORROWS,
        ci < MAX_DEPOSITS,
        min_bps <= max_bps,
    ensures
        obligation.borrow_factor_adjusted_debt_value_sf <= obligation.unhealthy_borrow_value_sf ==> r == Err::<
            CalculateLiquidationResult,
            LendingError,
        >(LendingError::ObligationHealthy),
        r is Ok ==> obligation.borrow_factor_adjusted_debt_value_sf > obligation.unhealthy_borrow_value_sf,
        r is Ok ==> r->Ok_0.withdraw_amount <= obligation.deposits@[ci as int].deposited_amount,
        r is Ok ==> min_bonus_s(min_bps) <= r->Ok_0.liquidation_bonus_rate.bits <= max_bonus_s(max_bps),
        r is Ok ==> ceil_s(r->Ok_0.settle_amount_f.sv()) == Some(r->Ok_0.repay_amount as int),
        r is Ok && amount != u64::MAX ==> r->Ok_0.settle_amount_f.bits <= amount * one(),
        r == calc_liq_s(*obligation, li as int, ci as int, *market, amount, min_bps, max_bps),
        obligation.borrow_factor_adjusted_debt_value_sf > obligation.unhealthy_borrow_value_sf ==> match bonus_s(
            *obligation,
            min_bps,
            max_bps,
        ) {
            None => r == Err::<CalculateLiquidationResult, LendingError>(LendingError::MathOverflow),
            Some(bonus) => if obligation.borrows@[li as int].market_value_sf == 0
                || obligation.borrows@[li as int].borrowed_amount_sf == 0 {
                r == Err::<CalculateLiquidationResult, LendingError>(LendingError::ObligationLiquidityEmpty)
            } else if obligation.deposits@[ci as int].market_value_sf == 0 {
                r == Err::<CalculateLiquidationResult, LendingError>(LendingError::ObligationCollateralEmpty)
            } else {
                match liquidation_s(*obligation, li as int, ci as int, *market, amount, bonus) {
                    None => r == Err::<CalculateLiquidationResult, LendingError>(LendingError::MathOverflow),
                    Some(t) => r is Ok && r->Ok_0.settle_amount_f.bits == t.0 && r->Ok_0.repay_amount == t.1
                        && r->Ok_0.withdraw_amount == t.2 && r->Ok_0.liquidation_bonus_rate.bits == bonus,
                }
            },
        },
{
    if obligation.borrow_factor_adjusted_debt_value_sf <= obligation.unhealthy_borrow_value_sf {
        return Err(LendingError::ObligationHealthy);
    }
    let bonus = liquidation_bonus_rate(obligation, min_bps, max_bps)?;
    let liq = obligation.borrows[li];
    let coll = obligation.deposits[ci];
    if liq.market_value_sf == 0 || liq.borrowed_amount_sf == 0 {
        return Err(LendingError::ObligationLiquidityEmpty);
    }
    if coll.market_value_sf == 0 {
        return Err(LendingError::ObligationCollateralEmpty);
    }
    let borrow_mv = Fraction::from_bits(liq.market_value_sf);
    let borrowed = Fraction::from_bits(liq.borrowed_amount_sf);
    let full = obligation.borrow_factor_adjusted_debt_value_sf < Fraction::from_u64(
        market.min_full_liquidation_value_threshold,
    ).bits;
    let max_value = if full {
        borrow_mv
    } else {
        borrow_mv.checked_mul(Fraction::from_percent(market.liquidation_max_debt_close_factor_pct as u64))?.min(
            Fraction::from_u64(market.max_liquidatable_debt_market_value_at_once),
        )
    };
    let max_settle = borrowed.checked_mul(max_value)?.checked_div(borrow_mv)?;
    let mut settle = if amount == u64::MAX {
        max_settle
    } else {
        Fraction::from_u64(amount).min(max_settle)
    };
    let settle_value = borrow_mv.checked_mul(settle)?.checked_div(borrowed)?;
    let withdraw_value = settle_value.checked_mul(Fraction::one().checked_add(bonus)?)?;
    let coll_mv = Fraction::from_bits(coll.market_value_sf);
    let withdraw_amount = if withdraw_value.bits > coll_mv.bits {
        let scaled = settle.checked_mul(coll_mv)?.checked_div(withdraw_value)?;
        settle = settle.min(scaled);
        coll.deposited_amount
    } else {
        let w = Fraction::from_u64(coll.deposited_amount).checked_mul(withdraw_value)?.checked_div(coll_mv)?.to_floor()?;
        if w <= coll.deposited_amount {
            w
        } else {
            coll.deposited_amount
        }
    };
    let repay_amount = settle.to_ceil()?;
    Ok(CalculateLiquidationResult { settle_amount_f: settle, repay_amount, withdraw_amount, liquidation_bonus_rate: bonus })
}

/// The protocol's share of `amount` redeemed in a liquidation at bonus `bonus` (raw):
/// `fee_pct` of `amount - amount / (1 + bonus)`, rounded up, at least one unit when that
/// bonus part is not zero, at most `amount`.
pub open spec fn protocol_fee_s(amount: u64, bonus: int, fee_pct: u8) -> LendingResult<u64> {
    match div_s(Some(amount * one()), add_s(Some(one()), Some(bonus))) {
        None => Err(LendingError::MathOverflow),
        Some(base) => {
            let part = if amount * one() >= base { amount * one() - base } else { 0 };
            match ceil_s(mul_s(Some(part), Some(fee_pct * one() / 100))) {
                None => Err(LendingError::MathOverflow),
                Some(f) => {
                    let f2 = if part > 0 && f == 0 { 1 } else { f };
                    Ok(if f2 <= amount { f2 as u64 } else { amount })
                },
            }
        },
    }
}

/// The protocol's share of a liquidation: `fee_pct` of the bonus part of the liquidity
/// redeemed (the amount less the amount over `1 + bonus`), rounded up, at least one unit
/// when there is a bonus part, and never more than the amount.
pub fn calculate_protocol_liquidation_fee(amount: u64, bonus: Fraction, fee_pct: u8) -> (r: LendingResult<u64>)
    ensures
        r == protocol_fee_s(amount, bonus.bits as int, fee_pct),
        r is Ok ==> r->Ok_0 <= amount,
        math_only(r),
{
    let base = Fraction::from_u64(amount).checked_div(Fraction::one().checked_add(bonus)?)?;
    let bonus_part = Fraction::from_u64(amount).saturating_sub(base);
    let fee = bonus_part.checked_mul(Fraction::from_percent(fee_pct as u64))?.to_ceil()?;
    let fee = if bonus_part.bits > 0 && fee == 0 {
        1
    } else {
        fee
    };
    Ok(if fee <= amount {
        fee
    } else {
        amount
    })
}

/// The outcome of the liquidation preconditions, in the order they are checked.
pub open spec fn liquidatable_s(rr: Reserve, wr: Reserve, o: Obligation, amount: u64, slot: u64) -> LendingResult<()> {
    if amount == 0 {
        Err(LendingError::InvalidAmount)
    } else if fresh_check_s(rr, slot, liquidation_flags()) is Err {
        fresh_check_s(rr, slot, liquidation_flags())
    } else if fresh_check_s(wr, slot, liquidation_flags()) is Err {
        fresh_check_s(wr, slot, liquidation_flags())
    } else if o.last_update.is_stale_spec(slot, liquidation_flags()) is None {
        Err(LendingError::MathOverflow)
    } else if o.last_update.is_stale_spec(slot, liquidation_flags()) == Some(true) {
        Err(LendingError::ObligationStale)
    } else if o.deposited_value_sf == 0 {
        Err(LendingError::ObligationDepositsZero)
    } else if o.borrow_factor_adjusted_debt_value_sf == 0 {
        Err(LendingError::ObligationBorrowsZero)
    } else {
        Ok(())
    }
}

/// A liquidation needs a nonzero amount, reserves and obligation fresh with a loaded
/// price of acceptable age, and an obligation with both deposits and debt.
pub fn assert_obligation_liquidatable(
    repay_reserve: &Reserve,
    withdraw_reserve: &Reserve,
    obligation: &Obligation,
    amount: u64,
    slot: u64,
) -> (r: LendingResult<()>)
    ensures
        r == liquidatable_s(*repay_reserve, *withdraw_reserve, *obligation, amount, slot),
        amount == 0 ==> r == Err::<(), LendingError>(LendingError::InvalidAmount),
        r is Ok <==> amount != 0 && fresh(*repay_reserve, slot, liquidation_flags()) && fresh(
            *withdraw_reserve,
            slot,
            liquidation_flags(),
        ) && obligation.last_update.is_stale_spec(slot, liquidation_flags()) == Some(false)
            && obligation.deposited_value_sf != 0 && obligation.borrow_factor_adjusted_debt_value_sf != 0,
{
    if amount == 0 {
        return Err(LendingError::InvalidAmount);
    }
    let checks = PriceStatusFlags::liquidation_checks();
    if repay_reserve.last_update.is_stale(slot, &checks)? {
        return Err(LendingError::ReserveStale);
    }
    if withdraw_reserve.last_update.is_stale(slot, &checks)? {
        return Err(LendingError::ReserveStale);
    }
    if obligation.last_update.is_stale(slot, &checks)? {
        return Err(LendingError::ObligationStale);
    }
    if obligation.deposited_value_sf == 0 {
        return Err(LendingError::ObligationDepositsZero);
    }
    if obligation.borrow_factor_adjusted_debt_value_sf == 0 {
        return Err(LendingError::ObligationBorrowsZero);
    }
    Ok(())
}

pub open spec fn liquidation_flags() -> PriceStatusFlags {
    PriceStatusFlags { price_loaded: true, price_age_checked: true, twap_checked: false, twap_age_checked: false }
}

/// Books a liquidation: the repay reserve takes back `repay_amount` and settles
/// `settle` of debt, and the obligation loses that debt and `withdraw_amount` c-tokens of
/// collateral. Both amounts must be nonzero.
pub fn repay_and_withdraw_from_obligation_post_liquidation(
    obligation: &mut Obligation,
    repay_reserve: &mut Reserve,
    settle: Fraction,
    withdraw_amount: u64,
    repay_amount: u64,
    li: usize,
    ci: usize,
) -> (r: LendingResult<()>)
    requires
        old(obligation).wf(),
        li < MAX_BORROWS,
        ci < MAX_DEPOSITS,
    ensures
        final(obligation).wf(),
        r == book_liquidation_s(*old(repay_reserve), *old(obligation), settle.bits as int, withdraw_amount, repay_amount, li as int, ci as int),
        r is Err ==> *final(repay_reserve) == *old(repay_reserve) && same_obligation(*final(obligation), *old(obligation)),
        r is Ok ==> final(repay_reserve).liquidity == (ReserveLiquidity {
            available_amount: (old(repay_reserve).liquidity.available_amount + repay_amount) as u64,
            borrowed_amount_sf: if settle.bits <= old(repay_reserve).liquidity.borrowed_amount_sf {
                (old(repay_reserve).liquidity.borrowed_amount_sf - settle.bits) as u128
            } else {
                0
            },
            ..old(repay_reserve).liquidity
        }),
        r is Ok ==> final(obligation).last_update.stale && final(repay_reserve).last_update.stale,
        r is Ok ==> liquidated_obligation(*old(obligation), *final(obligation), settle.bits as int, withdraw_amount, li as int, ci as int),
        r is Ok && old(obligation).tiers_valid() ==> final(obligation).tiers_valid(),
        final(repay_reserve).liquidity.mint_decimals == old(repay_reserve).liquidity.mint_decimals,
        final(repay_reserve).config == old(repay_reserve).config,
        final(repay_reserve).collateral == old(repay_reserve).collateral,
        final(repay_reserve).version == old(repay_reserve).version,
        final(repay_reserve).lending_market == old(repay_reserve).lending_market,
        final(repay_reserve).last_update.slot == old(repay_reserve).last_update.slot,
        final(repay_reserve).last_update.price_status == old(repay_reserve).last_update.price_status,
{
    if repay_amount == 0 || withdraw_amount == 0 {
        return Err(LendingError::LiquidationTooSmall);
    }
    if repay_reserve.liquidity.available_amount > u64::MAX - repay_amount {
        return Err(LendingError::MathOverflow);
    }
    if settle.bits > obligation.borrows[li].borrowed_amount_sf
        || withdraw_amount > obligation.deposits[ci].deposited_amount {
        return Err(LendingError::MathOverflow);
    }
    repay_reserve.liquidity.repay(repay_amount, settle)?;
    repay_reserve.last_update.mark_stale();
    obligation.repay(settle, li)?;
    obligation.withdraw(withdraw_amount, ci)?;
    obligation.update_has_debt();
    obligation.last_update.mark_stale();
    Ok(())
}

/// The obligation after a liquidation books `settle` (raw) of the debt in slot `li` and
/// `withdraw` c-tokens of the collateral in slot `ci`: those two slots shrink (emptied
/// when all goes), every other slot and aggregate stays, `has_debt` says whether any debt
/// is left, and the obligation is stale.
pub open spec fn liquidated_obligation(o0: Obligation, o1: Obligation, settle: int, withdraw: u64, li: int, ci: int) -> bool {
    &&& o1.borrows@ == o0.borrows@.update(li, debt_settled(o0.borrows@[li], settle))
    &&& o1.deposits@ == o0.deposits@.update(ci, deposit_taken(o0.deposits@[ci], withdraw))
    &&& o1.has_debt == if any_debt(o1.borrows@, MAX_BORROWS as int) { 1u8 } else { 0u8 }
    &&& o1.last_update.stale
    &&& o1.deposited_value_sf == o0.deposited_value_sf
    &&& o1.borrowed_assets_market_value_sf == o0.borrowed_assets_market_value_sf
    &&& o1.borrow_factor_adjusted_debt_value_sf == o0.borrow_factor_adjusted_debt_value_sf
    &&& o1.allowed_borrow_value_sf == o0.allowed_borrow_value_sf
    &&& o1.unhealthy_borrow_value_sf == o0.unhealthy_borrow_value_sf
}

/// The outcome of booking a liquidation: both amounts nonzero, the repayment fits the
/// reserve, the debt settled and the collateral taken fit their slots.
pub open spec fn book_liquidation_s(rr: Reserve, o: Obligation, settle: int, withdraw: u64, repay: u64, li: int, ci: int) -> LendingResult<()> {
    if repay == 0 || withdraw == 0 {
        Err(LendingError::LiquidationTooSmall)
    } else if rr.liquidity.available_amount + repay > u64::MAX {
        Err(LendingError::MathOverflow)
    } else if settle > o.borrows@[li].borrowed_amount_sf || withdraw > o.deposits@[ci].deposited_amount {
        Err(LendingError::MathOverflow)
    } else {
        Ok(())
    }
}

/// The repay reserve after a liquidation books `repay` tokens settling `settle` of debt.
pub open spec fn repaid_reserve_s(rr: Reserve, settle: int, repay: u64) -> Reserve {
    Reserve {
        liquidity: ReserveLiquidity {
            available_amount: (rr.liquidity.available_amount + repay) as u64,
            borrowed_amount_sf: if settle <= rr.liquidity.borrowed_amount_sf {
                (rr.liquidity.borrowed_amount_sf - settle) as u128
            } else {
                0
            },
            ..rr.liquidity
        },
        last_update: LastUpdate { stale: true, ..rr.last_update },
        ..rr
    }
}

/// The reserves after a liquidation: the repay reserve has taken the repayment, and the
/// withdraw reserve (the repaid one when they are the same) is refreshed.
pub open spec fn liquidated_reserves_s(rs: Seq<Reserve>, ri: int, wi: int, settle: int, repay: u64, slot: u64, now: u64) -> Seq<Reserve> {
    let rr2 = repaid_reserve_s(rs[ri], settle, repay);
    let wr2 = if wi == ri { rr2 } else { rs[wi] };
    rs.update(ri, rr2).update(wi, crate::operations::refreshed_s(wr2, slot, now))
}

/// The outcome of a liquidation, in the order the checks are made: emergency mode, a
/// collateral that cannot be liquidated, the liquidation preconditions, no debt or
/// collateral slot (or a worthless one), the sizing, the booking, the refresh of the
/// withdraw reserve, and the slippage limit. The c-tokens handed out are those owed,
/// capped by what the withdraw reserve's available liquidity can redeem.
pub open spec fn liquidate_s(
    m: LendingMarket,
    rs: Seq<Reserve>,
    ri: int,
    rk: Pubkey,
    wi: int,
    wk: Pubkey,
    o: Obligation,
    slot: u64,
    now: u64,
    amount: u64,
    min_acceptable: u64,
) -> LendingResult<LiquidateObligationResult> {
    let rr = rs[ri];
    let wr = rs[wi];
    let min_bps = wr.config.min_liquidation_bonus_bps;
    let max_bps = if wr.config.max_liquidation_bonus_bps >= min_bps { wr.config.max_liquidation_bonus_bps } else { min_bps };
    if m.emergency_mode != 0 {
        Err(LendingError::GlobalEmergencyMode)
    } else if wr.config.loan_to_value_pct == 0 || wr.config.liquidation_threshold_pct == 0 {
        Err(LendingError::CollateralNonLiquidatable)
    } else if liquidatable_s(rr, wr, o, amount, slot) is Err {
        Err(liquidatable_s(rr, wr, o, amount, slot)->Err_0)
    } else {
        match o.first_borrow(rk, MAX_BORROWS as int) {
            None => Err(LendingError::InvalidObligationLiquidity),
            Some(li) => if o.borrows@[li].borrow_factor_adjusted_market_value_sf == 0 {
                Err(LendingError::ObligationLiquidityEmpty)
            } else {
                match o.first_deposit(wk, MAX_DEPOSITS as int) {
                    None => Err(LendingError::InvalidObligationCollateral),
                    Some(ci) => if o.deposits@[ci].market_value_sf == 0 {
                        Err(LendingError::ObligationCollateralEmpty)
                    } else {
                        match calc_liq_s(o, li, ci, m, amount, min_bps, max_bps) {
                            Err(e) => Err(e),
                            Ok(res) => {
                                let settle = res.settle_amount_f.bits as int;
                                if book_liquidation_s(rr, o, settle, res.withdraw_amount, res.repay_amount, li, ci) is Err {
                                    Err(book_liquidation_s(rr, o, settle, res.withdraw_amount, res.repay_amount, li, ci)->Err_0)
                                } else {
                                    let rr2 = repaid_reserve_s(rr, settle, res.repay_amount);
                                    let wr2 = if wi == ri { rr2 } else { wr };
                                    match accrue_s(wr2, slot) {
                                        Err(e) => Err(e),
                                        Ok(l) => match exchange_rate_s(wr2.collateral.mint_total_supply as int, total_supply_s(l)) {
                                            None => Err(LendingError::MathOverflow),
                                            Some(rate) => match liquidity_to_collateral_s(rate, l.available_amount as int) {
                                                None => Err(LendingError::MathOverflow),
                                                Some(redeemable) => {
                                                    let wca = if res.withdraw_amount <= redeemable {
                                                        res.withdraw_amount as int
                                                    } else {
                                                        redeemable
                                                    };
                                                    if wca < min_acceptable {
                                                        Err(LendingError::LiquidationSlippageError)
                                                    } else {
                                                        Ok(
                                                            LiquidateObligationResult {
                                                                settle_amount_f: res.settle_amount_f,
                                                                repay_amount: res.repay_amount,
                                                                withdraw_amount: res.withdraw_amount,
                                                                withdraw_collateral_amount: wca as u64,
                                                                liquidation_bonus_rate: res.liquidation_bonus_rate,
                                                            },
                                                        )
                                                    }
                                                },
                                            },
                                        },
                                    }
                                }
                            },
                        }
                    },
                }
            },
        }
    }
}

/// Liquidates part of an unhealthy obligation: the liquidator repays debt to the reserve
/// at `repay_index` and is owed collateral of the reserve at `withdraw_index` (the two
/// may be the same reserve). Fails with `LiquidationSlippageError` when fewer c-tokens
/// than `min_acceptable` can be handed out.
pub fn liquidate_obligation(
    market: &LendingMarket,
    reserves: &mut Vec<Reserve>,
    repay_index: usize,
    repay_key: Pubkey,
    withdraw_index: usize,
    withdraw_key: Pubkey,
    obligation: &mut Obligation,
    slot: u64,
    now_ts: u64,
    amount: u64,
    min_acceptable: u64,
) -> (r: LendingResult<LiquidateObligationResult>)
    requires
        old(obligation).wf(),
        repay_index < old(reserves).len(),
        withdraw_index < old(reserves).len(),
        forall|i: int| 0 <= i < old(reserves).len() ==> (#[trigger] old(reserves)@[i]).liquidity.mint_decimals <= 19,
    ensures
        final(obligation).wf(),
        final(reserves).len() == old(reserves).len(),
        forall|i: int| 0 <= i < old(reserves).len() ==> (#[trigger] final(reserves)@[i]).liquidity.mint_decimals
            == old(reserves)@[i].liquidity.mint_decimals,
        market.emergency_mode != 0 ==> r == Err::<LiquidateObligationResult, LendingError>(LendingError::GlobalEmergencyMode),
        market.emergency_mode == 0 && amount == 0 && old(reserves)@[withdraw_index as int].config.loan_to_value_pct != 0
            && old(reserves)@[withdraw_index as int].config.liquidation_threshold_pct != 0 ==> r == Err::<
            LiquidateObligationResult,
            LendingError,
        >(LendingError::InvalidAmount),
        market.emergency_mode == 0 && (old(reserves)@[withdraw_index as int].config.loan_to_value_pct == 0
            || old(reserves)@[withdraw_index as int].config.liquidation_threshold_pct == 0) ==> r == Err::<
            LiquidateObligationResult,
            LendingError,
        >(LendingError::CollateralNonLiquidatable),
        r == liquidate_s(
            *market,
            old(reserves)@,
            repay_index as int,
            repay_key,
            withdraw_index as int,
            withdraw_key,
            *old(obligation),
            slot,
            now_ts,
            amount,
            min_acceptable,
        ),
        r is Err ==> final(reserves)@ == old(reserves)@ && same_obligation(*final(obligation), *old(obligation)),
        r is Ok ==> liquidated_obligation(
            *old(obligation),
            *final(obligation),
            r->Ok_0.settle_amount_f.bits as int,
            r->Ok_0.withdraw_amount,
            old(obligation).first_borrow(repay_key, MAX_BORROWS as int)->Some_0,
            old(obligation).first_deposit(withdraw_key, MAX_DEPOSITS as int)->Some_0,
        ),
        r is Ok ==> final(reserves)@ == liquidated_reserves_s(
            old(reserves)@,
            repay_index as int,
            withdraw_index as int,
            r->Ok_0.settle_amount_f.bits as int,
            r->Ok_0.repay_amount,
            slot,
            now_ts,
        ),
        r is Ok ==> old(obligation).borrow_factor_adjusted_debt_value_sf > old(obligation).unhealthy_borrow_value_sf,
        r is Ok ==> r->Ok_0.repay_amount > 0 && r->Ok_0.withdraw_amount > 0,
        r is Ok ==> r->Ok_0.withdraw_collateral_amount <= r->Ok_0.withdraw_amount,
        r is Ok ==> r->Ok_0.withdraw_collateral_amount >= min_acceptable,
        r is Ok && old(obligation).tiers_valid() ==> final(obligation).tiers_valid(),
{
    crate::operations::emergency_mode_disabled(market)?;
    let wcfg = reserves[withdraw_index].config;
    if wcfg.loan_to_value_pct == 0 || wcfg.liquidation_threshold_pct == 0 {
        return Err(LendingError::CollateralNonLiquidatable);
    }
    assert_obligation_liquidatable(&reserves[repay_index], &reserves[withdraw_index], obligation, amount, slot)?;
    let li = obligation.find_liquidity_in_borrows(repay_key)?;
    if obligation.borrows[li].borrow_factor_adjusted_market_value_sf == 0 {
        return Err(LendingError::ObligationLiquidityEmpty);
    }
    let ci = obligation.find_collateral_in_deposits(withdraw_key)?;
    if obligation.deposits[ci].market_value_sf == 0 {
        return Err(LendingError::ObligationCollateralEmpty);
    }
    let min_bps = wcfg.min_liquidation_bonus_bps;
    let max_bps = if wcfg.max_liquidation_bonus_bps >= min_bps {
        wcfg.max_liquidation_bonus_bps
    } else {
        min_bps
    };
    let res = calculate_liquidation(amount, market, obligation, li, ci, min_bps, max_bps)?;
    if res.repay_amount == 0 || res.withdraw_amount == 0 {
        return Err(LendingError::LiquidationTooSmall);
    }
    let mut repay_reserve = reserves[repay_index];
    if repay_reserve.liquidity.available_amount > u64::MAX - res.repay_amount {
        return Err(LendingError::MathOverflow);
    }
    if res.settle_amount_f.bits > obligation.borrows[li].borrowed_amount_sf
        || res.withdraw_amount > obligation.deposits[ci].deposited_amount {
        return Err(LendingError::MathOverflow);
    }
    let mut probe = repay_reserve;
    probe.liquidity.repay(res.repay_amount, res.settle_amount_f)?;
    probe.last_update.mark_stale();
    let mut withdraw_reserve = if withdraw_index == repay_index {
        probe
    } else {
        reserves[withdraw_index]
    };
    refresh_reserve(&mut withdraw_reserve, slot, now_ts, None)?;
    let rate = withdraw_reserve.collateral_exchange_rate()?;
    let max_redeemable = rate.liquidity_to_collateral(withdraw_reserve.liquidity.available_amount)?;
    let withdraw_collateral_amount = if res.withdraw_amount <= max_redeemable {
        res.withdraw_amount
    } else {
        max_redeemable
    };
    if withdraw_collateral_amount < min_acceptable {
        return Err(LendingError::LiquidationSlippageError);
    }
    repay_and_withdraw_from_obligation_post_liquidation(
        obligation,
        &mut repay_reserve,
        res.settle_amount_f,
        res.withdraw_amount,
        res.repay_amount,
        li,
        ci,
    )?;
    reserves.set(repay_index, repay_reserve);
    reserves.set(withdraw_index, withdraw_reserve);
    Ok(
        LiquidateObligationResult {
            settle_amount_f: res.settle_amount_f,
            repay_amount: res.repay_amount,
            withdraw_amount: res.withdraw_amount,
            withdraw_collateral_amount,
            liquidation_bonus_rate: res.liquidation_bonus_rate,
        },
    )
}

/// The outcome of redeeming the c-tokens a liquidator won: nothing for none; else the
/// redemption (not counted against the caps) and the protocol's fee on its liquidity.
pub open spec fn post_liquidate_redeem_s(wr: Reserve, wca: u64, bonus: int, slot: u64, now: u64) -> LendingResult<Option<(u64, u64)>> {
    if wca == 0 {
        Ok(None)
    } else {
        match crate::operations::redeem_reserve_collateral_s(wr, wca, slot, now, false) {
            Err(e) => Err(e),
            Ok(l) => match protocol_fee_s(l, bonus, wr.config.protocol_liquidation_fee_pct) {
                Err(e) => Err(e),
                Ok(f) => Ok(Some((l, f))),
            },
        }
    }
}

/// Redeems the c-tokens a liquidator won for liquidity; returns that liquidity and the
/// protocol's fee on it, or nothing when no c-tokens are handed out. On a refusal the
/// reserve is left as it was.
pub fn post_liquidate_redeem(
    withdraw_reserve: &mut Reserve,
    withdraw_collateral_amount: u64,
    bonus: Fraction,
    slot: u64,
    now_ts: u64,
) -> (r: LendingResult<Option<(u64, u64)>>)
    requires
        old(withdraw_reserve).liquidity.mint_decimals <= 19,
    ensures
        r == post_liquidate_redeem_s(*old(withdraw_reserve), withdraw_collateral_amount, bonus.bits as int, slot, now_ts),
        r is Err || withdraw_collateral_amount == 0 ==> *final(withdraw_reserve) == *old(withdraw_reserve),
        r is Ok && withdraw_collateral_amount != 0 ==> r->Ok_0 is Some && r->Ok_0->Some_0.1 <= r->Ok_0->Some_0.0,
        r is Ok && withdraw_collateral_amount != 0 ==> final(withdraw_reserve).liquidity.available_amount
            == old(withdraw_reserve).liquidity.available_amount - r->Ok_0->Some_0.0,
        final(withdraw_reserve).liquidity.mint_decimals == old(withdraw_reserve).liquidity.mint_decimals,
{
    if withdraw_collateral_amount == 0 {
        return Ok(None);
    }
    let mut next = *withdraw_reserve;
    let liquidity = redeem_reserve_collateral(&mut next, withdraw_collateral_amount, slot, now_ts, false)?;
    let fee = calculate_protocol_liquidation_fee(liquidity, bonus, withdraw_reserve.config.protocol_liquidation_fee_pct)?;
    *withdraw_reserve = next;
    Ok(Some((liquidity, fee)))
}

/// Liquidates, then redeems the c-tokens won for liquidity of the withdraw reserve.
pub fn liquidate_and_redeem(
    market: &LendingMarket,
    reserves: &mut Vec<Reserve>,
    repay_index: usize,
    repay_key: Pubkey,
    withdraw_index: usize,
    withdraw_key: Pubkey,
    obligation: &mut Obligation,
    slot: u64,
    now_ts: u64,
    amount: u64,
    min_acceptable: u64,
) -> (r: LendingResult<LiquidateAndRedeemResult>)
    requires
        old(obligation).wf(),
        repay_index < old(reserves).len(),
        withdraw_index < old(reserves).len(),
        forall|i: int| 0 <= i < old(reserves).len() ==> (#[trigger] old(reserves)@[i]).liquidity.mint_decimals <= 19,
    ensures
        final(obligation).wf(),
        r is Ok ==> old(obligation).borrow_factor_adjusted_debt_value_sf > old(obligation).unhealthy_borrow_value_sf,
        r is Ok ==> r->Ok_0.repay_amount > 0 && r->Ok_0.withdraw_collateral_amount >= min_acceptable,
        r is Ok ==> (r->Ok_0.withdraw_collateral_amount == 0 <==> r->Ok_0.total_withdraw_liquidity_amount is None),
        match liquidate_s(
            *market,
            old(reserves)@,
            repay_index as int,
            repay_key,
            withdraw_index as int,
            withdraw_key,
            *old(obligation),
            slot,
            now_ts,
            amount,
            min_acceptable,
        ) {
            Err(e) => r == Err::<LiquidateAndRedeemResult, LendingError>(e),
            Ok(res) => match post_liquidate_redeem_s(
                liquidated_reserves_s(
                    old(reserves)@,
                    repay_index as int,
                    withdraw_index as int,
                    res.settle_amount_f.bits as int,
                    res.repay_amount,
                    slot,
                    now_ts,
                )[withdraw_index as int],
                res.withdraw_collateral_amount,
                res.liquidation_bonus_rate.bits as int,
                slot,
                now_ts,
            ) {
                Err(e) => r == Err::<LiquidateAndRedeemResult, LendingError>(e),
                Ok(red) => r is Ok && r->Ok_0.repay_amount == res.repay_amount && r->Ok_0.withdraw_amount
                    == res.withdraw_amount && r->Ok_0.withdraw_collateral_amount == res.withdraw_collateral_amount
                    && r->Ok_0.total_withdraw_liquidity_amount == red && liquidated_obligation(
                    *old(obligation),
                    *final(obligation),
                    res.settle_amount_f.bits as int,
                    res.withdraw_amount,
                    old(obligation).first_borrow(repay_key, MAX_BORROWS as int)->Some_0,
                    old(obligation).first_deposit(withdraw_key, MAX_DEPOSITS as int)->Some_0,
                ),
            },
        },
{
    let res = liquidate_obligation(
        market,
        reserves,
        repay_index,
        repay_key,
        withdraw_index,
        withdraw_key,
        obligation,
        slot,
        now_ts,
        amount,
        min_acceptable,
    )?;
    let mut w = reserves[withdraw_index];
    let redeemed = post_liquidate_redeem(&mut w, res.withdraw_collateral_amount, res.liquidation_bonus_rate, slot, now_ts)?;
    reserves.set(withdraw_index, w);
    Ok(
        LiquidateAndRedeemResult {
            repay_amount: res.repay_amount,
            withdraw_amount: res.withdraw_amount,
            withdraw_collateral_amount: res.withdraw_collateral_amount,
            total_withdraw_liquidity_amount: redeemed,
        },
    )
}

} // verus!
