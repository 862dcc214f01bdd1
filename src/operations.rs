use vstd::prelude::*;
use crate::caps::{add_to_withdrawal_accum, sub_from_withdrawal_accum, cap_add_spec, cap_sub_spec};
use crate::constants::{pow10, ten_pow};
use crate::errors::{LendingError, LendingResult};
use crate::fraction::{
    Fraction, add_s, ceil_s, div_int_s, div_s, floor_s, fres, math_only, mul_int_s, mul_s, one, sub_s,
};
use crate::market::LendingMarket;
use crate::obligation::{Obligation, ObligationLiquidity, tiers_valid_seqs, MAX_BORROWS, MAX_DEPOSITS};
use crate::reserve::{CalculateBorrowResult, Reserve, ReserveConfig, ReserveLiquidity, reserve_rate_s, total_supply_s};
use crate::types::{GetPriceResult, PriceStatusFlags, Pubkey, ReserveStatus};

verus! {

/// Market value of a raw amount of a reserve's liquidity: `amount * price / 10^decimals`.
pub open spec fn market_value_s(r: Reserve, amount: Option<int>) -> Option<int> {
    div_int_s(
        mul_s(amount, Some(r.liquidity.market_price_sf as int)),
        pow10(r.liquidity.mint_decimals as nat) as int,
    )
}

pub open spec fn fraction_is(r: LendingResult<Fraction>, s: Option<int>) -> bool {
    fres(r) == s && math_only(r)
}

/// Market value of `amount` (a fraction of tokens) of the reserve's liquidity.
pub fn calculate_market_value_from_liquidity_amount(reserve: &Reserve, amount: Fraction) -> (r:
    LendingResult<Fraction>)
    requires
        reserve.liquidity.mint_decimals <= 19,
    ensures
        fraction_is(r, market_value_s(*reserve, amount.sv())),
{
    let factor = ten_pow(reserve.liquidity.mint_decimals as usize);
    amount.checked_mul(reserve.liquidity.get_market_price_f())?.checked_div_int(factor as u128)
}

/// Market value of pledged c-tokens at the reserve's exchange rate and price.
pub fn calculate_obligation_collateral_market_value(reserve: &Reserve, deposit: &crate::obligation::ObligationCollateral) -> (r:
    LendingResult<Fraction>)
    requires
        reserve.liquidity.mint_decimals <= 19,
    ensures
        fraction_is(r, crate::refresh::collateral_mv_s(*reserve, deposit.deposited_amount)),
{
    let rate = reserve.collateral_exchange_rate()?;
    let liquidity = rate.fraction_collateral_to_liquidity(Fraction::from_u64(deposit.deposited_amount))?;
    calculate_market_value_from_liquidity_amount(reserve, liquidity)
}

/// Market value of a debt at the reserve's price.
pub fn calculate_obligation_liquidity_market_value(reserve: &Reserve, borrow: &crate::obligation::ObligationLiquidity) -> (r:
    LendingResult<Fraction>)
    requires
        reserve.liquidity.mint_decimals <= 19,
    ensures
        fraction_is(r, market_value_s(*reserve, Some(borrow.borrowed_amount_sf as int))),
{
    calculate_market_value_from_liquidity_amount(reserve, Fraction::from_bits(borrow.borrowed_amount_sf))
}

/// The reserve is refreshed in `slot` and carries the required price checks.
pub open spec fn fresh(r: Reserve, slot: u64, required: PriceStatusFlags) -> bool {
    r.last_update.is_stale_spec(slot, required) == Some(false)
}

pub open spec fn no_flags() -> PriceStatusFlags {
    PriceStatusFlags {
        price_loaded: false,
        price_age_checked: false,
        twap_checked: false,
        twap_age_checked: false,
    }
}

pub open spec fn all_flags() -> PriceStatusFlags {
    PriceStatusFlags {
        price_loaded: true,
        price_age_checked: true,
        twap_checked: true,
        twap_age_checked: true,
    }
}

/// Fails unless the reserve is fresh in `slot` with the `required` checks.
/// The freshness check on a reserve: `MathOverflow` for a slot before its last update,
/// `ReserveStale` when not refreshed in `slot` with the required checks.
pub open spec fn fresh_check_s(r: Reserve, slot: u64, required: PriceStatusFlags) -> LendingResult<()> {
    match r.last_update.is_stale_spec(slot, required) {
        None => Err(LendingError::MathOverflow),
        Some(true) => Err(LendingError::ReserveStale),
        Some(false) => Ok(()),
    }
}

fn require_fresh(reserve: &Reserve, slot: u64, required: &PriceStatusFlags) -> (r: LendingResult<()>)
    ensures
        r == fresh_check_s(*reserve, slot, *required),
        r is Ok <==> fresh(*reserve, slot, *required),
        r is Err ==> r == Err::<(), LendingError>(LendingError::ReserveStale) || r == Err::<
            (),
            LendingError,
        >(LendingError::MathOverflow),
{
    if reserve.last_update.is_stale(slot, required)? {
        return Err(LendingError::ReserveStale);
    }
    Ok(())
}

/// The stored price is not older than the configured maximum age.
pub fn is_saved_price_age_valid(reserve: &Reserve, now_ts: u64) -> (r: bool)
    ensures
        r == ((if now_ts >= reserve.liquidity.market_price_last_updated_ts {
            now_ts - reserve.liquidity.market_price_last_updated_ts
        } else {
            0
        }) <= reserve.config.token_info.max_age_price_seconds),
{
    let age = now_ts.saturating_sub(reserve.liquidity.market_price_last_updated_ts);
    age <= reserve.config.token_info.max_age_price_seconds
}

/// The stored price has used up the market's trigger share of its maximum age.
pub fn is_price_refresh_needed(reserve: &Reserve, market: &LendingMarket, now_ts: u64) -> (r: bool)
    ensures
        r == ((if now_ts >= reserve.liquidity.market_price_last_updated_ts {
            now_ts - reserve.liquidity.market_price_last_updated_ts
        } else {
            0
        }) >= reserve.config.token_info.max_age_price_seconds as int
            * market.price_refresh_trigger_to_max_age_pct as int / 100),
{
    let age = now_ts.saturating_sub(reserve.liquidity.market_price_last_updated_ts);
    assert((reserve.config.token_info.max_age_price_seconds as u128) * (market.price_refresh_trigger_to_max_age_pct as u128)
        <= 0xffff_ffff_ffff_ffffu128 * 0xffu128) by (nonlinear_arith)
        requires
            reserve.config.token_info.max_age_price_seconds <= 0xffff_ffff_ffff_ffffu64,
            market.price_refresh_trigger_to_max_age_pct <= 0xffu8,
    ;
    let trigger = (reserve.config.token_info.max_age_price_seconds as u128)
        * (market.price_refresh_trigger_to_max_age_pct as u128) / 100;
    age as u128 >= trigger
}

/// Age of the stored price at `now`, zero for a price from the future.
pub open spec fn price_age(r: Reserve, now: u64) -> int {
    if now >= r.liquidity.market_price_last_updated_ts {
        now - r.liquidity.market_price_last_updated_ts
    } else {
        0
    }
}

/// A reserve refreshed in `slot` without a new price: interest accrued, stamped fresh,
/// its price checks cleared when the stored price is older than the maximum age.
pub open spec fn refreshed_s(r: Reserve, slot: u64, now: u64) -> Reserve {
    Reserve {
        liquidity: crate::reserve::accrue_s(r, slot)->Ok_0,
        last_update: crate::types::LastUpdate {
            slot,
            stale: false,
            price_status: if price_age(r, now) > r.config.token_info.max_age_price_seconds {
                no_flags()
            } else {
                r.last_update.price_status
            },
        },
        ..r
    }
}

/// Accrues interest up to `slot`, records a new price if one is given (or clears the price
/// checks if the stored price is too old), and stamps the reserve fresh in `slot`.
pub fn refresh_reserve(reserve: &mut Reserve, slot: u64, now_ts: u64, price: Option<GetPriceResult>) -> (r:
    LendingResult<()>)
    ensures
        r is Ok ==> slot >= old(reserve).last_update.slot,
        r is Ok ==> crate::reserve::accrue_s(*old(reserve), slot) is Ok && final(reserve).liquidity
            == (ReserveLiquidity {
            market_price_sf: final(reserve).liquidity.market_price_sf,
            market_price_last_updated_ts: final(reserve).liquidity.market_price_last_updated_ts,
            ..crate::reserve::accrue_s(*old(reserve), slot)->Ok_0
        }),
        r is Err ==> crate::reserve::accrue_s(*old(reserve), slot) is Err,
        r is Ok ==> final(reserve).last_update.slot == slot && !final(reserve).last_update.stale,
        r is Ok ==> match price {
            Some(p) => final(reserve).liquidity.market_price_sf == p.price.bits
                && final(reserve).liquidity.market_price_last_updated_ts == p.timestamp
                && final(reserve).last_update.price_status == p.status,
            None => final(reserve).liquidity.market_price_sf == old(reserve).liquidity.market_price_sf
                && final(reserve).liquidity.market_price_last_updated_ts == old(reserve).liquidity.market_price_last_updated_ts
                && final(reserve).last_update.price_status == if (if now_ts >= old(
                reserve).liquidity.market_price_last_updated_ts {
                now_ts - old(reserve).liquidity.market_price_last_updated_ts
            } else {
                0
            }) > old(reserve).config.token_info.max_age_price_seconds {
                no_flags()
            } else {
                old(reserve).last_update.price_status
            },
        },
        r is Ok ==> final(reserve).liquidity.cumulative_borrow_rate_bsf.v()
            >= old(reserve).liquidity.cumulative_borrow_rate_bsf.v(),
        r is Ok ==> final(reserve).liquidity.borrowed_amount_sf >= old(reserve).liquidity.borrowed_amount_sf,
        slot < old(reserve).last_update.slot ==> r == Err::<(), LendingError>(LendingError::MathOverflow),
        final(reserve).config == old(reserve).config,
        final(reserve).collateral == old(reserve).collateral,
        final(reserve).liquidity.available_amount == old(reserve).liquidity.available_amount,
        final(reserve).liquidity.mint_decimals == old(reserve).liquidity.mint_decimals,
        final(reserve).version == old(reserve).version,
        final(reserve).lending_market == old(reserve).lending_market,
        r is Err ==> *final(reserve) == *old(reserve),
        match crate::reserve::accrue_s(*old(reserve), slot) {
            Err(e) => r == Err::<(), LendingError>(e),
            Ok(_) => r is Ok,
        },
        r is Ok && price is None ==> *final(reserve) == refreshed_s(*old(reserve), slot, now_ts),
{
    let ghost l0 = reserve.liquidity;
    reserve.accrue_interest(slot)?;
    proof {
        if slot > reserve.last_update.slot {
            let u = crate::reserve::utilization_s(l0)->Some_0;
            let rate = crate::curve::borrow_rate_spec(reserve.config.borrow_rate_curve.points@, u)->Some_0;
            lemma_compound_monotone(l0, rate as u128 as int, slot - reserve.last_update.slot,
                reserve.config.protocol_take_rate_pct * one() / 100);
        }
    }
    let status = match price {
        Some(p) => {
            reserve.liquidity.market_price_sf = p.price.bits;
            reserve.liquidity.market_price_last_updated_ts = p.timestamp;
            Some(p.status)
        },
        None => {
            if !is_saved_price_age_valid(reserve, now_ts) {
                Some(PriceStatusFlags::none())
            } else {
                None
            }
        },
    };
    reserve.last_update.update_slot(slot, status);
    Ok(())
}

/// Compounding never lowers the index or the debt.
pub proof fn lemma_compound_monotone(l: ReserveLiquidity, rate: int, e: int, take: int)
    requires
        0 <= rate,
        0 <= e,
    ensures
        crate::reserve::compound_s(l, rate, e, take) is Some ==> crate::reserve::compound_s(
            l,
            rate,
            e,
            take,
        )->Some_0.cumulative_borrow_rate_bsf.v() >= l.cumulative_borrow_rate_bsf.v()
            && crate::reserve::compound_s(l, rate, e, take)->Some_0.borrowed_amount_sf
            >= l.borrowed_amount_sf,
{
    crate::reserve::lemma_compounded_at_least_one(rate, e);
    let comp = crate::reserve::compounded_s(rate, e);
    if comp is Some {
        let c = comp->Some_0;
        crate::wide::lemma_big_of(l.cumulative_borrow_rate_bsf);
        lemma_mul_not_below(l.cumulative_borrow_rate_bsf.v(), c);
        let x = l.cumulative_borrow_rate_bsf.v() * c / one();
        if x < crate::wide::w256() {
            vstd::arithmetic::div_mod::lemma_div_pos_is_pos(l.cumulative_borrow_rate_bsf.v() * c, one());
            assert(l.cumulative_borrow_rate_bsf.v() * c >= 0) by (nonlinear_arith)
                requires
                    l.cumulative_borrow_rate_bsf.v() >= 0,
                    c >= 0,
            ;
            crate::wide::lemma_big_of_v(x);
        }
        lemma_mul_not_below(l.borrowed_amount_sf as int, c);
    }
}

proof fn lemma_mul_not_below(x: int, c: int)
    requires
        x >= 0,
        c >= one(),
    ensures
        x * c / one() >= x,
{
    assert(x * c >= x * one()) by (nonlinear_arith)
        requires
            x >= 0,
            c >= one(),
    ;
    vstd::arithmetic::div_mod::lemma_div_is_ordered(x * one(), x * c, one());
    vstd::arithmetic::div_mod::lemma_div_multiples_vanish(x, one());
    assert(x * one() == one() * x) by (nonlinear_arith);
}

/// Updates both limit-crossed stamps.
pub fn refresh_reserve_limit_timestamps(reserve: &mut Reserve, slot: u64) -> (r: LendingResult<()>)
    ensures
        r is Ok <==> total_supply_s(old(reserve).liquidity) is Some,
        r is Err ==> r == Err::<(), LendingError>(LendingError::MathOverflow),
        r is Ok ==> final(reserve).liquidity.deposit_limit_crossed_slot == if total_supply_s(
            old(reserve).liquidity,
        )->Some_0 > old(reserve).config.deposit_limit * one() {
            if old(reserve).liquidity.deposit_limit_crossed_slot == 0 {
                slot
            } else {
                old(reserve).liquidity.deposit_limit_crossed_slot
            }
        } else {
            0
        },
        r is Ok ==> final(reserve).liquidity.borrow_limit_crossed_slot == if old(reserve).liquidity.borrowed_amount_sf
            > old(reserve).config.borrow_limit * one() {
            if old(reserve).liquidity.borrow_limit_crossed_slot == 0 {
                slot
            } else {
                old(reserve).liquidity.borrow_limit_crossed_slot
            }
        } else {
            0
        },
        final(reserve).liquidity == (ReserveLiquidity {
            deposit_limit_crossed_slot: final(reserve).liquidity.deposit_limit_crossed_slot,
            borrow_limit_crossed_slot: final(reserve).liquidity.borrow_limit_crossed_slot,
            ..old(reserve).liquidity
        }),
        final(reserve).collateral == old(reserve).collateral,
        final(reserve).config == old(reserve).config,
        final(reserve).last_update == old(reserve).last_update,
        final(reserve).version == old(reserve).version,
{
    reserve.update_deposit_limit_crossed_slot(slot)?;
    reserve.update_borrow_limit_crossed_slot(slot);
    Ok(())
}

/// The outcome of a deposit of `amount` into `r`: refused when zero, when `r` is not
/// fresh, when the total supply would pass the deposit limit, when the deposit cap
/// refuses, or on overflow; else the c-tokens minted at the current rate.
pub open spec fn deposit_reserve_liquidity_s(r: Reserve, slot: u64, now: u64, amount: u64) -> LendingResult<u64> {
    if amount == 0 {
        Err(LendingError::InvalidAmount)
    } else {
        match fresh_check_s(r, slot, no_flags()) {
            Err(e) => Err(e),
            Ok(_) => match total_supply_s(r.liquidity) {
                None => Err(LendingError::MathOverflow),
                Some(t) => if t + amount * one() > r.config.deposit_limit * one() {
                    Err(LendingError::DepositLimitExceeded)
                } else {
                    match cap_sub_spec(r.config.deposit_withdrawal_cap, amount, now) {
                        Err(e) => Err(e),
                        Ok(_) => match reserve_rate_s(r) {
                            None => Err(LendingError::MathOverflow),
                            Some(rate) => match crate::reserve::liquidity_to_collateral_s(rate, amount as int) {
                                None => Err(LendingError::MathOverflow),
                                Some(c) => if r.liquidity.available_amount + amount > u64::MAX
                                    || r.collateral.mint_total_supply + c > u64::MAX {
                                    Err(LendingError::MathOverflow)
                                } else {
                                    Ok(c as u64)
                                },
                            },
                        },
                    }
                },
            },
        }
    }
}

/// A reserve after a deposit of `amount` that minted `c` c-tokens at time `now`.
pub open spec fn deposited_reserve_s(r: Reserve, amount: u64, c: u64, now: u64) -> Reserve {
    Reserve {
        liquidity: ReserveLiquidity { available_amount: (r.liquidity.available_amount + amount) as u64, ..r.liquidity },
        collateral: crate::reserve::ReserveCollateral {
            mint_total_supply: (r.collateral.mint_total_supply + c) as u64,
            ..r.collateral
        },
        config: ReserveConfig {
            deposit_withdrawal_cap: cap_sub_spec(r.config.deposit_withdrawal_cap, amount, now)->Ok_0,
            ..r.config
        },
        last_update: crate::types::LastUpdate { stale: true, ..r.last_update },
        ..r
    }
}

/// Deposits `amount` of liquidity into a reserve refreshed in `slot`; returns the
/// c-tokens minted. Refused when the new total supply would pass the deposit limit. On
/// any refusal the reserve is left as it was.
pub fn deposit_reserve_liquidity(reserve: &mut Reserve, slot: u64, now_ts: u64, amount: u64) -> (r:
    LendingResult<u64>)
    ensures
        r == deposit_reserve_liquidity_s(*old(reserve), slot, now_ts, amount),
        r is Err ==> *final(reserve) == *old(reserve),
        r is Ok ==> *final(reserve) == deposited_reserve_s(*old(reserve), amount, r->Ok_0, now_ts),
        r is Ok ==> final(reserve).liquidity == (ReserveLiquidity {
            available_amount: (old(reserve).liquidity.available_amount + amount) as u64,
            ..old(reserve).liquidity
        }),
        r is Ok ==> final(reserve).collateral.mint_total_supply == old(reserve).collateral.mint_total_supply + r->Ok_0,
        r is Ok ==> final(reserve).last_update.stale,
        r is Ok ==> final(reserve).config == (ReserveConfig {
            deposit_withdrawal_cap: cap_sub_spec(old(reserve).config.deposit_withdrawal_cap, amount, now_ts)->Ok_0,
            ..old(reserve).config
        }),
        final(reserve).liquidity.mint_decimals == old(reserve).liquidity.mint_decimals,
{
    if amount == 0 {
        return Err(LendingError::InvalidAmount);
    }
    require_fresh(reserve, slot, &PriceStatusFlags::none())?;
    let supply = reserve.liquidity.total_supply()?;
    let limit = Fraction::from_u64(reserve.config.deposit_limit);
    if supply.bits > limit.bits || Fraction::from_u64(amount).bits > limit.bits - supply.bits {
        return Err(LendingError::DepositLimitExceeded);
    }
    let mut caps = reserve.config.deposit_withdrawal_cap;
    sub_from_withdrawal_accum(&mut caps, amount, now_ts)?;
    let mut next = *reserve;
    let c = next.deposit_liquidity(amount)?;
    next.config.deposit_withdrawal_cap = caps;
    next.last_update.mark_stale();
    *reserve = next;
    Ok(c)
}

/// The outcome of redeeming `c` c-tokens of `r`: refused when zero, when `r` is not
/// fresh, on overflow, when `c` exceeds the c-token supply, when the liquidity is not
/// available, or when the deposit cap refuses the outflow; else the liquidity paid out.
pub open spec fn redeem_reserve_collateral_s(r: Reserve, c: u64, slot: u64, now: u64, add_to_caps: bool) -> LendingResult<u64> {
    if c == 0 {
        Err(LendingError::InvalidAmount)
    } else {
        match fresh_check_s(r, slot, no_flags()) {
            Err(e) => Err(e),
            Ok(_) => match reserve_rate_s(r) {
                None => Err(LendingError::MathOverflow),
                Some(rate) => match crate::reserve::collateral_to_liquidity_s(rate, c as int) {
                    None => Err(LendingError::MathOverflow),
                    Some(l) => if c > r.collateral.mint_total_supply {
                        Err(LendingError::MathOverflow)
                    } else if l > r.liquidity.available_amount {
                        Err(LendingError::InsufficientLiquidity)
                    } else if add_to_caps && cap_add_spec(r.config.deposit_withdrawal_cap, l as u64, now) is Err {
                        Err(cap_add_spec(r.config.deposit_withdrawal_cap, l as u64, now)->Err_0)
                    } else if total_supply_s(
                        ReserveLiquidity { available_amount: (r.liquidity.available_amount - l) as u64, ..r.liquidity },
                    ) is None {
                        Err(LendingError::MathOverflow)
                    } else {
                        Ok(l as u64)
                    },
                },
            },
        }
    }
}

/// Redeems `c` c-tokens of a reserve refreshed in `slot` for liquidity; returns the
/// liquidity paid out. With `add_to_caps` the outflow counts against the deposit cap. On
/// any refusal the reserve is left as it was.
pub fn redeem_reserve_collateral(reserve: &mut Reserve, c: u64, slot: u64, now_ts: u64, add_to_caps: bool) -> (r:
    LendingResult<u64>)
    requires
        old(reserve).liquidity.mint_decimals <= 19,
    ensures
        r == redeem_reserve_collateral_s(*old(reserve), c, slot, now_ts, add_to_caps),
        r is Err ==> *final(reserve) == *old(reserve),
        r is Ok ==> crate::reserve::collateral_to_liquidity_s(reserve_rate_s(*old(reserve))->Some_0, c as int)
            == Some(r->Ok_0 as int),
        r is Ok ==> final(reserve).liquidity.available_amount == old(reserve).liquidity.available_amount - r->Ok_0,
        r is Ok ==> final(reserve).collateral.mint_total_supply == old(reserve).collateral.mint_total_supply - c,
        r is Ok ==> final(reserve).liquidity.borrowed_amount_sf == old(reserve).liquidity.borrowed_amount_sf,
        r is Ok ==> final(reserve).liquidity.accumulated_protocol_fees_sf == old(reserve).liquidity.accumulated_protocol_fees_sf,
        r is Ok ==> final(reserve).liquidity.cumulative_borrow_rate_bsf == old(reserve).liquidity.cumulative_borrow_rate_bsf,
        r is Ok ==> final(reserve).last_update.stale,
        r is Ok && !add_to_caps ==> final(reserve).config.deposit_withdrawal_cap == old(reserve).config.deposit_withdrawal_cap,
        r is Ok && add_to_caps ==> final(reserve).config.deposit_withdrawal_cap == cap_add_spec(
            old(reserve).config.deposit_withdrawal_cap,
            r->Ok_0,
            now_ts,
        )->Ok_0,
        final(reserve).liquidity.mint_decimals == old(reserve).liquidity.mint_decimals,
{
    if c == 0 {
        return Err(LendingError::InvalidAmount);
    }
    require_fresh(reserve, slot, &PriceStatusFlags::none())?;
    let rate = reserve.collateral_exchange_rate()?;
    let l = rate.collateral_to_liquidity(c)?;
    if c > reserve.collateral.mint_total_supply {
        return Err(LendingError::MathOverflow);
    }
    if l > reserve.liquidity.available_amount {
        return Err(LendingError::InsufficientLiquidity);
    }
    let mut caps = reserve.config.deposit_withdrawal_cap;
    if add_to_caps {
        add_to_withdrawal_accum(&mut caps, l, now_ts)?;
    }
    let mut next = *reserve;
    let l2 = next.redeem_collateral(c)?;
    refresh_reserve_limit_timestamps(&mut next, slot)?;
    next.last_update.mark_stale();
    next.config.deposit_withdrawal_cap = caps;
    *reserve = next;
    Ok(l2)
}

/// What a deposit, withdrawal, borrow or repay must leave behind.
pub open spec fn net_value_ok(v: int, min: int) -> bool {
    !(v > 0 && v < min)
}

/// The outcome of the checks after a deposit: `MathOverflow` when a value does not
/// compute, `NetValueRemainingTooSmall` when the collateral's new value is dust,
/// `WorseLTVBlocked` when the loan-to-value would rise.
pub open spec fn post_deposit_s(amount: int, o: Obligation, r: Reserve, coll_mv: int, min_net: int) -> LendingResult<()> {
    let mv = market_value_s(r, Some(amount));
    let new_total = add_s(Some(o.deposited_value_sf as int), mv);
    let new_coll = add_s(Some(coll_mv), mv);
    let new_ltv = div_s(Some(o.borrow_factor_adjusted_debt_value_sf as int), new_total);
    let ltv = div_s(Some(o.borrow_factor_adjusted_debt_value_sf as int), Some(o.deposited_value_sf as int));
    if new_coll is None || new_ltv is None {
        Err(LendingError::MathOverflow)
    } else if !net_value_ok(new_coll->Some_0, min_net) {
        Err(LendingError::NetValueRemainingTooSmall)
    } else if o.deposited_value_sf != 0 && ltv is None {
        Err(LendingError::MathOverflow)
    } else if o.deposited_value_sf != 0 && new_ltv->Some_0 > ltv->Some_0 {
        Err(LendingError::WorseLTVBlocked)
    } else {
        Ok(())
    }
}

/// The outcome of the checks after a withdrawal: `MathOverflow` when a value does not
/// compute, `NetValueRemainingTooSmall` for a dust remainder, `LiabilitiesBiggerThanAssets`
/// and then `WorseLTVBlocked` against the new deposited value.
pub open spec fn post_withdraw_s(amount: int, o: Obligation, r: Reserve, coll_mv: int, min_net: int) -> LendingResult<()> {
    let mv = market_value_s(r, Some(amount));
    let new_total = sub_s(Some(o.deposited_value_sf as int), mv);
    let new_coll = sub_s(Some(coll_mv), mv);
    let new_ltv = div_s(Some(o.borrow_factor_adjusted_debt_value_sf as int), new_total);
    let unhealthy = div_s(Some(o.unhealthy_borrow_value_sf as int), Some(o.deposited_value_sf as int));
    if new_total is None {
        Err(LendingError::MathOverflow)
    } else if coll_mv != 0 && new_coll is None {
        Err(LendingError::MathOverflow)
    } else if coll_mv != 0 && !net_value_ok(new_coll->Some_0, min_net) {
        Err(LendingError::NetValueRemainingTooSmall)
    } else if new_total->Some_0 == 0 {
        Ok(())
    } else if o.borrowed_assets_market_value_sf >= new_total->Some_0 {
        Err(LendingError::LiabilitiesBiggerThanAssets)
    } else if new_ltv is None || unhealthy is None {
        Err(LendingError::MathOverflow)
    } else if new_ltv->Some_0 > unhealthy->Some_0 {
        Err(LendingError::WorseLTVBlocked)
    } else {
        Ok(())
    }
}

/// The outcome of the checks after a borrow: `MathOverflow` when a value does not compute,
/// then `NetValueRemainingTooSmall`, `WorseLTVBlocked` and `LiabilitiesBiggerThanAssets`,
/// in that order.
pub open spec fn post_borrow_s(amount: int, o: Obligation, r: Reserve, liq_mv: int, min_net: int) -> LendingResult<()> {
    let mv = market_value_s(r, Some(amount));
    let new_bf = add_s(Some(o.borrow_factor_adjusted_debt_value_sf as int), mul_s(mv, Some(r.config.borrow_factor_pct * one() / 100)));
    let new_no_bf = add_s(Some(o.borrowed_assets_market_value_sf as int), mv);
    let new_liq = add_s(Some(liq_mv), mv);
    let new_ltv = div_s(new_bf, Some(o.deposited_value_sf as int));
    let unhealthy = div_s(Some(o.unhealthy_borrow_value_sf as int), Some(o.deposited_value_sf as int));
    if new_bf is None || new_no_bf is None || new_liq is None {
        Err(LendingError::MathOverflow)
    } else if !net_value_ok(new_liq->Some_0, min_net) {
        Err(LendingError::NetValueRemainingTooSmall)
    } else if new_ltv is None || unhealthy is None {
        Err(LendingError::MathOverflow)
    } else if new_ltv->Some_0 > unhealthy->Some_0 {
        Err(LendingError::WorseLTVBlocked)
    } else if new_no_bf->Some_0 >= o.deposited_value_sf {
        Err(LendingError::LiabilitiesBiggerThanAssets)
    } else {
        Ok(())
    }
}

/// The outcome of the checks after a repayment: `MathOverflow` when a value does not
/// compute, `NetValueRemainingTooSmall` for a dust remainder, `WorseLTVBlocked` when the
/// loan-to-value would rise.
pub open spec fn post_repay_s(amount: int, o: Obligation, r: Reserve, liq_mv: int, min_net: int) -> LendingResult<()> {
    let mv = market_value_s(r, Some(amount));
    let new_bf = sub_s(Some(o.borrow_factor_adjusted_debt_value_sf as int), mul_s(mv, Some(r.config.borrow_factor_pct * one() / 100)));
    let new_liq = sub_s(Some(liq_mv), mv);
    let new_ltv = div_s(new_bf, Some(o.deposited_value_sf as int));
    let ltv = div_s(Some(o.borrow_factor_adjusted_debt_value_sf as int), Some(o.deposited_value_sf as int));
    if new_bf is None {
        Err(LendingError::MathOverflow)
    } else if liq_mv != 0 && new_liq is None {
        Err(LendingError::MathOverflow)
    } else if liq_mv != 0 && !net_value_ok(new_liq->Some_0, min_net) {
        Err(LendingError::NetValueRemainingTooSmall)
    } else if o.deposited_value_sf > 0 && (new_ltv is None || ltv is None) {
        Err(LendingError::MathOverflow)
    } else if o.deposited_value_sf > 0 && new_ltv->Some_0 > ltv->Some_0 {
        Err(LendingError::WorseLTVBlocked)
    } else {
        Ok(())
    }
}

pub open spec fn post_deposit_ok(amount: int, o: Obligation, r: Reserve, coll_mv: int, min_net: int) -> bool {
    post_deposit_s(amount, o, r, coll_mv, min_net) is Ok
}

pub open spec fn post_withdraw_ok(amount: int, o: Obligation, r: Reserve, coll_mv: int, min_net: int) -> bool {
    post_withdraw_s(amount, o, r, coll_mv, min_net) is Ok
}

pub open spec fn post_borrow_ok(amount: int, o: Obligation, r: Reserve, liq_mv: int, min_net: int) -> bool {
    post_borrow_s(amount, o, r, liq_mv, min_net) is Ok
}

pub open spec fn post_repay_ok(amount: int, o: Obligation, r: Reserve, liq_mv: int, min_net: int) -> bool {
    post_repay_s(amount, o, r, liq_mv, min_net) is Ok
}

/// Checks after a deposit of `amount` (liquidity, raw): the touched collateral's value is
/// not dust, and the loan-to-value does not rise.
pub fn post_deposit_obligation_invariants(
    amount: Fraction,
    obligation: &Obligation,
    reserve: &Reserve,
    collateral_asset_mv: Fraction,
    min_net: Fraction,
) -> (r: LendingResult<()>)
    requires
        reserve.liquidity.mint_decimals <= 19,
    ensures
        r == post_deposit_s(amount.bits as int, *obligation, *reserve, collateral_asset_mv.bits as int, min_net.bits as int),
        r is Ok <==> post_deposit_ok(amount.bits as int, *obligation, *reserve, collateral_asset_mv.bits as int, min_net.bits as int),
        r is Ok ==> ({
            let mv = market_value_s(*reserve, amount.sv())->Some_0;
            &&& net_value_ok(collateral_asset_mv.bits + mv, min_net.bits as int)
            &&& (obligation.deposited_value_sf != 0 ==> div_s(
                Some(obligation.borrow_factor_adjusted_debt_value_sf as int),
                Some(obligation.deposited_value_sf + mv),
            )->Some_0 <= div_s(
                Some(obligation.borrow_factor_adjusted_debt_value_sf as int),
                Some(obligation.deposited_value_sf as int),
            )->Some_0)
        }),
{
    let asset_mv = calculate_market_value_from_liquidity_amount(reserve, amount)?;
    let new_total = Fraction::from_bits(obligation.deposited_value_sf).checked_add(asset_mv)?;
    let new_coll = collateral_asset_mv.checked_add(asset_mv)?;
    let new_ltv = Fraction::from_bits(obligation.borrow_factor_adjusted_debt_value_sf).checked_div(new_total)?;
    if new_coll.bits > 0 && new_coll.bits < min_net.bits {
        return Err(LendingError::NetValueRemainingTooSmall);
    }
    if obligation.deposited_value_sf != 0 {
        let ltv = obligation.loan_to_value()?;
        if new_ltv.bits > ltv.bits {
            return Err(LendingError::WorseLTVBlocked);
        }
    }
    Ok(())
}

/// Checks after a withdrawal of `amount` (liquidity, raw): the touched collateral's value
/// is not dust, liabilities stay below assets, and the loan-to-value stays within the
/// unhealthy one.
pub fn post_withdraw_obligation_invariants(
    amount: Fraction,
    obligation: &Obligation,
    reserve: &Reserve,
    collateral_asset_mv: Fraction,
    min_net: Fraction,
) -> (r: LendingResult<()>)
    requires
        reserve.liquidity.mint_decimals <= 19,
    ensures
        r == post_withdraw_s(amount.bits as int, *obligation, *reserve, collateral_asset_mv.bits as int, min_net.bits as int),
        r is Ok <==> post_withdraw_ok(amount.bits as int, *obligation, *reserve, collateral_asset_mv.bits as int, min_net.bits as int),
        r is Ok ==> ({
            let mv = market_value_s(*reserve, amount.sv())->Some_0;
            let new_total = obligation.deposited_value_sf - mv;
            &&& mv <= obligation.deposited_value_sf
            &&& (collateral_asset_mv.bits != 0 ==> mv <= collateral_asset_mv.bits
                && net_value_ok(collateral_asset_mv.bits - mv, min_net.bits as int))
            &&& (new_total != 0 ==> obligation.borrowed_assets_market_value_sf < new_total)
            &&& (new_total != 0 ==> div_s(
                Some(obligation.borrow_factor_adjusted_debt_value_sf as int),
                Some(new_total),
            )->Some_0 <= div_s(
                Some(obligation.unhealthy_borrow_value_sf as int),
                Some(obligation.deposited_value_sf as int),
            )->Some_0)
        }),
{
    let asset_mv = calculate_market_value_from_liquidity_amount(reserve, amount)?;
    let new_total = Fraction::from_bits(obligation.deposited_value_sf).checked_sub(asset_mv)?;
    if collateral_asset_mv.bits != 0 {
        let new_coll = collateral_asset_mv.checked_sub(asset_mv)?;
        if new_coll.bits > 0 && new_coll.bits < min_net.bits {
            return Err(LendingError::NetValueRemainingTooSmall);
        }
    }
    if new_total.bits != 0 {
        if obligation.borrowed_assets_market_value_sf >= new_total.bits {
            return Err(LendingError::LiabilitiesBiggerThanAssets);
        }
        let new_ltv = Fraction::from_bits(obligation.borrow_factor_adjusted_debt_value_sf).checked_div(new_total)?;
        let unhealthy = obligation.unhealthy_loan_to_value()?;
        if new_ltv.bits > unhealthy.bits {
            return Err(LendingError::WorseLTVBlocked);
        }
    }
    Ok(())
}

/// The health of an obligation after `amount` more debt in `reserve`: its new adjusted
/// loan-to-value stays within the unhealthy one and its liabilities below its assets.
pub open spec fn borrow_health_ok(obligation: Obligation, reserve: Reserve, amount: int) -> bool {
    let mv = market_value_s(reserve, Some(amount))->Some_0;
    let new_bf = obligation.borrow_factor_adjusted_debt_value_sf + mul_s(
        Some(mv),
        Some(reserve.config.borrow_factor_pct * one() / 100),
    )->Some_0;
    &&& market_value_s(reserve, Some(amount)) is Some
    &&& div_s(Some(new_bf), Some(obligation.deposited_value_sf as int)) is Some
    &&& div_s(Some(obligation.unhealthy_borrow_value_sf as int), Some(obligation.deposited_value_sf as int)) is Some
    &&& div_s(Some(new_bf), Some(obligation.deposited_value_sf as int))->Some_0 <= div_s(
        Some(obligation.unhealthy_borrow_value_sf as int),
        Some(obligation.deposited_value_sf as int),
    )->Some_0
    &&& obligation.borrowed_assets_market_value_sf + mv < obligation.deposited_value_sf
}

/// Checks after a borrow of `amount` (raw): the touched debt's value is not dust, the
/// loan-to-value stays within the unhealthy one, and liabilities stay below assets.
pub fn post_borrow_obligation_invariants(
    amount: Fraction,
    obligation: &Obligation,
    reserve: &Reserve,
    liquidity_asset_mv: Fraction,
    min_net: Fraction,
) -> (r: LendingResult<()>)
    requires
        reserve.liquidity.mint_decimals <= 19,
    ensures
        r == post_borrow_s(amount.bits as int, *obligation, *reserve, liquidity_asset_mv.bits as int, min_net.bits as int),
        r is Ok <==> post_borrow_ok(amount.bits as int, *obligation, *reserve, liquidity_asset_mv.bits as int, min_net.bits as int),
        r is Ok ==> borrow_health_ok(*obligation, *reserve, amount.bits as int),
        r is Ok ==> net_value_ok(
            liquidity_asset_mv.bits + market_value_s(*reserve, amount.sv())->Some_0,
            min_net.bits as int,
        ),
{
    let asset_mv = calculate_market_value_from_liquidity_amount(reserve, amount)?;
    let bf_mv = asset_mv.checked_mul(reserve.borrow_factor_f())?;
    let new_bf = Fraction::from_bits(obligation.borrow_factor_adjusted_debt_value_sf).checked_add(bf_mv)?;
    let new_no_bf = Fraction::from_bits(obligation.borrowed_assets_market_value_sf).checked_add(asset_mv)?;
    let new_liq = liquidity_asset_mv.checked_add(asset_mv)?;
    if new_liq.bits > 0 && new_liq.bits < min_net.bits {
        return Err(LendingError::NetValueRemainingTooSmall);
    }
    let new_ltv = new_bf.checked_div(Fraction::from_bits(obligation.deposited_value_sf))?;
    let unhealthy = obligation.unhealthy_loan_to_value()?;
    if new_ltv.bits > unhealthy.bits {
        return Err(LendingError::WorseLTVBlocked);
    }
    if new_no_bf.bits >= obligation.deposited_value_sf {
        return Err(LendingError::LiabilitiesBiggerThanAssets);
    }
    Ok(())
}

/// Checks after a repayment settling `amount` (raw): the touched debt's value is not
/// dust, and the loan-to-value does not rise.
pub fn post_repay_obligation_invariants(
    amount: Fraction,
    obligation: &Obligation,
    reserve: &Reserve,
    liquidity_asset_mv: Fraction,
    min_net: Fraction,
) -> (r: LendingResult<()>)
    requires
        reserve.liquidity.mint_decimals <= 19,
    ensures
        r == post_repay_s(amount.bits as int, *obligation, *reserve, liquidity_asset_mv.bits as int, min_net.bits as int),
        r is Ok <==> post_repay_ok(amount.bits as int, *obligation, *reserve, liquidity_asset_mv.bits as int, min_net.bits as int),
        r is Ok ==> ({
            let mv = market_value_s(*reserve, amount.sv())->Some_0;
            let bf = mul_s(Some(mv), Some(reserve.config.borrow_factor_pct * one() / 100))->Some_0;
            &&& bf <= obligation.borrow_factor_adjusted_debt_value_sf
            &&& (liquidity_asset_mv.bits != 0 ==> mv <= liquidity_asset_mv.bits && net_value_ok(
                liquidity_asset_mv.bits - mv,
                min_net.bits as int,
            ))
            &&& (obligation.deposited_value_sf > 0 ==> div_s(
                Some(obligation.borrow_factor_adjusted_debt_value_sf - bf),
                Some(obligation.deposited_value_sf as int),
            )->Some_0 <= div_s(
                Some(obligation.borrow_factor_adjusted_debt_value_sf as int),
                Some(obligation.deposited_value_sf as int),
            )->Some_0)
        }),
{
    let asset_mv = calculate_market_value_from_liquidity_amount(reserve, amount)?;
    let bf_mv = asset_mv.checked_mul(reserve.borrow_factor_f())?;
    let new_bf = Fraction::from_bits(obligation.borrow_factor_adjusted_debt_value_sf).checked_sub(bf_mv)?;
    if liquidity_asset_mv.bits != 0 {
        let new_liq = liquidity_asset_mv.checked_sub(asset_mv)?;
        if new_liq.bits > 0 && new_liq.bits < min_net.bits {
            return Err(LendingError::NetValueRemainingTooSmall);
        }
    }
    if obligation.deposited_value_sf > 0 {
        let new_ltv = new_bf.checked_div(Fraction::from_bits(obligation.deposited_value_sf))?;
        let ltv = obligation.loan_to_value()?;
        if new_ltv.bits > ltv.bits {
            return Err(LendingError::WorseLTVBlocked);
        }
    }
    Ok(())
}

/// An obligation that can back a borrow: fresh with all price checks, with deposits of
/// nonzero value.
/// The outcome of checking that an obligation can back a borrow.
pub open spec fn obligation_ready_s(o: Obligation, slot: u64) -> LendingResult<()> {
    match o.last_update.is_stale_spec(slot, all_flags()) {
        None => Err(LendingError::MathOverflow),
        Some(true) => Err(LendingError::ObligationStale),
        Some(false) => if o.n_deposits(None) == 0 {
            Err(LendingError::ObligationDepositsEmpty)
        } else if o.deposited_value_sf == 0 {
            Err(LendingError::ObligationDepositsZero)
        } else {
            Ok(())
        },
    }
}

pub fn check_obligation_fully_refreshed_and_not_null(obligation: &Obligation, slot: u64) -> (r:
    LendingResult<()>)
    requires
        obligation.wf(),
    ensures
        r == obligation_ready_s(*obligation, slot),
        r is Ok <==> obligation.last_update.is_stale_spec(slot, all_flags()) == Some(false)
            && obligation.n_deposits(None) > 0 && obligation.deposited_value_sf != 0,
        obligation.last_update.is_stale_spec(slot, all_flags()) == Some(true) ==> r == Err::<(), LendingError>(
            LendingError::ObligationStale,
        ),
{
    if obligation.last_update.is_stale(slot, &PriceStatusFlags::all_checks())? {
        return Err(LendingError::ObligationStale);
    }
    if obligation.deposits_empty() {
        return Err(LendingError::ObligationDepositsEmpty);
    }
    if obligation.deposited_value_sf == 0 {
        return Err(LendingError::ObligationDepositsZero);
    }
    Ok(())
}

/// The slot a borrow fills, as it is after the borrow of `b` (raw).
pub open spec fn borrowed_slot_s(o: Obligation, r: Reserve, key: Pubkey, i: int, b: int) -> ObligationLiquidity {
    if o.first_borrow(key, MAX_BORROWS as int) is Some {
        ObligationLiquidity { borrowed_amount_sf: (o.borrows@[i].borrowed_amount_sf + b) as u128, ..o.borrows@[i] }
    } else {
        ObligationLiquidity {
            borrow_reserve: key,
            cumulative_borrow_rate_bsf: r.liquidity.cumulative_borrow_rate_bsf,
            borrowed_amount_sf: b as u128,
            market_value_sf: 0,
            borrow_factor_adjusted_market_value_sf: 0,
        }
    }
}

/// The slot a borrow from `key` uses, if there is one.
pub open spec fn borrow_slot_opt(o: Obligation, key: Pubkey) -> Option<int> {
    match o.first_borrow(key, MAX_BORROWS as int) {
        Some(i) => Some(i),
        None => o.first_borrow(Pubkey { w0: 0, w1: 0, w2: 0, w3: 0 }, MAX_BORROWS as int),
    }
}

/// The outcome of booking a borrow of `b` (raw) from the reserve `r` at `key` in the
/// obligation: a full obligation, an overflowing slot, the asset-tier rule, then the
/// health checks.
pub open spec fn borrow_book_s(o: Obligation, r: Reserve, key: Pubkey, b: int, min_net: int) -> LendingResult<()> {
    match borrow_slot_opt(o, key) {
        None => Err(LendingError::ObligationReserveLimit),
        Some(i) => {
            let prior = if o.first_borrow(key, MAX_BORROWS as int) is Some {
                o.borrows@[i].borrowed_amount_sf as int
            } else {
                0
            };
            let slot_after = borrowed_slot_s(o, r, key, i, b);
            if prior + b > u128::MAX {
                Err(LendingError::MathOverflow)
            } else if !tiers_valid_seqs(
                o.deposits@,
                o.deposits_asset_tiers@,
                o.borrows@.update(i, slot_after),
                o.borrows_asset_tiers@.update(i, r.config.tier_spec().to_u8_spec()),
            ) {
                Err(LendingError::IsolatedAssetTierViolation)
            } else {
                post_borrow_s(b, o, r, slot_after.market_value_sf as int, min_net)
            }
        },
    }
}

/// The outcome of a borrow, in the order the checks are made: emergency mode, a zero
/// amount, a stale reserve, borrowing disabled, the borrow limit, an obligation that is
/// stale or holds nothing, no borrowing power or capacity left, the sizing of the borrow,
/// the debt withdrawal cap, nothing to receive, the available liquidity, a full
/// obligation, the asset-tier rule, and the health checks after the borrow.
pub open spec fn borrow_s(
    m: LendingMarket,
    r: Reserve,
    o: Obligation,
    amount: u64,
    slot: u64,
    now: u64,
    key: Pubkey,
) -> LendingResult<CalculateBorrowResult> {
    let borrowed = r.liquidity.borrowed_amount_sf as int;
    let limit = r.config.borrow_limit * one();
    let remaining_value = if o.allowed_borrow_value_sf >= o.borrow_factor_adjusted_debt_value_sf {
        o.allowed_borrow_value_sf - o.borrow_factor_adjusted_debt_value_sf
    } else {
        0
    };
    let capacity = if limit >= borrowed { limit - borrowed } else { 0 };
    if m.emergency_mode != 0 {
        Err(LendingError::GlobalEmergencyMode)
    } else if amount == 0 {
        Err(LendingError::InvalidAmount)
    } else if fresh_check_s(r, slot, all_flags()) is Err {
        Err(fresh_check_s(r, slot, all_flags())->Err_0)
    } else if m.borrow_disabled != 0 {
        Err(LendingError::BorrowingDisabled)
    } else if amount != u64::MAX && amount * one() + borrowed > u128::MAX {
        Err(LendingError::MathOverflow)
    } else if amount != u64::MAX && amount * one() + borrowed > limit {
        Err(LendingError::BorrowLimitExceeded)
    } else if obligation_ready_s(o, slot) is Err {
        Err(obligation_ready_s(o, slot)->Err_0)
    } else if remaining_value == 0 {
        Err(LendingError::BorrowTooLarge)
    } else if capacity == 0 {
        Err(LendingError::BorrowLimitExceeded)
    } else {
        match crate::reserve::calculate_borrow_s(r, amount, remaining_value, capacity) {
            Err(e) => Err(e),
            Ok(res) => {
                let b = res.borrow_amount_f.bits as int;
                match floor_s(Some(b)) {
                    None => Err(LendingError::MathOverflow),
                    Some(w) => if cap_add_spec(r.config.debt_withdrawal_cap, w as u64, now) is Err {
                        Err(cap_add_spec(r.config.debt_withdrawal_cap, w as u64, now)->Err_0)
                    } else if res.receive_amount == 0 {
                        Err(LendingError::BorrowTooSmall)
                    } else if w > r.liquidity.available_amount {
                        Err(LendingError::InsufficientLiquidity)
                    } else if borrowed + b > u128::MAX {
                        Err(LendingError::MathOverflow)
                    } else {
                        match borrow_book_s(o, r, key, b, m.min_net_value_in_obligation_sf as int) {
                            Err(e) => Err(e),
                            Ok(_) => Ok(res),
                        }
                    },
                }
            },
        }
    }
}

/// The parts of an obligation that an operation changes, compared.
pub open spec fn same_obligation(a: Obligation, b: Obligation) -> bool {
    &&& a.deposits@ == b.deposits@
    &&& a.deposits_asset_tiers@ == b.deposits_asset_tiers@
    &&& a.borrows@ == b.borrows@
    &&& a.borrows_asset_tiers@ == b.borrows_asset_tiers@
    &&& a.has_debt == b.has_debt
    &&& a.last_update == b.last_update
    &&& a.deposited_value_sf == b.deposited_value_sf
    &&& a.borrowed_assets_market_value_sf == b.borrowed_assets_market_value_sf
    &&& a.borrow_factor_adjusted_debt_value_sf == b.borrow_factor_adjusted_debt_value_sf
    &&& a.allowed_borrow_value_sf == b.allowed_borrow_value_sf
    &&& a.unhealthy_borrow_value_sf == b.unhealthy_borrow_value_sf
}

/// Books a borrow of `b` from `reserve` (already updated) in the obligation's slot for
/// `key`, checks the asset tiers and the health after it, and restores the obligation on a
/// refusal.
fn book_borrow(obligation: &mut Obligation, reserve: &Reserve, key: Pubkey, b: Fraction, min_net: Fraction) -> (r:
    LendingResult<()>)
    requires
        old(obligation).wf(),
        reserve.liquidity.mint_decimals <= 19,
    ensures
        final(obligation).wf(),
        r == borrow_book_s(*old(obligation), *reserve, key, b.bits as int, min_net.bits as int),
        r is Err ==> same_obligation(*final(obligation), *old(obligation)),
        r is Ok ==> final(obligation).tiers_valid() && final(obligation).has_debt == 1
            && final(obligation).last_update.stale,
        r is Ok ==> borrow_slot_opt(*old(obligation), key) is Some && final(obligation).borrows@ == old(obligation).borrows@.update(
            borrow_slot_opt(*old(obligation), key)->Some_0,
            borrowed_slot_s(*old(obligation), *reserve, key, borrow_slot_opt(*old(obligation), key)->Some_0, b.bits as int),
        ) && final(obligation).first_borrow(key, MAX_BORROWS as int) == borrow_slot_opt(*old(obligation), key),
        final(obligation).deposits@ == old(obligation).deposits@,
        final(obligation).borrow_factor_adjusted_debt_value_sf == old(obligation).borrow_factor_adjusted_debt_value_sf,
        final(obligation).deposited_value_sf == old(obligation).deposited_value_sf,
        final(obligation).unhealthy_borrow_value_sf == old(obligation).unhealthy_borrow_value_sf,
        final(obligation).borrowed_assets_market_value_sf == old(obligation).borrowed_assets_market_value_sf,
{
    let cum = reserve.liquidity.cumulative_borrow_rate_bsf;
    let tier = reserve.config.get_asset_tier();
    let index = match obligation.borrow_slot_index(key) {
        Some(i) => i,
        None => {
            return Err(LendingError::ObligationReserveLimit);
        },
    };
    let ghost o0 = *obligation;
    let saved_slot = obligation.borrows[index];
    let saved_tier = obligation.borrows_asset_tiers[index];
    let saved_has_debt = obligation.has_debt;
    let saved_update = obligation.last_update;
    let ghost slot_after = borrowed_slot_s(o0, *reserve, key, index as int, b.bits as int);
    let _ = obligation.find_or_add_liquidity_to_borrows(key, cum, tier)?;
    let booked = match obligation.borrow(b, index) {
        Err(e) => Err(e),
        Ok(()) => {
            proof {
                assert(obligation.borrows@ =~= o0.borrows@.update(index as int, slot_after));
                assert(obligation.borrows_asset_tiers@ =~= o0.borrows_asset_tiers@.update(
                    index as int,
                    reserve.config.tier_spec().to_u8_spec(),
                ));
            }
            obligation.has_debt = 1;
            obligation.last_update.mark_stale();
            match crate::obligation::validate_obligation_asset_tiers(obligation) {
                Err(e) => Err(e),
                Ok(()) => {
                    let liq_mv = Fraction::from_bits(obligation.borrows[index].market_value_sf);
                    post_borrow_obligation_invariants(b, obligation, reserve, liq_mv, min_net)
                },
            }
        },
    };
    if let Err(e) = booked {
        obligation.borrows.set(index, saved_slot);
        obligation.borrows_asset_tiers.set(index, saved_tier);
        obligation.has_debt = saved_has_debt;
        obligation.last_update = saved_update;
        proof {
            assert(obligation.borrows@ =~= o0.borrows@);
            assert(obligation.borrows_asset_tiers@ =~= o0.borrows_asset_tiers@);
        }
        return Err(e);
    }
    proof {
        let o1 = *obligation;
        crate::obligation::lemma_first_borrow_spec(o0, key, MAX_BORROWS as int);
        crate::obligation::lemma_first_borrow_spec(o0, Pubkey { w0: 0, w1: 0, w2: 0, w3: 0 }, MAX_BORROWS as int);
        assert forall|j: int| 0 <= j < index implies (#[trigger] o1.borrows@[j]).borrow_reserve != key by {
            assert(o1.borrows@[j].borrow_reserve == o0.borrows@[j].borrow_reserve);
        }
        crate::obligation::lemma_first_borrow_at(o1, key, MAX_BORROWS as int, index as int);
    }
    Ok(())
}

/// Borrows `amount` (or as much as possible for `u64::MAX`) from `reserve` against
/// `obligation`. Both must be refreshed in `slot` with all price checks. On a refusal
/// neither is changed.
pub fn borrow_obligation_liquidity(
    market: &LendingMarket,
    reserve: &mut Reserve,
    obligation: &mut Obligation,
    amount: u64,
    slot: u64,
    now_ts: u64,
    reserve_key: Pubkey,
) -> (r: LendingResult<CalculateBorrowResult>)
    requires
        old(obligation).wf(),
        old(reserve).liquidity.mint_decimals <= 19,
    ensures
        final(obligation).wf(),
        r == borrow_s(*market, *old(reserve), *old(obligation), amount, slot, now_ts, reserve_key),
        r is Err ==> *final(reserve) == *old(reserve) && same_obligation(*final(obligation), *old(obligation)),
        r is Ok ==> r->Ok_0.receive_amount > 0,
        r is Ok ==> floor_s(r->Ok_0.borrow_amount_f.sv()) is Some
            && final(reserve).liquidity.available_amount == old(reserve).liquidity.available_amount
            - floor_s(r->Ok_0.borrow_amount_f.sv())->Some_0,
        r is Ok ==> final(reserve).liquidity.borrowed_amount_sf == old(reserve).liquidity.borrowed_amount_sf
            + r->Ok_0.borrow_amount_f.bits,
        r is Ok ==> final(reserve).liquidity.accumulated_protocol_fees_sf == old(reserve).liquidity.accumulated_protocol_fees_sf,
        r is Ok ==> final(reserve).config == (ReserveConfig {
            debt_withdrawal_cap: cap_add_spec(
                old(reserve).config.debt_withdrawal_cap,
                floor_s(r->Ok_0.borrow_amount_f.sv())->Some_0 as u64,
                now_ts,
            )->Ok_0,
            ..old(reserve).config
        }),
        r is Ok ==> borrow_health_ok(*old(obligation), *old(reserve), r->Ok_0.borrow_amount_f.bits as int),
        r is Ok ==> final(obligation).tiers_valid(),
        r is Ok ==> final(obligation).has_debt == 1 && final(obligation).last_update.stale,
        r is Ok ==> borrow_effect(
            *old(obligation),
            *old(reserve),
            reserve_key,
            *final(obligation),
            *final(reserve),
            r->Ok_0.borrow_amount_f.bits as int,
        ),
{
    emergency_mode_disabled(market)?;
    if amount == 0 {
        return Err(LendingError::InvalidAmount);
    }
    require_fresh(reserve, slot, &PriceStatusFlags::all_checks())?;
    if market.is_borrowing_disabled() {
        return Err(LendingError::BorrowingDisabled);
    }
    let borrowed = reserve.liquidity.total_borrow();
    let limit = Fraction::from_u64(reserve.config.borrow_limit);
    if amount != u64::MAX {
        let new_borrowed = Fraction::from_u64(amount).checked_add(borrowed)?;
        if new_borrowed.bits > limit.bits {
            return Err(LendingError::BorrowLimitExceeded);
        }
    }
    check_obligation_fully_refreshed_and_not_null(obligation, slot)?;
    let remaining_value = obligation.remaining_borrow_value();
    if remaining_value.bits == 0 {
        return Err(LendingError::BorrowTooLarge);
    }
    let remaining_capacity = limit.saturating_sub(borrowed);
    if remaining_capacity.bits == 0 {
        return Err(LendingError::BorrowLimitExceeded);
    }
    let res = reserve.calculate_borrow(amount, remaining_value, remaining_capacity)?;
    let floor_amount = res.borrow_amount_f.to_floor()?;
    let mut next = *reserve;
    add_to_withdrawal_accum(&mut next.config.debt_withdrawal_cap, floor_amount, now_ts)?;
    if res.receive_amount == 0 {
        return Err(LendingError::BorrowTooSmall);
    }
    next.liquidity.borrow(res.borrow_amount_f)?;
    next.last_update.mark_stale();
    let min_net = Fraction::from_bits(market.min_net_value_in_obligation_sf);
    let ghost o0 = *obligation;
    book_borrow(obligation, &next, reserve_key, res.borrow_amount_f, min_net)?;
    proof {
        let i = borrow_slot_opt(o0, reserve_key)->Some_0;
        crate::obligation::lemma_first_borrow_spec(o0, reserve_key, MAX_BORROWS as int);
        crate::obligation::lemma_first_borrow_spec(o0, Pubkey { w0: 0, w1: 0, w2: 0, w3: 0 }, MAX_BORROWS as int);
        assert(borrow_slot(o0, reserve_key) == i);
        let prior = if o0.first_borrow(reserve_key, MAX_BORROWS as int) is Some {
            o0.borrows@[i].borrowed_amount_sf as int
        } else {
            0
        };
        assert(prior + res.borrow_amount_f.bits <= u128::MAX);
        assert(obligation.borrows@[i] == borrowed_slot_s(o0, next, reserve_key, i, res.borrow_amount_f.bits as int));
    }
    *reserve = next;
    Ok(res)
}

/// The borrow slot that a borrow from `key` uses: the slot already holding `key`, else
/// the first empty one.
pub open spec fn borrow_slot(o: Obligation, key: Pubkey) -> int {
    match o.first_borrow(key, MAX_BORROWS as int) {
        Some(i) => i,
        None => o.first_borrow(Pubkey { w0: 0, w1: 0, w2: 0, w3: 0 }, MAX_BORROWS as int)->Some_0,
    }
}

/// What a borrow of `b` (raw) from the reserve `key` does to the reserve's debt and to the
/// obligation's slot for it.
pub open spec fn borrow_effect(o0: Obligation, r0: Reserve, key: Pubkey, o1: Obligation, r1: Reserve, b: int) -> bool {
    let i = borrow_slot(o0, key);
    let prior = if o0.first_borrow(key, MAX_BORROWS as int) is Some {
        o0.borrows@[i].borrowed_amount_sf as int
    } else {
        0
    };
    &&& r1.liquidity.borrowed_amount_sf == r0.liquidity.borrowed_amount_sf + b
    &&& floor_s(Some(b)) is Some
    &&& r1.liquidity.available_amount == r0.liquidity.available_amount - floor_s(Some(b))->Some_0
    &&& r1.liquidity.accumulated_protocol_fees_sf == r0.liquidity.accumulated_protocol_fees_sf
    &&& r1.liquidity.cumulative_borrow_rate_bsf == r0.liquidity.cumulative_borrow_rate_bsf
    &&& 0 <= i < MAX_BORROWS
    &&& o1.first_borrow(key, MAX_BORROWS as int) == Some(i)
    &&& o1.borrows@[i].borrowed_amount_sf == prior + b
    &&& (o0.first_borrow(key, MAX_BORROWS as int) is None ==> o1.borrows@[i].cumulative_borrow_rate_bsf
        == r0.liquidity.cumulative_borrow_rate_bsf)
}

/// What repaying all of the debt to the reserve `key` does when the slot's index is the
/// reserve's (no interest to add): the slot's debt is gone and the reserve's debt drops by
/// it, never below zero.
pub open spec fn repay_all_effect(o1: Obligation, r1: Reserve, key: Pubkey, o2: Obligation, r2: Reserve, rp: u64) -> bool {
    let i = o1.first_borrow(key, MAX_BORROWS as int)->Some_0;
    let b = o1.borrows@[i];
    &&& o1.first_borrow(key, MAX_BORROWS as int) is Some
    &&& (b.cumulative_borrow_rate_bsf == r1.liquidity.cumulative_borrow_rate_bsf ==> o2.borrows@[i].borrowed_amount_sf
        == 0 && r2.liquidity.borrowed_amount_sf == if b.borrowed_amount_sf <= r1.liquidity.borrowed_amount_sf {
        (r1.liquidity.borrowed_amount_sf - b.borrowed_amount_sf) as u128
    } else {
        0u128
    } && ceil_s(Some(b.borrowed_amount_sf as int)) == Some(rp as int))
    &&& r2.liquidity.available_amount == r1.liquidity.available_amount + rp
    &&& r2.liquidity.accumulated_protocol_fees_sf == r1.liquidity.accumulated_protocol_fees_sf
    &&& o2.has_debt == if crate::obligation::any_debt(o2.borrows@, MAX_BORROWS as int) { 1u8 } else { 0u8 }
}

/// The deposit slot that a pledge of the reserve `key` uses: the slot already holding
/// `key`, else the first empty one.
pub open spec fn deposit_slot(o: Obligation, key: Pubkey) -> int {
    match o.first_deposit(key, MAX_DEPOSITS as int) {
        Some(i) => i,
        None => o.first_deposit(Pubkey { w0: 0, w1: 0, w2: 0, w3: 0 }, MAX_DEPOSITS as int)->Some_0,
    }
}

/// What pledging `c` c-tokens of the reserve `key` does to the obligation's slot for it.
pub open spec fn deposit_effect(o0: Obligation, key: Pubkey, o1: Obligation, c: int) -> bool {
    let i = deposit_slot(o0, key);
    let prior = if o0.first_deposit(key, MAX_DEPOSITS as int) is Some {
        o0.deposits@[i].deposited_amount as int
    } else {
        0
    };
    &&& 0 <= i < MAX_DEPOSITS
    &&& o1.first_deposit(key, MAX_DEPOSITS as int) == Some(i)
    &&& o1.deposits@[i].deposited_amount == prior + c
    &&& forall|j: int| 0 <= j < MAX_DEPOSITS && j != i ==> #[trigger] o1.deposits@[j] == o0.deposits@[j]
}

/// The slot a pledge of `key` uses, if there is one.
pub open spec fn deposit_slot_opt(o: Obligation, key: Pubkey) -> Option<int> {
    match o.first_deposit(key, MAX_DEPOSITS as int) {
        Some(i) => Some(i),
        None => o.first_deposit(Pubkey { w0: 0, w1: 0, w2: 0, w3: 0 }, MAX_DEPOSITS as int),
    }
}

/// The deposit slot for `key`, as it is after pledging `c` more c-tokens.
pub open spec fn deposited_slot_s(o: Obligation, key: Pubkey, i: int, c: u64) -> crate::obligation::ObligationCollateral {
    if o.first_deposit(key, MAX_DEPOSITS as int) is Some {
        crate::obligation::ObligationCollateral {
            deposited_amount: (o.deposits@[i].deposited_amount + c) as u64,
            ..o.deposits@[i]
        }
    } else {
        crate::obligation::ObligationCollateral { deposit_reserve: key, deposited_amount: c, market_value_sf: 0 }
    }
}

/// The outcome of pledging `c` c-tokens of `r`, in the order the checks are made:
/// emergency mode, a zero amount, a stale reserve, a full obligation, an overflowing slot,
/// the asset-tier rule, the value of the pledge, and the checks after the deposit.
pub open spec fn deposit_collateral_s(m: LendingMarket, r: Reserve, o: Obligation, slot: u64, c: u64, key: Pubkey) -> LendingResult<()> {
    if m.emergency_mode != 0 {
        Err(LendingError::GlobalEmergencyMode)
    } else if c == 0 {
        Err(LendingError::InvalidAmount)
    } else if fresh_check_s(r, slot, no_flags()) is Err {
        Err(fresh_check_s(r, slot, no_flags())->Err_0)
    } else {
        match deposit_slot_opt(o, key) {
            None => Err(LendingError::ObligationReserveLimit),
            Some(i) => {
                let prior = if o.first_deposit(key, MAX_DEPOSITS as int) is Some {
                    o.deposits@[i].deposited_amount as int
                } else {
                    0
                };
                let after = deposited_slot_s(o, key, i, c);
                if prior + c > u64::MAX {
                    Err(LendingError::MathOverflow)
                } else if !tiers_valid_seqs(
                    o.deposits@.update(i, after),
                    o.deposits_asset_tiers@.update(i, r.config.tier_spec().to_u8_spec()),
                    o.borrows@,
                    o.borrows_asset_tiers@,
                ) {
                    Err(LendingError::IsolatedAssetTierViolation)
                } else {
                    match reserve_rate_s(r) {
                        None => Err(LendingError::MathOverflow),
                        Some(rate) => match div_s(Some(c * one()), Some(rate)) {
                            None => Err(LendingError::MathOverflow),
                            Some(liq) => post_deposit_s(liq, o, r, after.market_value_sf as int, m.min_net_value_in_obligation_sf as int),
                        },
                    }
                }
            },
        }
    }
}

/// Pledges `c` c-tokens of `reserve` in `obligation`. On a refusal neither is changed.
pub fn deposit_obligation_collateral(
    reserve: &mut Reserve,
    obligation: &mut Obligation,
    slot: u64,
    c: u64,
    reserve_key: Pubkey,
    market: &LendingMarket,
) -> (r: LendingResult<()>)
    requires
        old(obligation).wf(),
        old(reserve).liquidity.mint_decimals <= 19,
    ensures
        final(obligation).wf(),
        r == deposit_collateral_s(*market, *old(reserve), *old(obligation), slot, c, reserve_key),
        r is Err ==> *final(reserve) == *old(reserve) && same_obligation(*final(obligation), *old(obligation)),
        r is Ok ==> final(obligation).tiers_valid(),
        r is Ok ==> final(obligation).last_update.stale && final(reserve).last_update.stale,
        r is Ok ==> final(reserve).liquidity == old(reserve).liquidity,
        r is Ok ==> final(reserve).collateral == old(reserve).collateral,
        r is Ok ==> final(reserve).config == old(reserve).config,
        r is Ok ==> deposit_effect(*old(obligation), reserve_key, *final(obligation), c as int),
{
    emergency_mode_disabled(market)?;
    if c == 0 {
        return Err(LendingError::InvalidAmount);
    }
    require_fresh(reserve, slot, &PriceStatusFlags::none())?;
    let index = match obligation.deposit_slot_index(reserve_key) {
        Some(i) => i,
        None => {
            return Err(LendingError::ObligationReserveLimit);
        },
    };
    let ghost o0 = *obligation;
    proof {
        crate::obligation::lemma_first_deposit_spec(o0, reserve_key, MAX_DEPOSITS as int);
        crate::obligation::lemma_first_deposit_spec(o0, Pubkey { w0: 0, w1: 0, w2: 0, w3: 0 }, MAX_DEPOSITS as int);
    }
    let saved = obligation.deposits[index];
    let saved_tier = obligation.deposits_asset_tiers[index];
    let existing = saved.deposit_reserve == reserve_key;
    let prior: u64 = if existing {
        saved.deposited_amount
    } else {
        0
    };
    if prior > u64::MAX - c {
        return Err(LendingError::MathOverflow);
    }
    let coll_mv = if existing {
        Fraction::from_bits(saved.market_value_sf)
    } else {
        Fraction::zero()
    };
    let min_net = Fraction::from_bits(market.min_net_value_in_obligation_sf);
    let tier = reserve.config.get_asset_tier();
    let ghost after = deposited_slot_s(o0, reserve_key, index as int, c);
    let _ = obligation.find_or_add_collateral_to_deposits(reserve_key, tier)?;
    obligation.deposit(c, index)?;
    proof {
        assert(obligation.deposits@ =~= o0.deposits@.update(index as int, after));
    }
    let checked = match crate::obligation::validate_obligation_asset_tiers(obligation) {
        Err(e) => Err(e),
        Ok(()) => match reserve.collateral_exchange_rate() {
            Err(e) => Err(e),
            Ok(rate) => match rate.fraction_collateral_to_liquidity(Fraction::from_u64(c)) {
                Err(e) => Err(e),
                Ok(amount) => post_deposit_obligation_invariants(amount, obligation, reserve, coll_mv, min_net),
            },
        },
    };
    if let Err(e) = checked {
        obligation.deposits.set(index, saved);
        obligation.deposits_asset_tiers.set(index, saved_tier);
        proof {
            assert(obligation.deposits@ =~= o0.deposits@);
            assert(obligation.deposits_asset_tiers@ =~= o0.deposits_asset_tiers@);
        }
        return Err(e);
    }
    obligation.last_update.mark_stale();
    reserve.last_update.mark_stale();
    proof {
        let o1 = *obligation;
        assert forall|j: int| 0 <= j < index implies (#[trigger] o1.deposits@[j]).deposit_reserve != reserve_key by {
            assert(o1.deposits@[j].deposit_reserve == o0.deposits@[j].deposit_reserve);
        }
        crate::obligation::lemma_first_deposit_at(o1, reserve_key, MAX_DEPOSITS as int, index as int);
    }
    Ok(())
}

/// The c-tokens that may leave deposit slot `i`, asked `c` (`u64::MAX` for as many as
/// allowed): without debt, up to the whole slot; with debt, `ObligationDepositsZero` for a
/// worthless obligation, `WithdrawTooLarge` when nothing or too much value would leave,
/// `WithdrawTooSmall` for nothing, else `c` (capped at the slot) or, for `u64::MAX`, the
/// share of the slot whose value the borrowing power allows.
pub open spec fn withdraw_amount_s(o: Obligation, i: int, ltv_pct: u8, c: u64, no_debt: bool) -> LendingResult<u64> {
    let coll = o.deposits@[i];
    let dep = coll.deposited_amount;
    let cv = coll.market_value_sf as int;
    let mw = if ltv_pct == 0 || o.borrow_factor_adjusted_debt_value_sf >= o.allowed_borrow_value_sf {
        Some(0int)
    } else {
        div_int_s(mul_int_s(Some(o.allowed_borrow_value_sf - o.borrow_factor_adjusted_debt_value_sf), 100), ltv_pct as int)
    };
    if no_debt {
        Ok(if c == u64::MAX || dep <= c { dep } else { c })
    } else if o.deposited_value_sf == 0 {
        Err(LendingError::ObligationDepositsZero)
    } else {
        match mw {
            None => Err(LendingError::MathOverflow),
            Some(m) => if m == 0 {
                Err(LendingError::WithdrawTooLarge)
            } else if c == u64::MAX {
                let value = if m <= cv { m } else { cv };
                match floor_s(mul_int_s(div_s(Some(value), Some(cv)), dep as int)) {
                    None => Err(LendingError::MathOverflow),
                    Some(k) => {
                        let amt = if dep <= k { dep as int } else { k };
                        if amt == 0 {
                            Err(LendingError::WithdrawTooSmall)
                        } else {
                            Ok(amt as u64)
                        }
                    },
                }
            } else {
                let amt = if c <= dep { c } else { dep };
                match mul_s(Some(cv), div_int_s(Some(amt * one()), dep as int)) {
                    None => Err(LendingError::MathOverflow),
                    Some(v) => if v > m {
                        Err(LendingError::WithdrawTooLarge)
                    } else if amt == 0 {
                        Err(LendingError::WithdrawTooSmall)
                    } else {
                        Ok(amt)
                    },
                }
            },
        }
    }
}

fn withdraw_amount(obligation: &Obligation, index: usize, ltv_pct: u8, c: u64, no_debt: bool) -> (r: LendingResult<u64>)
    requires
        obligation.wf(),
        index < MAX_DEPOSITS,
        obligation.deposits@[index as int].deposited_amount != 0,
        c != 0,
    ensures
        r == withdraw_amount_s(*obligation, index as int, ltv_pct, c, no_debt),
        r is Ok ==> 0 < r->Ok_0 <= obligation.deposits@[index as int].deposited_amount,
{
    let coll = obligation.deposits[index];
    if no_debt {
        if c == u64::MAX || coll.deposited_amount <= c {
            return Ok(coll.deposited_amount);
        }
        return Ok(c);
    }
    if obligation.deposited_value_sf == 0 {
        return Err(LendingError::ObligationDepositsZero);
    }
    let max_value = obligation.max_withdraw_value(ltv_pct)?;
    if max_value.bits == 0 {
        return Err(LendingError::WithdrawTooLarge);
    }
    let coll_value = Fraction::from_bits(coll.market_value_sf);
    let amt = if c == u64::MAX {
        let value = max_value.min(coll_value);
        let ratio = value.checked_div(coll_value)?;
        let ratioed = ratio.checked_mul_int(coll.deposited_amount as u128)?.to_floor()?;
        if coll.deposited_amount <= ratioed {
            coll.deposited_amount
        } else {
            ratioed
        }
    } else {
        let amt = if c <= coll.deposited_amount {
            c
        } else {
            coll.deposited_amount
        };
        let ratio = Fraction::from_u64(amt).checked_div_int(coll.deposited_amount as u128)?;
        let value = coll_value.checked_mul(ratio)?;
        if value.bits > max_value.bits {
            return Err(LendingError::WithdrawTooLarge);
        }
        amt
    };
    if amt == 0 {
        return Err(LendingError::WithdrawTooSmall);
    }
    Ok(amt)
}

/// The obligation after `amount` c-tokens leave deposit slot `i`: that slot shrinks
/// (emptied, holding nothing, when all leave), every other slot, the debts and the
/// aggregates stay, and the obligation is stale.
pub open spec fn withdrawn_obligation(o0: Obligation, o1: Obligation, i: int, amount: u64) -> bool {
    &&& o1.deposits@ == o0.deposits@.update(i, crate::obligation::deposit_taken(o0.deposits@[i], amount))
    &&& o1.borrows@ == o0.borrows@
    &&& o1.borrows_asset_tiers@ == o0.borrows_asset_tiers@
    &&& o1.has_debt == o0.has_debt
    &&& o1.last_update.stale
    &&& o1.deposited_value_sf == o0.deposited_value_sf
    &&& o1.borrowed_assets_market_value_sf == o0.borrowed_assets_market_value_sf
    &&& o1.borrow_factor_adjusted_debt_value_sf == o0.borrow_factor_adjusted_debt_value_sf
    &&& o1.allowed_borrow_value_sf == o0.allowed_borrow_value_sf
    &&& o1.unhealthy_borrow_value_sf == o0.unhealthy_borrow_value_sf
}

/// The outcome of a withdrawal of `c` c-tokens of `r` from `o`, in the order the checks
/// are made: emergency mode, a zero amount, a stale reserve or obligation (all price
/// checks when there is debt), no slot for `key`, an empty slot, an active reserve while
/// another is obsolete, the amount allowed, and the checks after the withdrawal.
pub open spec fn withdraw_s(m: LendingMarket, r: Reserve, o: Obligation, c: u64, slot: u64, key: Pubkey) -> LendingResult<u64> {
    let no_debt = o.n_borrows(None) == 0;
    let req = if no_debt { no_flags() } else { all_flags() };
    if m.emergency_mode != 0 {
        Err(LendingError::GlobalEmergencyMode)
    } else if c == 0 {
        Err(LendingError::InvalidAmount)
    } else if fresh_check_s(r, slot, req) is Err {
        Err(fresh_check_s(r, slot, req)->Err_0)
    } else if o.last_update.is_stale_spec(slot, req) is None {
        Err(LendingError::MathOverflow)
    } else if o.last_update.is_stale_spec(slot, req) == Some(true) {
        Err(LendingError::ObligationStale)
    } else {
        match o.first_deposit(key, MAX_DEPOSITS as int) {
            None => Err(LendingError::InvalidObligationCollateral),
            Some(i) => {
                let coll = o.deposits@[i];
                if coll.deposited_amount == 0 {
                    Err(LendingError::ObligationCollateralEmpty)
                } else if o.num_of_obsolete_reserves > 0 && r.config.status_spec() == ReserveStatus::Active {
                    Err(LendingError::ObligationInDeprecatedReserve)
                } else {
                    match withdraw_amount_s(o, i, r.config.loan_to_value_pct, c, no_debt) {
                        Err(e) => Err(e),
                        Ok(a) => match reserve_rate_s(r) {
                            None => Err(LendingError::MathOverflow),
                            Some(rate) => match div_s(Some(a * one()), Some(rate)) {
                                None => Err(LendingError::MathOverflow),
                                Some(liq) => {
                                    let mv_after = if a == coll.deposited_amount { 0 } else { coll.market_value_sf as int };
                                    match post_withdraw_s(liq, o, r, mv_after, m.min_net_value_in_obligation_sf as int) {
                                        Err(e) => Err(e),
                                        Ok(_) => Ok(a),
                                    }
                                },
                            },
                        },
                    }
                }
            },
        }
    }
}

/// Takes up to `c` c-tokens (all that the debt allows for `u64::MAX`) of `reserve` out of
/// `obligation`; returns the amount taken.
pub fn withdraw_obligation_collateral(
    market: &LendingMarket,
    reserve: &Reserve,
    obligation: &mut Obligation,
    c: u64,
    slot: u64,
    reserve_key: Pubkey,
) -> (r: LendingResult<u64>)
    requires
        old(obligation).wf(),
        reserve.liquidity.mint_decimals <= 19,
    ensures
        market.emergency_mode != 0 ==> r == Err::<u64, LendingError>(LendingError::GlobalEmergencyMode),
        final(obligation).wf(),
        market.emergency_mode == 0 && c == 0 ==> r == Err::<u64, LendingError>(LendingError::InvalidAmount),
        r is Ok ==> c != 0 && r->Ok_0 > 0,
        r is Ok ==> old(obligation).n_borrows(None) == 0 ==> fresh(*reserve, slot, no_flags()),
        r is Ok ==> old(obligation).n_borrows(None) != 0 ==> fresh(*reserve, slot, all_flags())
            && old(obligation).last_update.is_stale_spec(slot, all_flags()) == Some(false),
        r is Ok ==> old(obligation).first_deposit(reserve_key, MAX_DEPOSITS as int) is Some,
        r is Ok ==> ({
            let i = old(obligation).first_deposit(reserve_key, MAX_DEPOSITS as int)->Some_0;
            &&& r->Ok_0 <= old(obligation).deposits@[i].deposited_amount
            &&& (c != u64::MAX && old(obligation).n_borrows(None) == 0 ==> r->Ok_0 == if c
                <= old(obligation).deposits@[i].deposited_amount {
                c
            } else {
                old(obligation).deposits@[i].deposited_amount
            })
            &&& (c == u64::MAX && old(obligation).n_borrows(None) == 0 ==> r->Ok_0
                == old(obligation).deposits@[i].deposited_amount)
            &&& (r->Ok_0 < old(obligation).deposits@[i].deposited_amount ==> final(obligation).deposits@[i].deposited_amount
                == old(obligation).deposits@[i].deposited_amount - r->Ok_0)
            &&& (r->Ok_0 == old(obligation).deposits@[i].deposited_amount ==> final(obligation).deposits@[i].deposit_reserve.is_default_spec())
        }),
        r is Ok ==> !(old(obligation).num_of_obsolete_reserves > 0 && reserve.config.status_spec() == ReserveStatus::Active),
        r is Ok && old(obligation).tiers_valid() ==> final(obligation).tiers_valid(),
        r == withdraw_s(*market, *reserve, *old(obligation), c, slot, reserve_key),
        r is Err ==> same_obligation(*final(obligation), *old(obligation)),
        r is Ok ==> withdrawn_obligation(
            *old(obligation),
            *final(obligation),
            old(obligation).first_deposit(reserve_key, MAX_DEPOSITS as int)->Some_0,
            r->Ok_0,
        ),
{
    emergency_mode_disabled(market)?;
    if c == 0 {
        return Err(LendingError::InvalidAmount);
    }
    let borrows_empty = obligation.borrows_empty();
    let required = if borrows_empty {
        PriceStatusFlags::none()
    } else {
        PriceStatusFlags::all_checks()
    };
    require_fresh(reserve, slot, &required)?;
    if obligation.last_update.is_stale(slot, &required)? {
        return Err(LendingError::ObligationStale);
    }
    let index = obligation.find_collateral_in_deposits(reserve_key)?;
    let coll = obligation.deposits[index];
    if coll.deposited_amount == 0 {
        return Err(LendingError::ObligationCollateralEmpty);
    }
    if obligation.num_of_obsolete_reserves > 0 && reserve.config.get_status() == ReserveStatus::Active {
        return Err(LendingError::ObligationInDeprecatedReserve);
    }
    let withdraw_amount = withdraw_amount(obligation, index, reserve.config.loan_to_value_pct, c, borrows_empty)?;
    let rate = reserve.collateral_exchange_rate()?;
    let amount = rate.fraction_collateral_to_liquidity(Fraction::from_u64(withdraw_amount))?;
    let coll_mv = if withdraw_amount == coll.deposited_amount {
        Fraction::zero()
    } else {
        Fraction::from_bits(coll.market_value_sf)
    };
    let min_net = Fraction::from_bits(market.min_net_value_in_obligation_sf);
    post_withdraw_obligation_invariants(amount, obligation, reserve, coll_mv, min_net)?;
    obligation.withdraw(withdraw_amount, index)?;
    obligation.last_update.mark_stale();
    Ok(withdraw_amount)
}

/// Repays up to `amount` (all of the debt for `u64::MAX`) of the obligation's debt to
/// A debt brought up to the reserve's index `idx`.
pub open spec fn accrued_debt_s(b: ObligationLiquidity, idx: crate::wide::BigFraction) -> LendingResult<int> {
    if idx.v() < b.cumulative_borrow_rate_bsf.v() {
        Err(LendingError::NegativeInterestRate)
    } else if idx.v() == b.cumulative_borrow_rate_bsf.v() {
        Ok(b.borrowed_amount_sf as int)
    } else {
        match mul_s(Some(b.borrowed_amount_sf as int), crate::wide::big_ratio_s(idx.v(), b.cumulative_borrow_rate_bsf.v())) {
            Some(v) => Ok(v),
            None => Err(LendingError::MathOverflow),
        }
    }
}

/// A debt slot brought up to the reserve's index `idx` (unchanged when the index is the
/// same).
pub open spec fn accrued_slot_s(b: ObligationLiquidity, idx: crate::wide::BigFraction) -> ObligationLiquidity {
    if idx.v() == b.cumulative_borrow_rate_bsf.v() {
        b
    } else {
        ObligationLiquidity {
            borrowed_amount_sf: accrued_debt_s(b, idx)->Ok_0 as u128,
            cumulative_borrow_rate_bsf: idx,
            ..b
        }
    }
}

/// The debt a repayment of `amount` settles against accrued debt `acc`: all of it for
/// `u64::MAX`, else `amount` capped at the debt.
pub open spec fn settle_s(acc: int, amount: u64) -> int {
    if amount == u64::MAX {
        acc
    } else if amount * one() <= acc {
        amount * one()
    } else {
        acc
    }
}

/// The outcome of repaying up to `amount` of the debt to `r`, in the order the checks are
/// made: emergency mode, a zero amount, a stale reserve, no debt to `key`, an empty slot,
/// interest, the tokens owed (rounded up from the debt settled), the debt withdrawal cap,
/// an overflowing reserve, and the checks after the repayment.
pub open spec fn repay_s(m: LendingMarket, r: Reserve, o: Obligation, slot: u64, now: u64, amount: u64, key: Pubkey) -> LendingResult<u64> {
    if m.emergency_mode != 0 {
        Err(LendingError::GlobalEmergencyMode)
    } else if amount == 0 {
        Err(LendingError::InvalidAmount)
    } else if fresh_check_s(r, slot, no_flags()) is Err {
        Err(fresh_check_s(r, slot, no_flags())->Err_0)
    } else {
        match o.first_borrow(key, MAX_BORROWS as int) {
            None => Err(LendingError::InvalidObligationLiquidity),
            Some(i) => {
                let b = o.borrows@[i];
                if b.borrowed_amount_sf == 0 {
                    Err(LendingError::ObligationLiquidityEmpty)
                } else {
                    match accrued_debt_s(b, r.liquidity.cumulative_borrow_rate_bsf) {
                        Err(e) => Err(e),
                        Ok(acc) => {
                            let settle = if amount == u64::MAX {
                                acc
                            } else if amount * one() <= acc {
                                amount * one()
                            } else {
                                acc
                            };
                            match ceil_s(Some(settle)) {
                                None => Err(LendingError::MathOverflow),
                                Some(rp) => if rp == 0 {
                                    Err(LendingError::RepayTooSmall)
                                } else if cap_sub_spec(r.config.debt_withdrawal_cap, rp as u64, now) is Err {
                                    Err(cap_sub_spec(r.config.debt_withdrawal_cap, rp as u64, now)->Err_0)
                                } else if r.liquidity.available_amount + rp > u64::MAX {
                                    Err(LendingError::MathOverflow)
                                } else {
                                    let mv_after = if settle == acc { 0 } else { b.market_value_sf as int };
                                    match post_repay_s(settle, o, r, mv_after, m.min_net_value_in_obligation_sf as int) {
                                        Err(e) => Err(e),
                                        Ok(_) => Ok(rp as u64),
                                    }
                                },
                            }
                        },
                    }
                }
            },
        }
    }
}

/// Repays up to `amount` (all of the debt for `u64::MAX`) of the obligation's debt to
/// `reserve`; returns the tokens owed for it. On a refusal neither is changed.
pub fn repay_obligation_liquidity(
    reserve: &mut Reserve,
    obligation: &mut Obligation,
    slot: u64,
    now_ts: u64,
    amount: u64,
    reserve_key: Pubkey,
    market: &LendingMarket,
) -> (r: LendingResult<u64>)
    requires
        old(obligation).wf(),
        old(reserve).liquidity.mint_decimals <= 19,
    ensures
        final(obligation).wf(),
        r == repay_s(*market, *old(reserve), *old(obligation), slot, now_ts, amount, reserve_key),
        r is Err ==> *final(reserve) == *old(reserve) && same_obligation(*final(obligation), *old(obligation)),
        r is Ok ==> final(reserve).liquidity.available_amount == old(reserve).liquidity.available_amount + r->Ok_0,
        r is Ok ==> final(reserve).liquidity.borrowed_amount_sf <= old(reserve).liquidity.borrowed_amount_sf,
        r is Ok ==> ({
            let i = old(obligation).first_borrow(reserve_key, MAX_BORROWS as int)->Some_0;
            let b = old(obligation).borrows@[i];
            let idx = old(reserve).liquidity.cumulative_borrow_rate_bsf;
            let st = settle_s(accrued_debt_s(b, idx)->Ok_0, amount);
            &&& final(reserve).liquidity == (ReserveLiquidity {
                available_amount: (old(reserve).liquidity.available_amount + r->Ok_0) as u64,
                borrowed_amount_sf: if st <= old(reserve).liquidity.borrowed_amount_sf {
                    (old(reserve).liquidity.borrowed_amount_sf - st) as u128
                } else {
                    0u128
                },
                ..old(reserve).liquidity
            })
            &&& final(obligation).borrows@ == old(obligation).borrows@.update(
                i,
                crate::obligation::debt_settled(accrued_slot_s(b, idx), st),
            )
            &&& final(obligation).deposits@ == old(obligation).deposits@
            &&& final(obligation).has_debt == if crate::obligation::any_debt(final(obligation).borrows@, MAX_BORROWS as int) {
                1u8
            } else {
                0u8
            }
        }),
        r is Ok ==> final(reserve).liquidity.accumulated_protocol_fees_sf == old(reserve).liquidity.accumulated_protocol_fees_sf,
        r is Ok ==> final(reserve).config == (ReserveConfig {
            debt_withdrawal_cap: cap_sub_spec(old(reserve).config.debt_withdrawal_cap, r->Ok_0, now_ts)->Ok_0,
            ..old(reserve).config
        }),
        r is Ok && amount == u64::MAX ==> repay_all_effect(
            *old(obligation),
            *old(reserve),
            reserve_key,
            *final(obligation),
            *final(reserve),
            r->Ok_0,
        ),
        r is Ok ==> final(obligation).last_update.stale && final(reserve).last_update.stale,
        r is Ok && old(obligation).tiers_valid() ==> final(obligation).tiers_valid(),
{
    emergency_mode_disabled(market)?;
    if amount == 0 {
        return Err(LendingError::InvalidAmount);
    }
    require_fresh(reserve, slot, &PriceStatusFlags::none())?;
    let index = obligation.find_liquidity_in_borrows(reserve_key)?;
    let mut liq = obligation.borrows[index];
    if liq.borrowed_amount_sf == 0 {
        return Err(LendingError::ObligationLiquidityEmpty);
    }
    liq.accrue_interest(reserve.liquidity.cumulative_borrow_rate_bsf)?;
    let res = reserve.calculate_repay(amount, Fraction::from_bits(liq.borrowed_amount_sf))?;
    if res.repay_amount == 0 {
        return Err(LendingError::RepayTooSmall);
    }
    let mut next = *reserve;
    sub_from_withdrawal_accum(&mut next.config.debt_withdrawal_cap, res.repay_amount, now_ts)?;
    next.liquidity.repay(res.repay_amount, res.settle_amount_f)?;
    next.last_update.mark_stale();
    let liq_mv = if res.settle_amount_f.bits == liq.borrowed_amount_sf {
        Fraction::zero()
    } else {
        Fraction::from_bits(liq.market_value_sf)
    };
    let min_net = Fraction::from_bits(market.min_net_value_in_obligation_sf);
    post_repay_obligation_invariants(res.settle_amount_f, obligation, &next, liq_mv, min_net)?;
    let ghost o1 = *obligation;
    obligation.borrows.set(index, liq);
    proof {
        if o1.tiers_valid() {
            crate::obligation::lemma_tiers_valid_after_removal(o1, *obligation);
        }
    }
    let ghost o2 = *obligation;
    obligation.repay(res.settle_amount_f, index)?;
    proof {
        assert(obligation.borrows@ =~= o1.borrows@.update(
            index as int,
            crate::obligation::debt_settled(liq, res.settle_amount_f.bits as int),
        ));
    }
    obligation.update_has_debt();
    obligation.last_update.mark_stale();
    *reserve = next;
    Ok(res.repay_amount)
}

/// Lends `amount` out of a reserve for the length of one transaction.
pub fn flash_borrow_reserve_liquidity(reserve: &mut Reserve, amount: u64) -> (r: LendingResult<()>)
    ensures
        r is Err ==> *final(reserve) == *old(reserve),
        old(reserve).config.fees.flash_loan_fee_sf == u64::MAX ==> r == Err::<(), LendingError>(
            LendingError::FlashLoansDisabled,
        ),
        old(reserve).config.fees.flash_loan_fee_sf != u64::MAX && amount > old(reserve).liquidity.available_amount
            ==> r == Err::<(), LendingError>(LendingError::InsufficientLiquidity),
        r is Ok ==> final(reserve).liquidity == (ReserveLiquidity {
            available_amount: (old(reserve).liquidity.available_amount - amount) as u64,
            borrowed_amount_sf: (old(reserve).liquidity.borrowed_amount_sf + amount * one()) as u128,
            ..old(reserve).liquidity
        }),
        r is Ok ==> final(reserve).last_update.stale,
        r is Ok <==> old(reserve).config.fees.flash_loan_fee_sf != u64::MAX && amount
            <= old(reserve).liquidity.available_amount && old(reserve).liquidity.borrowed_amount_sf
            + amount * one() <= u128::MAX,
        final(reserve).config == old(reserve).config,
        final(reserve).collateral == old(reserve).collateral,
{
    if reserve.config.fees.flash_loan_fee_sf == u64::MAX {
        return Err(LendingError::FlashLoansDisabled);
    }
    proof {
        vstd::arithmetic::div_mod::lemma_div_multiples_vanish(amount as int, one());
    }
    reserve.liquidity.borrow(Fraction::from_u64(amount))?;
    reserve.last_update.mark_stale();
    Ok(())
}

/// The liquidity after a flash repayment of `amount`.
pub open spec fn flash_repaid_liquidity(l: ReserveLiquidity, amount: u64) -> ReserveLiquidity {
    ReserveLiquidity {
        available_amount: (l.available_amount + amount) as u64,
        borrowed_amount_sf: if amount * one() <= l.borrowed_amount_sf {
            (l.borrowed_amount_sf - amount * one()) as u128
        } else {
            0u128
        },
        ..l
    }
}

/// The outcome of a flash repayment of `amount`: the fee (exclusive, at the flash loan
/// rate) and the amount, unless the fee is refused or a sum overflows.
pub open spec fn flash_repay_s(r: Reserve, amount: u64) -> LendingResult<(u64, u64)> {
    match crate::reserve::fee_spec(amount * one(), r.config.fees.flash_loan_fee_sf as int, false) {
        Err(e) => Err(e),
        Ok(fee) => if r.liquidity.available_amount + amount > u64::MAX {
            Err(LendingError::MathOverflow)
        } else if total_supply_s(flash_repaid_liquidity(r.liquidity, amount)) is None {
            Err(LendingError::MathOverflow)
        } else {
            Ok((amount, fee as u64))
        },
    }
}

/// Takes back a flash loan of `amount`; returns the amount and the protocol's fee on it.
/// On a refusal the reserve is left as it was.
pub fn flash_repay_reserve_liquidity(reserve: &mut Reserve, amount: u64, slot: u64) -> (r:
    LendingResult<(u64, u64)>)
    ensures
        r == flash_repay_s(*old(reserve), amount),
        r is Err ==> *final(reserve) == *old(reserve),
        r is Ok ==> final(reserve).liquidity == (ReserveLiquidity {
            deposit_limit_crossed_slot: final(reserve).liquidity.deposit_limit_crossed_slot,
            borrow_limit_crossed_slot: final(reserve).liquidity.borrow_limit_crossed_slot,
            ..flash_repaid_liquidity(old(reserve).liquidity, amount)
        }),
        r is Ok ==> final(reserve).last_update.stale && final(reserve).config == old(reserve).config
            && final(reserve).collateral == old(reserve).collateral,
{
    let amount_f = Fraction::from_u64(amount);
    let fee = reserve.config.fees.calculate_flash_loan_fees(amount_f)?;
    let mut next = *reserve;
    next.liquidity.repay(amount, amount_f)?;
    refresh_reserve_limit_timestamps(&mut next, slot)?;
    next.last_update.mark_stale();
    *reserve = next;
    Ok((amount, fee))
}

/// The outcome of paying out the protocol's fees: refused when the reserve is not fresh
/// or there is nothing to pay; else the whole part of the fees, capped at the available
/// liquidity.
pub open spec fn redeem_fees_s(r: Reserve, slot: u64) -> LendingResult<u64> {
    let w = if r.liquidity.available_amount <= r.liquidity.accumulated_protocol_fees_sf as int / one() {
        r.liquidity.available_amount as int
    } else {
        r.liquidity.accumulated_protocol_fees_sf as int / one()
    };
    match fresh_check_s(r, slot, no_flags()) {
        Err(e) => Err(e),
        Ok(_) => if w == 0 {
            Err(LendingError::InsufficientProtocolFeesToRedeem)
        } else {
            Ok(w as u64)
        },
    }
}

/// Pays out the protocol's fees that the reserve can cover; returns the amount. On a
/// refusal the reserve is left as it was.
pub fn redeem_fees(reserve: &mut Reserve, slot: u64) -> (r: LendingResult<u64>)
    ensures
        r == redeem_fees_s(*old(reserve), slot),
        r is Err ==> *final(reserve) == *old(reserve),
        r is Ok ==> final(reserve).liquidity.available_amount == old(reserve).liquidity.available_amount - r->Ok_0,
        r is Ok ==> final(reserve).liquidity.accumulated_protocol_fees_sf == old(reserve).liquidity.accumulated_protocol_fees_sf - r->Ok_0 * one(),
        r is Ok ==> final(reserve).liquidity.borrowed_amount_sf == old(reserve).liquidity.borrowed_amount_sf,
        r is Ok ==> final(reserve).last_update.stale,
{
    require_fresh(reserve, slot, &PriceStatusFlags::none())?;
    let amount = reserve.calculate_redeem_fees()?;
    if amount == 0 {
        return Err(LendingError::InsufficientProtocolFeesToRedeem);
    }
    proof {
        vstd::arithmetic::div_mod::lemma_fundamental_div_mod(reserve.liquidity.accumulated_protocol_fees_sf as int, one());
        assert(amount * one() <= reserve.liquidity.accumulated_protocol_fees_sf) by (nonlinear_arith)
            requires
                amount <= reserve.liquidity.accumulated_protocol_fees_sf as int / one(),
                reserve.liquidity.accumulated_protocol_fees_sf as int == one() * (reserve.liquidity.accumulated_protocol_fees_sf as int / one())
                    + reserve.liquidity.accumulated_protocol_fees_sf as int % one(),
                reserve.liquidity.accumulated_protocol_fees_sf as int % one() >= 0,
        ;
    }
    reserve.liquidity.redeem_fees(amount)?;
    reserve.last_update.mark_stale();
    Ok(amount)
}

/// Guarded operations are refused while the market is in emergency mode.
pub fn emergency_mode_disabled(market: &LendingMarket) -> (r: LendingResult<()>)
    ensures
        market.emergency_mode != 0 ==> r == Err::<(), LendingError>(LendingError::GlobalEmergencyMode),
        market.emergency_mode == 0 ==> r is Ok,
{
    if market.is_emergency_mode() {
        return Err(LendingError::GlobalEmergencyMode);
    }
    Ok(())
}

/// The outcome of depositing liquidity straight into an obligation: emergency mode, the
/// deposit, the refresh of the reserve, then the pledge of the c-tokens minted.
pub open spec fn deposit_liquidity_collateral_s(m: LendingMarket, r: Reserve, o: Obligation, slot: u64, now: u64, amount: u64, key: Pubkey) -> LendingResult<u64> {
    if m.emergency_mode != 0 {
        Err(LendingError::GlobalEmergencyMode)
    } else {
        match deposit_reserve_liquidity_s(r, slot, now, amount) {
            Err(e) => Err(e),
            Ok(c) => {
                let r1 = deposited_reserve_s(r, amount, c, now);
                match crate::reserve::accrue_s(r1, slot) {
                    Err(e) => Err(e),
                    Ok(_) => match deposit_collateral_s(m, refreshed_s(r1, slot, now), o, slot, c, key) {
                        Err(e) => Err(e),
                        Ok(_) => Ok(c),
                    },
                }
            },
        }
    }
}

/// Deposits `amount` of liquidity into the reserve and pledges the c-tokens minted in the
/// obligation, in one step; returns the c-tokens. On a refusal neither is changed.
pub fn deposit_liquidity_collateral(
    reserve: &mut Reserve,
    obligation: &mut Obligation,
    market: &LendingMarket,
    slot: u64,
    now_ts: u64,
    amount: u64,
    reserve_key: Pubkey,
) -> (r: LendingResult<u64>)
    requires
        old(obligation).wf(),
        old(reserve).liquidity.mint_decimals <= 19,
    ensures
        final(obligation).wf(),
        r == deposit_liquidity_collateral_s(*market, *old(reserve), *old(obligation), slot, now_ts, amount, reserve_key),
        r is Err ==> *final(reserve) == *old(reserve) && same_obligation(*final(obligation), *old(obligation)),
        r is Ok ==> crate::reserve::liquidity_to_collateral_s(
            reserve_rate_s(*old(reserve))->Some_0,
            amount as int,
        ) == Some(r->Ok_0 as int),
        r is Ok ==> final(reserve).liquidity.available_amount == old(reserve).liquidity.available_amount + amount,
        r is Ok ==> final(reserve).collateral.mint_total_supply == old(reserve).collateral.mint_total_supply + r->Ok_0,
        r is Ok ==> final(obligation).tiers_valid(),
        r is Ok ==> deposit_effect(*old(obligation), reserve_key, *final(obligation), r->Ok_0 as int),
{
    emergency_mode_disabled(market)?;
    let mut next = *reserve;
    let c = deposit_reserve_liquidity(&mut next, slot, now_ts, amount)?;
    refresh_reserve(&mut next, slot, now_ts, None)?;
    deposit_obligation_collateral(&mut next, obligation, slot, c, reserve_key, market)?;
    *reserve = next;
    Ok(c)
}

/// How a transfer moved tokens into or out of a reserve's vault.
#[derive(Clone, Copy, Debug, PartialEq, Eq, Structural)]
pub enum LendingAction {
    Additive(u64),
    Subtractive(u64),
}

/// After a token transfer: the gap between the vault's balance and the available amount
/// is unchanged, and both moved by exactly the amount transferred.
pub fn post_transfer_vault_balance_liquidity_reserve_checks(
    final_vault: u64,
    final_available: u64,
    initial_vault: u64,
    initial_available: u64,
    action: LendingAction,
) -> (r: LendingResult<()>)
    ensures
        r is Ok <==> ({
            &&& final_vault - final_available == initial_vault - initial_available
            &&& match action {
                LendingAction::Additive(a) => final_vault == initial_vault + a && final_available
                    == initial_available + a,
                LendingAction::Subtractive(a) => final_vault == initial_vault - a && final_available
                    == initial_available - a,
            }
        }),
        final_vault - final_available != initial_vault - initial_available ==> r == Err::<(), LendingError>(
            LendingError::ReserveTokenBalanceMismatch,
        ),
        final_vault - final_available == initial_vault - initial_available && match action {
            LendingAction::Additive(a) => final_vault != initial_vault + a,
            LendingAction::Subtractive(a) => final_vault != initial_vault - a,
        } ==> r == Err::<(), LendingError>(LendingError::ReserveVaultBalanceMismatch),
{
    let pre: i128 = initial_vault as i128 - initial_available as i128;
    let post: i128 = final_vault as i128 - final_available as i128;
    if pre != post {
        return Err(LendingError::ReserveTokenBalanceMismatch);
    }
    match action {
        LendingAction::Additive(a) => {
            if initial_vault as i128 + a as i128 != final_vault as i128 {
                return Err(LendingError::ReserveVaultBalanceMismatch);
            }
            if initial_available as i128 + a as i128 != final_available as i128 {
                return Err(LendingError::ReserveAccountingMismatch);
            }
        },
        LendingAction::Subtractive(a) => {
            if initial_vault as i128 - a as i128 != final_vault as i128 {
                return Err(LendingError::ReserveVaultBalanceMismatch);
            }
            if initial_available as i128 - a as i128 != final_available as i128 {
                return Err(LendingError::ReserveAccountingMismatch);
            }
        },
    }
    Ok(())
}

} // verus!
