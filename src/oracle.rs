use vstd::prelude::*;
use crate::constants::{pow10, ten_pow};
use crate::errors::{LendingError, LendingResult};
use crate::fraction::{Fraction, div_int_s, fres, mul_int_s, one};
use crate::reserve::TokenInfo;
use crate::types::{GetPriceResult, PriceStatusFlags};

verus! {

/// Largest accepted confidence interval, in percent of the price.
pub const MAX_CONFIDENCE_PERCENTAGE: u64 = 2;

/// `100 / MAX_CONFIDENCE_PERCENTAGE`: the confidence times this may not exceed the price.
pub const CONFIDENCE_FACTOR: u64 = 50;

/// A price as an integer and a negative power of ten: `value * 10^-exp`.
#[derive(Clone, Copy, Debug, PartialEq, Eq, Structural)]
pub struct TimestampedPrice {
    pub value: u64,
    pub exp: u32,
    pub timestamp: u64,
}

/// A price and its moving average as an oracle publishes them.
#[derive(Clone, Copy, Debug, PartialEq, Eq, Structural)]
pub struct RawPriceFeed {
    pub price: i64,
    pub conf: u64,
    pub expo: i32,
    pub publish_time: i64,
    pub ema_price: i64,
    pub ema_conf: u64,
    pub ema_publish_time: i64,
}

/// The price as a fraction; `None` for an exponent beyond 19.
pub open spec fn price_value_s(p: TimestampedPrice) -> Option<int> {
    if p.exp > 19 {
        None
    } else {
        div_int_s(Some(p.value * one()), pow10(p.exp as nat) as int)
    }
}

/// `value * 10^-exp` as a fraction, rounded down.
pub fn price_to_fraction(p: &TimestampedPrice) -> (r: LendingResult<Fraction>)
    ensures
        fres(r) == price_value_s(*p),
        r is Err ==> r == Err::<Fraction, LendingError>(LendingError::PriceNotValid),
{
    if p.exp > 19 {
        return Err(LendingError::PriceNotValid);
    }
    let d = ten_pow(p.exp as usize);
    match Fraction::from_u64(p.value).checked_div_int(d as u128) {
        Ok(f) => Ok(f),
        Err(_) => Err(LendingError::PriceNotValid),
    }
}

/// Rejects a zero or negative price, and a confidence interval wider than the price over
/// `factor`.
pub fn validate_confidence(price: i64, conf: u64, factor: u64) -> (r: LendingResult<()>)
    ensures
        price < 0 ==> r == Err::<(), LendingError>(LendingError::PriceNotValid),
        price == 0 ==> r == Err::<(), LendingError>(LendingError::PriceIsZero),
        price > 0 && conf * factor > price ==> r == Err::<(), LendingError>(
            LendingError::PriceConfidenceTooWide,
        ),
        price > 0 && conf * factor <= price ==> r is Ok,
{
    if price < 0 {
        return Err(LendingError::PriceNotValid);
    }
    if price == 0 {
        return Err(LendingError::PriceIsZero);
    }
    assert((conf as u128) * (factor as u128) <= 0xffff_ffff_ffff_ffffu128 * 0xffff_ffff_ffff_ffffu128) by (nonlinear_arith)
        requires
            conf <= 0xffff_ffff_ffff_ffffu64,
            factor <= 0xffff_ffff_ffff_ffffu64,
    ;
    if (conf as u128) * (factor as u128) > price as u128 {
        return Err(LendingError::PriceConfidenceTooWide);
    }
    Ok(())
}

/// A published price with its exponent and time, all non-negative.
pub fn timestamped_price(price: i64, expo: i32, publish_time: i64) -> (r: LendingResult<TimestampedPrice>)
    ensures
        price >= 0 && expo <= 0 && publish_time >= 0 ==> r == Ok::<TimestampedPrice, LendingError>(
            TimestampedPrice { value: price as u64, exp: (-expo) as u32, timestamp: publish_time as u64 },
        ),
        !(price >= 0 && expo <= 0 && publish_time >= 0) ==> r == Err::<TimestampedPrice, LendingError>(
            LendingError::PriceNotValid,
        ),
{
    if price < 0 || expo > 0 || publish_time < 0 {
        return Err(LendingError::PriceNotValid);
    }
    let e: i64 = -(expo as i64);
    Ok(TimestampedPrice { value: price as u64, exp: e as u32, timestamp: publish_time as u64 })
}

pub open spec fn age_ok(ts: u64, max_age: u64, now: u64) -> bool {
    (if now >= ts { now - ts } else { 0 }) <= max_age
}

/// A price at `ts` is at most `max_age` seconds old at `now`.
pub fn check_price_age(ts: u64, max_age: u64, now: u64) -> (r: bool)
    ensures
        r == age_ok(ts, max_age, now),
{
    now.saturating_sub(ts) <= max_age
}

/// `|px - twap| * 10_000 < px * tolerance_bps`, `None` when a product overflows.
pub open spec fn within_s(px: int, twap: int, tol: int) -> Option<bool> {
    let d = if px >= twap { px - twap } else { twap - px };
    match (mul_int_s(Some(d), 10000), mul_int_s(Some(px), tol)) {
        (Some(a), Some(b)) => Some(a < b),
        _ => None,
    }
}

/// The price is within `tolerance_bps` of the twap, relative to the price.
pub fn is_within_tolerance(px: Fraction, twap: Fraction, tolerance_bps: u64) -> (r: LendingResult<bool>)
    ensures
        match within_s(px.bits as int, twap.bits as int, tolerance_bps as int) {
            Some(b) => r == Ok::<bool, LendingError>(b),
            None => r == Err::<bool, LendingError>(LendingError::MathOverflow),
        },
{
    let diff = px.abs_diff(twap).checked_mul_int(10000)?;
    let tol = px.checked_mul_int(tolerance_bps as u128)?;
    Ok(diff.bits < tol.bits)
}

/// The checks that a price passes, given its twap.
pub open spec fn validated_status_s(
    price: TimestampedPrice,
    twap: Option<TimestampedPrice>,
    info: TokenInfo,
    now: u64,
) -> PriceStatusFlags {
    let enabled = info.max_twap_divergence_bps > 0;
    PriceStatusFlags {
        price_loaded: true,
        price_age_checked: age_ok(price.timestamp, info.max_age_price_seconds, now),
        twap_age_checked: if !enabled {
            true
        } else {
            match twap {
                None => false,
                Some(t) => age_ok(t.timestamp, info.max_age_twap_seconds, now),
            }
        },
        twap_checked: if !enabled {
            true
        } else {
            match twap {
                None => false,
                Some(t) => match price_value_s(t) {
                    None => false,
                    Some(tv) => within_s(price_value_s(price)->Some_0, tv, info.max_twap_divergence_bps as int)
                        == Some(true),
                },
            }
        },
    }
}

/// Converts a price and runs the age and twap checks; each check sets its own flag.
/// `None` when the price cannot be converted.
pub fn get_validated_price(
    price: &TimestampedPrice,
    twap: &Option<TimestampedPrice>,
    info: &TokenInfo,
    now: u64,
) -> (r: Option<GetPriceResult>)
    ensures
        price_value_s(*price) is None ==> r is None,
        price_value_s(*price) is Some ==> r == Some(
            GetPriceResult {
                price: Fraction { bits: price_value_s(*price)->Some_0 as u128 },
                timestamp: price.timestamp,
                status: validated_status_s(*price, *twap, *info, now),
            },
        ),
{
    let price_dec = match price_to_fraction(price) {
        Ok(p) => p,
        Err(_) => {
            return None;
        },
    };
    let age = check_price_age(price.timestamp, info.max_age_price_seconds, now);
    let mut twap_age = true;
    let mut twap_ok = true;
    if info.is_twap_enabled() {
        match twap {
            Some(t) => {
                twap_age = check_price_age(t.timestamp, info.max_age_twap_seconds, now);
                twap_ok = match price_to_fraction(t) {
                    Ok(tv) => match is_within_tolerance(price_dec, tv, info.max_twap_divergence_bps) {
                        Ok(b) => b,
                        Err(_) => false,
                    },
                    Err(_) => false,
                };
            },
            None => {
                twap_age = false;
                twap_ok = false;
            },
        }
    }
    Some(
        GetPriceResult {
            price: price_dec,
            timestamp: price.timestamp,
            status: PriceStatusFlags {
                price_loaded: true,
                price_age_checked: age,
                twap_checked: twap_ok,
                twap_age_checked: twap_age,
            },
        },
    )
}

/// Reads an oracle feed for a reserve: a reserve without a configured feed, or without a
/// feed at hand, has no price; a zero, negative or too uncertain price is refused; else
/// the price and its moving average are checked as `get_validated_price` does.
pub fn get_price(info: &TokenInfo, feed: &Option<RawPriceFeed>, now: u64) -> (r: LendingResult<
    Option<GetPriceResult>,
>)
    ensures
        (!info.is_valid_spec() || feed is None) ==> r == Err::<Option<GetPriceResult>, LendingError>(
            LendingError::PriceNotValid,
        ),
        info.is_valid_spec() && feed is Some && feed->Some_0.price == 0 ==> r == Err::<Option<GetPriceResult>, LendingError>(
            LendingError::PriceIsZero,
        ),
        info.is_valid_spec() && feed is Some && feed->Some_0.price > 0 && feed->Some_0.conf * CONFIDENCE_FACTOR
            > feed->Some_0.price ==> r == Err::<Option<GetPriceResult>, LendingError>(
            LendingError::PriceConfidenceTooWide,
        ),
        r is Ok <==> info.is_valid_spec() && feed is Some && feed->Some_0.price > 0 && feed->Some_0.conf
            * CONFIDENCE_FACTOR <= feed->Some_0.price && feed->Some_0.expo <= 0 && feed->Some_0.publish_time >= 0
            && feed->Some_0.ema_price >= 0 && feed->Some_0.ema_publish_time >= 0,
        r is Err ==> r == Err::<Option<GetPriceResult>, LendingError>(LendingError::PriceNotValid) || r == Err::<
            Option<GetPriceResult>,
            LendingError,
        >(LendingError::PriceIsZero) || r == Err::<Option<GetPriceResult>, LendingError>(
            LendingError::PriceConfidenceTooWide,
        ),
        r is Ok ==> ({
            let f = feed->Some_0;
            let p = TimestampedPrice { value: f.price as u64, exp: (-f.expo) as u32, timestamp: f.publish_time as u64 };
            let t = TimestampedPrice { value: f.ema_price as u64, exp: (-f.expo) as u32, timestamp: f.ema_publish_time as u64 };
            &&& f.expo <= 0 && f.publish_time >= 0 && f.ema_price >= 0 && f.ema_publish_time >= 0
            &&& (price_value_s(p) is None ==> r->Ok_0 is None)
            &&& (price_value_s(p) is Some ==> r->Ok_0 == Some(
                GetPriceResult {
                    price: Fraction { bits: price_value_s(p)->Some_0 as u128 },
                    timestamp: p.timestamp,
                    status: validated_status_s(p, Some(t), *info, now),
                },
            ))
        }),
{
    if !info.is_valid() {
        return Err(LendingError::PriceNotValid);
    }
    let f = match feed {
        Some(f) => f,
        None => {
            return Err(LendingError::PriceNotValid);
        },
    };
    validate_confidence(f.price, f.conf, CONFIDENCE_FACTOR)?;
    let p = timestamped_price(f.price, f.expo, f.publish_time)?;
    let t = timestamped_price(f.ema_price, f.expo, f.ema_publish_time)?;
    Ok(get_validated_price(&p, &Some(t), info, now))
}

} // verus!
