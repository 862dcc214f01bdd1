use vstd::prelude::*;
use crate::caps::WithdrawalCaps;
use crate::constants::{PROGRAM_VERSION, SLOTS_PER_YEAR, pow10, ten_pow};
use crate::curve::{BorrowRateCurve, borrow_rate_spec};
use crate::errors::{LendingError, LendingResult};
use crate::fraction::{
    Fraction, FRACTION_ONE_SCALED, add_s, div_int_s, div_s, floor_s, fres, math_only,
    min_s, mul_int_s, mul_s, one, round_s, sub_s, ures, ceil_s,
};
use crate::types::{AssetTier, LastUpdate, Pubkey, ReserveStatus};
use crate::wide::{BigFraction, big_mul_s, big_of};

verus! {

/// Per-asset oracle settings.
#[derive(Clone, Copy, Debug)]
pub struct TokenInfo {
    pub name: [u8; 32],
    pub max_twap_divergence_bps: u64,
    pub max_age_price_seconds: u64,
    pub max_age_twap_seconds: u64,
    pub pyth_price: Pubkey,
}

impl TokenInfo {
    pub open spec fn is_valid_spec(&self) -> bool {
        !self.pyth_price.is_default_spec() && self.pyth_price != null_pubkey()
    }

    /// The feed is configured: its id is neither empty nor the null id.
    pub fn is_valid(&self) -> (r: bool)
        ensures
            r == self.is_valid_spec(),
    {
        !self.pyth_price.is_default() && self.pyth_price != null_key()
    }

    pub fn is_twap_enabled(&self) -> (r: bool)
        ensures
            r == (self.max_twap_divergence_bps > 0),
    {
        self.max_twap_divergence_bps > 0
    }

    /// A twap check needs a twap age limit.
    pub fn is_twap_config_valid(&self) -> (r: bool)
        ensures
            r == (self.max_twap_divergence_bps == 0 || self.max_age_twap_seconds != 0),
    {
        if !self.is_twap_enabled() {
            return true;
        }
        self.max_age_twap_seconds != 0
    }
}

/// The id that a feed configuration holds when it is switched off.
pub open spec fn null_pubkey() -> Pubkey {
    Pubkey {
        w0: 0xc3f174d0d8eec10b,
        w1: 0xd8284a4b164cd437,
        w2: 0x1cb1408aa91bce4c,
        w3: 0x00000000009c5a13,
    }
}

pub fn null_key() -> (r: Pubkey)
    ensures
        r == null_pubkey(),
{
    Pubkey::new_from_words(0xc3f174d0d8eec10b, 0xd8284a4b164cd437, 0x1cb1408aa91bce4c, 0x9c5a13)
}

/// Fee rates, as raw fractions.
#[derive(Clone, Copy, Debug, PartialEq, Eq, Structural)]
pub struct ReserveFees {
    pub borrow_fee_sf: u64,
    pub flash_loan_fee_sf: u64,
}

/// Whether a fee is added on top of an amount or taken out of it.
#[derive(Clone, Copy, Debug, PartialEq, Eq, Structural)]
pub enum FeeCalculation {
    Exclusive,
    Inclusive,
}

/// The fee on `amount` (raw) at rate `fee_sf` (raw): zero when either is zero; otherwise
/// the product (for an inclusive fee, at rate `r / (1 + r)`), at least one unit, rounded,
/// and refused when it would take the whole amount.
pub open spec fn fee_spec(amount: int, fee_sf: int, inclusive: bool) -> Result<int, LendingError> {
    if fee_sf > 0 && amount > 0 {
        let f = if inclusive {
            mul_s(Some(amount), div_s(Some(fee_sf), add_s(Some(fee_sf), Some(one()))))
        } else {
            mul_s(Some(amount), Some(fee_sf))
        };
        match f {
            None => Err(LendingError::MathOverflow),
            Some(fv) => {
                let fee_f = if fv >= one() { fv } else { one() };
                if fee_f >= amount {
                    Err(LendingError::BorrowTooSmall)
                } else {
                    match round_s(Some(fee_f)) {
                        Some(v) => Ok(v),
                        None => Err(LendingError::MathOverflow),
                    }
                }
            },
        }
    } else {
        Ok(0)
    }
}

pub open spec fn ures_is(r: LendingResult<u64>, s: Result<int, LendingError>) -> bool {
    match s {
        Ok(v) => r == Ok::<u64, LendingError>(v as u64),
        Err(e) => r == Err::<u64, LendingError>(e),
    }
}

impl ReserveFees {
    fn calculate_fees(&self, amount: Fraction, fee_sf: u64, kind: FeeCalculation) -> (r:
        LendingResult<u64>)
        ensures
            ures_is(r, fee_spec(amount.bits as int, fee_sf as int, kind == FeeCalculation::Inclusive)),
    {
        let rate = Fraction::from_bits(fee_sf as u128);
        if rate.bits > 0 && amount.bits > 0 {
            let fee_amount = match kind {
                FeeCalculation::Exclusive => amount.checked_mul(rate)?,
                FeeCalculation::Inclusive => {
                    let denom = rate.checked_add(Fraction::one())?;
                    let adj = rate.checked_div(denom)?;
                    amount.checked_mul(adj)?
                },
            };
            let fee_f = fee_amount.max(Fraction::from_u64(1));
            if fee_f.bits >= amount.bits {
                return Err(LendingError::BorrowTooSmall);
            }
            fee_f.to_round()
        } else {
            Ok(0)
        }
    }

    pub fn calculate_borrow_fees(&self, amount: Fraction, kind: FeeCalculation) -> (r:
        LendingResult<u64>)
        ensures
            ures_is(
                r,
                fee_spec(amount.bits as int, self.borrow_fee_sf as int, kind == FeeCalculation::Inclusive),
            ),
    {
        self.calculate_fees(amount, self.borrow_fee_sf, kind)
    }

    pub fn calculate_flash_loan_fees(&self, amount: Fraction) -> (r: LendingResult<u64>)
        ensures
            ures_is(r, fee_spec(amount.bits as int, self.flash_loan_fee_sf as int, false)),
    {
        self.calculate_fees(amount, self.flash_loan_fee_sf, FeeCalculation::Exclusive)
    }
}

/// Per-reserve risk and fee configuration.
#[derive(Clone, Copy, Debug)]
pub struct ReserveConfig {
    pub status: u8,
    pub asset_tier: u8,
    pub protocol_take_rate_pct: u8,
    pub protocol_liquidation_fee_pct: u8,
    pub loan_to_value_pct: u8,
    pub liquidation_threshold_pct: u8,
    pub min_liquidation_bonus_bps: u16,
    pub max_liquidation_bonus_bps: u16,
    pub bad_debt_liquidation_bonus_bps: u16,
    pub deleveraging_margin_call_period_secs: u64,
    pub deleveraging_threshold_slots_per_bps: u64,
    pub fees: ReserveFees,
    pub borrow_rate_curve: BorrowRateCurve,
    pub borrow_factor_pct: u64,
    pub deposit_limit: u64,
    pub borrow_limit: u64,
    pub token_info: TokenInfo,
    pub deposit_withdrawal_cap: WithdrawalCaps,
    pub debt_withdrawal_cap: WithdrawalCaps,
}

impl ReserveConfig {
    pub open spec fn tier_spec(self) -> AssetTier {
        match AssetTier::from_u8_spec(self.asset_tier) {
            Some(t) => t,
            None => AssetTier::Regular,
        }
    }

    /// The asset tier; an unknown code reads as `Regular` (the code is checked when set).
    pub fn get_asset_tier(&self) -> (r: AssetTier)
        ensures
            r == self.tier_spec(),
    {
        match AssetTier::try_from_u8(self.asset_tier) {
            Some(t) => t,
            None => AssetTier::Regular,
        }
    }

    pub open spec fn status_spec(self) -> ReserveStatus {
        match ReserveStatus::from_u8_spec(self.status) {
            Some(s) => s,
            None => ReserveStatus::Hidden,
        }
    }

    /// The status; an unknown code reads as `Hidden`.
    pub fn get_status(&self) -> (r: ReserveStatus)
        ensures
            r == self.status_spec(),
    {
        match ReserveStatus::try_from_u8(self.status) {
            Some(s) => s,
            None => ReserveStatus::Hidden,
        }
    }

    /// The borrow factor, never below one.
    pub fn get_borrow_factor(&self) -> (r: Fraction)
        ensures
            r.bits == if self.borrow_factor_pct * one() / 100 >= one() {
                self.borrow_factor_pct * one() / 100
            } else {
                one()
            },
    {
        Fraction::one().max(Fraction::from_percent(self.borrow_factor_pct))
    }
}

/// Liquidity side of a reserve.
#[derive(Clone, Copy, Debug, PartialEq, Eq, Structural)]
pub struct ReserveLiquidity {
    pub mint_pubkey: Pubkey,
    pub supply_vault: Pubkey,
    pub fee_vault: Pubkey,
    pub available_amount: u64,
    pub borrowed_amount_sf: u128,
    pub market_price_sf: u128,
    pub market_price_last_updated_ts: u64,
    pub mint_decimals: u64,
    pub deposit_limit_crossed_slot: u64,
    pub borrow_limit_crossed_slot: u64,
    pub cumulative_borrow_rate_bsf: BigFraction,
    pub accumulated_protocol_fees_sf: u128,
}

/// Liquidity owned by depositors: available plus borrowed, less the protocol's fees.
pub open spec fn total_supply_s(l: ReserveLiquidity) -> Option<int> {
    sub_s(
        add_s(Some(l.available_amount * one()), Some(l.borrowed_amount_sf as int)),
        Some(l.accumulated_protocol_fees_sf as int),
    )
}

/// Borrowed over total supply; zero for an empty reserve.
pub open spec fn utilization_s(l: ReserveLiquidity) -> Option<int> {
    match total_supply_s(l) {
        None => None,
        Some(t) => if t == 0 {
            Some(0)
        } else {
            div_s(Some(l.borrowed_amount_sf as int), Some(t))
        },
    }
}

/// `1 + b`, the growth over one slot at per-slot rate `b`.
pub open spec fn one_plus(b: Option<int>) -> Option<int> {
    add_s(Some(one()), b)
}

/// Growth factor of debt over `e` slots at annual rate `rate`: exact powers up to four
/// slots, then the Taylor series to third order.
pub open spec fn compounded_s(rate: int, e: int) -> Option<int> {
    let b = div_int_s(Some(rate), SLOTS_PER_YEAR as int);
    let op = one_plus(b);
    if e == 0 {
        Some(one())
    } else if e == 1 {
        op
    } else if e == 2 {
        mul_s(op, op)
    } else if e == 3 {
        mul_s(mul_s(op, op), op)
    } else if e == 4 {
        mul_s(mul_s(op, op), mul_s(op, op))
    } else {
        let b2 = mul_s(b, b);
        let b3 = mul_s(b2, b);
        let first = mul_int_s(b, e);
        let second = div_int_s(mul_int_s(mul_int_s(b2, e), e - 1), 2);
        let third = div_int_s(mul_int_s(mul_int_s(mul_int_s(b3, e), e - 1), e - 2), 6);
        add_s(add_s(add_s(Some(one()), first), second), third)
    }
}

pub open spec fn opt_ge(a: Option<int>, v: int) -> bool {
    match a {
        Some(x) => x >= v,
        None => true,
    }
}

proof fn lemma_mul_ge_one(a: Option<int>, b: Option<int>)
    requires
        opt_ge(a, one()),
        opt_ge(b, one()),
    ensures
        opt_ge(mul_s(a, b), one()),
{
    match (a, b) {
        (Some(x), Some(y)) => {
            assert(x * y >= one() * one()) by (nonlinear_arith)
                requires
                    x >= one(),
                    y >= one(),
            ;
            vstd::arithmetic::div_mod::lemma_div_is_ordered(one() * one(), x * y, one());
            vstd::arithmetic::div_mod::lemma_div_multiples_vanish(one(), one());
        },
        _ => {},
    }
}

/// Debt never shrinks with time: the growth factor is at least one.
pub proof fn lemma_compounded_at_least_one(rate: int, e: int)
    requires
        0 <= rate,
        0 <= e,
    ensures
        opt_ge(compounded_s(rate, e), one()),
{
    let b = div_int_s(Some(rate), SLOTS_PER_YEAR as int);
    let op = one_plus(b);
    assert(opt_ge(op, one()));
    lemma_mul_ge_one(op, op);
    lemma_mul_ge_one(mul_s(op, op), op);
    lemma_mul_ge_one(mul_s(op, op), mul_s(op, op));
    if e >= 5 {
        let b2 = mul_s(b, b);
        let b3 = mul_s(b2, b);
        assert(opt_ge(b, 0));
        assert(opt_ge(b2, 0)) by {
            if b is Some {
                let x = b->Some_0;
                assert(x * x >= 0) by (nonlinear_arith)
                    requires
                        x >= 0,
                ;
            }
        }
        assert(opt_ge(b3, 0)) by {
            if b2 is Some && b is Some {
                let x = b2->Some_0;
                let y = b->Some_0;
                assert(x * y >= 0) by (nonlinear_arith)
                    requires
                        x >= 0,
                        y >= 0,
                ;
            }
        }
        let first = mul_int_s(b, e);
        let s1 = mul_int_s(mul_int_s(b2, e), e - 1);
        let t1 = mul_int_s(mul_int_s(mul_int_s(b3, e), e - 1), e - 2);
        assert(opt_ge(first, 0)) by {
            if b is Some {
                let x = b->Some_0;
                assert(x * e >= 0) by (nonlinear_arith)
                    requires
                        x >= 0,
                        e >= 0,
                ;
            }
        }
        assert(opt_ge(s1, 0)) by {
            lemma_mul_int_nonneg(b2, e);
            lemma_mul_int_nonneg(mul_int_s(b2, e), e - 1);
        }
        assert(opt_ge(t1, 0)) by {
            lemma_mul_int_nonneg(b3, e);
            lemma_mul_int_nonneg(mul_int_s(b3, e), e - 1);
            lemma_mul_int_nonneg(mul_int_s(mul_int_s(b3, e), e - 1), e - 2);
        }
    }
}

proof fn lemma_mul_int_nonneg(a: Option<int>, n: int)
    requires
        opt_ge(a, 0),
        n >= 0,
    ensures
        opt_ge(mul_int_s(a, n), 0),
{
    if a is Some {
        let x = a->Some_0;
        assert(x * n >= 0) by (nonlinear_arith)
            requires
                x >= 0,
                n >= 0,
        ;
    }
}

/// Growth factor of debt over `elapsed_slots` slots at the annual rate `rate`.
pub fn approximate_compounded_interest(rate: Fraction, elapsed_slots: u64) -> (r: LendingResult<
    Fraction,
>)
    ensures
        fres(r) == compounded_s(rate.bits as int, elapsed_slots as int),
        math_only(r),
{
    let base = rate.checked_div_int(SLOTS_PER_YEAR as u128)?;
    let op = Fraction::one().checked_add(base)?;
    if elapsed_slots == 0 {
        return Ok(Fraction::one());
    } else if elapsed_slots == 1 {
        return Ok(op);
    } else if elapsed_slots == 2 {
        return op.checked_mul(op);
    } else if elapsed_slots == 3 {
        return op.checked_mul(op)?.checked_mul(op);
    } else if elapsed_slots == 4 {
        let p2 = op.checked_mul(op)?;
        return p2.checked_mul(p2);
    }
    let e = elapsed_slots as u128;
    let b2 = base.checked_mul(base)?;
    let b3 = b2.checked_mul(base)?;
    let first = base.checked_mul_int(e)?;
    let second = b2.checked_mul_int(e)?.checked_mul_int(e - 1)?.checked_div_int(2)?;
    let third = b3.checked_mul_int(e)?.checked_mul_int(e - 1)?.checked_mul_int(e - 2)?.checked_div_int(
        6,
    )?;
    Fraction::one().checked_add(first)?.checked_add(second)?.checked_add(third)
}

/// The reserve's debt, index and fees after compounding at `rate` for `e` slots, with
/// the protocol taking `take` of the new interest.
pub open spec fn compound_s(l: ReserveLiquidity, rate: int, e: int, take: int) -> Option<
    ReserveLiquidity,
> {
    let comp = compounded_s(rate, e);
    let idx = match comp {
        Some(c) => big_mul_s(l.cumulative_borrow_rate_bsf.v(), c),
        None => None,
    };
    let debt = mul_s(Some(l.borrowed_amount_sf as int), comp);
    let net = sub_s(debt, Some(l.borrowed_amount_sf as int));
    let fees = add_s(mul_s(net, Some(take)), Some(l.accumulated_protocol_fees_sf as int));
    match (idx, debt, fees) {
        (Some(i), Some(d), Some(f)) => Some(
            ReserveLiquidity {
                cumulative_borrow_rate_bsf: big_of(i),
                borrowed_amount_sf: d as u128,
                accumulated_protocol_fees_sf: f as u128,
                ..l
            },
        ),
        _ => None,
    }
}

impl ReserveLiquidity {
    /// Liquidity of a new reserve: empty, cumulative borrow index one.
    pub fn new(mint_pubkey: Pubkey, mint_decimals: u8, supply_vault: Pubkey, fee_vault: Pubkey, market_price_sf: u128) -> (r:
        ReserveLiquidity)
        ensures
            r == (ReserveLiquidity {
                mint_pubkey,
                supply_vault,
                fee_vault,
                available_amount: 0,
                borrowed_amount_sf: 0,
                market_price_sf,
                market_price_last_updated_ts: 0,
                mint_decimals: mint_decimals as u64,
                deposit_limit_crossed_slot: 0,
                borrow_limit_crossed_slot: 0,
                cumulative_borrow_rate_bsf: BigFraction { hi: 0, lo: FRACTION_ONE_SCALED },
                accumulated_protocol_fees_sf: 0,
            }),
    {
        ReserveLiquidity {
            mint_pubkey,
            supply_vault,
            fee_vault,
            available_amount: 0,
            borrowed_amount_sf: 0,
            market_price_sf,
            market_price_last_updated_ts: 0,
            mint_decimals: mint_decimals as u64,
            deposit_limit_crossed_slot: 0,
            borrow_limit_crossed_slot: 0,
            cumulative_borrow_rate_bsf: BigFraction::one(),
            accumulated_protocol_fees_sf: 0,
        }
    }

    pub fn total_supply(&self) -> (r: LendingResult<Fraction>)
        ensures
            fres(r) == total_supply_s(*self),
            math_only(r),
    {
        Fraction::from_u64(self.available_amount).checked_add(
            Fraction::from_bits(self.borrowed_amount_sf),
        )?.checked_sub(Fraction::from_bits(self.accumulated_protocol_fees_sf))
    }

    pub fn total_borrow(&self) -> (r: Fraction)
        ensures
            r.bits == self.borrowed_amount_sf,
    {
        Fraction::from_bits(self.borrowed_amount_sf)
    }

    pub fn get_market_price_f(&self) -> (r: Fraction)
        ensures
            r.bits == self.market_price_sf,
    {
        Fraction::from_bits(self.market_price_sf)
    }

    pub fn deposit(&mut self, amount: u64) -> (r: LendingResult<()>)
        ensures
            old(self).available_amount + amount <= u64::MAX ==> r is Ok && *final(self)
                == (ReserveLiquidity {
                available_amount: (old(self).available_amount + amount) as u64,
                ..*old(self)
            }),
            old(self).available_amount + amount > u64::MAX ==> r == Err::<(), LendingError>(
                LendingError::MathOverflow,
            ) && *final(self) == *old(self),
    {
        match self.available_amount.checked_add(amount) {
            Some(v) => {
                self.available_amount = v;
                Ok(())
            },
            None => Err(LendingError::MathOverflow),
        }
    }

    pub fn withdraw(&mut self, amount: u64) -> (r: LendingResult<()>)
        ensures
            amount <= old(self).available_amount ==> r is Ok && *final(self) == (ReserveLiquidity {
                available_amount: (old(self).available_amount - amount) as u64,
                ..*old(self)
            }),
            amount > old(self).available_amount ==> r == Err::<(), LendingError>(
                LendingError::InsufficientLiquidity,
            ) && *final(self) == *old(self),
    {
        if amount > self.available_amount {
            return Err(LendingError::InsufficientLiquidity);
        }
        self.available_amount = self.available_amount - amount;
        Ok(())
    }

    /// Lends out `borrow_f`: the available amount drops by its integer part and the debt
    /// grows by its exact value.
    pub fn borrow(&mut self, borrow_f: Fraction) -> (r: LendingResult<()>)
        ensures
            match floor_s(borrow_f.sv()) {
                None => r == Err::<(), LendingError>(LendingError::MathOverflow),
                Some(b) => if b > old(self).available_amount {
                    r == Err::<(), LendingError>(LendingError::InsufficientLiquidity)
                } else if old(self).borrowed_amount_sf + borrow_f.bits > u128::MAX {
                    r == Err::<(), LendingError>(LendingError::MathOverflow)
                } else {
                    r is Ok && *final(self) == (ReserveLiquidity {
                        available_amount: (old(self).available_amount - b) as u64,
                        borrowed_amount_sf: (old(self).borrowed_amount_sf + borrow_f.bits) as u128,
                        ..*old(self)
                    })
                },
            },
            r is Err ==> *final(self) == *old(self),
    {
        let borrow_amount = borrow_f.to_floor()?;
        if borrow_amount > self.available_amount {
            return Err(LendingError::InsufficientLiquidity);
        }
        let nb = Fraction::from_bits(self.borrowed_amount_sf).checked_add(borrow_f)?;
        self.available_amount = self.available_amount - borrow_amount;
        self.borrowed_amount_sf = nb.bits;
        Ok(())
    }

    /// Takes back `repay_amount` tokens and settles `settle` of debt, never below zero.
    pub fn repay(&mut self, repay_amount: u64, settle: Fraction) -> (r: LendingResult<()>)
        ensures
            old(self).available_amount + repay_amount <= u64::MAX ==> r is Ok && *final(self)
                == (ReserveLiquidity {
                available_amount: (old(self).available_amount + repay_amount) as u64,
                borrowed_amount_sf: if settle.bits <= old(self).borrowed_amount_sf {
                    (old(self).borrowed_amount_sf - settle.bits) as u128
                } else {
                    0
                },
                ..*old(self)
            }),
            old(self).available_amount + repay_amount > u64::MAX ==> r == Err::<(), LendingError>(
                LendingError::MathOverflow,
            ) && *final(self) == *old(self),
    {
        let avail = match self.available_amount.checked_add(repay_amount) {
            Some(v) => v,
            None => {
                return Err(LendingError::MathOverflow);
            },
        };
        let borrowed = Fraction::from_bits(self.borrowed_amount_sf);
        let safe = settle.min(borrowed);
        self.available_amount = avail;
        self.borrowed_amount_sf = borrowed.saturating_sub(safe).bits;
        Ok(())
    }

    /// Pays out `amount` of the protocol's fees.
    pub fn redeem_fees(&mut self, amount: u64) -> (r: LendingResult<()>)
        ensures
            amount <= old(self).available_amount && amount * one()
                <= old(self).accumulated_protocol_fees_sf ==> r is Ok && *final(self)
                == (ReserveLiquidity {
                available_amount: (old(self).available_amount - amount) as u64,
                accumulated_protocol_fees_sf: (old(self).accumulated_protocol_fees_sf - amount
                    * one()) as u128,
                ..*old(self)
            }),
            !(amount <= old(self).available_amount && amount * one()
                <= old(self).accumulated_protocol_fees_sf) ==> r == Err::<(), LendingError>(
                LendingError::MathOverflow,
            ) && *final(self) == *old(self),
    {
        if amount > self.available_amount {
            return Err(LendingError::MathOverflow);
        }
        let fees = Fraction::from_bits(self.accumulated_protocol_fees_sf).checked_sub(
            Fraction::from_u64(amount),
        )?;
        self.available_amount = self.available_amount - amount;
        self.accumulated_protocol_fees_sf = fees.bits;
        Ok(())
    }

    /// Writes off `amount` of debt that will not be repaid.
    pub fn forgive_debt(&mut self, amount: Fraction) -> (r: LendingResult<()>)
        ensures
            amount.bits <= old(self).borrowed_amount_sf ==> r is Ok && *final(self) == (ReserveLiquidity {
                borrowed_amount_sf: (old(self).borrowed_amount_sf - amount.bits) as u128,
                ..*old(self)
            }),
            amount.bits > old(self).borrowed_amount_sf ==> r == Err::<(), LendingError>(LendingError::MathOverflow)
                && *final(self) == *old(self),
    {
        let b = Fraction::from_bits(self.borrowed_amount_sf).checked_sub(amount)?;
        self.borrowed_amount_sf = b.bits;
        Ok(())
    }

    pub fn utilization_rate(&self) -> (r: LendingResult<Fraction>)
        ensures
            fres(r) == utilization_s(*self),
            math_only(r),
    {
        let total = self.total_supply()?;
        if total.bits == 0 {
            return Ok(Fraction::zero());
        }
        Fraction::from_bits(self.borrowed_amount_sf).checked_div(total)
    }

    /// Compounds the debt, the cumulative borrow index and the protocol's share.
    pub fn compound_interest(&mut self, rate: Fraction, slots_elapsed: u64, take: Fraction) -> (r:
        LendingResult<()>)
        ensures
            match compound_s(*old(self), rate.bits as int, slots_elapsed as int, take.bits as int) {
                Some(l) => r is Ok && *final(self) == l,
                None => r == Err::<(), LendingError>(LendingError::MathOverflow) && *final(self)
                    == *old(self),
            },
    {
        let comp = approximate_compounded_interest(rate, slots_elapsed)?;
        let idx = self.cumulative_borrow_rate_bsf.checked_mul_fraction(comp)?;
        proof {
            crate::wide::lemma_big_of(idx);
        }
        let prev = Fraction::from_bits(self.borrowed_amount_sf);
        let debt = prev.checked_mul(comp)?;
        let net = debt.checked_sub(prev)?;
        let fee = net.checked_mul(take)?;
        let fees = fee.checked_add(Fraction::from_bits(self.accumulated_protocol_fees_sf))?;
        self.cumulative_borrow_rate_bsf = idx;
        self.borrowed_amount_sf = debt.bits;
        self.accumulated_protocol_fees_sf = fees.bits;
        Ok(())
    }
}

/// Collateral (c-token) side of a reserve.
#[derive(Clone, Copy, Debug, PartialEq, Eq, Structural)]
pub struct ReserveCollateral {
    pub mint_pubkey: Pubkey,
    pub mint_total_supply: u64,
    pub supply_vault: Pubkey,
}

/// C-tokens per unit of liquidity: one while either side is empty, else
/// `mint_total_supply / total_liquidity`.
pub open spec fn exchange_rate_s(mint_total_supply: int, total_liquidity: Option<int>) -> Option<int> {
    match total_liquidity {
        None => None,
        Some(t) => if mint_total_supply == 0 || t == 0 {
            Some(one())
        } else {
            div_s(Some(mint_total_supply * one()), Some(t))
        },
    }
}

/// C-tokens minted for `amount` of liquidity: `floor(rate * amount)`.
pub open spec fn liquidity_to_collateral_s(rate: int, amount: int) -> Option<int> {
    floor_s(mul_int_s(Some(rate), amount))
}

/// Liquidity for `c` c-tokens: `floor(c / rate)`.
pub open spec fn collateral_to_liquidity_s(rate: int, c: int) -> Option<int> {
    floor_s(div_s(Some(c * one()), Some(rate)))
}

impl ReserveCollateral {
    /// Collateral of a new reserve: no c-tokens yet.
    pub fn new(mint_pubkey: Pubkey, supply_vault: Pubkey) -> (r: ReserveCollateral)
        ensures
            r == (ReserveCollateral { mint_pubkey, mint_total_supply: 0, supply_vault }),
    {
        ReserveCollateral { mint_pubkey, mint_total_supply: 0, supply_vault }
    }

    pub fn mint(&mut self, amount: u64) -> (r: LendingResult<()>)
        ensures
            old(self).mint_total_supply + amount <= u64::MAX ==> r is Ok && final(self).mint_total_supply == old(self).mint_total_supply + amount,
            old(self).mint_total_supply + amount > u64::MAX ==> r == Err::<(), LendingError>(
                LendingError::MathOverflow,
            ),
            final(self).mint_pubkey == old(self).mint_pubkey,
            final(self).supply_vault == old(self).supply_vault,
            r is Err ==> *final(self) == *old(self),
    {
        match self.mint_total_supply.checked_add(amount) {
            Some(v) => {
                self.mint_total_supply = v;
                Ok(())
            },
            None => Err(LendingError::MathOverflow),
        }
    }

    pub fn burn(&mut self, amount: u64) -> (r: LendingResult<()>)
        ensures
            amount <= old(self).mint_total_supply ==> r is Ok && final(self).mint_total_supply
                == old(self).mint_total_supply - amount,
            amount > old(self).mint_total_supply ==> r == Err::<(), LendingError>(
                LendingError::MathOverflow,
            ),
            final(self).mint_pubkey == old(self).mint_pubkey,
            final(self).supply_vault == old(self).supply_vault,
            r is Err ==> *final(self) == *old(self),
    {
        if amount > self.mint_total_supply {
            return Err(LendingError::MathOverflow);
        }
        self.mint_total_supply = self.mint_total_supply - amount;
        Ok(())
    }

    pub fn exchange_rate(&self, total_liquidity: Fraction) -> (r: LendingResult<CollateralExchangeRate>)
        ensures
            match exchange_rate_s(self.mint_total_supply as int, total_liquidity.sv()) {
                Some(v) => r is Ok && r->Ok_0.rate.bits == v,
                None => r == Err::<CollateralExchangeRate, LendingError>(LendingError::MathOverflow),
            },
    {
        if self.mint_total_supply == 0 || total_liquidity.bits == 0 {
            Ok(CollateralExchangeRate { rate: Fraction::one() })
        } else {
            let f = Fraction::from_u64(self.mint_total_supply).checked_div(total_liquidity)?;
            Ok(CollateralExchangeRate { rate: f })
        }
    }
}

/// C-tokens per unit of liquidity.
#[derive(Clone, Copy, Debug, PartialEq, Eq, Structural)]
pub struct CollateralExchangeRate {
    pub rate: Fraction,
}

impl CollateralExchangeRate {
    pub fn collateral_to_liquidity(&self, c: u64) -> (r: LendingResult<u64>)
        ensures
            ures(r) == collateral_to_liquidity_s(self.rate.bits as int, c as int),
            math_only(r),
    {
        self.fraction_collateral_to_liquidity(Fraction::from_u64(c))?.to_floor()
    }

    pub fn fraction_collateral_to_liquidity(&self, c: Fraction) -> (r: LendingResult<Fraction>)
        ensures
            fres(r) == div_s(c.sv(), self.rate.sv()),
            math_only(r),
    {
        c.checked_div(self.rate)
    }

    pub fn liquidity_to_collateral(&self, amount: u64) -> (r: LendingResult<u64>)
        ensures
            ures(r) == liquidity_to_collateral_s(self.rate.bits as int, amount as int),
            math_only(r),
    {
        self.rate.checked_mul_int(amount as u128)?.to_floor()
    }
}

/// A lending pool for one asset.
#[derive(Clone, Copy, Debug)]
pub struct Reserve {
    pub version: u64,
    pub last_update: LastUpdate,
    pub lending_market: Pubkey,
    pub liquidity: ReserveLiquidity,
    pub collateral: ReserveCollateral,
    pub config: ReserveConfig,
}

/// The reserve's liquidity after interest accrues up to `slot`: unchanged within the
/// slot of the last update; else compounded at the curve's rate for the current
/// utilization over the slots elapsed, the protocol taking its share. A slot before the
/// last update is refused.
pub open spec fn accrue_s(r: Reserve, slot: u64) -> Result<ReserveLiquidity, LendingError> {
    if slot < r.last_update.slot {
        Err(LendingError::MathOverflow)
    } else if slot == r.last_update.slot {
        Ok(r.liquidity)
    } else {
        match utilization_s(r.liquidity) {
            None => Err(LendingError::MathOverflow),
            Some(u) => match borrow_rate_spec(r.config.borrow_rate_curve.points@, u) {
                None => Err(LendingError::InvalidUtilizationRate),
                Some(rate) => match compound_s(
                    r.liquidity,
                    rate as u128 as int,
                    slot - r.last_update.slot,
                    r.config.protocol_take_rate_pct * one() / 100,
                ) {
                    None => Err(LendingError::MathOverflow),
                    Some(l) => Ok(l),
                },
            },
        }
    }
}

/// The exchange rate of a reserve.
pub open spec fn reserve_rate_s(r: Reserve) -> Option<int> {
    exchange_rate_s(r.collateral.mint_total_supply as int, total_supply_s(r.liquidity))
}

/// What `calculate_borrow` yields.
#[derive(Clone, Copy, Debug, PartialEq, Eq, Structural)]
pub struct CalculateBorrowResult {
    pub borrow_amount_f: Fraction,
    pub receive_amount: u64,
    pub borrow_fee: u64,
}

/// What `calculate_repay` yields.
#[derive(Clone, Copy, Debug, PartialEq, Eq, Structural)]
pub struct CalculateRepayResult {
    pub settle_amount_f: Fraction,
    pub repay_amount: u64,
}

/// Borrow-factor-adjusted value of `amount` (raw) at `price` (raw) for `decimals`.
pub open spec fn bf_value_s(amount: int, price: int, decimals: nat, bf_pct: int) -> Option<int> {
    mul_s(div_int_s(mul_s(Some(amount), Some(price)), pow10(decimals) as int), Some(bf_pct * one() / 100))
}

/// The largest debt that `max_value` of borrowing power buys, bounded by what remains under
/// the limit and by the available liquidity.
pub open spec fn max_borrow_s(
    max_value: int,
    price: int,
    decimals: nat,
    bf_pct: int,
    remaining: int,
    available: int,
) -> Option<int> {
    min_s(
        min_s(
            div_s(
                div_s(mul_int_s(Some(max_value), pow10(decimals) as int), Some(price)),
                Some(bf_pct * one() / 100),
            ),
            Some(remaining),
        ),
        Some(available * one()),
    )
}

/// The outcome of sizing a borrow of `amount` (`u64::MAX` for as much as allowed) against
/// `max_value` of borrowing power and `remaining` reserve capacity (raw).
pub open spec fn calculate_borrow_s(r: Reserve, amount: u64, max_value: int, remaining: int) -> LendingResult<
    CalculateBorrowResult,
> {
    if amount == u64::MAX {
        match max_borrow_s(
            max_value,
            r.liquidity.market_price_sf as int,
            r.liquidity.mint_decimals as nat,
            r.config.borrow_factor_pct as int,
            remaining,
            r.liquidity.available_amount as int,
        ) {
            None => Err(LendingError::MathOverflow),
            Some(b) => match fee_spec(b, r.config.fees.borrow_fee_sf as int, true) {
                Err(e) => Err(e),
                Ok(fee) => if b / one() >= fee {
                    Ok(
                        CalculateBorrowResult {
                            borrow_amount_f: Fraction { bits: b as u128 },
                            receive_amount: (b / one() - fee) as u64,
                            borrow_fee: fee as u64,
                        },
                    )
                } else {
                    Err(LendingError::MathOverflow)
                },
            },
        }
    } else {
        match fee_spec(amount * one(), r.config.fees.borrow_fee_sf as int, false) {
            Err(e) => Err(e),
            Ok(fee) => match add_s(Some(amount * one()), Some(fee * one())) {
                None => Err(LendingError::MathOverflow),
                Some(b) => match bf_value_s(
                    b,
                    r.liquidity.market_price_sf as int,
                    r.liquidity.mint_decimals as nat,
                    r.config.borrow_factor_pct as int,
                ) {
                    None => Err(LendingError::MathOverflow),
                    Some(v) => if v > max_value {
                        Err(LendingError::BorrowTooLarge)
                    } else {
                        Ok(
                            CalculateBorrowResult {
                                borrow_amount_f: Fraction { bits: b as u128 },
                                receive_amount: amount,
                                borrow_fee: fee as u64,
                            },
                        )
                    },
                },
            },
        }
    }
}

impl Reserve {
    /// The borrow rate at the current utilization.
    pub fn current_borrow_rate(&self) -> (r: LendingResult<Fraction>)
        ensures
            match utilization_s(self.liquidity) {
                None => r == Err::<Fraction, LendingError>(LendingError::MathOverflow),
                Some(u) => match borrow_rate_spec(self.config.borrow_rate_curve.points@, u) {
                    Some(v) => r == Ok::<Fraction, LendingError>(Fraction { bits: v as u128 }),
                    None => r == Err::<Fraction, LendingError>(LendingError::InvalidUtilizationRate),
                },
            },
    {
        let u = self.liquidity.utilization_rate()?;
        self.config.borrow_rate_curve.get_borrow_rate(u)
    }

    pub fn borrow_factor_f(&self) -> (r: Fraction)
        ensures
            r.bits == self.config.borrow_factor_pct * one() / 100,
    {
        Fraction::from_percent(self.config.borrow_factor_pct)
    }

    pub fn collateral_exchange_rate(&self) -> (r: LendingResult<CollateralExchangeRate>)
        ensures
            match reserve_rate_s(*self) {
                Some(v) => r is Ok && r->Ok_0.rate.bits == v,
                None => r == Err::<CollateralExchangeRate, LendingError>(LendingError::MathOverflow),
            },
    {
        let total = self.liquidity.total_supply()?;
        self.collateral.exchange_rate(total)
    }

    /// Adds `amount` of liquidity and mints c-tokens for it at the current rate; returns
    /// the c-tokens minted.
    pub fn deposit_liquidity(&mut self, amount: u64) -> (r: LendingResult<u64>)
        ensures
            r is Ok ==> reserve_rate_s(*old(self)) is Some && liquidity_to_collateral_s(
                reserve_rate_s(*old(self))->Some_0,
                amount as int,
            ) == Some(r->Ok_0 as int) && final(self).liquidity == (ReserveLiquidity {
                available_amount: (old(self).liquidity.available_amount + amount) as u64,
                ..old(self).liquidity
            }) && final(self).collateral == (ReserveCollateral {
                mint_total_supply: (old(self).collateral.mint_total_supply + r->Ok_0) as u64,
                ..old(self).collateral
            }) && final(self).config == old(self).config && final(self).last_update == old(self).last_update && final(self).version == old(self).version
                && final(self).lending_market == old(self).lending_market,
            r is Err ==> r == Err::<u64, LendingError>(LendingError::MathOverflow),
            r is Err ==> *final(self) == *old(self),
            r is Err <==> (match reserve_rate_s(*old(self)) {
                None => true,
                Some(rate) => match liquidity_to_collateral_s(rate, amount as int) {
                    None => true,
                    Some(c) => old(self).liquidity.available_amount + amount > u64::MAX
                        || old(self).collateral.mint_total_supply + c > u64::MAX,
                },
            }),
    {
        let rate = self.collateral_exchange_rate()?;
        let c = rate.liquidity_to_collateral(amount)?;
        if self.collateral.mint_total_supply.checked_add(c).is_none() {
            return Err(LendingError::MathOverflow);
        }
        self.liquidity.deposit(amount)?;
        self.collateral.mint(c)?;
        Ok(c)
    }

    /// Burns `c` c-tokens and takes out the liquidity they stand for; returns that amount.
    pub fn redeem_collateral(&mut self, c: u64) -> (r: LendingResult<u64>)
        ensures
            r is Ok ==> reserve_rate_s(*old(self)) is Some && collateral_to_liquidity_s(
                reserve_rate_s(*old(self))->Some_0,
                c as int,
            ) == Some(r->Ok_0 as int) && c <= old(self).collateral.mint_total_supply
                && final(self).liquidity == (ReserveLiquidity {
                available_amount: (old(self).liquidity.available_amount - r->Ok_0) as u64,
                ..old(self).liquidity
            }) && final(self).collateral == (ReserveCollateral {
                mint_total_supply: (old(self).collateral.mint_total_supply - c) as u64,
                ..old(self).collateral
            }) && final(self).config == old(self).config && final(self).last_update == old(self).last_update && final(self).version == old(self).version
                && final(self).lending_market == old(self).lending_market,
            r is Err ==> *final(self) == *old(self),
            r is Err <==> (match reserve_rate_s(*old(self)) {
                None => true,
                Some(rate) => match collateral_to_liquidity_s(rate, c as int) {
                    None => true,
                    Some(l) => c > old(self).collateral.mint_total_supply || l
                        > old(self).liquidity.available_amount,
                },
            }),
            r == Err::<u64, LendingError>(LendingError::InsufficientLiquidity) <==> (match reserve_rate_s(*old(self)) {
                None => false,
                Some(rate) => match collateral_to_liquidity_s(rate, c as int) {
                    None => false,
                    Some(l) => c <= old(self).collateral.mint_total_supply && l
                        > old(self).liquidity.available_amount,
                },
            }),
    {
        let rate = self.collateral_exchange_rate()?;
        let l = rate.collateral_to_liquidity(c)?;
        if c > self.collateral.mint_total_supply {
            return Err(LendingError::MathOverflow);
        }
        if l > self.liquidity.available_amount {
            return Err(LendingError::InsufficientLiquidity);
        }
        self.collateral.burn(c)?;
        self.liquidity.withdraw(l)?;
        Ok(l)
    }

    /// Compounds interest from the last update up to `slot`.
    pub fn accrue_interest(&mut self, slot: u64) -> (r: LendingResult<()>)
        ensures
            match accrue_s(*old(self), slot) {
                Ok(l) => r is Ok && final(self).liquidity == l,
                Err(e) => r == Err::<(), LendingError>(e),
            },
            final(self).collateral == old(self).collateral,
            final(self).config == old(self).config,
            final(self).last_update == old(self).last_update,
            final(self).version == old(self).version,
            final(self).lending_market == old(self).lending_market,
            r is Err ==> *final(self) == *old(self),
    {
        let elapsed = self.last_update.slots_elapsed(slot)?;
        if elapsed > 0 {
            let rate = self.current_borrow_rate()?;
            let take = Fraction::from_percent(self.config.protocol_take_rate_pct as u64);
            self.liquidity.compound_interest(rate, elapsed, take)?;
        }
        Ok(())
    }

    pub fn deposit_limit_crossed(&self) -> (r: LendingResult<bool>)
        ensures
            match total_supply_s(self.liquidity) {
                Some(t) => r == Ok::<bool, LendingError>(t > self.config.deposit_limit * one()),
                None => r == Err::<bool, LendingError>(LendingError::MathOverflow),
            },
    {
        let t = self.liquidity.total_supply()?;
        Ok(t.bits > Fraction::from_u64(self.config.deposit_limit).bits)
    }

    pub fn borrow_limit_crossed(&self) -> (r: bool)
        ensures
            r == (self.liquidity.borrowed_amount_sf > self.config.borrow_limit * one()),
    {
        self.liquidity.total_borrow().bits > Fraction::from_u64(self.config.borrow_limit).bits
    }

    /// Records the first slot at which total supply went over the deposit limit, and
    /// clears it once back under.
    pub fn update_deposit_limit_crossed_slot(&mut self, slot: u64) -> (r: LendingResult<()>)
        ensures
            match total_supply_s(old(self).liquidity) {
                Some(t) => r is Ok && final(self).liquidity.deposit_limit_crossed_slot == if t
                    > old(self).config.deposit_limit * one() {
                    if old(self).liquidity.deposit_limit_crossed_slot == 0 {
                        slot
                    } else {
                        old(self).liquidity.deposit_limit_crossed_slot
                    }
                } else {
                    0
                },
                None => r == Err::<(), LendingError>(LendingError::MathOverflow),
            },
            final(self).liquidity == (ReserveLiquidity {
                deposit_limit_crossed_slot: final(self).liquidity.deposit_limit_crossed_slot,
                ..old(self).liquidity
            }),
            final(self).collateral == old(self).collateral,
            final(self).config == old(self).config,
            final(self).last_update == old(self).last_update,
            final(self).version == old(self).version,
            final(self).lending_market == old(self).lending_market,
            r is Err ==> *final(self) == *old(self),
    {
        if self.deposit_limit_crossed()? {
            if self.liquidity.deposit_limit_crossed_slot == 0 {
                self.liquidity.deposit_limit_crossed_slot = slot;
            }
        } else {
            self.liquidity.deposit_limit_crossed_slot = 0;
        }
        Ok(())
    }

    /// Records the first slot at which debt went over the borrow limit, and clears it once
    /// back under.
    pub fn update_borrow_limit_crossed_slot(&mut self, slot: u64)
        ensures
            final(self).liquidity.borrow_limit_crossed_slot == if old(self).liquidity.borrowed_amount_sf > old(self).config.borrow_limit * one() {
                if old(self).liquidity.borrow_limit_crossed_slot == 0 {
                    slot
                } else {
                    old(self).liquidity.borrow_limit_crossed_slot
                }
            } else {
                0
            },
            final(self).liquidity == (ReserveLiquidity {
                borrow_limit_crossed_slot: final(self).liquidity.borrow_limit_crossed_slot,
                ..old(self).liquidity
            }),
            final(self).collateral == old(self).collateral,
            final(self).config == old(self).config,
            final(self).last_update == old(self).last_update,
            final(self).version == old(self).version,
            final(self).lending_market == old(self).lending_market,
    {
        if self.borrow_limit_crossed() {
            if self.liquidity.borrow_limit_crossed_slot == 0 {
                self.liquidity.borrow_limit_crossed_slot = slot;
            }
        } else {
            self.liquidity.borrow_limit_crossed_slot = 0;
        }
    }

    /// Sizes a borrow. For `u64::MAX` it borrows as much as the borrowing power, the
    /// remaining reserve capacity and the available liquidity allow, fee included; else it
    /// borrows `amount` plus the fee, refused with `BorrowTooLarge` beyond the borrowing
    /// power.
    pub fn calculate_borrow(&self, amount: u64, max_bf_value: Fraction, remaining: Fraction) -> (r:
        LendingResult<CalculateBorrowResult>)
        requires
            self.liquidity.mint_decimals <= 19,
        ensures
            r == calculate_borrow_s(*self, amount, max_bf_value.bits as int, remaining.bits as int),
    {
        let decimals = ten_pow(self.liquidity.mint_decimals as usize);
        let price = self.liquidity.get_market_price_f();
        if amount == u64::MAX {
            let v = max_bf_value.checked_mul_int(decimals as u128)?;
            let v = v.checked_div(price)?;
            let v = v.checked_div(self.borrow_factor_f())?;
            let borrow_amount_f = v.min(remaining).min(Fraction::from_u64(self.liquidity.available_amount));
            let fee = self.config.fees.calculate_borrow_fees(borrow_amount_f, FeeCalculation::Inclusive)?;
            let whole = borrow_amount_f.to_floor()?;
            if whole < fee {
                return Err(LendingError::MathOverflow);
            }
            Ok(CalculateBorrowResult { borrow_amount_f, receive_amount: whole - fee, borrow_fee: fee })
        } else {
            let base = Fraction::from_u64(amount);
            let fee = self.config.fees.calculate_borrow_fees(base, FeeCalculation::Exclusive)?;
            let borrow_amount_f = base.checked_add(Fraction::from_u64(fee))?;
            let v = borrow_amount_f.checked_mul(price)?;
            let v = v.checked_div_int(decimals as u128)?;
            let v = v.checked_mul(self.borrow_factor_f())?;
            if v.bits > max_bf_value.bits {
                return Err(LendingError::BorrowTooLarge);
            }
            Ok(CalculateBorrowResult { borrow_amount_f, receive_amount: amount, borrow_fee: fee })
        }
    }

    /// Sizes a repayment: the debt settled is `amount` capped at the debt (all of it for
    /// `u64::MAX`), and the tokens owed are that rounded up.
    pub fn calculate_repay(&self, amount: u64, borrowed: Fraction) -> (r: LendingResult<
        CalculateRepayResult,
    >)
        ensures
            ({
                let settle = if amount == u64::MAX {
                    borrowed.bits as int
                } else if amount * one() <= borrowed.bits {
                    amount * one()
                } else {
                    borrowed.bits as int
                };
                match ceil_s(Some(settle)) {
                    Some(c) => r == Ok::<CalculateRepayResult, LendingError>(
                        CalculateRepayResult {
                            settle_amount_f: Fraction { bits: settle as u128 },
                            repay_amount: c as u64,
                        },
                    ),
                    None => r == Err::<CalculateRepayResult, LendingError>(LendingError::MathOverflow),
                }
            }),
    {
        let settle = if amount == u64::MAX {
            borrowed
        } else {
            Fraction::from_u64(amount).min(borrowed)
        };
        let repay_amount = settle.to_ceil()?;
        Ok(CalculateRepayResult { settle_amount_f: settle, repay_amount })
    }

    /// Protocol fees that can be paid out now: the whole part of the fees, capped at the
    /// available liquidity.
    pub fn calculate_redeem_fees(&self) -> (r: LendingResult<u64>)
        ensures
            r == Ok::<u64, LendingError>(
                if self.liquidity.available_amount <= self.liquidity.accumulated_protocol_fees_sf as int / one() {
                    self.liquidity.available_amount
                } else {
                    (self.liquidity.accumulated_protocol_fees_sf as int / one()) as u64
                },
            ),
    {
        let f = self.liquidity.accumulated_protocol_fees_sf / FRACTION_ONE_SCALED;
        if self.liquidity.available_amount as u128 <= f {
            Ok(self.liquidity.available_amount)
        } else {
            Ok(f as u64)
        }
    }
}

impl ReserveConfig {
    /// The configuration of a new reserve: everything zero, status `Hidden`.
    pub fn new_hidden() -> (r: ReserveConfig)
        ensures
            r.status == 2 && r.asset_tier == 0 && r.loan_to_value_pct == 0 && r.borrow_limit == 0
                && r.deposit_limit == 0 && r.fees.borrow_fee_sf == 0 && r.fees.flash_loan_fee_sf == 0,
    {
        let caps = WithdrawalCaps {
            config_capacity: 0,
            current_total: 0,
            last_interval_start_timestamp: 0,
            config_interval_length_seconds: 0,
        };
        ReserveConfig {
            status: 2,
            asset_tier: 0,
            protocol_take_rate_pct: 0,
            protocol_liquidation_fee_pct: 0,
            loan_to_value_pct: 0,
            liquidation_threshold_pct: 0,
            min_liquidation_bonus_bps: 0,
            max_liquidation_bonus_bps: 0,
            bad_debt_liquidation_bonus_bps: 0,
            deleveraging_margin_call_period_secs: 0,
            deleveraging_threshold_slots_per_bps: 0,
            fees: ReserveFees { borrow_fee_sf: 0, flash_loan_fee_sf: 0 },
            borrow_rate_curve: BorrowRateCurve {
                points: [crate::curve::CurvePoint { utilization_rate_bps: 0, borrow_rate_bps: 0 }; 11],
            },
            borrow_factor_pct: 0,
            deposit_limit: 0,
            borrow_limit: 0,
            token_info: TokenInfo {
                name: [0u8; 32],
                max_twap_divergence_bps: 0,
                max_age_price_seconds: 0,
                max_age_twap_seconds: 0,
                pyth_price: Pubkey::default_key(),
            },
            deposit_withdrawal_cap: caps,
            debt_withdrawal_cap: caps,
        }
    }
}

impl Reserve {
    /// A new, empty reserve in `Hidden` status: no liquidity, no c-tokens, index one.
    pub fn new(
        slot: u64,
        lending_market: Pubkey,
        mint_pubkey: Pubkey,
        mint_decimals: u8,
        supply_vault: Pubkey,
        fee_vault: Pubkey,
        collateral_mint_pubkey: Pubkey,
        collateral_supply_vault: Pubkey,
    ) -> (r: Reserve)
        ensures
            r.version == PROGRAM_VERSION,
            r.last_update.slot == slot && r.last_update.stale,
            r.lending_market == lending_market,
            r.liquidity.available_amount == 0 && r.liquidity.borrowed_amount_sf == 0
                && r.liquidity.accumulated_protocol_fees_sf == 0,
            r.liquidity.cumulative_borrow_rate_bsf.v() == one(),
            r.liquidity.mint_decimals == mint_decimals,
            r.collateral.mint_total_supply == 0,
            r.config.status == 2,
            total_supply_s(r.liquidity) == Some(0int),
    {
        Reserve {
            version: PROGRAM_VERSION as u64,
            last_update: LastUpdate::new(slot),
            lending_market,
            liquidity: ReserveLiquidity::new(mint_pubkey, mint_decimals, supply_vault, fee_vault, 0),
            collateral: ReserveCollateral::new(collateral_mint_pubkey, collateral_supply_vault),
            config: ReserveConfig::new_hidden(),
        }
    }
}

/// The current program version, as stored in records.
pub fn program_version() -> (r: u64)
    ensures
        r == PROGRAM_VERSION,
{
    PROGRAM_VERSION as u64
}

} // verus!
