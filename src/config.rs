use vstd::prelude::*;
use crate::bytes::{key_at, le, le_i64, read_bytes32, read_i64, read_key, read_le, read_u16, read_u64};
use crate::caps::WithdrawalCaps;
use crate::curve::{BorrowRateCurve, CurvePoint};
use crate::errors::{LendingError, LendingResult};
use crate::fraction::FRACTION_ONE_SCALED;
use crate::reserve::{ReserveConfig, ReserveFees, TokenInfo};
use crate::types::Pubkey;

verus! {

/// Which part of a reserve's configuration an update replaces.
#[derive(Clone, Copy, Debug, PartialEq, Eq, Structural)]
pub enum UpdateConfigMode {
    UpdateLoanToValuePct,
    UpdateMaxLiquidationBonusBps,
    UpdateLiquidationThresholdPct,
    UpdateProtocolLiquidationFee,
    UpdateProtocolTakeRate,
    UpdateFeesBorrowFee,
    UpdateFeesFlashLoanFee,
    UpdateFeesReferralFeeBps,
    UpdateDepositLimit,
    UpdateBorrowLimit,
    UpdateTokenInfoTwapDivergence,
    UpdateTokenInfoName,
    UpdateTokenInfoPriceMaxAge,
    UpdateTokenInfoTwapMaxAge,
    UpdatePythPrice,
    UpdateBorrowRateCurve,
    UpdateEntireReserveConfig,
    UpdateDebtWithdrawalCap,
    UpdateDepositWithdrawalCap,
    UpdateDebtWithdrawalCapCurrentTotal,
    UpdateDepositWithdrawalCapCurrentTotal,
    UpdateBadDebtLiquidationBonusBps,
    UpdateMinLiquidationBonusBps,
    DeleveragingMarginCallPeriod,
    UpdateBorrowFactor,
    UpdateAssetTier,
    DeleveragingThresholdSlotsPerBps,
    UpdateReserveStatus,
}

impl UpdateConfigMode {
    pub open spec fn from_u64_spec(v: u64) -> Option<UpdateConfigMode> {
        match v {
            1 => Some(UpdateConfigMode::UpdateLoanToValuePct),
            2 => Some(UpdateConfigMode::UpdateMaxLiquidationBonusBps),
            3 => Some(UpdateConfigMode::UpdateLiquidationThresholdPct),
            4 => Some(UpdateConfigMode::UpdateProtocolLiquidationFee),
            5 => Some(UpdateConfigMode::UpdateProtocolTakeRate),
            6 => Some(UpdateConfigMode::UpdateFeesBorrowFee),
            7 => Some(UpdateConfigMode::UpdateFeesFlashLoanFee),
            8 => Some(UpdateConfigMode::UpdateFeesReferralFeeBps),
            9 => Some(UpdateConfigMode::UpdateDepositLimit),
            10 => Some(UpdateConfigMode::UpdateBorrowLimit),
            14 => Some(UpdateConfigMode::UpdateTokenInfoTwapDivergence),
            17 => Some(UpdateConfigMode::UpdateTokenInfoName),
            18 => Some(UpdateConfigMode::UpdateTokenInfoPriceMaxAge),
            19 => Some(UpdateConfigMode::UpdateTokenInfoTwapMaxAge),
            21 => Some(UpdateConfigMode::UpdatePythPrice),
            24 => Some(UpdateConfigMode::UpdateBorrowRateCurve),
            25 => Some(UpdateConfigMode::UpdateEntireReserveConfig),
            26 => Some(UpdateConfigMode::UpdateDebtWithdrawalCap),
            27 => Some(UpdateConfigMode::UpdateDepositWithdrawalCap),
            28 => Some(UpdateConfigMode::UpdateDebtWithdrawalCapCurrentTotal),
            29 => Some(UpdateConfigMode::UpdateDepositWithdrawalCapCurrentTotal),
            30 => Some(UpdateConfigMode::UpdateBadDebtLiquidationBonusBps),
            31 => Some(UpdateConfigMode::UpdateMinLiquidationBonusBps),
            32 => Some(UpdateConfigMode::DeleveragingMarginCallPeriod),
            33 => Some(UpdateConfigMode::UpdateBorrowFactor),
            34 => Some(UpdateConfigMode::UpdateAssetTier),
            36 => Some(UpdateConfigMode::DeleveragingThresholdSlotsPerBps),
            39 => Some(UpdateConfigMode::UpdateReserveStatus),
            _ => None,
        }
    }

    /// The mode for a stable numeric code.
    pub fn try_from_u64(v: u64) -> (r: Option<UpdateConfigMode>)
        ensures
            r == Self::from_u64_spec(v),
    {
        match v {
            1 => Some(UpdateConfigMode::UpdateLoanToValuePct),
            2 => Some(UpdateConfigMode::UpdateMaxLiquidationBonusBps),
            3 => Some(UpdateConfigMode::UpdateLiquidationThresholdPct),
            4 => Some(UpdateConfigMode::UpdateProtocolLiquidationFee),
            5 => Some(UpdateConfigMode::UpdateProtocolTakeRate),
            6 => Some(UpdateConfigMode::UpdateFeesBorrowFee),
            7 => Some(UpdateConfigMode::UpdateFeesFlashLoanFee),
            8 => Some(UpdateConfigMode::UpdateFeesReferralFeeBps),
            9 => Some(UpdateConfigMode::UpdateDepositLimit),
            10 => Some(UpdateConfigMode::UpdateBorrowLimit),
            14 => Some(UpdateConfigMode::UpdateTokenInfoTwapDivergence),
            17 => Some(UpdateConfigMode::UpdateTokenInfoName),
            18 => Some(UpdateConfigMode::UpdateTokenInfoPriceMaxAge),
            19 => Some(UpdateConfigMode::UpdateTokenInfoTwapMaxAge),
            21 => Some(UpdateConfigMode::UpdatePythPrice),
            24 => Some(UpdateConfigMode::UpdateBorrowRateCurve),
            25 => Some(UpdateConfigMode::UpdateEntireReserveConfig),
            26 => Some(UpdateConfigMode::UpdateDebtWithdrawalCap),
            27 => Some(UpdateConfigMode::UpdateDepositWithdrawalCap),
            28 => Some(UpdateConfigMode::UpdateDebtWithdrawalCapCurrentTotal),
            29 => Some(UpdateConfigMode::UpdateDepositWithdrawalCapCurrentTotal),
            30 => Some(UpdateConfigMode::UpdateBadDebtLiquidationBonusBps),
            31 => Some(UpdateConfigMode::UpdateMinLiquidationBonusBps),
            32 => Some(UpdateConfigMode::DeleveragingMarginCallPeriod),
            33 => Some(UpdateConfigMode::UpdateBorrowFactor),
            34 => Some(UpdateConfigMode::UpdateAssetTier),
            36 => Some(UpdateConfigMode::DeleveragingThresholdSlotsPerBps),
            39 => Some(UpdateConfigMode::UpdateReserveStatus),
            _ => None,
        }
    }
}

/// Size of a serialized reserve configuration.
pub const RESERVE_CONFIG_BYTES: usize = 744;

/// Size of a serialized borrow-rate curve: 11 points of two `u32`.
pub const CURVE_BYTES: usize = 88;

/// The curve stored at `off`: for each point, utilization then rate, little-endian `u32`s.
pub open spec fn curve_at(s: Seq<u8>, off: int, c: BorrowRateCurve) -> bool {
    forall|i: int|
        0 <= i < 11 ==> (#[trigger] c.points@[i]).utilization_rate_bps == le(s, off + 8 * i, 4)
            && c.points@[i].borrow_rate_bps == le(s, off + 8 * i + 4, 4)
}

pub open spec fn caps_at(s: Seq<u8>, off: int, c: WithdrawalCaps) -> bool {
    &&& c.config_capacity == le_i64(s, off)
    &&& c.current_total == le_i64(s, off + 8)
    &&& c.last_interval_start_timestamp == le(s, off + 16, 8)
    &&& c.config_interval_length_seconds == le(s, off + 24, 8)
}

/// The serialized layout of a reserve configuration (744 bytes, little-endian, padding
/// skipped).
pub open spec fn config_at(s: Seq<u8>, c: ReserveConfig) -> bool {
    &&& c.status == s[0]
    &&& c.asset_tier == s[1]
    &&& c.protocol_take_rate_pct == s[2]
    &&& c.protocol_liquidation_fee_pct == s[3]
    &&& c.loan_to_value_pct == s[4]
    &&& c.liquidation_threshold_pct == s[5]
    &&& c.min_liquidation_bonus_bps == le(s, 6, 2)
    &&& c.max_liquidation_bonus_bps == le(s, 8, 2)
    &&& c.bad_debt_liquidation_bonus_bps == le(s, 10, 2)
    &&& c.deleveraging_margin_call_period_secs == le(s, 16, 8)
    &&& c.deleveraging_threshold_slots_per_bps == le(s, 24, 8)
    &&& c.fees.borrow_fee_sf == le(s, 32, 8)
    &&& c.fees.flash_loan_fee_sf == le(s, 40, 8)
    &&& curve_at(s, 56, c.borrow_rate_curve)
    &&& c.borrow_factor_pct == le(s, 144, 8)
    &&& c.deposit_limit == le(s, 152, 8)
    &&& c.borrow_limit == le(s, 160, 8)
    &&& c.token_info.name@ == s.subrange(168, 200)
    &&& c.token_info.max_twap_divergence_bps == le(s, 200, 8)
    &&& c.token_info.max_age_price_seconds == le(s, 208, 8)
    &&& c.token_info.max_age_twap_seconds == le(s, 216, 8)
    &&& c.token_info.pyth_price == key_at(s, 224)
    &&& caps_at(s, 416, c.deposit_withdrawal_cap)
    &&& caps_at(s, 448, c.debt_withdrawal_cap)
}

fn read_u32(v: &[u8], off: usize) -> (r: u32)
    requires
        off + 4 <= v.len(),
    ensures
        r == le(v@, off as int, 4),
{
    proof {
        reveal_with_fuel(crate::bytes::pow256, 5);
    }
    read_le(v, off, 4) as u32
}

/// Reads a borrow-rate curve.
pub fn decode_curve(v: &[u8], off: usize) -> (r: BorrowRateCurve)
    requires
        off + CURVE_BYTES <= v.len(),
    ensures
        curve_at(v@, off as int, r),
{
    let mut points: [CurvePoint; 11] = [CurvePoint { utilization_rate_bps: 0, borrow_rate_bps: 0 }; 11];
    let mut i: usize = 0;
    while i < 11
        invariant
            off + CURVE_BYTES <= v.len(),
            i <= 11,
            points@.len() == 11,
            forall|j: int|
                0 <= j < i ==> (#[trigger] points@[j]).utilization_rate_bps == le(v@, off + 8 * j, 4)
                    && points@[j].borrow_rate_bps == le(v@, off + 8 * j + 4, 4),
        decreases 11 - i,
    {
        let p = CurvePoint {
            utilization_rate_bps: read_u32(v, off + 8 * i),
            borrow_rate_bps: read_u32(v, off + 8 * i + 4),
        };
        points.set(i, p);
        i = i + 1;
    }
    BorrowRateCurve { points }
}

fn decode_caps(v: &[u8], off: usize) -> (r: WithdrawalCaps)
    requires
        off + 32 <= v.len(),
    ensures
        caps_at(v@, off as int, r),
{
    WithdrawalCaps {
        config_capacity: read_i64(v, off),
        current_total: read_i64(v, off + 8),
        last_interval_start_timestamp: read_u64(v, off + 16),
        config_interval_length_seconds: read_u64(v, off + 24),
    }
}

/// Reads a whole reserve configuration from its serialized form.
pub fn decode_reserve_config(v: &[u8]) -> (r: ReserveConfig)
    requires
        RESERVE_CONFIG_BYTES <= v.len(),
    ensures
        config_at(v@, r),
{
    ReserveConfig {
        status: v[0],
        asset_tier: v[1],
        protocol_take_rate_pct: v[2],
        protocol_liquidation_fee_pct: v[3],
        loan_to_value_pct: v[4],
        liquidation_threshold_pct: v[5],
        min_liquidation_bonus_bps: read_u16(v, 6),
        max_liquidation_bonus_bps: read_u16(v, 8),
        bad_debt_liquidation_bonus_bps: read_u16(v, 10),
        deleveraging_margin_call_period_secs: read_u64(v, 16),
        deleveraging_threshold_slots_per_bps: read_u64(v, 24),
        fees: ReserveFees { borrow_fee_sf: read_u64(v, 32), flash_loan_fee_sf: read_u64(v, 40) },
        borrow_rate_curve: decode_curve(v, 56),
        borrow_factor_pct: read_u64(v, 144),
        deposit_limit: read_u64(v, 152),
        borrow_limit: read_u64(v, 160),
        token_info: TokenInfo {
            name: read_bytes32(v, 168),
            max_twap_divergence_bps: read_u64(v, 200),
            max_age_price_seconds: read_u64(v, 208),
            max_age_twap_seconds: read_u64(v, 216),
            pyth_price: read_key(v, 224),
        },
        deposit_withdrawal_cap: decode_caps(v, 416),
        debt_withdrawal_cap: decode_caps(v, 448),
    }
}

/// Bytes of payload that a mode reads.
pub open spec fn payload_len(m: UpdateConfigMode) -> int {
    match m {
        UpdateConfigMode::UpdateLoanToValuePct => 1,
        UpdateConfigMode::UpdateMaxLiquidationBonusBps => 2,
        UpdateConfigMode::UpdateLiquidationThresholdPct => 1,
        UpdateConfigMode::UpdateProtocolLiquidationFee => 1,
        UpdateConfigMode::UpdateProtocolTakeRate => 1,
        UpdateConfigMode::UpdateFeesBorrowFee => 8,
        UpdateConfigMode::UpdateFeesFlashLoanFee => 8,
        UpdateConfigMode::UpdateFeesReferralFeeBps => 0,
        UpdateConfigMode::UpdateDepositLimit => 8,
        UpdateConfigMode::UpdateBorrowLimit => 8,
        UpdateConfigMode::UpdateTokenInfoTwapDivergence => 8,
        UpdateConfigMode::UpdateTokenInfoName => 32,
        UpdateConfigMode::UpdateTokenInfoPriceMaxAge => 8,
        UpdateConfigMode::UpdateTokenInfoTwapMaxAge => 8,
        UpdateConfigMode::UpdatePythPrice => 32,
        UpdateConfigMode::UpdateBorrowRateCurve => 88,
        UpdateConfigMode::UpdateEntireReserveConfig => 744,
        UpdateConfigMode::UpdateDebtWithdrawalCap => 16,
        UpdateConfigMode::UpdateDepositWithdrawalCap => 16,
        UpdateConfigMode::UpdateDebtWithdrawalCapCurrentTotal => 8,
        UpdateConfigMode::UpdateDepositWithdrawalCapCurrentTotal => 8,
        UpdateConfigMode::UpdateBadDebtLiquidationBonusBps => 2,
        UpdateConfigMode::UpdateMinLiquidationBonusBps => 2,
        UpdateConfigMode::DeleveragingMarginCallPeriod => 8,
        UpdateConfigMode::UpdateBorrowFactor => 8,
        UpdateConfigMode::UpdateAssetTier => 1,
        UpdateConfigMode::DeleveragingThresholdSlotsPerBps => 8,
        UpdateConfigMode::UpdateReserveStatus => 1,
    }
}

/// Bytes of payload that a mode reads.
pub fn payload_bytes(m: UpdateConfigMode) -> (r: usize)
    ensures
        r == payload_len(m),
{
    match m {
        UpdateConfigMode::UpdateLoanToValuePct => 1,
        UpdateConfigMode::UpdateMaxLiquidationBonusBps => 2,
        UpdateConfigMode::UpdateLiquidationThresholdPct => 1,
        UpdateConfigMode::UpdateProtocolLiquidationFee => 1,
        UpdateConfigMode::UpdateProtocolTakeRate => 1,
        UpdateConfigMode::UpdateFeesBorrowFee => 8,
        UpdateConfigMode::UpdateFeesFlashLoanFee => 8,
        UpdateConfigMode::UpdateFeesReferralFeeBps => 0,
        UpdateConfigMode::UpdateDepositLimit => 8,
        UpdateConfigMode::UpdateBorrowLimit => 8,
        UpdateConfigMode::UpdateTokenInfoTwapDivergence => 8,
        UpdateConfigMode::UpdateTokenInfoName => 32,
        UpdateConfigMode::UpdateTokenInfoPriceMaxAge => 8,
        UpdateConfigMode::UpdateTokenInfoTwapMaxAge => 8,
        UpdateConfigMode::UpdatePythPrice => 32,
        UpdateConfigMode::UpdateBorrowRateCurve => 88,
        UpdateConfigMode::UpdateEntireReserveConfig => 744,
        UpdateConfigMode::UpdateDebtWithdrawalCap => 16,
        UpdateConfigMode::UpdateDepositWithdrawalCap => 16,
        UpdateConfigMode::UpdateDebtWithdrawalCapCurrentTotal => 8,
        UpdateConfigMode::UpdateDepositWithdrawalCapCurrentTotal => 8,
        UpdateConfigMode::UpdateBadDebtLiquidationBonusBps => 2,
        UpdateConfigMode::UpdateMinLiquidationBonusBps => 2,
        UpdateConfigMode::DeleveragingMarginCallPeriod => 8,
        UpdateConfigMode::UpdateBorrowFactor => 8,
        UpdateConfigMode::UpdateAssetTier => 1,
        UpdateConfigMode::DeleveragingThresholdSlotsPerBps => 8,
        UpdateConfigMode::UpdateReserveStatus => 1,
    }
}

/// What an update does to a configuration, given a long enough payload `s`.
pub open spec fn config_updated(c: ReserveConfig, n: ReserveConfig, m: UpdateConfigMode, s: Seq<u8>) -> bool {
    match m {
        UpdateConfigMode::UpdateLoanToValuePct => n == (ReserveConfig { loan_to_value_pct: s[0], ..c }),
        UpdateConfigMode::UpdateLiquidationThresholdPct => n == (ReserveConfig { liquidation_threshold_pct: s[0], ..c }),
        UpdateConfigMode::UpdateProtocolLiquidationFee => n == (ReserveConfig { protocol_liquidation_fee_pct: s[0], ..c }),
        UpdateConfigMode::UpdateProtocolTakeRate => n == (ReserveConfig { protocol_take_rate_pct: s[0], ..c }),
        UpdateConfigMode::UpdateAssetTier => n == (ReserveConfig { asset_tier: s[0], ..c }),
        UpdateConfigMode::UpdateMaxLiquidationBonusBps => n == (ReserveConfig { max_liquidation_bonus_bps: le(s, 0, 2) as u16, ..c }),
        UpdateConfigMode::UpdateBadDebtLiquidationBonusBps => n == (ReserveConfig { bad_debt_liquidation_bonus_bps: le(s, 0, 2) as u16, ..c }),
        UpdateConfigMode::UpdateMinLiquidationBonusBps => n == (ReserveConfig { min_liquidation_bonus_bps: le(s, 0, 2) as u16, ..c }),
        UpdateConfigMode::UpdateDepositLimit => n == (ReserveConfig { deposit_limit: le(s, 0, 8) as u64, ..c }),
        UpdateConfigMode::UpdateBorrowLimit => n == (ReserveConfig { borrow_limit: le(s, 0, 8) as u64, ..c }),
        UpdateConfigMode::DeleveragingMarginCallPeriod => n == (ReserveConfig { deleveraging_margin_call_period_secs: le(s, 0, 8) as u64, ..c }),
        UpdateConfigMode::UpdateBorrowFactor => n == (ReserveConfig { borrow_factor_pct: le(s, 0, 8) as u64, ..c }),
        UpdateConfigMode::DeleveragingThresholdSlotsPerBps => n == (ReserveConfig { deleveraging_threshold_slots_per_bps: le(s, 0, 8) as u64, ..c }),
        UpdateConfigMode::UpdateFeesBorrowFee => n == (ReserveConfig { fees: ReserveFees { borrow_fee_sf: le(s, 0, 8) as u64, ..c.fees }, ..c }),
        UpdateConfigMode::UpdateFeesFlashLoanFee => n == (ReserveConfig { fees: ReserveFees { flash_loan_fee_sf: le(s, 0, 8) as u64, ..c.fees }, ..c }),
        UpdateConfigMode::UpdateTokenInfoTwapDivergence => n == (ReserveConfig { token_info: TokenInfo { max_twap_divergence_bps: le(s, 0, 8) as u64, ..c.token_info }, ..c }),
        UpdateConfigMode::UpdateTokenInfoPriceMaxAge => n == (ReserveConfig { token_info: TokenInfo { max_age_price_seconds: le(s, 0, 8) as u64, ..c.token_info }, ..c }),
        UpdateConfigMode::UpdateTokenInfoTwapMaxAge => n == (ReserveConfig { token_info: TokenInfo { max_age_twap_seconds: le(s, 0, 8) as u64, ..c.token_info }, ..c }),
        UpdateConfigMode::UpdateFeesReferralFeeBps => n == c,
        UpdateConfigMode::UpdateTokenInfoName => n.token_info.name@ == s.subrange(0, 32) && n == (ReserveConfig {
            token_info: TokenInfo { name: n.token_info.name, ..c.token_info },
            ..c
        }),
        UpdateConfigMode::UpdatePythPrice => n == (ReserveConfig {
            token_info: TokenInfo { pyth_price: key_at(s, 0), ..c.token_info },
            ..c
        }),
        UpdateConfigMode::UpdateBorrowRateCurve => curve_at(s, 0, n.borrow_rate_curve) && n == (ReserveConfig {
            borrow_rate_curve: n.borrow_rate_curve,
            ..c
        }),
        UpdateConfigMode::UpdateEntireReserveConfig => config_at(s, n),
        UpdateConfigMode::UpdateDebtWithdrawalCap => n == (ReserveConfig {
            debt_withdrawal_cap: WithdrawalCaps {
                config_capacity: le(s, 0, 8) as i64,
                config_interval_length_seconds: le(s, 8, 8) as u64,
                ..c.debt_withdrawal_cap
            },
            ..c
        }),
        UpdateConfigMode::UpdateDepositWithdrawalCap => n == (ReserveConfig {
            deposit_withdrawal_cap: WithdrawalCaps {
                config_capacity: le(s, 0, 8) as i64,
                config_interval_length_seconds: le(s, 8, 8) as u64,
                ..c.deposit_withdrawal_cap
            },
            ..c
        }),
        UpdateConfigMode::UpdateDebtWithdrawalCapCurrentTotal => n == (ReserveConfig {
            debt_withdrawal_cap: WithdrawalCaps { current_total: le(s, 0, 8) as i64, ..c.debt_withdrawal_cap },
            ..c
        }),
        UpdateConfigMode::UpdateDepositWithdrawalCapCurrentTotal => n == (ReserveConfig {
            deposit_withdrawal_cap: WithdrawalCaps { current_total: le(s, 0, 8) as i64, ..c.deposit_withdrawal_cap },
            ..c
        }),
        UpdateConfigMode::UpdateReserveStatus => n == (ReserveConfig { status: s[0], ..c }),
    }
}

/// The payload holds a value the mode cannot take: a signed cap field above `i64::MAX`, or
/// an unknown status code.
pub open spec fn payload_out_of_range(m: UpdateConfigMode, s: Seq<u8>) -> bool {
    match m {
        UpdateConfigMode::UpdateDebtWithdrawalCap => le(s, 0, 8) > i64::MAX,
        UpdateConfigMode::UpdateDepositWithdrawalCap => le(s, 0, 8) > i64::MAX,
        UpdateConfigMode::UpdateDebtWithdrawalCapCurrentTotal => le(s, 0, 8) > i64::MAX,
        UpdateConfigMode::UpdateDepositWithdrawalCapCurrentTotal => le(s, 0, 8) > i64::MAX,
        UpdateConfigMode::UpdateReserveStatus => s[0] > 2,
        _ => false,
    }
}

/// Applies one configuration update to a reserve and marks it stale. A payload shorter
/// than the mode reads, or holding a value out of the field's range, is refused with
/// `InvalidConfig` and changes nothing.
pub fn update_reserve_config(reserve: &mut crate::reserve::Reserve, mode: UpdateConfigMode, value: &[u8]) -> (r:
    LendingResult<()>)
    ensures
        value.len() < payload_len(mode) ==> r == Err::<(), LendingError>(LendingError::InvalidConfig),
        value.len() >= payload_len(mode) && payload_out_of_range(mode, value@) ==> r == Err::<(), LendingError>(
            LendingError::InvalidConfig,
        ),
        value.len() >= payload_len(mode) && !payload_out_of_range(mode, value@) ==> r is Ok
            && config_updated(old(reserve).config, final(reserve).config, mode, value@),
        r is Err ==> *final(reserve) == *old(reserve),
        r is Ok ==> *final(reserve) == (crate::reserve::Reserve {
            config: final(reserve).config,
            last_update: crate::types::LastUpdate { stale: true, ..old(reserve).last_update },
            ..*old(reserve)
        }),
{
    update_config_fields(&mut reserve.config, mode, value)?;
    reserve.last_update.mark_stale();
    Ok(())
}

fn update_config_fields(config: &mut ReserveConfig, mode: UpdateConfigMode, value: &[u8]) -> (r:
    LendingResult<()>)
    ensures
        value.len() < payload_len(mode) ==> r == Err::<(), LendingError>(LendingError::InvalidConfig),
        value.len() >= payload_len(mode) && payload_out_of_range(mode, value@) ==> r == Err::<(), LendingError>(
            LendingError::InvalidConfig,
        ),
        value.len() >= payload_len(mode) && !payload_out_of_range(mode, value@) ==> r is Ok
            && config_updated(*old(config), *final(config), mode, value@),
        r is Err ==> *final(config) == *old(config),
{
    if value.len() < payload_bytes(mode) {
        return Err(LendingError::InvalidConfig);
    }
    match mode {
        UpdateConfigMode::UpdateLoanToValuePct => {
            config.loan_to_value_pct = value[0];
        },
        UpdateConfigMode::UpdateLiquidationThresholdPct => {
            config.liquidation_threshold_pct = value[0];
        },
        UpdateConfigMode::UpdateProtocolLiquidationFee => {
            config.protocol_liquidation_fee_pct = value[0];
        },
        UpdateConfigMode::UpdateProtocolTakeRate => {
            config.protocol_take_rate_pct = value[0];
        },
        UpdateConfigMode::UpdateAssetTier => {
            config.asset_tier = value[0];
        },
        UpdateConfigMode::UpdateMaxLiquidationBonusBps => {
            config.max_liquidation_bonus_bps = read_u16(value, 0);
        },
        UpdateConfigMode::UpdateBadDebtLiquidationBonusBps => {
            config.bad_debt_liquidation_bonus_bps = read_u16(value, 0);
        },
        UpdateConfigMode::UpdateMinLiquidationBonusBps => {
            config.min_liquidation_bonus_bps = read_u16(value, 0);
        },
        UpdateConfigMode::UpdateDepositLimit => {
            config.deposit_limit = read_u64(value, 0);
        },
        UpdateConfigMode::UpdateBorrowLimit => {
            config.borrow_limit = read_u64(value, 0);
        },
        UpdateConfigMode::DeleveragingMarginCallPeriod => {
            config.deleveraging_margin_call_period_secs = read_u64(value, 0);
        },
        UpdateConfigMode::UpdateBorrowFactor => {
            config.borrow_factor_pct = read_u64(value, 0);
        },
        UpdateConfigMode::DeleveragingThresholdSlotsPerBps => {
            config.deleveraging_threshold_slots_per_bps = read_u64(value, 0);
        },
        UpdateConfigMode::UpdateFeesBorrowFee => {
            config.fees.borrow_fee_sf = read_u64(value, 0);
        },
        UpdateConfigMode::UpdateFeesFlashLoanFee => {
            config.fees.flash_loan_fee_sf = read_u64(value, 0);
        },
        UpdateConfigMode::UpdateTokenInfoTwapDivergence => {
            config.token_info.max_twap_divergence_bps = read_u64(value, 0);
        },
        UpdateConfigMode::UpdateTokenInfoPriceMaxAge => {
            config.token_info.max_age_price_seconds = read_u64(value, 0);
        },
        UpdateConfigMode::UpdateTokenInfoTwapMaxAge => {
            config.token_info.max_age_twap_seconds = read_u64(value, 0);
        },
        UpdateConfigMode::UpdateFeesReferralFeeBps => {},
        UpdateConfigMode::UpdateTokenInfoName => {
            config.token_info.name = read_bytes32(value, 0);
        },
        UpdateConfigMode::UpdatePythPrice => {
            config.token_info.pyth_price = read_key(value, 0);
        },
        UpdateConfigMode::UpdateBorrowRateCurve => {
            config.borrow_rate_curve = decode_curve(value, 0);
        },
        UpdateConfigMode::UpdateEntireReserveConfig => {
            *config = decode_reserve_config(value);
        },
        UpdateConfigMode::UpdateDebtWithdrawalCap => {
            let capacity = read_u64(value, 0);
            let length = read_u64(value, 8);
            if capacity > i64::MAX as u64 {
                return Err(LendingError::InvalidConfig);
            }
            config.debt_withdrawal_cap.config_capacity = capacity as i64;
            config.debt_withdrawal_cap.config_interval_length_seconds = length;
        },
        UpdateConfigMode::UpdateDepositWithdrawalCap => {
            let capacity = read_u64(value, 0);
            let length = read_u64(value, 8);
            if capacity > i64::MAX as u64 {
                return Err(LendingError::InvalidConfig);
            }
            config.deposit_withdrawal_cap.config_capacity = capacity as i64;
            config.deposit_withdrawal_cap.config_interval_length_seconds = length;
        },
        UpdateConfigMode::UpdateDebtWithdrawalCapCurrentTotal => {
            let total = read_u64(value, 0);
            if total > i64::MAX as u64 {
                return Err(LendingError::InvalidConfig);
            }
            config.debt_withdrawal_cap.current_total = total as i64;
        },
        UpdateConfigMode::UpdateDepositWithdrawalCapCurrentTotal => {
            let total = read_u64(value, 0);
            if total > i64::MAX as u64 {
                return Err(LendingError::InvalidConfig);
            }
            config.deposit_withdrawal_cap.current_total = total as i64;
        },
        UpdateConfigMode::UpdateReserveStatus => {
            if value[0] > 2 {
                return Err(LendingError::InvalidConfig);
            }
            config.status = value[0];
        },
    }
    Ok(())
}

} // verus!

verus! {

/// The configuration rules: LTV below 100 and at most the liquidation threshold (itself
/// at most 100), bonuses within bounds, fees below 100%, a configured oracle with a
/// usable twap setting, a borrow factor of at least 100%, known tier and status codes,
/// isolated tiers restricted, and a valid borrow-rate curve.
pub open spec fn config_valid(c: ReserveConfig) -> bool {
    &&& c.loan_to_value_pct < 100
    &&& c.max_liquidation_bonus_bps <= 10000
    &&& c.loan_to_value_pct <= c.liquidation_threshold_pct <= 100
    &&& c.fees.borrow_fee_sf < FRACTION_ONE_SCALED
    &&& c.protocol_liquidation_fee_pct <= 100
    &&& c.protocol_take_rate_pct <= 100
    &&& !c.token_info.pyth_price.is_default_spec()
    &&& c.token_info.pyth_price != crate::reserve::null_pubkey()
    &&& (c.token_info.max_twap_divergence_bps == 0 || c.token_info.max_age_twap_seconds != 0)
    &&& c.bad_debt_liquidation_bonus_bps < 100
    &&& c.min_liquidation_bonus_bps <= c.max_liquidation_bonus_bps
    &&& c.borrow_factor_pct >= 100
    &&& c.deleveraging_threshold_slots_per_bps != 0
    &&& c.asset_tier <= 2
    &&& c.status <= 2
    &&& (c.asset_tier == 2 ==> c.loan_to_value_pct == 0 && c.liquidation_threshold_pct == 0)
    &&& (c.asset_tier == 1 ==> c.borrow_limit == 0)
    &&& c.borrow_rate_curve.valid()
}

/// Checks the configuration rules.
pub fn validate_reserve_config(c: &ReserveConfig) -> (r: LendingResult<()>)
    ensures
        r is Ok <==> config_valid(*c),
        r is Err ==> r == Err::<(), LendingError>(LendingError::InvalidConfig) || r == Err::<(), LendingError>(
            LendingError::InvalidOracleConfig,
        ) || r == Err::<(), LendingError>(LendingError::InvalidTwapConfig) || r == Err::<(), LendingError>(
            LendingError::InvalidBorrowRateCurvePoint,
        ),
        c.loan_to_value_pct >= 100 ==> r == Err::<(), LendingError>(LendingError::InvalidConfig),
{
    if c.loan_to_value_pct >= 100 {
        return Err(LendingError::InvalidConfig);
    }
    if c.max_liquidation_bonus_bps > 10000 {
        return Err(LendingError::InvalidConfig);
    }
    if c.liquidation_threshold_pct < c.loan_to_value_pct || c.liquidation_threshold_pct > 100 {
        return Err(LendingError::InvalidConfig);
    }
    if c.fees.borrow_fee_sf as u128 >= FRACTION_ONE_SCALED {
        return Err(LendingError::InvalidConfig);
    }
    if c.protocol_liquidation_fee_pct > 100 || c.protocol_take_rate_pct > 100 {
        return Err(LendingError::InvalidConfig);
    }
    if !c.token_info.is_valid() {
        return Err(LendingError::InvalidOracleConfig);
    }
    if !c.token_info.is_twap_config_valid() {
        return Err(LendingError::InvalidTwapConfig);
    }
    if c.bad_debt_liquidation_bonus_bps >= 100 {
        return Err(LendingError::InvalidConfig);
    }
    if c.min_liquidation_bonus_bps > c.max_liquidation_bonus_bps {
        return Err(LendingError::InvalidConfig);
    }
    if c.borrow_factor_pct < 100 || c.deleveraging_threshold_slots_per_bps == 0 {
        return Err(LendingError::InvalidConfig);
    }
    if c.asset_tier > 2 || c.status > 2 {
        return Err(LendingError::InvalidConfig);
    }
    if c.asset_tier == 2 && !(c.loan_to_value_pct == 0 && c.liquidation_threshold_pct == 0) {
        return Err(LendingError::InvalidConfig);
    }
    if c.asset_tier == 1 && c.borrow_limit != 0 {
        return Err(LendingError::InvalidConfig);
    }
    c.borrow_rate_curve.validate()
}

/// The owner's update of one reserve setting: refreshes the reserve, applies the update
/// for the numeric `mode`, and keeps it only if the configuration stays valid.
pub fn process_update_reserve(
    reserve: &mut crate::reserve::Reserve,
    market: &crate::market::LendingMarket,
    market_key: Pubkey,
    signer: Pubkey,
    slot: u64,
    now_ts: u64,
    mode: u64,
    value: &[u8],
) -> (r: LendingResult<()>)
    ensures
        signer != market.owner ==> r == Err::<(), LendingError>(LendingError::InvalidMarketOwner),
        signer == market.owner && old(reserve).lending_market != market_key ==> r == Err::<(), LendingError>(
            LendingError::InvalidAccountInput,
        ),
        signer == market.owner && old(reserve).lending_market == market_key
            && UpdateConfigMode::from_u64_spec(mode) is None ==> r == Err::<(), LendingError>(
            LendingError::InvalidConfig,
        ),
        r is Err ==> *final(reserve) == *old(reserve),
        r is Ok ==> UpdateConfigMode::from_u64_spec(mode) is Some && config_updated(
            old(reserve).config,
            final(reserve).config,
            UpdateConfigMode::from_u64_spec(mode)->Some_0,
            value@,
        ),
        r is Ok ==> config_valid(final(reserve).config) && final(reserve).last_update.stale,
        signer == market.owner && old(reserve).lending_market == market_key && UpdateConfigMode::from_u64_spec(mode) is Some
            && crate::reserve::accrue_s(*old(reserve), slot) is Ok && value.len() >= payload_len(
            UpdateConfigMode::from_u64_spec(mode)->Some_0,
        ) && !payload_out_of_range(UpdateConfigMode::from_u64_spec(mode)->Some_0, value@) ==> exists|n: ReserveConfig|
            #[trigger] config_updated(old(reserve).config, n, UpdateConfigMode::from_u64_spec(mode)->Some_0, value@) && (r is Ok
                <==> config_valid(n)),
{
    if signer != market.owner {
        return Err(LendingError::InvalidMarketOwner);
    }
    if reserve.lending_market != market_key {
        return Err(LendingError::InvalidAccountInput);
    }
    let m = match UpdateConfigMode::try_from_u64(mode) {
        Some(m) => m,
        None => {
            return Err(LendingError::InvalidConfig);
        },
    };
    let mut next = *reserve;
    crate::operations::refresh_reserve(&mut next, slot, now_ts, None)?;
    update_reserve_config(&mut next, m, value)?;
    let valid = validate_reserve_config(&next.config);
    proof {
        assert(config_updated(old(reserve).config, next.config, m, value@));
    }
    valid?;
    *reserve = next;
    Ok(())
}

} // verus!
