use vstd::prelude::*;
use crate::constants::{
    CLOSE_TO_INSOLVENCY_RISKY_LTV, GLOBAL_ALLOWED_BORROW_VALUE, GLOBAL_UNHEALTHY_BORROW_VALUE,
    LIQUIDATION_CLOSE_FACTOR, LIQUIDATION_CLOSE_VALUE, MAX_LIQUIDATABLE_VALUE_AT_ONCE,
    MIN_NET_VALUE_IN_OBLIGATION_SF, PROGRAM_VERSION,
};
use crate::bytes::{le, read_u128, read_u64};
use crate::errors::{LendingError, LendingResult};
use crate::types::Pubkey;

verus! {

/// Market-wide policy.
#[derive(Clone, Copy, Debug)]
pub struct LendingMarket {
    pub version: u64,
    pub bump: u64,
    pub owner: Pubkey,
    pub quote_currency: [u8; 32],
    pub referral_fee_bps: u16,
    pub emergency_mode: u8,
    pub autodeleverage_enabled: u8,
    pub borrow_disabled: u8,
    pub price_refresh_trigger_to_max_age_pct: u8,
    pub liquidation_max_debt_close_factor_pct: u8,
    pub insolvency_risk_unhealthy_ltv_pct: u8,
    pub min_full_liquidation_value_threshold: u64,
    pub max_liquidatable_debt_market_value_at_once: u64,
    pub global_unhealthy_borrow_value: u64,
    pub global_allowed_borrow_value: u64,
    pub min_net_value_in_obligation_sf: u128,
}

impl LendingMarket {
    /// A new market with the default policy.
    pub fn new(owner: Pubkey, bump: u8, quote_currency: [u8; 32]) -> (r: LendingMarket)
        ensures
            r.version == PROGRAM_VERSION,
            r.owner == owner,
            r.bump == bump,
            r.quote_currency == quote_currency,
            r.emergency_mode == 0 && r.autodeleverage_enabled == 0 && r.borrow_disabled == 0,
            r.referral_fee_bps == 0 && r.price_refresh_trigger_to_max_age_pct == 0,
            r.liquidation_max_debt_close_factor_pct == LIQUIDATION_CLOSE_FACTOR,
            r.insolvency_risk_unhealthy_ltv_pct == CLOSE_TO_INSOLVENCY_RISKY_LTV,
            r.min_full_liquidation_value_threshold == LIQUIDATION_CLOSE_VALUE,
            r.max_liquidatable_debt_market_value_at_once == MAX_LIQUIDATABLE_VALUE_AT_ONCE,
            r.global_unhealthy_borrow_value == GLOBAL_UNHEALTHY_BORROW_VALUE,
            r.global_allowed_borrow_value == GLOBAL_ALLOWED_BORROW_VALUE,
            r.min_net_value_in_obligation_sf == MIN_NET_VALUE_IN_OBLIGATION_SF,
    {
        LendingMarket {
            version: PROGRAM_VERSION as u64,
            bump: bump as u64,
            owner,
            quote_currency,
            referral_fee_bps: 0,
            emergency_mode: 0,
            autodeleverage_enabled: 0,
            borrow_disabled: 0,
            price_refresh_trigger_to_max_age_pct: 0,
            liquidation_max_debt_close_factor_pct: LIQUIDATION_CLOSE_FACTOR,
            insolvency_risk_unhealthy_ltv_pct: CLOSE_TO_INSOLVENCY_RISKY_LTV,
            min_full_liquidation_value_threshold: LIQUIDATION_CLOSE_VALUE,
            max_liquidatable_debt_market_value_at_once: MAX_LIQUIDATABLE_VALUE_AT_ONCE,
            global_unhealthy_borrow_value: GLOBAL_UNHEALTHY_BORROW_VALUE,
            global_allowed_borrow_value: GLOBAL_ALLOWED_BORROW_VALUE,
            min_net_value_in_obligation_sf: MIN_NET_VALUE_IN_OBLIGATION_SF,
        }
    }

    pub fn is_borrowing_disabled(&self) -> (r: bool)
        ensures
            r == (self.borrow_disabled != 0),
    {
        self.borrow_disabled != 0
    }

    pub fn is_emergency_mode(&self) -> (r: bool)
        ensures
            r == (self.emergency_mode != 0),
    {
        self.emergency_mode != 0
    }
}

/// Which market setting an update replaces.
#[derive(Clone, Copy, Debug, PartialEq, Eq, Structural)]
pub enum UpdateLendingMarketMode {
    UpdateEmergencyMode,
    UpdateLiquidationCloseFactor,
    UpdateLiquidationMaxValue,
    UpdateGlobalUnhealthyBorrow,
    UpdateGlobalAllowedBorrow,
    UpdateMinFullLiquidationThreshold,
    UpdateInsolvencyRiskLtv,
    UpdatePriceRefreshTriggerToMaxAgePct,
    UpdateAutodeleverageEnabled,
    UpdateBorrowingDisabled,
    UpdateMinNetValueObligationPostAction,
}

impl UpdateLendingMarketMode {
    pub open spec fn from_u64_spec(v: u64) -> Option<UpdateLendingMarketMode> {
        match v {
            1 => Some(UpdateLendingMarketMode::UpdateEmergencyMode),
            2 => Some(UpdateLendingMarketMode::UpdateLiquidationCloseFactor),
            3 => Some(UpdateLendingMarketMode::UpdateLiquidationMaxValue),
            4 => Some(UpdateLendingMarketMode::UpdateGlobalUnhealthyBorrow),
            5 => Some(UpdateLendingMarketMode::UpdateGlobalAllowedBorrow),
            7 => Some(UpdateLendingMarketMode::UpdateMinFullLiquidationThreshold),
            8 => Some(UpdateLendingMarketMode::UpdateInsolvencyRiskLtv),
            12 => Some(UpdateLendingMarketMode::UpdatePriceRefreshTriggerToMaxAgePct),
            13 => Some(UpdateLendingMarketMode::UpdateAutodeleverageEnabled),
            14 => Some(UpdateLendingMarketMode::UpdateBorrowingDisabled),
            15 => Some(UpdateLendingMarketMode::UpdateMinNetValueObligationPostAction),
            _ => None,
        }
    }

    /// The mode for a stable numeric code.
    pub fn try_from_u64(v: u64) -> (r: Option<UpdateLendingMarketMode>)
        ensures
            r == Self::from_u64_spec(v),
    {
        match v {
            1 => Some(UpdateLendingMarketMode::UpdateEmergencyMode),
            2 => Some(UpdateLendingMarketMode::UpdateLiquidationCloseFactor),
            3 => Some(UpdateLendingMarketMode::UpdateLiquidationMaxValue),
            4 => Some(UpdateLendingMarketMode::UpdateGlobalUnhealthyBorrow),
            5 => Some(UpdateLendingMarketMode::UpdateGlobalAllowedBorrow),
            7 => Some(UpdateLendingMarketMode::UpdateMinFullLiquidationThreshold),
            8 => Some(UpdateLendingMarketMode::UpdateInsolvencyRiskLtv),
            12 => Some(UpdateLendingMarketMode::UpdatePriceRefreshTriggerToMaxAgePct),
            13 => Some(UpdateLendingMarketMode::UpdateAutodeleverageEnabled),
            14 => Some(UpdateLendingMarketMode::UpdateBorrowingDisabled),
            15 => Some(UpdateLendingMarketMode::UpdateMinNetValueObligationPostAction),
            _ => None,
        }
    }
}

/// Size of a market update payload.
pub const MARKET_UPDATE_BYTES: usize = 72;

/// What a market update does, given its payload `s`: the new market, or the error.
pub open spec fn market_update_spec(m: LendingMarket, mode: UpdateLendingMarketMode, s: Seq<u8>) -> Result<
    LendingMarket,
    LendingError,
> {
    match mode {
        UpdateLendingMarketMode::UpdateEmergencyMode => if s[0] <= 1 {
            Ok(LendingMarket { emergency_mode: s[0], ..m })
        } else {
            Err(LendingError::InvalidFlag)
        },
        UpdateLendingMarketMode::UpdateLiquidationCloseFactor => if 5 <= s[0] <= 100 {
            Ok(LendingMarket { liquidation_max_debt_close_factor_pct: s[0], ..m })
        } else {
            Err(LendingError::InvalidFlag)
        },
        UpdateLendingMarketMode::UpdateLiquidationMaxValue => if le(s, 0, 8) != 0 {
            Ok(LendingMarket { max_liquidatable_debt_market_value_at_once: le(s, 0, 8) as u64, ..m })
        } else {
            Err(LendingError::InvalidFlag)
        },
        UpdateLendingMarketMode::UpdateGlobalUnhealthyBorrow => Ok(
            LendingMarket { global_unhealthy_borrow_value: le(s, 0, 8) as u64, ..m },
        ),
        UpdateLendingMarketMode::UpdateGlobalAllowedBorrow => Ok(
            LendingMarket { global_allowed_borrow_value: le(s, 0, 8) as u64, ..m },
        ),
        UpdateLendingMarketMode::UpdateMinFullLiquidationThreshold => if le(s, 0, 8) != 0 {
            Ok(LendingMarket { min_full_liquidation_value_threshold: le(s, 0, 8) as u64, ..m })
        } else {
            Err(LendingError::InvalidFlag)
        },
        UpdateLendingMarketMode::UpdateInsolvencyRiskLtv => if 5 <= s[0] <= 100 {
            Ok(LendingMarket { insolvency_risk_unhealthy_ltv_pct: s[0], ..m })
        } else {
            Err(LendingError::InvalidFlag)
        },
        UpdateLendingMarketMode::UpdatePriceRefreshTriggerToMaxAgePct => if s[0] <= 100 {
            Ok(LendingMarket { price_refresh_trigger_to_max_age_pct: s[0], ..m })
        } else {
            Err(LendingError::InvalidConfig)
        },
        UpdateLendingMarketMode::UpdateAutodeleverageEnabled => if s[0] <= 1 {
            Ok(LendingMarket { autodeleverage_enabled: s[0], ..m })
        } else {
            Err(LendingError::InvalidFlag)
        },
        UpdateLendingMarketMode::UpdateBorrowingDisabled => if s[0] <= 1 {
            Ok(LendingMarket { borrow_disabled: s[0], ..m })
        } else {
            Err(LendingError::InvalidFlag)
        },
        UpdateLendingMarketMode::UpdateMinNetValueObligationPostAction => Ok(
            LendingMarket { min_net_value_in_obligation_sf: le(s, 0, 16) as u128, ..m },
        ),
    }
}

/// The owner's update of one market setting, from a numeric `mode` and a 72-byte payload.
pub fn update_market(market: &mut LendingMarket, signer: Pubkey, mode: u64, value: &[u8]) -> (r:
    LendingResult<()>)
    requires
        value.len() == MARKET_UPDATE_BYTES,
    ensures
        signer != old(market).owner ==> r == Err::<(), LendingError>(LendingError::InvalidMarketOwner)
            && *final(market) == *old(market),
        signer == old(market).owner && UpdateLendingMarketMode::from_u64_spec(mode) is None ==> r == Err::<
            (),
            LendingError,
        >(LendingError::InvalidFlag) && *final(market) == *old(market),
        signer == old(market).owner && UpdateLendingMarketMode::from_u64_spec(mode) is Some ==> match market_update_spec(
            *old(market),
            UpdateLendingMarketMode::from_u64_spec(mode)->Some_0,
            value@,
        ) {
            Ok(m) => r is Ok && *final(market) == m,
            Err(e) => r == Err::<(), LendingError>(e) && *final(market) == *old(market),
        },
{
    if signer != market.owner {
        return Err(LendingError::InvalidMarketOwner);
    }
    let mode = match UpdateLendingMarketMode::try_from_u64(mode) {
        Some(m) => m,
        None => {
            return Err(LendingError::InvalidFlag);
        },
    };
    match mode {
        UpdateLendingMarketMode::UpdateEmergencyMode => {
            if value[0] > 1 {
                return Err(LendingError::InvalidFlag);
            }
            market.emergency_mode = value[0];
        },
        UpdateLendingMarketMode::UpdateLiquidationCloseFactor => {
            if value[0] < 5 || value[0] > 100 {
                return Err(LendingError::InvalidFlag);
            }
            market.liquidation_max_debt_close_factor_pct = value[0];
        },
        UpdateLendingMarketMode::UpdateLiquidationMaxValue => {
            let v = read_u64(value, 0);
            if v == 0 {
                return Err(LendingError::InvalidFlag);
            }
            market.max_liquidatable_debt_market_value_at_once = v;
        },
        UpdateLendingMarketMode::UpdateGlobalUnhealthyBorrow => {
            market.global_unhealthy_borrow_value = read_u64(value, 0);
        },
        UpdateLendingMarketMode::UpdateGlobalAllowedBorrow => {
            market.global_allowed_borrow_value = read_u64(value, 0);
        },
        UpdateLendingMarketMode::UpdateMinFullLiquidationThreshold => {
            let v = read_u64(value, 0);
            if v == 0 {
                return Err(LendingError::InvalidFlag);
            }
            market.min_full_liquidation_value_threshold = v;
        },
        UpdateLendingMarketMode::UpdateInsolvencyRiskLtv => {
            if value[0] < 5 || value[0] > 100 {
                return Err(LendingError::InvalidFlag);
            }
            market.insolvency_risk_unhealthy_ltv_pct = value[0];
        },
        UpdateLendingMarketMode::UpdatePriceRefreshTriggerToMaxAgePct => {
            if value[0] > 100 {
                return Err(LendingError::InvalidConfig);
            }
            market.price_refresh_trigger_to_max_age_pct = value[0];
        },
        UpdateLendingMarketMode::UpdateAutodeleverageEnabled => {
            if value[0] > 1 {
                return Err(LendingError::InvalidFlag);
            }
            market.autodeleverage_enabled = value[0];
        },
        UpdateLendingMarketMode::UpdateBorrowingDisabled => {
            if value[0] > 1 {
                return Err(LendingError::InvalidFlag);
            }
            market.borrow_disabled = value[0];
        },
        UpdateLendingMarketMode::UpdateMinNetValueObligationPostAction => {
            market.min_net_value_in_obligation_sf = read_u128(value, 0);
        },
    }
    Ok(())
}

/// Hands the market to a new owner; only the current owner may.
pub fn update_market_owner(market: &mut LendingMarket, signer: Pubkey, new_owner: Pubkey) -> (r:
    LendingResult<()>)
    ensures
        signer == old(market).owner ==> r is Ok && *final(market) == (LendingMarket {
            owner: new_owner,
            ..*old(market)
        }),
        signer != old(market).owner ==> r == Err::<(), LendingError>(LendingError::InvalidMarketOwner)
            && *final(market) == *old(market),
{
    if signer != market.owner {
        return Err(LendingError::InvalidMarketOwner);
    }
    market.owner = new_owner;
    Ok(())
}

} // verus!
