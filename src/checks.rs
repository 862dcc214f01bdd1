use vstd::prelude::*;
use crate::constants::PROGRAM_VERSION;
use crate::errors::{LendingError, LendingResult};
use crate::market::LendingMarket;
use crate::operations::{is_price_refresh_needed, refresh_reserve, refresh_reserve_limit_timestamps};
use crate::oracle::{get_price, RawPriceFeed};
use crate::reserve::{Reserve, TokenInfo};
use crate::types::{Pubkey, ReserveStatus};

verus! {

/// The feed account handed in is the configured one, or absent when no feed is configured.
pub open spec fn feed_matches(info: TokenInfo, feed_key: Option<Pubkey>) -> bool {
    if info.is_valid_spec() {
        feed_key == Some(info.pyth_price)
    } else {
        feed_key is None
    }
}

pub fn check_pyth_acc_matches(info: &TokenInfo, feed_key: Option<Pubkey>) -> (r: bool)
    ensures
        r == feed_matches(*info, feed_key),
{
    if info.is_valid() {
        match feed_key {
            Some(k) => k == info.pyth_price,
            None => false,
        }
    } else {
        feed_key.is_none()
    }
}

pub open spec fn validate_token_info_config_ok(info: TokenInfo, feed_key: Option<Pubkey>) -> bool {
    info.is_valid_spec() && (info.max_twap_divergence_bps == 0 || info.max_age_twap_seconds != 0) && feed_matches(
        info,
        feed_key,
    )
}

/// A feed that `get_price` accepts.
pub open spec fn get_price_ok(info: TokenInfo, feed: Option<RawPriceFeed>) -> bool {
    info.is_valid_spec() && feed is Some && feed->Some_0.price > 0 && feed->Some_0.conf * crate::oracle::CONFIDENCE_FACTOR
        <= feed->Some_0.price && feed->Some_0.expo <= 0 && feed->Some_0.publish_time >= 0 && feed->Some_0.ema_price >= 0
        && feed->Some_0.ema_publish_time >= 0
}

/// The oracle settings are usable and the feed account handed in is the configured one.
pub fn validate_token_info_config(info: &TokenInfo, feed_key: Option<Pubkey>) -> (r: LendingResult<()>)
    ensures
        !info.is_valid_spec() ==> r == Err::<(), LendingError>(LendingError::InvalidOracleConfig),
        info.is_valid_spec() && !(info.max_twap_divergence_bps == 0 || info.max_age_twap_seconds != 0)
            ==> r == Err::<(), LendingError>(LendingError::InvalidTwapConfig),
        info.is_valid_spec() && (info.max_twap_divergence_bps == 0 || info.max_age_twap_seconds != 0)
            && !feed_matches(*info, feed_key) ==> r == Err::<(), LendingError>(LendingError::InvalidPythPriceAccount),
        r is Ok <==> info.is_valid_spec() && (info.max_twap_divergence_bps == 0 || info.max_age_twap_seconds != 0)
            && feed_matches(*info, feed_key),
{
    if !info.is_valid() {
        return Err(LendingError::InvalidOracleConfig);
    }
    if !info.is_twap_config_valid() {
        return Err(LendingError::InvalidTwapConfig);
    }
    if !check_pyth_acc_matches(info, feed_key) {
        return Err(LendingError::InvalidPythPriceAccount);
    }
    Ok(())
}

/// The stored price has used up the market's trigger share of its maximum age.
pub open spec fn refresh_needed_s(r: Reserve, m: LendingMarket, now: u64) -> bool {
    crate::operations::price_age(r, now) >= r.config.token_info.max_age_price_seconds as int
        * m.price_refresh_trigger_to_max_age_pct as int / 100
}

/// Refreshes a reserve from its oracle: a new price is read only once the stored one has
/// aged past the market's trigger; then interest accrues and the limit stamps move. On a
/// refusal the reserve is not changed.
pub fn process_refresh_reserve(
    reserve: &mut Reserve,
    market: &LendingMarket,
    slot: u64,
    now_ts: u64,
    feed_key: Option<Pubkey>,
    feed: &Option<RawPriceFeed>,
) -> (r: LendingResult<()>)
    ensures
        old(reserve).version != PROGRAM_VERSION ==> r == Err::<(), LendingError>(LendingError::ReserveDeprecated),
        r is Ok ==> old(reserve).version == PROGRAM_VERSION,
        r is Ok ==> final(reserve).last_update.slot == slot && !final(reserve).last_update.stale,
        r is Ok ==> final(reserve).liquidity.cumulative_borrow_rate_bsf.v() >= old(reserve).liquidity.cumulative_borrow_rate_bsf.v(),
        final(reserve).config == old(reserve).config,
        r is Err ==> *final(reserve) == *old(reserve),
        r is Ok <==> old(reserve).version == PROGRAM_VERSION && (refresh_needed_s(*old(reserve), *market, now_ts) ==> (
            validate_token_info_config_ok(old(reserve).config.token_info, feed_key) && get_price_ok(
            old(reserve).config.token_info,
            *feed,
        ))) && crate::reserve::accrue_s(*old(reserve), slot) is Ok && crate::reserve::total_supply_s(
            crate::reserve::accrue_s(*old(reserve), slot)->Ok_0,
        ) is Some,
{
    if reserve.version != PROGRAM_VERSION as u64 {
        return Err(LendingError::ReserveDeprecated);
    }
    let price = if is_price_refresh_needed(reserve, market, now_ts) {
        validate_token_info_config(&reserve.config.token_info, feed_key)?;
        get_price(&reserve.config.token_info, feed, now_ts)?
    } else {
        None
    };
    let mut next = *reserve;
    refresh_reserve(&mut next, slot, now_ts, price)?;
    refresh_reserve_limit_timestamps(&mut next, slot)?;
    *reserve = next;
    Ok(())
}

/// A reserve that takes part in an operation has the current version.
pub open spec fn current(r: Reserve) -> bool {
    r.version == PROGRAM_VERSION
}

/// Deposit of liquidity: the user's accounts are not the reserve's vaults, and the reserve
/// is current and not obsolete.
pub fn deposit_reserve_liquidity_checks(reserve: &Reserve, user_source_liquidity: Pubkey, user_destination_collateral: Pubkey) -> (r:
    LendingResult<()>)
    ensures
        r is Ok <==> reserve.liquidity.supply_vault != user_source_liquidity && reserve.collateral.supply_vault
            != user_destination_collateral && reserve.config.status_spec() != ReserveStatus::Obsolete
            && current(*reserve),
{
    if reserve.liquidity.supply_vault == user_source_liquidity {
        return Err(LendingError::InvalidAccountInput);
    }
    if reserve.collateral.supply_vault == user_destination_collateral {
        return Err(LendingError::InvalidAccountInput);
    }
    if reserve.config.get_status() == ReserveStatus::Obsolete {
        return Err(LendingError::ReserveObsolete);
    }
    if reserve.version != PROGRAM_VERSION as u64 {
        return Err(LendingError::ReserveDeprecated);
    }
    Ok(())
}

/// Deposit of liquidity straight into an obligation.
pub fn deposit_liquidity_collateral_checks(reserve: &Reserve, user_source_liquidity: Pubkey) -> (r: LendingResult<()>)
    ensures
        r is Ok <==> reserve.liquidity.supply_vault != user_source_liquidity && reserve.config.status_spec()
            != ReserveStatus::Obsolete && current(*reserve),
{
    if reserve.liquidity.supply_vault == user_source_liquidity {
        return Err(LendingError::InvalidAccountInput);
    }
    if reserve.config.get_status() == ReserveStatus::Obsolete {
        return Err(LendingError::ReserveObsolete);
    }
    if reserve.version != PROGRAM_VERSION as u64 {
        return Err(LendingError::ReserveDeprecated);
    }
    Ok(())
}

/// Redemption of c-tokens.
pub fn redeem_reserve_collateral_checks(reserve: &Reserve, user_source_collateral: Pubkey, user_destination_liquidity: Pubkey) -> (r:
    LendingResult<()>)
    ensures
        r is Ok <==> reserve.collateral.supply_vault != user_source_collateral && reserve.liquidity.supply_vault
            != user_destination_liquidity && current(*reserve),
{
    if reserve.collateral.supply_vault == user_source_collateral {
        return Err(LendingError::InvalidAccountInput);
    }
    if reserve.liquidity.supply_vault == user_destination_liquidity {
        return Err(LendingError::InvalidAccountInput);
    }
    if reserve.version != PROGRAM_VERSION as u64 {
        return Err(LendingError::ReserveDeprecated);
    }
    Ok(())
}

/// Borrow.
pub fn borrow_obligation_liquidity_checks(reserve: &Reserve, user_destination_liquidity: Pubkey) -> (r: LendingResult<()>)
    ensures
        r is Ok <==> reserve.liquidity.supply_vault != user_destination_liquidity && reserve.config.status_spec()
            != ReserveStatus::Obsolete && current(*reserve),
{
    if reserve.liquidity.supply_vault == user_destination_liquidity {
        return Err(LendingError::InvalidAccountInput);
    }
    if reserve.config.get_status() == ReserveStatus::Obsolete {
        return Err(LendingError::ReserveObsolete);
    }
    if reserve.version != PROGRAM_VERSION as u64 {
        return Err(LendingError::ReserveDeprecated);
    }
    Ok(())
}

/// Pledge of c-tokens.
pub fn deposit_obligation_collateral_checks(reserve: &Reserve, user_source_collateral: Pubkey) -> (r: LendingResult<()>)
    ensures
        r is Ok <==> reserve.collateral.supply_vault != user_source_collateral && reserve.config.status_spec()
            != ReserveStatus::Obsolete && current(*reserve),
{
    if reserve.collateral.supply_vault == user_source_collateral {
        return Err(LendingError::InvalidAccountInput);
    }
    if reserve.config.get_status() == ReserveStatus::Obsolete {
        return Err(LendingError::ReserveObsolete);
    }
    if reserve.version != PROGRAM_VERSION as u64 {
        return Err(LendingError::ReserveDeprecated);
    }
    Ok(())
}

/// Withdrawal of pledged c-tokens.
pub fn withdraw_obligation_collateral_checks(reserve: &Reserve, user_destination_collateral: Pubkey) -> (r: LendingResult<()>)
    ensures
        r is Ok <==> current(*reserve) && reserve.collateral.supply_vault != user_destination_collateral,
{
    if reserve.version != PROGRAM_VERSION as u64 {
        return Err(LendingError::ReserveDeprecated);
    }
    if reserve.collateral.supply_vault == user_destination_collateral {
        return Err(LendingError::InvalidAccountInput);
    }
    Ok(())
}

/// Repayment.
pub fn repay_obligation_liquidity_checks(reserve: &Reserve, user_source_liquidity: Pubkey) -> (r: LendingResult<()>)
    ensures
        r is Ok <==> reserve.liquidity.supply_vault != user_source_liquidity && current(*reserve),
{
    if reserve.liquidity.supply_vault == user_source_liquidity {
        return Err(LendingError::InvalidAccountInput);
    }
    if reserve.version != PROGRAM_VERSION as u64 {
        return Err(LendingError::ReserveDeprecated);
    }
    Ok(())
}

/// Liquidation: neither reserve's vault is one of the liquidator's accounts, and both
/// reserves are current.
pub fn liquidate_obligation_checks(
    repay_reserve: &Reserve,
    withdraw_reserve: &Reserve,
    user_source_liquidity: Pubkey,
    user_destination_collateral: Pubkey,
) -> (r: LendingResult<()>)
    ensures
        r is Ok <==> repay_reserve.liquidity.supply_vault != user_source_liquidity
            && repay_reserve.collateral.supply_vault != user_destination_collateral && current(*repay_reserve)
            && withdraw_reserve.liquidity.supply_vault != user_source_liquidity
            && withdraw_reserve.collateral.supply_vault != user_destination_collateral && current(*withdraw_reserve),
{
    if repay_reserve.liquidity.supply_vault == user_source_liquidity {
        return Err(LendingError::InvalidAccountInput);
    }
    if repay_reserve.collateral.supply_vault == user_destination_collateral {
        return Err(LendingError::InvalidAccountInput);
    }
    if repay_reserve.version != PROGRAM_VERSION as u64 {
        return Err(LendingError::ReserveDeprecated);
    }
    if withdraw_reserve.liquidity.supply_vault == user_source_liquidity {
        return Err(LendingError::InvalidAccountInput);
    }
    if withdraw_reserve.collateral.supply_vault == user_destination_collateral {
        return Err(LendingError::InvalidAccountInput);
    }
    if withdraw_reserve.version != PROGRAM_VERSION as u64 {
        return Err(LendingError::ReserveDeprecated);
    }
    Ok(())
}

/// Flash borrow: the destination is not the vault, the reserve is current, not obsolete,
/// and has flash loans enabled.
pub fn flash_borrow_reserve_liquidity_checks(reserve: &Reserve, user_destination_liquidity: Pubkey) -> (r: LendingResult<()>)
    ensures
        r is Ok <==> reserve.liquidity.supply_vault != user_destination_liquidity && current(*reserve)
            && reserve.config.status_spec() != ReserveStatus::Obsolete && reserve.config.fees.flash_loan_fee_sf
            != u64::MAX,
{
    if reserve.liquidity.supply_vault == user_destination_liquidity {
        return Err(LendingError::InvalidAccountInput);
    }
    if reserve.version != PROGRAM_VERSION as u64 {
        return Err(LendingError::ReserveDeprecated);
    }
    if reserve.config.get_status() == ReserveStatus::Obsolete {
        return Err(LendingError::ReserveObsolete);
    }
    if reserve.config.fees.flash_loan_fee_sf == u64::MAX {
        return Err(LendingError::FlashLoansDisabled);
    }
    Ok(())
}

/// Flash repay: the source is not the vault.
pub fn flash_repay_reserve_liquidity_checks(reserve: &Reserve, user_source_liquidity: Pubkey) -> (r: LendingResult<()>)
    ensures
        r is Ok <==> reserve.liquidity.supply_vault != user_source_liquidity,
        r is Err ==> r == Err::<(), LendingError>(LendingError::InvalidAccountInput),
{
    if reserve.liquidity.supply_vault == user_source_liquidity {
        return Err(LendingError::InvalidAccountInput);
    }
    Ok(())
}

} // verus!
