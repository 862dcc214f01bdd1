use vstd::prelude::*;
use crate::checks::{
    borrow_obligation_liquidity_checks, current, deposit_reserve_liquidity_checks, flash_borrow_reserve_liquidity_checks,
    flash_repay_reserve_liquidity_checks, liquidate_obligation_checks, redeem_reserve_collateral_checks,
    withdraw_obligation_collateral_checks,
};
use crate::errors::{LendingError, LendingResult};
use crate::liquidation::{
    liquidated_obligation, liquidate_and_redeem, liquidate_s, liquidated_reserves_s, post_liquidate_redeem_s, LiquidateAndRedeemResult,
};
use crate::market::LendingMarket;
use crate::obligation::{Obligation, MAX_BORROWS, MAX_DEPOSITS};
use crate::operations::{
    borrow_health_ok, borrow_obligation_liquidity, borrow_s, deposit_reserve_liquidity, deposit_reserve_liquidity_s,
    emergency_mode_disabled, flash_borrow_reserve_liquidity, flash_repay_reserve_liquidity, flash_repay_s,
    post_transfer_vault_balance_liquidity_reserve_checks, redeem_reserve_collateral, redeem_reserve_collateral_s,
    refresh_reserve, refreshed_s, same_obligation, withdraw_obligation_collateral, withdraw_s, LendingAction,
};
use crate::reserve::{CalculateBorrowResult, Reserve, accrue_s};
use crate::transaction::{
    borrow_scan, check_refresh, flash_borrow_checks, flash_repay_checks, refresh_sequence_ok, repay_target_ok, TxContext,
};
use crate::types::{Pubkey, ReserveStatus};

verus! {

/// A whole borrow instruction's checks pass: refreshes in place, destination not the
/// vault, reserve current and not obsolete.
pub open spec fn borrow_instruction_ok(ctx: TxContext, program: Pubkey, r: Reserve, key: Pubkey, okey: Pubkey, dest: Pubkey) -> bool {
    &&& refresh_sequence_ok(ctx.instructions@, ctx.current_index as int, program, seq![key], okey)
    &&& r.liquidity.supply_vault != dest
    &&& r.config.status_spec() != ReserveStatus::Obsolete
    &&& current(r)
}

/// A borrow as one instruction of a transaction: the reserve and the obligation must have
/// been refreshed by the instructions right before it, the destination account must not
/// be the reserve's vault, then the borrow is booked. The caller then sends the fee and the
/// amount received out of the vault. On a refusal nothing is changed.
pub fn process_borrow_obligation_liquidity(
    ctx: &TxContext,
    program: Pubkey,
    market: &LendingMarket,
    reserve: &mut Reserve,
    reserve_key: Pubkey,
    obligation: &mut Obligation,
    obligation_key: Pubkey,
    user_destination_liquidity: Pubkey,
    amount: u64,
    slot: u64,
    now_ts: u64,
) -> (r: LendingResult<CalculateBorrowResult>)
    requires
        ctx.wf(),
        old(obligation).wf(),
        old(reserve).liquidity.mint_decimals <= 19,
    ensures
        final(obligation).wf(),
        !refresh_sequence_ok(ctx.instructions@, ctx.current_index as int, program, seq![reserve_key], obligation_key)
            ==> r == Err::<CalculateBorrowResult, LendingError>(LendingError::IncorrectInstructionInPosition),
        !borrow_instruction_ok(*ctx, program, *old(reserve), reserve_key, obligation_key, user_destination_liquidity) ==> r is Err,
        borrow_instruction_ok(*ctx, program, *old(reserve), reserve_key, obligation_key, user_destination_liquidity) ==> r
            == borrow_s(*market, *old(reserve), *old(obligation), amount, slot, now_ts, reserve_key),
        r is Err ==> *final(reserve) == *old(reserve) && same_obligation(*final(obligation), *old(obligation)),
        r is Ok ==> borrow_health_ok(*old(obligation), *old(reserve), r->Ok_0.borrow_amount_f.bits as int),
        r is Ok ==> final(obligation).tiers_valid(),
        r is Ok ==> r->Ok_0.receive_amount > 0,
{
    let keys = vec![reserve_key];
    proof {
        assert(keys@ =~= seq![reserve_key]);
    }
    check_refresh(ctx, program, &keys, obligation_key)?;
    borrow_obligation_liquidity_checks(reserve, user_destination_liquidity)?;
    borrow_obligation_liquidity(market, reserve, obligation, amount, slot, now_ts, reserve_key)
}

/// A withdrawal of pledged c-tokens as one instruction: the reserve current and its vault
/// not the destination; when the obligation has debt, the reserve and the obligation must
/// have been refreshed right before it. Returns the c-tokens to send. On a refusal the
/// obligation is not changed.
pub fn process_withdraw_obligation_collateral(
    ctx: &TxContext,
    program: Pubkey,
    market: &LendingMarket,
    reserve: &Reserve,
    reserve_key: Pubkey,
    obligation: &mut Obligation,
    obligation_key: Pubkey,
    user_destination_collateral: Pubkey,
    c: u64,
    slot: u64,
) -> (r: LendingResult<u64>)
    requires
        ctx.wf(),
        old(obligation).wf(),
        reserve.liquidity.mint_decimals <= 19,
    ensures
        final(obligation).wf(),
        !(current(*reserve) && reserve.collateral.supply_vault != user_destination_collateral) ==> r is Err,
        current(*reserve) && reserve.collateral.supply_vault != user_destination_collateral && old(obligation).n_borrows(None) != 0
            && !refresh_sequence_ok(ctx.instructions@, ctx.current_index as int, program, seq![reserve_key], obligation_key)
            ==> r == Err::<u64, LendingError>(LendingError::IncorrectInstructionInPosition),
        current(*reserve) && reserve.collateral.supply_vault != user_destination_collateral && (old(obligation).n_borrows(None) == 0
            || refresh_sequence_ok(ctx.instructions@, ctx.current_index as int, program, seq![reserve_key], obligation_key))
            ==> r == withdraw_s(*market, *reserve, *old(obligation), c, slot, reserve_key),
        r is Err ==> same_obligation(*final(obligation), *old(obligation)),
        r is Ok ==> r->Ok_0 > 0,
{
    withdraw_obligation_collateral_checks(reserve, user_destination_collateral)?;
    if !obligation.borrows_empty() {
        let keys = vec![reserve_key];
        proof {
            assert(keys@ =~= seq![reserve_key]);
        }
        check_refresh(ctx, program, &keys, obligation_key)?;
    }
    withdraw_obligation_collateral(market, reserve, obligation, c, slot, reserve_key)
}

/// A whole liquidation instruction's checks pass: refreshes in place (withdraw reserve
/// first), the liquidator's accounts distinct from both reserves' vaults, both reserves
/// current.
pub open spec fn liquidation_instruction_ok(
    ctx: TxContext,
    program: Pubkey,
    rr: Reserve,
    wr: Reserve,
    rk: Pubkey,
    wk: Pubkey,
    okey: Pubkey,
    src_liq: Pubkey,
    dst_coll: Pubkey,
    dst_liq: Pubkey,
) -> bool {
    &&& refresh_sequence_ok(ctx.instructions@, ctx.current_index as int, program, seq![wk, rk], okey)
    &&& rr.liquidity.supply_vault != src_liq && rr.collateral.supply_vault != dst_coll && current(rr)
    &&& wr.liquidity.supply_vault != src_liq && wr.collateral.supply_vault != dst_coll && current(wr)
    &&& wr.liquidity.supply_vault != dst_liq
}

/// A liquidation as one instruction of a transaction: both reserves and the obligation
/// refreshed right before it (withdraw reserve first), the liquidator's accounts distinct
/// from the reserves' vaults; then the liquidation is booked and the c-tokens won are
/// redeemed. The caller then moves the tokens (the repayment in, the redeemed liquidity
/// and the protocol's fee out) and reconciles the vaults with
/// `post_liquidation_vault_checks`.
pub fn process_liquidate_obligation(
    ctx: &TxContext,
    program: Pubkey,
    market: &LendingMarket,
    reserves: &mut Vec<Reserve>,
    repay_index: usize,
    repay_key: Pubkey,
    withdraw_index: usize,
    withdraw_key: Pubkey,
    obligation: &mut Obligation,
    obligation_key: Pubkey,
    user_source_liquidity: Pubkey,
    user_destination_collateral: Pubkey,
    user_destination_liquidity: Pubkey,
    amount: u64,
    min_acceptable: u64,
    slot: u64,
    now_ts: u64,
) -> (r: LendingResult<LiquidateAndRedeemResult>)
    requires
        ctx.wf(),
        old(obligation).wf(),
        repay_index < old(reserves).len(),
        withdraw_index < old(reserves).len(),
        forall|i: int| 0 <= i < old(reserves).len() ==> (#[trigger] old(reserves)@[i]).liquidity.mint_decimals <= 19,
    ensures
        final(obligation).wf(),
        !refresh_sequence_ok(ctx.instructions@, ctx.current_index as int, program, seq![withdraw_key, repay_key], obligation_key)
            ==> r == Err::<LiquidateAndRedeemResult, LendingError>(LendingError::IncorrectInstructionInPosition),
        !liquidation_instruction_ok(
            *ctx,
            program,
            old(reserves)@[repay_index as int],
            old(reserves)@[withdraw_index as int],
            repay_key,
            withdraw_key,
            obligation_key,
            user_source_liquidity,
            user_destination_collateral,
            user_destination_liquidity,
        ) ==> r is Err && final(reserves)@ == old(reserves)@ && same_obligation(*final(obligation), *old(obligation)),
        liquidation_instruction_ok(
            *ctx,
            program,
            old(reserves)@[repay_index as int],
            old(reserves)@[withdraw_index as int],
            repay_key,
            withdraw_key,
            obligation_key,
            user_source_liquidity,
            user_destination_collateral,
            user_destination_liquidity,
        ) ==> match liquidate_s(
            *market,
            old(reserves)@,
            repay_index as int,
            repay_key,
            withdraw_index as int,
            withdraw_key,
            *old(obligation),
            slot,
            now_ts,
            amount,
            min_acceptable,
        ) {
            Err(e) => r == Err::<LiquidateAndRedeemResult, LendingError>(e),
            Ok(res) => match post_liquidate_redeem_s(
                liquidated_reserves_s(
                    old(reserves)@,
                    repay_index as int,
                    withdraw_index as int,
                    res.settle_amount_f.bits as int,
                    res.repay_amount,
                    slot,
                    now_ts,
                )[withdraw_index as int],
                res.withdraw_collateral_amount,
                res.liquidation_bonus_rate.bits as int,
                slot,
                now_ts,
            ) {
                Err(e) => r == Err::<LiquidateAndRedeemResult, LendingError>(e),
                Ok(red) => r is Ok && r->Ok_0.repay_amount == res.repay_amount && r->Ok_0.withdraw_amount
                    == res.withdraw_amount && r->Ok_0.withdraw_collateral_amount == res.withdraw_collateral_amount
                    && r->Ok_0.total_withdraw_liquidity_amount == red && liquidated_obligation(
                    *old(obligation),
                    *final(obligation),
                    res.settle_amount_f.bits as int,
                    res.withdraw_amount,
                    old(obligation).first_borrow(repay_key, MAX_BORROWS as int)->Some_0,
                    old(obligation).first_deposit(withdraw_key, MAX_DEPOSITS as int)->Some_0,
                ),
            },
        },
        r is Ok ==> old(obligation).borrow_factor_adjusted_debt_value_sf > old(obligation).unhealthy_borrow_value_sf,
        r is Ok ==> r->Ok_0.repay_amount > 0 && r->Ok_0.withdraw_collateral_amount >= min_acceptable,
{
    let keys = vec![withdraw_key, repay_key];
    proof {
        assert(keys@ =~= seq![withdraw_key, repay_key]);
    }
    check_refresh(ctx, program, &keys, obligation_key)?;
    liquidate_obligation_checks(
        &reserves[repay_index],
        &reserves[withdraw_index],
        user_source_liquidity,
        user_destination_collateral,
    )?;
    redeem_reserve_collateral_checks(&reserves[withdraw_index], user_destination_collateral, user_destination_liquidity)?;
    liquidate_and_redeem(
        market,
        reserves,
        repay_index,
        repay_key,
        withdraw_index,
        withdraw_key,
        obligation,
        slot,
        now_ts,
        amount,
        min_acceptable,
    )
}

/// The available liquidity of the repay and the withdraw reserve before a liquidation, for
/// the checks after its transfers.
pub fn initial_liquidation_reserve_liquidity_available_amount(repay_reserve: &Reserve, withdraw_reserve: &Reserve) -> (r: (
    u64,
    u64,
))
    ensures
        r == (repay_reserve.liquidity.available_amount, withdraw_reserve.liquidity.available_amount),
{
    (repay_reserve.liquidity.available_amount, withdraw_reserve.liquidity.available_amount)
}

/// The liquidity that leaves the withdraw reserve's vault in a liquidation: the redeemed
/// liquidity, less the repayment when both reserves share one vault; nothing when nothing
/// was redeemed. A repayment larger than the redeemed liquidity in a shared vault is
/// refused with `MathOverflow`.
pub fn liquidation_net_withdrawal(res: &LiquidateAndRedeemResult, same_vault: bool) -> (r: LendingResult<Option<u64>>)
    ensures
        match res.total_withdraw_liquidity_amount {
            None => r == Ok::<Option<u64>, LendingError>(None),
            Some(p) => if same_vault {
                if p.0 >= res.repay_amount {
                    r == Ok::<Option<u64>, LendingError>(Some((p.0 - res.repay_amount) as u64))
                } else {
                    r == Err::<Option<u64>, LendingError>(LendingError::MathOverflow)
                }
            } else {
                r == Ok::<Option<u64>, LendingError>(Some(p.0))
            },
        },
{
    match res.total_withdraw_liquidity_amount {
        None => Ok(None),
        Some(p) => {
            if same_vault {
                if p.0 >= res.repay_amount {
                    Ok(Some(p.0 - res.repay_amount))
                } else {
                    Err(LendingError::MathOverflow)
                }
            } else {
                Ok(Some(p.0))
            }
        },
    }
}

/// The balance movements a liquidation must show, given whether the two reserves share
/// one vault: a shared vault that paid out redeemed liquidity moved once, by the
/// liquidity less the repayment; otherwise the withdraw vault lost the redeemed liquidity
/// (if any) and the repay vault gained the repayment.
pub open spec fn liquidation_reconciled(
    res: LiquidateAndRedeemResult,
    same_vault: bool,
    wv0: u64,
    wv1: u64,
    wa0: u64,
    wa1: u64,
    rv0: u64,
    rv1: u64,
    ra0: u64,
    ra1: u64,
) -> bool {
    &&& (res.total_withdraw_liquidity_amount is Some ==> ({
        let w = res.total_withdraw_liquidity_amount->Some_0.0;
        let out = if same_vault { w - res.repay_amount } else { w as int };
        &&& (same_vault ==> w >= res.repay_amount)
        &&& wv1 - wa1 == wv0 - wa0
        &&& wv1 == wv0 - out
        &&& wa1 == wa0 - out
    }))
    &&& ((!same_vault || res.total_withdraw_liquidity_amount is None) ==> ({
        &&& rv1 - ra1 == rv0 - ra0
        &&& rv1 == rv0 + res.repay_amount
        &&& ra1 == ra0 + res.repay_amount
    }))
}

/// Reconciles the vaults after a liquidation's transfers, netting the two movements when
/// both reserves share one vault.
pub fn post_liquidation_vault_checks(
    res: &LiquidateAndRedeemResult,
    same_vault: bool,
    withdraw_vault_before: u64,
    withdraw_vault_after: u64,
    withdraw_available_before: u64,
    withdraw_available_after: u64,
    repay_vault_before: u64,
    repay_vault_after: u64,
    repay_available_before: u64,
    repay_available_after: u64,
) -> (r: LendingResult<()>)
    ensures
        r is Ok <==> liquidation_reconciled(
            *res,
            same_vault,
            withdraw_vault_before,
            withdraw_vault_after,
            withdraw_available_before,
            withdraw_available_after,
            repay_vault_before,
            repay_vault_after,
            repay_available_before,
            repay_available_after,
        ),
{
    if let Some(net) = liquidation_net_withdrawal(res, same_vault)? {
        post_transfer_vault_balance_liquidity_reserve_checks(
            withdraw_vault_after,
            withdraw_available_after,
            withdraw_vault_before,
            withdraw_available_before,
            LendingAction::Subtractive(net),
        )?;
    }
    if !same_vault || res.total_withdraw_liquidity_amount.is_none() {
        post_transfer_vault_balance_liquidity_reserve_checks(
            repay_vault_after,
            repay_available_after,
            repay_vault_before,
            repay_available_before,
            LendingAction::Additive(res.repay_amount),
        )?;
    }
    Ok(())
}

/// A deposit of liquidity as one instruction: not in emergency mode, nonzero, the user's
/// accounts distinct from the reserve's vaults, the reserve current and not obsolete; the
/// reserve is refreshed, then the deposit is booked. Returns the c-tokens to mint to the
/// user. On a refusal the reserve is not changed.
pub fn process_deposit_reserve_liquidity(
    market: &LendingMarket,
    reserve: &mut Reserve,
    user_source_liquidity: Pubkey,
    user_destination_collateral: Pubkey,
    amount: u64,
    slot: u64,
    now_ts: u64,
) -> (r: LendingResult<u64>)
    requires
        old(reserve).liquidity.mint_decimals <= 19,
    ensures
        market.emergency_mode != 0 ==> r == Err::<u64, LendingError>(LendingError::GlobalEmergencyMode),
        market.emergency_mode == 0 && amount == 0 ==> r == Err::<u64, LendingError>(LendingError::InvalidAmount),
        r is Err ==> *final(reserve) == *old(reserve),
        !(old(reserve).liquidity.supply_vault != user_source_liquidity && old(reserve).collateral.supply_vault
            != user_destination_collateral && old(reserve).config.status_spec() != ReserveStatus::Obsolete
            && current(*old(reserve))) ==> r is Err,
        market.emergency_mode == 0 && amount != 0 && old(reserve).liquidity.supply_vault != user_source_liquidity
            && old(reserve).collateral.supply_vault != user_destination_collateral && old(reserve).config.status_spec()
            != ReserveStatus::Obsolete && current(*old(reserve)) ==> match accrue_s(*old(reserve), slot) {
            Err(e) => r == Err::<u64, LendingError>(e),
            Ok(_) => r == deposit_reserve_liquidity_s(refreshed_s(*old(reserve), slot, now_ts), slot, now_ts, amount),
        },
        r is Ok ==> final(reserve).liquidity.available_amount == old(reserve).liquidity.available_amount + amount,
{
    emergency_mode_disabled(market)?;
    if amount == 0 {
        return Err(LendingError::InvalidAmount);
    }
    deposit_reserve_liquidity_checks(reserve, user_source_liquidity, user_destination_collateral)?;
    let mut next = *reserve;
    refresh_reserve(&mut next, slot, now_ts, None)?;
    let c = deposit_reserve_liquidity(&mut next, slot, now_ts, amount)?;
    *reserve = next;
    Ok(c)
}

/// A redemption of c-tokens as one instruction: not in emergency mode, the user's
/// accounts distinct from the reserve's vaults, the reserve current; the reserve is
/// refreshed, then the redemption is booked and counted against the deposit withdrawal
/// cap. Returns the liquidity to send. On a refusal the reserve is not changed.
pub fn process_redeem_reserve_collateral(
    market: &LendingMarket,
    reserve: &mut Reserve,
    user_source_collateral: Pubkey,
    user_destination_liquidity: Pubkey,
    c: u64,
    slot: u64,
    now_ts: u64,
) -> (r: LendingResult<u64>)
    requires
        old(reserve).liquidity.mint_decimals <= 19,
    ensures
        market.emergency_mode != 0 ==> r == Err::<u64, LendingError>(LendingError::GlobalEmergencyMode),
        r is Err ==> *final(reserve) == *old(reserve),
        !(old(reserve).collateral.supply_vault != user_source_collateral && old(reserve).liquidity.supply_vault
            != user_destination_liquidity && current(*old(reserve))) ==> r is Err,
        market.emergency_mode == 0 && old(reserve).collateral.supply_vault != user_source_collateral
            && old(reserve).liquidity.supply_vault != user_destination_liquidity && current(*old(reserve)) ==> match accrue_s(
            *old(reserve),
            slot,
        ) {
            Err(e) => r == Err::<u64, LendingError>(e),
            Ok(_) => r == redeem_reserve_collateral_s(refreshed_s(*old(reserve), slot, now_ts), c, slot, now_ts, true),
        },
{
    emergency_mode_disabled(market)?;
    redeem_reserve_collateral_checks(reserve, user_source_collateral, user_destination_liquidity)?;
    let mut next = *reserve;
    refresh_reserve(&mut next, slot, now_ts, None)?;
    let l = redeem_reserve_collateral(&mut next, c, slot, now_ts, true)?;
    *reserve = next;
    Ok(l)
}

/// A flash borrow as one instruction: not in emergency mode, the destination not the
/// vault, the reserve current, not obsolete and allowing flash loans, and the transaction
/// pairing the borrow with its repay; then the loan is booked. On a refusal the reserve is
/// not changed.
pub fn process_flash_borrow_reserve(
    ctx: &TxContext,
    program: Pubkey,
    market: &LendingMarket,
    reserve: &mut Reserve,
    user_destination_liquidity: Pubkey,
    amount: u64,
) -> (r: LendingResult<()>)
    requires
        ctx.wf(),
    ensures
        market.emergency_mode != 0 ==> r == Err::<(), LendingError>(LendingError::GlobalEmergencyMode),
        r is Err ==> *final(reserve) == *old(reserve),
        r is Ok <==> market.emergency_mode == 0 && old(reserve).liquidity.supply_vault != user_destination_liquidity
            && current(*old(reserve)) && old(reserve).config.status_spec() != ReserveStatus::Obsolete
            && old(reserve).config.fees.flash_loan_fee_sf != u64::MAX && ctx.top_level && borrow_scan(
            ctx.instructions@,
            ctx.current_index + 1,
            ctx.current_index as int,
            program,
            amount,
            false,
        ) is Ok && amount <= old(reserve).liquidity.available_amount && old(reserve).liquidity.borrowed_amount_sf
            + amount * crate::fraction::one() <= u128::MAX,
        r is Ok ==> final(reserve).liquidity.available_amount == old(reserve).liquidity.available_amount - amount,
        r is Ok ==> final(reserve).liquidity.borrowed_amount_sf == old(reserve).liquidity.borrowed_amount_sf + amount
            * crate::fraction::one(),
{
    emergency_mode_disabled(market)?;
    flash_borrow_reserve_liquidity_checks(reserve, user_destination_liquidity)?;
    flash_borrow_checks(ctx, program, amount)?;
    flash_borrow_reserve_liquidity(reserve, amount)
}

/// A flash repay as one instruction: not in emergency mode, the source not the vault, and
/// the instruction it points at its flash borrow; then the repayment is booked. Returns the
/// amount to take back and the protocol's fee. On a refusal the reserve is not changed.
pub fn process_flash_repay_reserve(
    ctx: &TxContext,
    program: Pubkey,
    market: &LendingMarket,
    reserve: &mut Reserve,
    reserve_key: Pubkey,
    user_source_liquidity: Pubkey,
    amount: u64,
    borrow_index: u8,
    slot: u64,
) -> (r: LendingResult<(u64, u64)>)
    requires
        ctx.wf(),
    ensures
        market.emergency_mode != 0 ==> r == Err::<(u64, u64), LendingError>(LendingError::GlobalEmergencyMode),
        r is Err ==> *final(reserve) == *old(reserve),
        !(market.emergency_mode == 0 && old(reserve).liquidity.supply_vault != user_source_liquidity && ctx.top_level
            && repay_target_ok(ctx.instructions@, ctx.current_index as int, program, reserve_key, amount, borrow_index as int))
            ==> r is Err,
        market.emergency_mode == 0 && old(reserve).liquidity.supply_vault != user_source_liquidity && ctx.top_level
            && repay_target_ok(ctx.instructions@, ctx.current_index as int, program, reserve_key, amount, borrow_index as int)
            ==> r == flash_repay_s(*old(reserve), amount),
        r is Ok ==> r->Ok_0.0 == amount && final(reserve).liquidity.available_amount
            == old(reserve).liquidity.available_amount + amount,
{
    emergency_mode_disabled(market)?;
    flash_repay_reserve_liquidity_checks(reserve, user_source_liquidity)?;
    flash_repay_checks(ctx, program, reserve_key, amount, borrow_index)?;
    flash_repay_reserve_liquidity(reserve, amount, slot)
}

} // verus!
