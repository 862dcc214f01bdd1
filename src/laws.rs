use vstd::prelude::*;
use crate::fraction::{ceil_s, floor_s, one};
use crate::obligation::{Obligation, MAX_BORROWS};
use crate::caps::cap_sub_spec;
use crate::operations::{
    borrow_effect, borrow_slot, deposit_reserve_liquidity_s, deposited_reserve_s, fresh, no_flags, redeem_reserve_collateral_s,
    refreshed_s, repay_all_effect,
};
use crate::reserve::Reserve;
use crate::reserve::{
    ReserveLiquidity, collateral_to_liquidity_s, exchange_rate_s, liquidity_to_collateral_s,
    total_supply_s,
};
use crate::types::Pubkey;

verus! {

/// Depositing `x` into an empty reserve (no c-tokens, no liquidity) mints `x` c-tokens at
/// the initial rate of one, and redeeming those c-tokens right away gives back exactly `x`.
pub proof fn lemma_deposit_redeem_round_trip(l: ReserveLiquidity, mint_total_supply: u64, x: u64)
    requires
        mint_total_supply == 0,
        total_supply_s(l) == Some(0int),
        x > 0,
        l.available_amount + x <= u64::MAX,
        l.available_amount * one() + l.borrowed_amount_sf + x * one() <= u128::MAX,
    ensures
        exchange_rate_s(mint_total_supply as int, total_supply_s(l)) == Some(one()),
        liquidity_to_collateral_s(one(), x as int) == Some(x as int),
        ({
            let l2 = ReserveLiquidity { available_amount: (l.available_amount + x) as u64, ..l };
            let rate2 = exchange_rate_s(mint_total_supply + x, total_supply_s(l2));
            &&& rate2 == Some(one())
            &&& collateral_to_liquidity_s(rate2->Some_0, x as int) == Some(x as int)
        }),
{
    let l2 = ReserveLiquidity { available_amount: (l.available_amount + x) as u64, ..l };
    assert(one() * x == x * one()) by (nonlinear_arith);
    vstd::arithmetic::div_mod::lemma_div_multiples_vanish(x as int, one());
    assert(x * one() <= u64::MAX * one()) by (nonlinear_arith)
        requires
            x <= u64::MAX,
    ;
    assert(l2.available_amount * one() == l.available_amount * one() + x * one()) by (nonlinear_arith)
        requires
            l2.available_amount == l.available_amount + x,
    ;
    assert(total_supply_s(l2) == Some(x * one()));
    let t = x * one();
    assert(t > 0) by (nonlinear_arith)
        requires
            x > 0,
            t == x * one(),
    ;
    assert((x * one()) * one() / t == one()) by {
        assert((x * one()) * one() == one() * t) by (nonlinear_arith)
            requires
                t == x * one(),
        ;
        vstd::arithmetic::div_mod::lemma_div_multiples_vanish(one(), t);
        assert(t * one() == one() * t) by (nonlinear_arith);
    }
    assert((x * one()) * one() / one() == x * one()) by {
        vstd::arithmetic::div_mod::lemma_div_multiples_vanish(x * one(), one());
        assert((x * one()) * one() == one() * (x * one())) by (nonlinear_arith);
    }
}

/// The round trip through the operations themselves: on a fresh, empty reserve whose
/// deposit limit and deposit cap admit `x`, depositing `x` succeeds and mints `x`
/// c-tokens, and redeeming them in the same slot succeeds and pays out exactly `x`.
pub proof fn lemma_deposit_redeem_operations(r: Reserve, slot: u64, now: u64, x: u64)
    requires
        fresh(r, slot, no_flags()),
        r.collateral.mint_total_supply == 0,
        total_supply_s(r.liquidity) == Some(0int),
        x > 0,
        x * one() <= r.config.deposit_limit * one(),
        cap_sub_spec(r.config.deposit_withdrawal_cap, x, now) is Ok,
        r.liquidity.available_amount + x <= u64::MAX,
        r.liquidity.available_amount * one() + r.liquidity.borrowed_amount_sf + x * one() <= u128::MAX,
    ensures
        deposit_reserve_liquidity_s(r, slot, now, x) == Ok::<u64, crate::errors::LendingError>(x),
        redeem_reserve_collateral_s(
            refreshed_s(deposited_reserve_s(r, x, x, now), slot, now),
            x,
            slot,
            now,
            false,
        ) == Ok::<u64, crate::errors::LendingError>(x),
{
    lemma_deposit_redeem_round_trip(r.liquidity, r.collateral.mint_total_supply, x);
    let r1 = deposited_reserve_s(r, x, x, now);
    assert(r1.last_update.slot == slot);
    assert(crate::reserve::accrue_s(r1, slot) == Ok::<ReserveLiquidity, crate::errors::LendingError>(r1.liquidity));
    let r2 = refreshed_s(r1, slot, now);
    assert(r2.liquidity == r1.liquidity);
    assert(r2.collateral.mint_total_supply == x);
    let l2 = ReserveLiquidity { available_amount: (r.liquidity.available_amount + x) as u64, ..r.liquidity };
    assert(r2.liquidity == l2);
    assert(crate::reserve::reserve_rate_s(r2) == Some(one()));
    assert(x * one() <= u64::MAX * one()) by (nonlinear_arith)
        requires
            x <= u64::MAX,
    ;
}

/// The depositors' share of a reserve is never negative: fees stay within available plus
/// borrowed liquidity.
pub open spec fn liquidity_wf(l: ReserveLiquidity) -> bool {
    l.accumulated_protocol_fees_sf <= l.available_amount * one() + l.borrowed_amount_sf
        && l.available_amount * one() + l.borrowed_amount_sf <= u128::MAX
}

/// Conservation: `total_supply = available + borrowed - fees`, and a deposit of `x` raises
/// it by exactly `x`.
pub proof fn lemma_conservation_deposit(l: ReserveLiquidity, x: u64)
    requires
        liquidity_wf(l),
        l.available_amount + x <= u64::MAX,
        (l.available_amount + x) * one() + l.borrowed_amount_sf <= u128::MAX,
    ensures
        total_supply_s(l) == Some(l.available_amount * one() + l.borrowed_amount_sf - l.accumulated_protocol_fees_sf),
        ({
            let l2 = ReserveLiquidity { available_amount: (l.available_amount + x) as u64, ..l };
            &&& liquidity_wf(l2)
            &&& total_supply_s(l2) == Some(total_supply_s(l)->Some_0 + x * one())
        }),
{
    assert((l.available_amount + x) * one() == l.available_amount * one() + x * one()) by (nonlinear_arith);
}

/// Conservation through a borrow of `b` (raw): the available amount drops by the whole
/// units lent, the debt grows by `b`, so the total supply grows only by the fraction of a
/// unit that stays owed.
pub proof fn lemma_conservation_borrow(l: ReserveLiquidity, b: int)
    requires
        liquidity_wf(l),
        0 <= b,
        floor_s(Some(b)) is Some,
        floor_s(Some(b))->Some_0 <= l.available_amount,
        l.borrowed_amount_sf + b <= u128::MAX,
        l.available_amount * one() + l.borrowed_amount_sf + b <= u128::MAX,
    ensures
        ({
            let w = floor_s(Some(b))->Some_0;
            let l2 = ReserveLiquidity {
                available_amount: (l.available_amount - w) as u64,
                borrowed_amount_sf: (l.borrowed_amount_sf + b) as u128,
                ..l
            };
            &&& liquidity_wf(l2)
            &&& total_supply_s(l2) == Some(total_supply_s(l)->Some_0 + b % one())
        }),
{
    let w = b / one();
    vstd::arithmetic::div_mod::lemma_fundamental_div_mod(b, one());
    assert((l.available_amount - w) * one() == l.available_amount * one() - w * one()) by (nonlinear_arith);
    assert(w * one() == one() * w) by (nonlinear_arith);
}

/// Conservation through a payout of `amount` of protocol fees: available liquidity and
/// fees drop together, the depositors' total supply is unchanged.
pub proof fn lemma_conservation_redeem_fees(l: ReserveLiquidity, amount: u64)
    requires
        liquidity_wf(l),
        amount <= l.available_amount,
        amount * one() <= l.accumulated_protocol_fees_sf,
    ensures
        ({
            let l2 = ReserveLiquidity {
                available_amount: (l.available_amount - amount) as u64,
                accumulated_protocol_fees_sf: (l.accumulated_protocol_fees_sf - amount * one()) as u128,
                ..l
            };
            &&& liquidity_wf(l2)
            &&& total_supply_s(l2) == total_supply_s(l)
        }),
{
    assert((l.available_amount - amount) * one() == l.available_amount * one() - amount * one()) by (nonlinear_arith);
}

/// Conservation through a repayment of `repay` tokens settling `settle` (raw) of debt, with
/// the tokens covering the debt settled (as `calculate_repay` sizes them): the total supply
/// does not shrink and stays well formed.
pub proof fn lemma_conservation_repay(l: ReserveLiquidity, repay: u64, settle: int)
    requires
        liquidity_wf(l),
        0 <= settle,
        settle <= repay * one(),
        l.available_amount + repay <= u64::MAX,
        (l.available_amount + repay) * one() + l.borrowed_amount_sf <= u128::MAX,
    ensures
        ({
            let paid = if settle <= l.borrowed_amount_sf { settle } else { l.borrowed_amount_sf as int };
            let l2 = ReserveLiquidity {
                available_amount: (l.available_amount + repay) as u64,
                borrowed_amount_sf: (l.borrowed_amount_sf - paid) as u128,
                ..l
            };
            &&& liquidity_wf(l2)
            &&& total_supply_s(l2) == Some(total_supply_s(l)->Some_0 + repay * one() - paid)
            &&& total_supply_s(l2)->Some_0 >= total_supply_s(l)->Some_0
        }),
{
    assert((l.available_amount + repay) * one() == l.available_amount * one() + repay * one()) by (nonlinear_arith);
}

/// Conservation through interest: the debt grows by the new interest and the protocol's
/// fees by at most that (a take rate of at most 100%), so the total supply does not shrink.
pub proof fn lemma_conservation_accrual(l: ReserveLiquidity, new_debt: int, take: int)
    requires
        liquidity_wf(l),
        new_debt >= l.borrowed_amount_sf,
        0 <= take <= one(),
        l.available_amount * one() + new_debt <= u128::MAX,
    ensures
        ({
            let fee = (new_debt - l.borrowed_amount_sf) * take / one();
            let l2 = ReserveLiquidity {
                borrowed_amount_sf: new_debt as u128,
                accumulated_protocol_fees_sf: (l.accumulated_protocol_fees_sf + fee) as u128,
                ..l
            };
            &&& 0 <= fee <= new_debt - l.borrowed_amount_sf
            &&& liquidity_wf(l2)
            &&& total_supply_s(l2) == Some(total_supply_s(l)->Some_0 + (new_debt - l.borrowed_amount_sf) - fee)
        }),
{
    let net = new_debt - l.borrowed_amount_sf;
    assert(net * take <= net * one()) by (nonlinear_arith)
        requires
            net >= 0,
            take <= one(),
    ;
    assert(net * take >= 0) by (nonlinear_arith)
        requires
            net >= 0,
            take >= 0,
    ;
    vstd::arithmetic::div_mod::lemma_div_is_ordered(net * take, net * one(), one());
    vstd::arithmetic::div_mod::lemma_div_multiples_vanish(net, one());
    assert(net * one() == one() * net) by (nonlinear_arith);
    vstd::arithmetic::div_mod::lemma_div_pos_is_pos(net * take, one());
}

/// Borrowing `b` from a reserve in which the obligation had no debt, then repaying all of
/// it with no time passed in between (the reserve's index unchanged), leaves the
/// obligation's slot with no debt and the reserve's debt and fees where they were before
/// the borrow; the tokens owed are `b` rounded up, so the available liquidity ends up
/// changed by `ceil(b) - floor(b)`, and `has_debt` tells whether any other debt is left.
pub proof fn lemma_borrow_repay_round_trip(
    o0: Obligation,
    r0: Reserve,
    key: Pubkey,
    o1: Obligation,
    r1: Reserve,
    b: int,
    o2: Obligation,
    r2: Reserve,
    r1_index: crate::wide::BigFraction,
    rp: u64,
)
    requires
        o0.first_borrow(key, MAX_BORROWS as int) is None,
        borrow_effect(o0, r0, key, o1, r1, b),
        repay_all_effect(o1, r1, key, o2, r2, rp),
        r1_index == r1.liquidity.cumulative_borrow_rate_bsf,
    ensures
        o2.borrows@[borrow_slot(o0, key)].borrowed_amount_sf == 0,
        r2.liquidity.borrowed_amount_sf == r0.liquidity.borrowed_amount_sf,
        ceil_s(Some(b)) == Some(rp as int),
        r2.liquidity.available_amount == r0.liquidity.available_amount - floor_s(Some(b))->Some_0 + rp,
        r2.liquidity.accumulated_protocol_fees_sf == r0.liquidity.accumulated_protocol_fees_sf,
        o2.has_debt == if crate::obligation::any_debt(o2.borrows@, MAX_BORROWS as int) { 1u8 } else { 0u8 },
{
}

} // verus!
