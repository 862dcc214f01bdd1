use vstd::prelude::*;
use crate::constants::PROGRAM_VERSION;
use crate::errors::{LendingError, LendingResult};
use crate::fraction::{Fraction, div_s, min_s, mul_s, one};
use crate::market::LendingMarket;
use crate::obligation::{
    Obligation, ObligationCollateral, ObligationLiquidity, count_borrows, count_deposits, MAX_BORROWS, MAX_DEPOSITS,
};
use crate::operations::{fresh, market_value_s, no_flags};
use crate::reserve::{Reserve, reserve_rate_s};
use crate::types::{PriceStatusFlags, Pubkey, ReserveStatus};

verus! {

/// `f(0) + ... + f(n - 1)`.
pub open spec fn sum_to(f: spec_fn(int) -> int, n: int) -> int
    decreases n,
{
    if n <= 0 {
        0
    } else {
        sum_to(f, n - 1) + f(n - 1)
    }
}

proof fn lemma_sum_ext(f: spec_fn(int) -> int, g: spec_fn(int) -> int, n: int)
    requires
        forall|i: int| 0 <= i < n ==> #[trigger] f(i) == g(i),
    ensures
        sum_to(f, n) == sum_to(g, n),
    decreases n,
{
    if n > 0 {
        lemma_sum_ext(f, g, n - 1);
    }
}

pub open spec fn dep_used(d: ObligationCollateral) -> bool {
    !d.deposit_reserve.is_default_spec()
}

pub open spec fn bor_used(b: ObligationLiquidity) -> bool {
    !b.borrow_reserve.is_default_spec()
}

/// Market value of pledged c-tokens: their liquidity at the reserve's exchange rate,
/// valued at its price.
pub open spec fn collateral_mv_s(r: Reserve, c: u64) -> Option<int> {
    market_value_s(r, div_s(Some(c * one()), reserve_rate_s(r)))
}

/// The value of the used deposit slots.
pub open spec fn deposits_value(deps: Seq<ObligationCollateral>) -> int {
    sum_to(|i: int| if dep_used(deps[i]) { deps[i].market_value_sf as int } else { 0 }, MAX_DEPOSITS as int)
}

pub open spec fn borrows_value(bors: Seq<ObligationLiquidity>) -> int {
    sum_to(|i: int| if bor_used(bors[i]) { bors[i].market_value_sf as int } else { 0 }, MAX_BORROWS as int)
}

pub open spec fn borrows_bf_value(bors: Seq<ObligationLiquidity>) -> int {
    sum_to(
        |i: int| if bor_used(bors[i]) { bors[i].borrow_factor_adjusted_market_value_sf as int } else { 0 },
        MAX_BORROWS as int,
    )
}

/// The percentage of a collateral's value that counts toward the borrowing power
/// (`threshold` false: the loan-to-value) or toward the unhealthy limit (`threshold` true).
pub open spec fn collateral_pct(r: Reserve, threshold: bool) -> int {
    if threshold {
        r.config.liquidation_threshold_pct as int
    } else {
        r.config.loan_to_value_pct as int
    }
}

/// The used deposit slots' values, each weighted by its reserve's percentage.
pub open spec fn weighted_value(
    deps: Seq<ObligationCollateral>,
    tiers: Seq<u8>,
    reserves: Seq<Reserve>,
    threshold: bool,
    n: int,
) -> int {
    sum_to(
        |j: int|
            if dep_used(deps[j]) {
                deps[j].market_value_sf * (collateral_pct(
                    reserves[count_deposits(deps, tiers, j, None) as int],
                    threshold,
                ) * one() / 100) / one()
            } else {
                0
            },
        n,
    )
}

/// The borrow factor of a reserve, never below one (raw).
pub open spec fn bf_s(r: Reserve) -> int {
    if r.config.borrow_factor_pct * one() / 100 >= one() {
        r.config.borrow_factor_pct * one() / 100
    } else {
        one()
    }
}

/// Borrow slot `i` is revalued from its reserve `r`: accrued to the reserve's index,
/// valued at its price, and adjusted by its borrow factor.
pub open spec fn borrow_slot_refreshed(old_b: ObligationLiquidity, new_b: ObligationLiquidity, r: Reserve) -> bool {
    let acc = crate::operations::accrued_debt_s(old_b, r.liquidity.cumulative_borrow_rate_bsf);
    &&& acc is Ok
    &&& new_b.borrow_reserve == old_b.borrow_reserve
    &&& new_b.cumulative_borrow_rate_bsf == if r.liquidity.cumulative_borrow_rate_bsf.v() == old_b.cumulative_borrow_rate_bsf.v() {
        old_b.cumulative_borrow_rate_bsf
    } else {
        r.liquidity.cumulative_borrow_rate_bsf
    }
    &&& new_b.borrowed_amount_sf == acc->Ok_0
    &&& market_value_s(r, Some(acc->Ok_0)) == Some(new_b.market_value_sf as int)
    &&& mul_s(Some(new_b.market_value_sf as int), Some(bf_s(r))) == Some(new_b.borrow_factor_adjusted_market_value_sf as int)
}

/// Borrow slot `i` can be revalued: its reserve is the next one handed in (after `first`),
/// fresh, current, and its debt accrues and is valued within the bound.
pub open spec fn borrow_slot_refreshable(o: Obligation, keys: Seq<Pubkey>, reserves: Seq<Reserve>, slot: u64, first: int, i: int) -> bool {
    let k = first + count_borrows(o.borrows@, o.borrows_asset_tiers@, i, None);
    let b = o.borrows@[i];
    let r = reserves[k];
    let acc = crate::operations::accrued_debt_s(b, r.liquidity.cumulative_borrow_rate_bsf);
    &&& keys[k] == b.borrow_reserve
    &&& fresh(r, slot, no_flags())
    &&& r.version == PROGRAM_VERSION
    &&& acc is Ok
    &&& market_value_s(r, Some(acc->Ok_0)) is Some
    &&& market_value_s(r, Some(acc->Ok_0))->Some_0 <= VALUE_BOUND
    &&& mul_s(market_value_s(r, Some(acc->Ok_0)), Some(bf_s(r))) is Some
    &&& mul_s(market_value_s(r, Some(acc->Ok_0)), Some(bf_s(r)))->Some_0 <= VALUE_BOUND
}

/// All used borrow slots can be revalued from the reserves handed in after `first`.
pub open spec fn borrows_refreshable(o: Obligation, keys: Seq<Pubkey>, reserves: Seq<Reserve>, slot: u64, first: int) -> bool {
    &&& first + o.n_borrows(None) <= keys.len()
    &&& forall|i: int| 0 <= i < MAX_BORROWS && bor_used(#[trigger] o.borrows@[i]) ==> borrow_slot_refreshable(o, keys, reserves, slot, first, i)
}

/// The lowest loan-to-value among the reserves of the used deposit slots below `n`, 255
/// when there are none.
pub open spec fn lowest_ltv_s(deps: Seq<ObligationCollateral>, tiers: Seq<u8>, reserves: Seq<Reserve>, n: int) -> int
    decreases n,
{
    if n <= 0 {
        255
    } else {
        let prev = lowest_ltv_s(deps, tiers, reserves, n - 1);
        if dep_used(deps[n - 1]) {
            let l = reserves[count_deposits(deps, tiers, n - 1, None) as int].config.loan_to_value_pct as int;
            if l < prev { l } else { prev }
        } else {
            prev
        }
    }
}

/// The number of used deposit slots below `n` whose reserve is obsolete.
pub open spec fn obsolete_count_s(deps: Seq<ObligationCollateral>, tiers: Seq<u8>, reserves: Seq<Reserve>, n: int) -> int
    decreases n,
{
    if n <= 0 {
        0
    } else {
        obsolete_count_s(deps, tiers, reserves, n - 1) + if dep_used(deps[n - 1])
            && reserves[count_deposits(deps, tiers, n - 1, None) as int].config.status_spec() == ReserveStatus::Obsolete {
            1int
        } else {
            0int
        }
    }
}

/// The price checks that every reserve from position `lo` up to `hi` passed: the
/// intersection of their flags, all four checks for none.
pub open spec fn flags_of(reserves: Seq<Reserve>, lo: int, hi: int) -> PriceStatusFlags
    decreases hi - lo,
{
    if hi <= lo {
        crate::operations::all_flags()
    } else {
        flags_of(reserves, lo, hi - 1).intersection_spec(reserves[hi - 1].last_update.price_status)
    }
}

proof fn lemma_flags_split(reserves: Seq<Reserve>, a: int, b: int)
    requires
        0 <= a <= b,
    ensures
        flags_of(reserves, 0, a).intersection_spec(flags_of(reserves, a, b)) == flags_of(reserves, 0, b),
    decreases b - a,
{
    if b > a {
        lemma_flags_split(reserves, a, b - 1);
    }
}

/// Fewer reserves are handed in than the obligation has used slots.
pub open spec fn n_too_few(o: Obligation, n: int) -> bool {
    o.n_deposits(None) > n
}

/// A bound on each value an obligation carries (2^120 raw, 2^60 in units), under which
/// its sums cannot overflow.
pub const VALUE_BOUND: u128 = 0x100_0000_0000_0000_0000_0000_0000_0000;

/// Deposit slot `i` can be revalued: its reserve is the next one handed in, fresh, current,
/// and gives it a value within the bound.
pub open spec fn deposit_slot_refreshable(o: Obligation, keys: Seq<Pubkey>, reserves: Seq<Reserve>, slot: u64, i: int) -> bool {
    let k = count_deposits(o.deposits@, o.deposits_asset_tiers@, i, None) as int;
    let d = o.deposits@[i];
    &&& keys[k] == d.deposit_reserve
    &&& fresh(reserves[k], slot, no_flags())
    &&& reserves[k].version == PROGRAM_VERSION
    &&& collateral_mv_s(reserves[k], d.deposited_amount) is Some
    &&& collateral_mv_s(reserves[k], d.deposited_amount)->Some_0 <= VALUE_BOUND
}

/// Every used deposit slot that gets a reserve handed in can be revalued from it.
pub open spec fn deposits_checks_pass(o: Obligation, keys: Seq<Pubkey>, reserves: Seq<Reserve>, slot: u64) -> bool {
    forall|i: int|
        0 <= i < MAX_DEPOSITS && dep_used(#[trigger] o.deposits@[i]) && count_deposits(
            o.deposits@,
            o.deposits_asset_tiers@,
            i,
            None,
        ) < keys.len() ==> deposit_slot_refreshable(o, keys, reserves, slot, i)
}

/// All used deposit slots can be revalued from the reserves handed in.
pub open spec fn deposits_refreshable(o: Obligation, keys: Seq<Pubkey>, reserves: Seq<Reserve>, slot: u64) -> bool {
    &&& o.n_deposits(None) <= keys.len()
    &&& forall|i: int| 0 <= i < MAX_DEPOSITS && dep_used(#[trigger] o.deposits@[i]) ==> deposit_slot_refreshable(o, keys, reserves, slot, i)
}

proof fn lemma_weight_bound(mv: int, pct: int)
    requires
        0 <= mv,
        0 <= pct <= 255,
    ensures
        0 <= mv * (pct * one() / 100) / one() <= 3 * mv,
{
    assert(pct * one() / 100 <= 3 * one()) by {
        assert(pct * one() <= 300 * one()) by (nonlinear_arith)
            requires
                pct <= 255,
        ;
        vstd::arithmetic::div_mod::lemma_div_is_ordered(pct * one(), 300 * one(), 100);
        assert(300 * one() == 100 * (3 * one()));
        vstd::arithmetic::div_mod::lemma_div_multiples_vanish(3 * one(), 100);
    }
    assert(pct * one() >= 0) by (nonlinear_arith)
        requires
            pct >= 0,
    ;
    vstd::arithmetic::div_mod::lemma_div_pos_is_pos(pct * one(), 100);
    let w = pct * one() / 100;
    assert(mv * w <= mv * (3 * one())) by (nonlinear_arith)
        requires
            0 <= mv,
            w <= 3 * one(),
    ;
    assert(mv * w >= 0) by (nonlinear_arith)
        requires
            0 <= mv,
            0 <= w,
    ;
    vstd::arithmetic::div_mod::lemma_div_is_ordered(mv * w, mv * (3 * one()), one());
    assert(mv * (3 * one()) == one() * (3 * mv)) by (nonlinear_arith);
    vstd::arithmetic::div_mod::lemma_div_multiples_vanish(3 * mv, one());
    vstd::arithmetic::div_mod::lemma_div_pos_is_pos(mv * w, one());
}

/// Each used deposit slot is matched, in order, by the next reserve: same id, refreshed
/// in `slot`, current version, and its value recomputed from it.
pub open spec fn deposits_refreshed(
    deps: Seq<ObligationCollateral>,
    tiers: Seq<u8>,
    keys: Seq<Pubkey>,
    reserves: Seq<Reserve>,
    slot: u64,
    n: int,
) -> bool {
    forall|i: int|
        0 <= i < n && dep_used(#[trigger] deps[i]) ==> ({
            let k = count_deposits(deps, tiers, i, None) as int;
            &&& k < keys.len()
            &&& keys[k] == deps[i].deposit_reserve
            &&& fresh(reserves[k], slot, no_flags())
            &&& reserves[k].version == PROGRAM_VERSION
            &&& collateral_mv_s(reserves[k], deps[i].deposited_amount) == Some(deps[i].market_value_sf as int)
        })
}

/// The reserve handed in for a deposit slot is that slot's reserve, refreshed in `slot`,
/// at the current version.
pub fn check_obligation_collateral_deposit_reserve(key: Pubkey, slot_key: Pubkey, reserve: &Reserve, slot: u64) -> (r: LendingResult<()>)
    ensures
        r is Ok <==> key == slot_key && fresh(*reserve, slot, no_flags()) && reserve.version == PROGRAM_VERSION,
{
    if key != slot_key {
        return Err(LendingError::InvalidAccountInput);
    }
    if reserve.last_update.is_stale(slot, &PriceStatusFlags::none())? {
        return Err(LendingError::ReserveStale);
    }
    if reserve.version != PROGRAM_VERSION as u64 {
        return Err(LendingError::ReserveDeprecated);
    }
    Ok(())
}

proof fn lemma_weighted_unused(
    deps: Seq<ObligationCollateral>,
    tiers: Seq<u8>,
    reserves: Seq<Reserve>,
    threshold: bool,
    i: int,
)
    requires
        0 <= i,
        !dep_used(deps[i]),
    ensures
        weighted_value(deps, tiers, reserves, threshold, i + 1) == weighted_value(deps, tiers, reserves, threshold, i),
{
}

/// One more used slot adds its weighted value, slots below it keeping theirs.
proof fn lemma_weighted_step(
    before: Seq<ObligationCollateral>,
    tbefore: Seq<u8>,
    after: Seq<ObligationCollateral>,
    tafter: Seq<u8>,
    reserves: Seq<Reserve>,
    threshold: bool,
    i: int,
)
    requires
        0 <= i,
        forall|j: int| 0 <= j < i ==> before[j] == after[j],
        forall|j: int| 0 <= j <= i ==> count_deposits(before, tbefore, j, None) == count_deposits(after, tafter, j, None),
    ensures
        weighted_value(after, tafter, reserves, threshold, i + 1) == weighted_value(before, tbefore, reserves, threshold, i)
            + if dep_used(after[i]) {
            after[i].market_value_sf * (collateral_pct(
                reserves[count_deposits(after, tafter, i, None) as int],
                threshold,
            ) * one() / 100) / one()
        } else {
            0
        },
{
    let f = |j: int|
        if dep_used(before[j]) {
            before[j].market_value_sf * (collateral_pct(reserves[count_deposits(before, tbefore, j, None) as int], threshold)
                * one() / 100) / one()
        } else {
            0
        };
    let g = |j: int|
        if dep_used(after[j]) {
            after[j].market_value_sf * (collateral_pct(reserves[count_deposits(after, tafter, j, None) as int], threshold)
                * one() / 100) / one()
        } else {
            0
        };
    assert forall|j: int| 0 <= j < i implies #[trigger] f(j) == g(j) by {
        assert(before[j] == after[j]);
    }
    lemma_sum_ext(f, g, i);
}

proof fn lemma_count_bors_frame(
    a: Seq<ObligationLiquidity>,
    ta: Seq<u8>,
    b: Seq<ObligationLiquidity>,
    tb: Seq<u8>,
    n: int,
)
    requires
        forall|j: int| 0 <= j < n ==> bor_used(#[trigger] a[j]) == bor_used(b[j]),
    ensures
        count_borrows(a, ta, n, None) == count_borrows(b, tb, n, None),
    decreases n,
{
    if n > 0 {
        lemma_count_bors_frame(a, ta, b, tb, n - 1);
    }
}

proof fn lemma_count_deps_frame(
    a: Seq<ObligationCollateral>,
    ta: Seq<u8>,
    b: Seq<ObligationCollateral>,
    tb: Seq<u8>,
    n: int,
)
    requires
        forall|j: int| 0 <= j < n ==> dep_used(#[trigger] a[j]) == dep_used(b[j]),
    ensures
        count_deposits(a, ta, n, None) == count_deposits(b, tb, n, None),
    decreases n,
{
    if n > 0 {
        lemma_count_deps_frame(a, ta, b, tb, n - 1);
    }
}

/// What the deposits pass of a refresh yields.
#[derive(Clone, Copy, Debug)]
pub struct RefreshObligationDepositsResult {
    pub lowest_deposit_ltv_accumulator: u8,
    pub num_of_obsolete_reserves: u8,
    pub deposited_value_f: Fraction,
    pub allowed_borrow_value_f: Fraction,
    pub unhealthy_borrow_value_f: Fraction,
    pub prices_state: PriceStatusFlags,
    pub reserves_used: usize,
}

/// What the borrows pass of a refresh yields.
#[derive(Clone, Copy, Debug)]
pub struct RefreshObligationBorrowsResult {
    pub borrowed_assets_market_value_f: Fraction,
    pub borrow_factor_adjusted_debt_value_f: Fraction,
    pub prices_state: PriceStatusFlags,
    pub reserves_used: usize,
}

/// Revalues each used deposit slot from the next reserve handed in (deposit order), and
/// sums the values and the borrowing power they give. Succeeds whenever every used slot
/// can be revalued from the reserves handed in.
#[verifier::rlimit(100)]
pub fn refresh_obligation_deposits(
    obligation: &mut Obligation,
    slot: u64,
    keys: &Vec<Pubkey>,
    reserves: &Vec<Reserve>,
) -> (r: LendingResult<RefreshObligationDepositsResult>)
    requires
        old(obligation).wf(),
        keys.len() == reserves.len(),
        forall|i: int| 0 <= i < reserves.len() ==> (#[trigger] reserves@[i]).liquidity.mint_decimals <= 19,
    ensures
        final(obligation).wf(),
        r is Ok ==> deposits_refreshed(
            final(obligation).deposits@,
            final(obligation).deposits_asset_tiers@,
            keys@,
            reserves@,
            slot,
            MAX_DEPOSITS as int,
        ),
        r is Ok ==> r->Ok_0.deposited_value_f.bits == deposits_value(final(obligation).deposits@),
        r is Ok ==> r->Ok_0.allowed_borrow_value_f.bits == weighted_value(
            final(obligation).deposits@,
            final(obligation).deposits_asset_tiers@,
            reserves@,
            false,
            MAX_DEPOSITS as int,
        ),
        r is Ok ==> r->Ok_0.unhealthy_borrow_value_f.bits == weighted_value(
            final(obligation).deposits@,
            final(obligation).deposits_asset_tiers@,
            reserves@,
            true,
            MAX_DEPOSITS as int,
        ),
        r is Ok ==> r->Ok_0.reserves_used <= keys.len(),
        r is Ok ==> r->Ok_0.reserves_used == final(obligation).n_deposits(None),
        r is Ok ==> r->Ok_0.lowest_deposit_ltv_accumulator == lowest_ltv_s(
            old(obligation).deposits@,
            old(obligation).deposits_asset_tiers@,
            reserves@,
            MAX_DEPOSITS as int,
        ),
        r is Ok ==> r->Ok_0.num_of_obsolete_reserves == obsolete_count_s(
            old(obligation).deposits@,
            old(obligation).deposits_asset_tiers@,
            reserves@,
            MAX_DEPOSITS as int,
        ),
        deposits_refreshable(*old(obligation), keys@, reserves@, slot) ==> r is Ok,
        n_too_few(*old(obligation), keys.len() as int) ==> r is Err,
        n_too_few(*old(obligation), keys.len() as int) && deposits_checks_pass(*old(obligation), keys@, reserves@, slot)
            ==> r == Err::<RefreshObligationDepositsResult, LendingError>(LendingError::InvalidAccountInput),
        r is Ok ==> forall|k: int| 0 <= k < r->Ok_0.reserves_used ==> (#[trigger] reserves@[k]).last_update.price_status.contains_spec(
            r->Ok_0.prices_state,
        ),
        r is Ok ==> r->Ok_0.prices_state == flags_of(reserves@, 0, r->Ok_0.reserves_used as int),
        r is Ok ==> forall|i: int| 0 <= i < MAX_DEPOSITS ==> (#[trigger] final(obligation).deposits@[i]).deposit_reserve
            == old(obligation).deposits@[i].deposit_reserve && final(obligation).deposits@[i].deposited_amount
            == old(obligation).deposits@[i].deposited_amount,
        r is Ok ==> final(obligation).borrows == old(obligation).borrows,
        r is Ok ==> final(obligation).borrows_asset_tiers == old(obligation).borrows_asset_tiers,
        r is Ok ==> final(obligation).last_update == old(obligation).last_update,
{
    let mut k: usize = 0;
    let mut deposited = Fraction::zero();
    let mut allowed = Fraction::zero();
    let mut unhealthy = Fraction::zero();
    let mut lowest_ltv: u8 = 255;
    let mut obsolete: u8 = 0;
    let mut prices = PriceStatusFlags::all_checks();
    let ghost d0 = obligation.deposits@;
    let ghost t0 = obligation.deposits_asset_tiers@;
    let ghost pre = deposits_checks_pass(*obligation, keys@, reserves@, slot);
    let mut i: usize = 0;
    while i < MAX_DEPOSITS
        invariant
            obligation.wf(),
            d0 == old(obligation).deposits@,
            t0 == old(obligation).deposits_asset_tiers@,
            pre == deposits_checks_pass(*old(obligation), keys@, reserves@, slot),
            lowest_ltv == lowest_ltv_s(d0, t0, reserves@, i as int),
            obsolete == obsolete_count_s(d0, t0, reserves@, i as int),
            obsolete <= i,
            k == count_deposits(d0, t0, i as int, None),
            pre ==> deposited.bits <= i * VALUE_BOUND && allowed.bits <= 3 * i * VALUE_BOUND && unhealthy.bits <= 3 * i
                * VALUE_BOUND,
            keys.len() == reserves.len(),
            forall|j: int| 0 <= j < reserves.len() ==> (#[trigger] reserves@[j]).liquidity.mint_decimals <= 19,
            i <= MAX_DEPOSITS,
            k == count_deposits(obligation.deposits@, obligation.deposits_asset_tiers@, i as int, None),
            k <= keys.len(),
            forall|j: int| 0 <= j < MAX_DEPOSITS ==> (#[trigger] obligation.deposits@[j]).deposit_reserve == d0[j].deposit_reserve
                && obligation.deposits@[j].deposited_amount == d0[j].deposited_amount,
            deposits_refreshed(obligation.deposits@, obligation.deposits_asset_tiers@, keys@, reserves@, slot, i as int),
            deposited.bits == sum_to(
                |j: int| if dep_used(obligation.deposits@[j]) { obligation.deposits@[j].market_value_sf as int } else { 0 },
                i as int,
            ),
            forall|kk: int| 0 <= kk < k ==> (#[trigger] reserves@[kk]).last_update.price_status.contains_spec(prices),
            prices == flags_of(reserves@, 0, k as int),
            allowed.bits == weighted_value(obligation.deposits@, obligation.deposits_asset_tiers@, reserves@, false, i as int),
            unhealthy.bits == weighted_value(obligation.deposits@, obligation.deposits_asset_tiers@, reserves@, true, i as int),
            obligation.borrows == old(obligation).borrows,
            obligation.borrows_asset_tiers == old(obligation).borrows_asset_tiers,
            obligation.last_update == old(obligation).last_update,
        decreases MAX_DEPOSITS - i,
    {
        let d = obligation.deposits[i];
        if !d.deposit_reserve.is_default() {
            proof {
                assert(dep_used(d0[i as int]));
                crate::obligation::lemma_count_deposits_mono(d0, t0, i as int + 1, MAX_DEPOSITS as int, None);
            }
            if k >= keys.len() {
                return Err(LendingError::InvalidAccountInput);
            }
            let reserve = &reserves[k];
            check_obligation_collateral_deposit_reserve(keys[k], d.deposit_reserve, reserve, slot)?;
            if reserve.config.get_status() == ReserveStatus::Obsolete {
                obsolete = obsolete + 1;
            }
            let mv = crate::operations::calculate_obligation_collateral_market_value(reserve, &d)?;
            proof {
                if pre {
                    lemma_weight_bound(mv.bits as int, reserve.config.loan_to_value_pct as int);
                    lemma_weight_bound(mv.bits as int, reserve.config.liquidation_threshold_pct as int);
                    assert(i * VALUE_BOUND + VALUE_BOUND == (i + 1) * VALUE_BOUND) by (nonlinear_arith);
                    assert(3 * i * VALUE_BOUND + 3 * VALUE_BOUND == 3 * (i + 1) * VALUE_BOUND) by (nonlinear_arith);
                }
            }
            let ltv = reserve.config.loan_to_value_pct;
            if ltv < lowest_ltv {
                lowest_ltv = ltv;
            }
            let new_deposited = deposited.checked_add(mv)?;
            let new_allowed = allowed.checked_add(mv.checked_mul(Fraction::from_percent(ltv as u64))?)?;
            let new_unhealthy = unhealthy.checked_add(
                mv.checked_mul(Fraction::from_percent(reserve.config.liquidation_threshold_pct as u64))?,
            )?;
            prices = prices.intersection(&reserve.last_update.price_status);
            let ghost before = obligation.deposits@;
            let ghost tbefore = obligation.deposits_asset_tiers@;
            obligation.deposits.set(i, ObligationCollateral { market_value_sf: mv.bits, ..d });
            obligation.deposits_asset_tiers.set(i, reserve.config.asset_tier);
            proof {
                let f = |j: int| if dep_used(before[j]) { before[j].market_value_sf as int } else { 0 };
                let g = |j: int| if dep_used(obligation.deposits@[j]) { obligation.deposits@[j].market_value_sf as int } else { 0 };
                lemma_sum_ext(f, g, i as int);
                assert(sum_to(g, i as int + 1) == sum_to(g, i as int) + g(i as int));
                lemma_count_deps_frame(before, tbefore, obligation.deposits@, obligation.deposits_asset_tiers@, i as int + 1);
                assert forall|j: int| 0 <= j < i + 1 && dep_used(#[trigger] obligation.deposits@[j]) implies ({
                    let kk = count_deposits(obligation.deposits@, obligation.deposits_asset_tiers@, j, None) as int;
                    &&& kk < keys.len()
                    &&& keys@[kk] == obligation.deposits@[j].deposit_reserve
                    &&& fresh(reserves@[kk], slot, no_flags())
                    &&& reserves@[kk].version == PROGRAM_VERSION
                    &&& collateral_mv_s(reserves@[kk], obligation.deposits@[j].deposited_amount) == Some(obligation.deposits@[j].market_value_sf as int)
                }) by {
                    lemma_count_deps_frame(before, tbefore, obligation.deposits@, obligation.deposits_asset_tiers@, j);
                    if j < i {
                        assert(before[j] == obligation.deposits@[j]);
                    }
                }
                let after = obligation.deposits@;
                let tafter = obligation.deposits_asset_tiers@;
                assert forall|j: int| 0 <= j <= i implies count_deposits(before, tbefore, j, None) == count_deposits(
                    after,
                    tafter,
                    j,
                    None,
                ) by {
                    lemma_count_deps_frame(before, tbefore, after, tafter, j);
                }
                lemma_weighted_step(before, tbefore, after, tafter, reserves@, false, i as int);
                lemma_weighted_step(before, tbefore, after, tafter, reserves@, true, i as int);
            }
            allowed = new_allowed;
            unhealthy = new_unhealthy;
            deposited = new_deposited;
            k = k + 1;
        } else {
            proof {
                assert(i * VALUE_BOUND <= (i + 1) * VALUE_BOUND) by (nonlinear_arith);
                assert(3 * i * VALUE_BOUND <= 3 * (i + 1) * VALUE_BOUND) by (nonlinear_arith);
                let g = |j: int| if dep_used(obligation.deposits@[j]) { obligation.deposits@[j].market_value_sf as int } else { 0 };
                assert(sum_to(g, i as int + 1) == sum_to(g, i as int) + g(i as int));
                lemma_weighted_unused(obligation.deposits@, obligation.deposits_asset_tiers@, reserves@, false, i as int);
                lemma_weighted_unused(obligation.deposits@, obligation.deposits_asset_tiers@, reserves@, true, i as int);
            }
        }
        i = i + 1;
    }
    Ok(
        RefreshObligationDepositsResult {
            lowest_deposit_ltv_accumulator: lowest_ltv,
            num_of_obsolete_reserves: obsolete,
            deposited_value_f: deposited,
            allowed_borrow_value_f: allowed,
            unhealthy_borrow_value_f: unhealthy,
            prices_state: prices,
            reserves_used: k,
        },
    )
}

/// Brings each used borrow slot up to its reserve's index and revalues it, from the
/// reserves handed in from position `first` on (borrow order), and sums the values.
pub fn refresh_obligation_borrows(
    obligation: &mut Obligation,
    slot: u64,
    keys: &Vec<Pubkey>,
    reserves: &Vec<Reserve>,
    first: usize,
) -> (r: LendingResult<RefreshObligationBorrowsResult>)
    requires
        old(obligation).wf(),
        keys.len() == reserves.len(),
        first <= keys.len(),
        forall|i: int| 0 <= i < reserves.len() ==> (#[trigger] reserves@[i]).liquidity.mint_decimals <= 19,
    ensures
        final(obligation).wf(),
        r is Ok ==> r->Ok_0.borrowed_assets_market_value_f.bits == borrows_value(final(obligation).borrows@),
        r is Ok ==> r->Ok_0.borrow_factor_adjusted_debt_value_f.bits == borrows_bf_value(final(obligation).borrows@),
        r is Ok ==> first <= r->Ok_0.reserves_used <= keys.len(),
        r is Ok ==> r->Ok_0.reserves_used == first + final(obligation).n_borrows(None),
        borrows_refreshable(*old(obligation), keys@, reserves@, slot, first as int) ==> r is Ok,
        first + old(obligation).n_borrows(None) > keys.len() ==> r is Err,
        r is Ok ==> forall|i: int|
            0 <= i < MAX_BORROWS && bor_used(#[trigger] old(obligation).borrows@[i]) ==> borrow_slot_refreshed(
                old(obligation).borrows@[i],
                final(obligation).borrows@[i],
                reserves@[first + count_borrows(old(obligation).borrows@, old(obligation).borrows_asset_tiers@, i, None)],
            ),
        r is Ok ==> forall|k: int| first <= k < r->Ok_0.reserves_used ==> (#[trigger] reserves@[k]).last_update.price_status.contains_spec(
            r->Ok_0.prices_state,
        ),
        r is Ok ==> r->Ok_0.prices_state == flags_of(reserves@, first as int, r->Ok_0.reserves_used as int),
        r is Ok ==> forall|i: int| 0 <= i < MAX_BORROWS ==> (#[trigger] final(obligation).borrows@[i]).borrow_reserve
            == old(obligation).borrows@[i].borrow_reserve,
        r is Ok ==> final(obligation).deposits == old(obligation).deposits,
        r is Ok ==> final(obligation).deposits_asset_tiers == old(obligation).deposits_asset_tiers,
        r is Ok ==> final(obligation).last_update == old(obligation).last_update,
{
    let mut k: usize = first;
    let mut prices = PriceStatusFlags::all_checks();
    let mut borrowed = Fraction::zero();
    let mut bf_debt = Fraction::zero();
    let ghost b0 = obligation.borrows@;
    let ghost bt0 = obligation.borrows_asset_tiers@;
    let ghost pre = borrows_refreshable(*obligation, keys@, reserves@, slot, first as int);
    let mut b: usize = 0;
    while b < MAX_BORROWS
        invariant
            obligation.wf(),
            b0 == old(obligation).borrows@,
            bt0 == old(obligation).borrows_asset_tiers@,
            pre == borrows_refreshable(*old(obligation), keys@, reserves@, slot, first as int),
            k == first + count_borrows(b0, bt0, b as int, None),
            pre ==> borrowed.bits <= b * VALUE_BOUND && bf_debt.bits <= b * VALUE_BOUND,
            forall|j: int| b <= j < MAX_BORROWS ==> (#[trigger] obligation.borrows@[j]) == b0[j],
            forall|j: int|
                0 <= j < b && bor_used(#[trigger] b0[j]) ==> borrow_slot_refreshed(
                    b0[j],
                    obligation.borrows@[j],
                    reserves@[first + count_borrows(b0, bt0, j, None)],
                ),
            keys.len() == reserves.len(),
            forall|j: int| 0 <= j < reserves.len() ==> (#[trigger] reserves@[j]).liquidity.mint_decimals <= 19,
            b <= MAX_BORROWS,
            first <= k <= keys.len(),
            k == first + count_borrows(obligation.borrows@, obligation.borrows_asset_tiers@, b as int, None),
            forall|kk: int| first <= kk < k ==> (#[trigger] reserves@[kk]).last_update.price_status.contains_spec(prices),
            prices == flags_of(reserves@, first as int, k as int),
            forall|j: int| 0 <= j < MAX_BORROWS ==> (#[trigger] obligation.borrows@[j]).borrow_reserve == b0[j].borrow_reserve,
            obligation.deposits == old(obligation).deposits,
            obligation.deposits_asset_tiers == old(obligation).deposits_asset_tiers,
            obligation.last_update == old(obligation).last_update,
            borrowed.bits == sum_to(
                |j: int| if bor_used(obligation.borrows@[j]) { obligation.borrows@[j].market_value_sf as int } else { 0 },
                b as int,
            ),
            bf_debt.bits == sum_to(
                |j: int| if bor_used(obligation.borrows@[j]) { obligation.borrows@[j].borrow_factor_adjusted_market_value_sf as int } else { 0 },
                b as int,
            ),
        decreases MAX_BORROWS - b,
    {
        let l = obligation.borrows[b];
        if !l.borrow_reserve.is_default() {
            proof {
                assert(bor_used(b0[b as int]));
                crate::obligation::lemma_count_borrows_mono(b0, bt0, b as int + 1, MAX_BORROWS as int, None);
            }
            if k >= keys.len() {
                return Err(LendingError::InvalidAccountInput);
            }
            let reserve = &reserves[k];
            check_obligation_collateral_deposit_reserve(keys[k], l.borrow_reserve, reserve, slot)?;
            let mut l2 = l;
            l2.accrue_interest(reserve.liquidity.cumulative_borrow_rate_bsf)?;
            let mv = crate::operations::calculate_obligation_liquidity_market_value(reserve, &l2)?;
            let bf_mv = mv.checked_mul(reserve.config.get_borrow_factor())?;
            proof {
                assert(b * VALUE_BOUND + VALUE_BOUND == (b + 1) * VALUE_BOUND) by (nonlinear_arith);
            }
            let new_borrowed = borrowed.checked_add(mv)?;
            let new_bf = bf_debt.checked_add(bf_mv)?;
            prices = prices.intersection(&reserve.last_update.price_status);
            let ghost before = obligation.borrows@;
            let ghost tbefore = obligation.borrows_asset_tiers@;
            obligation.borrows.set(
                b,
                ObligationLiquidity {
                    market_value_sf: mv.bits,
                    borrow_factor_adjusted_market_value_sf: bf_mv.bits,
                    ..l2
                },
            );
            obligation.borrows_asset_tiers.set(b, reserve.config.asset_tier);
            obligation.has_debt = 1;
            proof {
                let f = |j: int| if bor_used(before[j]) { before[j].market_value_sf as int } else { 0 };
                let g = |j: int| if bor_used(obligation.borrows@[j]) { obligation.borrows@[j].market_value_sf as int } else { 0 };
                lemma_sum_ext(f, g, b as int);
                assert(sum_to(g, b as int + 1) == sum_to(g, b as int) + g(b as int));
                let f2 = |j: int| if bor_used(before[j]) { before[j].borrow_factor_adjusted_market_value_sf as int } else { 0 };
                let g2 = |j: int| if bor_used(obligation.borrows@[j]) { obligation.borrows@[j].borrow_factor_adjusted_market_value_sf as int } else { 0 };
                lemma_sum_ext(f2, g2, b as int);
                assert(sum_to(g2, b as int + 1) == sum_to(g2, b as int) + g2(b as int));
                lemma_count_bors_frame(before, tbefore, obligation.borrows@, obligation.borrows_asset_tiers@, b as int);
            }
            borrowed = new_borrowed;
            bf_debt = new_bf;
            k = k + 1;
        } else {
            proof {
                let g = |j: int| if bor_used(obligation.borrows@[j]) { obligation.borrows@[j].market_value_sf as int } else { 0 };
                assert(sum_to(g, b as int + 1) == sum_to(g, b as int) + g(b as int));
                let g2 = |j: int| if bor_used(obligation.borrows@[j]) { obligation.borrows@[j].borrow_factor_adjusted_market_value_sf as int } else { 0 };
                assert(sum_to(g2, b as int + 1) == sum_to(g2, b as int) + g2(b as int));
                assert(b * VALUE_BOUND <= (b + 1) * VALUE_BOUND) by (nonlinear_arith);
            }
        }
        b = b + 1;
    }
    Ok(
        RefreshObligationBorrowsResult {
            borrowed_assets_market_value_f: borrowed,
            borrow_factor_adjusted_debt_value_f: bf_debt,
            prices_state: prices,
            reserves_used: k,
        },
    )
}

/// Recomputes the values of an obligation's deposits and debts from their reserves,
/// given in slot order (deposits, then borrows), each refreshed in `slot`; caps the
/// borrowing power at the market's global limits, and stamps the obligation fresh with
/// the price checks that all of its reserves passed.
pub fn refresh_obligation(
    obligation: &mut Obligation,
    market: &LendingMarket,
    slot: u64,
    keys: &Vec<Pubkey>,
    reserves: &Vec<Reserve>,
) -> (r: LendingResult<()>)
    requires
        old(obligation).wf(),
        keys.len() == reserves.len(),
        forall|i: int| 0 <= i < reserves.len() ==> (#[trigger] reserves@[i]).liquidity.mint_decimals <= 19,
    ensures
        r is Ok ==> final(obligation).last_update.price_status == flags_of(
            reserves@,
            0,
            (final(obligation).n_deposits(None) + final(obligation).n_borrows(None)) as int,
        ),
        final(obligation).wf(),
        r is Ok ==> deposits_refreshed(
            final(obligation).deposits@,
            final(obligation).deposits_asset_tiers@,
            keys@,
            reserves@,
            slot,
            MAX_DEPOSITS as int,
        ),
        r is Ok ==> final(obligation).deposited_value_sf == deposits_value(final(obligation).deposits@),
        r is Ok ==> final(obligation).borrowed_assets_market_value_sf == borrows_value(final(obligation).borrows@),
        r is Ok ==> final(obligation).borrow_factor_adjusted_debt_value_sf == borrows_bf_value(final(obligation).borrows@),
        r is Ok ==> final(obligation).allowed_borrow_value_sf == min_s(
            Some(weighted_value(final(obligation).deposits@, final(obligation).deposits_asset_tiers@, reserves@, false, MAX_DEPOSITS as int)),
            Some(market.global_allowed_borrow_value * one()),
        )->Some_0,
        r is Ok ==> final(obligation).unhealthy_borrow_value_sf == min_s(
            Some(weighted_value(final(obligation).deposits@, final(obligation).deposits_asset_tiers@, reserves@, true, MAX_DEPOSITS as int)),
            Some(market.global_unhealthy_borrow_value * one()),
        )->Some_0,
        r is Ok ==> final(obligation).last_update.slot == slot && !final(obligation).last_update.stale,
        r is Ok ==> final(obligation).n_deposits(None) + final(obligation).n_borrows(None) <= reserves.len(),
        deposits_refreshable(*old(obligation), keys@, reserves@, slot) && borrows_refreshable(
            *old(obligation),
            keys@,
            reserves@,
            slot,
            old(obligation).n_deposits(None) as int,
        ) ==> r is Ok,
        n_too_few(*old(obligation), keys.len() as int) && deposits_checks_pass(*old(obligation), keys@, reserves@, slot)
            ==> r == Err::<(), LendingError>(LendingError::InvalidAccountInput),
        old(obligation).n_deposits(None) + old(obligation).n_borrows(None) > keys.len() ==> r is Err,
        r is Ok ==> final(obligation).lowest_reserve_deposit_ltv == lowest_ltv_s(
            old(obligation).deposits@,
            old(obligation).deposits_asset_tiers@,
            reserves@,
            MAX_DEPOSITS as int,
        ),
        r is Ok ==> final(obligation).num_of_obsolete_reserves == obsolete_count_s(
            old(obligation).deposits@,
            old(obligation).deposits_asset_tiers@,
            reserves@,
            MAX_DEPOSITS as int,
        ),
        r is Ok ==> forall|i: int|
            0 <= i < MAX_BORROWS && bor_used(#[trigger] old(obligation).borrows@[i]) ==> borrow_slot_refreshed(
                old(obligation).borrows@[i],
                final(obligation).borrows@[i],
                reserves@[(old(obligation).n_deposits(None) + count_borrows(
                    old(obligation).borrows@,
                    old(obligation).borrows_asset_tiers@,
                    i,
                    None,
                )) as int],
            ),
        r is Ok ==> forall|k: int|
            0 <= k < final(obligation).n_deposits(None) + final(obligation).n_borrows(None) ==> (#[trigger] reserves@[k]).last_update.price_status.contains_spec(
                final(obligation).last_update.price_status,
            ),
        r is Ok ==> forall|i: int| 0 <= i < MAX_DEPOSITS ==> final(obligation).deposits@[i].deposit_reserve
            == old(obligation).deposits@[i].deposit_reserve && final(obligation).deposits@[i].deposited_amount
            == old(obligation).deposits@[i].deposited_amount,
        r is Ok ==> forall|i: int| 0 <= i < MAX_BORROWS ==> (#[trigger] final(obligation).borrows@[i]).borrow_reserve
            == old(obligation).borrows@[i].borrow_reserve,
{
    let ghost o0 = *obligation;
    let d = refresh_obligation_deposits(obligation, slot, keys, reserves)?;
    proof {
        lemma_count_deps_frame(
            obligation.deposits@,
            obligation.deposits_asset_tiers@,
            o0.deposits@,
            o0.deposits_asset_tiers@,
            MAX_DEPOSITS as int,
        );
    }
    let b = refresh_obligation_borrows(obligation, slot, keys, reserves, d.reserves_used)?;
    obligation.borrowed_assets_market_value_sf = b.borrowed_assets_market_value_f.bits;
    obligation.deposited_value_sf = d.deposited_value_f.bits;
    obligation.borrow_factor_adjusted_debt_value_sf = b.borrow_factor_adjusted_debt_value_f.bits;
    obligation.allowed_borrow_value_sf = d.allowed_borrow_value_f.min(Fraction::from_u64(market.global_allowed_borrow_value)).bits;
    obligation.unhealthy_borrow_value_sf = d.unhealthy_borrow_value_f.min(Fraction::from_u64(market.global_unhealthy_borrow_value)).bits;
    obligation.lowest_reserve_deposit_ltv = d.lowest_deposit_ltv_accumulator as u64;
    obligation.num_of_obsolete_reserves = d.num_of_obsolete_reserves;
    let prices = d.prices_state.intersection(&b.prices_state);
    proof {
        lemma_flags_split(reserves@, d.reserves_used as int, b.reserves_used as int);
    }
    obligation.last_update.update_slot(slot, Some(prices));
    Ok(())
}

} // verus!
