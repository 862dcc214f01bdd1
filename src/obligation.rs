use vstd::prelude::*;
use crate::errors::{LendingError, LendingResult};
use crate::fraction::{Fraction, div_int_s, div_s, fres, math_only, mul_int_s, mul_s, one};
use crate::types::{AssetTier, LastUpdate, Pubkey};
use crate::wide::{BigFraction, big_ratio_s};

verus! {

pub const MAX_DEPOSITS: usize = 8;
pub const MAX_BORROWS: usize = 5;

/// Tier code written into a freed slot.
pub const EMPTY_TIER: u8 = 255;

/// C-tokens of one reserve pledged in an obligation; empty when the reserve id is zero.
#[derive(Clone, Copy, Debug, PartialEq, Eq, Structural)]
pub struct ObligationCollateral {
    pub deposit_reserve: Pubkey,
    pub deposited_amount: u64,
    pub market_value_sf: u128,
}

/// Debt owed to one reserve; empty when the reserve id is zero.
#[derive(Clone, Copy, Debug, PartialEq, Eq, Structural)]
pub struct ObligationLiquidity {
    pub borrow_reserve: Pubkey,
    pub cumulative_borrow_rate_bsf: BigFraction,
    pub borrowed_amount_sf: u128,
    pub market_value_sf: u128,
    pub borrow_factor_adjusted_market_value_sf: u128,
}

impl ObligationCollateral {
    pub fn new(reserve: Pubkey) -> (r: ObligationCollateral)
        ensures
            r == (ObligationCollateral { deposit_reserve: reserve, deposited_amount: 0, market_value_sf: 0 }),
    {
        ObligationCollateral { deposit_reserve: reserve, deposited_amount: 0, market_value_sf: 0 }
    }

    pub fn empty() -> (r: ObligationCollateral)
        ensures
            r.deposit_reserve.is_default_spec() && r.deposited_amount == 0 && r.market_value_sf == 0,
    {
        ObligationCollateral::new(Pubkey::default_key())
    }
}

impl ObligationLiquidity {
    pub fn new(reserve: Pubkey, cumulative_borrow_rate: BigFraction) -> (r: ObligationLiquidity)
        ensures
            r == (ObligationLiquidity {
                borrow_reserve: reserve,
                cumulative_borrow_rate_bsf: cumulative_borrow_rate,
                borrowed_amount_sf: 0,
                market_value_sf: 0,
                borrow_factor_adjusted_market_value_sf: 0,
            }),
    {
        ObligationLiquidity {
            borrow_reserve: reserve,
            cumulative_borrow_rate_bsf: cumulative_borrow_rate,
            borrowed_amount_sf: 0,
            market_value_sf: 0,
            borrow_factor_adjusted_market_value_sf: 0,
        }
    }

    pub fn empty() -> (r: ObligationLiquidity)
        ensures
            r.borrow_reserve.is_default_spec() && r.borrowed_amount_sf == 0 && r.market_value_sf == 0
                && r.borrow_factor_adjusted_market_value_sf == 0 && r.cumulative_borrow_rate_bsf.v() == 0,
            r == (ObligationLiquidity {
                borrow_reserve: Pubkey { w0: 0, w1: 0, w2: 0, w3: 0 },
                cumulative_borrow_rate_bsf: BigFraction { hi: 0, lo: 0 },
                borrowed_amount_sf: 0,
                market_value_sf: 0,
                borrow_factor_adjusted_market_value_sf: 0,
            }),
    {
        ObligationLiquidity::new(Pubkey::default_key(), BigFraction { hi: 0, lo: 0 })
    }

    /// Brings the debt up to a new cumulative borrow index: it grows by `new / old`.
    /// A lower index than the recorded one is refused.
    pub fn accrue_interest(&mut self, new_rate: BigFraction) -> (r: LendingResult<()>)
        ensures
            new_rate.v() < old(self).cumulative_borrow_rate_bsf.v() ==> r == Err::<(), LendingError>(
                LendingError::NegativeInterestRate,
            ),
            new_rate.v() == old(self).cumulative_borrow_rate_bsf.v() ==> r is Ok && *final(self) == *old(self),
            new_rate.v() > old(self).cumulative_borrow_rate_bsf.v() ==> match mul_s(
                Some(old(self).borrowed_amount_sf as int),
                big_ratio_s(new_rate.v(), old(self).cumulative_borrow_rate_bsf.v()),
            ) {
                Some(b) => r is Ok && *final(self) == (ObligationLiquidity {
                    borrowed_amount_sf: b as u128,
                    cumulative_borrow_rate_bsf: new_rate,
                    ..*old(self)
                }),
                None => r == Err::<(), LendingError>(LendingError::MathOverflow),
            },
            r is Err ==> *final(self) == *old(self),
    {
        let former = self.cumulative_borrow_rate_bsf;
        if new_rate.lt(&former) {
            return Err(LendingError::NegativeInterestRate);
        }
        if new_rate.same(&former) {
            return Ok(());
        }
        let ratio = BigFraction::checked_ratio(new_rate, former)?;
        let b = Fraction::from_bits(self.borrowed_amount_sf).checked_mul(ratio)?;
        self.borrowed_amount_sf = b.bits;
        self.cumulative_borrow_rate_bsf = new_rate;
        Ok(())
    }
}

/// A deposit slot after `amount` of its c-tokens leave: emptied when all of them leave.
pub open spec fn deposit_taken(s: ObligationCollateral, amount: u64) -> ObligationCollateral {
    if amount == s.deposited_amount {
        ObligationCollateral {
            deposit_reserve: Pubkey { w0: 0, w1: 0, w2: 0, w3: 0 },
            deposited_amount: 0,
            market_value_sf: 0,
        }
    } else {
        ObligationCollateral { deposited_amount: (s.deposited_amount - amount) as u64, ..s }
    }
}

/// A borrow slot after `settle` (raw) of its debt is settled: emptied when all of it is.
pub open spec fn debt_settled(s: ObligationLiquidity, settle: int) -> ObligationLiquidity {
    if settle == s.borrowed_amount_sf {
        ObligationLiquidity {
            borrow_reserve: Pubkey { w0: 0, w1: 0, w2: 0, w3: 0 },
            cumulative_borrow_rate_bsf: BigFraction { hi: 0, lo: 0 },
            borrowed_amount_sf: 0,
            market_value_sf: 0,
            borrow_factor_adjusted_market_value_sf: 0,
        }
    } else {
        ObligationLiquidity { borrowed_amount_sf: (s.borrowed_amount_sf - settle) as u128, ..s }
    }
}

/// A user's position: pledged collateral and debts in up to 8 and 5 reserves.
#[derive(Clone, Debug)]
pub struct Obligation {
    pub tag: u64,
    pub last_update: LastUpdate,
    pub lending_market: Pubkey,
    pub owner: Pubkey,
    pub deposits: Vec<ObligationCollateral>,
    pub deposits_asset_tiers: Vec<u8>,
    pub borrows: Vec<ObligationLiquidity>,
    pub borrows_asset_tiers: Vec<u8>,
    pub deposited_value_sf: u128,
    pub borrowed_assets_market_value_sf: u128,
    pub borrow_factor_adjusted_debt_value_sf: u128,
    pub allowed_borrow_value_sf: u128,
    pub unhealthy_borrow_value_sf: u128,
    pub lowest_reserve_deposit_ltv: u64,
    pub num_of_obsolete_reserves: u8,
    pub has_debt: u8,
}

/// Number of slots among the first `n` that are in use and carry tier code `t` (any
/// code when `t` is `None`).
pub open spec fn count_deposits(deps: Seq<ObligationCollateral>, tiers: Seq<u8>, n: int, t: Option<u8>) -> nat
    decreases n,
{
    if n <= 0 {
        0
    } else {
        count_deposits(deps, tiers, n - 1, t) + if !deps[n - 1].deposit_reserve.is_default_spec()
            && (t is None || tiers[n - 1] == t->Some_0) {
            1nat
        } else {
            0nat
        }
    }
}

pub open spec fn count_borrows(bors: Seq<ObligationLiquidity>, tiers: Seq<u8>, n: int, t: Option<u8>) -> nat
    decreases n,
{
    if n <= 0 {
        0
    } else {
        count_borrows(bors, tiers, n - 1, t) + if !bors[n - 1].borrow_reserve.is_default_spec() && (
        t is None || tiers[n - 1] == t->Some_0) {
            1nat
        } else {
            0nat
        }
    }
}

/// Some borrow slot below `n` holds debt.
pub open spec fn any_debt(bors: Seq<ObligationLiquidity>, n: int) -> bool
    decreases n,
{
    if n <= 0 {
        false
    } else {
        any_debt(bors, n - 1) || bors[n - 1].borrowed_amount_sf > 0
    }
}

/// The asset-tier rule over the slots and their tier codes.
pub open spec fn tiers_valid_seqs(deps: Seq<ObligationCollateral>, dt: Seq<u8>, bors: Seq<ObligationLiquidity>, bt: Seq<u8>) -> bool {
    let iso_c = count_deposits(deps, dt, MAX_DEPOSITS as int, Some(1u8));
    let iso_d = count_borrows(bors, bt, MAX_BORROWS as int, Some(2u8));
    &&& iso_c <= 1
    &&& iso_d <= 1
    &&& !(iso_c > 0 && iso_d > 0)
    &&& !(count_deposits(deps, dt, MAX_DEPOSITS as int, None) > 1 && iso_c > 0)
    &&& !(count_borrows(bors, bt, MAX_BORROWS as int, None) > 1 && iso_d > 0)
    &&& count_deposits(deps, dt, MAX_DEPOSITS as int, Some(2u8)) == 0
    &&& count_borrows(bors, bt, MAX_BORROWS as int, Some(1u8)) == 0
}

impl Obligation {
    pub open spec fn wf(&self) -> bool {
        &&& self.deposits.len() == MAX_DEPOSITS
        &&& self.deposits_asset_tiers.len() == MAX_DEPOSITS
        &&& self.borrows.len() == MAX_BORROWS
        &&& self.borrows_asset_tiers.len() == MAX_BORROWS
    }

    pub open spec fn n_deposits(&self, t: Option<u8>) -> nat {
        count_deposits(self.deposits@, self.deposits_asset_tiers@, MAX_DEPOSITS as int, t)
    }

    pub open spec fn n_borrows(&self, t: Option<u8>) -> nat {
        count_borrows(self.borrows@, self.borrows_asset_tiers@, MAX_BORROWS as int, t)
    }

    /// The asset-tier rule: at most one isolated collateral and one isolated debt, never
    /// both, an isolated asset alone on its side, no isolated-debt asset as collateral and
    /// no isolated-collateral asset as debt.
    pub open spec fn tiers_valid(&self) -> bool {
        tiers_valid_seqs(self.deposits@, self.deposits_asset_tiers@, self.borrows@, self.borrows_asset_tiers@)
    }

    /// The slot that a borrow from `key` would use, if any.
    pub fn borrow_slot_index(&self, key: Pubkey) -> (r: Option<usize>)
        requires
            self.wf(),
        ensures
            match self.first_borrow(key, MAX_BORROWS as int) {
                Some(i) => r == Some(i as usize),
                None => match self.first_borrow(Pubkey { w0: 0, w1: 0, w2: 0, w3: 0 }, MAX_BORROWS as int) {
                    Some(i) => r == Some(i as usize),
                    None => r is None,
                },
            },
            r is Some ==> r->Some_0 < MAX_BORROWS,
    {
        match self.position_of_borrow(key) {
            Some(i) => Some(i),
            None => self.position_of_borrow(Pubkey::default_key()),
        }
    }

    /// The slot that a pledge of `key` would use, if any.
    pub fn deposit_slot_index(&self, key: Pubkey) -> (r: Option<usize>)
        requires
            self.wf(),
        ensures
            match self.first_deposit(key, MAX_DEPOSITS as int) {
                Some(i) => r == Some(i as usize),
                None => match self.first_deposit(Pubkey { w0: 0, w1: 0, w2: 0, w3: 0 }, MAX_DEPOSITS as int) {
                    Some(i) => r == Some(i as usize),
                    None => r is None,
                },
            },
            r is Some ==> r->Some_0 < MAX_DEPOSITS,
    {
        match self.position_of_deposit(key) {
            Some(i) => Some(i),
            None => self.position_of_deposit(Pubkey::default_key()),
        }
    }

    /// A new, empty obligation.
    pub fn new(tag: u64, slot: u64, lending_market: Pubkey, owner: Pubkey) -> (r: Obligation)
        ensures
            r.wf(),
            r.tag == tag && r.lending_market == lending_market && r.owner == owner,
            r.last_update.slot == slot,
            forall|i: int| 0 <= i < MAX_DEPOSITS ==> (#[trigger] r.deposits@[i]).deposit_reserve.is_default_spec(),
            forall|i: int| 0 <= i < MAX_BORROWS ==> (#[trigger] r.borrows@[i]).borrow_reserve.is_default_spec(),
            r.deposited_value_sf == 0 && r.borrowed_assets_market_value_sf == 0
                && r.borrow_factor_adjusted_debt_value_sf == 0 && r.allowed_borrow_value_sf == 0
                && r.unhealthy_borrow_value_sf == 0 && r.has_debt == 0,
    {
        let mut deposits: Vec<ObligationCollateral> = Vec::new();
        let mut dt: Vec<u8> = Vec::new();
        let mut i: usize = 0;
        while i < MAX_DEPOSITS
            invariant
                i <= MAX_DEPOSITS,
                deposits.len() == i,
                dt.len() == i,
                forall|j: int| 0 <= j < i ==> (#[trigger] deposits@[j]).deposit_reserve.is_default_spec(),
            decreases MAX_DEPOSITS - i,
        {
            deposits.push(ObligationCollateral::empty());
            dt.push(EMPTY_TIER);
            i = i + 1;
        }
        let mut borrows: Vec<ObligationLiquidity> = Vec::new();
        let mut bt: Vec<u8> = Vec::new();
        let mut k: usize = 0;
        while k < MAX_BORROWS
            invariant
                k <= MAX_BORROWS,
                borrows.len() == k,
                bt.len() == k,
                forall|j: int| 0 <= j < k ==> (#[trigger] borrows@[j]).borrow_reserve.is_default_spec(),
            decreases MAX_BORROWS - k,
        {
            borrows.push(ObligationLiquidity::empty());
            bt.push(EMPTY_TIER);
            k = k + 1;
        }
        Obligation {
            tag,
            last_update: LastUpdate::new(slot),
            lending_market,
            owner,
            deposits,
            deposits_asset_tiers: dt,
            borrows,
            borrows_asset_tiers: bt,
            deposited_value_sf: 0,
            borrowed_assets_market_value_sf: 0,
            borrow_factor_adjusted_debt_value_sf: 0,
            allowed_borrow_value_sf: 0,
            unhealthy_borrow_value_sf: 0,
            lowest_reserve_deposit_ltv: 0,
            num_of_obsolete_reserves: 0,
            has_debt: 0,
        }
    }

    pub fn deposits_empty(&self) -> (r: bool)
        requires
            self.wf(),
        ensures
            r == (self.n_deposits(None) == 0),
    {
        let mut i: usize = 0;
        while i < MAX_DEPOSITS
            invariant
                self.wf(),
                i <= MAX_DEPOSITS,
                count_deposits(self.deposits@, self.deposits_asset_tiers@, i as int, None) == 0,
            decreases MAX_DEPOSITS - i,
        {
            if !self.deposits[i].deposit_reserve.is_default() {
                proof {
                    lemma_count_deposits_mono(self.deposits@, self.deposits_asset_tiers@, i as int + 1, MAX_DEPOSITS as int, None);
                }
                return false;
            }
            i = i + 1;
        }
        true
    }

    pub fn borrows_empty(&self) -> (r: bool)
        requires
            self.wf(),
        ensures
            r == (self.n_borrows(None) == 0),
    {
        let mut i: usize = 0;
        while i < MAX_BORROWS
            invariant
                self.wf(),
                i <= MAX_BORROWS,
                count_borrows(self.borrows@, self.borrows_asset_tiers@, i as int, None) == 0,
            decreases MAX_BORROWS - i,
        {
            if !self.borrows[i].borrow_reserve.is_default() {
                proof {
                    lemma_count_borrows_mono(self.borrows@, self.borrows_asset_tiers@, i as int + 1, MAX_BORROWS as int, None);
                }
                return false;
            }
            i = i + 1;
        }
        true
    }

    /// Sets `has_debt` to 1 exactly when some borrow slot holds debt.
    pub fn update_has_debt(&mut self)
        requires
            old(self).wf(),
        ensures
            final(self).has_debt == if any_debt(old(self).borrows@, MAX_BORROWS as int) { 1u8 } else { 0u8 },
            *final(self) == (Obligation { has_debt: final(self).has_debt, ..*old(self) }),
    {
        let mut any = false;
        let mut i: usize = 0;
        while i < MAX_BORROWS
            invariant
                self.wf(),
                i <= MAX_BORROWS,
                any == any_debt(self.borrows@, i as int),
            decreases MAX_BORROWS - i,
        {
            any = any || self.borrows[i].borrowed_amount_sf > 0;
            i = i + 1;
        }
        self.has_debt = if any { 1 } else { 0 };
    }

    pub open spec fn first_deposit(&self, key: Pubkey, n: int) -> Option<int>
        decreases n,
    {
        if n <= 0 {
            None
        } else {
            match self.first_deposit(key, n - 1) {
                Some(i) => Some(i),
                None => if self.deposits@[n - 1].deposit_reserve == key {
                    Some(n - 1)
                } else {
                    None
                },
            }
        }
    }

    pub open spec fn first_borrow(&self, key: Pubkey, n: int) -> Option<int>
        decreases n,
    {
        if n <= 0 {
            None
        } else {
            match self.first_borrow(key, n - 1) {
                Some(i) => Some(i),
                None => if self.borrows@[n - 1].borrow_reserve == key {
                    Some(n - 1)
                } else {
                    None
                },
            }
        }
    }

    fn position_of_deposit(&self, key: Pubkey) -> (r: Option<usize>)
        requires
            self.wf(),
        ensures
            match self.first_deposit(key, MAX_DEPOSITS as int) {
                Some(i) => r is Some && r->Some_0 as int == i,
                None => r is None,
            },
            r is Some ==> r->Some_0 < MAX_DEPOSITS,
    {
        let mut i: usize = 0;
        while i < MAX_DEPOSITS
            invariant
                self.wf(),
                i <= MAX_DEPOSITS,
                self.first_deposit(key, i as int) is None,
            decreases MAX_DEPOSITS - i,
        {
            if self.deposits[i].deposit_reserve == key {
                proof {
                    lemma_first_deposit_stays(self, key, i as int + 1, MAX_DEPOSITS as int);
                }
                return Some(i);
            }
            i = i + 1;
        }
        None
    }

    fn position_of_borrow(&self, key: Pubkey) -> (r: Option<usize>)
        requires
            self.wf(),
        ensures
            match self.first_borrow(key, MAX_BORROWS as int) {
                Some(i) => r is Some && r->Some_0 as int == i,
                None => r is None,
            },
            r is Some ==> r->Some_0 < MAX_BORROWS,
    {
        let mut i: usize = 0;
        while i < MAX_BORROWS
            invariant
                self.wf(),
                i <= MAX_BORROWS,
                self.first_borrow(key, i as int) is None,
            decreases MAX_BORROWS - i,
        {
            if self.borrows[i].borrow_reserve == key {
                proof {
                    lemma_first_borrow_stays(self, key, i as int + 1, MAX_BORROWS as int);
                }
                return Some(i);
            }
            i = i + 1;
        }
        None
    }

    /// The slot of the collateral from `key`; `InvalidObligationCollateral` if none.
    pub fn find_collateral_in_deposits(&self, key: Pubkey) -> (r: LendingResult<usize>)
        requires
            self.wf(),
        ensures
            r is Ok ==> r->Ok_0 < MAX_DEPOSITS,
            match self.first_deposit(key, MAX_DEPOSITS as int) {
                Some(i) => r is Ok && r->Ok_0 as int == i,
                None => r == Err::<usize, LendingError>(LendingError::InvalidObligationCollateral),
            },
    {
        match self.position_of_deposit(key) {
            Some(i) => Ok(i),
            None => Err(LendingError::InvalidObligationCollateral),
        }
    }

    /// The slot of the debt to `key`; `InvalidObligationLiquidity` if none.
    pub fn find_liquidity_in_borrows(&self, key: Pubkey) -> (r: LendingResult<usize>)
        requires
            self.wf(),
        ensures
            r is Ok ==> r->Ok_0 < MAX_BORROWS,
            match self.first_borrow(key, MAX_BORROWS as int) {
                Some(i) => r is Ok && r->Ok_0 as int == i,
                None => r == Err::<usize, LendingError>(LendingError::InvalidObligationLiquidity),
            },
    {
        match self.position_of_borrow(key) {
            Some(i) => Ok(i),
            None => Err(LendingError::InvalidObligationLiquidity),
        }
    }

    /// The slot for collateral from `key`: its existing slot, else the first empty slot,
    /// claimed for it; `ObligationReserveLimit` when all are taken. The slot's tier code
    /// is set to `tier`.
    pub fn find_or_add_collateral_to_deposits(&mut self, key: Pubkey, tier: AssetTier) -> (r:
        LendingResult<usize>)
        requires
            old(self).wf(),
        ensures
            r is Ok ==> r->Ok_0 < MAX_DEPOSITS,
            final(self).wf(),
            match old(self).first_deposit(key, MAX_DEPOSITS as int) {
                Some(i) => r is Ok && r->Ok_0 as int == i && final(self).deposits@
                    == old(self).deposits@,
                None => match old(self).first_deposit(Pubkey { w0: 0, w1: 0, w2: 0, w3: 0 }, MAX_DEPOSITS as int) {
                    Some(i) => r is Ok && r->Ok_0 as int == i && final(self).deposits@
                        == old(self).deposits@.update(i, ObligationCollateral { deposit_reserve: key, deposited_amount: 0, market_value_sf: 0 }),
                    None => r == Err::<usize, LendingError>(LendingError::ObligationReserveLimit),
                },
            },
            r is Ok ==> final(self).deposits_asset_tiers@ == old(self).deposits_asset_tiers@.update(
                r->Ok_0 as int,
                tier.to_u8_spec(),
            ),
            r is Err ==> *final(self) == *old(self),
            final(self).borrows == old(self).borrows,
            final(self).borrows_asset_tiers == old(self).borrows_asset_tiers,
            *final(self) == (Obligation {
                deposits: final(self).deposits,
                deposits_asset_tiers: final(self).deposits_asset_tiers,
                ..*old(self)
            }),
    {
        if let Some(i) = self.position_of_deposit(key) {
            self.deposits_asset_tiers.set(i, tier.to_u8());
            return Ok(i);
        }
        let empty = Pubkey::default_key();
        if let Some(i) = self.position_of_deposit(empty) {
            self.deposits.set(i, ObligationCollateral::new(key));
            self.deposits_asset_tiers.set(i, tier.to_u8());
            return Ok(i);
        }
        Err(LendingError::ObligationReserveLimit)
    }

    /// The slot for debt to `key`: its existing slot, else the first empty slot, claimed
    /// with the reserve's current index and no debt; `ObligationReserveLimit` when all are
    /// taken. The slot's tier code is set to `tier`.
    pub fn find_or_add_liquidity_to_borrows(&mut self, key: Pubkey, cumulative_rate: BigFraction, tier: AssetTier) -> (r:
        LendingResult<usize>)
        requires
            old(self).wf(),
        ensures
            r is Ok ==> r->Ok_0 < MAX_BORROWS,
            final(self).wf(),
            match old(self).first_borrow(key, MAX_BORROWS as int) {
                Some(i) => r is Ok && r->Ok_0 as int == i && final(self).borrows@
                    == old(self).borrows@,
                None => match old(self).first_borrow(Pubkey { w0: 0, w1: 0, w2: 0, w3: 0 }, MAX_BORROWS as int) {
                    Some(i) => r is Ok && r->Ok_0 as int == i && final(self).borrows@
                        == old(self).borrows@.update(i, ObligationLiquidity {
                            borrow_reserve: key,
                            cumulative_borrow_rate_bsf: cumulative_rate,
                            borrowed_amount_sf: 0,
                            market_value_sf: 0,
                            borrow_factor_adjusted_market_value_sf: 0,
                        }),
                    None => r == Err::<usize, LendingError>(LendingError::ObligationReserveLimit),
                },
            },
            r is Ok ==> final(self).borrows_asset_tiers@ == old(self).borrows_asset_tiers@.update(
                r->Ok_0 as int,
                tier.to_u8_spec(),
            ),
            r is Err ==> *final(self) == *old(self),
            *final(self) == (Obligation {
                borrows: final(self).borrows,
                borrows_asset_tiers: final(self).borrows_asset_tiers,
                ..*old(self)
            }),
    {
        if let Some(i) = self.position_of_borrow(key) {
            self.borrows_asset_tiers.set(i, tier.to_u8());
            return Ok(i);
        }
        let empty = Pubkey::default_key();
        if let Some(i) = self.position_of_borrow(empty) {
            self.borrows.set(i, ObligationLiquidity::new(key, cumulative_rate));
            self.borrows_asset_tiers.set(i, tier.to_u8());
            return Ok(i);
        }
        Err(LendingError::ObligationReserveLimit)
    }

    /// Takes `amount` c-tokens out of slot `index`; taking all of them frees the slot.
    pub fn withdraw(&mut self, amount: u64, index: usize) -> (r: LendingResult<()>)
        requires
            old(self).wf(),
            index < MAX_DEPOSITS,
        ensures
            final(self).wf(),
            amount == old(self).deposits@[index as int].deposited_amount ==> r is Ok
                && final(self).deposits@[index as int].deposit_reserve.is_default_spec()
                && final(self).deposits@[index as int].deposited_amount == 0
                && final(self).deposits@[index as int].market_value_sf == 0
                && final(self).deposits_asset_tiers@ == old(self).deposits_asset_tiers@.update(index as int, EMPTY_TIER),
            amount < old(self).deposits@[index as int].deposited_amount ==> r is Ok
                && final(self).deposits@[index as int] == (ObligationCollateral {
                    deposited_amount: (old(self).deposits@[index as int].deposited_amount - amount) as u64,
                    ..old(self).deposits@[index as int]
                })
                && final(self).deposits_asset_tiers == old(self).deposits_asset_tiers,
            amount > old(self).deposits@[index as int].deposited_amount ==> r == Err::<(), LendingError>(LendingError::MathOverflow)
                && *final(self) == *old(self),
            forall|j: int| 0 <= j < MAX_DEPOSITS && j != index ==> final(self).deposits@[j] == old(self).deposits@[j],
            r is Ok ==> final(self).deposits@ == old(self).deposits@.update(
                index as int,
                deposit_taken(old(self).deposits@[index as int], amount),
            ),
            old(self).tiers_valid() ==> final(self).tiers_valid(),
            *final(self) == (Obligation {
                deposits: final(self).deposits,
                deposits_asset_tiers: final(self).deposits_asset_tiers,
                ..*old(self)
            }),
    {
        let c = self.deposits[index];
        let ghost o1 = *old(self);
        if amount == c.deposited_amount {
            self.deposits.set(index, ObligationCollateral::empty());
            self.deposits_asset_tiers.set(index, EMPTY_TIER);
            proof {
                if o1.tiers_valid() {
                    lemma_tiers_valid_after_removal(o1, *self);
                }
            }
            Ok(())
        } else if amount < c.deposited_amount {
            self.deposits.set(index, ObligationCollateral { deposited_amount: c.deposited_amount - amount, ..c });
            proof {
                if o1.tiers_valid() {
                    lemma_tiers_valid_after_removal(o1, *self);
                }
            }
            Ok(())
        } else {
            Err(LendingError::MathOverflow)
        }
    }

    /// Adds `amount` c-tokens to slot `index`.
    pub fn deposit(&mut self, amount: u64, index: usize) -> (r: LendingResult<()>)
        requires
            old(self).wf(),
            index < MAX_DEPOSITS,
        ensures
            final(self).wf(),
            old(self).deposits@[index as int].deposited_amount + amount <= u64::MAX ==> r is Ok
                && final(self).deposits@ == old(self).deposits@.update(index as int, ObligationCollateral {
                    deposited_amount: (old(self).deposits@[index as int].deposited_amount + amount) as u64,
                    ..old(self).deposits@[index as int]
                }),
            old(self).deposits@[index as int].deposited_amount + amount > u64::MAX ==> r == Err::<(), LendingError>(LendingError::MathOverflow)
                && *final(self) == *old(self),
            *final(self) == (Obligation { deposits: final(self).deposits, ..*old(self) }),
    {
        let c = self.deposits[index];
        match c.deposited_amount.checked_add(amount) {
            Some(v) => {
                self.deposits.set(index, ObligationCollateral { deposited_amount: v, ..c });
                Ok(())
            },
            None => Err(LendingError::MathOverflow),
        }
    }

    /// Adds `amount` of debt to slot `index`.
    pub fn borrow(&mut self, amount: Fraction, index: usize) -> (r: LendingResult<()>)
        requires
            old(self).wf(),
            index < MAX_BORROWS,
        ensures
            final(self).wf(),
            old(self).borrows@[index as int].borrowed_amount_sf + amount.bits <= u128::MAX ==> r is Ok
                && final(self).borrows@ == old(self).borrows@.update(index as int, ObligationLiquidity {
                    borrowed_amount_sf: (old(self).borrows@[index as int].borrowed_amount_sf + amount.bits) as u128,
                    ..old(self).borrows@[index as int]
                }),
            old(self).borrows@[index as int].borrowed_amount_sf + amount.bits > u128::MAX ==> r == Err::<(), LendingError>(LendingError::MathOverflow)
                && *final(self) == *old(self),
            *final(self) == (Obligation { borrows: final(self).borrows, ..*old(self) }),
    {
        let l = self.borrows[index];
        match l.borrowed_amount_sf.checked_add(amount.bits) {
            Some(v) => {
                self.borrows.set(index, ObligationLiquidity { borrowed_amount_sf: v, ..l });
                Ok(())
            },
            None => Err(LendingError::MathOverflow),
        }
    }

    /// Settles `settle` of the debt in slot `index`; settling all of it frees the slot.
    pub fn repay(&mut self, settle: Fraction, index: usize) -> (r: LendingResult<()>)
        requires
            old(self).wf(),
            index < MAX_BORROWS,
        ensures
            final(self).wf(),
            settle.bits == old(self).borrows@[index as int].borrowed_amount_sf ==> r is Ok
                && final(self).borrows@[index as int].borrow_reserve.is_default_spec()
                && final(self).borrows@[index as int].borrowed_amount_sf == 0
                && final(self).borrows_asset_tiers@ == old(self).borrows_asset_tiers@.update(index as int, EMPTY_TIER),
            settle.bits < old(self).borrows@[index as int].borrowed_amount_sf ==> r is Ok
                && final(self).borrows@[index as int] == (ObligationLiquidity {
                    borrowed_amount_sf: (old(self).borrows@[index as int].borrowed_amount_sf - settle.bits) as u128,
                    ..old(self).borrows@[index as int]
                })
                && final(self).borrows_asset_tiers == old(self).borrows_asset_tiers,
            settle.bits > old(self).borrows@[index as int].borrowed_amount_sf ==> r == Err::<(), LendingError>(LendingError::MathOverflow)
                && *final(self) == *old(self),
            forall|j: int| 0 <= j < MAX_BORROWS && j != index ==> final(self).borrows@[j] == old(self).borrows@[j],
            r is Ok ==> final(self).borrows@ == old(self).borrows@.update(
                index as int,
                debt_settled(old(self).borrows@[index as int], settle.bits as int),
            ),
            old(self).tiers_valid() ==> final(self).tiers_valid(),
            *final(self) == (Obligation {
                borrows: final(self).borrows,
                borrows_asset_tiers: final(self).borrows_asset_tiers,
                ..*old(self)
            }),
    {
        let l = self.borrows[index];
        let ghost o1 = *old(self);
        if settle.bits == l.borrowed_amount_sf {
            self.borrows.set(index, ObligationLiquidity::empty());
            self.borrows_asset_tiers.set(index, EMPTY_TIER);
            proof {
                if o1.tiers_valid() {
                    lemma_tiers_valid_after_removal(o1, *self);
                }
            }
            Ok(())
        } else if settle.bits < l.borrowed_amount_sf {
            self.borrows.set(index, ObligationLiquidity { borrowed_amount_sf: l.borrowed_amount_sf - settle.bits, ..l });
            proof {
                if o1.tiers_valid() {
                    lemma_tiers_valid_after_removal(o1, *self);
                }
            }
            Ok(())
        } else {
            Err(LendingError::MathOverflow)
        }
    }

    /// Borrowing power left: allowed borrow value less the adjusted debt, at least zero.
    pub fn remaining_borrow_value(&self) -> (r: Fraction)
        ensures
            r.v() == if self.allowed_borrow_value_sf >= self.borrow_factor_adjusted_debt_value_sf {
                self.allowed_borrow_value_sf - self.borrow_factor_adjusted_debt_value_sf
            } else {
                0
            },
    {
        Fraction::from_bits(self.allowed_borrow_value_sf).saturating_sub(
            Fraction::from_bits(self.borrow_factor_adjusted_debt_value_sf),
        )
    }

    /// The largest collateral value that can leave while the rest still covers the debt at
    /// `ltv_pct`: `(allowed - debt) * 100 / ltv_pct`, zero when `ltv_pct` is zero or the
    /// debt already reaches the allowed value.
    pub fn max_withdraw_value(&self, ltv_pct: u8) -> (r: LendingResult<Fraction>)
        ensures
            (ltv_pct == 0 || self.borrow_factor_adjusted_debt_value_sf >= self.allowed_borrow_value_sf)
                ==> r == Ok::<Fraction, LendingError>(Fraction { bits: 0 }),
            !(ltv_pct == 0 || self.borrow_factor_adjusted_debt_value_sf >= self.allowed_borrow_value_sf)
                ==> fres(r) == div_int_s(
                    mul_int_s(Some(self.allowed_borrow_value_sf - self.borrow_factor_adjusted_debt_value_sf), 100),
                    ltv_pct as int,
                ) && math_only(r),
    {
        if ltv_pct == 0 || self.borrow_factor_adjusted_debt_value_sf >= self.allowed_borrow_value_sf {
            return Ok(Fraction::zero());
        }
        let d = Fraction::from_bits(self.allowed_borrow_value_sf - self.borrow_factor_adjusted_debt_value_sf);
        let m = d.checked_mul_int(100)?;
        m.checked_div_int(ltv_pct as u128)
    }

    /// Adjusted debt over deposited value.
    pub fn loan_to_value(&self) -> (r: LendingResult<Fraction>)
        ensures
            fres(r) == div_s(Some(self.borrow_factor_adjusted_debt_value_sf as int), Some(self.deposited_value_sf as int)),
            math_only(r),
    {
        Fraction::from_bits(self.borrow_factor_adjusted_debt_value_sf).checked_div(Fraction::from_bits(self.deposited_value_sf))
    }

    /// Unhealthy borrow value over deposited value.
    pub fn unhealthy_loan_to_value(&self) -> (r: LendingResult<Fraction>)
        ensures
            fres(r) == div_s(Some(self.unhealthy_borrow_value_sf as int), Some(self.deposited_value_sf as int)),
            math_only(r),
    {
        Fraction::from_bits(self.unhealthy_borrow_value_sf).checked_div(Fraction::from_bits(self.deposited_value_sf))
    }
}

/// Checks the asset-tier rule.
pub fn validate_obligation_asset_tiers(o: &Obligation) -> (r: LendingResult<()>)
    requires
        o.wf(),
    ensures
        r is Ok <==> o.tiers_valid(),
        r is Err ==> r == Err::<(), LendingError>(LendingError::IsolatedAssetTierViolation),
{
    let mut nd: u64 = 0;
    let mut ndc: u64 = 0;
    let mut ndd: u64 = 0;
    let mut i: usize = 0;
    while i < MAX_DEPOSITS
        invariant
            o.wf(),
            i <= MAX_DEPOSITS,
            nd == count_deposits(o.deposits@, o.deposits_asset_tiers@, i as int, None),
            ndc == count_deposits(o.deposits@, o.deposits_asset_tiers@, i as int, Some(1u8)),
            ndd == count_deposits(o.deposits@, o.deposits_asset_tiers@, i as int, Some(2u8)),
            nd <= i && ndc <= i && ndd <= i,
        decreases MAX_DEPOSITS - i,
    {
        if !o.deposits[i].deposit_reserve.is_default() {
            nd = nd + 1;
            if o.deposits_asset_tiers[i] == 1 {
                ndc = ndc + 1;
            }
            if o.deposits_asset_tiers[i] == 2 {
                ndd = ndd + 1;
            }
        }
        i = i + 1;
    }
    let mut nb: u64 = 0;
    let mut nbc: u64 = 0;
    let mut nbd: u64 = 0;
    let mut k: usize = 0;
    while k < MAX_BORROWS
        invariant
            o.wf(),
            k <= MAX_BORROWS,
            nb == count_borrows(o.borrows@, o.borrows_asset_tiers@, k as int, None),
            nbc == count_borrows(o.borrows@, o.borrows_asset_tiers@, k as int, Some(1u8)),
            nbd == count_borrows(o.borrows@, o.borrows_asset_tiers@, k as int, Some(2u8)),
            nb <= k && nbc <= k && nbd <= k,
        decreases MAX_BORROWS - k,
    {
        if !o.borrows[k].borrow_reserve.is_default() {
            nb = nb + 1;
            if o.borrows_asset_tiers[k] == 1 {
                nbc = nbc + 1;
            }
            if o.borrows_asset_tiers[k] == 2 {
                nbd = nbd + 1;
            }
        }
        k = k + 1;
    }
    if ndc > 1 || nbd > 1 || (ndc > 0 && nbd > 0) || (nd > 1 && ndc > 0) || (nb > 1 && nbd > 0)
        || ndd > 0 || nbc > 0 {
        return Err(LendingError::IsolatedAssetTierViolation);
    }
    Ok(())
}

/// Checks the arguments of a new obligation: its id must be 0; tag 0 takes two empty
/// seeds, tags 1 and 2 take two token mint ids; other tags are refused.
pub fn check_init_obligation_args(tag: u8, id: u8, seed1: Pubkey, seed2: Pubkey) -> (r: LendingResult<()>)
    ensures
        id != 0 ==> r == Err::<(), LendingError>(LendingError::InvalidObligationId),
        id == 0 ==> (r is Ok <==> ((tag == 0 && seed1.is_default_spec() && seed2.is_default_spec())
            || ((tag == 1 || tag == 2) && !seed1.is_default_spec() && !seed2.is_default_spec()))),
        r is Err ==> r == Err::<(), LendingError>(LendingError::InvalidObligationId) || r == Err::<(), LendingError>(
            LendingError::InvalidObligationSeedsValue,
        ),
{
    if id != 0 {
        return Err(LendingError::InvalidObligationId);
    }
    if tag == 0 {
        if seed1.is_default() && seed2.is_default() {
            return Ok(());
        }
        return Err(LendingError::InvalidObligationSeedsValue);
    }
    if tag == 1 || tag == 2 {
        if !seed1.is_default() && !seed2.is_default() {
            return Ok(());
        }
    }
    Err(LendingError::InvalidObligationSeedsValue)
}

/// Emptying slots never raises a count of used slots.
proof fn lemma_count_deposits_shrink(
    a: Seq<ObligationCollateral>,
    ta: Seq<u8>,
    b: Seq<ObligationCollateral>,
    tb: Seq<u8>,
    n: int,
    t: Option<u8>,
)
    requires
        forall|j: int|
            0 <= j < n ==> (#[trigger] b[j]).deposit_reserve.is_default_spec() || (!a[j].deposit_reserve.is_default_spec()
                && ta[j] == tb[j]),
    ensures
        count_deposits(b, tb, n, t) <= count_deposits(a, ta, n, t),
    decreases n,
{
    if n > 0 {
        lemma_count_deposits_shrink(a, ta, b, tb, n - 1, t);
    }
}

proof fn lemma_count_borrows_shrink(
    a: Seq<ObligationLiquidity>,
    ta: Seq<u8>,
    b: Seq<ObligationLiquidity>,
    tb: Seq<u8>,
    n: int,
    t: Option<u8>,
)
    requires
        forall|j: int|
            0 <= j < n ==> (#[trigger] b[j]).borrow_reserve.is_default_spec() || (!a[j].borrow_reserve.is_default_spec()
                && ta[j] == tb[j]),
    ensures
        count_borrows(b, tb, n, t) <= count_borrows(a, ta, n, t),
    decreases n,
{
    if n > 0 {
        lemma_count_borrows_shrink(a, ta, b, tb, n - 1, t);
    }
}

/// The asset-tier rule survives emptying slots: an obligation whose used slots are a
/// subset of a valid one's, with the same tiers, is valid.
pub proof fn lemma_tiers_valid_after_removal(o1: Obligation, o2: Obligation)
    requires
        o1.wf(),
        o2.wf(),
        o1.tiers_valid(),
        forall|j: int|
            0 <= j < MAX_DEPOSITS ==> (#[trigger] o2.deposits@[j]).deposit_reserve.is_default_spec() || (
            !o1.deposits@[j].deposit_reserve.is_default_spec() && o1.deposits_asset_tiers@[j]
                == o2.deposits_asset_tiers@[j]),
        forall|j: int|
            0 <= j < MAX_BORROWS ==> (#[trigger] o2.borrows@[j]).borrow_reserve.is_default_spec() || (
            !o1.borrows@[j].borrow_reserve.is_default_spec() && o1.borrows_asset_tiers@[j]
                == o2.borrows_asset_tiers@[j]),
    ensures
        o2.tiers_valid(),
{
    let (da, ta, db, tb) = (o1.deposits@, o1.deposits_asset_tiers@, o2.deposits@, o2.deposits_asset_tiers@);
    lemma_count_deposits_shrink(da, ta, db, tb, MAX_DEPOSITS as int, None);
    lemma_count_deposits_shrink(da, ta, db, tb, MAX_DEPOSITS as int, Some(1u8));
    lemma_count_deposits_shrink(da, ta, db, tb, MAX_DEPOSITS as int, Some(2u8));
    let (ba, bta, bb, btb) = (o1.borrows@, o1.borrows_asset_tiers@, o2.borrows@, o2.borrows_asset_tiers@);
    lemma_count_borrows_shrink(ba, bta, bb, btb, MAX_BORROWS as int, None);
    lemma_count_borrows_shrink(ba, bta, bb, btb, MAX_BORROWS as int, Some(1u8));
    lemma_count_borrows_shrink(ba, bta, bb, btb, MAX_BORROWS as int, Some(2u8));
}

pub proof fn lemma_count_deposits_mono(deps: Seq<ObligationCollateral>, tiers: Seq<u8>, a: int, b: int, t: Option<u8>)
    requires
        0 <= a <= b,
    ensures
        count_deposits(deps, tiers, a, t) <= count_deposits(deps, tiers, b, t),
    decreases b - a,
{
    if a < b {
        lemma_count_deposits_mono(deps, tiers, a, b - 1, t);
    }
}

pub proof fn lemma_count_borrows_mono(bors: Seq<ObligationLiquidity>, tiers: Seq<u8>, a: int, b: int, t: Option<u8>)
    requires
        0 <= a <= b,
    ensures
        count_borrows(bors, tiers, a, t) <= count_borrows(bors, tiers, b, t),
    decreases b - a,
{
    if a < b {
        lemma_count_borrows_mono(bors, tiers, a, b - 1, t);
    }
}

/// What `first_deposit` finds: the lowest slot holding `key`.
pub proof fn lemma_first_deposit_spec(o: Obligation, key: Pubkey, n: int)
    requires
        0 <= n <= o.deposits@.len(),
    ensures
        match o.first_deposit(key, n) {
            Some(i) => 0 <= i < n && o.deposits@[i].deposit_reserve == key && forall|j: int|
                0 <= j < i ==> (#[trigger] o.deposits@[j]).deposit_reserve != key,
            None => forall|j: int| 0 <= j < n ==> (#[trigger] o.deposits@[j]).deposit_reserve != key,
        },
    decreases n,
{
    if n > 0 {
        lemma_first_deposit_spec(o, key, n - 1);
    }
}

/// The lowest slot holding `key` is what `first_deposit` finds.
pub proof fn lemma_first_deposit_at(o: Obligation, key: Pubkey, n: int, i: int)
    requires
        0 <= i < n <= o.deposits@.len(),
        o.deposits@[i].deposit_reserve == key,
        forall|j: int| 0 <= j < i ==> (#[trigger] o.deposits@[j]).deposit_reserve != key,
    ensures
        o.first_deposit(key, n) == Some(i),
    decreases n,
{
    if n > i + 1 {
        lemma_first_deposit_at(o, key, n - 1, i);
    } else {
        lemma_first_deposit_spec(o, key, i);
    }
}

/// What `first_borrow` finds: the lowest slot holding `key`.
pub proof fn lemma_first_borrow_spec(o: Obligation, key: Pubkey, n: int)
    requires
        0 <= n <= o.borrows@.len(),
    ensures
        match o.first_borrow(key, n) {
            Some(i) => 0 <= i < n && o.borrows@[i].borrow_reserve == key && forall|j: int|
                0 <= j < i ==> (#[trigger] o.borrows@[j]).borrow_reserve != key,
            None => forall|j: int| 0 <= j < n ==> (#[trigger] o.borrows@[j]).borrow_reserve != key,
        },
    decreases n,
{
    if n > 0 {
        lemma_first_borrow_spec(o, key, n - 1);
    }
}

/// The lowest slot holding `key` is what `first_borrow` finds.
pub proof fn lemma_first_borrow_at(o: Obligation, key: Pubkey, n: int, i: int)
    requires
        0 <= i < n <= o.borrows@.len(),
        o.borrows@[i].borrow_reserve == key,
        forall|j: int| 0 <= j < i ==> (#[trigger] o.borrows@[j]).borrow_reserve != key,
    ensures
        o.first_borrow(key, n) == Some(i),
    decreases n,
{
    if n > i + 1 {
        lemma_first_borrow_at(o, key, n - 1, i);
    } else {
        lemma_first_borrow_spec(o, key, i);
    }
}

proof fn lemma_first_deposit_stays(o: &Obligation, key: Pubkey, a: int, b: int)
    requires
        0 < a <= b,
        o.first_deposit(key, a) == Some(a - 1),
    ensures
        o.first_deposit(key, b) == Some(a - 1),
    decreases b - a,
{
    if a < b {
        lemma_first_deposit_stays(o, key, a, b - 1);
    }
}

proof fn lemma_first_borrow_stays(o: &Obligation, key: Pubkey, a: int, b: int)
    requires
        0 < a <= b,
        o.first_borrow(key, a) == Some(a - 1),
    ensures
        o.first_borrow(key, b) == Some(a - 1),
    decreases b - a,
{
    if a < b {
        lemma_first_borrow_stays(o, key, a, b - 1);
    }
}

} // verus!
