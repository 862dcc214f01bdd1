use vstd::prelude::*;
use crate::errors::{LendingError, LendingResult};

verus! {

/// An opaque 32-byte account id, held as four little-endian words.
#[derive(Clone, Copy, Debug, PartialEq, Eq, Structural)]
pub struct Pubkey {
    pub w0: u64,
    pub w1: u64,
    pub w2: u64,
    pub w3: u64,
}

impl Pubkey {
    pub open spec fn is_default_spec(self) -> bool {
        self.w0 == 0 && self.w1 == 0 && self.w2 == 0 && self.w3 == 0
    }

    /// The all-zero id, which marks an empty slot.
    pub fn default_key() -> (r: Pubkey)
        ensures
            r.is_default_spec(),
            r == (Pubkey { w0: 0, w1: 0, w2: 0, w3: 0 }),
    {
        Pubkey { w0: 0, w1: 0, w2: 0, w3: 0 }
    }

    pub fn new_from_words(w0: u64, w1: u64, w2: u64, w3: u64) -> (r: Pubkey)
        ensures
            r == (Pubkey { w0, w1, w2, w3 }),
    {
        Pubkey { w0, w1, w2, w3 }
    }

    pub fn is_default(&self) -> (r: bool)
        ensures
            r == self.is_default_spec(),
    {
        self.w0 == 0 && self.w1 == 0 && self.w2 == 0 && self.w3 == 0
    }
}

/// Risk class of an asset.
#[derive(Clone, Copy, Debug, PartialEq, Eq, Structural)]
pub enum AssetTier {
    Regular,
    IsolatedCollateral,
    IsolatedDebt,
}

impl AssetTier {
    pub open spec fn from_u8_spec(v: u8) -> Option<AssetTier> {
        if v == 0 {
            Some(AssetTier::Regular)
        } else if v == 1 {
            Some(AssetTier::IsolatedCollateral)
        } else if v == 2 {
            Some(AssetTier::IsolatedDebt)
        } else {
            None
        }
    }

    pub fn try_from_u8(v: u8) -> (r: Option<AssetTier>)
        ensures
            r == Self::from_u8_spec(v),
    {
        if v == 0 {
            Some(AssetTier::Regular)
        } else if v == 1 {
            Some(AssetTier::IsolatedCollateral)
        } else if v == 2 {
            Some(AssetTier::IsolatedDebt)
        } else {
            None
        }
    }

    pub open spec fn to_u8_spec(self) -> u8 {
        match self {
            AssetTier::Regular => 0,
            AssetTier::IsolatedCollateral => 1,
            AssetTier::IsolatedDebt => 2,
        }
    }

    pub fn to_u8(self) -> (r: u8)
        ensures
            r == self.to_u8_spec(),
    {
        match self {
            AssetTier::Regular => 0,
            AssetTier::IsolatedCollateral => 1,
            AssetTier::IsolatedDebt => 2,
        }
    }
}

/// Lifecycle state of a reserve.
#[derive(Clone, Copy, Debug, PartialEq, Eq, Structural)]
pub enum ReserveStatus {
    Active,
    Obsolete,
    Hidden,
}

impl ReserveStatus {
    pub open spec fn from_u8_spec(v: u8) -> Option<ReserveStatus> {
        if v == 0 {
            Some(ReserveStatus::Active)
        } else if v == 1 {
            Some(ReserveStatus::Obsolete)
        } else if v == 2 {
            Some(ReserveStatus::Hidden)
        } else {
            None
        }
    }

    pub fn try_from_u8(v: u8) -> (r: Option<ReserveStatus>)
        ensures
            r == Self::from_u8_spec(v),
    {
        if v == 0 {
            Some(ReserveStatus::Active)
        } else if v == 1 {
            Some(ReserveStatus::Obsolete)
        } else if v == 2 {
            Some(ReserveStatus::Hidden)
        } else {
            None
        }
    }
}

/// Which price checks passed, one flag per check.
#[derive(Clone, Copy, Debug, PartialEq, Eq, Structural)]
pub struct PriceStatusFlags {
    pub price_loaded: bool,
    pub price_age_checked: bool,
    pub twap_checked: bool,
    pub twap_age_checked: bool,
}

impl PriceStatusFlags {
    pub fn none() -> (r: PriceStatusFlags)
        ensures
            !r.price_loaded && !r.price_age_checked && !r.twap_checked && !r.twap_age_checked,
    {
        PriceStatusFlags {
            price_loaded: false,
            price_age_checked: false,
            twap_checked: false,
            twap_age_checked: false,
        }
    }

    pub fn all_checks() -> (r: PriceStatusFlags)
        ensures
            r.price_loaded && r.price_age_checked && r.twap_checked && r.twap_age_checked,
    {
        PriceStatusFlags {
            price_loaded: true,
            price_age_checked: true,
            twap_checked: true,
            twap_age_checked: true,
        }
    }

    /// What a liquidation needs: a loaded price of acceptable age.
    pub fn liquidation_checks() -> (r: PriceStatusFlags)
        ensures
            r.price_loaded && r.price_age_checked && !r.twap_checked && !r.twap_age_checked,
    {
        PriceStatusFlags {
            price_loaded: true,
            price_age_checked: true,
            twap_checked: false,
            twap_age_checked: false,
        }
    }

    pub open spec fn contains_spec(self, o: PriceStatusFlags) -> bool {
        (o.price_loaded ==> self.price_loaded) && (o.price_age_checked ==> self.price_age_checked)
            && (o.twap_checked ==> self.twap_checked) && (o.twap_age_checked
            ==> self.twap_age_checked)
    }

    pub fn contains(&self, o: &PriceStatusFlags) -> (r: bool)
        ensures
            r == self.contains_spec(*o),
    {
        (!o.price_loaded || self.price_loaded) && (!o.price_age_checked || self.price_age_checked)
            && (!o.twap_checked || self.twap_checked) && (!o.twap_age_checked
            || self.twap_age_checked)
    }

    pub open spec fn intersection_spec(self, o: PriceStatusFlags) -> PriceStatusFlags {
        PriceStatusFlags {
            price_loaded: self.price_loaded && o.price_loaded,
            price_age_checked: self.price_age_checked && o.price_age_checked,
            twap_checked: self.twap_checked && o.twap_checked,
            twap_age_checked: self.twap_age_checked && o.twap_age_checked,
        }
    }

    pub fn intersection(&self, o: &PriceStatusFlags) -> (r: PriceStatusFlags)
        ensures
            r == self.intersection_spec(*o),
    {
        PriceStatusFlags {
            price_loaded: self.price_loaded && o.price_loaded,
            price_age_checked: self.price_age_checked && o.price_age_checked,
            twap_checked: self.twap_checked && o.twap_checked,
            twap_age_checked: self.twap_age_checked && o.twap_age_checked,
        }
    }

    /// The flags as a bit set: loaded 1, age 2, twap 4, twap age 8.
    pub fn bits(&self) -> (r: u8)
        ensures
            r == (if self.price_loaded { 1u8 } else { 0u8 }) + (if self.price_age_checked {
                2u8
            } else {
                0u8
            }) + (if self.twap_checked { 4u8 } else { 0u8 }) + (if self.twap_age_checked {
                8u8
            } else {
                0u8
            }),
    {
        let a: u8 = if self.price_loaded { 1 } else { 0 };
        let b: u8 = if self.price_age_checked { 2 } else { 0 };
        let c: u8 = if self.twap_checked { 4 } else { 0 };
        let d: u8 = if self.twap_age_checked { 8 } else { 0 };
        a + b + c + d
    }
}

/// When a record was last brought up to date, and with which price checks.
#[derive(Clone, Copy, Debug, PartialEq, Eq, Structural)]
pub struct LastUpdate {
    pub slot: u64,
    pub stale: bool,
    pub price_status: PriceStatusFlags,
}

impl LastUpdate {
    pub fn new(slot: u64) -> (r: LastUpdate)
        ensures
            r.slot == slot,
            r.stale,
            r.price_status == (PriceStatusFlags {
                price_loaded: false,
                price_age_checked: false,
                twap_checked: false,
                twap_age_checked: false,
            }),
    {
        LastUpdate { slot, stale: true, price_status: PriceStatusFlags::none() }
    }

    pub fn slots_elapsed(&self, slot: u64) -> (r: LendingResult<u64>)
        ensures
            slot >= self.slot ==> r == Ok::<u64, LendingError>((slot - self.slot) as u64),
            slot < self.slot ==> r == Err::<u64, LendingError>(LendingError::MathOverflow),
    {
        if slot >= self.slot {
            Ok(slot - self.slot)
        } else {
            Err(LendingError::MathOverflow)
        }
    }

    pub fn update_slot(&mut self, slot: u64, price_status: Option<PriceStatusFlags>)
        ensures
            final(self).slot == slot,
            !final(self).stale,
            final(self).price_status == match price_status {
                Some(p) => p,
                None => old(self).price_status,
            },
    {
        self.slot = slot;
        self.stale = false;
        if let Some(p) = price_status {
            self.price_status = p;
        }
    }

    pub fn mark_stale(&mut self)
        ensures
            *final(self) == (LastUpdate { stale: true, ..*old(self) }),
    {
        self.stale = true;
    }

    /// A record is fresh when it was refreshed in this very slot, not marked stale since,
    /// and carries at least the required price checks.
    pub open spec fn is_stale_spec(self, slot: u64, required: PriceStatusFlags) -> Option<bool> {
        if self.stale {
            Some(true)
        } else if slot < self.slot {
            None
        } else {
            Some(slot != self.slot || !self.price_status.contains_spec(required))
        }
    }

    pub fn is_stale(&self, slot: u64, required: &PriceStatusFlags) -> (r: LendingResult<bool>)
        ensures
            match self.is_stale_spec(slot, *required) {
                Some(b) => r == Ok::<bool, LendingError>(b),
                None => r == Err::<bool, LendingError>(LendingError::MathOverflow),
            },
    {
        if self.stale {
            return Ok(true);
        }
        let elapsed = self.slots_elapsed(slot)?;
        Ok(elapsed != 0 || !self.price_status.contains(required))
    }
}

} // verus!

verus! {

/// A validated oracle price with the checks it passed.
#[derive(Clone, Copy, Debug, PartialEq, Eq, Structural)]
pub struct GetPriceResult {
    pub price: crate::fraction::Fraction,
    pub timestamp: u64,
    pub status: PriceStatusFlags,
}

} // verus!
