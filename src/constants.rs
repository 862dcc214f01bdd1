use vstd::prelude::*;

verus! {

pub const SLOTS_PER_SECOND: u64 = 2;
pub const SLOTS_PER_MINUTE: u64 = 120;
pub const SLOTS_PER_HOUR: u64 = 7200;
pub const SLOTS_PER_DAY: u64 = 172800;
pub const SLOTS_PER_YEAR: u64 = 63072000;

pub const PROGRAM_VERSION: u8 = 1;
pub const FULL_BPS: u16 = 10000;
pub const UNINITIALIZED_VERSION: u8 = 0;
pub const INITIAL_COLLATERAL_RATIO: u64 = 1;
pub const LIQUIDATION_CLOSE_FACTOR: u8 = 20;
pub const LIQUIDATION_CLOSE_VALUE: u64 = 2;
pub const MAX_LIQUIDATABLE_VALUE_AT_ONCE: u64 = 500000;
pub const MIN_AUTODELEVERAGE_BONUS_BPS: u64 = 50;
pub const MAX_OBLIGATION_RESERVES: u64 = 20;
pub const CLOSE_TO_INSOLVENCY_RISKY_LTV: u8 = 95;
pub const GLOBAL_UNHEALTHY_BORROW_VALUE: u64 = 50000000;
pub const GLOBAL_ALLOWED_BORROW_VALUE: u64 = 45000000;
pub const USD_DECIMALS: u32 = 6;
pub const DUST_LAMPORT_THRESHOLD: u64 = 1;

/// Raw bits of the smallest accepted value left in one obligation asset, `0.000001`
/// (`floor(2^60 / 10^6)`).
pub const MIN_NET_VALUE_IN_OBLIGATION_SF: u128 = 1152921504606;

pub const LENDING_MARKET_SIZE: usize = 4656;
pub const RESERVE_SIZE: usize = 8616;
pub const OBLIGATION_SIZE: usize = 1936;
pub const RESERVE_CONFIG_SIZE: usize = 744;
pub const VALUE_BYTE_ARRAY_LEN_RESERVE: usize = 744;
pub const VALUE_BYTE_MAX_ARRAY_LEN_MARKET_UPDATE: usize = 72;
pub const VALUE_BYTE_ARRAY_LEN_SHORT_UPDATE: usize = 32;

/// `10^n`.
pub open spec fn pow10(n: nat) -> nat
    decreases n,
{
    if n == 0 {
        1
    } else {
        10 * pow10((n - 1) as nat)
    }
}

/// `10^x` for an exponent in `0..=19`, the powers of ten that fit in `u64`.
pub fn ten_pow(x: usize) -> (r: u64)
    requires
        x <= 19,
    ensures
        r == pow10(x as nat),
{
    let mut r: u64 = 1;
    let mut i: usize = 0;
    while i < x
        invariant
            i <= x <= 19,
            r == pow10(i as nat),
        decreases x - i,
    {
        proof {
            lemma_pow10_mono(i as nat, 18);
            reveal_with_fuel(pow10, 19);
        }
        r = r * 10;
        i = i + 1;
    }
    r
}

proof fn lemma_pow10_mono(a: nat, b: nat)
    requires
        a <= b,
    ensures
        pow10(a) <= pow10(b),
    decreases b,
{
    if a < b {
        lemma_pow10_mono(a, (b - 1) as nat);
    }
}

} // verus!
