use cluster_lend::errors::LendingError;
use cluster_lend::fraction::{Fraction, FRACTION_ONE_SCALED};
use cluster_lend::obligation::ObligationLiquidity;
use cluster_lend::types::Pubkey;
use cluster_lend::wide::{mul_wide, BigFraction};

const ONE: u128 = FRACTION_ONE_SCALED;

#[test]
fn wide_products() {
    assert_eq!(mul_wide(u128::MAX, u128::MAX), (u128::MAX - 1, 1));
    assert_eq!(mul_wide(1u128 << 100, 1u128 << 100), (1u128 << 72, 0));
    assert_eq!(mul_wide(12345, 678), (0, 12345 * 678));
}

#[test]
fn index_grows_past_128_bits() {
    // an index of 2^100 (in units) times 2^20 is 2^120, raw 2^180: beyond a u128
    let idx = BigFraction { hi: 0, lo: 0 };
    assert_eq!(idx.checked_mul_fraction(Fraction::one()), Ok(idx));
    let big = BigFraction { hi: 1u128 << 32, lo: 0 }; // raw 2^160, value 2^100
    let grown = big.checked_mul_fraction(Fraction::from_u64(1 << 20)).unwrap();
    assert_eq!(grown, BigFraction { hi: 1u128 << 52, lo: 0 });
    // 1.5 times
    let r = BigFraction { hi: 3, lo: 0 }.checked_mul_fraction(Fraction::from_bits(3 * ONE / 2)).unwrap();
    assert_eq!(r, BigFraction { hi: 4, lo: 1u128 << 127 });
    // past 256 bits
    assert_eq!(
        BigFraction { hi: u128::MAX, lo: 0 }.checked_mul_fraction(Fraction::from_u64(2)),
        Err(LendingError::MathOverflow)
    );
}

#[test]
fn ratios_of_big_indexes() {
    let old = BigFraction { hi: 1u128 << 40, lo: 0 };
    let new = BigFraction { hi: 3u128 << 39, lo: 0 };
    assert_eq!(BigFraction::checked_ratio(new, old), Ok(Fraction::from_bits(3 * ONE / 2)));
    assert_eq!(BigFraction::checked_ratio(old, old), Ok(Fraction::one()));
    assert_eq!(BigFraction::checked_ratio(old, BigFraction { hi: 0, lo: 0 }), Err(LendingError::MathOverflow));
    // a quotient beyond 128 bits
    assert_eq!(
        BigFraction::checked_ratio(BigFraction { hi: u128::MAX, lo: 0 }, BigFraction { hi: 0, lo: 1 }),
        Err(LendingError::MathOverflow)
    );
    assert_eq!(BigFraction::checked_ratio(BigFraction { hi: 0, lo: 10 }, BigFraction { hi: 0, lo: 4 }).unwrap().bits, 5 * ONE / 2);
}

#[test]
fn debt_accrues_across_a_big_index() {
    let old = BigFraction { hi: 1u128 << 40, lo: 0 };
    let mut l = ObligationLiquidity::new(Pubkey::new_from_words(1, 0, 0, 0), old);
    l.borrowed_amount_sf = 100 * ONE;
    assert!(l.accrue_interest(BigFraction { hi: 5u128 << 38, lo: 0 }).is_ok());
    assert_eq!(l.borrowed_amount_sf, 125 * ONE);
    assert_eq!(l.accrue_interest(old), Err(LendingError::NegativeInterestRate));
}
