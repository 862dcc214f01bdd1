use cluster_lend::caps::{add_to_withdrawal_accum, sub_from_withdrawal_accum, WithdrawalCaps};
use cluster_lend::constants::{ten_pow, SLOTS_PER_YEAR};
use cluster_lend::curve::{BorrowRateCurve, CurvePoint};
use cluster_lend::errors::LendingError;
use cluster_lend::fraction::{Fraction, FRACTION_ONE_SCALED};
use cluster_lend::reserve::approximate_compounded_interest;

const ONE: u128 = FRACTION_ONE_SCALED;

fn spec_curve() -> BorrowRateCurve {
    let full = CurvePoint { utilization_rate_bps: 10000, borrow_rate_bps: 100000 };
    let mut points = [full; 11];
    points[0] = CurvePoint { utilization_rate_bps: 0, borrow_rate_bps: 1 };
    points[1] = CurvePoint { utilization_rate_bps: 100, borrow_rate_bps: 100 };
    BorrowRateCurve { points }
}

#[test]
fn ten_pow_values() {
    assert_eq!(ten_pow(0), 1);
    assert_eq!(ten_pow(6), 1_000_000);
    assert_eq!(ten_pow(19), 10_000_000_000_000_000_000);
}

#[test]
fn fraction_conversions() {
    assert_eq!(Fraction::from_u64(3).bits, 3 * ONE);
    assert_eq!(Fraction::from_percent(50).bits, ONE / 2);
    assert_eq!(Fraction::from_bps(2500).bits, ONE / 4);
    let x = Fraction::from_bits(5 * ONE / 2);
    assert_eq!(x.to_floor(), Ok(2));
    assert_eq!(x.to_ceil(), Ok(3));
    assert_eq!(x.to_round(), Ok(3));
    let y = Fraction::from_bits(9 * ONE / 4);
    assert_eq!(y.to_round(), Ok(2));
    assert_eq!(Fraction::from_u64(7).to_ceil(), Ok(7));
    assert_eq!(Fraction::from_bits(u128::MAX).to_floor(), Err(LendingError::MathOverflow));
}

#[test]
fn fraction_mul_div_exact() {
    let a = Fraction::from_bits(3 * ONE / 2);
    let b = Fraction::from_bits(9 * ONE / 4);
    assert_eq!(a.checked_mul(b).unwrap().bits, 27 * ONE / 8);
    assert_eq!(Fraction::one().checked_div(Fraction::from_u64(3)).unwrap().bits, 384307168202282325);
    // a large product still exact
    let big = Fraction::from_u64(1u64 << 30);
    assert_eq!(big.checked_mul(big).unwrap().bits, (1u128 << 60) * ONE);
    assert_eq!(big.checked_mul(Fraction::from_u64(1u64 << 40)), Err(LendingError::MathOverflow));
    assert_eq!(Fraction::from_u64(1u64 << 63).checked_mul(Fraction::from_u64(1 << 10)), Err(LendingError::MathOverflow));
    assert_eq!(Fraction::one().checked_div(Fraction::zero()), Err(LendingError::MathOverflow));
    assert_eq!(Fraction::from_u64(10).checked_div(Fraction::from_u64(4)).unwrap().bits, 5 * ONE / 2);
}

#[test]
fn fraction_add_sub_min_max() {
    let a = Fraction::from_u64(2);
    let b = Fraction::from_u64(5);
    assert_eq!(a.checked_add(b).unwrap().bits, 7 * ONE);
    assert_eq!(a.checked_sub(b), Err(LendingError::MathOverflow));
    assert_eq!(b.checked_sub(a).unwrap().bits, 3 * ONE);
    assert_eq!(a.saturating_sub(b).bits, 0);
    assert_eq!(a.abs_diff(b).bits, 3 * ONE);
    assert_eq!(a.min(b), a);
    assert_eq!(a.max(b), b);
    assert_eq!(Fraction::from_bits(u128::MAX).checked_add(Fraction::from_bits(1)), Err(LendingError::MathOverflow));
}

#[test]
fn curve_validation() {
    assert!(spec_curve().validate().is_ok());
    let mut bad = spec_curve();
    bad.points[0].utilization_rate_bps = 1;
    assert_eq!(bad.validate(), Err(LendingError::InvalidBorrowRateCurvePoint));
    let mut bad2 = spec_curve();
    bad2.points[2] = CurvePoint { utilization_rate_bps: 50, borrow_rate_bps: 100 };
    assert_eq!(bad2.validate(), Err(LendingError::InvalidBorrowRateCurvePoint));
}

#[test]
fn curve_interpolates_at_half_utilization() {
    let c = spec_curve();
    let r = c.get_borrow_rate(Fraction::from_bits(ONE / 2)).unwrap();
    assert_eq!(r.bits, 5712202000097560017);
    // end points and clamping above one
    assert_eq!(c.get_borrow_rate(Fraction::zero()).unwrap().bits, ONE / 10000);
    assert_eq!(c.get_borrow_rate(Fraction::from_u64(2)).unwrap().bits, 10 * ONE);
    assert_eq!(c.get_borrow_rate(Fraction::from_bits(ONE / 100)).unwrap().bits, ONE / 100);
}

#[test]
fn compounded_interest_small_and_large() {
    let rate = Fraction::from_percent(10);
    assert_eq!(approximate_compounded_interest(rate, 0).unwrap().bits, ONE);
    let base = rate.bits / SLOTS_PER_YEAR as u128;
    assert_eq!(approximate_compounded_interest(rate, 1).unwrap().bits, ONE + base);
    // the Taylor terms with the per-slot rate in 60 fractional bits: the square keeps two
    // units of precision and the cube none
    let year = approximate_compounded_interest(rate, SLOTS_PER_YEAR).unwrap();
    assert_eq!(year.bits, 1272191732173662976);
    let e = SLOTS_PER_YEAR as u128;
    let b2 = base * base / ONE;
    assert_eq!(b2, 2);
    assert_eq!(year.bits, ONE + base * e + b2 * e * (e - 1) / 2);
}

fn caps(capacity: i64, length: u64) -> WithdrawalCaps {
    WithdrawalCaps {
        config_capacity: capacity,
        current_total: 0,
        last_interval_start_timestamp: 100,
        config_interval_length_seconds: length,
    }
}

#[test]
fn withdrawal_cap_limits_an_interval() {
    let mut c = caps(1000, 60);
    assert!(add_to_withdrawal_accum(&mut c, 600, 110).is_ok());
    assert_eq!(c.current_total, 600);
    assert_eq!(add_to_withdrawal_accum(&mut c, 500, 120), Err(LendingError::WithdrawalCapReached));
    assert_eq!(c.current_total, 600);
    assert!(sub_from_withdrawal_accum(&mut c, 200, 130).is_ok());
    assert!(add_to_withdrawal_accum(&mut c, 600, 140).is_ok());
    assert_eq!(c.current_total, 1000);
    // next interval starts from zero, moving the start by whole intervals
    assert!(add_to_withdrawal_accum(&mut c, 900, 230).is_ok());
    assert_eq!(c.current_total, 900);
    assert_eq!(c.last_interval_start_timestamp, 220);
    assert_eq!(add_to_withdrawal_accum(&mut c, 1, 10), Err(LendingError::LastTimestampGreaterThanCurrent));
}

#[test]
fn withdrawal_cap_disabled_when_zero() {
    let mut c = caps(0, 60);
    assert!(add_to_withdrawal_accum(&mut c, u64::MAX, 110).is_ok());
    assert_eq!(c, caps(0, 60));
}

#[test]
fn withdrawal_cap_sequence_stays_within_capacity() {
    let mut c = caps(500, 1000);
    let ops: [(bool, u64); 6] = [(true, 200), (true, 250), (false, 100), (true, 160), (true, 1), (false, 20)];
    for (i, (out, amount)) in ops.iter().enumerate() {
        let r = if *out {
            add_to_withdrawal_accum(&mut c, *amount, 100 + i as u64)
        } else {
            sub_from_withdrawal_accum(&mut c, *amount, 100 + i as u64)
        };
        let _ = r;
        assert!(c.current_total <= c.config_capacity);
    }
    assert_eq!(c.current_total, 331);
}
