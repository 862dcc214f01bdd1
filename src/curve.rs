use vstd::prelude::*;
use crate::errors::{LendingError, LendingResult};
use crate::fraction::{Fraction, FRACTION_ONE_SCALED, one};

verus! {

/// One control point of the borrow-rate curve, both coordinates in basis points.
#[derive(Clone, Copy, Debug, PartialEq, Eq, Structural)]
pub struct CurvePoint {
    pub utilization_rate_bps: u32,
    pub borrow_rate_bps: u32,
}

/// A piecewise-linear annual borrow rate as a function of utilization, over 11 points.
#[derive(Clone, Copy, Debug, PartialEq, Eq)]
pub struct BorrowRateCurve {
    pub points: [CurvePoint; 11],
}

pub const CURVE_POINTS: usize = 11;

/// Step `i -> i + 1` of a valid curve: utilization grows strictly, except for trailing
/// points that repeat the point at full utilization.
pub open spec fn valid_step(a: CurvePoint, b: CurvePoint) -> bool {
    if a.utilization_rate_bps == 10000 {
        b == a
    } else {
        a.utilization_rate_bps < b.utilization_rate_bps
    }
}

/// Utilization (in bps, scaled by 2^60) lies in segment `i`.
pub open spec fn in_segment(pts: Seq<CurvePoint>, i: int, ub: int) -> bool {
    pts[i].utilization_rate_bps * one() <= ub <= pts[i + 1].utilization_rate_bps * one()
}

/// The first segment at or after `i` that holds `ub`.
pub open spec fn find_segment(pts: Seq<CurvePoint>, ub: int, i: int) -> Option<int>
    decreases 10 - i,
{
    if i < 0 || i >= 10 {
        None
    } else if in_segment(pts, i, ub) {
        Some(i)
    } else {
        find_segment(pts, ub, i + 1)
    }
}

/// Linear interpolation on segment `i`, as a raw fraction (rate in bps / 10_000).
pub open spec fn interpolate(pts: Seq<CurvePoint>, i: int, ub: int) -> int {
    let su = pts[i].utilization_rate_bps as int;
    let eu = pts[i + 1].utilization_rate_bps as int;
    let sr = pts[i].borrow_rate_bps as int;
    let er = pts[i + 1].borrow_rate_bps as int;
    if ub == su * one() {
        sr * one() / 10000
    } else if ub == eu * one() {
        er * one() / 10000
    } else if er >= sr {
        (sr * one() + (ub - su * one()) * (er - sr) / (eu - su)) / 10000
    } else {
        (sr * one() - (ub - su * one()) * (sr - er) / (eu - su)) / 10000
    }
}

/// Utilization, clamped to 1, expressed in basis points scaled by 2^60.
pub open spec fn utilization_bps_scaled(u: int) -> int {
    (if u > one() { one() } else { u }) * 10000
}

/// The borrow rate of a curve at a utilization, `None` when no segment holds it.
pub open spec fn borrow_rate_spec(pts: Seq<CurvePoint>, u: int) -> Option<int> {
    let ub = utilization_bps_scaled(u);
    match find_segment(pts, ub, 0) {
        Some(i) => Some(interpolate(pts, i, ub)),
        None => None,
    }
}

impl BorrowRateCurve {
    pub open spec fn valid(self) -> bool {
        &&& self.points@[0].utilization_rate_bps == 0
        &&& self.points@[10].utilization_rate_bps == 10000
        &&& forall|i: int| 0 <= i < 10 ==> valid_step(#[trigger] self.points@[i], self.points@[i + 1])
    }

    /// Checks the curve's shape: starts at zero utilization, ends at full utilization,
    /// utilization strictly increasing up to full.
    pub fn validate(&self) -> (r: LendingResult<()>)
        ensures
            r is Ok <==> self.valid(),
            r is Err ==> r == Err::<(), LendingError>(LendingError::InvalidBorrowRateCurvePoint),
    {
        if self.points[0].utilization_rate_bps != 0 {
            return Err(LendingError::InvalidBorrowRateCurvePoint);
        }
        if self.points[10].utilization_rate_bps != 10000 {
            return Err(LendingError::InvalidBorrowRateCurvePoint);
        }
        let mut i: usize = 0;
        while i < 10
            invariant
                i <= 10,
                forall|j: int| 0 <= j < i ==> valid_step(#[trigger] self.points@[j], self.points@[j + 1]),
            decreases 10 - i,
        {
            let a = self.points[i];
            let b = self.points[i + 1];
            if a.utilization_rate_bps == 10000 {
                if a.utilization_rate_bps != b.utilization_rate_bps || a.borrow_rate_bps
                    != b.borrow_rate_bps {
                    return Err(LendingError::InvalidBorrowRateCurvePoint);
                }
            } else if a.utilization_rate_bps >= b.utilization_rate_bps {
                return Err(LendingError::InvalidBorrowRateCurvePoint);
            }
            i = i + 1;
        }
        Ok(())
    }

    /// The annual borrow rate at utilization `u`, interpolated linearly between the two
    /// control points around it; a utilization above 1 is read as 1.
    pub fn get_borrow_rate(&self, u: Fraction) -> (r: LendingResult<Fraction>)
        ensures
            match borrow_rate_spec(self.points@, u.bits as int) {
                Some(v) => r == Ok::<Fraction, LendingError>(Fraction { bits: v as u128 }),
                None => r == Err::<Fraction, LendingError>(LendingError::InvalidUtilizationRate),
            },
    {
        let uc: u128 = if u.bits > FRACTION_ONE_SCALED {
            FRACTION_ONE_SCALED
        } else {
            u.bits
        };
        let ub: u128 = uc * 10000;
        let ghost pts = self.points@;
        assert(ub == utilization_bps_scaled(u.bits as int));
        let mut i: usize = 0;
        while i < 10
            invariant
                i <= 10,
                pts == self.points@,
                ub == utilization_bps_scaled(u.bits as int),
                ub <= 10000 * FRACTION_ONE_SCALED,
                find_segment(pts, ub as int, 0) == find_segment(pts, ub as int, i as int),
            decreases 10 - i,
        {
            let su = self.points[i].utilization_rate_bps as u128;
            let eu = self.points[i + 1].utilization_rate_bps as u128;
            let sr = self.points[i].borrow_rate_bps as u128;
            let er = self.points[i + 1].borrow_rate_bps as u128;
            let sraw = su * FRACTION_ONE_SCALED;
            let eraw = eu * FRACTION_ONE_SCALED;
            if sraw <= ub && ub <= eraw {
                assert(find_segment(pts, ub as int, i as int) == Some(i as int));
                let v = self.interpolate_at(i, ub);
                return Ok(Fraction { bits: v });
            }
            i = i + 1;
        }
        Err(LendingError::InvalidUtilizationRate)
    }

    fn interpolate_at(&self, i: usize, ub: u128) -> (r: u128)
        requires
            i < 10,
            ub <= 10000 * FRACTION_ONE_SCALED,
            in_segment(self.points@, i as int, ub as int),
        ensures
            r == interpolate(self.points@, i as int, ub as int),
    {
        let su = self.points[i].utilization_rate_bps as u128;
        let eu = self.points[i + 1].utilization_rate_bps as u128;
        let sr = self.points[i].borrow_rate_bps as u128;
        let er = self.points[i + 1].borrow_rate_bps as u128;
        assert(su * FRACTION_ONE_SCALED <= 0xffff_ffff * FRACTION_ONE_SCALED) by (nonlinear_arith)
            requires su <= 0xffff_ffff;
        assert(eu * FRACTION_ONE_SCALED <= 0xffff_ffff * FRACTION_ONE_SCALED) by (nonlinear_arith)
            requires eu <= 0xffff_ffff;
        assert(sr * FRACTION_ONE_SCALED <= 0xffff_ffff * FRACTION_ONE_SCALED) by (nonlinear_arith)
            requires sr <= 0xffff_ffff;
        assert(er * FRACTION_ONE_SCALED <= 0xffff_ffff * FRACTION_ONE_SCALED) by (nonlinear_arith)
            requires er <= 0xffff_ffff;
        let sraw = su * FRACTION_ONE_SCALED;
        if ub == sraw {
            return sr * FRACTION_ONE_SCALED / 10000;
        }
        if ub == eu * FRACTION_ONE_SCALED {
            return er * FRACTION_ONE_SCALED / 10000;
        }
        let du = ub - sraw;
        assert(du <= 10000 * FRACTION_ONE_SCALED);
        assert(su < eu) by (nonlinear_arith)
            requires
                su * FRACTION_ONE_SCALED < ub,
                ub < eu * FRACTION_ONE_SCALED,
        ;
        assert(du < (eu - su) * FRACTION_ONE_SCALED) by (nonlinear_arith)
            requires
                du == ub - su * FRACTION_ONE_SCALED,
                ub < eu * FRACTION_ONE_SCALED,
        ;
        if er >= sr {
            let dr = er - sr;
            assert(du * dr <= (10000 * FRACTION_ONE_SCALED) * 0xffff_ffff) by (nonlinear_arith)
                requires
                    du <= 10000 * FRACTION_ONE_SCALED,
                    dr <= 0xffff_ffff,
            ;
            let d = du * dr / (eu - su);
            assert(d <= du * dr) by {
                vstd::arithmetic::div_mod::lemma_div_is_ordered_by_denominator(
                    (du * dr) as int,
                    1,
                    (eu - su) as int,
                );
            }
            (sr * FRACTION_ONE_SCALED + d) / 10000
        } else {
            let dr = sr - er;
            assert(du * dr <= (10000 * FRACTION_ONE_SCALED) * 0xffff_ffff) by (nonlinear_arith)
                requires
                    du <= 10000 * FRACTION_ONE_SCALED,
                    dr <= 0xffff_ffff,
            ;
            let d = du * dr / (eu - su);
            let base = sr * FRACTION_ONE_SCALED;
            assert(d <= base) by {
                lemma_interp_down(du as int, (eu - su) as int, dr as int, sr as int);
            }
            (base - d) / 10000
        }
    }
}

/// Going down a segment never falls below the lower end point.
proof fn lemma_interp_down(du: int, w: int, dr: int, sr: int)
    requires
        0 <= du < w * one(),
        0 < w,
        0 <= dr <= sr,
    ensures
        du * dr / w <= sr * one(),
{
    assert(du * dr <= w * one() * sr) by (nonlinear_arith)
        requires
            0 <= du < w * one(),
            0 <= dr <= sr,
    ;
    vstd::arithmetic::div_mod::lemma_div_is_ordered(du * dr, w * one() * sr, w);
    assert(w * one() * sr == w * (one() * sr)) by (nonlinear_arith);
    vstd::arithmetic::div_mod::lemma_div_multiples_vanish(one() * sr, w);
}

} // verus!
