use vstd::prelude::*;
use vstd::arithmetic::div_mod::lemma_fundamental_div_mod_converse;
use vstd::arithmetic::power2::{lemma2_to64, lemma2_to64_rest, lemma_pow2_unfold, pow2};
use crate::errors::{LendingError, LendingResult};

verus! {

/// Number of fractional bits of a `Fraction`.
pub const FRACTION_BITS: u32 = 60;

/// The raw representation of `1` (2^60).
pub const FRACTION_ONE_SCALED: u128 = 0x1000_0000_0000_0000;

/// The scale of a `Fraction` as a mathematical integer.
pub open spec fn one() -> int {
    FRACTION_ONE_SCALED as int
}

/// A raw value fits the 128-bit representation.
pub open spec fn in_range(x: int) -> bool {
    0 <= x <= u128::MAX
}

pub open spec fn lift(x: int) -> Option<int> {
    if in_range(x) {
        Some(x)
    } else {
        None
    }
}

/// Exact sum of two raw values, `None` on overflow or on a failed operand.
pub open spec fn add_s(a: Option<int>, b: Option<int>) -> Option<int> {
    match (a, b) {
        (Some(x), Some(y)) => lift(x + y),
        _ => None,
    }
}

/// Exact difference, `None` when it would be negative.
pub open spec fn sub_s(a: Option<int>, b: Option<int>) -> Option<int> {
    match (a, b) {
        (Some(x), Some(y)) => if x >= y {
            Some(x - y)
        } else {
            None
        },
        _ => None,
    }
}

/// Fixed-point product, rounded down: `floor(a * b / 2^60)`.
pub open spec fn mul_s(a: Option<int>, b: Option<int>) -> Option<int> {
    match (a, b) {
        (Some(x), Some(y)) => lift(x * y / one()),
        _ => None,
    }
}

/// Fixed-point quotient, rounded down: `floor(a * 2^60 / b)`; `None` when `b == 0`.
pub open spec fn div_s(a: Option<int>, b: Option<int>) -> Option<int> {
    match (a, b) {
        (Some(x), Some(y)) => if y == 0 {
            None
        } else {
            lift(x * one() / y)
        },
        _ => None,
    }
}

/// A fraction times a plain integer.
pub open spec fn mul_int_s(a: Option<int>, n: int) -> Option<int> {
    match a {
        Some(x) => lift(x * n),
        None => None,
    }
}

/// A fraction divided by a plain integer, rounded down.
pub open spec fn div_int_s(a: Option<int>, n: int) -> Option<int> {
    match a {
        Some(x) => if n == 0 {
            None
        } else {
            Some(x / n)
        },
        None => None,
    }
}

pub open spec fn min_s(a: Option<int>, b: Option<int>) -> Option<int> {
    match (a, b) {
        (Some(x), Some(y)) => Some(if x <= y { x } else { y }),
        _ => None,
    }
}

/// Integer part of a raw value when it fits in `u64`.
pub open spec fn floor_s(a: Option<int>) -> Option<int> {
    match a {
        Some(x) => if x / one() <= u64::MAX {
            Some(x / one())
        } else {
            None
        },
        None => None,
    }
}

pub open spec fn ceil_of(x: int) -> int {
    if x % one() == 0 {
        x / one()
    } else {
        x / one() + 1
    }
}

pub open spec fn ceil_s(a: Option<int>) -> Option<int> {
    match a {
        Some(x) => if ceil_of(x) <= u64::MAX {
            Some(ceil_of(x))
        } else {
            None
        },
        None => None,
    }
}

/// Rounded to the nearest integer, halves rounded up.
pub open spec fn round_of(x: int) -> int {
    if x % one() >= one() / 2 {
        x / one() + 1
    } else {
        x / one()
    }
}

pub open spec fn round_s(a: Option<int>) -> Option<int> {
    match a {
        Some(x) => if round_of(x) <= u64::MAX {
            Some(round_of(x))
        } else {
            None
        },
        None => None,
    }
}

/// What a fallible fraction computation yields, as an optional raw value.
pub open spec fn fres(r: LendingResult<Fraction>) -> Option<int> {
    match r {
        Ok(f) => Some(f.bits as int),
        Err(_) => None,
    }
}

/// What a fallible integer computation yields, as an optional integer.
pub open spec fn ures(r: LendingResult<u64>) -> Option<int> {
    match r {
        Ok(v) => Some(v as int),
        Err(_) => None,
    }
}

/// The only failure of the arithmetic is an overflow.
pub open spec fn math_only<T>(r: LendingResult<T>) -> bool {
    r is Err ==> r == Err::<T, LendingError>(LendingError::MathOverflow)
}

/// An unsigned fixed-point number with 60 fractional bits: the value is `bits / 2^60`.
#[derive(Clone, Copy, Debug, PartialEq, Eq, Structural)]
pub struct Fraction {
    pub bits: u128,
}

impl Fraction {
    pub open spec fn v(self) -> int {
        self.bits as int
    }

    pub open spec fn sv(self) -> Option<int> {
        Some(self.bits as int)
    }

    pub fn zero() -> (r: Fraction)
        ensures
            r.bits == 0,
    {
        Fraction { bits: 0 }
    }

    pub fn one() -> (r: Fraction)
        ensures
            r.bits == FRACTION_ONE_SCALED,
    {
        Fraction { bits: FRACTION_ONE_SCALED }
    }

    pub fn from_bits(bits: u128) -> (r: Fraction)
        ensures
            r.bits == bits,
    {
        Fraction { bits }
    }

    pub fn to_bits(self) -> (r: u128)
        ensures
            r == self.bits,
    {
        self.bits
    }

    /// An integer amount as a fraction; always representable.
    pub fn from_u64(x: u64) -> (r: Fraction)
        ensures
            r.bits == x * one(),
    {
        assert(x * one() <= u64::MAX * one()) by (nonlinear_arith)
            requires
                x <= u64::MAX,
        ;
        Fraction { bits: (x as u128) * FRACTION_ONE_SCALED }
    }

    /// `p / 100`, rounded down.
    pub fn from_percent(p: u64) -> (r: Fraction)
        ensures
            r.bits == p * one() / 100,
    {
        let f = Fraction::from_u64(p);
        Fraction { bits: f.bits / 100 }
    }

    /// `b / 10_000`, rounded down.
    pub fn from_bps(b: u64) -> (r: Fraction)
        ensures
            r.bits == b * one() / 10000,
    {
        let f = Fraction::from_u64(b);
        Fraction { bits: f.bits / 10000 }
    }

    pub fn checked_add(self, o: Fraction) -> (r: LendingResult<Fraction>)
        ensures
            fres(r) == add_s(self.sv(), o.sv()),
            math_only(r),
    {
        match self.bits.checked_add(o.bits) {
            Some(b) => Ok(Fraction { bits: b }),
            None => Err(LendingError::MathOverflow),
        }
    }

    pub fn checked_sub(self, o: Fraction) -> (r: LendingResult<Fraction>)
        ensures
            fres(r) == sub_s(self.sv(), o.sv()),
            math_only(r),
    {
        if self.bits >= o.bits {
            Ok(Fraction { bits: self.bits - o.bits })
        } else {
            Err(LendingError::MathOverflow)
        }
    }

    pub fn saturating_sub(self, o: Fraction) -> (r: Fraction)
        ensures
            r.v() == if self.v() >= o.v() { self.v() - o.v() } else { 0 },
    {
        if self.bits >= o.bits {
            Fraction { bits: self.bits - o.bits }
        } else {
            Fraction { bits: 0 }
        }
    }

    pub fn abs_diff(self, o: Fraction) -> (r: Fraction)
        ensures
            r.v() == if self.v() >= o.v() { self.v() - o.v() } else { o.v() - self.v() },
    {
        if self.bits >= o.bits {
            Fraction { bits: self.bits - o.bits }
        } else {
            Fraction { bits: o.bits - self.bits }
        }
    }

    pub fn min(self, o: Fraction) -> (r: Fraction)
        ensures
            r.v() == if self.v() <= o.v() { self.v() } else { o.v() },
    {
        if self.bits <= o.bits {
            self
        } else {
            o
        }
    }

    pub fn max(self, o: Fraction) -> (r: Fraction)
        ensures
            r.v() == if self.v() >= o.v() { self.v() } else { o.v() },
    {
        if self.bits >= o.bits {
            self
        } else {
            o
        }
    }

    /// Exact fixed-point product rounded down; fails only when the result exceeds 128 bits.
    pub fn checked_mul(self, o: Fraction) -> (r: LendingResult<Fraction>)
        ensures
            fres(r) == mul_s(self.sv(), o.sv()),
            math_only(r),
    {
        let a = self.bits;
        let b = o.bits;
        let q = a / FRACTION_ONE_SCALED;
        let rm = a % FRACTION_ONE_SCALED;
        let qb = b / FRACTION_ONE_SCALED;
        let rb = b % FRACTION_ONE_SCALED;
        proof {
            vstd::arithmetic::div_mod::lemma_fundamental_div_mod(a as int, one());
            vstd::arithmetic::div_mod::lemma_fundamental_div_mod(b as int, one());
            lemma_mul_split(a as int, b as int, q as int, rm as int, qb as int, rb as int);
        }
        assert(rm * qb < 0x1000_0000_0000_0000 * 0x10_0000_0000_0000_0000) by (nonlinear_arith)
            requires
                rm < 0x1000_0000_0000_0000,
                qb < 0x10_0000_0000_0000_0000,
        ;
        assert(rm * rb < 0x1000_0000_0000_0000 * 0x1000_0000_0000_0000) by (nonlinear_arith)
            requires
                rm < 0x1000_0000_0000_0000,
                rb < 0x1000_0000_0000_0000,
        ;
        let t3 = (rm * rb) / FRACTION_ONE_SCALED;
        let t2 = rm * qb;
        match q.checked_mul(b) {
            None => {
                assert(q * b <= a * b / one()) by {
                    assert(0 <= rm * qb);
                    assert(0 <= (rm * rb) / one());
                }
                Err(LendingError::MathOverflow)
            },
            Some(t1) => {
                match t1.checked_add(t2) {
                    None => Err(LendingError::MathOverflow),
                    Some(s) => match s.checked_add(t3) {
                        None => Err(LendingError::MathOverflow),
                        Some(t) => Ok(Fraction { bits: t }),
                    },
                }
            },
        }
    }

    /// Exact fixed-point quotient rounded down; fails on a zero divisor or a result beyond
    /// 128 bits.
    pub fn checked_div(self, o: Fraction) -> (r: LendingResult<Fraction>)
        ensures
            fres(r) == div_s(self.sv(), o.sv()),
            math_only(r),
    {
        let a = self.bits;
        let b = o.bits;
        if b == 0 {
            return Err(LendingError::MathOverflow);
        }
        let q = a / b;
        let rm = a % b;
        let mut acc: u128 = 0;
        let mut rem: u128 = 0;
        let mut i: u32 = 0;
        let ghost mut p: int = 1;
        // long division of `rm * 2^60` by `b`, one bit at a time
        rem = rm;
        proof {
            lemma2_to64();
        }
        while i < FRACTION_BITS
            invariant
                b > 0,
                i <= FRACTION_BITS,
                p == pow2(i as nat),
                rem < b,
                0 <= acc < p,
                (rm as int) * p == (acc as int) * (b as int) + rem,
            decreases FRACTION_BITS - i,
        {
            proof {
                lemma_pow2_unfold((i + 1) as nat);
                lemma2_to64_rest();
                assert(p <= pow2(59)) by {
                    vstd::arithmetic::power2::lemma_pow2_strictly_increases(i as nat, 60);
                    if i < 59 {
                        vstd::arithmetic::power2::lemma_pow2_strictly_increases(i as nat, 59);
                    }
                }
            }
            let ghost a0 = acc as int;
            let ghost r0 = rem as int;
            let ghost bit: int;
            if rem >= b - rem {
                rem = rem - (b - rem);
                acc = 2 * acc + 1;
                proof { bit = 1; }
            } else {
                rem = rem + rem;
                acc = 2 * acc;
                proof { bit = 0; }
            }
            proof {
                assert((rm as int) * (2 * p) == (2 * a0 + bit) * (b as int) + (2 * r0 - bit * b))
                    by (nonlinear_arith)
                    requires
                        (rm as int) * p == a0 * (b as int) + r0,
                ;
                p = 2 * p;
            }
            i = i + 1;
        }
        proof {
            lemma2_to64_rest();
            assert(p == one());
            vstd::arithmetic::div_mod::lemma_fundamental_div_mod(a as int, b as int);
            lemma_div_tail(a as int, b as int, q as int, rm as int, acc as int, rem as int);
        }
        match q.checked_mul(FRACTION_ONE_SCALED) {
            None => {
                assert(q * one() <= (a as int) * one() / (b as int));
                Err(LendingError::MathOverflow)
            },
            Some(hi) => match hi.checked_add(acc) {
                None => Err(LendingError::MathOverflow),
                Some(t) => Ok(Fraction { bits: t }),
            },
        }
    }

    /// A fraction times a plain integer, exact.
    pub fn checked_mul_int(self, n: u128) -> (r: LendingResult<Fraction>)
        ensures
            fres(r) == mul_int_s(self.sv(), n as int),
            math_only(r),
    {
        match self.bits.checked_mul(n) {
            Some(b) => Ok(Fraction { bits: b }),
            None => Err(LendingError::MathOverflow),
        }
    }

    /// A fraction divided by a plain integer, rounded down.
    pub fn checked_div_int(self, n: u128) -> (r: LendingResult<Fraction>)
        ensures
            fres(r) == div_int_s(self.sv(), n as int),
            math_only(r),
    {
        if n == 0 {
            Err(LendingError::MathOverflow)
        } else {
            Ok(Fraction { bits: self.bits / n })
        }
    }

    /// The integer part.
    pub fn to_floor(self) -> (r: LendingResult<u64>)
        ensures
            ures(r) == floor_s(self.sv()),
            math_only(r),
    {
        let q = self.bits / FRACTION_ONE_SCALED;
        if q <= u64::MAX as u128 {
            Ok(q as u64)
        } else {
            Err(LendingError::MathOverflow)
        }
    }

    /// The least integer not below the value.
    pub fn to_ceil(self) -> (r: LendingResult<u64>)
        ensures
            ures(r) == ceil_s(self.sv()),
            math_only(r),
    {
        let q = self.bits / FRACTION_ONE_SCALED;
        let c = if self.bits % FRACTION_ONE_SCALED == 0 {
            q
        } else {
            q + 1
        };
        if c <= u64::MAX as u128 {
            Ok(c as u64)
        } else {
            Err(LendingError::MathOverflow)
        }
    }

    /// The nearest integer, halves rounded up.
    pub fn to_round(self) -> (r: LendingResult<u64>)
        ensures
            ures(r) == round_s(self.sv()),
            math_only(r),
    {
        let q = self.bits / FRACTION_ONE_SCALED;
        let c = if self.bits % FRACTION_ONE_SCALED >= FRACTION_ONE_SCALED / 2 {
            q + 1
        } else {
            q
        };
        if c <= u64::MAX as u128 {
            Ok(c as u64)
        } else {
            Err(LendingError::MathOverflow)
        }
    }
}

proof fn lemma_mul_split(a: int, b: int, q: int, r: int, qb: int, rb: int)
    requires
        a == one() * q + r,
        b == one() * qb + rb,
        0 <= r < one(),
        0 <= rb < one(),
        0 <= q,
        0 <= qb,
    ensures
        a * b / one() == q * b + r * qb + (r * rb) / one(),
{
    let k = q * b + r * qb;
    let m = r * rb;
    assert(a * b == k * one() + m) by (nonlinear_arith)
        requires
            a == one() * q + r,
            b == one() * qb + rb,
            k == q * b + r * qb,
            m == r * rb,
    ;
    let mq = m / one();
    let mr = m % one();
    vstd::arithmetic::div_mod::lemma_fundamental_div_mod(m, one());
    assert(a * b == (k + mq) * one() + mr) by (nonlinear_arith)
        requires
            a * b == k * one() + m,
            m == one() * mq + mr,
    ;
    lemma_fundamental_div_mod_converse(a * b, one(), k + mq, mr);
}

proof fn lemma_div_tail(a: int, b: int, q: int, rm: int, acc: int, rem: int)
    requires
        b > 0,
        a == b * q + rm,
        0 <= rm < b,
        rm * one() == acc * b + rem,
        0 <= rem < b,
    ensures
        a * one() / b == q * one() + acc,
{
    assert(a * one() == (q * one() + acc) * b + rem) by (nonlinear_arith)
        requires
            a == b * q + rm,
            rm * one() == acc * b + rem,
    ;
    lemma_fundamental_div_mod_converse(a * one(), b, q * one() + acc, rem);
}

} // verus!
