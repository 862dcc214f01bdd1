use vstd::prelude::*;

verus! {

/// 2^64.
pub open spec fn w64() -> int {
    0x1_0000_0000_0000_0000int
}

/// 2^128.
pub open spec fn w128() -> int {
    w64() * w64()
}

/// Adds two words; the carry out is one when the sum passes 128 bits.
pub fn add_carry(a: u128, b: u128) -> (r: (u128, u128))
    ensures
        r.1 <= 1,
        r.0 + r.1 * w128() == a + b,
{
    if a > u128::MAX - b {
        (a - (u128::MAX - b) - 1, 1)
    } else {
        (a + b, 0)
    }
}

/// The full 256-bit product of two words, as (high, low).
pub fn mul_wide(a: u128, b: u128) -> (r: (u128, u128))
    ensures
        r.0 * w128() + r.1 == a * b,
{
    let m: u128 = 0x1_0000_0000_0000_0000;
    let a0 = a % m;
    let a1 = a / m;
    let b0 = b % m;
    let b1 = b / m;
    proof {
        vstd::arithmetic::div_mod::lemma_fundamental_div_mod(a as int, m as int);
        vstd::arithmetic::div_mod::lemma_fundamental_div_mod(b as int, m as int);
    }
    assert(a1 < m && b1 < m) by (nonlinear_arith)
        requires
            a == m * a1 + a0,
            b == m * b1 + b0,
            a0 >= 0,
            b0 >= 0,
            a < m * m,
            b < m * m,
            m > 0,
    ;
    assert(a0 * b0 < m * m && a0 * b1 < m * m && a1 * b0 < m * m && a1 * b1 < m * m) by (nonlinear_arith)
        requires
            a0 < m,
            b0 < m,
            a1 < m,
            b1 < m,
    ;
    let p00 = a0 * b0;
    let p01 = a0 * b1;
    let p10 = a1 * b0;
    let p11 = a1 * b1;
    let (mid, c1) = add_carry(p01, p10);
    let mid_lo = mid % m;
    let mid_hi = mid / m;
    assert(mid_lo * m < m * m) by (nonlinear_arith)
        requires
            mid_lo < m,
    ;
    let t = mid_lo * m;
    let (lo, c2) = add_carry(p00, t);
    proof {
        vstd::arithmetic::div_mod::lemma_fundamental_div_mod(a as int, m as int);
        vstd::arithmetic::div_mod::lemma_fundamental_div_mod(b as int, m as int);
        vstd::arithmetic::div_mod::lemma_fundamental_div_mod(mid as int, m as int);
        assert(a * b == p11 * w128() + (p01 + p10) * w64() + p00) by (nonlinear_arith)
            requires
                a == m * a1 + a0,
                b == m * b1 + b0,
                p00 == a0 * b0,
                p01 == a0 * b1,
                p10 == a1 * b0,
                p11 == a1 * b1,
                m == w64(),
                w128() == w64() * w64(),
        ;
        assert(a * b == (p11 + c1 * w64() + mid_hi + c2) * w128() + lo) by (nonlinear_arith)
            requires
                a * b == p11 * w128() + (p01 + p10) * w64() + p00,
                mid + c1 * w128() == p01 + p10,
                mid == m * mid_hi + mid_lo,
                t == mid_lo * m,
                lo + c2 * w128() == p00 + t,
                m == w64(),
                w128() == w64() * w64(),
        ;
        assert(a * b <= (w128() - 1) * (w128() - 1)) by (nonlinear_arith)
            requires
                0 <= a < w128(),
                0 <= b < w128(),
        ;
        assert(p11 + c1 * w64() + mid_hi + c2 < w128()) by (nonlinear_arith)
            requires
                a * b == (p11 + c1 * w64() + mid_hi + c2) * w128() + lo,
                a * b <= (w128() - 1) * (w128() - 1),
                lo >= 0,
                p11 + c1 * w64() + mid_hi + c2 >= 0,
        ;
    }
    let hi = p11 + c1 * m + mid_hi + c2;
    (hi, lo)
}

} // verus!

verus! {

use crate::errors::{LendingError, LendingResult};
use crate::fraction::{Fraction, fres, math_only, one};
use vstd::arithmetic::power2::{pow2, lemma_pow2_unfold, lemma_pow2_adds, lemma2_to64, lemma2_to64_rest};

/// A fixed-point number with 60 fractional bits held in 256 bits: the value is
/// `(hi * 2^128 + lo) / 2^60`. It holds the cumulative borrow index, which grows without
/// bound over the life of a reserve.
#[derive(Clone, Copy, Debug, PartialEq, Eq, Structural)]
pub struct BigFraction {
    pub hi: u128,
    pub lo: u128,
}

/// The big fraction holding raw value `i` (for `0 <= i < 2^256`).
pub open spec fn big_of(i: int) -> BigFraction {
    BigFraction { hi: (i / w128()) as u128, lo: (i % w128()) as u128 }
}

/// A big fraction is the one its value names.
pub proof fn lemma_big_of(b: BigFraction)
    ensures
        big_of(b.v()) == b,
        0 <= b.v() < w256(),
{
    vstd::arithmetic::div_mod::lemma_fundamental_div_mod_converse(b.v(), w128(), b.hi as int, b.lo as int);
    assert(b.v() < w256()) by (nonlinear_arith)
        requires
            b.v() == b.hi * w128() + b.lo,
            0 <= b.hi < w128(),
            0 <= b.lo < w128(),
            w256() == w128() * w128(),
    ;
}

/// The value of `big_of(i)` is `i`.
pub proof fn lemma_big_of_v(i: int)
    requires
        0 <= i < w256(),
    ensures
        big_of(i).v() == i,
{
    vstd::arithmetic::div_mod::lemma_fundamental_div_mod(i, w128());
    assert(i / w128() < w128()) by {
        vstd::arithmetic::div_mod::lemma_div_is_ordered(i, w256() - 1, w128());
        assert(w256() - 1 == w128() * (w128() - 1) + (w128() - 1)) by (nonlinear_arith)
            requires
                w256() == w128() * w128(),
        ;
        vstd::arithmetic::div_mod::lemma_fundamental_div_mod_converse(w256() - 1, w128(), w128() - 1, w128() - 1);
    }
    vstd::arithmetic::div_mod::lemma_div_pos_is_pos(i, w128());
}

/// 2^256, the first raw value that does not fit.
pub open spec fn w256() -> int {
    w128() * w128()
}

/// The fixed-point product of a big raw value and a fraction's raw value, rounded down;
/// `None` beyond 256 bits.
pub open spec fn big_mul_s(x: int, f: int) -> Option<int> {
    if x * f / one() < w256() {
        Some(x * f / one())
    } else {
        None
    }
}

/// The fixed-point quotient of two big raw values, rounded down, as a fraction; `None` for a
/// zero divisor or a quotient beyond 128 bits.
pub open spec fn big_ratio_s(n: int, d: int) -> Option<int> {
    if d == 0 {
        None
    } else if n * one() / d <= u128::MAX {
        Some(n * one() / d)
    } else {
        None
    }
}

/// What a fallible big computation yields, as an optional raw value.
pub open spec fn bres(r: LendingResult<BigFraction>) -> Option<int> {
    match r {
        Ok(b) => Some(b.v()),
        Err(_) => None,
    }
}

/// A 384-bit value held in three words, most significant first.
pub open spec fn v3(t: (u128, u128, u128)) -> int {
    t.0 * w256() + t.1 * w128() + t.2
}

proof fn lemma_v3_order(a: (u128, u128, u128), b: (u128, u128, u128))
    ensures
        v3(a) <= v3(b) <==> (a.0 < b.0 || (a.0 == b.0 && (a.1 < b.1 || (a.1 == b.1 && a.2 <= b.2)))),
{
    let (a0, a1, a2, b0, b1, b2) = (a.0 as int, a.1 as int, a.2 as int, b.0 as int, b.1 as int, b.2 as int);
    let w = w128();
    assert(w == 0x1_0000_0000_0000_0000int * 0x1_0000_0000_0000_0000int);
    assert(v3(a) == a0 * (w * w) + a1 * w + a2);
    assert(v3(b) == b0 * (w * w) + b1 * w + b2);
    assert(v3(a) <= v3(b) <==> (a0 < b0 || (a0 == b0 && (a1 < b1 || (a1 == b1 && a2 <= b2))))) by (nonlinear_arith)
        requires
            0 <= a1 < w,
            0 <= a2 < w,
            0 <= b1 < w,
            0 <= b2 < w,
            0 <= a0,
            0 <= b0,
            v3(a) == a0 * (w * w) + a1 * w + a2,
            v3(b) == b0 * (w * w) + b1 * w + b2,
    ;
}

fn le3(a: (u128, u128, u128), b: (u128, u128, u128)) -> (r: bool)
    ensures
        r == (v3(a) <= v3(b)),
{
    proof {
        lemma_v3_order(a, b);
    }
    a.0 < b.0 || (a.0 == b.0 && (a.1 < b.1 || (a.1 == b.1 && a.2 <= b.2)))
}

/// `q * d` for a word `q` and a big value `d`, as three words.
fn mul_word_big(q: u128, d: BigFraction) -> (r: (u128, u128, u128))
    ensures
        v3(r) == q * d.v(),
{
    let (p1, p0) = mul_wide(q, d.lo);
    let (s1, s0) = mul_wide(q, d.hi);
    let (m, c) = add_carry(s0, p1);
    proof {
        assert(q * d.hi <= (w128() - 1) * (w128() - 1)) by (nonlinear_arith)
            requires
                0 <= q < w128(),
                0 <= d.hi < w128(),
        ;
        assert(s1 < w128() - 1) by (nonlinear_arith)
            requires
                s1 * w128() + s0 == q * d.hi,
                q * d.hi <= (w128() - 1) * (w128() - 1),
                s0 >= 0,
                w128() > 2,
        ;
    }
    let top = s1 + c;
    proof {
        assert(v3((top, m, p0)) == q * d.v()) by (nonlinear_arith)
            requires
                p1 * w128() + p0 == q * d.lo,
                s1 * w128() + s0 == q * d.hi,
                m + c * w128() == s0 + p1,
                top == s1 + c,
                d.v() == d.hi * w128() + d.lo,
                v3((top, m, p0)) == top * w256() + m * w128() + p0,
                w256() == w128() * w128(),
        ;
    }
    (top, m, p0)
}

impl BigFraction {
    pub open spec fn v(self) -> int {
        self.hi * w128() + self.lo
    }

    /// One, the initial cumulative borrow index.
    pub fn one() -> (r: BigFraction)
        ensures
            r == (BigFraction { hi: 0, lo: 0x1000_0000_0000_0000 }),
            r.v() == one(),
    {
        BigFraction { hi: 0, lo: 0x1000_0000_0000_0000 }
    }

    /// A fraction as a big fraction.
    pub fn from_fraction(f: Fraction) -> (r: BigFraction)
        ensures
            r.v() == f.bits,
    {
        BigFraction { hi: 0, lo: f.bits }
    }

    /// `self < o` as values.
    pub fn lt(&self, o: &BigFraction) -> (r: bool)
        ensures
            r == (self.v() < o.v()),
    {
        proof {
            lemma_v3_order((0u128, self.hi, self.lo), (0u128, o.hi, o.lo));
            lemma_v3_order((0u128, o.hi, o.lo), (0u128, self.hi, self.lo));
        }
        self.hi < o.hi || (self.hi == o.hi && self.lo < o.lo)
    }

    /// `self == o` as values.
    pub fn same(&self, o: &BigFraction) -> (r: bool)
        ensures
            r == (self.v() == o.v()),
    {
        proof {
            lemma_v3_order((0u128, self.hi, self.lo), (0u128, o.hi, o.lo));
            lemma_v3_order((0u128, o.hi, o.lo), (0u128, self.hi, self.lo));
        }
        self.hi == o.hi && self.lo == o.lo
    }

    /// The fixed-point product with a fraction, rounded down; `MathOverflow` beyond 256 bits.
    pub fn checked_mul_fraction(self, f: Fraction) -> (r: LendingResult<BigFraction>)
        ensures
            bres(r) == big_mul_s(self.v(), f.bits as int),
            r is Err ==> r == Err::<BigFraction, LendingError>(LendingError::MathOverflow),
    {
        let (x1, x0) = mul_wide(self.lo, f.bits);
        let (y1, y0) = mul_wide(self.hi, f.bits);
        let (s, c) = add_carry(y0, x1);
        let k60: u128 = 0x1000_0000_0000_0000;
        let k68: u128 = 0x10_0000_0000_0000_0000;
        let ghost p = self.v() * f.bits;
        proof {
            assert(p == (y1 + c) * w256() + s * w128() + x0) by (nonlinear_arith)
                requires
                    x1 * w128() + x0 == self.lo * f.bits,
                    y1 * w128() + y0 == self.hi * f.bits,
                    s + c * w128() == y0 + x1,
                    p == self.v() * f.bits,
                    self.v() == self.hi * w128() + self.lo,
                    w256() == w128() * w128(),
            ;
            assert(w128() == k68 * k60);
            assert(one() == k60);
            vstd::arithmetic::div_mod::lemma_fundamental_div_mod(x0 as int, k60 as int);
            vstd::arithmetic::div_mod::lemma_fundamental_div_mod(s as int, k60 as int);
        }
        if y1 >= k60 || y1 + c >= k60 {
            proof {
                let t = y1 + c;
                assert(p / one() >= w256()) by {
                    assert(p >= t * w256()) by (nonlinear_arith)
                        requires
                            p == t * w256() + s * w128() + x0,
                            s >= 0,
                            x0 >= 0,
                            w128() >= 0,
                    ;
                    assert(t * w256() >= k60 * w256()) by (nonlinear_arith)
                        requires
                            t >= k60,
                            w256() >= 0,
                    ;
                    assert(k60 * w256() == one() * w256());
                    vstd::arithmetic::div_mod::lemma_div_is_ordered(one() * w256(), p, one());
                    vstd::arithmetic::div_mod::lemma_div_multiples_vanish(w256(), one());
                }
            }
            return Err(LendingError::MathOverflow);
        }
        let t = y1 + c;
        let hi = t * k68 + s / k60;
        let lo = (s % k60) * k68 + x0 / k60;
        proof {
            let q = t * (k68 * w128()) + s * k68 + x0 / k60;
            assert(p == q * k60 + x0 % k60) by (nonlinear_arith)
                requires
                    p == t * w256() + s * w128() + x0,
                    x0 == k60 * (x0 / k60) + x0 % k60,
                    q == t * (k68 * w128()) + s * k68 + x0 / k60,
                    w256() == w128() * w128(),
                    w128() == k68 * k60,
            ;
            vstd::arithmetic::div_mod::lemma_fundamental_div_mod_converse(p, one(), q, (x0 % k60) as int);
            assert(q == hi * w128() + lo) by (nonlinear_arith)
                requires
                    q == t * (k68 * w128()) + s * k68 + x0 / k60,
                    s == k60 * (s / k60) + s % k60,
                    hi == t * k68 + s / k60,
                    lo == (s % k60) * k68 + x0 / k60,
                    w128() == k68 * k60,
            ;
            assert(hi < w128() && lo < w128() && q < w256()) by (nonlinear_arith)
                requires
                    0 <= t < k60,
                    0 <= s / k60 < k68,
                    0 <= s % k60 < k60,
                    0 <= x0 / k60 < k68,
                    hi == t * k68 + s / k60,
                    lo == (s % k60) * k68 + x0 / k60,
                    q == hi * w128() + lo,
                    w128() == k68 * k60,
                    w256() == w128() * w128(),
            ;
        }
        Ok(BigFraction { hi, lo })
    }

    /// `n / d` as a fraction, rounded down; `MathOverflow` for a zero divisor or a quotient
    /// beyond 128 bits.
    pub fn checked_ratio(n: BigFraction, d: BigFraction) -> (r: LendingResult<Fraction>)
        ensures
            fres(r) == big_ratio_s(n.v(), d.v()),
            math_only(r),
    {
        if d.hi == 0 && d.lo == 0 {
            return Err(LendingError::MathOverflow);
        }
        let k60: u128 = 0x1000_0000_0000_0000;
        let k68: u128 = 0x10_0000_0000_0000_0000;
        let ghost big_x = n.v() * one();
        let x: (u128, u128, u128) = (n.hi / k68, (n.hi % k68) * k60 + n.lo / k68, (n.lo % k68) * k60);
        proof {
            vstd::arithmetic::div_mod::lemma_fundamental_div_mod(n.hi as int, k68 as int);
            vstd::arithmetic::div_mod::lemma_fundamental_div_mod(n.lo as int, k68 as int);
            assert(w128() == k68 * k60);
            assert(v3(x) == big_x) by (nonlinear_arith)
                requires
                    n.hi == k68 * (n.hi / k68) + n.hi % k68,
                    n.lo == k68 * (n.lo / k68) + n.lo % k68,
                    v3(x) == x.0 * w256() + x.1 * w128() + x.2,
                    x.0 == n.hi / k68,
                    x.1 == (n.hi % k68) * k60 + n.lo / k68,
                    x.2 == (n.lo % k68) * k60,
                    big_x == n.v() * one(),
                    n.v() == n.hi * w128() + n.lo,
                    one() == k60,
                    w128() == k68 * k60,
                    w256() == w128() * w128(),
            ;
            assert(d.v() > 0);
        }
        // the quotient must be below 2^128
        let dd: (u128, u128, u128) = (d.hi, d.lo, 0);
        proof {
            assert(v3(dd) == w128() * d.v()) by (nonlinear_arith)
                requires
                    v3(dd) == dd.0 * w256() + dd.1 * w128() + dd.2,
                    dd.0 == d.hi,
                    dd.1 == d.lo,
                    dd.2 == 0,
                    d.v() == d.hi * w128() + d.lo,
                    w256() == w128() * w128(),
            ;
        }
        if le3(dd, x) {
            proof {
                vstd::arithmetic::div_mod::lemma_div_is_ordered(w128() * d.v(), big_x, d.v());
                vstd::arithmetic::div_mod::lemma_div_multiples_vanish(w128(), d.v());
                assert(w128() * d.v() == d.v() * w128()) by (nonlinear_arith);
            }
            return Err(LendingError::MathOverflow);
        }
        let mut q: u128 = 0;
        let mut bitv: u128 = 0x8000_0000_0000_0000_0000_0000_0000_0000;
        let ghost mut e: nat = 127;
        proof {
            lemma2_to64();
            lemma2_to64_rest();
            lemma_pow2_adds(63, 64);
            assert(bitv == pow2(127)) by (nonlinear_arith)
                requires
                    pow2(63) == 0x8000000000000000,
                    pow2(64) == 0x10000000000000000,
                    pow2(127) == pow2(63) * pow2(64),
                    bitv == 0x8000_0000_0000_0000_0000_0000_0000_0000u128,
            ;
        }
        while bitv > 0
            invariant
                d.v() > 0,
                v3(x) == big_x,
                big_x == n.v() * one(),
                q * d.v() <= big_x,
                bitv > 0 ==> bitv == pow2(e) && big_x < (q + 2 * bitv) * d.v() && q + 2 * bitv <= w128(),
                bitv == 0 ==> big_x < (q + 1) * d.v(),
            decreases bitv,
        {
            let cand = q + bitv;
            let prod = mul_word_big(cand, d);
            let take = le3(prod, x);
            if take {
                q = cand;
            }
            proof {
                if e > 0 {
                    lemma_pow2_unfold(e);
                }
            }
            let ghost old_bitv = bitv;
            bitv = bitv / 2;
            proof {
                if e > 0 {
                    e = (e - 1) as nat;
                    assert(2 * bitv == old_bitv);
                } else {
                    assert(old_bitv == 1) by {
                        vstd::arithmetic::power2::lemma2_to64();
                    }
                }
                assert(q * d.v() <= big_x);
                if bitv > 0 {
                    assert(big_x < (q + 2 * bitv) * d.v()) by (nonlinear_arith)
                        requires
                            take ==> q == cand,
                            !take ==> big_x < cand * d.v(),
                            !take ==> q + old_bitv == cand,
                            take ==> big_x < (cand - old_bitv + 2 * old_bitv) * d.v(),
                            2 * bitv == old_bitv,
                    ;
                } else {
                    assert(big_x < (q + 1) * d.v()) by (nonlinear_arith)
                        requires
                            take ==> q == cand,
                            !take ==> big_x < cand * d.v(),
                            !take ==> q + old_bitv == cand,
                            take ==> big_x < (cand - old_bitv + 2 * old_bitv) * d.v(),
                            old_bitv == 1,
                    ;
                }
            }
        }
        proof {
            let rem = big_x - q * d.v();
            assert((q + 1) * d.v() == q * d.v() + d.v()) by (nonlinear_arith);
            vstd::arithmetic::div_mod::lemma_fundamental_div_mod_converse(big_x, d.v(), q as int, rem);
        }
        Ok(Fraction { bits: q })
    }
}

} // verus!
