//! Exact rational numbers: an integer over a positive natural number, with
//! the real number that the fraction stands for as its view.
use crate::integer::BigInt;
use crate::natural::{gcd, lemma_gcd_divides, lemma_gcd_positive, lemma_gcd_scales, BigNat};
use crate::reals::{
    lemma_real_distrib, lemma_real_div_mul, lemma_real_div_unique, lemma_real_mul3,
    lemma_real_mul4, lemma_real_mul_assoc, lemma_real_mul_neg, lemma_real_product_nonzero,
    lemma_real_product_zero,
};
use vstd::arithmetic::div_mod::lemma_div_by_multiple;
use vstd::arithmetic::power2::{lemma_pow2_pos, pow2};
use vstd::math::abs;
use vstd::prelude::*;

verus! {

/// The quotient of two integers as a real number.
pub open spec fn ratio(n: int, d: int) -> real {
    (n as real) / (d as real)
}

proof fn lemma_cast_mul(a: int, b: int)
    ensures
        (a * b) as real == (a as real) * (b as real),
{
    assert((a * b) as real == (a as real) * (b as real)) by (nonlinear_arith);
}

/// Adding fractions: cross-multiply and add.
pub proof fn lemma_ratio_add(a: int, b: int, c: int, d: int)
    requires
        b != 0,
        d != 0,
    ensures
        b * d != 0,
        ratio(a, b) + ratio(c, d) == ratio(a * d + c * b, b * d),
{
    let ra = a as real;
    let rb = b as real;
    let rc = c as real;
    let rd = d as real;
    let x = ra / rb;
    let y = rc / rd;
    lemma_real_div_mul(ra, rb);
    lemma_real_div_mul(rc, rd);
    lemma_real_product_nonzero(rb, rd);
    lemma_cast_mul(a, d);
    lemma_cast_mul(c, b);
    lemma_cast_mul(b, d);
    lemma_real_distrib(rb * rd, x, y);
    lemma_real_mul3(x, rb, rd);
    lemma_real_mul3(y, rb, rd);
    lemma_real_div_unique(ra * rd + rc * rb, rb * rd, x + y);
}

/// Negating a fraction negates its numerator.
pub proof fn lemma_ratio_neg(a: int, b: int)
    requires
        b != 0,
    ensures
        -ratio(a, b) == ratio(-a, b),
{
    let ra = a as real;
    let rb = b as real;
    let x = ra / rb;
    lemma_real_div_mul(ra, rb);
    lemma_real_mul_neg(x, rb);
    lemma_real_div_unique(-ra, rb, -x);
}

/// Multiplying fractions: numerator by numerator, denominator by denominator.
pub proof fn lemma_ratio_mul(a: int, b: int, c: int, d: int)
    requires
        b != 0,
        d != 0,
    ensures
        b * d != 0,
        ratio(a, b) * ratio(c, d) == ratio(a * c, b * d),
{
    let ra = a as real;
    let rb = b as real;
    let rc = c as real;
    let rd = d as real;
    let x = ra / rb;
    let y = rc / rd;
    lemma_real_div_mul(ra, rb);
    lemma_real_div_mul(rc, rd);
    lemma_real_product_nonzero(rb, rd);
    lemma_cast_mul(a, c);
    lemma_cast_mul(b, d);
    lemma_real_mul4(x, y, rb, rd);
    lemma_real_div_unique(ra * rc, rb * rd, x * y);
}

/// Two fractions are equal exactly when their cross products are.
pub proof fn lemma_ratio_eq(a: int, b: int, c: int, d: int)
    requires
        b != 0,
        d != 0,
    ensures
        (ratio(a, b) == ratio(c, d)) == (a * d == c * b),
{
    let ra = a as real;
    let rb = b as real;
    let rc = c as real;
    let rd = d as real;
    let x = ra / rb;
    let y = rc / rd;
    lemma_real_div_mul(ra, rb);
    lemma_real_div_mul(rc, rd);
    lemma_cast_mul(a, d);
    lemma_cast_mul(c, b);
    assert(ra * rd == (x * rb) * rd);
    assert(rc * rb == (y * rd) * rb);
    lemma_real_mul3(x, rb, rd);
    lemma_real_mul3(y, rb, rd);
    if a * d == c * b {
        lemma_real_product_nonzero(rb, rd);
        lemma_real_div_unique(ra * rd, rb * rd, x);
        lemma_real_div_unique(rc * rb, rb * rd, y);
    }
}

/// Dividing fractions: multiply by the second one turned over.
pub proof fn lemma_ratio_div(a: int, b: int, c: int, d: int)
    requires
        b != 0,
        c != 0,
        d != 0,
    ensures
        b * c != 0,
        ratio(c, d) != 0real,
        ratio(a, b) / ratio(c, d) == ratio(a * d, b * c),
{
    let ra = a as real;
    let rb = b as real;
    let rc = c as real;
    let rd = d as real;
    let x = ra / rb;
    let y = rc / rd;
    lemma_real_div_mul(ra, rb);
    lemma_real_div_mul(rc, rd);
    assert(y != 0real) by {
        if y == 0real {
            lemma_real_product_zero(y, rd);
        }
    }
    let z = x / y;
    lemma_real_div_mul(x, y);
    lemma_real_product_nonzero(rb, rc);
    lemma_cast_mul(a, d);
    lemma_cast_mul(b, c);
    lemma_real_mul_assoc(z * y, rb, rd);
    lemma_real_mul_assoc(z, y, rb * rd);
    lemma_real_mul3(y, rb, rd);
    lemma_real_div_unique(ra * rd, rb * rc, z);
}

/// A fraction is zero exactly when its numerator is.
pub proof fn lemma_ratio_zero(a: int, b: int)
    requires
        b != 0,
    ensures
        (ratio(a, b) == 0real) == (a == 0),
{
    lemma_ratio_eq(a, b, 0, 1);
    lemma_real_div_unique(0 as real, 1 as real, 0real);
    assert(ratio(0, 1) == 0real);
    assert(a * 1 == a && 0 * b == 0) by (nonlinear_arith);
}

/// The integer that stands in a fraction for the value `x`.
proof fn lemma_ratio_whole(x: int)
    ensures
        ratio(x, 1) == x as real,
{
    lemma_real_div_unique(x as real, 1 as real, x as real);
}

/// Whether the bits of an IEEE 754 binary64 number hold a finite value.
pub open spec fn binary64_is_finite(bits: u64) -> bool {
    (bits / 0x10_0000_0000_0000) % 0x800 != 0x7ff
}

/// The significand of a finite binary64 number, with its sign.
pub open spec fn binary64_significand(bits: u64) -> int {
    let fraction = (bits % 0x10_0000_0000_0000) as int;
    let exponent = (bits / 0x10_0000_0000_0000) % 0x800;
    let magnitude = if exponent == 0 {
        fraction
    } else {
        fraction + 0x10_0000_0000_0000
    };
    if bits >= 0x8000_0000_0000_0000 {
        -magnitude
    } else {
        magnitude
    }
}

/// The power of two by which the significand of a finite binary64 number is
/// to be multiplied.
pub open spec fn binary64_exponent(bits: u64) -> int {
    let exponent = ((bits / 0x10_0000_0000_0000) % 0x800) as int;
    if exponent == 0 {
        -1074
    } else {
        exponent - 1075
    }
}

/// The value of a finite binary64 number: significand times two to the
/// exponent.
pub open spec fn binary64_value(bits: u64) -> real {
    let m = binary64_significand(bits);
    let e = binary64_exponent(bits);
    if e >= 0 {
        (m * pow2(e as nat)) as real
    } else {
        ratio(m, pow2((-e) as nat) as int)
    }
}

/// A rational number of any size. Arithmetic keeps the fraction as it was
/// computed; `reduced` brings it to lowest terms.
pub struct Rational {
    num: BigInt,
    den: BigNat,
}

impl View for Rational {
    type V = real;

    closed spec fn view(&self) -> real {
        ratio(self.num@, self.den@ as int)
    }
}

impl Clone for Rational {
    fn clone(&self) -> (r: Self)
        ensures
            r@ == self@,
    {
        proof {
            use_type_invariant(self);
        }
        Rational { num: self.num.clone(), den: self.den.clone() }
    }
}

impl Rational {
    #[verifier::type_invariant]
    spec fn positive_denominator(self) -> bool {
        self.den@ > 0
    }

    /// The number zero.
    pub fn zero() -> (r: Rational)
        ensures
            r@ == 0real,
    {
        Rational::from_i64(0)
    }

    /// The number one.
    pub fn one() -> (r: Rational)
        ensures
            r@ == 1real,
    {
        Rational::from_i64(1)
    }

    /// The whole number `n`.
    pub fn from_i64(n: i64) -> (r: Rational)
        ensures
            r@ == n as real,
    {
        proof {
            lemma_ratio_whole(n as int);
        }
        Rational { num: BigInt::from_i64(n), den: BigNat::from_u64(1) }
    }

    /// The fraction `n / d`, where `d` is not zero.
    pub fn from_ratio(n: i64, d: i64) -> (r: Option<Rational>)
        ensures
            match r {
                Some(q) => d != 0 && q@ == ratio(n as int, d as int),
                None => d == 0,
            },
    {
        if d == 0 {
            None
        } else if d > 0 {
            Some(Rational { num: BigInt::from_i64(n), den: BigNat::from_u64(d as u64) })
        } else {
            let below: u64 = (-(d + 1)) as u64;
            proof {
                lemma_ratio_eq(-(n as int), -(d as int), n as int, d as int);
                assert((-(n as int)) * (d as int) == (n as int) * (-(d as int)))
                    by (nonlinear_arith);
            }
            Some(Rational { num: BigInt::from_i64(n).neg(), den: BigNat::from_u64(below + 1) })
        }
    }

    /// The fraction with the given numerator and denominator, where the
    /// denominator is not zero.
    pub fn from_parts(num: BigInt, den: BigNat) -> (r: Option<Rational>)
        ensures
            match r {
                Some(q) => den@ != 0 && q@ == ratio(num@, den@ as int),
                None => den@ == 0,
            },
    {
        if den.is_zero() {
            None
        } else {
            Some(Rational { num, den })
        }
    }

    /// The value of an IEEE 754 binary64 number given by its bits, where that
    /// is finite.
    pub fn from_binary64_bits(bits: u64) -> (r: Option<Rational>)
        ensures
            match r {
                Some(q) => binary64_is_finite(bits) && q@ == binary64_value(bits),
                None => !binary64_is_finite(bits),
            },
    {
        let fraction: u64 = bits % 0x10_0000_0000_0000;
        let exponent: u64 = (bits / 0x10_0000_0000_0000) % 0x800;
        let negative: bool = bits >= 0x8000_0000_0000_0000;
        if exponent == 0x7ff {
            return None;
        }
        let magnitude: u64 = if exponent == 0 { fraction } else { fraction + 0x10_0000_0000_0000 };
        let scale: u64 = if exponent == 0 { 1 } else { exponent };
        let mag = BigNat::from_u64(magnitude);
        let unit = BigNat::from_u64(1);
        if scale >= 1075 {
            let up: usize = (scale - 1075) as usize;
            let num = BigInt::from_parts(negative, mag.mul_pow2(up));
            proof {
                let m = magnitude as int;
                let p = pow2(up as nat) as int;
                assert((-m) * p == -(m * p)) by (nonlinear_arith);
                lemma_ratio_whole(binary64_significand(bits) * p);
            }
            Some(Rational { num, den: unit })
        } else {
            let down: usize = (1075 - scale) as usize;
            let den = unit.mul_pow2(down);
            proof {
                lemma_pow2_pos(down as nat);
                assert(1 * pow2(down as nat) == pow2(down as nat)) by (nonlinear_arith);
            }
            Some(Rational { num: BigInt::from_parts(negative, mag), den })
        }
    }

    /// The numerator of the fraction that holds this number.
    pub closed spec fn spec_numerator(&self) -> int {
        self.num@
    }

    /// The denominator of the fraction that holds this number.
    pub closed spec fn spec_denominator(&self) -> nat {
        self.den@
    }

    /// The numerator of the fraction that holds this number.
    pub fn numerator(&self) -> (r: &BigInt)
        ensures
            r@ == self.spec_numerator(),
            self@ == ratio(self.spec_numerator(), self.spec_denominator() as int),
    {
        &self.num
    }

    /// The denominator of the fraction that holds this number, which is not
    /// zero.
    pub fn denominator(&self) -> (r: &BigNat)
        ensures
            r@ == self.spec_denominator(),
            r@ > 0,
    {
        proof {
            use_type_invariant(self);
        }
        &self.den
    }

    /// Whether this number is zero.
    pub fn is_zero(&self) -> (r: bool)
        ensures
            r == (self@ == 0real),
    {
        proof {
            use_type_invariant(self);
            lemma_ratio_zero(self.num@, self.den@ as int);
        }
        self.num.is_zero()
    }

    /// Whether the two numbers are equal.
    pub fn eq(&self, other: &Rational) -> (r: bool)
        ensures
            r == (self@ == other@),
    {
        proof {
            use_type_invariant(self);
            use_type_invariant(other);
            lemma_ratio_eq(self.num@, self.den@ as int, other.num@, other.den@ as int);
        }
        self.num.scale(&other.den).eq(&other.num.scale(&self.den))
    }

    /// This number as a fraction in lowest terms.
    pub fn reduced(&self) -> (r: Rational)
        ensures
            r@ == self@,
            gcd(abs(r.spec_numerator()) as nat, r.spec_denominator()) == 1,
    {
        proof {
            use_type_invariant(self);
        }
        let common = self.num.magnitude().gcd(&self.den);
        let ghost a = abs(self.num@) as nat;
        let ghost b = self.den@;
        let ghost g = gcd(a, b);
        let ghost k = lemma_gcd_divides(a, b);
        proof {
            lemma_gcd_positive(a, b);
            lemma_div_by_multiple(k.0 as int, g as int);
            lemma_div_by_multiple(k.1 as int, g as int);
            lemma_gcd_scales(g, k.0, k.1);
            assert(g * k.0 == k.0 * g && g * k.1 == k.1 * g) by (nonlinear_arith);
            assert(gcd(k.0, k.1) == 1) by (nonlinear_arith)
                requires
                    g == g * gcd(k.0, k.1),
                    g > 0,
            ;
            assert(k.1 > 0) by (nonlinear_arith)
                requires
                    b == k.1 * g,
                    b > 0,
            ;
            let top: int = if self.num@ < 0 { -(k.0 as int) } else { k.0 as int };
            if self.num@ < 0 {
                assert(top * b == self.num@ * k.1) by (nonlinear_arith)
                    requires
                        top == -(k.0 as int),
                        self.num@ == -(a as int),
                        a == k.0 * g,
                        b == k.1 * g,
                ;
            } else {
                assert(top * b == self.num@ * k.1) by (nonlinear_arith)
                    requires
                        top == k.0,
                        self.num@ == a,
                        a == k.0 * g,
                        b == k.1 * g,
                ;
            }
            lemma_ratio_eq(top, k.1 as int, self.num@, b as int);
        }
        let (num, _) = self.num.magnitude().div_rem(&common).unwrap();
        let (den, _) = self.den.div_rem(&common).unwrap();
        Rational { num: BigInt::from_parts(self.num.is_negative(), num), den }
    }

    /// Half of this number.
    pub fn half(&self) -> (r: Rational)
        ensures
            r@ == self@ / 2real,
    {
        proof {
            use_type_invariant(self);
            lemma_ratio_div(self.num@, self.den@ as int, 2, 1);
            lemma_ratio_whole(2);
            assert(self.num@ * 1 == self.num@) by (nonlinear_arith);
        }
        let two = BigNat::from_u64(2);
        Rational { num: self.num.clone(), den: self.den.mul(&two) }
    }

    /// The number of opposite sign.
    pub fn neg(&self) -> (r: Rational)
        ensures
            r@ == -self@,
    {
        proof {
            use_type_invariant(self);
            lemma_ratio_neg(self.num@, self.den@ as int);
        }
        Rational { num: self.num.neg(), den: self.den.clone() }
    }

    /// The sum of two numbers.
    pub fn add(&self, other: &Rational) -> (r: Rational)
        ensures
            r@ == self@ + other@,
    {
        proof {
            use_type_invariant(self);
            use_type_invariant(other);
            lemma_ratio_add(self.num@, self.den@ as int, other.num@, other.den@ as int);
        }
        let num = self.num.scale(&other.den).add(&other.num.scale(&self.den));
        let den = self.den.mul(&other.den);
        Rational { num, den }
    }

    /// The difference of two numbers.
    pub fn sub(&self, other: &Rational) -> (r: Rational)
        ensures
            r@ == self@ - other@,
    {
        let minus = other.neg();
        self.add(&minus)
    }

    /// The product of two numbers.
    pub fn mul(&self, other: &Rational) -> (r: Rational)
        ensures
            r@ == self@ * other@,
    {
        proof {
            use_type_invariant(self);
            use_type_invariant(other);
            lemma_ratio_mul(self.num@, self.den@ as int, other.num@, other.den@ as int);
        }
        let num = self.num.mul(&other.num);
        let den = self.den.mul(&other.den);
        Rational { num, den }
    }

    /// The quotient of two numbers, where the divisor is not zero.
    pub fn div(&self, other: &Rational) -> (r: Option<Rational>)
        ensures
            match r {
                Some(q) => other@ != 0real && q@ == self@ / other@,
                None => other@ == 0real,
            },
    {
        proof {
            use_type_invariant(self);
            use_type_invariant(other);
            lemma_ratio_zero(other.num@, other.den@ as int);
        }
        if other.num.is_zero() {
            return None;
        }
        let den = self.den.mul(other.num.magnitude());
        let up = self.num.scale(&other.den);
        let num = if other.num.is_negative() { up.neg() } else { up };
        proof {
            let a = self.num@;
            let b = self.den@ as int;
            let c = other.num@;
            let d = other.den@ as int;
            lemma_ratio_div(a, b, c, d);
            if c < 0 {
                assert(b * (-c) != 0) by (nonlinear_arith)
                    requires
                        b != 0,
                        c != 0,
                ;
                lemma_ratio_eq(-(a * d), b * (-c), a * d, b * c);
                assert((-(a * d)) * (b * c) == (a * d) * (b * (-c))) by (nonlinear_arith);
            }
        }
        Some(Rational { num, den })
    }
}

} // verus!
