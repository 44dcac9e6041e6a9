//! Integers of unbounded size: a sign and a magnitude.
use crate::natural::BigNat;
use vstd::prelude::*;

verus! {

/// An integer of any size. Zero may carry either sign.
pub struct BigInt {
    negative: bool,
    magnitude: BigNat,
}

/// The integer with the given sign and magnitude.
pub open spec fn signed(negative: bool, magnitude: nat) -> int {
    if negative {
        -(magnitude as int)
    } else {
        magnitude as int
    }
}

impl View for BigInt {
    type V = int;

    closed spec fn view(&self) -> int {
        signed(self.negative, self.magnitude@)
    }
}

impl Clone for BigInt {
    fn clone(&self) -> (r: Self)
        ensures
            r@ == self@,
    {
        BigInt { negative: self.negative, magnitude: self.magnitude.clone() }
    }
}

impl BigInt {
    /// The integer zero.
    pub fn zero() -> (r: BigInt)
        ensures
            r@ == 0,
    {
        BigInt { negative: false, magnitude: BigNat::zero() }
    }

    /// The integer `x`.
    pub fn from_i64(x: i64) -> (r: BigInt)
        ensures
            r@ == x,
    {
        if x >= 0 {
            BigInt { negative: false, magnitude: BigNat::from_u64(x as u64) }
        } else {
            let below: u64 = (-(x + 1)) as u64;
            BigInt { negative: true, magnitude: BigNat::from_u64(below + 1) }
        }
    }

    /// The integer with the given sign and magnitude.
    pub fn from_parts(negative: bool, magnitude: BigNat) -> (r: BigInt)
        ensures
            r@ == signed(negative, magnitude@),
    {
        BigInt { negative, magnitude }
    }

    /// The absolute value.
    pub fn magnitude(&self) -> (r: &BigNat)
        ensures
            r@ == if self@ < 0 { -self@ } else { self@ },
    {
        &self.magnitude
    }

    /// Whether this integer is zero.
    pub fn is_zero(&self) -> (r: bool)
        ensures
            r == (self@ == 0),
    {
        self.magnitude.is_zero()
    }

    /// Whether this integer is below zero.
    pub fn is_negative(&self) -> (r: bool)
        ensures
            r == (self@ < 0),
    {
        self.negative && !self.magnitude.is_zero()
    }

    /// The integer of opposite sign.
    pub fn neg(&self) -> (r: BigInt)
        ensures
            r@ == -self@,
    {
        BigInt { negative: !self.negative, magnitude: self.magnitude.clone() }
    }

    /// The sum of two integers.
    pub fn add(&self, other: &BigInt) -> (r: BigInt)
        ensures
            r@ == self@ + other@,
    {
        if self.negative == other.negative {
            BigInt { negative: self.negative, magnitude: self.magnitude.add(&other.magnitude) }
        } else {
            let (d, turned) = self.magnitude.abs_diff(&other.magnitude);
            if turned {
                BigInt { negative: other.negative, magnitude: d }
            } else {
                BigInt { negative: self.negative, magnitude: d }
            }
        }
    }

    /// The difference of two integers.
    pub fn sub(&self, other: &BigInt) -> (r: BigInt)
        ensures
            r@ == self@ - other@,
    {
        let minus = other.neg();
        self.add(&minus)
    }

    /// The product of two integers.
    pub fn mul(&self, other: &BigInt) -> (r: BigInt)
        ensures
            r@ == self@ * other@,
    {
        let m = self.magnitude.mul(&other.magnitude);
        proof {
            let a = self.magnitude@ as int;
            let b = other.magnitude@ as int;
            assert((-a) * b == -(a * b) && a * (-b) == -(a * b) && (-a) * (-b) == a * b)
                by (nonlinear_arith);
        }
        BigInt { negative: self.negative != other.negative, magnitude: m }
    }

    /// The product of this integer and a natural number.
    pub fn scale(&self, factor: &BigNat) -> (r: BigInt)
        ensures
            r@ == self@ * factor@,
    {
        let m = self.magnitude.mul(factor);
        proof {
            let a = self.magnitude@ as int;
            let b = factor@ as int;
            assert((-a) * b == -(a * b)) by (nonlinear_arith);
        }
        BigInt { negative: self.negative, magnitude: m }
    }

    /// Whether the two integers are equal.
    pub fn eq(&self, other: &BigInt) -> (r: bool)
        ensures
            r == (self@ == other@),
    {
        self.sub(other).is_zero()
    }

    /// Whether this integer is less than `other`.
    pub fn lt(&self, other: &BigInt) -> (r: bool)
        ensures
            r == (self@ < other@),
    {
        self.sub(other).is_negative()
    }
}

} // verus!
