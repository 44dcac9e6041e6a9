//! Natural numbers of unbounded size, held as little-endian limbs of 32 bits.
//!
//! Every vector of limbs is a valid number; leading zero limbs are allowed and
//! do not change the value.
use vstd::arithmetic::div_mod::{
    lemma_fundamental_div_mod, lemma_fundamental_div_mod_converse, lemma_mod_bound,
    lemma_truncate_middle,
};
use vstd::arithmetic::power2::{
    lemma2_to64, lemma_pow2_adds, lemma_pow2_pos, lemma_pow2_unfold, pow2,
};
use vstd::bits::lemma_u32_shl_is_mul;
use vstd::prelude::*;

verus! {

/// The weight of limb number `n`: 2^(32 n).
pub open spec fn radix_pow(n: nat) -> nat
    decreases n,
{
    if n == 0 {
        1
    } else {
        0x1_0000_0000 * radix_pow((n - 1) as nat)
    }
}

/// Limb `i` of `s`, or zero past its end.
pub open spec fn limb_at(s: Seq<u32>, i: int) -> nat {
    if 0 <= i < s.len() {
        s[i] as nat
    } else {
        0
    }
}

/// The number that the first `n` limbs of `s` stand for.
pub open spec fn prefix_value(s: Seq<u32>, n: nat) -> nat
    decreases n,
{
    if n == 0 {
        0
    } else {
        prefix_value(s, (n - 1) as nat) + limb_at(s, n - 1) * radix_pow((n - 1) as nat)
    }
}

/// The number that the limbs `s` stand for: the sum of `s[i] * 2^(32 i)`.
pub open spec fn limbs_value(s: Seq<u32>) -> nat {
    prefix_value(s, s.len())
}

proof fn lemma_radix_pow_positive(n: nat)
    ensures
        radix_pow(n) > 0,
    decreases n,
{
    if n > 0 {
        lemma_radix_pow_positive((n - 1) as nat);
        assert(0x1_0000_0000 * radix_pow((n - 1) as nat) > 0) by (nonlinear_arith)
            requires
                radix_pow((n - 1) as nat) > 0,
        ;
    }
}

proof fn lemma_radix_pow_add(a: nat, b: nat)
    ensures
        radix_pow(a + b) == radix_pow(a) * radix_pow(b),
    decreases b,
{
    if b == 0 {
        assert(radix_pow(a) * 1 == radix_pow(a)) by (nonlinear_arith);
    } else {
        lemma_radix_pow_add(a, (b - 1) as nat);
        let p = radix_pow(a);
        let q = radix_pow((b - 1) as nat);
        assert(radix_pow(a + b) == 0x1_0000_0000 * radix_pow((a + b - 1) as nat));
        assert(0x1_0000_0000 * (p * q) == p * (0x1_0000_0000 * q)) by (nonlinear_arith);
    }
}

proof fn lemma_radix_pow_is_pow2(n: nat)
    ensures
        radix_pow(n) == pow2(32 * n),
    decreases n,
{
    if n == 0 {
        lemma2_to64();
    } else {
        lemma_radix_pow_is_pow2((n - 1) as nat);
        lemma_pow2_adds(32, (32 * (n - 1)) as nat);
        lemma2_to64();
    }
}

proof fn lemma_prefix_past_end(s: Seq<u32>, n: nat)
    requires
        n >= s.len(),
    ensures
        prefix_value(s, n) == limbs_value(s),
    decreases n,
{
    if n > s.len() {
        lemma_prefix_past_end(s, (n - 1) as nat);
        assert(limb_at(s, n - 1) * radix_pow((n - 1) as nat) == 0) by (nonlinear_arith)
            requires
                limb_at(s, n - 1) == 0,
        ;
    }
}

proof fn lemma_prefix_push(s: Seq<u32>, x: u32, n: nat)
    requires
        n <= s.len(),
    ensures
        prefix_value(s.push(x), n) == prefix_value(s, n),
    decreases n,
{
    if n > 0 {
        lemma_prefix_push(s, x, (n - 1) as nat);
    }
}

proof fn lemma_value_push(s: Seq<u32>, x: u32)
    ensures
        limbs_value(s.push(x)) == limbs_value(s) + x * radix_pow(s.len()),
{
    lemma_prefix_push(s, x, s.len());
}

proof fn lemma_prefix_bound(s: Seq<u32>, n: nat)
    ensures
        prefix_value(s, n) < radix_pow(n),
    decreases n,
{
    if n > 0 {
        lemma_prefix_bound(s, (n - 1) as nat);
        let p = radix_pow((n - 1) as nat);
        let l = limb_at(s, n - 1);
        assert(l * p <= 0xffff_ffff * p) by (nonlinear_arith)
            requires
                l <= 0xffff_ffff,
        ;
    }
}

proof fn lemma_prefix_zero(s: Seq<u32>, n: nat)
    requires
        forall|j: int| 0 <= j < n ==> limb_at(s, j) == 0,
    ensures
        prefix_value(s, n) == 0,
    decreases n,
{
    if n > 0 {
        lemma_prefix_zero(s, (n - 1) as nat);
        assert(limb_at(s, n - 1) * radix_pow((n - 1) as nat) == 0) by (nonlinear_arith)
            requires
                limb_at(s, n - 1) == 0,
        ;
    }
}

proof fn lemma_prefix_nonzero(s: Seq<u32>, n: nat, j: int)
    requires
        0 <= j < n,
        limb_at(s, j) != 0,
    ensures
        prefix_value(s, n) > 0,
    decreases n,
{
    if j == n - 1 {
        lemma_radix_pow_positive((n - 1) as nat);
        assert(limb_at(s, n - 1) * radix_pow((n - 1) as nat) > 0) by (nonlinear_arith)
            requires
                limb_at(s, n - 1) > 0,
                radix_pow((n - 1) as nat) > 0,
        ;
    } else {
        lemma_prefix_nonzero(s, (n - 1) as nat, j);
    }
}

/// One column of a schoolbook operation: a digit `lo` and a carry `hi` that
/// together make `t` keep the running sum.
proof fn lemma_column(p: nat, lo: nat, hi: nat, t: nat)
    requires
        t == hi * 0x1_0000_0000 + lo,
    ensures
        lo * p + hi * (0x1_0000_0000 * p) == t * p,
{
    assert(lo * p + hi * (0x1_0000_0000 * p) == (hi * 0x1_0000_0000 + lo) * p)
        by (nonlinear_arith);
}

/// The greatest common divisor of two numbers, by Euclid's rule. Of zero and
/// zero it is zero.
pub open spec fn gcd(a: nat, b: nat) -> nat
    decreases b,
{
    if b == 0 {
        a
    } else {
        gcd(b, a % b)
    }
}

/// The greatest common divisor is not zero unless both numbers are.
pub proof fn lemma_gcd_positive(a: nat, b: nat)
    requires
        a > 0 || b > 0,
    ensures
        gcd(a, b) > 0,
    decreases b,
{
    if b > 0 {
        lemma_gcd_positive(b, a % b);
    }
}

/// The greatest common divisor divides both numbers: the result holds the
/// two quotients.
pub proof fn lemma_gcd_divides(a: nat, b: nat) -> (k: (nat, nat))
    ensures
        a == k.0 * gcd(a, b),
        b == k.1 * gcd(a, b),
    decreases b,
{
    if b == 0 {
        assert(a == 1 * a && 0 == 0 * a) by (nonlinear_arith);
        (1, 0)
    } else {
        let g = gcd(a, b);
        let rest = lemma_gcd_divides(b, a % b);
        let q = a / b;
        lemma_fundamental_div_mod(a as int, b as int);
        assert(a == (q * rest.0 + rest.1) * g) by (nonlinear_arith)
            requires
                a == b * q + a % b,
                b == rest.0 * g,
                a % b == rest.1 * g,
        ;
        (q * rest.0 + rest.1, rest.0)
    }
}

/// A common factor of two numbers is a factor of their greatest common
/// divisor.
pub proof fn lemma_gcd_scales(k: nat, a: nat, b: nat)
    requires
        k > 0,
    ensures
        gcd(k * a, k * b) == k * gcd(a, b),
    decreases b,
{
    if b == 0 {
        assert(k * b == 0) by (nonlinear_arith)
            requires
                b == 0,
        ;
    } else {
        assert(k * b > 0) by (nonlinear_arith)
            requires
                k > 0,
                b > 0,
        ;
        lemma_truncate_middle(a as int, k as int, b as int);
        lemma_gcd_scales(k, b, a % b);
    }
}

/// How many numbers lie from `low` up to `high`: none where `low` is the
/// larger one.
pub open spec fn room_above(low: nat, high: nat) -> nat {
    if low <= high {
        (high - low + 1) as nat
    } else {
        0
    }
}

/// A natural number of any size.
pub struct BigNat {
    limbs: Vec<u32>,
}

impl View for BigNat {
    type V = nat;

    closed spec fn view(&self) -> nat {
        limbs_value(self.limbs@)
    }
}

impl Clone for BigNat {
    fn clone(&self) -> (r: Self)
        ensures
            r@ == self@,
    {
        let limbs = self.limbs.clone();
        assert(limbs@ =~= self.limbs@);
        BigNat { limbs }
    }
}

impl BigNat {
    /// The number that `limbs` stand for, without its zero limbs at the top.
    fn trimmed(limbs: Vec<u32>) -> (r: BigNat)
        ensures
            r@ == limbs_value(limbs@),
    {
        let mut kept = limbs;
        let ghost value = limbs_value(kept@);
        while kept.len() > 0 && kept[kept.len() - 1] == 0
            invariant
                limbs_value(kept@) == value,
            decreases kept.len(),
        {
            proof {
                let rest = kept@.drop_last();
                lemma_value_push(rest, 0u32);
                assert(rest.push(0u32) =~= kept@);
                assert(0 * radix_pow(rest.len()) == 0) by (nonlinear_arith);
            }
            kept.pop();
        }
        BigNat { limbs: kept }
    }

    /// The number zero.
    pub fn zero() -> (r: BigNat)
        ensures
            r@ == 0,
    {
        BigNat { limbs: Vec::new() }
    }

    /// The number `x`.
    pub fn from_u64(x: u64) -> (r: BigNat)
        ensures
            r@ == x,
    {
        let lo: u32 = (x % 0x1_0000_0000) as u32;
        let hi: u32 = (x / 0x1_0000_0000) as u32;
        let mut limbs: Vec<u32> = Vec::new();
        limbs.push(lo);
        limbs.push(hi);
        proof {
            let s0 = Seq::<u32>::empty();
            lemma_value_push(s0, lo);
            lemma_value_push(s0.push(lo), hi);
            assert(limbs@ =~= s0.push(lo).push(hi));
            assert(limbs_value(s0) == 0);
            assert(radix_pow(0) == 1);
            assert(radix_pow(1) == 0x1_0000_0000 * radix_pow(0));
            assert(lo * 1 + hi * 0x1_0000_0000 == x) by (nonlinear_arith)
                requires
                    lo == x % 0x1_0000_0000,
                    hi == x / 0x1_0000_0000,
            ;
        }
        BigNat::trimmed(limbs)
    }

    /// The number whose little-endian limbs are `limbs`.
    pub fn from_limbs(limbs: Vec<u32>) -> (r: BigNat)
        ensures
            r@ == limbs_value(limbs@),
    {
        BigNat { limbs }
    }

    /// The little-endian limbs of this number.
    pub fn limbs(&self) -> (r: &Vec<u32>)
        ensures
            limbs_value(r@) == self@,
    {
        &self.limbs
    }

    /// Whether this number is zero.
    pub fn is_zero(&self) -> (r: bool)
        ensures
            r == (self@ == 0),
    {
        let n: usize = self.limbs.len();
        let mut i: usize = 0;
        while i < n
            invariant
                i <= n,
                n == self.limbs@.len(),
                forall|j: int| 0 <= j < i ==> limb_at(self.limbs@, j) == 0,
            decreases n - i,
        {
            if self.limbs[i] != 0 {
                proof {
                    lemma_prefix_nonzero(self.limbs@, n as nat, i as int);
                }
                return false;
            }
            i += 1;
        }
        proof {
            lemma_prefix_zero(self.limbs@, n as nat);
        }
        true
    }

    /// The sum of two numbers.
    pub fn add(&self, other: &BigNat) -> (r: BigNat)
        ensures
            r@ == self@ + other@,
    {
        let la: usize = self.limbs.len();
        let lb: usize = other.limbs.len();
        let n: usize = if la >= lb { la } else { lb };
        let mut out: Vec<u32> = Vec::new();
        let mut carry: u64 = 0;
        let mut i: usize = 0;
        while i < n
            invariant
                i <= n,
                la == self.limbs@.len(),
                lb == other.limbs@.len(),
                out@.len() == i,
                carry <= 1,
                limbs_value(out@) + carry * radix_pow(i as nat) == prefix_value(
                    self.limbs@,
                    i as nat,
                ) + prefix_value(other.limbs@, i as nat),
            decreases n - i,
        {
            let a: u64 = if i < la { self.limbs[i] as u64 } else { 0 };
            let b: u64 = if i < lb { other.limbs[i] as u64 } else { 0 };
            let sum: u64 = a + b + carry;
            let lo: u32 = (sum % 0x1_0000_0000) as u32;
            let hi: u64 = sum / 0x1_0000_0000;
            proof {
                let p = radix_pow(i as nat);
                lemma_value_push(out@, lo);
                lemma_column(p, lo as nat, hi as nat, sum as nat);
                assert(sum * p == a * p + b * p + carry * p) by (nonlinear_arith)
                    requires
                        sum == a + b + carry,
                ;
                assert(a == limb_at(self.limbs@, i as int));
                assert(b == limb_at(other.limbs@, i as int));
            }
            out.push(lo);
            carry = hi;
            i += 1;
        }
        proof {
            lemma_value_push(out@, carry as u32);
            lemma_prefix_past_end(self.limbs@, n as nat);
            lemma_prefix_past_end(other.limbs@, n as nat);
        }
        out.push(carry as u32);
        BigNat::trimmed(out)
    }

    /// The difference of two numbers, taken in whichever direction is not
    /// negative, and whether it had to be turned round.
    pub fn abs_diff(&self, other: &BigNat) -> (r: (BigNat, bool))
        ensures
            r.1 == (self@ < other@),
            r.1 ==> r.0@ == other@ - self@,
            !r.1 ==> r.0@ == self@ - other@,
    {
        let (d, borrow) = self.sub_wrapping(other);
        if borrow {
            let (e, _) = other.sub_wrapping(self);
            (e, true)
        } else {
            (d, false)
        }
    }

    /// Whether this number is less than `other`.
    pub fn lt(&self, other: &BigNat) -> (r: bool)
        ensures
            r == (self@ < other@),
    {
        let (_, borrow) = self.sub_wrapping(other);
        borrow
    }

    /// Whether the two numbers are equal.
    pub fn eq(&self, other: &BigNat) -> (r: bool)
        ensures
            r == (self@ == other@),
    {
        let (d, borrow) = self.sub_wrapping(other);
        !borrow && d.is_zero()
    }

    /// Limb-wise subtraction over the longer of the two lengths. The borrow
    /// that is left says whether `self` is the smaller one; where it is not,
    /// the limbs hold the difference.
    fn sub_wrapping(&self, other: &BigNat) -> (r: (BigNat, bool))
        ensures
            r.1 == (self@ < other@),
            !r.1 ==> r.0@ == self@ - other@,
    {
        let la: usize = self.limbs.len();
        let lb: usize = other.limbs.len();
        let n: usize = if la >= lb { la } else { lb };
        let mut out: Vec<u32> = Vec::new();
        let mut borrow: u64 = 0;
        let mut i: usize = 0;
        while i < n
            invariant
                i <= n,
                la == self.limbs@.len(),
                lb == other.limbs@.len(),
                out@.len() == i,
                borrow <= 1,
                limbs_value(out@) + prefix_value(other.limbs@, i as nat) == prefix_value(
                    self.limbs@,
                    i as nat,
                ) + borrow * radix_pow(i as nat),
            decreases n - i,
        {
            let a: u64 = if i < la { self.limbs[i] as u64 } else { 0 };
            let b: u64 = if i < lb { other.limbs[i] as u64 } else { 0 };
            let need: u64 = b + borrow;
            let next: u64 = if a >= need { 0 } else { 1 };
            let d: u32 = if a >= need { (a - need) as u32 } else { (a + 0x1_0000_0000 - need) as u32 };
            proof {
                let p = radix_pow(i as nat);
                lemma_value_push(out@, d);
                assert(a == limb_at(self.limbs@, i as int));
                assert(b == limb_at(other.limbs@, i as int));
                assert(d * p + b * p + borrow * p == a * p + next * (0x1_0000_0000 * p))
                    by (nonlinear_arith)
                    requires
                        d + b + borrow == a + next * 0x1_0000_0000,
                ;
            }
            out.push(d);
            borrow = next;
            i += 1;
        }
        proof {
            lemma_prefix_past_end(self.limbs@, n as nat);
            lemma_prefix_past_end(other.limbs@, n as nat);
            lemma_prefix_bound(out@, n as nat);
            assert(borrow * radix_pow(n as nat) == if borrow == 0 {
                0
            } else {
                radix_pow(n as nat)
            }) by (nonlinear_arith)
                requires
                    borrow <= 1,
            ;
        }
        (BigNat::trimmed(out), borrow == 1)
    }

    /// The product of this number and one limb.
    fn mul_limb(&self, k: u32) -> (r: BigNat)
        ensures
            r@ == self@ * k,
    {
        let n: usize = self.limbs.len();
        let mut out: Vec<u32> = Vec::new();
        let mut carry: u64 = 0;
        let mut i: usize = 0;
        assert(prefix_value(self.limbs@, 0) * k == 0) by (nonlinear_arith)
            requires
                prefix_value(self.limbs@, 0) == 0,
        ;
        while i < n
            invariant
                i <= n,
                n == self.limbs@.len(),
                out@.len() == i,
                carry <= 0xffff_ffff,
                limbs_value(out@) + carry * radix_pow(i as nat) == prefix_value(
                    self.limbs@,
                    i as nat,
                ) * k,
            decreases n - i,
        {
            let a: u64 = self.limbs[i] as u64;
            assert(a * k <= 0xffff_ffff * 0xffff_ffff) by (nonlinear_arith)
                requires
                    a <= 0xffff_ffff,
                    k <= 0xffff_ffff,
            ;
            let t: u64 = a * (k as u64) + carry;
            let lo: u32 = (t % 0x1_0000_0000) as u32;
            let hi: u64 = t / 0x1_0000_0000;
            proof {
                let p = radix_pow(i as nat);
                let v = prefix_value(self.limbs@, i as nat);
                lemma_value_push(out@, lo);
                lemma_column(p, lo as nat, hi as nat, t as nat);
                assert(t * p == (a * k) * p + carry * p) by (nonlinear_arith)
                    requires
                        t == a * k + carry,
                ;
                assert((v + a * p) * k == v * k + (a * k) * p) by (nonlinear_arith);
                assert(a == limb_at(self.limbs@, i as int));
            }
            out.push(lo);
            carry = hi;
            i += 1;
        }
        proof {
            lemma_value_push(out@, carry as u32);
        }
        out.push(carry as u32);
        BigNat::trimmed(out)
    }

    /// This number moved up by `count` whole limbs.
    fn shift_limbs(&self, count: usize) -> (r: BigNat)
        ensures
            r@ == self@ * radix_pow(count as nat),
    {
        let n: usize = self.limbs.len();
        let mut out: Vec<u32> = Vec::new();
        let mut z: usize = 0;
        while z < count
            invariant
                z <= count,
                out@.len() == z,
                limbs_value(out@) == 0,
            decreases count - z,
        {
            proof {
                lemma_value_push(out@, 0u32);
                assert(0 * radix_pow(z as nat) == 0) by (nonlinear_arith);
            }
            out.push(0u32);
            z += 1;
        }
        let mut i: usize = 0;
        assert(prefix_value(self.limbs@, 0) * radix_pow(count as nat) == 0) by (nonlinear_arith)
            requires
                prefix_value(self.limbs@, 0) == 0,
        ;
        while i < n
            invariant
                i <= n,
                n == self.limbs@.len(),
                out@.len() == count + i,
                limbs_value(out@) == prefix_value(self.limbs@, i as nat) * radix_pow(count as nat),
            decreases n - i,
        {
            let a: u32 = self.limbs[i];
            proof {
                let c = radix_pow(count as nat);
                let p = radix_pow(i as nat);
                let v = prefix_value(self.limbs@, i as nat);
                lemma_value_push(out@, a);
                lemma_radix_pow_add(count as nat, i as nat);
                assert((v + a * p) * c == v * c + a * (c * p)) by (nonlinear_arith);
                assert(a == limb_at(self.limbs@, i as int));
            }
            out.push(a);
            i += 1;
        }
        BigNat { limbs: out }
    }

    /// The product of two numbers.
    pub fn mul(&self, other: &BigNat) -> (r: BigNat)
        ensures
            r@ == self@ * other@,
    {
        let n: usize = other.limbs.len();
        let mut acc: BigNat = BigNat::zero();
        let mut i: usize = 0;
        assert(self@ * prefix_value(other.limbs@, 0) == 0) by (nonlinear_arith)
            requires
                prefix_value(other.limbs@, 0) == 0,
        ;
        while i < n
            invariant
                i <= n,
                n == other.limbs@.len(),
                acc@ == self@ * prefix_value(other.limbs@, i as nat),
            decreases n - i,
        {
            let k: u32 = other.limbs[i];
            let row = self.mul_limb(k).shift_limbs(i);
            proof {
                let p = radix_pow(i as nat);
                let v = prefix_value(other.limbs@, i as nat);
                let a = self@;
                assert(a * (v + k * p) == a * v + (a * k) * p) by (nonlinear_arith);
                assert(k == limb_at(other.limbs@, i as int));
            }
            acc = acc.add(&row);
            i += 1;
        }
        acc
    }

    /// The quotient and the remainder of this number by `divisor`, where
    /// that is not zero.
    pub fn div_rem(&self, divisor: &BigNat) -> (r: Option<(BigNat, BigNat)>)
        ensures
            match r {
                Some((quotient, remainder)) => divisor@ != 0 && quotient@ == self@ / divisor@
                    && remainder@ == self@ % divisor@,
                None => divisor@ == 0,
            },
    {
        if divisor.is_zero() {
            return None;
        }
        // The divisor doubled again and again, until it is more than this
        // number, and the powers of two that go with it.
        let mut multiples: Vec<BigNat> = Vec::new();
        let mut weights: Vec<BigNat> = Vec::new();
        multiples.push(divisor.clone());
        weights.push(BigNat::from_u64(1));
        proof {
            lemma2_to64();
            assert(divisor@ * 1 == divisor@) by (nonlinear_arith);
        }
        while !self.lt(&multiples[multiples.len() - 1])
            invariant
                divisor@ > 0,
                multiples@.len() >= 1,
                multiples@.len() == weights@.len(),
                forall|k: int|
                    0 <= k < multiples@.len() ==> (#[trigger] multiples@[k])@ == divisor@ * pow2(
                        k as nat,
                    ),
                forall|k: int| 0 <= k < weights@.len() ==> (#[trigger] weights@[k])@ == pow2(k as nat),
            decreases room_above(multiples@[multiples@.len() - 1]@, self@),
        {
            let top: usize = multiples.len() - 1;
            let multiple = multiples[top].add(&multiples[top]);
            let weight = weights[top].add(&weights[top]);
            proof {
                let p = pow2(top as nat);
                lemma_pow2_unfold((top + 1) as nat);
                lemma_pow2_pos(top as nat);
                assert(divisor@ * p + divisor@ * p == divisor@ * (2 * p)) by (nonlinear_arith);
                assert(divisor@ * p > 0) by (nonlinear_arith)
                    requires
                        divisor@ > 0,
                        p > 0,
                ;
                assert(multiples@[top as int]@ == divisor@ * p);
                assert(multiples@[top as int]@ <= self@);
            }
            let ghost doubled = multiple@;
            multiples.push(multiple);
            weights.push(weight);
            assert(multiples@[multiples@.len() - 1]@ == doubled);
        }
        // Take the multiples away again, the largest first.
        let mut quotient = BigNat::zero();
        let mut remainder = self.clone();
        let mut i: usize = multiples.len() - 1;
        proof {
            assert(0 * divisor@ == 0) by (nonlinear_arith);
        }
        while i > 0
            invariant
                divisor@ > 0,
                i < multiples@.len(),
                multiples@.len() == weights@.len(),
                forall|k: int|
                    0 <= k < multiples@.len() ==> (#[trigger] multiples@[k])@ == divisor@ * pow2(
                        k as nat,
                    ),
                forall|k: int| 0 <= k < weights@.len() ==> (#[trigger] weights@[k])@ == pow2(k as nat),
                self@ == quotient@ * divisor@ + remainder@,
                remainder@ < divisor@ * pow2(i as nat),
            decreases i,
        {
            i -= 1;
            let (rest, short) = remainder.abs_diff(&multiples[i]);
            proof {
                let p = pow2(i as nat);
                lemma_pow2_unfold((i + 1) as nat);
                assert(divisor@ * (2 * p) == divisor@ * p + divisor@ * p) by (nonlinear_arith);
                assert((quotient@ + p) * divisor@ == quotient@ * divisor@ + divisor@ * p)
                    by (nonlinear_arith);
            }
            if !short {
                quotient = quotient.add(&weights[i]);
                remainder = rest;
            }
        }
        proof {
            lemma2_to64();
            assert(divisor@ * 1 == divisor@) by (nonlinear_arith);
            lemma_fundamental_div_mod_converse(
                self@ as int,
                divisor@ as int,
                quotient@ as int,
                remainder@ as int,
            );
        }
        Some((quotient, remainder))
    }

    /// The greatest common divisor of this number and `other`.
    pub fn gcd(&self, other: &BigNat) -> (r: BigNat)
        ensures
            r@ == gcd(self@, other@),
    {
        let mut a = self.clone();
        let mut b = other.clone();
        while !b.is_zero()
            invariant
                gcd(a@, b@) == gcd(self@, other@),
            decreases b@,
        {
            proof {
                lemma_mod_bound(a@ as int, b@ as int);
            }
            let (_, remainder) = a.div_rem(&b).unwrap();
            a = b;
            b = remainder;
        }
        a
    }

    /// This number times 2^`k`.
    pub fn mul_pow2(&self, k: usize) -> (r: BigNat)
        ensures
            r@ == self@ * pow2(k as nat),
    {
        let whole: usize = k / 32;
        let part: u32 = (k % 32) as u32;
        proof {
            lemma2_to64();
            lemma_pow2_pos(part as nat);
            vstd::arithmetic::power2::lemma_pow2_strictly_increases(part as nat, 32);
            assert(1u32 * pow2(part as nat) <= u32::MAX);
            lemma_u32_shl_is_mul(1u32, part);
        }
        let factor: u32 = 1u32 << part;
        let r = self.mul_limb(factor).shift_limbs(whole);
        proof {
            lemma_radix_pow_is_pow2(whole as nat);
            lemma_pow2_adds((32 * whole) as nat, part as nat);
            let a = self@;
            let f = pow2(part as nat);
            let w = pow2((32 * whole) as nat);
            assert((a * f) * w == a * (w * f)) by (nonlinear_arith);
        }
        r
    }
}

} // verus!
