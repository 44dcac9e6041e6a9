//! Facts about division of real numbers.
use vstd::prelude::*;

verus! {

/// The order of two factors does not matter.
pub proof fn lemma_real_mul_comm(a: real, b: real)
    ensures
        a * b == b * a,
{
    assert(a * b == b * a) by (nonlinear_arith);
}

/// The grouping of three factors does not matter.
pub proof fn lemma_real_mul_assoc(a: real, b: real, c: real)
    ensures
        (a * b) * c == a * (b * c),
{
    assert((a * b) * c == a * (b * c)) by (nonlinear_arith);
}

/// Neither order nor grouping of three factors matters.
pub proof fn lemma_real_mul3(a: real, b: real, c: real)
    ensures
        (a * b) * c == a * (b * c),
        (b * a) * c == a * (b * c),
        (a * c) * b == a * (b * c),
        (c * a) * b == a * (b * c),
        (b * c) * a == a * (b * c),
        (c * b) * a == a * (b * c),
        a * (c * b) == a * (b * c),
        b * (a * c) == a * (b * c),
        b * (c * a) == a * (b * c),
        c * (a * b) == a * (b * c),
        c * (b * a) == a * (b * c),
{
    lemma_real_mul_comm(a, b);
    lemma_real_mul_comm(a, c);
    lemma_real_mul_comm(b, c);
    lemma_real_mul_assoc(a, b, c);
    lemma_real_mul_assoc(a, c, b);
    lemma_real_mul_assoc(b, a, c);
    lemma_real_mul_assoc(b, c, a);
    lemma_real_mul_assoc(c, a, b);
    lemma_real_mul_assoc(c, b, a);
    lemma_real_mul_comm(a, b * c);
    lemma_real_mul_comm(b, a * c);
    lemma_real_mul_comm(c, a * b);
}

/// A product with a sum or a difference is the sum or difference of the
/// products.
pub proof fn lemma_real_distrib(a: real, b: real, c: real)
    ensures
        a * (b + c) == a * b + a * c,
        (b + c) * a == b * a + c * a,
        a * (b - c) == a * b - a * c,
        (b - c) * a == b * a - c * a,
{
    assert(a * (b + c) == a * b + a * c) by (nonlinear_arith);
    assert(a * (b - c) == a * b - a * c) by (nonlinear_arith);
    lemma_real_mul_comm(a, b + c);
    lemma_real_mul_comm(a, b - c);
    lemma_real_mul_comm(a, b);
    lemma_real_mul_comm(a, c);
}

/// A sign can be taken out of a product.
pub proof fn lemma_real_mul_neg(a: real, b: real)
    ensures
        (-a) * b == -(a * b),
        a * (-b) == -(a * b),
{
    assert((-a) * b == -(a * b)) by (nonlinear_arith);
    assert(a * (-b) == -(a * b)) by (nonlinear_arith);
}

/// One as a factor changes nothing.
pub proof fn lemma_real_mul_one(a: real)
    ensures
        a * 1real == a,
        1real * a == a,
{
    assert(a * 1real == a) by (nonlinear_arith);
    assert(1real * a == a) by (nonlinear_arith);
}

/// The factors of two products can be paired the other way.
pub proof fn lemma_real_mul4(a: real, b: real, c: real, d: real)
    ensures
        (a * b) * (c * d) == (a * c) * (b * d),
{
    lemma_real_mul_assoc(a, b, c * d);
    lemma_real_mul3(b, c, d);
    lemma_real_mul_assoc(a, c, b * d);
}

/// Dividing and multiplying back gives the number divided.
pub proof fn lemma_real_div_mul(a: real, b: real)
    requires
        b != 0real,
    ensures
        (a / b) * b == a,
{
    assert((a / b) * b == a) by (nonlinear_arith)
        requires
            b != 0real,
    ;
}

/// The quotient is the one number that, times the divisor, gives the number
/// divided.
pub proof fn lemma_real_div_unique(a: real, b: real, x: real)
    requires
        b != 0real,
        x * b == a,
    ensures
        a / b == x,
{
    assert(a / b == x) by (nonlinear_arith)
        requires
            b != 0real,
            x * b == a,
    ;
}

/// A factor that is not zero can be cancelled.
pub proof fn lemma_real_cancel(x: real, y: real, k: real)
    requires
        k != 0real,
        x * k == y * k,
    ensures
        x == y,
{
    assert(x == y) by (nonlinear_arith)
        requires
            k != 0real,
            x * k == y * k,
    ;
}

/// A product of two numbers that are not zero is not zero.
pub proof fn lemma_real_product_nonzero(a: real, b: real)
    requires
        a != 0real,
        b != 0real,
    ensures
        a * b != 0real,
{
    assert(a * b != 0real) by (nonlinear_arith)
        requires
            a != 0real,
            b != 0real,
    ;
}

/// A product with a factor zero is zero.
pub proof fn lemma_real_product_zero(a: real, b: real)
    requires
        a == 0real || b == 0real,
    ensures
        a * b == 0real,
{
    assert(a * b == 0real) by (nonlinear_arith)
        requires
            a == 0real || b == 0real,
    ;
}

/// A sum of two squares is zero only where both numbers are.
pub proof fn lemma_real_squares(a: real, b: real)
    ensures
        (a * a + b * b == 0real) == (a == 0real && b == 0real),
{
    assert(a * a >= 0real) by (nonlinear_arith);
    assert(b * b >= 0real) by (nonlinear_arith);
    if a != 0real {
        lemma_real_product_nonzero(a, a);
    }
    if b != 0real {
        lemma_real_product_nonzero(b, b);
    }
    if a == 0real && b == 0real {
        lemma_real_product_zero(a, a);
        lemma_real_product_zero(b, b);
    }
}

} // verus!
