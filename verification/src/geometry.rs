//! Points, scale vectors and rotations of the plane, over exact rationals.
use crate::rational::Rational;
use vstd::prelude::*;

verus! {

/// A pair of real coordinates: what a `Point` or a `Vec2` stands for.
pub struct Pair {
    pub x: real,
    pub y: real,
}

impl Pair {
    /// The sum, coordinate by coordinate.
    pub open spec fn plus(self, other: Pair) -> Pair {
        Pair { x: self.x + other.x, y: self.y + other.y }
    }

    /// The difference, coordinate by coordinate.
    pub open spec fn minus(self, other: Pair) -> Pair {
        Pair { x: self.x - other.x, y: self.y - other.y }
    }

    /// The product, coordinate by coordinate.
    pub open spec fn times(self, other: Pair) -> Pair {
        Pair { x: self.x * other.x, y: self.y * other.y }
    }

    /// The quotient, coordinate by coordinate.
    pub open spec fn over(self, other: Pair) -> Pair {
        Pair { x: self.x / other.x, y: self.y / other.y }
    }

    /// Whether neither coordinate is zero.
    pub open spec fn nonzero(self) -> bool {
        self.x != 0real && self.y != 0real
    }

    /// The square of the distance to `other`.
    pub open spec fn distance_squared(self, other: Pair) -> real {
        (self.x - other.x) * (self.x - other.x) + (self.y - other.y) * (self.y - other.y)
    }
}

/// The cosine and sine that a `Rotation` holds.
pub struct Turn {
    pub cos: real,
    pub sin: real,
}

impl Turn {
    /// One turn after another: the angles add.
    pub open spec fn then_turn(self, next: Turn) -> Turn {
        Turn {
            cos: self.cos * next.cos - self.sin * next.sin,
            sin: self.sin * next.cos + self.cos * next.sin,
        }
    }
}

/// What a `Rect` stands for.
pub struct RectModel {
    pub top_left: Pair,
    pub width_squared: real,
    pub height_squared: real,
}

/// A position in the plane.
pub struct Point {
    pub x: Rational,
    pub y: Rational,
}

impl View for Point {
    type V = Pair;

    open spec fn view(&self) -> Pair {
        Pair { x: self.x@, y: self.y@ }
    }
}

impl Clone for Point {
    fn clone(&self) -> (r: Self)
        ensures
            r@ == self@,
    {
        Point { x: self.x.clone(), y: self.y.clone() }
    }
}

/// A scale or a size: one factor for each axis.
pub struct Vec2 {
    pub x: Rational,
    pub y: Rational,
}

impl View for Vec2 {
    type V = Pair;

    open spec fn view(&self) -> Pair {
        Pair { x: self.x@, y: self.y@ }
    }
}

impl Clone for Vec2 {
    fn clone(&self) -> (r: Self)
        ensures
            r@ == self@,
    {
        Vec2 { x: self.x.clone(), y: self.y.clone() }
    }
}

/// A rotation, held as the cosine and the sine of its angle. Any pair of
/// numbers is accepted; a pair off the unit circle also stretches.
pub struct Rotation {
    pub cos: Rational,
    pub sin: Rational,
}

impl View for Rotation {
    type V = Turn;

    open spec fn view(&self) -> Turn {
        Turn { cos: self.cos@, sin: self.sin@ }
    }
}

impl Clone for Rotation {
    fn clone(&self) -> (r: Self)
        ensures
            r@ == self@,
    {
        Rotation { cos: self.cos.clone(), sin: self.sin.clone() }
    }
}

/// A rectangle, given by a corner and the squares of its two extents. The
/// extents are held squared because the length of a turned edge need not be
/// rational.
pub struct Rect {
    pub top_left: Point,
    pub width_squared: Rational,
    pub height_squared: Rational,
}

impl View for Rect {
    type V = RectModel;

    open spec fn view(&self) -> RectModel {
        RectModel {
            top_left: self.top_left@,
            width_squared: self.width_squared@,
            height_squared: self.height_squared@,
        }
    }
}

impl Point {
    /// The point `(x, y)`.
    pub fn new(x: Rational, y: Rational) -> (r: Point)
        ensures
            r@ == (Pair { x: x@, y: y@ }),
    {
        Point { x, y }
    }

    /// The point with whole coordinates `(x, y)`.
    pub fn from_i64(x: i64, y: i64) -> (r: Point)
        ensures
            r@ == (Pair { x: x as real, y: y as real }),
    {
        Point { x: Rational::from_i64(x), y: Rational::from_i64(y) }
    }

    /// The origin.
    pub fn zero() -> (r: Point)
        ensures
            r@ == (Pair { x: 0real, y: 0real }),
    {
        Point { x: Rational::zero(), y: Rational::zero() }
    }

    /// This point with both coordinates in lowest terms.
    pub fn reduced(&self) -> (r: Point)
        ensures
            r@ == self@,
    {
        Point { x: self.x.reduced(), y: self.y.reduced() }
    }

    /// Whether the two points are the same.
    pub fn eq(&self, other: &Point) -> (r: bool)
        ensures
            r == (self@ == other@),
    {
        self.x.eq(&other.x) && self.y.eq(&other.y)
    }

    /// This point moved by `other`.
    pub fn add(&self, other: &Point) -> (r: Point)
        ensures
            r@ == self@.plus(other@),
    {
        Point { x: self.x.add(&other.x), y: self.y.add(&other.y) }
    }

    /// This point moved back by `other`.
    pub fn sub(&self, other: &Point) -> (r: Point)
        ensures
            r@ == self@.minus(other@),
    {
        Point { x: self.x.sub(&other.x), y: self.y.sub(&other.y) }
    }

    /// This point with each coordinate multiplied by the factor of its axis.
    pub fn mul(&self, factor: &Vec2) -> (r: Point)
        ensures
            r@ == self@.times(factor@),
    {
        Point { x: self.x.mul(&factor.x), y: self.y.mul(&factor.y) }
    }

    /// This point with each coordinate divided by the factor of its axis,
    /// where neither factor is zero.
    pub fn div(&self, factor: &Vec2) -> (r: Option<Point>)
        ensures
            match r {
                Some(p) => factor@.nonzero() && p@ == self@.over(factor@),
                None => !factor@.nonzero(),
            },
    {
        match self.x.div(&factor.x) {
            None => None,
            Some(x) => match self.y.div(&factor.y) {
                None => None,
                Some(y) => Some(Point { x, y }),
            },
        }
    }

    /// The square of the distance between two points.
    pub fn distance_squared(&self, other: &Point) -> (r: Rational)
        ensures
            r@ == self@.distance_squared(other@),
    {
        let dx = self.x.sub(&other.x);
        let dy = self.y.sub(&other.y);
        dx.mul(&dx).add(&dy.mul(&dy))
    }
}

impl Vec2 {
    /// The vector `(x, y)`.
    pub fn new(x: Rational, y: Rational) -> (r: Vec2)
        ensures
            r@ == (Pair { x: x@, y: y@ }),
    {
        Vec2 { x, y }
    }

    /// The vector with whole coordinates `(x, y)`.
    pub fn from_i64(x: i64, y: i64) -> (r: Vec2)
        ensures
            r@ == (Pair { x: x as real, y: y as real }),
    {
        Vec2 { x: Rational::from_i64(x), y: Rational::from_i64(y) }
    }

    /// The vector with `value` on both axes.
    pub fn splat(value: &Rational) -> (r: Vec2)
        ensures
            r@ == (Pair { x: value@, y: value@ }),
    {
        Vec2 { x: value.clone(), y: value.clone() }
    }

    /// The vector `(0, 0)`.
    pub fn zero() -> (r: Vec2)
        ensures
            r@ == (Pair { x: 0real, y: 0real }),
    {
        Vec2 { x: Rational::zero(), y: Rational::zero() }
    }

    /// The vector `(1, 1)`: the scale that changes nothing.
    pub fn one() -> (r: Vec2)
        ensures
            r@ == (Pair { x: 1real, y: 1real }),
    {
        Vec2 { x: Rational::one(), y: Rational::one() }
    }

    /// This vector with both coordinates in lowest terms.
    pub fn reduced(&self) -> (r: Vec2)
        ensures
            r@ == self@,
    {
        Vec2 { x: self.x.reduced(), y: self.y.reduced() }
    }

    /// Whether the two vectors are the same.
    pub fn eq(&self, other: &Vec2) -> (r: bool)
        ensures
            r == (self@ == other@),
    {
        self.x.eq(&other.x) && self.y.eq(&other.y)
    }

    /// Whether neither coordinate is zero.
    pub fn is_nonzero(&self) -> (r: bool)
        ensures
            r == self@.nonzero(),
    {
        !self.x.is_zero() && !self.y.is_zero()
    }

    /// The product, axis by axis.
    pub fn mul(&self, factor: &Vec2) -> (r: Vec2)
        ensures
            r@ == self@.times(factor@),
    {
        Vec2 { x: self.x.mul(&factor.x), y: self.y.mul(&factor.y) }
    }

    /// The quotient, axis by axis, where neither factor is zero.
    pub fn div(&self, factor: &Vec2) -> (r: Option<Vec2>)
        ensures
            match r {
                Some(v) => factor@.nonzero() && v@ == self@.over(factor@),
                None => !factor@.nonzero(),
            },
    {
        match self.x.div(&factor.x) {
            None => None,
            Some(x) => match self.y.div(&factor.y) {
                None => None,
                Some(y) => Some(Vec2 { x, y }),
            },
        }
    }
}

impl Rotation {
    /// The rotation with the given cosine and sine.
    pub fn new(cos: Rational, sin: Rational) -> (r: Rotation)
        ensures
            r@ == (Turn { cos: cos@, sin: sin@ }),
    {
        Rotation { cos, sin }
    }

    /// The rotation by no angle: cosine one, sine zero.
    pub fn identity() -> (r: Rotation)
        ensures
            r@ == (Turn { cos: 1real, sin: 0real }),
    {
        Rotation { cos: Rational::one(), sin: Rational::zero() }
    }

    /// The rotation by a right angle: cosine zero, sine one.
    pub fn quarter_turn() -> (r: Rotation)
        ensures
            r@ == (Turn { cos: 0real, sin: 1real }),
    {
        Rotation { cos: Rational::zero(), sin: Rational::one() }
    }

    /// This rotation with cosine and sine in lowest terms.
    pub fn reduced(&self) -> (r: Rotation)
        ensures
            r@ == self@,
    {
        Rotation { cos: self.cos.reduced(), sin: self.sin.reduced() }
    }

    /// This rotation followed by `next`: the rotation by the sum of the two
    /// angles.
    pub fn then_turn(&self, next: &Rotation) -> (r: Rotation)
        ensures
            r@ == self@.then_turn(next@),
    {
        let cos = self.cos.mul(&next.cos).sub(&self.sin.mul(&next.sin));
        let sin = self.sin.mul(&next.cos).add(&self.cos.mul(&next.sin));
        Rotation { cos, sin }
    }
}

} // verus!
