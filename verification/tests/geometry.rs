use camera2d::geometry::{Point, Rotation, Vec2};
use camera2d::rational::Rational;

fn ratio(n: i64, d: i64) -> Rational {
    Rational::from_ratio(n, d).unwrap()
}

#[test]
fn point_constructors_agree() {
    let p = Point::new(Rational::from_i64(3), Rational::from_i64(-4));
    assert!(p.eq(&Point::from_i64(3, -4)));
    assert!(Point::zero().eq(&Point::from_i64(0, 0)));
    assert!(!p.eq(&Point::from_i64(3, 4)));
    assert!(!p.eq(&Point::from_i64(-3, -4)));
    assert!(p.clone().eq(&p));
}

#[test]
fn point_arithmetic_goes_coordinate_by_coordinate() {
    let p = Point::from_i64(3, -4);
    let q = Point::from_i64(10, 20);
    assert!(p.add(&q).eq(&Point::from_i64(13, 16)));
    assert!(p.sub(&q).eq(&Point::from_i64(-7, -24)));
    assert!(p.mul(&Vec2::from_i64(2, 3)).eq(&Point::from_i64(6, -12)));
    let halves = p.div(&Vec2::from_i64(2, -8)).unwrap();
    assert!(halves.eq(&Point::new(ratio(3, 2), ratio(1, 2))));
}

#[test]
fn point_div_refuses_a_zero_factor() {
    let p = Point::from_i64(3, -4);
    assert!(p.div(&Vec2::from_i64(0, 1)).is_none());
    assert!(p.div(&Vec2::from_i64(1, 0)).is_none());
    assert!(p.div(&Vec2::zero()).is_none());
    assert!(p.div(&Vec2::one()).unwrap().eq(&p));
}

#[test]
fn distance_squared_of_a_three_four_five_triangle() {
    let a = Point::from_i64(1, 1);
    let b = Point::from_i64(4, 5);
    assert!(a.distance_squared(&b).eq(&Rational::from_i64(25)));
    assert!(b.distance_squared(&a).eq(&Rational::from_i64(25)));
    assert!(a.distance_squared(&a).is_zero());
}

#[test]
fn vec2_constructors_agree() {
    assert!(Vec2::one().eq(&Vec2::from_i64(1, 1)));
    assert!(Vec2::zero().eq(&Vec2::from_i64(0, 0)));
    assert!(Vec2::splat(&ratio(1, 2)).eq(&Vec2::new(ratio(1, 2), ratio(2, 4))));
    assert!(!Vec2::one().eq(&Vec2::from_i64(1, 2)));
    let v = Vec2::from_i64(2, 3);
    assert!(v.clone().eq(&v));
}

#[test]
fn vec2_arithmetic_goes_axis_by_axis() {
    let v = Vec2::from_i64(2, 3);
    assert!(v.mul(&Vec2::from_i64(5, 7)).eq(&Vec2::from_i64(10, 21)));
    assert!(v.div(&Vec2::from_i64(4, 6)).unwrap().eq(&Vec2::splat(&ratio(1, 2))));
    assert!(v.div(&Vec2::from_i64(4, 0)).is_none());
    assert!(v.is_nonzero());
    assert!(!Vec2::from_i64(0, 3).is_nonzero());
    assert!(!Vec2::from_i64(2, 0).is_nonzero());
}

#[test]
fn two_quarter_turns_make_a_half_turn() {
    let quarter = Rotation::quarter_turn();
    let half = quarter.then_turn(&quarter);
    assert!(half.cos.eq(&Rational::from_i64(-1)));
    assert!(half.sin.is_zero());
    let full = half.then_turn(&half);
    assert!(full.cos.eq(&Rational::one()));
    assert!(full.sin.is_zero());
}

#[test]
fn turning_by_nothing_changes_nothing() {
    let r = Rotation::new(ratio(3, 5), ratio(4, 5));
    let same = r.then_turn(&Rotation::identity());
    assert!(same.cos.eq(&ratio(3, 5)));
    assert!(same.sin.eq(&ratio(4, 5)));
    let same = Rotation::identity().then_turn(&r);
    assert!(same.cos.eq(&ratio(3, 5)));
    assert!(same.sin.eq(&ratio(4, 5)));
}

#[test]
fn turns_add_their_angles() {
    let r = Rotation::new(ratio(3, 5), ratio(4, 5));
    let twice = r.then_turn(&r);
    assert!(twice.cos.eq(&ratio(-7, 25)));
    assert!(twice.sin.eq(&ratio(24, 25)));
    let back = Rotation::new(ratio(3, 5), ratio(-4, 5));
    let none = r.then_turn(&back);
    assert!(none.cos.eq(&Rational::one()));
    assert!(none.sin.is_zero());
}

#[test]
fn reduced_geometry_keeps_its_value() {
    let p = Point::new(ratio(6, 4), ratio(-10, 15));
    assert!(p.reduced().eq(&p));
    assert!(p.reduced().x.denominator().eq(&camera2d::natural::BigNat::from_u64(2)));
    assert!(p.reduced().y.denominator().eq(&camera2d::natural::BigNat::from_u64(3)));
    let v = Vec2::new(ratio(6, 4), ratio(-10, 15));
    assert!(v.reduced().eq(&v));
    assert!(v.reduced().y.denominator().eq(&camera2d::natural::BigNat::from_u64(3)));
    let r = Rotation::new(ratio(6, 10), ratio(8, 10)).reduced();
    assert!(r.cos.eq(&ratio(3, 5)));
    assert!(r.sin.denominator().eq(&camera2d::natural::BigNat::from_u64(5)));
}
