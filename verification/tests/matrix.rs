use camera2d::geometry::{Point, Rotation, Vec2};
use camera2d::matrix::Mat4;
use camera2d::rational::Rational;

fn whole(n: i64) -> Rational {
    Rational::from_i64(n)
}

fn plane(m00: i64, m01: i64, tx: i64, m10: i64, m11: i64, ty: i64) -> Mat4 {
    Mat4::affine(whole(m00), whole(m01), whole(tx), whole(m10), whole(m11), whole(ty))
}

fn counting() -> Mat4 {
    Mat4::from_cols_array((0..16).map(whole).collect()).unwrap()
}

#[test]
fn affine_matrix_is_laid_out_column_by_column() {
    let m = plane(2, 3, 5, 7, 11, 13);
    let expected: [i64; 16] = [2, 7, 0, 0, 3, 11, 0, 0, 0, 0, 1, 0, 5, 13, 0, 1];
    let cells = m.to_cols_array();
    assert_eq!(cells.len(), 16);
    for i in 0..16 {
        assert!(cells[i].eq(&whole(expected[i])), "cell {}", i);
    }
}

#[test]
fn identity_matrix_has_ones_on_the_diagonal() {
    let cells_of = Mat4::identity();
    let cells = cells_of.to_cols_array();
    for i in 0..16 {
        let expected = if i % 5 == 0 { 1 } else { 0 };
        assert!(cells[i].eq(&whole(expected)), "cell {}", i);
    }
}

#[test]
fn from_cols_array_wants_sixteen_cells() {
    assert!(Mat4::from_cols_array(Vec::new()).is_none());
    assert!(Mat4::from_cols_array((0..15).map(whole).collect()).is_none());
    assert!(Mat4::from_cols_array((0..17).map(whole).collect()).is_none());
    let m = counting();
    for i in 0..16 {
        assert!(m.to_cols_array()[i].eq(&whole(i as i64)));
    }
}

#[test]
fn transpose_exchanges_rows_and_columns() {
    let t = counting().transpose();
    let expected: [i64; 16] = [0, 4, 8, 12, 1, 5, 9, 13, 2, 6, 10, 14, 3, 7, 11, 15];
    for i in 0..16 {
        assert!(t.to_cols_array()[i].eq(&whole(expected[i])), "cell {}", i);
    }
    assert!(t.transpose().eq(&counting()));
    assert!(!t.eq(&counting()));
}

#[test]
fn matrix_equality_looks_at_every_cell() {
    let m = plane(2, 3, 5, 7, 11, 13);
    assert!(m.eq(&plane(2, 3, 5, 7, 11, 13)));
    assert!(m.clone().eq(&m));
    assert!(!m.eq(&plane(2, 3, 5, 7, 11, 14)));
    assert!(!m.eq(&plane(1, 3, 5, 7, 11, 13)));
}

#[test]
fn product_with_the_identity_changes_nothing() {
    let m = counting();
    assert!(m.mul_mat4(&Mat4::identity()).eq(&m));
    assert!(Mat4::identity().mul_mat4(&m).eq(&m));
}

#[test]
fn product_applies_the_right_factor_first() {
    let double = plane(2, 0, 0, 0, 2, 0);
    let shift = plane(1, 0, 10, 0, 1, 20);
    assert!(shift.mul_mat4(&double).eq(&plane(2, 0, 10, 0, 2, 20)));
    assert!(double.mul_mat4(&shift).eq(&plane(2, 0, 20, 0, 2, 40)));
    let p = Point::from_i64(3, 4);
    let one_by_one = shift.transform_point(&double.transform_point(&p));
    assert!(shift.mul_mat4(&double).transform_point(&p).eq(&one_by_one));
    assert!(one_by_one.eq(&Point::from_i64(16, 28)));
}

#[test]
fn product_of_full_matrices() {
    let m = counting();
    let square = m.mul_mat4(&m);
    let expected: [i64; 16] =
        [56, 62, 68, 74, 152, 174, 196, 218, 248, 286, 324, 362, 344, 398, 452, 506];
    for i in 0..16 {
        assert!(square.to_cols_array()[i].eq(&whole(expected[i])), "cell {}", i);
    }
}

#[test]
fn transform_point_applies_linear_part_and_translation() {
    let m = plane(2, 3, 5, 7, 11, 13);
    let seen = m.transform_point(&Point::from_i64(1, 1));
    assert!(seen.eq(&Point::from_i64(10, 31)));
    let seen = m.transform_point(&Point::zero());
    assert!(seen.eq(&Point::from_i64(5, 13)));
}

#[test]
fn inverse_transform_point_undoes_transform_point() {
    let m = plane(2, 3, 5, 7, 11, 13);
    let p = Point::from_i64(-4, 9);
    let back = m.inverse_transform_point(&m.transform_point(&p)).unwrap();
    assert!(back.eq(&p));
    let forth = m.transform_point(&m.inverse_transform_point(&p).unwrap());
    assert!(forth.eq(&p));
    let found = m.inverse_transform_point(&Point::from_i64(10, 31)).unwrap();
    assert!(found.eq(&Point::from_i64(1, 1)));
}

#[test]
fn inverse_transform_point_refuses_a_flat_matrix() {
    assert!(plane(2, 4, 5, 1, 2, 13).inverse_transform_point(&Point::zero()).is_none());
    assert!(plane(0, 0, 5, 0, 0, 13).inverse_transform_point(&Point::zero()).is_none());
    assert!(plane(0, 1, 0, 1, 0, 0).inverse_transform_point(&Point::zero()).is_some());
}

#[test]
fn about_pivot_puts_the_pivot_at_the_target() {
    let m = Mat4::about_pivot(
        &Rotation::quarter_turn(),
        &Vec2::from_i64(2, 3),
        &Point::from_i64(5, 7),
        &Point::from_i64(100, 200),
    );
    assert!(m.transform_point(&Point::from_i64(5, 7)).eq(&Point::from_i64(100, 200)));
    assert!(m.eq(&plane(0, -3, 121, 2, 0, 190)));
    assert!(m.transform_point(&Point::from_i64(6, 7)).eq(&Point::from_i64(100, 202)));
    assert!(m.transform_point(&Point::from_i64(5, 8)).eq(&Point::from_i64(97, 200)));
}
