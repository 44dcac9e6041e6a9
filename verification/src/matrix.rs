//! Homogeneous 4x4 matrices over exact rationals, held column by column.
//!
//! A transform of the plane sits in such a matrix with its linear part in
//! the upper left 2x2 block and its translation in the upper two rows of the
//! last column; the third row and column and the last row are those of the
//! identity.
use crate::geometry::{Pair, Point, Rotation, Turn, Vec2};
use crate::rational::Rational;
use vstd::prelude::*;

verus! {

/// The entry in row `row` and column `col` of the cells `m`.
pub open spec fn entry(m: Seq<real>, row: int, col: int) -> real {
    m[4 * col + row]
}

/// The cells of the matrix that holds a transform of the plane with linear
/// part `(m00 m01; m10 m11)` and translation `(tx, ty)`.
pub open spec fn affine_cells(m00: real, m01: real, tx: real, m10: real, m11: real, ty: real) -> Seq<
    real,
> {
    Seq::new(
        16,
        |i: int|
            if i == 0 {
                m00
            } else if i == 1 {
                m10
            } else if i == 4 {
                m01
            } else if i == 5 {
                m11
            } else if i == 12 {
                tx
            } else if i == 13 {
                ty
            } else if i == 10 || i == 15 {
                1real
            } else {
                0real
            },
    )
}

/// The cells of the matrix that scales by `scale`, then turns by `turn`, both
/// about `pivot`, and puts `pivot` at `target`.
pub open spec fn pivot_cells(turn: Turn, scale: Pair, pivot: Pair, target: Pair) -> Seq<real> {
    let m00 = turn.cos * scale.x;
    let m01 = -turn.sin * scale.y;
    let m10 = turn.sin * scale.x;
    let m11 = turn.cos * scale.y;
    let tx = pivot.x * (-m00) - pivot.y * m01 + target.x;
    let ty = pivot.y * (-m11) - pivot.x * m10 + target.y;
    affine_cells(m00, m01, tx, m10, m11, ty)
}

/// The cells of the identity matrix.
pub open spec fn identity_cells() -> Seq<real> {
    affine_cells(1real, 0real, 0real, 0real, 1real, 0real)
}

/// The cells with rows and columns exchanged.
pub open spec fn transposed(m: Seq<real>) -> Seq<real> {
    Seq::new(16, |i: int| entry(m, i / 4, i % 4))
}

/// One entry of the matrix product `a b`: row `row` of `a` times column `col`
/// of `b`.
pub open spec fn product_entry(a: Seq<real>, b: Seq<real>, row: int, col: int) -> real {
    entry(a, row, 0) * entry(b, 0, col) + entry(a, row, 1) * entry(b, 1, col) + entry(a, row, 2)
        * entry(b, 2, col) + entry(a, row, 3) * entry(b, 3, col)
}

/// The cells of the matrix product `a b`, which applies `b` first.
pub open spec fn product(a: Seq<real>, b: Seq<real>) -> Seq<real> {
    Seq::new(16, |i: int| product_entry(a, b, i % 4, i / 4))
}

/// Where the matrix takes the point `p` of the plane.
pub open spec fn transform(m: Seq<real>, p: Pair) -> Pair {
    Pair {
        x: entry(m, 0, 0) * p.x + entry(m, 0, 1) * p.y + entry(m, 0, 3),
        y: entry(m, 1, 0) * p.x + entry(m, 1, 1) * p.y + entry(m, 1, 3),
    }
}

/// Whether the matrix is that of a transform of the plane: its third row
/// and column and its last row are those of the identity.
pub open spec fn is_planar(m: Seq<real>) -> bool {
    &&& entry(m, 0, 2) == 0real
    &&& entry(m, 1, 2) == 0real
    &&& entry(m, 2, 0) == 0real
    &&& entry(m, 2, 1) == 0real
    &&& entry(m, 2, 2) == 1real
    &&& entry(m, 2, 3) == 0real
    &&& entry(m, 3, 0) == 0real
    &&& entry(m, 3, 1) == 0real
    &&& entry(m, 3, 2) == 0real
    &&& entry(m, 3, 3) == 1real
}

/// The determinant of the linear part that acts on the plane.
pub open spec fn planar_determinant(m: Seq<real>) -> real {
    entry(m, 0, 0) * entry(m, 1, 1) - entry(m, 0, 1) * entry(m, 1, 0)
}

/// The point of the plane that the matrix takes to `p`, where the planar
/// determinant is not zero.
pub open spec fn untransform(m: Seq<real>, p: Pair) -> Pair {
    let dx = p.x - entry(m, 0, 3);
    let dy = p.y - entry(m, 1, 3);
    Pair {
        x: (entry(m, 1, 1) * dx - entry(m, 0, 1) * dy) / planar_determinant(m),
        y: (entry(m, 0, 0) * dy - entry(m, 1, 0) * dx) / planar_determinant(m),
    }
}

/// A 4x4 matrix.
pub struct Mat4 {
    cells: Vec<Rational>,
}

impl View for Mat4 {
    type V = Seq<real>;

    closed spec fn view(&self) -> Seq<real> {
        Seq::new(16, |i: int| self.cells@[i]@)
    }
}

impl Clone for Mat4 {
    fn clone(&self) -> (r: Self)
        ensures
            r@ == self@,
    {
        proof {
            use_type_invariant(self);
        }
        let mut cells: Vec<Rational> = Vec::new();
        let mut i: usize = 0;
        while i < 16
            invariant
                i <= 16,
                self.cells@.len() == 16,
                cells@.len() == i,
                forall|k: int| 0 <= k < i ==> cells@[k]@ == self.cells@[k]@,
            decreases 16 - i,
        {
            cells.push(self.cells[i].clone());
            i += 1;
        }
        let r = Mat4 { cells };
        assert(r@ =~= self@);
        r
    }
}

impl Mat4 {
    #[verifier::type_invariant]
    spec fn sixteen_cells(self) -> bool {
        self.cells@.len() == 16
    }

    /// The matrix whose cells, column by column, are `cells`; there must be
    /// sixteen of them.
    pub fn from_cols_array(cells: Vec<Rational>) -> (r: Option<Mat4>)
        ensures
            match r {
                Some(m) => cells@.len() == 16 && m@ == Seq::new(16, |i: int| cells@[i]@),
                None => cells@.len() != 16,
            },
    {
        if cells.len() == 16 {
            Some(Mat4 { cells })
        } else {
            None
        }
    }

    /// The cells of this matrix, column by column.
    pub fn to_cols_array(&self) -> (r: &Vec<Rational>)
        ensures
            r@.len() == 16,
            self@ == Seq::new(16, |i: int| r@[i]@),
    {
        proof {
            use_type_invariant(self);
        }
        &self.cells
    }

    /// The matrix with rows and columns exchanged.
    pub fn transpose(&self) -> (r: Mat4)
        ensures
            r@ == transposed(self@),
    {
        proof {
            use_type_invariant(self);
        }
        let mut cells: Vec<Rational> = Vec::new();
        let mut i: usize = 0;
        while i < 16
            invariant
                i <= 16,
                self.cells@.len() == 16,
                cells@.len() == i,
                forall|k: int| 0 <= k < i ==> cells@[k]@ == self.cells@[4 * (k % 4) + k / 4]@,
            decreases 16 - i,
        {
            let from: usize = 4 * (i % 4) + i / 4;
            cells.push(self.cells[from].clone());
            i += 1;
        }
        let r = Mat4 { cells };
        assert(r@ =~= transposed(self@));
        r
    }

    /// The matrix of the transform of the plane with linear part
    /// `(m00 m01; m10 m11)` and translation `(tx, ty)`. It is written down
    /// row by row and then turned into columns.
    pub fn affine(
        m00: Rational,
        m01: Rational,
        tx: Rational,
        m10: Rational,
        m11: Rational,
        ty: Rational,
    ) -> (r: Mat4)
        ensures
            r@ == affine_cells(m00@, m01@, tx@, m10@, m11@, ty@),
    {
        let mut rows: Vec<Rational> = Vec::new();
        rows.push(m00);
        rows.push(m01);
        rows.push(Rational::zero());
        rows.push(tx);
        rows.push(m10);
        rows.push(m11);
        rows.push(Rational::zero());
        rows.push(ty);
        rows.push(Rational::zero());
        rows.push(Rational::zero());
        rows.push(Rational::one());
        rows.push(Rational::zero());
        rows.push(Rational::zero());
        rows.push(Rational::zero());
        rows.push(Rational::zero());
        rows.push(Rational::one());
        let by_rows = Mat4 { cells: rows };
        let r = by_rows.transpose();
        assert(r@ =~= affine_cells(m00@, m01@, tx@, m10@, m11@, ty@));
        r
    }

    /// The matrix that scales by `scale`, then turns by `rotation`, both
    /// about `pivot`, and puts `pivot` at `target`.
    pub fn about_pivot(rotation: &Rotation, scale: &Vec2, pivot: &Point, target: &Point) -> (r:
        Mat4)
        ensures
            r@ == pivot_cells(rotation@, scale@, pivot@, target@),
    {
        let m00 = rotation.cos.mul(&scale.x);
        let m01 = rotation.sin.neg().mul(&scale.y);
        let m10 = rotation.sin.mul(&scale.x);
        let m11 = rotation.cos.mul(&scale.y);
        let tx = pivot.x.mul(&m00.neg()).sub(&pivot.y.mul(&m01)).add(&target.x);
        let ty = pivot.y.mul(&m11.neg()).sub(&pivot.x.mul(&m10)).add(&target.y);
        Mat4::affine(m00, m01, tx, m10, m11, ty)
    }

    /// The identity matrix.
    pub fn identity() -> (r: Mat4)
        ensures
            r@ == identity_cells(),
    {
        Mat4::affine(
            Rational::one(),
            Rational::zero(),
            Rational::zero(),
            Rational::zero(),
            Rational::one(),
            Rational::zero(),
        )
    }

    /// The matrix product `self rhs`: the transform that applies `rhs` first
    /// and `self` second.
    pub fn mul_mat4(&self, rhs: &Mat4) -> (r: Mat4)
        ensures
            r@ == product(self@, rhs@),
    {
        proof {
            use_type_invariant(self);
            use_type_invariant(rhs);
        }
        let mut cells: Vec<Rational> = Vec::new();
        let mut i: usize = 0;
        while i < 16
            invariant
                i <= 16,
                self.cells@.len() == 16,
                rhs.cells@.len() == 16,
                cells@.len() == i,
                forall|k: int| 0 <= k < i ==> cells@[k]@ == product_entry(self@, rhs@, k % 4, k / 4),
            decreases 16 - i,
        {
            let row: usize = i % 4;
            let col: usize = i / 4;
            let t0 = self.cells[row].mul(&rhs.cells[4 * col]);
            let t1 = self.cells[4 + row].mul(&rhs.cells[4 * col + 1]);
            let t2 = self.cells[8 + row].mul(&rhs.cells[4 * col + 2]);
            let t3 = self.cells[12 + row].mul(&rhs.cells[4 * col + 3]);
            let cell = t0.add(&t1).add(&t2).add(&t3);
            cells.push(cell);
            i += 1;
        }
        let r = Mat4 { cells };
        assert(r@ =~= product(self@, rhs@));
        r
    }

    /// Where this matrix takes the point `p` of the plane.
    pub fn transform_point(&self, p: &Point) -> (r: Point)
        ensures
            r@ == transform(self@, p@),
    {
        proof {
            use_type_invariant(self);
        }
        let x = self.cells[0].mul(&p.x).add(&self.cells[4].mul(&p.y)).add(&self.cells[12]);
        let y = self.cells[1].mul(&p.x).add(&self.cells[5].mul(&p.y)).add(&self.cells[13]);
        Point { x, y }
    }

    /// The point of the plane that this matrix takes to `p`. There is one
    /// exactly when the planar determinant is not zero.
    pub fn inverse_transform_point(&self, p: &Point) -> (r: Option<Point>)
        ensures
            match r {
                Some(q) => planar_determinant(self@) != 0real && q@ == untransform(self@, p@),
                None => planar_determinant(self@) == 0real,
            },
    {
        proof {
            use_type_invariant(self);
        }
        let det = self.cells[0].mul(&self.cells[5]).sub(&self.cells[4].mul(&self.cells[1]));
        let dx = p.x.sub(&self.cells[12]);
        let dy = p.y.sub(&self.cells[13]);
        let nx = self.cells[5].mul(&dx).sub(&self.cells[4].mul(&dy));
        let ny = self.cells[0].mul(&dy).sub(&self.cells[1].mul(&dx));
        match nx.div(&det) {
            None => None,
            Some(x) => match ny.div(&det) {
                None => None,
                Some(y) => Some(Point { x, y }),
            },
        }
    }

    /// Whether the two matrices have the same entries.
    pub fn eq(&self, other: &Mat4) -> (r: bool)
        ensures
            r == (self@ == other@),
    {
        proof {
            use_type_invariant(self);
            use_type_invariant(other);
        }
        let mut i: usize = 0;
        while i < 16
            invariant
                i <= 16,
                self.cells@.len() == 16,
                other.cells@.len() == 16,
                forall|k: int| 0 <= k < i ==> self.cells@[k]@ == other.cells@[k]@,
            decreases 16 - i,
        {
            if !self.cells[i].eq(&other.cells[i]) {
                assert(self@[i as int] != other@[i as int]);
                return false;
            }
            i += 1;
        }
        assert(self@ =~= other@);
        true
    }
}

} // verus!
