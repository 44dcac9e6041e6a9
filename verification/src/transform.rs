//! A placement of an object: scale and rotation about a pivot, and where the
//! pivot goes.
use crate::geometry::{Pair, Point, Rotation, Turn, Vec2};
use crate::matrix::{pivot_cells, product, Mat4};
use vstd::prelude::*;

verus! {

/// What a `Transform` stands for.
pub struct TransformModel {
    pub dest: Pair,
    pub rotation: Turn,
    pub scale: Pair,
    pub offset: Pair,
}

impl TransformModel {
    /// The cells of the matrix of this placement. The pivot is given in units
    /// of the placed object, so it is divided by the scale first.
    pub open spec fn matrix(self) -> Seq<real> {
        pivot_cells(self.rotation, self.scale, self.offset.over(self.scale), self.dest)
    }
}

/// A placement of an object in its parent's frame.
pub struct Transform {
    /// Where the pivot goes.
    pub dest: Point,
    pub rotation: Rotation,
    pub scale: Vec2,
    /// The pivot, in units of the placed object.
    pub offset: Point,
}

impl View for Transform {
    type V = TransformModel;

    open spec fn view(&self) -> TransformModel {
        TransformModel {
            dest: self.dest@,
            rotation: self.rotation@,
            scale: self.scale@,
            offset: self.offset@,
        }
    }
}

impl Clone for Transform {
    fn clone(&self) -> (r: Self)
        ensures
            r@ == self@,
    {
        Transform {
            dest: self.dest.clone(),
            rotation: self.rotation.clone(),
            scale: self.scale.clone(),
            offset: self.offset.clone(),
        }
    }
}

impl Default for Transform {
    /// The placement that changes nothing.
    fn default() -> (r: Self)
        ensures
            r@ == (TransformModel {
                dest: Pair { x: 0real, y: 0real },
                rotation: Turn { cos: 1real, sin: 0real },
                scale: Pair { x: 1real, y: 1real },
                offset: Pair { x: 0real, y: 0real },
            }),
    {
        Transform {
            dest: Point::zero(),
            rotation: Rotation::identity(),
            scale: Vec2::one(),
            offset: Point::zero(),
        }
    }
}

impl Transform {
    /// The matrix of this placement. There is none where a scale factor is
    /// zero, since the pivot cannot then be divided by the scale.
    pub fn to_matrix(&self) -> (r: Option<Mat4>)
        ensures
            match r {
                Some(m) => self@.scale.nonzero() && m@ == self@.matrix(),
                None => !self@.scale.nonzero(),
            },
    {
        match self.offset.div(&self.scale) {
            None => None,
            Some(pivot) => Some(Mat4::about_pivot(&self.rotation, &self.scale, &pivot, &self.dest)),
        }
    }

    /// The matrix of this placement inside a parent frame: the product of
    /// the parent's matrix and this one, so that this placement acts first.
    pub fn apply_matrix(&self, parent_matrix: &Mat4) -> (r: Option<Mat4>)
        ensures
            match r {
                Some(m) => self@.scale.nonzero() && m@ == product(parent_matrix@, self@.matrix()),
                None => !self@.scale.nonzero(),
            },
    {
        match self.to_matrix() {
            None => None,
            Some(own) => Some(parent_matrix.mul_mat4(&own)),
        }
    }
}

} // verus!
