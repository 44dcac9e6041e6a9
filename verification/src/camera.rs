//! The camera: the view transform from world to screen, the conversions
//! between the two, and the moves that pan, zoom and turn the view.
use crate::geometry::{Pair, Point, Rect, RectModel, Rotation, Turn, Vec2};
use crate::laws::lemma_view_invertible;
use crate::matrix::{
    pivot_cells, planar_determinant, product, transform, untransform, Mat4,
};
use crate::rational::Rational;
use crate::transform::Transform;
use vstd::prelude::*;

verus! {

/// Why a move of the camera could not be made.
#[derive(Clone, Copy, Debug, PartialEq, Eq)]
pub enum CameraError {
    /// A scale factor of the camera is zero.
    ZeroScale,
    /// The view matrix has no inverse: a scale factor is zero, or the
    /// cosine and sine of the rotation both are.
    Singular,
    /// A zoom factor is zero.
    ZeroFactor,
}

/// What a `Camera` stands for.
pub struct CameraModel {
    pub offset: Pair,
    pub rotation: Turn,
    pub scale: Pair,
    pub position: Pair,
    pub screen_size: Pair,
}

impl CameraModel {
    /// The cells of the view matrix, which takes world to screen: scale and
    /// turn about `position`, and put `position` at `offset`.
    pub open spec fn matrix(self) -> Seq<real> {
        pivot_cells(self.rotation, self.scale, self.position, self.offset)
    }

    /// Whether the view matrix can be inverted.
    pub open spec fn invertible(self) -> bool {
        planar_determinant(self.matrix()) != 0real
    }

    /// Where on the screen the world point `p` is seen.
    pub open spec fn world_to_screen(self, p: Pair) -> Pair {
        transform(self.matrix(), p)
    }

    /// The world point seen at the screen point `p`, for an invertible view.
    pub open spec fn screen_to_world(self, p: Pair) -> Pair {
        untransform(self.matrix(), p)
    }

    /// The middle of the screen.
    pub open spec fn screen_center(self) -> Pair {
        Pair { x: self.screen_size.x / 2real, y: self.screen_size.y / 2real }
    }

    /// The part of the world that is seen: the world point at the screen's
    /// upper left corner, and the squared length of the upper edge.
    pub open spec fn world_view(self) -> RectModel {
        let top_left = self.screen_to_world(Pair { x: 0real, y: 0real });
        let top_right = self.screen_to_world(Pair { x: self.screen_size.x, y: 0real });
        RectModel {
            top_left,
            width_squared: top_left.distance_squared(top_right),
            height_squared: 0real,
        }
    }

    /// The camera dragged by `delta` in world units: the position goes
    /// back by `delta`.
    pub open spec fn moved_by_world(self, delta: Pair) -> CameraModel {
        CameraModel { position: self.position.minus(delta), ..self }
    }

    /// The camera dragged by `delta` in screen units: the position goes
    /// back by `delta` divided by the scale.
    pub open spec fn moved_by_screen(self, delta: Pair) -> CameraModel {
        self.moved_by_world(delta.over(self.scale))
    }

    /// The camera with its scale multiplied by `factor`.
    pub open spec fn zoomed(self, factor: Pair) -> CameraModel {
        CameraModel { scale: self.scale.times(factor), ..self }
    }

    /// The camera zoomed by `factor` so that the world point seen at the
    /// screen point `p` stays there. The position is worked out with the
    /// scale as it was, and the scale is changed after that.
    pub open spec fn zoomed_at(self, p: Pair, factor: Pair) -> CameraModel {
        let held = self.screen_to_world(p);
        CameraModel {
            position: held.minus(held.minus(self.position).over(factor)),
            scale: self.scale.times(factor),
            ..self
        }
    }
}

/// A view of the world: which world point is shown where on the screen, how
/// far zoomed in and how far turned. What a move of the camera works out is
/// kept in lowest terms, so that a camera that is moved again and again does
/// not grow.
pub struct Camera {
    /// The screen point at which `position` is shown, in scaled units.
    pub offset: Point,
    pub rotation: Rotation,
    /// The zoom, one factor for each axis.
    pub scale: Vec2,
    /// The world point that is shown at `offset`.
    pub position: Point,
    /// The size of the surface that is drawn on.
    pub screen_size: Vec2,
}

impl View for Camera {
    type V = CameraModel;

    open spec fn view(&self) -> CameraModel {
        CameraModel {
            offset: self.offset@,
            rotation: self.rotation@,
            scale: self.scale@,
            position: self.position@,
            screen_size: self.screen_size@,
        }
    }
}

impl Clone for Camera {
    fn clone(&self) -> (r: Self)
        ensures
            r@ == self@,
    {
        Camera {
            offset: self.offset.clone(),
            rotation: self.rotation.clone(),
            scale: self.scale.clone(),
            position: self.position.clone(),
            screen_size: self.screen_size.clone(),
        }
    }
}

impl Default for Camera {
    /// A camera that shows the world as it is, on a screen of 1920 by 1080.
    fn default() -> (r: Self)
        ensures
            r@ == (CameraModel {
                offset: Pair { x: 0real, y: 0real },
                rotation: Turn { cos: 1real, sin: 0real },
                scale: Pair { x: 1real, y: 1real },
                position: Pair { x: 0real, y: 0real },
                screen_size: Pair { x: 1920 as real, y: 1080 as real },
            }),
    {
        Camera {
            offset: Point::zero(),
            rotation: Rotation::identity(),
            scale: Vec2::one(),
            position: Point::zero(),
            screen_size: Vec2::from_i64(1920, 1080),
        }
    }
}

impl Camera {
    /// The camera with the given fields. The offset is taken as it is, in
    /// scaled units.
    pub fn new(
        offset: Point,
        rotation: Rotation,
        scale: Vec2,
        position: Point,
        screen_size: Vec2,
    ) -> (r: Camera)
        ensures
            r@ == (CameraModel {
                offset: offset@,
                rotation: rotation@,
                scale: scale@,
                position: position@,
                screen_size: screen_size@,
            }),
    {
        Camera { offset, rotation, scale, position, screen_size }
    }

    /// The camera with the given fields, where its view matrix can be
    /// inverted. A scale factor of zero is refused, and so is a rotation
    /// whose cosine and sine are both zero.
    pub fn try_new(
        offset: Point,
        rotation: Rotation,
        scale: Vec2,
        position: Point,
        screen_size: Vec2,
    ) -> (r: Result<Camera, CameraError>)
        ensures
            match r {
                Ok(camera) => scale@.nonzero() && (rotation@.cos != 0real || rotation@.sin != 0real)
                    && camera@.invertible() && camera@ == (CameraModel {
                    offset: offset@,
                    rotation: rotation@,
                    scale: scale@,
                    position: position@,
                    screen_size: screen_size@,
                }),
                Err(e) => if !scale@.nonzero() {
                    e == CameraError::ZeroScale
                } else {
                    e == CameraError::Singular && rotation@.cos == 0real && rotation@.sin == 0real
                },
            },
    {
        if !scale.is_nonzero() {
            return Err(CameraError::ZeroScale);
        }
        if rotation.cos.is_zero() && rotation.sin.is_zero() {
            return Err(CameraError::Singular);
        }
        let camera = Camera { offset, rotation, scale, position, screen_size };
        proof {
            lemma_view_invertible(camera@);
        }
        Ok(camera)
    }

    /// The view matrix, which takes world to screen.
    pub fn to_matrix(&self) -> (r: Mat4)
        ensures
            r@ == self@.matrix(),
    {
        Mat4::about_pivot(&self.rotation, &self.scale, &self.position, &self.offset)
    }

    /// The matrix that takes the points of a placed object to the screen:
    /// the view matrix times the object's own. There is none where a scale
    /// factor of the object is zero.
    pub fn apply_matrix(&self, object: &Transform) -> (r: Option<Mat4>)
        ensures
            match r {
                Some(m) => object@.scale.nonzero() && m@ == product(
                    self@.matrix(),
                    object@.matrix(),
                ),
                None => !object@.scale.nonzero(),
            },
    {
        object.apply_matrix(&self.to_matrix())
    }

    /// Where on the screen the world point `point` is seen.
    pub fn world_to_screen_coords(&self, point: &Point) -> (r: Point)
        ensures
            r@ == self@.world_to_screen(point@),
    {
        self.to_matrix().transform_point(point)
    }

    /// The world point that is seen at the screen point `point`. There is
    /// one exactly when the view matrix can be inverted. The matrix is
    /// worked out anew at each call.
    pub fn screen_to_world_coords(&self, point: &Point) -> (r: Option<Point>)
        ensures
            match r {
                Some(p) => self@.invertible() && p@ == self@.screen_to_world(point@),
                None => !self@.invertible(),
            },
    {
        self.to_matrix().inverse_transform_point(point)
    }

    /// The part of the world that is seen: the world point at the screen's
    /// upper left corner with the squared length of the screen's upper edge
    /// in the world, and a height of zero. There is none where the view
    /// matrix cannot be inverted.
    pub fn world_view(&self) -> (r: Option<Rect>)
        ensures
            match r {
                Some(rect) => self@.invertible() && rect@ == self@.world_view(),
                None => !self@.invertible(),
            },
    {
        let corner = Point::zero();
        let along = Point { x: self.screen_size.x.clone(), y: Rational::zero() };
        match self.screen_to_world_coords(&corner) {
            None => None,
            Some(top_left) => match self.screen_to_world_coords(&along) {
                None => None,
                Some(top_right) => {
                    let width_squared = top_left.distance_squared(&top_right);
                    Some(Rect { top_left, width_squared, height_squared: Rational::zero() })
                },
            },
        }
    }

    /// Shows the world point `point` at the offset.
    pub fn set_position(&mut self, point: Point)
        ensures
            final(self)@ == (CameraModel { position: point@, ..old(self)@ }),
    {
        self.position = point;
    }

    /// Sets the offset to `point` times the scale as it is now: `point` is
    /// given in unscaled screen units and kept in scaled ones. A later change
    /// of the scale leaves the kept offset as it is.
    pub fn set_offset(&mut self, point: &Point)
        ensures
            final(self)@ == (CameraModel {
                offset: point@.times(old(self)@.scale),
                ..old(self)@
            }),
    {
        let scaled = point.mul(&self.scale).reduced();
        self.offset = scaled;
    }

    /// Drags the view by `delta` in world units: the position goes back by
    /// `delta`.
    pub fn move_by_world_coords(&mut self, delta: &Point)
        ensures
            final(self)@ == old(self)@.moved_by_world(delta@),
    {
        let moved = self.position.sub(delta).reduced();
        self.position = moved;
    }

    /// Drags the view by `delta` in screen units: the position goes back by
    /// `delta` divided by the scale. Where a scale factor is zero, nothing
    /// changes.
    pub fn move_by_screen_coords(&mut self, delta: &Point) -> (r: Result<(), CameraError>)
        ensures
            match r {
                Ok(_) => old(self)@.scale.nonzero() && final(self)@ == old(self)@.moved_by_screen(
                    delta@,
                ),
                Err(e) => !old(self)@.scale.nonzero() && e == CameraError::ZeroScale && *final(self)
                    == *old(self),
            },
    {
        match delta.div(&self.scale) {
            None => Err(CameraError::ZeroScale),
            Some(step) => {
                let moved = self.position.sub(&step).reduced();
                self.position = moved;
                Ok(())
            },
        }
    }

    /// The zoom: the scale of each axis.
    pub fn get_zoom(&self) -> (r: Vec2)
        ensures
            r@ == self@.scale,
    {
        self.scale.clone()
    }

    /// Sets the zoom to `scale`.
    pub fn set_zoom(&mut self, scale: Vec2)
        ensures
            final(self)@ == (CameraModel { scale: scale@, ..old(self)@ }),
    {
        self.scale = scale;
    }

    /// Multiplies the zoom by `factor`, axis by axis.
    pub fn zoom(&mut self, factor: &Vec2)
        ensures
            final(self)@ == old(self)@.zoomed(factor@),
    {
        let scaled = self.scale.mul(factor).reduced();
        self.scale = scaled;
    }

    /// Zooms by `factor` so that what is seen in the middle of the screen
    /// stays there. Nothing changes where the view matrix cannot be inverted
    /// or a factor is zero.
    pub fn zoom_center(&mut self, factor: &Vec2) -> (r: Result<(), CameraError>)
        ensures
            match r {
                Ok(_) => old(self)@.invertible() && factor@.nonzero() && final(self)@ == old(
                    self,
                )@.zoomed_at(old(self)@.screen_center(), factor@),
                Err(e) => *final(self) == *old(self) && if !old(self)@.invertible() {
                    e == CameraError::Singular
                } else {
                    e == CameraError::ZeroFactor && !factor@.nonzero()
                },
            },
    {
        let center = Point { x: self.screen_size.x.half(), y: self.screen_size.y.half() };
        self.zoom_at_screen_coords(&center, factor)
    }

    /// Zooms by `factor` so that what is seen at the screen point `point`
    /// stays there. Nothing changes where the view matrix cannot be inverted
    /// or a factor is zero.
    pub fn zoom_at_screen_coords(&mut self, point: &Point, factor: &Vec2) -> (r: Result<
        (),
        CameraError,
    >)
        ensures
            match r {
                Ok(_) => old(self)@.invertible() && factor@.nonzero() && final(self)@ == old(
                    self,
                )@.zoomed_at(point@, factor@),
                Err(e) => *final(self) == *old(self) && if !old(self)@.invertible() {
                    e == CameraError::Singular
                } else {
                    e == CameraError::ZeroFactor && !factor@.nonzero()
                },
            },
    {
        let held = match self.screen_to_world_coords(point) {
            None => {
                return Err(CameraError::Singular);
            },
            Some(p) => p,
        };
        let back = match held.sub(&self.position).div(factor) {
            None => {
                return Err(CameraError::ZeroFactor);
            },
            Some(p) => p,
        };
        let position = held.sub(&back).reduced();
        let scale = self.scale.mul(factor).reduced();
        self.position = position;
        self.scale = scale;
        Ok(())
    }

    /// Turns the view further by `angle`.
    pub fn rotate(&mut self, angle: &Rotation)
        ensures
            final(self)@ == (CameraModel {
                rotation: old(self)@.rotation.then_turn(angle@),
                ..old(self)@
            }),
    {
        let turned = self.rotation.then_turn(angle).reduced();
        self.rotation = turned;
    }

    /// Sets the rotation of the view to `angle`.
    pub fn set_rotation(&mut self, angle: Rotation)
        ensures
            final(self)@ == (CameraModel { rotation: angle@, ..old(self)@ }),
    {
        self.rotation = angle;
    }

    /// The size of the surface that is drawn on.
    pub fn screen_size(&self) -> (r: Vec2)
        ensures
            r@ == self@.screen_size,
    {
        self.screen_size.clone()
    }

    /// Sets the size of the surface that is drawn on.
    pub fn set_screen_size(&mut self, new_screen_size: Vec2)
        ensures
            final(self)@ == (CameraModel { screen_size: new_screen_size@, ..old(self)@ }),
    {
        self.screen_size = new_screen_size;
    }
}

} // verus!
