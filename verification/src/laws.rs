//! What holds of every camera: the two conversions undo each other, a zoom
//! at a screen point keeps what is seen there, and zooms compose.
use crate::camera::CameraModel;
use crate::geometry::{Pair, Turn};
use crate::matrix::{
    entry, is_planar, planar_determinant, product, product_entry, transform, untransform,
};
use crate::reals::{
    lemma_real_cancel, lemma_real_distrib, lemma_real_div_mul, lemma_real_div_unique,
    lemma_real_mul3, lemma_real_mul4, lemma_real_mul_assoc, lemma_real_mul_comm,
    lemma_real_mul_neg, lemma_real_mul_one, lemma_real_product_nonzero, lemma_real_product_zero,
    lemma_real_squares,
};
use crate::transform::TransformModel;
use vstd::prelude::*;

verus! {

/// The first unknown of two linear equations, times the determinant.
proof fn lemma_eliminate_first(a: real, b: real, c: real, d: real, x: real, y: real)
    ensures
        d * (a * x + b * y) - b * (c * x + d * y) == x * (a * d - b * c),
{
    lemma_real_distrib(d, a * x, b * y);
    lemma_real_distrib(b, c * x, d * y);
    lemma_real_distrib(x, a * d, b * c);
    lemma_real_mul3(x, a, d);
    lemma_real_mul3(d, b, y);
    lemma_real_mul3(x, b, c);
}

/// The second unknown of two linear equations, times the determinant.
proof fn lemma_eliminate_second(a: real, b: real, c: real, d: real, x: real, y: real)
    ensures
        a * (c * x + d * y) - c * (a * x + b * y) == y * (a * d - b * c),
{
    lemma_real_distrib(a, c * x, d * y);
    lemma_real_distrib(c, a * x, b * y);
    lemma_real_distrib(y, a * d, b * c);
    lemma_real_mul3(a, c, x);
    lemma_real_mul3(y, a, d);
    lemma_real_mul3(y, b, c);
}

/// Cramer's numerators, put back into the first equation.
proof fn lemma_restore_first(a: real, b: real, c: real, d: real, x: real, y: real)
    ensures
        a * (d * x - b * y) + b * (a * y - c * x) == x * (a * d - b * c),
{
    lemma_real_distrib(a, d * x, b * y);
    lemma_real_distrib(b, a * y, c * x);
    lemma_real_distrib(x, a * d, b * c);
    lemma_real_mul3(x, a, d);
    lemma_real_mul3(a, b, y);
    lemma_real_mul3(x, b, c);
}

/// Cramer's numerators, put back into the second equation.
proof fn lemma_restore_second(a: real, b: real, c: real, d: real, x: real, y: real)
    ensures
        c * (d * x - b * y) + d * (a * y - c * x) == y * (a * d - b * c),
{
    lemma_real_distrib(c, d * x, b * y);
    lemma_real_distrib(d, a * y, c * x);
    lemma_real_distrib(y, a * d, b * c);
    lemma_real_mul3(c, d, x);
    lemma_real_mul3(y, b, c);
    lemma_real_mul3(y, a, d);
}

/// Where the planar determinant of a matrix is not zero, taking a point
/// through the matrix and back gives the point again.
pub proof fn lemma_untransform_transform(m: Seq<real>, p: Pair)
    requires
        planar_determinant(m) != 0real,
    ensures
        untransform(m, transform(m, p)) == p,
{
    let a = entry(m, 0, 0);
    let b = entry(m, 0, 1);
    let c = entry(m, 1, 0);
    let d = entry(m, 1, 1);
    let det = planar_determinant(m);
    let s = transform(m, p);
    let dx = s.x - entry(m, 0, 3);
    let dy = s.y - entry(m, 1, 3);
    assert(dx == a * p.x + b * p.y);
    assert(dy == c * p.x + d * p.y);
    lemma_eliminate_first(a, b, c, d, p.x, p.y);
    lemma_eliminate_second(a, b, c, d, p.x, p.y);
    lemma_real_div_unique(d * dx - b * dy, det, p.x);
    lemma_real_div_unique(a * dy - c * dx, det, p.y);
}

/// Where the planar determinant of a matrix is not zero, taking a point back
/// through the matrix and forth again gives the point again.
pub proof fn lemma_transform_untransform(m: Seq<real>, p: Pair)
    requires
        planar_determinant(m) != 0real,
    ensures
        transform(m, untransform(m, p)) == p,
{
    let a = entry(m, 0, 0);
    let b = entry(m, 0, 1);
    let c = entry(m, 1, 0);
    let d = entry(m, 1, 1);
    let det = planar_determinant(m);
    let dx = p.x - entry(m, 0, 3);
    let dy = p.y - entry(m, 1, 3);
    let nx = d * dx - b * dy;
    let ny = a * dy - c * dx;
    let w = untransform(m, p);
    lemma_real_div_mul(nx, det);
    lemma_real_div_mul(ny, det);
    assert(w.x * det == nx);
    assert(w.y * det == ny);
    lemma_real_distrib(det, a * w.x, b * w.y);
    lemma_real_distrib(det, c * w.x, d * w.y);
    lemma_real_mul_assoc(a, w.x, det);
    lemma_real_mul_assoc(b, w.y, det);
    lemma_real_mul_assoc(c, w.x, det);
    lemma_real_mul_assoc(d, w.y, det);
    lemma_restore_first(a, b, c, d, dx, dy);
    lemma_restore_second(a, b, c, d, dx, dy);
    assert((a * w.x + b * w.y) * det == dx * det);
    assert((c * w.x + d * w.y) * det == dy * det);
    lemma_real_cancel(a * w.x + b * w.y, dx, det);
    lemma_real_cancel(c * w.x + d * w.y, dy, det);
}

/// One row of a product of two matrices, applied to a point: the row of the
/// first applied to what the second makes of the point.
proof fn lemma_product_row(
    a0: real,
    a1: real,
    a2: real,
    a3: real,
    b: Seq<real>,
    x: real,
    y: real,
)
    requires
        is_planar(b),
    ensures
        (a0 * entry(b, 0, 0) + a1 * entry(b, 1, 0) + a2 * entry(b, 2, 0) + a3 * entry(b, 3, 0)) * x
            + (a0 * entry(b, 0, 1) + a1 * entry(b, 1, 1) + a2 * entry(b, 2, 1) + a3 * entry(
            b,
            3,
            1,
        )) * y + (a0 * entry(b, 0, 3) + a1 * entry(b, 1, 3) + a2 * entry(b, 2, 3) + a3 * entry(
            b,
            3,
            3,
        )) == a0 * (entry(b, 0, 0) * x + entry(b, 0, 1) * y + entry(b, 0, 3)) + a1 * (entry(
            b,
            1,
            0,
        ) * x + entry(b, 1, 1) * y + entry(b, 1, 3)) + a3,
{
    let b00 = entry(b, 0, 0);
    let b01 = entry(b, 0, 1);
    let b03 = entry(b, 0, 3);
    let b10 = entry(b, 1, 0);
    let b11 = entry(b, 1, 1);
    let b13 = entry(b, 1, 3);
    lemma_real_product_zero(a2, entry(b, 2, 0));
    lemma_real_product_zero(a2, entry(b, 2, 1));
    lemma_real_product_zero(a2, entry(b, 2, 3));
    lemma_real_product_zero(a3, entry(b, 3, 0));
    lemma_real_product_zero(a3, entry(b, 3, 1));
    lemma_real_mul_one(a3);
    lemma_real_distrib(x, a0 * b00, a1 * b10);
    lemma_real_distrib(y, a0 * b01, a1 * b11);
    lemma_real_mul_assoc(a0, b00, x);
    lemma_real_mul_assoc(a1, b10, x);
    lemma_real_mul_assoc(a0, b01, y);
    lemma_real_mul_assoc(a1, b11, y);
    lemma_real_distrib(a0, b00 * x + b01 * y, b03);
    lemma_real_distrib(a0, b00 * x, b01 * y);
    lemma_real_distrib(a1, b10 * x + b11 * y, b13);
    lemma_real_distrib(a1, b10 * x, b11 * y);
}

/// A product of two matrices applies the second one first: where the second
/// is a transform of the plane, the product takes a point to where the first
/// takes what the second makes of it.
pub proof fn lemma_product_applies_second_first(a: Seq<real>, b: Seq<real>, p: Pair)
    requires
        is_planar(b),
    ensures
        transform(product(a, b), p) == transform(a, transform(b, p)),
{
    let m = product(a, b);
    assert(entry(m, 0, 0) == product_entry(a, b, 0, 0));
    assert(entry(m, 0, 1) == product_entry(a, b, 0, 1));
    assert(entry(m, 0, 3) == product_entry(a, b, 0, 3));
    assert(entry(m, 1, 0) == product_entry(a, b, 1, 0));
    assert(entry(m, 1, 1) == product_entry(a, b, 1, 1));
    assert(entry(m, 1, 3) == product_entry(a, b, 1, 3));
    lemma_product_row(entry(a, 0, 0), entry(a, 0, 1), entry(a, 0, 2), entry(a, 0, 3), b, p.x, p.y);
    lemma_product_row(entry(a, 1, 0), entry(a, 1, 1), entry(a, 1, 2), entry(a, 1, 3), b, p.x, p.y);
}

/// The matrices that cameras and placements make are transforms of the
/// plane.
pub proof fn lemma_matrices_are_planar(c: CameraModel, t: TransformModel)
    ensures
        is_planar(c.matrix()),
        is_planar(t.matrix()),
{
}

/// What a product of two numbers is where one of them is zero or one.
spec fn simple_term(x: real, y: real) -> bool {
    &&& (x == 0real || y == 0real) ==> x * y == 0real
    &&& x == 1real ==> x * y == y
    &&& y == 1real ==> x * y == x
}

proof fn lemma_simple_term(x: real, y: real)
    ensures
        simple_term(x, y),
{
    if x == 0real || y == 0real {
        lemma_real_product_zero(x, y);
    }
    lemma_real_mul_one(x);
    lemma_real_mul_one(y);
}

/// The four terms of one entry of a product.
proof fn lemma_product_terms(a: Seq<real>, b: Seq<real>, row: int, col: int)
    ensures
        simple_term(entry(a, row, 0), entry(b, 0, col)),
        simple_term(entry(a, row, 1), entry(b, 1, col)),
        simple_term(entry(a, row, 2), entry(b, 2, col)),
        simple_term(entry(a, row, 3), entry(b, 3, col)),
{
    lemma_simple_term(entry(a, row, 0), entry(b, 0, col));
    lemma_simple_term(entry(a, row, 1), entry(b, 1, col));
    lemma_simple_term(entry(a, row, 2), entry(b, 2, col));
    lemma_simple_term(entry(a, row, 3), entry(b, 3, col));
}

/// A product of two transforms of the plane is a transform of the plane.
pub proof fn lemma_product_is_planar(a: Seq<real>, b: Seq<real>)
    requires
        is_planar(a),
        is_planar(b),
    ensures
        is_planar(product(a, b)),
{
    let m = product(a, b);
    lemma_product_terms(a, b, 0, 2);
    lemma_product_terms(a, b, 1, 2);
    lemma_product_terms(a, b, 2, 0);
    lemma_product_terms(a, b, 2, 1);
    lemma_product_terms(a, b, 2, 2);
    lemma_product_terms(a, b, 2, 3);
    lemma_product_terms(a, b, 3, 0);
    lemma_product_terms(a, b, 3, 1);
    lemma_product_terms(a, b, 3, 2);
    lemma_product_terms(a, b, 3, 3);
    assert(entry(m, 0, 2) == product_entry(a, b, 0, 2));
    assert(entry(m, 1, 2) == product_entry(a, b, 1, 2));
    assert(entry(m, 2, 0) == product_entry(a, b, 2, 0));
    assert(entry(m, 2, 1) == product_entry(a, b, 2, 1));
    assert(entry(m, 2, 2) == product_entry(a, b, 2, 2));
    assert(entry(m, 2, 3) == product_entry(a, b, 2, 3));
    assert(entry(m, 3, 0) == product_entry(a, b, 3, 0));
    assert(entry(m, 3, 1) == product_entry(a, b, 3, 1));
    assert(entry(m, 3, 2) == product_entry(a, b, 3, 2));
    assert(entry(m, 3, 3) == product_entry(a, b, 3, 3));
}

/// The matrix that a camera makes for a placed object takes a point of the
/// object to where the camera shows what the placement makes of it.
pub proof fn lemma_apply_matrix_composes(c: CameraModel, t: TransformModel, p: Pair)
    ensures
        transform(product(c.matrix(), t.matrix()), p) == c.world_to_screen(
            transform(t.matrix(), p),
        ),
{
    lemma_matrices_are_planar(c, t);
    lemma_product_applies_second_first(c.matrix(), t.matrix(), p);
}

/// The planar determinant of a view matrix: the two scale factors times the
/// sum of the squares of cosine and sine.
pub proof fn lemma_view_determinant(c: CameraModel)
    ensures
        planar_determinant(c.matrix()) == (c.rotation.cos * c.rotation.cos + c.rotation.sin
            * c.rotation.sin) * (c.scale.x * c.scale.y),
{
    let cos = c.rotation.cos;
    let sin = c.rotation.sin;
    let sx = c.scale.x;
    let sy = c.scale.y;
    let m = c.matrix();
    assert(entry(m, 0, 0) == cos * sx);
    assert(entry(m, 0, 1) == (-sin) * sy);
    assert(entry(m, 1, 0) == sin * sx);
    assert(entry(m, 1, 1) == cos * sy);
    lemma_real_mul4(cos, sx, cos, sy);
    lemma_real_mul_neg(sin, sy);
    lemma_real_mul_neg(sin * sy, sin * sx);
    lemma_real_mul4(sin, sy, sin, sx);
    lemma_real_mul_comm(sy, sx);
    lemma_real_distrib(sx * sy, cos * cos, sin * sin);
}

/// A view matrix can be inverted exactly when neither scale factor is zero
/// and cosine and sine are not both zero.
pub proof fn lemma_view_invertible(c: CameraModel)
    ensures
        c.invertible() == (c.scale.nonzero() && (c.rotation.cos != 0real || c.rotation.sin
            != 0real)),
{
    let cos = c.rotation.cos;
    let sin = c.rotation.sin;
    let sx = c.scale.x;
    let sy = c.scale.y;
    lemma_view_determinant(c);
    lemma_real_squares(cos, sin);
    if c.scale.nonzero() && (cos != 0real || sin != 0real) {
        lemma_real_product_nonzero(sx, sy);
        lemma_real_product_nonzero(cos * cos + sin * sin, sx * sy);
    } else {
        if sx == 0real || sy == 0real {
            lemma_real_product_zero(sx, sy);
        }
        lemma_real_product_zero(cos * cos + sin * sin, sx * sy);
    }
}

/// A camera without rotation, zoom, offset or position shows every world
/// point at the screen point of the same coordinates.
pub proof fn lemma_identity_view(c: CameraModel, p: Pair)
    requires
        c.rotation == (Turn { cos: 1real, sin: 0real }),
        c.scale == (Pair { x: 1real, y: 1real }),
        c.offset == (Pair { x: 0real, y: 0real }),
        c.position == (Pair { x: 0real, y: 0real }),
    ensures
        c.world_to_screen(p) == p,
{
    let m = c.matrix();
    assert(entry(m, 0, 0) == 1real);
    assert(entry(m, 0, 1) == 0real);
    assert(entry(m, 1, 0) == 0real);
    assert(entry(m, 1, 1) == 1real);
    assert(entry(m, 0, 3) == 0real);
    assert(entry(m, 1, 3) == 0real);
}

/// For a camera whose view matrix can be inverted, the two conversions undo
/// each other: world to screen and back gives the world point again, and
/// screen to world and back gives the screen point again.
pub proof fn lemma_round_trip(c: CameraModel, p: Pair)
    requires
        c.invertible(),
    ensures
        c.screen_to_world(c.world_to_screen(p)) == p,
        c.world_to_screen(c.screen_to_world(p)) == p,
{
    lemma_untransform_transform(c.matrix(), p);
    lemma_transform_untransform(c.matrix(), p);
}

/// Zooming twice is zooming once by the product of the factors, and the
/// order of the two zooms does not matter.
pub proof fn lemma_zoom_composes(c: CameraModel, f: Pair, g: Pair)
    ensures
        c.zoomed(f).zoomed(g) == c.zoomed(f.times(g)),
        c.zoomed(f).zoomed(g) == c.zoomed(g).zoomed(f),
{
    lemma_real_mul3(c.scale.x, f.x, g.x);
    lemma_real_mul3(c.scale.y, f.y, g.y);
}

/// One row of a matrix about a pivot: applying it to a point is applying the
/// linear part to the point's distance from the pivot, and adding the
/// target.
proof fn lemma_pivot_row(m0: real, m1: real, x: real, y: real, px: real, py: real, o: real)
    ensures
        m0 * x + m1 * y + (px * (-m0) - py * m1 + o) == m0 * (x - px) + m1 * (y - py) + o,
{
    lemma_real_distrib(m0, x, px);
    lemma_real_distrib(m1, y, py);
    lemma_real_mul_neg(px, m0);
    lemma_real_mul_comm(px, m0);
    lemma_real_mul_comm(py, m1);
}

/// A matrix entry scaled by a zoom factor, applied to a distance divided by
/// that factor, is the entry applied to the distance.
proof fn lemma_zoomed_entry(r: real, s: real, f: real, u: real, e: real)
    requires
        u * f == e,
    ensures
        (r * (s * f)) * u == (r * s) * e,
{
    lemma_real_mul_assoc(r, s, f);
    lemma_real_mul_assoc(r * s, f, u);
    lemma_real_mul_comm(f, u);
}

/// A camera shows its position at its offset.
pub proof fn lemma_position_is_shown_at_offset(c: CameraModel)
    ensures
        c.world_to_screen(c.position) == c.offset,
{
    let cos = c.rotation.cos;
    let sin = c.rotation.sin;
    let sx = c.scale.x;
    let sy = c.scale.y;
    let px = c.position.x;
    let py = c.position.y;
    let m = c.matrix();
    assert(entry(m, 0, 0) == cos * sx);
    assert(entry(m, 0, 1) == (-sin) * sy);
    assert(entry(m, 1, 0) == sin * sx);
    assert(entry(m, 1, 1) == cos * sy);
    assert(entry(m, 0, 3) == px * (-(cos * sx)) - py * ((-sin) * sy) + c.offset.x);
    assert(entry(m, 1, 3) == py * (-(cos * sy)) - px * (sin * sx) + c.offset.y);
    lemma_pivot_row(cos * sx, (-sin) * sy, px, py, px, py, c.offset.x);
    lemma_pivot_row(cos * sy, sin * sx, py, px, py, px, c.offset.y);
    lemma_real_product_zero(cos * sx, px - px);
    lemma_real_product_zero((-sin) * sy, py - py);
    lemma_real_product_zero(cos * sy, py - py);
    lemma_real_product_zero(sin * sx, px - px);
}

/// A placement with scale factors that are not zero puts its pivot, taken in
/// the units of the placed object, at its destination.
pub proof fn lemma_pivot_is_put_at_dest(t: TransformModel)
    requires
        t.scale.nonzero(),
    ensures
        transform(t.matrix(), t.offset.over(t.scale)) == t.dest,
{
    let c = CameraModel {
        offset: t.dest,
        rotation: t.rotation,
        scale: t.scale,
        position: t.offset.over(t.scale),
        screen_size: t.scale,
    };
    assert(c.matrix() == t.matrix());
    lemma_position_is_shown_at_offset(c);
}

/// Dragging by world coordinates: after the position has gone back by
/// `delta`, every world point is shown where the point `delta` further on
/// was shown before.
pub proof fn lemma_world_drag_shifts_the_view(c: CameraModel, delta: Pair, w: Pair)
    ensures
        c.moved_by_world(delta).world_to_screen(w) == c.world_to_screen(w.plus(delta)),
{
    let d = c.moved_by_world(delta);
    let cos = c.rotation.cos;
    let sin = c.rotation.sin;
    let sx = c.scale.x;
    let sy = c.scale.y;
    let px = c.position.x;
    let py = c.position.y;
    let qx = px - delta.x;
    let qy = py - delta.y;
    let m = c.matrix();
    assert(entry(m, 0, 0) == cos * sx);
    assert(entry(m, 0, 1) == (-sin) * sy);
    assert(entry(m, 1, 0) == sin * sx);
    assert(entry(m, 1, 1) == cos * sy);
    assert(entry(m, 0, 3) == px * (-(cos * sx)) - py * ((-sin) * sy) + c.offset.x);
    assert(entry(m, 1, 3) == py * (-(cos * sy)) - px * (sin * sx) + c.offset.y);
    let n = d.matrix();
    assert(entry(n, 0, 0) == cos * sx);
    assert(entry(n, 0, 1) == (-sin) * sy);
    assert(entry(n, 1, 0) == sin * sx);
    assert(entry(n, 1, 1) == cos * sy);
    assert(entry(n, 0, 3) == qx * (-(cos * sx)) - qy * ((-sin) * sy) + c.offset.x);
    assert(entry(n, 1, 3) == qy * (-(cos * sy)) - qx * (sin * sx) + c.offset.y);
    lemma_pivot_row(cos * sx, (-sin) * sy, w.x + delta.x, w.y + delta.y, px, py, c.offset.x);
    lemma_pivot_row(cos * sy, sin * sx, w.y + delta.y, w.x + delta.x, py, px, c.offset.y);
    lemma_pivot_row(cos * sx, (-sin) * sy, w.x, w.y, qx, qy, c.offset.x);
    lemma_pivot_row(cos * sy, sin * sx, w.y, w.x, qy, qx, c.offset.y);
    assert(w.x + delta.x - px == w.x - qx);
    assert(w.y + delta.y - py == w.y - qy);
}

/// Dragging by screen coordinates: after the position has gone back by
/// `delta` divided by the scale, every world point is shown further on by
/// `delta`, turned as the camera is turned. Without rotation the view
/// follows the drag exactly, whatever the zoom.
pub proof fn lemma_screen_drag_follows_the_pointer(c: CameraModel, delta: Pair, w: Pair)
    requires
        c.scale.nonzero(),
    ensures
        ({
            let before = c.world_to_screen(w);
            let after = c.moved_by_screen(delta).world_to_screen(w);
            &&& after.x == before.x + (c.rotation.cos * delta.x - c.rotation.sin * delta.y)
            &&& after.y == before.y + (c.rotation.sin * delta.x + c.rotation.cos * delta.y)
        }),
{
    let step = delta.over(c.scale);
    let cos = c.rotation.cos;
    let sin = c.rotation.sin;
    let sx = c.scale.x;
    let sy = c.scale.y;
    lemma_world_drag_shifts_the_view(c, step, w);
    let m = c.matrix();
    assert(entry(m, 0, 0) == cos * sx);
    assert(entry(m, 0, 1) == (-sin) * sy);
    assert(entry(m, 1, 0) == sin * sx);
    assert(entry(m, 1, 1) == cos * sy);
    lemma_real_div_mul(delta.x, sx);
    lemma_real_div_mul(delta.y, sy);
    lemma_real_distrib(cos * sx, w.x, step.x);
    lemma_real_distrib((-sin) * sy, w.y, step.y);
    lemma_real_distrib(sin * sx, w.x, step.x);
    lemma_real_distrib(cos * sy, w.y, step.y);
    lemma_real_mul_assoc(cos, sx, step.x);
    lemma_real_mul_assoc(-sin, sy, step.y);
    lemma_real_mul_assoc(sin, sx, step.x);
    lemma_real_mul_assoc(cos, sy, step.y);
    lemma_real_mul_comm(sx, step.x);
    lemma_real_mul_comm(sy, step.y);
    lemma_real_mul_neg(sin, delta.y);
}

/// A zoom at a screen point keeps what is seen there: the world point that
/// was seen at `p` before the zoom is seen at `p` after it, the zoomed view
/// can still be inverted, and it finds that same world point at `p`.
pub proof fn lemma_zoom_keeps_pivot(c: CameraModel, p: Pair, f: Pair)
    requires
        c.invertible(),
        f.nonzero(),
    ensures
        c.zoomed_at(p, f).world_to_screen(c.screen_to_world(p)) == p,
        c.zoomed_at(p, f).invertible(),
        c.zoomed_at(p, f).screen_to_world(p) == c.screen_to_world(p),
{
    let z = c.zoomed_at(p, f);
    let w = c.screen_to_world(p);
    let cos = c.rotation.cos;
    let sin = c.rotation.sin;
    let sx = c.scale.x;
    let sy = c.scale.y;
    let px = c.position.x;
    let py = c.position.y;
    let ox = c.offset.x;
    let oy = c.offset.y;
    let ex = w.x - px;
    let ey = w.y - py;
    let u = ex / f.x;
    let v = ey / f.y;
    lemma_real_div_mul(ex, f.x);
    lemma_real_div_mul(ey, f.y);
    assert(z.position.x == w.x - u);
    assert(z.position.y == w.y - v);
    assert(w.x - (w.x - u) == u);
    assert(w.y - (w.y - v) == v);

    // The old view takes the held point to `p`.
    lemma_round_trip(c, p);
    let m = c.matrix();
    assert(entry(m, 0, 0) == cos * sx);
    assert(entry(m, 0, 1) == (-sin) * sy);
    assert(entry(m, 1, 0) == sin * sx);
    assert(entry(m, 1, 1) == cos * sy);
    assert(entry(m, 0, 3) == px * (-(cos * sx)) - py * ((-sin) * sy) + ox);
    assert(entry(m, 1, 3) == py * (-(cos * sy)) - px * (sin * sx) + oy);
    lemma_pivot_row(cos * sx, (-sin) * sy, w.x, w.y, px, py, ox);
    lemma_pivot_row(cos * sy, sin * sx, w.y, w.x, py, px, oy);
    assert(p.x == (cos * sx) * ex + ((-sin) * sy) * ey + ox);
    assert(p.y == (cos * sy) * ey + (sin * sx) * ex + oy);

    // The new view takes it to the same place.
    let tx = sx * f.x;
    let ty = sy * f.y;
    let n = z.matrix();
    assert(entry(n, 0, 0) == cos * tx);
    assert(entry(n, 0, 1) == (-sin) * ty);
    assert(entry(n, 1, 0) == sin * tx);
    assert(entry(n, 1, 1) == cos * ty);
    assert(entry(n, 0, 3) == (w.x - u) * (-(cos * tx)) - (w.y - v) * ((-sin) * ty) + ox);
    assert(entry(n, 1, 3) == (w.y - v) * (-(cos * ty)) - (w.x - u) * (sin * tx) + oy);
    lemma_pivot_row(cos * tx, (-sin) * ty, w.x, w.y, w.x - u, w.y - v, ox);
    lemma_pivot_row(cos * ty, sin * tx, w.y, w.x, w.y - v, w.x - u, oy);
    lemma_zoomed_entry(cos, sx, f.x, u, ex);
    lemma_zoomed_entry(-sin, sy, f.y, v, ey);
    lemma_zoomed_entry(sin, sx, f.x, u, ex);
    lemma_zoomed_entry(cos, sy, f.y, v, ey);
    let q = z.world_to_screen(w);
    assert(q.x == (cos * tx) * u + ((-sin) * ty) * v + ox);
    assert(q.y == (cos * ty) * v + (sin * tx) * u + oy);
    assert(q == p);

    // The new view can be inverted, and finds the held point again.
    lemma_view_invertible(c);
    lemma_view_invertible(z);
    lemma_real_product_nonzero(sx, f.x);
    lemma_real_product_nonzero(sy, f.y);
    lemma_round_trip(z, w);
}

} // verus!
