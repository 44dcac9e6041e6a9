use camera2d::camera::{Camera, CameraError};
use camera2d::geometry::{Point, Rotation, Vec2};
use camera2d::matrix::Mat4;
use camera2d::rational::Rational;
use camera2d::transform::Transform;

fn num(n: i64) -> Rational {
    Rational::from_i64(n)
}

fn part(n: i64, d: i64) -> Rational {
    Rational::from_ratio(n, d).unwrap()
}

fn of_float(x: f64) -> Rational {
    Rational::from_binary64_bits(x.to_bits()).unwrap()
}

fn wide_screen() -> Camera {
    Camera::new(
        Point::from_i64(960, 540),
        Rotation::identity(),
        Vec2::one(),
        Point::zero(),
        Vec2::from_i64(1920, 1080),
    )
}

fn tilted() -> Camera {
    Camera::new(
        Point::from_i64(960, 540),
        Rotation::new(part(3, 5), part(4, 5)),
        Vec2::new(num(2), part(1, 3)),
        Point::new(part(7, 2), num(-11)),
        Vec2::from_i64(1920, 1080),
    )
}

fn same_camera(a: &Camera, b: &Camera) -> bool {
    a.offset.eq(&b.offset)
        && a.rotation.cos.eq(&b.rotation.cos)
        && a.rotation.sin.eq(&b.rotation.sin)
        && a.scale.eq(&b.scale)
        && a.position.eq(&b.position)
        && a.screen_size.eq(&b.screen_size)
}

#[test]
fn default_camera_shows_the_world_as_it_is() {
    let camera = Camera::default();
    assert!(camera.offset.eq(&Point::zero()));
    assert!(camera.position.eq(&Point::zero()));
    assert!(camera.scale.eq(&Vec2::one()));
    assert!(camera.rotation.cos.eq(&num(1)));
    assert!(camera.rotation.sin.is_zero());
    assert!(camera.screen_size.eq(&Vec2::from_i64(1920, 1080)));
    assert!(camera.to_matrix().eq(&Mat4::identity()));
}

#[test]
fn identity_camera_maps_every_point_to_itself() {
    let camera = Camera::default();
    let points = [
        Point::zero(),
        Point::from_i64(1, 0),
        Point::from_i64(-37, 1_000_000),
        Point::new(part(1, 3), part(-22, 7)),
        Point::new(of_float(0.1), of_float(-1e-300)),
        Point::new(of_float(1e300), of_float(123.456)),
    ];
    for p in points.iter() {
        assert!(camera.world_to_screen_coords(p).eq(p));
        assert!(camera.screen_to_world_coords(p).unwrap().eq(p));
    }
}

#[test]
fn world_origin_is_shown_at_the_offset() {
    let camera = wide_screen();
    let seen = camera.world_to_screen_coords(&Point::from_i64(0, 0));
    assert!(seen.eq(&Point::from_i64(960, 540)));
    let seen = camera.world_to_screen_coords(&Point::from_i64(100, 0));
    assert!(seen.eq(&Point::from_i64(1060, 540)));
}

#[test]
fn quarter_turn_sends_world_x_down_the_screen() {
    let mut camera = wide_screen();
    camera.set_rotation(Rotation::quarter_turn());
    let seen = camera.world_to_screen_coords(&Point::from_i64(100, 0));
    assert!(seen.eq(&Point::from_i64(960, 640)));
    let seen = camera.world_to_screen_coords(&Point::from_i64(0, 100));
    assert!(seen.eq(&Point::from_i64(860, 540)));
}

#[test]
fn view_matrix_of_a_tilted_camera() {
    let m = tilted().to_matrix();
    let expected = Mat4::affine(
        part(6, 5),
        part(-4, 15),
        part(14293, 15),
        part(8, 5),
        part(1, 5),
        part(2683, 5),
    );
    assert!(m.eq(&expected));
    assert!(m.transform_point(&tilted().position).eq(&tilted().offset));
}

#[test]
fn conversions_undo_each_other() {
    let cameras = [wide_screen(), tilted(), Camera::default()];
    let points = [
        Point::zero(),
        Point::from_i64(100, -250),
        Point::new(part(1, 3), part(-22, 7)),
        Point::new(of_float(0.1), of_float(1234.5678)),
    ];
    for camera in cameras.iter() {
        for p in points.iter() {
            let screen = camera.world_to_screen_coords(p);
            assert!(camera.screen_to_world_coords(&screen).unwrap().eq(p));
            let world = camera.screen_to_world_coords(p).unwrap();
            assert!(camera.world_to_screen_coords(&world).eq(p));
        }
    }
}

#[test]
fn screen_to_world_of_a_scaled_camera() {
    let mut camera = wide_screen();
    camera.set_zoom(Vec2::from_i64(2, 4));
    let world = camera.screen_to_world_coords(&Point::from_i64(1000, 500)).unwrap();
    assert!(world.eq(&Point::from_i64(20, -10)));
}

#[test]
fn screen_to_world_needs_an_invertible_view() {
    let mut camera = wide_screen();
    camera.set_zoom(Vec2::from_i64(0, 1));
    assert!(camera.screen_to_world_coords(&Point::zero()).is_none());
    assert!(camera.world_view().is_none());
    camera.set_zoom(Vec2::from_i64(1, 0));
    assert!(camera.screen_to_world_coords(&Point::zero()).is_none());
    camera.set_zoom(Vec2::one());
    camera.set_rotation(Rotation::new(num(0), num(0)));
    assert!(camera.screen_to_world_coords(&Point::zero()).is_none());
    camera.set_rotation(Rotation::new(num(0), num(-1)));
    assert!(camera.screen_to_world_coords(&Point::zero()).is_some());
}

#[test]
fn try_new_refuses_what_cannot_be_inverted() {
    let make = |rotation: Rotation, scale: Vec2| {
        Camera::try_new(
            Point::from_i64(960, 540),
            rotation,
            scale,
            Point::zero(),
            Vec2::from_i64(1920, 1080),
        )
    };
    assert!(matches!(
        make(Rotation::identity(), Vec2::from_i64(0, 1)),
        Err(CameraError::ZeroScale)
    ));
    assert!(matches!(
        make(Rotation::new(num(0), num(0)), Vec2::from_i64(1, 0)),
        Err(CameraError::ZeroScale)
    ));
    assert!(matches!(
        make(Rotation::new(num(0), num(0)), Vec2::one()),
        Err(CameraError::Singular)
    ));
    let camera = make(Rotation::identity(), Vec2::one()).ok().unwrap();
    assert!(same_camera(&camera, &wide_screen()));
}

#[test]
fn world_view_has_a_width_and_no_height() {
    let rect = wide_screen().world_view().unwrap();
    assert!(rect.top_left.eq(&Point::from_i64(-960, -540)));
    assert!(rect.width_squared.eq(&num(1920 * 1920)));
    assert!(rect.height_squared.is_zero());
    let mut camera = wide_screen();
    camera.set_zoom(Vec2::from_i64(2, 2));
    camera.set_rotation(Rotation::quarter_turn());
    let rect = camera.world_view().unwrap();
    assert!(rect.top_left.eq(&Point::from_i64(-270, 480)));
    assert!(rect.width_squared.eq(&num(960 * 960)));
    assert!(rect.height_squared.is_zero());
}

#[test]
fn set_position_moves_the_shown_point() {
    let mut camera = wide_screen();
    camera.set_position(Point::from_i64(30, 40));
    assert!(camera.position.eq(&Point::from_i64(30, 40)));
    let seen = camera.world_to_screen_coords(&Point::from_i64(30, 40));
    assert!(seen.eq(&Point::from_i64(960, 540)));
    let mut expected = wide_screen();
    expected.position = Point::from_i64(30, 40);
    assert!(same_camera(&camera, &expected));
}

#[test]
fn set_offset_multiplies_by_the_scale_once() {
    let mut camera = Camera::default();
    camera.set_zoom(Vec2::from_i64(2, 2));
    camera.set_offset(&Point::from_i64(10, 10));
    assert!(camera.offset.eq(&Point::from_i64(20, 20)));
    camera.set_zoom(Vec2::from_i64(4, 4));
    assert!(camera.offset.eq(&Point::from_i64(20, 20)));
    assert!(camera.scale.eq(&Vec2::from_i64(4, 4)));
    camera.set_offset(&Point::from_i64(10, 10));
    assert!(camera.offset.eq(&Point::from_i64(40, 40)));
}

#[test]
fn moving_by_world_coords_takes_the_delta_away() {
    let mut camera = Camera::default();
    camera.move_by_world_coords(&Point::from_i64(1, 0));
    assert!(camera.position.eq(&Point::from_i64(-1, 0)));
    camera.move_by_world_coords(&Point::from_i64(-3, 5));
    assert!(camera.position.eq(&Point::from_i64(2, -5)));
}

#[test]
fn moving_by_screen_coords_divides_by_the_scale() {
    let mut camera = Camera::default();
    camera.set_zoom(Vec2::from_i64(2, 1));
    assert_eq!(camera.move_by_screen_coords(&Point::from_i64(1, 0)), Ok(()));
    assert!(camera.position.eq(&Point::new(part(-1, 2), num(0))));
    assert!(camera.position.eq(&Point::new(of_float(-0.5), of_float(0.0))));
    assert_eq!(camera.move_by_screen_coords(&Point::from_i64(0, 3)), Ok(()));
    assert!(camera.position.eq(&Point::new(part(-1, 2), num(-3))));
}

#[test]
fn moving_by_screen_coords_needs_a_scale() {
    let mut camera = tilted();
    camera.set_zoom(Vec2::from_i64(0, 1));
    let before = camera.clone();
    assert_eq!(
        camera.move_by_screen_coords(&Point::from_i64(1, 1)),
        Err(CameraError::ZeroScale)
    );
    assert!(same_camera(&camera, &before));
    camera.set_zoom(Vec2::from_i64(1, 0));
    assert_eq!(
        camera.move_by_screen_coords(&Point::from_i64(1, 1)),
        Err(CameraError::ZeroScale)
    );
}

#[test]
fn zoom_multiplies_the_scale() {
    let mut camera = wide_screen();
    assert!(camera.get_zoom().eq(&Vec2::one()));
    camera.zoom(&Vec2::from_i64(2, 3));
    assert!(camera.get_zoom().eq(&Vec2::from_i64(2, 3)));
    camera.zoom(&Vec2::new(part(1, 4), num(5)));
    assert!(camera.get_zoom().eq(&Vec2::new(part(1, 2), num(15))));
    assert!(camera.position.eq(&Point::zero()));
    assert!(camera.offset.eq(&Point::from_i64(960, 540)));
}

#[test]
fn two_zooms_are_one_zoom_by_the_product() {
    let f = Vec2::new(part(11, 10), part(3, 7));
    let g = Vec2::new(part(-5, 2), of_float(0.1));
    let mut twice = tilted();
    twice.zoom(&f);
    twice.zoom(&g);
    let mut once = tilted();
    once.zoom(&f.mul(&g));
    assert!(same_camera(&twice, &once));
    let mut swapped = tilted();
    swapped.zoom(&g);
    swapped.zoom(&f);
    assert!(same_camera(&twice, &swapped));
}

#[test]
fn zoom_at_a_screen_point_keeps_what_is_seen_there() {
    let pivots = [Point::from_i64(1000, 200), Point::zero(), Point::new(part(1, 3), num(77))];
    let factors = [Vec2::from_i64(2, 2), Vec2::new(part(11, 10), part(3, 7)), Vec2::from_i64(-1, 5)];
    for start in [wide_screen(), tilted()].iter() {
        for pivot in pivots.iter() {
            for factor in factors.iter() {
                let mut camera = start.clone();
                let held = camera.screen_to_world_coords(pivot).unwrap();
                assert_eq!(camera.zoom_at_screen_coords(pivot, factor), Ok(()));
                assert!(camera.scale.eq(&start.scale.mul(factor)));
                assert!(camera.world_to_screen_coords(&held).eq(pivot));
                assert!(camera.screen_to_world_coords(pivot).unwrap().eq(&held));
                let seen = camera.screen_to_world_coords(pivot).unwrap();
                assert!(camera.world_to_screen_coords(&seen).eq(pivot));
            }
        }
    }
}

#[test]
fn zoom_at_a_screen_point_moves_the_position_towards_it() {
    let mut camera = wide_screen();
    assert_eq!(
        camera.zoom_at_screen_coords(&Point::from_i64(1060, 640), &Vec2::from_i64(2, 4)),
        Ok(())
    );
    assert!(camera.position.eq(&Point::from_i64(50, 75)));
    assert!(camera.scale.eq(&Vec2::from_i64(2, 4)));
    assert!(camera.offset.eq(&Point::from_i64(960, 540)));
}

#[test]
fn zoom_center_is_a_zoom_at_the_middle_of_the_screen() {
    let factor = Vec2::new(part(3, 2), num(2));
    let mut offset_camera = tilted();
    offset_camera.set_screen_size(Vec2::from_i64(801, 600));
    let mut by_center = offset_camera.clone();
    assert_eq!(by_center.zoom_center(&factor), Ok(()));
    let mut by_point = offset_camera.clone();
    let middle = Point::new(part(801, 2), num(300));
    assert_eq!(by_point.zoom_at_screen_coords(&middle, &factor), Ok(()));
    assert!(same_camera(&by_center, &by_point));
    let held = offset_camera.screen_to_world_coords(&middle).unwrap();
    assert!(by_center.world_to_screen_coords(&held).eq(&middle));
}

#[test]
fn zoom_center_leaves_a_centered_camera_in_place() {
    let mut camera = wide_screen();
    assert_eq!(camera.zoom_center(&Vec2::from_i64(3, 3)), Ok(()));
    assert!(camera.position.eq(&Point::zero()));
    assert!(camera.scale.eq(&Vec2::from_i64(3, 3)));
}

#[test]
fn zooms_that_cannot_be_made_change_nothing() {
    let mut camera = tilted();
    let before = camera.clone();
    let at = Point::from_i64(5, 5);
    assert_eq!(
        camera.zoom_at_screen_coords(&at, &Vec2::from_i64(0, 2)),
        Err(CameraError::ZeroFactor)
    );
    assert_eq!(
        camera.zoom_at_screen_coords(&at, &Vec2::from_i64(2, 0)),
        Err(CameraError::ZeroFactor)
    );
    assert_eq!(camera.zoom_center(&Vec2::zero()), Err(CameraError::ZeroFactor));
    assert!(same_camera(&camera, &before));
    camera.set_zoom(Vec2::from_i64(0, 1));
    assert_eq!(
        camera.zoom_at_screen_coords(&at, &Vec2::from_i64(2, 2)),
        Err(CameraError::Singular)
    );
    assert_eq!(
        camera.zoom_at_screen_coords(&at, &Vec2::from_i64(0, 2)),
        Err(CameraError::Singular)
    );
    assert_eq!(camera.zoom_center(&Vec2::one()), Err(CameraError::Singular));
    assert!(camera.scale.eq(&Vec2::from_i64(0, 1)));
    assert!(camera.position.eq(&before.position));
}

#[test]
fn rotate_adds_to_the_angle() {
    let mut camera = wide_screen();
    camera.rotate(&Rotation::quarter_turn());
    assert!(camera.rotation.cos.is_zero());
    assert!(camera.rotation.sin.eq(&num(1)));
    camera.rotate(&Rotation::quarter_turn());
    assert!(camera.rotation.cos.eq(&num(-1)));
    assert!(camera.rotation.sin.is_zero());
    let seen = camera.world_to_screen_coords(&Point::from_i64(100, 0));
    assert!(seen.eq(&Point::from_i64(860, 540)));
    camera.set_rotation(Rotation::identity());
    assert!(camera.rotation.cos.eq(&num(1)));
    assert!(camera.rotation.sin.is_zero());
}

#[test]
fn screen_size_is_kept_as_given() {
    let mut camera = wide_screen();
    assert!(camera.screen_size().eq(&Vec2::from_i64(1920, 1080)));
    camera.set_screen_size(Vec2::from_i64(800, 600));
    assert!(camera.screen_size().eq(&Vec2::from_i64(800, 600)));
    let mut expected = wide_screen();
    expected.screen_size = Vec2::from_i64(800, 600);
    assert!(same_camera(&camera, &expected));
}

#[test]
fn camera_matrix_for_an_object_applies_the_object_first() {
    let camera = tilted();
    let object = Transform {
        dest: Point::from_i64(10, 20),
        rotation: Rotation::quarter_turn(),
        scale: Vec2::from_i64(2, 4),
        offset: Point::from_i64(4, 8),
    };
    let m = camera.apply_matrix(&object).unwrap();
    assert!(m.eq(&camera.to_matrix().mul_mat4(&object.to_matrix().unwrap())));
    let p = Point::from_i64(3, 2);
    let placed = object.to_matrix().unwrap().transform_point(&p);
    assert!(placed.eq(&Point::from_i64(10, 22)));
    assert!(m.transform_point(&p).eq(&camera.world_to_screen_coords(&placed)));
    let mut flat = object.clone();
    flat.scale = Vec2::from_i64(2, 0);
    assert!(camera.apply_matrix(&flat).is_none());
}

#[test]
fn dragging_by_world_coords_shifts_what_is_seen() {
    let delta = Point::new(num(3), part(-5, 2));
    let w = Point::from_i64(10, 20);
    for start in [wide_screen(), tilted()].iter() {
        let mut camera = start.clone();
        camera.move_by_world_coords(&delta);
        let after = camera.world_to_screen_coords(&w);
        let before = start.world_to_screen_coords(&w.add(&delta));
        assert!(after.eq(&before));
    }
}

#[test]
fn dragging_by_screen_coords_follows_the_pointer() {
    let delta = Point::new(num(30), part(-5, 2));
    let w = Point::from_i64(10, 20);
    let mut start = wide_screen();
    start.set_zoom(Vec2::new(num(2), part(1, 3)));
    let mut camera = start.clone();
    assert_eq!(camera.move_by_screen_coords(&delta), Ok(()));
    let after = camera.world_to_screen_coords(&w);
    assert!(after.eq(&start.world_to_screen_coords(&w).add(&delta)));

    let mut turned = tilted();
    assert_eq!(turned.move_by_screen_coords(&delta), Ok(()));
    let after = turned.world_to_screen_coords(&w);
    let shift = Point::new(
        part(3, 5).mul(&delta.x).sub(&part(4, 5).mul(&delta.y)),
        part(4, 5).mul(&delta.x).add(&part(3, 5).mul(&delta.y)),
    );
    assert!(after.eq(&tilted().world_to_screen_coords(&w).add(&shift)));
}

#[test]
fn camera_shows_its_position_at_its_offset() {
    for camera in [wide_screen(), tilted(), Camera::default()].iter() {
        assert!(camera.world_to_screen_coords(&camera.position).eq(&camera.offset));
        assert!(camera.screen_to_world_coords(&camera.offset).unwrap().eq(&camera.position));
    }
}

#[test]
fn moved_camera_is_kept_in_lowest_terms() {
    let mut camera = wide_screen();
    for _ in 0..40 {
        camera.zoom(&Vec2::new(part(1, 2), part(3, 2)));
        camera.zoom(&Vec2::new(num(2), part(2, 3)));
        camera.move_by_world_coords(&Point::new(part(1, 3), part(1, 6)));
        camera.move_by_world_coords(&Point::new(part(2, 3), part(-1, 6)));
    }
    assert!(camera.scale.eq(&Vec2::one()));
    assert!(camera.scale.x.denominator().eq(&camera2d::natural::BigNat::from_u64(1)));
    assert!(camera.scale.y.denominator().eq(&camera2d::natural::BigNat::from_u64(1)));
    assert!(camera.position.eq(&Point::from_i64(-40, 0)));
    assert!(camera.position.x.denominator().eq(&camera2d::natural::BigNat::from_u64(1)));
    assert!(camera.position.y.denominator().eq(&camera2d::natural::BigNat::from_u64(1)));
}

#[test]
fn camera_matrix_for_an_object_stays_in_the_plane() {
    let object = Transform {
        dest: Point::from_i64(10, 20),
        rotation: Rotation::new(part(5, 13), part(12, 13)),
        scale: Vec2::from_i64(2, 4),
        offset: Point::from_i64(4, 8),
    };
    let m = tilted().apply_matrix(&object).unwrap();
    let cells = m.to_cols_array();
    for i in [2usize, 3, 6, 7, 8, 9, 11, 14] {
        assert!(cells[i].is_zero(), "cell {}", i);
    }
    assert!(cells[10].eq(&num(1)));
    assert!(cells[15].eq(&num(1)));
}
