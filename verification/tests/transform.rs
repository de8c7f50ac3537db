use fart::canvas::CanvasSpace;
use fart::point::{point2, vec2, Point2D, Vector2D};
use fart::transform::Transform2D;
use fart::units::NormalSpace;

fn projection() -> Transform2D<NormalSpace, CanvasSpace> {
    Transform2D::scale(190_000, 277_000, 1_000_000).then_translate(vec2(10_000, 10_000))
}

#[test]
fn scale_then_translate_builds_the_fields() {
    let t = projection();
    assert_eq!(t.scale_x, 190_000);
    assert_eq!(t.scale_y, 277_000);
    assert_eq!(t.divisor, 1_000_000);
    assert_eq!(t.shift_x, 10_000);
    assert_eq!(t.shift_y, 10_000);
}

#[test]
fn identity_and_translation() {
    let id: Transform2D<CanvasSpace, CanvasSpace> = Transform2D::identity();
    let p: Point2D<i64, CanvasSpace> = point2(-7, 9);
    assert_eq!(id.transform_point(p), p);
    let shift: Transform2D<CanvasSpace, CanvasSpace> = Transform2D::translation(5, -5);
    assert_eq!(shift.transform_point(p), point2(-2, 4));
    let v: Vector2D<i64, CanvasSpace> = vec2(3, 4);
    assert_eq!(shift.transform_vector(v), vec2(3, 4));
}

#[test]
fn transform_point_scales_then_shifts() {
    let t = projection();
    assert_eq!(t.transform_point(point2(0, 0)), point2(10_000, 10_000));
    assert_eq!(t.transform_point(point2(1_000_000, 1_000_000)), point2(200_000, 287_000));
    assert_eq!(t.transform_point(point2(500_000, 250_000)), point2(105_000, 79_250));
}

#[test]
fn transform_rounds_down() {
    let t: Transform2D<NormalSpace, CanvasSpace> = Transform2D::scale(1, 1, 2);
    assert_eq!(t.transform_point(point2(3, -3)), point2(1, -2));
    assert_eq!(t.transform_point(point2(1, -1)), point2(0, -1));
    assert_eq!(t.transform_point(point2(4, -4)), point2(2, -2));
    assert_eq!(t.transform_vector(vec2(-1, 5)), vec2(-1, 2));
    let mirror: Transform2D<NormalSpace, CanvasSpace> = Transform2D::scale(-1, -3, 2);
    assert_eq!(mirror.transform_point(point2(3, 1)), point2(-2, -2));
}

#[test]
fn transform_vector_ignores_the_shift() {
    let t = projection();
    assert_eq!(t.transform_vector(vec2(1_000_000, 500_000)), vec2(190_000, 138_500));
}

#[test]
fn checked_point_is_none_beyond_the_range() {
    let t: Transform2D<NormalSpace, CanvasSpace> = Transform2D::scale(2, 1, 1);
    assert_eq!(t.checked_point(point2(i64::MAX, 0)), None);
    assert_eq!(t.checked_point(point2(0, i64::MAX)), Some(point2(0, i64::MAX)));
    assert_eq!(t.checked_point(point2(i64::MAX / 2, 0)), Some(point2(i64::MAX - 1, 0)));
    assert_eq!(t.checked_point(point2(i64::MIN / 2, 0)), Some(point2(i64::MIN, 0)));
    assert_eq!(t.checked_point(point2(i64::MIN / 2 - 1, 0)), None);
    let shift: Transform2D<NormalSpace, CanvasSpace> = Transform2D::translation(1, -1);
    assert_eq!(shift.checked_point(point2(i64::MAX, 0)), None);
    assert_eq!(shift.checked_point(point2(0, i64::MIN)), None);
    assert_eq!(shift.checked_point(point2(i64::MAX - 1, i64::MIN + 1)), Some(point2(i64::MAX, i64::MIN)));
}

#[test]
fn checked_scalars() {
    let t = projection();
    assert_eq!(t.checked_x(1_000_000), Some(200_000));
    assert_eq!(t.checked_y(1_000_000), Some(287_000));
    assert_eq!(t.checked_dx(1_000_000), Some(190_000));
    assert_eq!(t.checked_dy(1_000_000), Some(277_000));
    let wide: Transform2D<NormalSpace, CanvasSpace> = Transform2D::scale(i64::MAX, i64::MIN, 1);
    assert_eq!(wide.checked_dx(2), None);
    assert_eq!(wide.checked_dy(1), Some(i64::MIN));
    assert_eq!(wide.checked_dy(-1), None);
    assert_eq!(wide.checked_vector(vec2(1, 1)), Some(vec2(i64::MAX, i64::MIN)));
    assert_eq!(wide.checked_vector(vec2(1, 2)), None);
}

#[test]
fn products_beyond_an_i64_are_held_until_divided() {
    let t: Transform2D<NormalSpace, CanvasSpace> =
        Transform2D::scale(i64::MAX, i64::MAX, i64::MAX);
    assert_eq!(t.transform_point(point2(i64::MAX, i64::MIN)), point2(i64::MAX, i64::MIN));
}
