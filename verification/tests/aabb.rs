use fart::aabb::Aabb;
use fart::canvas::CanvasSpace;
use fart::point::point2;

#[test]
fn new_box_keeps_its_corners() {
    let aabb: Aabb<i64, CanvasSpace> = Aabb::new(point2(-1, 2), point2(3, 10));
    assert_eq!(aabb.min(), point2(-1, 2));
    assert_eq!(aabb.max(), point2(3, 10));
    assert_eq!(aabb.width(), 4);
    assert_eq!(aabb.height(), 8);
}

#[test]
fn a_box_of_one_point_has_no_extent() {
    let aabb: Aabb<i64, CanvasSpace> = Aabb::new(point2(5, 5), point2(5, 5));
    assert_eq!(aabb.width(), 0);
    assert_eq!(aabb.height(), 0);
}

#[test]
fn enlarge_stretches_where_needed() {
    let aabb: Aabb<i64, CanvasSpace> = Aabb::new(point2(0, 0), point2(10, 10));
    assert_eq!(aabb.enlarge(point2(5, 5)), aabb);
    assert_eq!(aabb.enlarge(point2(0, 10)), aabb);
    assert_eq!(aabb.enlarge(point2(-1, 5)), Aabb::new(point2(-1, 0), point2(10, 10)));
    assert_eq!(aabb.enlarge(point2(5, 11)), Aabb::new(point2(0, 0), point2(10, 11)));
    assert_eq!(aabb.enlarge(point2(20, -20)), Aabb::new(point2(0, -20), point2(20, 10)));
}

#[test]
fn enlarging_the_box_that_holds_nothing_gives_the_box_of_the_point() {
    let nothing: Aabb<i64, CanvasSpace> = Aabb::empty();
    assert_eq!(nothing.enlarge(point2(3, -4)), Aabb::new(point2(3, -4), point2(3, -4)));
    assert_eq!(
        nothing.enlarge(point2(i64::MAX, i64::MIN)),
        Aabb::new(point2(i64::MAX, i64::MIN), point2(i64::MAX, i64::MIN))
    );
}
