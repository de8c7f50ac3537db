use fart::canvas::CanvasSpace;
use fart::point::{point2, Point2D};
use fart::polyline::Polyline;

fn corner(x: i64, y: i64) -> Point2D<i64, CanvasSpace> {
    point2(x, y)
}

#[test]
fn polyline_keeps_its_points_in_order() {
    let points = vec![corner(0, 0), corner(10, 0), corner(10, 10), corner(0, 10)];
    let line = Polyline::new(points.clone());
    assert_eq!(line.len(), 4);
    for i in 0..4 {
        assert_eq!(line.get(i), Some(points[i]));
    }
    assert_eq!(line.get(4), None);
    assert_eq!(line.get(usize::MAX), None);
    assert_eq!(line.vertices(), &points[..]);
}

#[test]
fn polyline_of_two_points() {
    let line = Polyline::new(vec![corner(-5, 7), corner(3, -2)]);
    assert_eq!(line.len(), 2);
    assert_eq!(line.get(0), Some(corner(-5, 7)));
    assert_eq!(line.get(1), Some(corner(3, -2)));
    assert_eq!(line.get(2), None);
}

#[test]
fn polyline_copies_are_equal() {
    let line = Polyline::new(vec![corner(-5, 7), corner(3, -2), corner(8, 8)]);
    let copy = line.clone();
    assert_eq!(copy, line);
    assert_eq!(copy.len(), 3);
    assert_eq!(copy.get(2), Some(corner(8, 8)));
    assert_ne!(copy, Polyline::new(vec![corner(-5, 7), corner(3, -2)]));
}
