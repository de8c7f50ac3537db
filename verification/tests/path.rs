use fart::canvas::CanvasSpace;
use fart::path::{LineCommand, Path, ToPaths};
use fart::point::{point2, vec2, Point2D};
use fart::polyline::Polyline;
use fart::transform::Transform2D;
use fart::units::NormalSpace;

fn projection() -> Transform2D<NormalSpace, CanvasSpace> {
    Transform2D::scale(190_000, 277_000, 1_000_000).then_translate(vec2(10_000, 10_000))
}

fn every_command() -> Vec<LineCommand<i64, NormalSpace>> {
    vec![
        LineCommand::MoveTo(point2(0, 0)),
        LineCommand::MoveBy(vec2(1_000_000, 1_000_000)),
        LineCommand::LineTo(point2(1_000_000, 1_000_000)),
        LineCommand::LineBy(vec2(500_000, 500_000)),
        LineCommand::HorizontalLineTo(500_000),
        LineCommand::HorizontalLineBy(500_000),
        LineCommand::VerticalLineTo(500_000),
        LineCommand::VerticalLineBy(500_000),
        LineCommand::Close,
        LineCommand::CubicBezierTo {
            control_1: point2(0, 1_000_000),
            control_2: point2(1_000_000, 0),
            end: point2(500_000, 500_000),
        },
        LineCommand::CubicBezierBy {
            control_1: vec2(0, 1_000_000),
            control_2: vec2(1_000_000, 0),
            end: vec2(500_000, 500_000),
        },
        LineCommand::SmoothCubicBezierTo { control: point2(0, 0), end: point2(1_000_000, 0) },
        LineCommand::SmoothCubicBezierBy { control: vec2(0, 0), end: vec2(1_000_000, 0) },
        LineCommand::QuadraticBezierTo { control: point2(0, 500_000), end: point2(500_000, 0) },
        LineCommand::QuadraticBezierBy { control: vec2(0, 500_000), end: vec2(500_000, 0) },
        LineCommand::SmoothQuadraticBezierTo(point2(250_000, 750_000)),
        LineCommand::SmoothQuadraticBezierBy(vec2(250_000, 750_000)),
        LineCommand::ArcTo {
            x_radius: 500_000,
            y_radius: 250_000,
            x_axis_rotation: 45_000,
            large_arc_flag: true,
            sweep_flag: false,
            end: point2(1_000_000, 1_000_000),
        },
        LineCommand::ArcBy {
            x_radius: 500_000,
            y_radius: 250_000,
            x_axis_rotation: 45_000,
            large_arc_flag: false,
            sweep_flag: true,
            end: vec2(1_000_000, 1_000_000),
        },
    ]
}

#[test]
fn transform_maps_every_kind_of_command() {
    let path = Path::with_commands(every_command());
    let image = path.transform(&projection());
    let expected: Vec<LineCommand<i64, CanvasSpace>> = vec![
        LineCommand::MoveTo(point2(10_000, 10_000)),
        LineCommand::MoveBy(vec2(190_000, 277_000)),
        LineCommand::LineTo(point2(200_000, 287_000)),
        LineCommand::LineBy(vec2(95_000, 138_500)),
        LineCommand::HorizontalLineTo(105_000),
        LineCommand::HorizontalLineBy(95_000),
        LineCommand::VerticalLineTo(148_500),
        LineCommand::VerticalLineBy(138_500),
        LineCommand::Close,
        LineCommand::CubicBezierTo {
            control_1: point2(10_000, 287_000),
            control_2: point2(200_000, 10_000),
            end: point2(105_000, 148_500),
        },
        LineCommand::CubicBezierBy {
            control_1: vec2(0, 277_000),
            control_2: vec2(190_000, 0),
            end: vec2(95_000, 138_500),
        },
        LineCommand::SmoothCubicBezierTo {
            control: point2(10_000, 10_000),
            end: point2(200_000, 10_000),
        },
        LineCommand::SmoothCubicBezierBy { control: vec2(0, 0), end: vec2(190_000, 0) },
        LineCommand::QuadraticBezierTo {
            control: point2(10_000, 148_500),
            end: point2(105_000, 10_000),
        },
        LineCommand::QuadraticBezierBy { control: vec2(0, 138_500), end: vec2(95_000, 0) },
        LineCommand::SmoothQuadraticBezierTo(point2(57_500, 217_750)),
        LineCommand::SmoothQuadraticBezierBy(vec2(47_500, 207_750)),
        LineCommand::ArcTo {
            x_radius: 95_000,
            y_radius: 69_250,
            x_axis_rotation: 45_000,
            large_arc_flag: true,
            sweep_flag: false,
            end: point2(200_000, 287_000),
        },
        LineCommand::ArcBy {
            x_radius: 95_000,
            y_radius: 69_250,
            x_axis_rotation: 45_000,
            large_arc_flag: false,
            sweep_flag: true,
            end: vec2(190_000, 277_000),
        },
    ];
    assert_eq!(image.commands, expected);
    assert_eq!(path.commands, every_command());
}

#[test]
fn transform_of_an_empty_path_is_empty() {
    let path: Path<i64, NormalSpace> = Path::new();
    assert!(path.commands.is_empty());
    assert!(path.transform(&projection()).commands.is_empty());
}

#[test]
fn checked_transform_is_none_where_a_coordinate_cannot_be_held() {
    let t: Transform2D<NormalSpace, CanvasSpace> = Transform2D::scale(2, 2, 1);
    let inside = Path::with_commands(vec![LineCommand::LineTo(point2(1, 2))]);
    assert_eq!(
        inside.checked_transform(&t).map(|p| p.commands),
        Some(vec![LineCommand::LineTo(point2(2, 4))])
    );
    assert!(inside.fits(&t));
    let beyond = Path::with_commands(vec![
        LineCommand::LineTo(point2(1, 2)),
        LineCommand::QuadraticBezierTo { control: point2(0, 0), end: point2(0, i64::MAX) },
    ]);
    assert!(beyond.checked_transform(&t).is_none());
    assert!(!beyond.fits(&t));
    let arc = Path::with_commands(vec![LineCommand::ArcBy {
        x_radius: i64::MAX,
        y_radius: 0,
        x_axis_rotation: 0,
        large_arc_flag: false,
        sweep_flag: false,
        end: vec2(0, 0),
    }]);
    assert!(!arc.fits(&t));
}

#[test]
fn anchor_points_of_the_commands_that_name_positions() {
    let a: Point2D<i64, CanvasSpace> = point2(1, 2);
    let b: Point2D<i64, CanvasSpace> = point2(3, 4);
    let c: Point2D<i64, CanvasSpace> = point2(5, 6);
    assert_eq!(LineCommand::MoveTo(a).anchor_points(), Some(vec![a]));
    assert_eq!(LineCommand::LineTo(b).anchor_points(), Some(vec![b]));
    assert_eq!(LineCommand::SmoothQuadraticBezierTo(c).anchor_points(), Some(vec![c]));
    assert_eq!(
        LineCommand::CubicBezierTo { control_1: a, control_2: b, end: c }.anchor_points(),
        Some(vec![a, b, c])
    );
    assert_eq!(
        LineCommand::SmoothCubicBezierTo { control: a, end: b }.anchor_points(),
        Some(vec![a, b])
    );
    assert_eq!(
        LineCommand::QuadraticBezierTo { control: b, end: c }.anchor_points(),
        Some(vec![b, c])
    );
    let close: LineCommand<i64, CanvasSpace> = LineCommand::Close;
    assert_eq!(close.anchor_points(), Some(vec![]));
}

#[test]
fn anchor_points_of_the_commands_that_need_the_pen_position() {
    let unsupported: Vec<LineCommand<i64, CanvasSpace>> = vec![
        LineCommand::MoveBy(vec2(1, 1)),
        LineCommand::LineBy(vec2(1, 1)),
        LineCommand::HorizontalLineTo(1),
        LineCommand::HorizontalLineBy(1),
        LineCommand::VerticalLineTo(1),
        LineCommand::VerticalLineBy(1),
        LineCommand::CubicBezierBy { control_1: vec2(1, 1), control_2: vec2(1, 1), end: vec2(1, 1) },
        LineCommand::SmoothCubicBezierBy { control: vec2(1, 1), end: vec2(1, 1) },
        LineCommand::QuadraticBezierBy { control: vec2(1, 1), end: vec2(1, 1) },
        LineCommand::SmoothQuadraticBezierBy(vec2(1, 1)),
        LineCommand::ArcTo {
            x_radius: 1,
            y_radius: 1,
            x_axis_rotation: 0,
            large_arc_flag: false,
            sweep_flag: false,
            end: point2(1, 1),
        },
        LineCommand::ArcBy {
            x_radius: 1,
            y_radius: 1,
            x_axis_rotation: 0,
            large_arc_flag: false,
            sweep_flag: false,
            end: vec2(1, 1),
        },
    ];
    for command in unsupported {
        assert_eq!(command.anchor_points(), None);
    }
}

#[test]
fn a_path_stands_for_itself() {
    let path: Path<i64, CanvasSpace> =
        Path::with_commands(vec![LineCommand::MoveTo(point2(1, 2)), LineCommand::Close]);
    let paths = path.to_paths();
    assert_eq!(paths.len(), 1);
    assert_eq!(paths[0], path);
    assert_eq!(path.clone(), path);
}

#[test]
fn a_polyline_stands_for_a_move_and_lines() {
    let line: Polyline<i64, CanvasSpace> =
        Polyline::new(vec![point2(0, 0), point2(10, 0), point2(10, 10)]);
    let paths = line.to_paths();
    assert_eq!(paths.len(), 1);
    assert_eq!(
        paths[0].commands,
        vec![
            LineCommand::MoveTo(point2(0, 0)),
            LineCommand::LineTo(point2(10, 0)),
            LineCommand::LineTo(point2(10, 10)),
        ]
    );
}
