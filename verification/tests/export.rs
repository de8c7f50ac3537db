use fart::canvas::{Canvas, CanvasSpace, Rgb};
use fart::decimal::{format_natural, format_thousandths};
use fart::export::{format_rgb, path_data};
use fart::path::{LineCommand, Path};
use fart::point::{point2, vec2};
use fart::units::{Inches, Millis, NormalSpace, Paper};

#[test]
fn natural_numbers_as_text() {
    assert_eq!(format_natural(0), "0");
    assert_eq!(format_natural(7), "7");
    assert_eq!(format_natural(10), "10");
    assert_eq!(format_natural(1234567890), "1234567890");
    assert_eq!(format_natural(u128::MAX), u128::MAX.to_string());
}

#[test]
fn thousandths_as_decimal_text() {
    assert_eq!(format_thousandths(0), "0");
    assert_eq!(format_thousandths(1), "0.001");
    assert_eq!(format_thousandths(10), "0.01");
    assert_eq!(format_thousandths(100), "0.1");
    assert_eq!(format_thousandths(350), "0.35");
    assert_eq!(format_thousandths(1_000), "1");
    assert_eq!(format_thousandths(10_500), "10.5");
    assert_eq!(format_thousandths(10_050), "10.05");
    assert_eq!(format_thousandths(10_005), "10.005");
    assert_eq!(format_thousandths(210_000), "210");
    assert_eq!(format_thousandths(123_456), "123.456");
    assert_eq!(format_thousandths(-350), "-0.35");
    assert_eq!(format_thousandths(-1_000), "-1");
    assert_eq!(format_thousandths(-12_340), "-12.34");
    assert_eq!(format_thousandths(i64::MAX as i128), "9223372036854775.807");
    assert_eq!(format_thousandths(i64::MIN as i128), "-9223372036854775.808");
}

#[test]
fn thousandths_read_as_the_number_they_stand_for() {
    for v in [0i64, 1, 999, 1_000, 1_001, 25_400, 297_000, -1, -999, -1_000, -53_500] {
        let text = format_thousandths(v as i128);
        let read: f64 = text.parse().unwrap();
        assert!((read * 1000.0 - v as f64).abs() < 1e-6, "{} for {}", text, v);
    }
}

#[test]
fn colours_as_stroke_paint() {
    assert_eq!(format_rgb(Rgb { red: 0, green: 0, blue: 0 }), "rgb(0,0,0)");
    assert_eq!(format_rgb(Rgb { red: 255, green: 128, blue: 9 }), "rgb(255,128,9)");
}

#[test]
fn path_data_of_every_kind_of_command() {
    let path: Path<i64, CanvasSpace> = Path::with_commands(vec![
        LineCommand::MoveTo(point2(10_000, 10_500)),
        LineCommand::MoveBy(vec2(-1_000, 250)),
        LineCommand::LineTo(point2(200_000, 287_000)),
        LineCommand::LineBy(vec2(1, -1)),
        LineCommand::HorizontalLineTo(5_000),
        LineCommand::HorizontalLineBy(-5_000),
        LineCommand::VerticalLineTo(6_000),
        LineCommand::VerticalLineBy(-6_000),
        LineCommand::CubicBezierTo {
            control_1: point2(1_000, 2_000),
            control_2: point2(3_000, 4_000),
            end: point2(5_000, 6_000),
        },
        LineCommand::CubicBezierBy {
            control_1: vec2(1_000, 2_000),
            control_2: vec2(3_000, 4_000),
            end: vec2(5_000, 6_000),
        },
        LineCommand::SmoothCubicBezierTo { control: point2(1_000, 2_000), end: point2(3_000, 4_000) },
        LineCommand::SmoothCubicBezierBy { control: vec2(1_000, 2_000), end: vec2(3_000, 4_000) },
        LineCommand::QuadraticBezierTo { control: point2(1_000, 2_000), end: point2(3_000, 4_000) },
        LineCommand::QuadraticBezierBy { control: vec2(1_000, 2_000), end: vec2(3_000, 4_000) },
        LineCommand::SmoothQuadraticBezierTo(point2(7_000, 8_000)),
        LineCommand::SmoothQuadraticBezierBy(vec2(7_000, 8_000)),
        LineCommand::ArcTo {
            x_radius: 25_000,
            y_radius: 12_500,
            x_axis_rotation: -30_000,
            large_arc_flag: true,
            sweep_flag: false,
            end: point2(50_000, 25_000),
        },
        LineCommand::ArcBy {
            x_radius: 25_000,
            y_radius: 12_500,
            x_axis_rotation: 45_500,
            large_arc_flag: false,
            sweep_flag: true,
            end: vec2(50_000, 25_000),
        },
        LineCommand::Close,
    ]);
    assert_eq!(
        path_data(&path),
        "M10,10.5 m-1,0.25 L200,287 l0.001,-0.001 H5 h-5 V6 v-6 \
         C1,2,3,4,5,6 c1,2,3,4,5,6 S1,2,3,4 s1,2,3,4 Q1,2,3,4 q1,2,3,4 T7,8 t7,8 \
         A25,12.5,-30,1,0,50,25 a25,12.5,45.5,0,1,50,25 z"
    );
}

#[test]
fn path_data_of_short_paths() {
    let empty: Path<i64, CanvasSpace> = Path::new();
    assert_eq!(path_data(&empty), "");
    let close: Path<i64, CanvasSpace> = Path::with_commands(vec![LineCommand::Close]);
    assert_eq!(path_data(&close), "z");
    let closed_twice: Path<i64, CanvasSpace> =
        Path::with_commands(vec![LineCommand::Close, LineCommand::Close]);
    assert_eq!(path_data(&closed_twice), "z z");
}

#[test]
fn svg_of_an_empty_canvas() {
    let canvas = Canvas::new(Paper::new(Inches(3_000), Inches(4_500)));
    assert_eq!(
        canvas.create_svg().to_string(),
        "<svg height=\"4.5in\" viewBox=\"0 0 3 4.5\" width=\"3in\" \
         xmlns=\"http://www.w3.org/2000/svg\" \
         xmlns:inkscape=\"http://www.inkscape.org/namespaces/inkscape\"/>"
    );
}

#[test]
fn svg_of_two_layers_with_a_path_each() {
    let mut canvas =
        Canvas::new(Paper::new(Millis(210_000), Millis(297_000)).add_margin(Millis(10_000)));
    let thin = canvas.create_layer(Rgb { red: 0, green: 0, blue: 203 }, Millis(350));
    let thick = canvas.create_layer(Rgb { red: 211, green: 10, blue: 10 }, Millis(1_200));
    let diagonal: Path<i64, NormalSpace> = Path::with_commands(vec![
        LineCommand::MoveTo(point2(0, 0)),
        LineCommand::LineTo(point2(1_000_000, 1_000_000)),
    ]);
    let corner: Path<i64, CanvasSpace> = Path::with_commands(vec![
        LineCommand::MoveTo(point2(0, 0)),
        LineCommand::LineTo(point2(0, 500)),
        LineCommand::LineTo(point2(500, 500)),
        LineCommand::Close,
    ]);
    canvas.draw(thick, corner);
    canvas.draw_n(thin, diagonal);
    let expected = [
        "<svg height=\"297mm\" viewBox=\"0 0 210 297\" width=\"210mm\" \
         xmlns=\"http://www.w3.org/2000/svg\" \
         xmlns:inkscape=\"http://www.inkscape.org/namespaces/inkscape\">",
        "<g fill=\"none\" id=\"layer1\" inkscape:groupmode=\"layer\" inkscape:label=\"1\" \
         stroke=\"rgb(0,0,203)\" stroke-linecap=\"round\" style=\"display:inline\">",
        "<path d=\"M10,10 L200,287\" stroke-width=\"0.35\"/>",
        "</g>",
        "<g fill=\"none\" id=\"layer2\" inkscape:groupmode=\"layer\" inkscape:label=\"2\" \
         stroke=\"rgb(211,10,10)\" stroke-linecap=\"round\" style=\"display:inline\">",
        "<path d=\"M10,10 L10,10.5 L10.5,10.5 z\" stroke-width=\"1.2\"/>",
        "</g>",
        "</svg>",
    ];
    let document = canvas.create_svg().to_string();
    assert_eq!(document.lines().collect::<Vec<_>>(), expected);
    assert_eq!(document.matches("<g ").count(), 2);
    assert_eq!(document.matches("<path ").count(), 2);
}

#[test]
fn svg_keeps_the_order_of_creation_after_a_layer_was_removed() {
    let mut canvas = Canvas::new(Paper::new(Millis(100_000), Millis(100_000)));
    let first = canvas.create_layer(Rgb { red: 1, green: 1, blue: 1 }, Millis(100));
    let _second = canvas.create_layer(Rgb { red: 2, green: 2, blue: 2 }, Millis(200));
    assert_eq!(canvas.remove_layer(first), Ok(()));
    let _third = canvas.create_layer(Rgb { red: 3, green: 3, blue: 3 }, Millis(300));
    let document = canvas.create_svg().to_string();
    let ids: Vec<&str> = document
        .lines()
        .filter(|line| line.starts_with("<g "))
        .map(|line| {
            let start = line.find("id=\"").unwrap() + 4;
            let end = line[start..].find('"').unwrap();
            &line[start..start + end]
        })
        .collect();
    assert_eq!(ids, vec!["layer2", "layer3"]);
}

#[test]
fn export_leaves_the_canvas_as_it_is() {
    let mut canvas = Canvas::new(Paper::new(Millis(100_000), Millis(100_000)));
    let layer = canvas.create_layer(Rgb { red: 1, green: 1, blue: 1 }, Millis(100));
    canvas.draw(layer, Path::with_commands(vec![LineCommand::MoveTo(point2(1, 2))]));
    let once = canvas.create_svg().to_string();
    let twice = canvas.create_svg().to_string();
    assert_eq!(once, twice);
    assert!(canvas.contains_layer(layer));
}
