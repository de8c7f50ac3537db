use fart::canvas::LayerId;
use fart::papers::{
    din_a0, din_a1, din_a10, din_a2, din_a3, din_a4, din_a5, din_a6, din_a7, din_a8, din_a9,
};
use fart::units::{Inches, Millis};

#[test]
fn an_inch_is_25_4_millimetres() {
    assert_eq!(Millis::from_inches(Inches(1_000)), Some(Millis(25_400)));
    assert_eq!(Millis::from_inches(Inches(0)), Some(Millis(0)));
    assert_eq!(Millis::from_inches(Inches(-2_500)), Some(Millis(-63_500)));
    assert_eq!(Inches::from_millis(Millis(25_400)), Inches(1_000));
    assert_eq!(Inches::from_millis(Millis(0)), Inches(0));
    assert_eq!(Inches::from_millis(Millis(-63_500)), Inches(-2_500));
}

#[test]
fn conversions_round_toward_zero() {
    assert_eq!(Millis::from_inches(Inches(1)), Some(Millis(25)));
    assert_eq!(Millis::from_inches(Inches(-1)), Some(Millis(-25)));
    assert_eq!(Millis::from_inches(Inches(3)), Some(Millis(76)));
    assert_eq!(Inches::from_millis(Millis(25)), Inches(0));
    assert_eq!(Inches::from_millis(Millis(26)), Inches(1));
    assert_eq!(Inches::from_millis(Millis(-26)), Inches(-1));
    assert_eq!(Inches::from_millis(Millis(210_000)), Inches(8_267));
    assert_eq!(Inches::from_millis(Millis(i64::MAX)), Inches(363_124_883_340_739_205));
    assert_eq!(Inches::from_millis(Millis(i64::MIN)), Inches(-363_124_883_340_739_205));
}

#[test]
fn millimetres_beyond_the_range_are_none() {
    assert_eq!(Millis::from_inches(Inches(i64::MAX)), None);
    assert_eq!(Millis::from_inches(Inches(i64::MIN)), None);
    assert_eq!(Millis::from_inches(Inches(363_124_883_340_739_205)), Some(Millis(9_223_372_036_854_775_807)));
    assert_eq!(Millis::from_inches(Inches(363_124_883_340_739_206)), None);
}

#[test]
fn din_sizes() {
    let sizes = [
        (din_a0(), 841, 1189),
        (din_a1(), 594, 841),
        (din_a2(), 420, 594),
        (din_a3(), 297, 420),
        (din_a4(), 210, 297),
        (din_a5(), 148, 210),
        (din_a6(), 105, 147),
        (din_a7(), 74, 105),
        (din_a8(), 52, 74),
        (din_a9(), 37, 52),
        (din_a10(), 26, 37),
    ];
    for (paper, width, height) in sizes {
        assert_eq!(paper.width, Millis(width * 1000));
        assert_eq!(paper.height, Millis(height * 1000));
        assert_eq!(paper.margin_top, Millis(0));
        assert_eq!(paper.margin_bottom, Millis(0));
        assert_eq!(paper.margin_left, Millis(0));
        assert_eq!(paper.margin_right, Millis(0));
    }
}

#[test]
fn colours_of_layers_without_a_pen() {
    let names = ["#00f", "#080", "#f00", "#0cc", "#0f0", "#c0c", "#cc0", "black", "black"];
    for (id, name) in names.iter().enumerate() {
        assert_eq!(LayerId(id as u64).color_name(), *name);
    }
    assert_eq!(LayerId(u64::MAX).color_name(), "black");
}
