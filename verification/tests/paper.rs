use fart::units::{Inches, Millis, Paper, SvgUnit};

#[test]
fn new_paper_has_no_margins() {
    let paper = Paper::new(Millis(210_000), Millis(297_000));
    assert_eq!(paper.width, Millis(210_000));
    assert_eq!(paper.height, Millis(297_000));
    assert_eq!(paper.margin_top, Millis(0));
    assert_eq!(paper.margin_bottom, Millis(0));
    assert_eq!(paper.margin_left, Millis(0));
    assert_eq!(paper.margin_right, Millis(0));
}

#[test]
fn add_margin_sets_the_four_margins() {
    let paper = Paper::new(Inches(8_500), Inches(11_000)).add_margin(Inches(500));
    assert_eq!(paper.width, Inches(8_500));
    assert_eq!(paper.height, Inches(11_000));
    assert_eq!(paper.margin_top, Inches(500));
    assert_eq!(paper.margin_right, Inches(500));
    assert_eq!(paper.margin_bottom, Inches(500));
    assert_eq!(paper.margin_left, Inches(500));
}

#[test]
fn add_margins_sets_each_margin() {
    let paper = Paper::new(Millis(210_000), Millis(297_000))
        .add_margins(Millis(1_000), Millis(2_000), Millis(3_000), Millis(4_000));
    assert_eq!(paper.margin_top, Millis(1_000));
    assert_eq!(paper.margin_right, Millis(2_000));
    assert_eq!(paper.margin_bottom, Millis(3_000));
    assert_eq!(paper.margin_left, Millis(4_000));
    assert_eq!(paper.width, Millis(210_000));
    assert_eq!(paper.height, Millis(297_000));
}

#[test]
fn switch_orientation_turns_the_margins_with_the_sheet() {
    let paper = Paper::new(Millis(210_000), Millis(297_000))
        .add_margins(Millis(1_000), Millis(2_000), Millis(3_000), Millis(4_000))
        .switch_orientation();
    assert_eq!(paper.width, Millis(297_000));
    assert_eq!(paper.height, Millis(210_000));
    assert_eq!(paper.margin_top, Millis(4_000));
    assert_eq!(paper.margin_right, Millis(3_000));
    assert_eq!(paper.margin_bottom, Millis(2_000));
    assert_eq!(paper.margin_left, Millis(1_000));
}

#[test]
fn switch_orientation_twice_gives_the_sheet_back() {
    let paper = Paper::new(Millis(210_000), Millis(297_000))
        .add_margins(Millis(1_000), Millis(2_000), Millis(3_000), Millis(4_000));
    let back = paper.switch_orientation().switch_orientation();
    assert_eq!(back.width, paper.width);
    assert_eq!(back.height, paper.height);
    assert_eq!(back.margin_top, paper.margin_top);
    assert_eq!(back.margin_right, paper.margin_right);
    assert_eq!(back.margin_bottom, paper.margin_bottom);
    assert_eq!(back.margin_left, paper.margin_left);
}

#[test]
fn make_square_on_a_wide_sheet() {
    let paper = Paper::new(Millis(297_000), Millis(210_000)).make_square(Millis(10_000));
    assert_eq!(paper.margin_top, Millis(10_000));
    assert_eq!(paper.margin_bottom, Millis(10_000));
    assert_eq!(paper.margin_left, Millis(53_500));
    assert_eq!(paper.margin_right, Millis(53_500));
    let usable_width = paper.width.0 - paper.margin_left.0 - paper.margin_right.0;
    let usable_height = paper.height.0 - paper.margin_top.0 - paper.margin_bottom.0;
    assert_eq!(usable_width, 190_000);
    assert_eq!(usable_height, 190_000);
}

#[test]
fn make_square_on_a_tall_sheet() {
    let paper = Paper::new(Millis(210_000), Millis(297_000)).make_square(Millis(10_000));
    assert_eq!(paper.margin_left, Millis(10_000));
    assert_eq!(paper.margin_right, Millis(10_000));
    assert_eq!(paper.margin_top, Millis(53_500));
    assert_eq!(paper.margin_bottom, Millis(53_500));
}

#[test]
fn make_square_on_a_square_sheet_counts_as_tall() {
    let paper = Paper::new(Millis(100_000), Millis(100_000)).make_square(Millis(5_000));
    assert_eq!(paper.margin_left, Millis(5_000));
    assert_eq!(paper.margin_right, Millis(5_000));
    assert_eq!(paper.margin_top, Millis(5_000));
    assert_eq!(paper.margin_bottom, Millis(5_000));
}

#[test]
fn make_square_rounds_an_odd_rest_toward_zero() {
    let paper = Paper::new(Millis(11), Millis(4)).make_square(Millis(1));
    assert_eq!(paper.margin_top, Millis(1));
    assert_eq!(paper.margin_bottom, Millis(1));
    assert_eq!(paper.margin_left, Millis(4));
    assert_eq!(paper.margin_right, Millis(4));
    let usable_width = paper.width.0 - paper.margin_left.0 - paper.margin_right.0;
    let usable_height = paper.height.0 - paper.margin_top.0 - paper.margin_bottom.0;
    assert_eq!(usable_width, 3);
    assert_eq!(usable_height, 2);
}

#[test]
fn make_square_with_a_margin_wider_than_the_sheet() {
    let paper = Paper::new(Millis(10_000), Millis(4_000)).make_square(Millis(3_000));
    assert_eq!(paper.margin_top, Millis(3_000));
    assert_eq!(paper.margin_left, Millis(6_000));
    assert_eq!(paper.margin_right, Millis(6_000));
}

#[test]
fn unit_arithmetic() {
    assert_eq!(Millis(5_000).sub(Millis(7_500)), Millis(-2_500));
    assert_eq!(Millis(7).div(2), Millis(3));
    assert_eq!(Millis(-7).div(2), Millis(-3));
    assert!(Inches(2).gt(Inches(1)));
    assert!(!Inches(1).gt(Inches(1)));
    assert_eq!(Inches(12).raw(), 12);
    assert_eq!(Millis::zero(), Millis(0));
    assert_eq!(Inches::zero(), Inches(0));
    assert_eq!(Millis::suffix(), "mm");
    assert_eq!(Inches::suffix(), "in");
}

#[test]
fn check_spans_tells_when_the_drawable_area_can_be_computed() {
    let paper = Paper::new(Millis(210_000), Millis(297_000)).add_margin(Millis(10_000));
    assert!(paper.check_spans());
    let narrow = Paper::new(Millis(10), Millis(10)).add_margin(Millis(20));
    assert!(narrow.check_spans());
    let beyond = Paper::new(Millis(i64::MIN), Millis(0)).add_margin(Millis(1));
    assert!(!beyond.check_spans());
    let far = Paper::new(Millis(0), Millis(-2)).add_margin(Millis(i64::MAX));
    assert!(!far.check_spans());
}

#[test]
fn check_square_tells_when_make_square_stays_in_range() {
    let paper = Paper::new(Millis(297_000), Millis(210_000));
    assert!(paper.check_square(Millis(10_000)));
    assert!(paper.check_square(Millis(200_000)));
    assert!(!paper.check_square(Millis(i64::MAX)));
    assert!(!paper.check_square(Millis(i64::MIN)));
    let huge = Paper::new(Millis(i64::MAX), Millis(0));
    assert!(huge.check_square(Millis(0)));
    assert!(!huge.check_square(Millis(1)));
    assert!(huge.check_square(Millis(-1)));
}
