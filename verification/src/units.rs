//! Physical units, the normalized coordinate space and sheets of paper.

use vstd::prelude::*;

verus! {

/// Marker of the normalized space: the drawable area seen as the unit
/// square, whatever its physical size.
#[derive(Clone, Copy, Debug, Default, PartialEq, Eq, PartialOrd, Ord, Hash)]
pub struct NormalSpace;

/// How many steps of a normalized coordinate make up the side of the unit
/// square.
pub const NORMAL_ONE: i64 = 1_000_000;

/// How many steps of a physical length make up one unit (one millimetre, one
/// inch).
pub const STEPS_PER_UNIT: i64 = 1000;

/// Whether `v` can be held in an `i64`.
pub open spec fn fits_i64(v: int) -> bool {
    i64::MIN <= v <= i64::MAX
}

/// The quotient of `a` by a positive `b`, rounded toward zero.
pub open spec fn quotient_toward_zero(a: int, b: int) -> int {
    if a >= 0 {
        a / b
    } else {
        -((-a) / b)
    }
}

/// A physical unit that an SVG document can name (inches, millimetres, ...).
/// A value of the unit is a length, held as a whole number of thousandths of
/// the unit.
pub trait SvgUnit: Copy {
    /// The length in thousandths of the unit.
    spec fn amount(self) -> int;

    /// The unit's symbol, as it follows a number in a document.
    spec fn symbol() -> Seq<char>;

    /// A length is held in an `i64`.
    proof fn amount_fits(self)
        ensures
            fits_i64(self.amount()),
    ;

    /// The unit's symbol.
    fn suffix() -> (s: &'static str)
        ensures
            s@ == Self::symbol(),
    ;

    /// The length zero.
    fn zero() -> (z: Self)
        ensures
            z.amount() == 0,
    ;

    /// The length in thousandths of the unit.
    fn raw(self) -> (r: i64)
        ensures
            r == self.amount(),
    ;

    /// The difference of two lengths.
    fn sub(self, other: Self) -> (r: Self)
        requires
            fits_i64(self.amount() - other.amount()),
        ensures
            r.amount() == self.amount() - other.amount(),
    ;

    /// The length divided by a positive whole number, rounded toward zero.
    fn div(self, by: i64) -> (r: Self)
        requires
            by > 0,
        ensures
            r.amount() == quotient_toward_zero(self.amount(), by as int),
    ;

    /// Whether this length is strictly longer than the other.
    fn gt(self, other: Self) -> (b: bool)
        ensures
            b == (self.amount() > other.amount()),
    ;
}

/// A sheet of paper: its gross size and the margin kept free at each edge.
#[derive(Debug)]
pub struct Paper<Unit: SvgUnit> {
    /// Width of the sheet.
    pub width: Unit,
    /// Height of the sheet.
    pub height: Unit,
    /// Margin at the top.
    pub margin_top: Unit,
    /// Margin at the bottom.
    pub margin_bottom: Unit,
    /// Margin at the left.
    pub margin_left: Unit,
    /// Margin at the right.
    pub margin_right: Unit,
}

impl<Unit: SvgUnit> Clone for Paper<Unit> {
    fn clone(&self) -> (r: Self)
        ensures
            r == *self,
    {
        Paper {
            width: self.width,
            height: self.height,
            margin_top: self.margin_top,
            margin_bottom: self.margin_bottom,
            margin_left: self.margin_left,
            margin_right: self.margin_right,
        }
    }
}

impl<Unit: SvgUnit> Copy for Paper<Unit> {}

impl<Unit: SvgUnit> Paper<Unit> {
    /// No length of the sheet is negative.
    pub open spec fn wf(self) -> bool {
        &&& self.width.amount() >= 0
        &&& self.height.amount() >= 0
        &&& self.margin_top.amount() >= 0
        &&& self.margin_bottom.amount() >= 0
        &&& self.margin_left.amount() >= 0
        &&& self.margin_right.amount() >= 0
    }

    /// Width of the drawable area: what the left and right margins leave.
    pub open spec fn usable_width(self) -> int {
        self.width.amount() - self.margin_left.amount() - self.margin_right.amount()
    }

    /// Height of the drawable area: what the top and bottom margins leave.
    pub open spec fn usable_height(self) -> int {
        self.height.amount() - self.margin_top.amount() - self.margin_bottom.amount()
    }

    /// The sides of the drawable area can be computed within the range of
    /// the unit.
    pub open spec fn spans_fit(self) -> bool {
        &&& fits_i64(self.width.amount() - self.margin_left.amount())
        &&& fits_i64(self.usable_width())
        &&& fits_i64(self.height.amount() - self.margin_top.amount())
        &&& fits_i64(self.usable_height())
    }

    /// The sheet turned by a quarter: width and height change places, the
    /// left margin becomes the top one, the right one the bottom one, and
    /// the other way round.
    pub open spec fn rotated(self) -> Self {
        Paper {
            width: self.height,
            height: self.width,
            margin_top: self.margin_left,
            margin_bottom: self.margin_right,
            margin_left: self.margin_top,
            margin_right: self.margin_bottom,
        }
    }

    /// The sheet with the four margins replaced.
    pub open spec fn with_margins(self, top: Unit, right: Unit, bottom: Unit, left: Unit) -> Self {
        Paper {
            width: self.width,
            height: self.height,
            margin_top: top,
            margin_bottom: bottom,
            margin_left: left,
            margin_right: right,
        }
    }

    /// The shorter side of the sheet; the height where both are equal.
    pub open spec fn short_side(self) -> int {
        if self.width.amount() > self.height.amount() {
            self.height.amount()
        } else {
            self.width.amount()
        }
    }

    /// The longer side of the sheet.
    pub open spec fn long_side(self) -> int {
        if self.width.amount() > self.height.amount() {
            self.width.amount()
        } else {
            self.height.amount()
        }
    }

    /// Side of the square that `make_square` centres: the short side less
    /// the margin on both of its ends.
    pub open spec fn square_side(self, smallest: Unit) -> int {
        self.short_side() - 2 * smallest.amount()
    }

    /// Margin that `make_square` puts at both ends of the long side.
    pub open spec fn square_long_margin(self, smallest: Unit) -> int {
        quotient_toward_zero(self.long_side() - self.square_side(smallest), 2)
    }

    /// Every step of `make_square` stays within the range of the unit.
    pub open spec fn square_fits(self, smallest: Unit) -> bool {
        &&& fits_i64(self.short_side() - smallest.amount())
        &&& fits_i64(self.square_side(smallest))
        &&& fits_i64(self.long_side() - self.square_side(smallest))
    }

    /// Whether the sides of the drawable area can be computed within the
    /// range of the unit.
    pub fn check_spans(&self) -> (b: bool)
        ensures
            b == self.spans_fit(),
    {
        let w: i128 = self.width.raw() as i128 - self.margin_left.raw() as i128;
        let h: i128 = self.height.raw() as i128 - self.margin_top.raw() as i128;
        let uw: i128 = w - self.margin_right.raw() as i128;
        let uh: i128 = h - self.margin_bottom.raw() as i128;
        let lo: i128 = i64::MIN as i128;
        let hi: i128 = i64::MAX as i128;
        lo <= w && w <= hi && lo <= uw && uw <= hi && lo <= h && h <= hi && lo <= uh && uh <= hi
    }

    /// Whether every step of `make_square` stays within the range of the
    /// unit.
    pub fn check_square(&self, smallest_margin: Unit) -> (b: bool)
        ensures
            b == self.square_fits(smallest_margin),
    {
        let wide = self.width.gt(self.height);
        let short: i128 = if wide { self.height.raw() as i128 } else { self.width.raw() as i128 };
        let long: i128 = if wide { self.width.raw() as i128 } else { self.height.raw() as i128 };
        let m: i128 = smallest_margin.raw() as i128;
        let lo: i128 = i64::MIN as i128;
        let hi: i128 = i64::MAX as i128;
        let once: i128 = short - m;
        let side: i128 = short - 2 * m;
        let rest: i128 = long - side;
        lo <= once && once <= hi && lo <= side && side <= hi && lo <= rest && rest <= hi
    }

    /// A sheet of the given size without margins.
    pub fn new(width: Unit, height: Unit) -> (paper: Paper<Unit>)
        ensures
            paper.width == width,
            paper.height == height,
            paper.margin_top.amount() == 0,
            paper.margin_bottom.amount() == 0,
            paper.margin_left.amount() == 0,
            paper.margin_right.amount() == 0,
            paper.wf() == (width.amount() >= 0 && height.amount() >= 0),
    {
        Paper {
            width,
            height,
            margin_top: Unit::zero(),
            margin_bottom: Unit::zero(),
            margin_left: Unit::zero(),
            margin_right: Unit::zero(),
        }
    }

    /// Turn the sheet by 90 degrees.
    pub fn switch_orientation(self) -> (paper: Paper<Unit>)
        ensures
            paper == self.rotated(),
            paper.wf() == self.wf(),
    {
        Paper {
            width: self.height,
            height: self.width,
            margin_top: self.margin_left,
            margin_bottom: self.margin_right,
            margin_left: self.margin_top,
            margin_right: self.margin_bottom,
        }
    }

    /// Set the same margin at the four edges.
    pub fn add_margin(self, margin: Unit) -> (paper: Paper<Unit>)
        ensures
            paper == self.with_margins(margin, margin, margin, margin),
    {
        Paper {
            width: self.width,
            height: self.height,
            margin_left: margin,
            margin_right: margin,
            margin_top: margin,
            margin_bottom: margin,
        }
    }

    /// Set a margin of its own at each edge.
    pub fn add_margins(
        self,
        margin_top: Unit,
        margin_right: Unit,
        margin_bottom: Unit,
        margin_left: Unit,
    ) -> (paper: Paper<Unit>)
        ensures
            paper == self.with_margins(margin_top, margin_right, margin_bottom, margin_left),
    {
        Paper { width: self.width, height: self.height, margin_left, margin_right, margin_top, margin_bottom }
    }

    /// Set the margins so that the drawable area is a square centred on the
    /// sheet: the given margin at both ends of the short side, and at both
    /// ends of the long side half of what the square leaves of it.
    pub fn make_square(self, smallest_margin: Unit) -> (paper: Paper<Unit>)
        requires
            self.square_fits(smallest_margin),
        ensures
            paper.width == self.width,
            paper.height == self.height,
            self.width.amount() > self.height.amount() ==> {
                &&& paper.margin_top == smallest_margin
                &&& paper.margin_bottom == smallest_margin
                &&& paper.margin_left.amount() == self.square_long_margin(smallest_margin)
                &&& paper.margin_right.amount() == self.square_long_margin(smallest_margin)
            },
            self.width.amount() <= self.height.amount() ==> {
                &&& paper.margin_left == smallest_margin
                &&& paper.margin_right == smallest_margin
                &&& paper.margin_top.amount() == self.square_long_margin(smallest_margin)
                &&& paper.margin_bottom.amount() == self.square_long_margin(smallest_margin)
            },
            (self.long_side() - self.square_side(smallest_margin)) % 2 == 0
                ==> paper.usable_width() == self.square_side(smallest_margin)
                && paper.usable_height() == self.square_side(smallest_margin),
            self.width.amount() >= 0 && self.height.amount() >= 0 && smallest_margin.amount() >= 0
                ==> paper.wf(),
    {
        if self.width.gt(self.height) {
            let size = self.height.sub(smallest_margin).sub(smallest_margin);
            let margin_sides = self.width.sub(size).div(2);
            Paper {
                width: self.width,
                height: self.height,
                margin_top: smallest_margin,
                margin_bottom: smallest_margin,
                margin_left: margin_sides,
                margin_right: margin_sides,
            }
        } else {
            let size = self.width.sub(smallest_margin).sub(smallest_margin);
            let margin_sides = self.height.sub(size).div(2);
            Paper {
                width: self.width,
                height: self.height,
                margin_top: margin_sides,
                margin_bottom: margin_sides,
                margin_left: smallest_margin,
                margin_right: smallest_margin,
            }
        }
    }
}

/// Setting the margins to top, right, bottom and left and turning the sheet
/// leaves it with the margins left, bottom, right and top, in that order,
/// and with width and height changed over. Turning it once more gives the
/// sheet back.
pub proof fn lemma_margins_turn_with_sheet<Unit: SvgUnit>(
    paper: Paper<Unit>,
    top: Unit,
    right: Unit,
    bottom: Unit,
    left: Unit,
)
    ensures
        paper.with_margins(top, right, bottom, left).rotated() == paper.rotated().with_margins(
            left,
            bottom,
            right,
            top,
        ),
        paper.with_margins(top, right, bottom, left).rotated().width == paper.height,
        paper.with_margins(top, right, bottom, left).rotated().height == paper.width,
        paper.rotated().rotated() == paper,
{
}

/// A length in inches, counted in thousandths of an inch.
#[derive(Clone, Copy, Debug, PartialEq, Eq, Structural)]
pub struct Inches(pub i64);

impl SvgUnit for Inches {
    open spec fn amount(self) -> int {
        self.0 as int
    }

    open spec fn symbol() -> Seq<char> {
        "in"@
    }

    proof fn amount_fits(self) {
    }

    fn suffix() -> (s: &'static str) {
        "in"
    }

    fn zero() -> (z: Self) {
        Inches(0)
    }

    fn raw(self) -> (r: i64) {
        self.0
    }

    fn sub(self, other: Self) -> (r: Self) {
        Inches(self.0 - other.0)
    }

    fn div(self, by: i64) -> (r: Self) {
        Inches(self.0 / by)
    }

    fn gt(self, other: Self) -> (b: bool) {
        self.0 > other.0
    }
}

/// A length in millimetres, counted in thousandths of a millimetre.
#[derive(Clone, Copy, Debug, PartialEq, Eq, Structural)]
pub struct Millis(pub i64);

/// How many thousandths of a millimetre make up five thousandths of an
/// inch: an inch is 25.4 millimetres.
pub const MILLIS_PER_FIVE_INCHES: i64 = 127;

impl Inches {
    /// The length in inches of a length in millimetres, rounded toward zero
    /// to a thousandth of an inch.
    pub open spec fn spec_from_millis(m: Millis) -> int {
        quotient_toward_zero(m.0 * 5, 127)
    }

    /// The length in inches of a length in millimetres, rounded toward zero
    /// to a thousandth of an inch.
    pub fn from_millis(m: Millis) -> (i: Inches)
        ensures
            i.0 == Self::spec_from_millis(m),
    {
        let wide: i128 = (m.0 as i128 * 5) / (MILLIS_PER_FIVE_INCHES as i128);
        Inches(wide as i64)
    }
}

impl Millis {
    /// The length in millimetres of a length in inches, rounded toward zero
    /// to a thousandth of a millimetre.
    pub open spec fn spec_from_inches(i: Inches) -> int {
        quotient_toward_zero(i.0 * 127, 5)
    }

    /// The length in millimetres of a length in inches, rounded toward zero
    /// to a thousandth of a millimetre; `None` where it is beyond the range
    /// of the unit.
    pub fn from_inches(i: Inches) -> (m: Option<Millis>)
        ensures
            m == if fits_i64(Self::spec_from_inches(i)) {
                Some(Millis(Self::spec_from_inches(i) as i64))
            } else {
                None
            },
    {
        let wide: i128 = (i.0 as i128 * (MILLIS_PER_FIVE_INCHES as i128)) / 5;
        if wide < i64::MIN as i128 || wide > i64::MAX as i128 {
            None
        } else {
            Some(Millis(wide as i64))
        }
    }
}

impl SvgUnit for Millis {
    open spec fn amount(self) -> int {
        self.0 as int
    }

    open spec fn symbol() -> Seq<char> {
        "mm"@
    }

    proof fn amount_fits(self) {
    }

    fn suffix() -> (s: &'static str) {
        "mm"
    }

    fn zero() -> (z: Self) {
        Millis(0)
    }

    fn raw(self) -> (r: i64) {
        self.0
    }

    fn sub(self, other: Self) -> (r: Self) {
        Millis(self.0 - other.0)
    }

    fn div(self, by: i64) -> (r: Self) {
        Millis(self.0 / by)
    }

    fn gt(self, other: Self) -> (b: bool) {
        self.0 > other.0
    }
}

} // verus!
