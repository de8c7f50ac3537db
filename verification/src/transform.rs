//! Maps from one coordinate space into another: a scale along each axis,
//! given as a ratio of whole numbers, followed by a shift.

use crate::point::{spec_point2, spec_vec2, Point2D, Vector2D};
use crate::units::fits_i64;
use std::marker::PhantomData;
use vstd::arithmetic::div_mod::{lemma_fundamental_div_mod, lemma_fundamental_div_mod_converse};
use vstd::prelude::*;

verus! {

/// A map from the space `Src` into the space `Dst`. A coordinate `c` on the
/// horizontal axis goes to `c * scale_x / divisor + shift_x`, the quotient
/// rounded down; likewise on the vertical axis.
#[derive(Debug)]
pub struct Transform2D<Src, Dst> {
    /// Numerator of the horizontal scale.
    pub scale_x: i64,
    /// Numerator of the vertical scale.
    pub scale_y: i64,
    /// Denominator of both scales; positive.
    pub divisor: i64,
    /// Horizontal shift, applied after the scale.
    pub shift_x: i64,
    /// Vertical shift, applied after the scale.
    pub shift_y: i64,
    /// The two spaces.
    pub unit: PhantomData<(Src, Dst)>,
}

impl<Src, Dst> Clone for Transform2D<Src, Dst> {
    fn clone(&self) -> (r: Self)
        ensures
            r == *self,
    {
        Transform2D {
            scale_x: self.scale_x,
            scale_y: self.scale_y,
            divisor: self.divisor,
            shift_x: self.shift_x,
            shift_y: self.shift_y,
            unit: PhantomData,
        }
    }
}

impl<Src, Dst> Copy for Transform2D<Src, Dst> {}

/// `a / b` rounded down, for a positive `b`.
fn floor_quotient(a: i128, b: i128) -> (q: i128)
    requires
        b > 0,
        -0x4000_0000_0000_0000_0000_0000_0000_0000 <= a <= 0x4000_0000_0000_0000_0000_0000_0000_0000,
    ensures
        q == a as int / b as int,
{
    let q: i128 = a / b;
    let r: i128 = a % b;
    proof {
        if a < 0 {
            let n: int = -(a as int);
            lemma_fundamental_div_mod(n, b as int);
            assert(a as int == (b as int) * (q as int) + (r as int)) by (nonlinear_arith)
                requires
                    n == (b as int) * (n / (b as int)) + n % (b as int),
                    q as int == -(n / (b as int)),
                    r as int == -(n % (b as int)),
                    a as int == -n,
            ;
            if r < 0 {
                assert(a as int == (q - 1) * (b as int) + (r + b)) by (nonlinear_arith)
                    requires
                        a as int == (b as int) * (q as int) + (r as int),
                ;
                lemma_fundamental_div_mod_converse(a as int, b as int, q - 1, r + b);
            } else {
                assert(a as int == (q as int) * (b as int) + (r as int)) by (nonlinear_arith)
                    requires
                        a as int == (b as int) * (q as int) + (r as int),
                ;
                lemma_fundamental_div_mod_converse(a as int, b as int, q as int, r as int);
            }
        }
    }
    if r < 0 {
        q - 1
    } else {
        q
    }
}

/// `v * scale / divisor` rounded down.
fn scaled(v: i64, scale: i64, divisor: i64) -> (r: i128)
    requires
        divisor > 0,
    ensures
        r == (v * scale) / (divisor as int),
        -0x4000_0000_0000_0000_0000_0000_0000_0000 <= r <= 0x4000_0000_0000_0000_0000_0000_0000_0000,
{
    let a: i128 = v as i128;
    let b: i128 = scale as i128;
    assert(-0x4000_0000_0000_0000_0000_0000_0000_0000 <= a * b
        <= 0x4000_0000_0000_0000_0000_0000_0000_0000) by (nonlinear_arith)
        requires
            -0x8000_0000_0000_0000 <= a < 0x8000_0000_0000_0000,
            -0x8000_0000_0000_0000 <= b < 0x8000_0000_0000_0000,
    ;
    let q: i128 = floor_quotient(a * b, divisor as i128);
    assert(-0x4000_0000_0000_0000_0000_0000_0000_0000 <= (a * b) / (divisor as int)
        <= 0x4000_0000_0000_0000_0000_0000_0000_0000) by (nonlinear_arith)
        requires
            -0x4000_0000_0000_0000_0000_0000_0000_0000 <= a * b
                <= 0x4000_0000_0000_0000_0000_0000_0000_0000,
            divisor > 0,
    ;
    q
}

impl<Src, Dst> Transform2D<Src, Dst> {
    /// The divisor is positive.
    pub open spec fn wf(self) -> bool {
        self.divisor > 0
    }

    /// Image of a horizontal extent: the scale without the shift.
    pub open spec fn scaled_x(self, dx: int) -> int {
        (dx * self.scale_x) / (self.divisor as int)
    }

    /// Image of a vertical extent: the scale without the shift.
    pub open spec fn scaled_y(self, dy: int) -> int {
        (dy * self.scale_y) / (self.divisor as int)
    }

    /// Image of a horizontal coordinate.
    pub open spec fn map_x(self, x: int) -> int {
        self.scaled_x(x) + self.shift_x
    }

    /// Image of a vertical coordinate.
    pub open spec fn map_y(self, y: int) -> int {
        self.scaled_y(y) + self.shift_y
    }

    /// The image of the point can be held.
    pub open spec fn carries_point(self, p: Point2D<i64, Src>) -> bool {
        fits_i64(self.map_x(p.x as int)) && fits_i64(self.map_y(p.y as int))
    }

    /// The image of the vector can be held.
    pub open spec fn carries_vector(self, v: Vector2D<i64, Src>) -> bool {
        fits_i64(self.scaled_x(v.x as int)) && fits_i64(self.scaled_y(v.y as int))
    }

    /// Image of a point.
    pub open spec fn point_image(self, p: Point2D<i64, Src>) -> Point2D<i64, Dst> {
        spec_point2(self.map_x(p.x as int) as i64, self.map_y(p.y as int) as i64)
    }

    /// Image of a vector: the scale moves it, the shift does not.
    pub open spec fn vector_image(self, v: Vector2D<i64, Src>) -> Vector2D<i64, Dst> {
        spec_vec2(self.scaled_x(v.x as int) as i64, self.scaled_y(v.y as int) as i64)
    }

    /// The map that leaves every coordinate as it is.
    pub fn identity() -> (t: Self)
        ensures
            t == (Transform2D::<Src, Dst> {
                scale_x: 1,
                scale_y: 1,
                divisor: 1,
                shift_x: 0,
                shift_y: 0,
                unit: PhantomData,
            }),
    {
        Transform2D { scale_x: 1, scale_y: 1, divisor: 1, shift_x: 0, shift_y: 0, unit: PhantomData }
    }

    /// The map that shifts by `(x, y)`.
    pub fn translation(x: i64, y: i64) -> (t: Self)
        ensures
            t == (Transform2D::<Src, Dst> {
                scale_x: 1,
                scale_y: 1,
                divisor: 1,
                shift_x: x,
                shift_y: y,
                unit: PhantomData,
            }),
    {
        Transform2D { scale_x: 1, scale_y: 1, divisor: 1, shift_x: x, shift_y: y, unit: PhantomData }
    }

    /// The map that scales by `x / divisor` horizontally and by
    /// `y / divisor` vertically.
    pub fn scale(x: i64, y: i64, divisor: i64) -> (t: Self)
        requires
            divisor > 0,
        ensures
            t == (Transform2D::<Src, Dst> {
                scale_x: x,
                scale_y: y,
                divisor,
                shift_x: 0,
                shift_y: 0,
                unit: PhantomData,
            }),
    {
        Transform2D { scale_x: x, scale_y: y, divisor, shift_x: 0, shift_y: 0, unit: PhantomData }
    }

    /// This map followed by a shift by `v`.
    pub fn then_translate(self, v: Vector2D<i64, Dst>) -> (t: Self)
        requires
            fits_i64(self.shift_x + v.x),
            fits_i64(self.shift_y + v.y),
        ensures
            t == (Transform2D::<Src, Dst> {
                shift_x: (self.shift_x + v.x) as i64,
                shift_y: (self.shift_y + v.y) as i64,
                ..self
            }),
    {
        Transform2D {
            scale_x: self.scale_x,
            scale_y: self.scale_y,
            divisor: self.divisor,
            shift_x: self.shift_x + v.x,
            shift_y: self.shift_y + v.y,
            unit: PhantomData,
        }
    }

    /// Image of a horizontal coordinate, where it can be held.
    pub fn checked_x(&self, x: i64) -> (r: Option<i64>)
        requires
            self.wf(),
        ensures
            r == if fits_i64(self.map_x(x as int)) {
                Some(self.map_x(x as int) as i64)
            } else {
                None
            },
    {
        let wide: i128 = scaled(x, self.scale_x, self.divisor) + self.shift_x as i128;
        if wide < i64::MIN as i128 || wide > i64::MAX as i128 {
            None
        } else {
            Some(wide as i64)
        }
    }

    /// Image of a vertical coordinate, where it can be held.
    pub fn checked_y(&self, y: i64) -> (r: Option<i64>)
        requires
            self.wf(),
        ensures
            r == if fits_i64(self.map_y(y as int)) {
                Some(self.map_y(y as int) as i64)
            } else {
                None
            },
    {
        let wide: i128 = scaled(y, self.scale_y, self.divisor) + self.shift_y as i128;
        if wide < i64::MIN as i128 || wide > i64::MAX as i128 {
            None
        } else {
            Some(wide as i64)
        }
    }

    /// Image of a horizontal extent, where it can be held.
    pub fn checked_dx(&self, dx: i64) -> (r: Option<i64>)
        requires
            self.wf(),
        ensures
            r == if fits_i64(self.scaled_x(dx as int)) {
                Some(self.scaled_x(dx as int) as i64)
            } else {
                None
            },
    {
        let wide: i128 = scaled(dx, self.scale_x, self.divisor);
        if wide < i64::MIN as i128 || wide > i64::MAX as i128 {
            None
        } else {
            Some(wide as i64)
        }
    }

    /// Image of a vertical extent, where it can be held.
    pub fn checked_dy(&self, dy: i64) -> (r: Option<i64>)
        requires
            self.wf(),
        ensures
            r == if fits_i64(self.scaled_y(dy as int)) {
                Some(self.scaled_y(dy as int) as i64)
            } else {
                None
            },
    {
        let wide: i128 = scaled(dy, self.scale_y, self.divisor);
        if wide < i64::MIN as i128 || wide > i64::MAX as i128 {
            None
        } else {
            Some(wide as i64)
        }
    }

    /// Image of a point, where it can be held.
    pub fn checked_point(&self, p: Point2D<i64, Src>) -> (r: Option<Point2D<i64, Dst>>)
        requires
            self.wf(),
        ensures
            r == if self.carries_point(p) {
                Some(self.point_image(p))
            } else {
                None
            },
    {
        match (self.checked_x(p.x), self.checked_y(p.y)) {
            (Some(x), Some(y)) => Some(Point2D { x, y, unit: PhantomData }),
            _ => None,
        }
    }

    /// Image of a vector, where it can be held.
    pub fn checked_vector(&self, v: Vector2D<i64, Src>) -> (r: Option<Vector2D<i64, Dst>>)
        requires
            self.wf(),
        ensures
            r == if self.carries_vector(v) {
                Some(self.vector_image(v))
            } else {
                None
            },
    {
        match (self.checked_dx(v.x), self.checked_dy(v.y)) {
            (Some(x), Some(y)) => Some(Vector2D { x, y, unit: PhantomData }),
            _ => None,
        }
    }

    /// Image of a point.
    pub fn transform_point(&self, p: Point2D<i64, Src>) -> (q: Point2D<i64, Dst>)
        requires
            self.wf(),
            self.carries_point(p),
        ensures
            q == self.point_image(p),
    {
        let x: i128 = scaled(p.x, self.scale_x, self.divisor) + self.shift_x as i128;
        let y: i128 = scaled(p.y, self.scale_y, self.divisor) + self.shift_y as i128;
        Point2D { x: x as i64, y: y as i64, unit: PhantomData }
    }

    /// Image of a vector.
    pub fn transform_vector(&self, v: Vector2D<i64, Src>) -> (w: Vector2D<i64, Dst>)
        requires
            self.wf(),
            self.carries_vector(v),
        ensures
            w == self.vector_image(v),
    {
        let x: i128 = scaled(v.x, self.scale_x, self.divisor);
        let y: i128 = scaled(v.y, self.scale_y, self.divisor);
        Vector2D { x: x as i64, y: y as i64, unit: PhantomData }
    }
}

} // verus!
