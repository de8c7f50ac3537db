//! Axis-aligned bounding boxes.

use crate::point::{spec_point2, Point2D};
use crate::units::fits_i64;
use std::marker::PhantomData;
use vstd::prelude::*;

verus! {

/// An axis-aligned box in the space `U`, given by two opposite corners.
#[derive(Debug, PartialEq, Eq)]
pub struct Aabb<T, U> {
    /// The corner with the smallest coordinates.
    pub min: Point2D<T, U>,
    /// The corner with the largest coordinates.
    pub max: Point2D<T, U>,
}

impl<T: Copy, U> Clone for Aabb<T, U> {
    fn clone(&self) -> (r: Self)
        ensures
            r == *self,
    {
        Aabb { min: self.min, max: self.max }
    }
}

impl<T: Copy, U> Copy for Aabb<T, U> {}

/// The smaller of two numbers.
pub open spec fn lesser(a: i64, b: i64) -> i64 {
    if b < a {
        b
    } else {
        a
    }
}

/// The larger of two numbers.
pub open spec fn greater(a: i64, b: i64) -> i64 {
    if b > a {
        b
    } else {
        a
    }
}

impl<U> Aabb<i64, U> {
    /// On both axes `min` is not beyond `max`.
    pub open spec fn wf(self) -> bool {
        self.min.x <= self.max.x && self.min.y <= self.max.y
    }

    /// Distance between the two corners along the horizontal axis.
    pub open spec fn spec_width(self) -> int {
        self.max.x - self.min.x
    }

    /// Distance between the two corners along the vertical axis.
    pub open spec fn spec_height(self) -> int {
        self.max.y - self.min.y
    }

    /// The point lies in the box, its border included.
    pub open spec fn holds(self, p: Point2D<i64, U>) -> bool {
        &&& self.min.x <= p.x <= self.max.x
        &&& self.min.y <= p.y <= self.max.y
    }

    /// The box that holds no point at all: `min` at the largest and `max`
    /// at the smallest number on both axes. Growing it by a point gives the
    /// box of that point alone.
    pub open spec fn nothing() -> Self {
        Aabb {
            min: spec_point2(i64::MAX, i64::MAX),
            max: spec_point2(i64::MIN, i64::MIN),
        }
    }

    /// The box stretched, where needed, to hold the point as well.
    pub open spec fn grown(self, p: Point2D<i64, U>) -> Self {
        Aabb {
            min: spec_point2(lesser(self.min.x, p.x), lesser(self.min.y, p.y)),
            max: spec_point2(greater(self.max.x, p.x), greater(self.max.y, p.y)),
        }
    }

    /// The box stretched to hold each of the points.
    pub open spec fn grown_by(self, points: Seq<Point2D<i64, U>>) -> Self
        decreases points.len(),
    {
        if points.len() == 0 {
            self
        } else {
            self.grown_by(points.drop_last()).grown(points.last())
        }
    }

    /// The box between the two corners, of which `min` is on neither axis
    /// beyond `max`.
    pub fn new(min: Point2D<i64, U>, max: Point2D<i64, U>) -> (aabb: Aabb<i64, U>)
        requires
            min.x <= max.x,
            min.y <= max.y,
        ensures
            aabb == (Aabb { min, max }),
            aabb.wf(),
    {
        Aabb { min, max }
    }

    /// The corner with the smallest coordinates.
    pub fn min(&self) -> (p: Point2D<i64, U>)
        ensures
            p == self.min,
    {
        self.min
    }

    /// The corner with the largest coordinates.
    pub fn max(&self) -> (p: Point2D<i64, U>)
        ensures
            p == self.max,
    {
        self.max
    }

    /// Width of the box.
    pub fn width(&self) -> (w: i64)
        requires
            fits_i64(self.spec_width()),
        ensures
            w == self.spec_width(),
    {
        self.max.x - self.min.x
    }

    /// Height of the box.
    pub fn height(&self) -> (h: i64)
        requires
            fits_i64(self.spec_height()),
        ensures
            h == self.spec_height(),
    {
        self.max.y - self.min.y
    }

    /// The box that holds no point at all.
    pub fn empty() -> (aabb: Aabb<i64, U>)
        ensures
            aabb == Self::nothing(),
    {
        Aabb {
            min: Point2D { x: i64::MAX, y: i64::MAX, unit: PhantomData },
            max: Point2D { x: i64::MIN, y: i64::MIN, unit: PhantomData },
        }
    }

    /// The box stretched, where needed, to hold the point as well.
    pub fn enlarge(&self, p: Point2D<i64, U>) -> (aabb: Aabb<i64, U>)
        ensures
            aabb == self.grown(p),
    {
        let min_x: i64 = if p.x < self.min.x { p.x } else { self.min.x };
        let min_y: i64 = if p.y < self.min.y { p.y } else { self.min.y };
        let max_x: i64 = if p.x > self.max.x { p.x } else { self.max.x };
        let max_y: i64 = if p.y > self.max.y { p.y } else { self.max.y };
        Aabb {
            min: Point2D { x: min_x, y: min_y, unit: PhantomData },
            max: Point2D { x: max_x, y: max_y, unit: PhantomData },
        }
    }
}

} // verus!
