//! Points and vectors that carry the coordinate space they live in.

use std::marker::PhantomData;
use vstd::prelude::*;

verus! {

/// A position in the space `U`.
#[derive(Debug, PartialEq, Eq, Hash)]
pub struct Point2D<T, U> {
    /// Distance from the origin along the horizontal axis.
    pub x: T,
    /// Distance from the origin along the vertical axis.
    pub y: T,
    /// The space of the point.
    pub unit: PhantomData<U>,
}

/// A displacement in the space `U`.
#[derive(Debug, PartialEq, Eq, Hash)]
pub struct Vector2D<T, U> {
    /// Extent along the horizontal axis.
    pub x: T,
    /// Extent along the vertical axis.
    pub y: T,
    /// The space of the vector.
    pub unit: PhantomData<U>,
}

impl<T: Copy, U> Clone for Point2D<T, U> {
    fn clone(&self) -> (r: Self)
        ensures
            r == *self,
    {
        Point2D { x: self.x, y: self.y, unit: PhantomData }
    }
}

impl<T: Copy, U> Copy for Point2D<T, U> {}

impl<T: Copy, U> Clone for Vector2D<T, U> {
    fn clone(&self) -> (r: Self)
        ensures
            r == *self,
    {
        Vector2D { x: self.x, y: self.y, unit: PhantomData }
    }
}

impl<T: Copy, U> Copy for Vector2D<T, U> {}

/// The point `(x, y)` of the space `U`.
pub open spec fn spec_point2<T, U>(x: T, y: T) -> Point2D<T, U> {
    Point2D { x, y, unit: PhantomData }
}

/// The vector `(x, y)` of the space `U`.
pub open spec fn spec_vec2<T, U>(x: T, y: T) -> Vector2D<T, U> {
    Vector2D { x, y, unit: PhantomData }
}

/// The point `(x, y)` of the space `U`.
pub fn point2<T, U>(x: T, y: T) -> (p: Point2D<T, U>)
    ensures
        p == spec_point2::<T, U>(x, y),
{
    Point2D { x, y, unit: PhantomData }
}

/// The vector `(x, y)` of the space `U`.
pub fn vec2<T, U>(x: T, y: T) -> (v: Vector2D<T, U>)
    ensures
        v == spec_vec2::<T, U>(x, y),
{
    Vector2D { x, y, unit: PhantomData }
}

} // verus!
