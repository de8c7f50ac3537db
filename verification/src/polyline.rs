//! Lines along several points.

use crate::point::Point2D;
use vstd::prelude::*;

verus! {

/// A line along two or more points, like a polygon that is not closed.
#[derive(Debug, PartialEq, Eq, Hash)]
pub struct Polyline<T, U> {
    vertices: Vec<Point2D<T, U>>,
}

impl<T, U> View for Polyline<T, U> {
    type V = Seq<Point2D<T, U>>;

    /// The points of the line, in order.
    closed spec fn view(&self) -> Seq<Point2D<T, U>> {
        self.vertices@
    }
}

impl<T, U> Polyline<T, U> {
    #[verifier::type_invariant]
    spec fn at_least_two(self) -> bool {
        self.vertices@.len() >= 2
    }
}

impl<T: Copy, U> Clone for Polyline<T, U> {
    fn clone(&self) -> (r: Self)
        ensures
            r@ == self@,
    {
        proof {
            use_type_invariant(self);
        }
        let mut vertices: Vec<Point2D<T, U>> = Vec::new();
        let mut i: usize = 0;
        while i < self.vertices.len()
            invariant
                i <= self.vertices@.len(),
                vertices@ == self.vertices@.take(i as int),
            decreases self.vertices@.len() - i,
        {
            vertices.push(self.vertices[i]);
            assert(self.vertices@.take(i as int).push(self.vertices@[i as int])
                =~= self.vertices@.take(i + 1));
            i += 1;
        }
        assert(self.vertices@.take(i as int) =~= self.vertices@);
        Polyline { vertices }
    }
}

impl<T: Copy, U> Polyline<T, U> {
    /// The line along the given points, of which there are at least two.
    pub fn new(vertices: Vec<Point2D<T, U>>) -> (line: Polyline<T, U>)
        requires
            vertices@.len() >= 2,
        ensures
            line@ == vertices@,
    {
        Polyline { vertices }
    }

    /// All points of the line.
    pub fn vertices(&self) -> (points: &[Point2D<T, U>])
        ensures
            points@ == self@,
            points@.len() >= 2,
    {
        proof {
            use_type_invariant(self);
        }
        self.vertices.as_slice()
    }

    /// The point at index `i`, if the line has that many.
    pub fn get(&self, i: usize) -> (point: Option<Point2D<T, U>>)
        ensures
            i < self@.len() ==> point == Some(self@[i as int]),
            i >= self@.len() ==> point.is_none(),
    {
        if i < self.vertices.len() {
            Some(self.vertices[i])
        } else {
            None
        }
    }

    /// The number of points of the line.
    pub fn len(&self) -> (n: usize)
        ensures
            n == self@.len(),
            n >= 2,
    {
        proof {
            use_type_invariant(self);
        }
        self.vertices.len()
    }
}

} // verus!
