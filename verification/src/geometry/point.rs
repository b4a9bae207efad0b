//! A point with independently typed coordinates, one per axis.

use vstd::prelude::*;

verus! {

/// A point in a space whose horizontal and vertical axes may carry
/// different coordinate types.
#[derive(Debug, Clone, Copy, PartialEq)]
pub struct Point2<X, Y> {
    pub x: X,
    pub y: Y,
}

impl<X, Y> Point2<X, Y> {
    pub fn new(x: X, y: Y) -> (p: Point2<X, Y>)
        ensures
            p.x == x,
            p.y == y,
    {
        Point2 { x, y }
    }
}

impl<T> Point2<T, T> {
    /// Swap the two coordinates.
    pub fn flip(self) -> (p: Point2<T, T>)
        ensures
            p.x == self.y,
            p.y == self.x,
    {
        Point2 { x: self.y, y: self.x }
    }
}

/// Shorthand constructor for [`Point2`].
pub fn point2<X, Y>(x: X, y: Y) -> (p: Point2<X, Y>)
    ensures
        p.x == x,
        p.y == y,
{
    Point2 { x, y }
}

} // verus!
