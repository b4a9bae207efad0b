//! An extent with independently typed width and height.

use vstd::prelude::*;

verus! {

/// A two-dimensional extent whose width and height may carry different
/// coordinate (or delta) types.
#[derive(Debug, Clone, Copy, PartialEq)]
pub struct Size2<X, Y> {
    pub width: X,
    pub height: Y,
}

impl<X, Y> Size2<X, Y> {
    pub fn new(width: X, height: Y) -> (s: Size2<X, Y>)
        ensures
            s.width == width,
            s.height == height,
    {
        Size2 { width, height }
    }
}

/// Shorthand constructor for [`Size2`].
pub fn size2<X, Y>(width: X, height: Y) -> (s: Size2<X, Y>)
    ensures
        s.width == width,
        s.height == height,
{
    Size2 { width, height }
}

} // verus!
