use vstd::prelude::*;

verus! {

/// A point; both coordinates are millionths of the layer unit.
#[derive(Debug, Clone, Copy, PartialEq, Eq, Structural)]
pub struct Point2d {
    pub x: i64,
    pub y: i64,
}

impl Point2d {
    pub fn new(x: i64, y: i64) -> (p: Point2d)
        ensures
            p.x == x,
            p.y == y,
    {
        Point2d { x, y }
    }

    pub fn to_tuple(&self) -> (t: (i64, i64))
        ensures
            t == (self.x, self.y),
    {
        (self.x, self.y)
    }
}

/// A straight track of the given width.
#[derive(Debug, Clone, Copy, PartialEq, Eq, Structural)]
pub struct Segment {
    pub start: Point2d,
    pub end: Point2d,
    pub width: i64,
}

/// A circular track from `start` to `end` around `center`.
#[derive(Debug, Clone, Copy, PartialEq, Eq, Structural)]
pub struct Arc {
    pub start: Point2d,
    pub end: Point2d,
    pub center: Point2d,
    pub clockwise: bool,
    pub width: i64,
}

/// A filled disc.
#[derive(Debug, Clone, Copy, PartialEq, Eq, Structural)]
pub struct Circle {
    pub center: Point2d,
    pub diameter: i64,
}

/// A filled axis-aligned rectangle.
#[derive(Debug, Clone, Copy, PartialEq, Eq, Structural)]
pub struct Rectangle {
    pub center: Point2d,
    pub width: i64,
    pub height: i64,
}

} // verus!
