use vstd::prelude::*;
use core::convert::TryFrom;

verus! {

/// A point of the plane, in pixels.
#[derive(Clone, Copy, Debug, PartialEq, Eq, Structural)]
pub struct Point {
    pub x: i32,
    pub y: i32,
}

/// A width and a height, in pixels.
#[derive(Clone, Copy, Debug, PartialEq, Eq, Structural)]
pub struct Size {
    pub width: u32,
    pub height: u32,
}

impl Point {
    /// The point `(x, y)`.
    pub fn new(x: i32, y: i32) -> (p: Self)
        ensures
            p == (Point { x, y }),
    {
        Point { x, y }
    }
}

impl Size {
    /// The size `width` by `height`.
    pub fn new(width: u32, height: u32) -> (s: Self)
        ensures
            s == (Size { width, height }),
    {
        Size { width, height }
    }
}

/// The coordinates of a point as unsigned numbers, where both are
/// non-negative.
pub open spec fn unsigned_coordinates(p: Point) -> Option<(u32, u32)> {
    if p.x >= 0 && p.y >= 0 {
        Some((p.x as u32, p.y as u32))
    } else {
        None
    }
}

/// Converts a point to unsigned coordinates, or gives `None` where one of
/// them is negative.
pub fn to_unsigned(p: Point) -> (r: Option<(u32, u32)>)
    ensures
        r == unsigned_coordinates(p),
{
    point_to_u32_pair(p.x, p.y)
}

/// Calls embedded-graphics' `TryFrom<Point> for (u32, u32)` on the point
/// `(x, y)`. The crate converts each coordinate with `u32::try_from`, which
/// fails exactly on a negative one; the contract claims that.
#[verifier::external_body]
fn point_to_u32_pair(x: i32, y: i32) -> (r: Option<(u32, u32)>)
    ensures
        r == unsigned_coordinates(Point { x, y }),
{
    <(u32, u32)>::try_from(embedded_graphics::geometry::Point::new(x, y)).ok()
}

} // verus!
