//! Integer points, sizes and rectangles in logical coordinates, together
//! with the bounds that keep every computation of the window manager free
//! of arithmetic overflow.

use vstd::prelude::*;

verus! {

/// Tolerance, in logical units, for the edge comparisons of the adjacency
/// search and of the "close enough" geometry checks.
pub const EPSILON: i32 = 5;

/// Largest magnitude a stored coordinate or dimension may have.  Keeping
/// every stored value within this range lets every sum of a handful of
/// coordinates stay far away from the `i32` limits.
pub const MAX_COORD: i32 = 0x0100_0000;

/// A position in logical coordinates.
#[derive(Clone, Copy, PartialEq, Eq, Structural, Debug)]
pub struct Point {
    pub x: i32,
    pub y: i32,
}

/// An extent in logical coordinates.
#[derive(Clone, Copy, PartialEq, Eq, Structural, Debug)]
pub struct Size {
    pub w: i32,
    pub h: i32,
}

/// A rectangle: a position and an extent.
#[derive(Clone, Copy, PartialEq, Eq, Structural, Debug)]
pub struct Rect {
    pub loc: Point,
    pub size: Size,
}

/// The point lies within the stored coordinate range.
pub open spec fn point_wf(p: Point) -> bool {
    -(MAX_COORD as int) <= p.x <= MAX_COORD as int
        && -(MAX_COORD as int) <= p.y <= MAX_COORD as int
}

/// A point of a pending target rectangle: such corners are sums of a
/// position and an extent, so they get twice the range.
pub open spec fn ext_point_wf(p: Point) -> bool {
    -2 * (MAX_COORD as int) <= p.x <= 2 * (MAX_COORD as int)
        && -2 * (MAX_COORD as int) <= p.y <= 2 * (MAX_COORD as int)
}

/// The size is non-negative and within the stored range.
pub open spec fn size_wf(s: Size) -> bool {
    0 <= s.w <= MAX_COORD as int && 0 <= s.h <= MAX_COORD as int
}

/// The two values differ by less than [`EPSILON`].
pub open spec fn near(a: int, b: int) -> bool {
    -(EPSILON as int) < a - b < EPSILON as int
}

/// The point `(px, py)` lies inside the rectangle.
pub open spec fn rect_contains(r: Rect, px: int, py: int) -> bool {
    r.loc.x <= px < r.loc.x + r.size.w && r.loc.y <= py < r.loc.y + r.size.h
}

} // verus!
