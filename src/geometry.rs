//! Axis-aligned geometry on the integer pixel grid.

use vstd::prelude::*;

verus! {

/// A point on the pixel grid.
#[derive(Clone, Copy, Debug, PartialEq, Eq, Structural)]
pub struct Point {
    pub x: i32,
    pub y: i32,
}

impl Point {
    pub fn new(x: i32, y: i32) -> (r: Point)
        ensures
            r.x == x,
            r.y == y,
    {
        Point { x, y }
    }

    pub fn zero() -> (r: Point)
        ensures
            r.x == 0,
            r.y == 0,
    {
        Point { x: 0, y: 0 }
    }
}

/// A width and a height in pixels.
#[derive(Clone, Copy, Debug, PartialEq, Eq, Structural)]
pub struct Size {
    pub width: u32,
    pub height: u32,
}

impl Size {
    pub fn new(width: u32, height: u32) -> (r: Size)
        ensures
            r.width == width,
            r.height == height,
    {
        Size { width, height }
    }

    pub fn zero() -> (r: Size)
        ensures
            r.width == 0,
            r.height == 0,
    {
        Size { width: 0, height: 0 }
    }
}

/// A rectangle given by its top-left corner and its size.
#[derive(Clone, Copy, Debug, PartialEq, Eq, Structural)]
pub struct Rectangle {
    pub top_left: Point,
    pub size: Size,
}

/// `v` lies in the half-open span `[origin, origin + extent)`.
pub open spec fn span_holds(origin: int, extent: int, v: int) -> bool {
    origin <= v < origin + extent
}

/// The rectangle with top-left corner `(ox, oy)` and size `size` holds `(x, y)`.
pub open spec fn area_holds(ox: int, oy: int, size: Size, x: int, y: int) -> bool {
    span_holds(ox, size.width as int, x) && span_holds(oy, size.height as int, y)
}

/// Tests `origin <= v < origin + extent` without overflow.
pub fn span_contains(origin: i64, extent: u32, v: i32) -> (r: bool)
    requires
        i32::MIN as i64 * 65536 <= origin <= i32::MAX as i64 * 65536,
    ensures
        r == span_holds(origin as int, extent as int, v as int),
{
    origin <= v as i64 && (v as i64) < origin + extent as i64
}

impl Rectangle {
    pub open spec fn new_spec(top_left: Point, size: Size) -> Rectangle {
        Rectangle { top_left, size }
    }

    #[verifier::when_used_as_spec(new_spec)]
    pub fn new(top_left: Point, size: Size) -> (r: Rectangle)
        ensures
            r == Rectangle::new_spec(top_left, size),
    {
        Rectangle { top_left, size }
    }

    /// Whether `point` lies inside; a rectangle of zero width or height holds no point.
    pub open spec fn holds(self, point: Point) -> bool {
        area_holds(self.top_left.x as int, self.top_left.y as int, self.size, point.x as int, point.y as int)
    }

    pub fn contains(&self, point: Point) -> (r: bool)
        ensures
            r == self.holds(point),
    {
        span_contains(self.top_left.x as i64, self.size.width, point.x)
            && span_contains(self.top_left.y as i64, self.size.height, point.y)
    }
}

} // verus!
