use vstd::prelude::*;
use crate::math::point::{Point, fits_i32};
use crate::math::arith::{u32_as_i32, half_size, u32_to_i32};

verus! {

/// A rectangular region: top-left corner and size.
#[derive(Debug, Clone, Copy, PartialEq, Eq, Structural)]
pub struct Rect {
    pub x: i32,
    pub y: i32,
    pub width: u32,
    pub height: u32,
}

impl Rect {
    /// Create a new rectangle.
    pub fn new(x: i32, y: i32, width: u32, height: u32) -> (r: Rect)
        ensures
            r.x == x,
            r.y == y,
            r.width == width,
            r.height == height,
    {
        Rect { x, y, width, height }
    }

    /// Create a rectangle of the given size centered on `center`.
    pub fn from_center(center: Point, width: u32, height: u32) -> (r: Rect)
        requires
            fits_i32(center.x - half_size(width)),
            fits_i32(center.y - half_size(height)),
        ensures
            r.x == center.x - half_size(width),
            r.y == center.y - half_size(height),
            r.width == width,
            r.height == height,
    {
        let hw = u32_to_i32(width) / 2;
        let hh = u32_to_i32(height) / 2;
        Rect { x: center.x - hw, y: center.y - hh, width, height }
    }

    /// The center point of the rectangle.
    pub fn center(&self) -> (p: Point)
        requires
            fits_i32(self.x + half_size(self.width)),
            fits_i32(self.y + half_size(self.height)),
        ensures
            p.x == self.x + half_size(self.width),
            p.y == self.y + half_size(self.height),
    {
        let hw = u32_to_i32(self.width) / 2;
        let hh = u32_to_i32(self.height) / 2;
        Point::new(self.x + hw, self.y + hh)
    }

    /// The top-left corner.
    pub fn top_left(&self) -> (p: Point)
        ensures
            p.x == self.x,
            p.y == self.y,
    {
        Point::new(self.x, self.y)
    }

    /// Whether the point lies inside the rectangle (right and bottom edges excluded).
    pub fn contains(&self, point: Point) -> (b: bool)
        requires
            fits_i32(self.x + u32_as_i32(self.width)),
            fits_i32(self.y + u32_as_i32(self.height)),
        ensures
            b == (point.x >= self.x && point.x < self.x + u32_as_i32(self.width)
                && point.y >= self.y && point.y < self.y + u32_as_i32(self.height)),
    {
        let w = u32_to_i32(self.width);
        let h = u32_to_i32(self.height);
        point.x >= self.x && point.x < self.x + w && point.y >= self.y && point.y < self.y + h
    }

    /// Whether this rectangle overlaps `other` in an area of positive size.
    pub fn intersects(&self, other: &Rect) -> (b: bool)
        requires
            fits_i32(self.x + u32_as_i32(self.width)),
            fits_i32(self.y + u32_as_i32(self.height)),
            fits_i32(other.x + u32_as_i32(other.width)),
            fits_i32(other.y + u32_as_i32(other.height)),
        ensures
            b == spec_intersects(*self, *other),
    {
        let sw = u32_to_i32(self.width);
        let sh = u32_to_i32(self.height);
        let ow = u32_to_i32(other.width);
        let oh = u32_to_i32(other.height);
        self.x < other.x + ow && self.x + sw > other.x && self.y < other.y + oh && self.y + sh
            > other.y
    }
}

/// The overlap test of `Rect::intersects`.
pub open spec fn spec_intersects(a: Rect, b: Rect) -> bool {
    &&& a.x < b.x + u32_as_i32(b.width)
    &&& a.x + u32_as_i32(a.width) > b.x
    &&& a.y < b.y + u32_as_i32(b.height)
    &&& a.y + u32_as_i32(a.height) > b.y
}

/// Intersection is symmetric.
pub proof fn lemma_intersects_symmetric(a: Rect, b: Rect)
    ensures
        spec_intersects(a, b) == spec_intersects(b, a),
{
}

} // verus!
