use vstd::prelude::*;

verus! {

/// A position in 2D space: world coordinates, screen pixels or tile indices.
#[derive(Debug, Clone, Copy, PartialEq, Eq, Structural)]
pub struct Point {
    pub x: i32,
    pub y: i32,
}

/// Whether `v` fits in an `i32`.
pub open spec fn fits_i32(v: int) -> bool {
    i32::MIN <= v <= i32::MAX
}

impl Point {
    /// Create a new point.
    pub fn new(x: i32, y: i32) -> (p: Point)
        ensures
            p.x == x,
            p.y == y,
    {
        Point { x, y }
    }

    /// The origin (0, 0).
    pub fn zero() -> (p: Point)
        ensures
            p.x == 0,
            p.y == 0,
    {
        Point { x: 0, y: 0 }
    }

    /// Component-wise vector addition.
    pub fn add(&self, other: Point) -> (p: Point)
        requires
            fits_i32(self.x + other.x),
            fits_i32(self.y + other.y),
        ensures
            p.x == self.x + other.x,
            p.y == self.y + other.y,
    {
        Point::new(self.x + other.x, self.y + other.y)
    }

    /// Component-wise vector subtraction.
    pub fn sub(&self, other: Point) -> (p: Point)
        requires
            fits_i32(self.x - other.x),
            fits_i32(self.y - other.y),
        ensures
            p.x == self.x - other.x,
            p.y == self.y - other.y,
    {
        Point::new(self.x - other.x, self.y - other.y)
    }

    /// Build a point from an `(x, y)` pair.
    pub fn from_pair(pair: (i32, i32)) -> (p: Point)
        ensures
            p.x == pair.0,
            p.y == pair.1,
    {
        Point::new(pair.0, pair.1)
    }
}

/// Adding a displacement and then subtracting it gives back the starting point.
pub proof fn lemma_add_then_sub(p: Point, d: Point)
    requires
        fits_i32(p.x + d.x),
        fits_i32(p.y + d.y),
    ensures
        (p.x + d.x) - d.x == p.x,
        (p.y + d.y) - d.y == p.y,
        fits_i32((p.x + d.x) - d.x),
        fits_i32((p.y + d.y) - d.y),
{
}

} // verus!
