//! Rectangles, as used for the rooms of a map.

use crate::positions::Point;
use vstd::prelude::*;

verus! {

/// A two-dimensional rectangle from `(x1, y1)` to `(x2, y2)`.
#[derive(PartialEq, Eq, Copy, Clone, Debug, Structural)]
pub struct Rect {
    pub x1: i32,
    pub x2: i32,
    pub y1: i32,
    pub y2: i32,
}

/// Integer division by two, rounding toward zero as Rust's `/` does.
pub open spec fn half(a: int) -> int {
    if a >= 0 {
        a / 2
    } else {
        -((-a) / 2)
    }
}

impl Rect {
    /// A rectangle at `(x, y)` of width `w` and height `h`.
    pub fn with_size(x: i32, y: i32, w: i32, h: i32) -> (r: Rect)
        requires
            i32::MIN <= x + w <= i32::MAX,
            i32::MIN <= y + h <= i32::MAX,
        ensures
            r == (Rect { x1: x, y1: y, x2: (x + w) as i32, y2: (y + h) as i32 }),
    {
        Rect { x1: x, y1: y, x2: x + w, y2: y + h }
    }

    /// Whether the two rectangles overlap (touching edges count).
    pub open spec fn spec_intersect(&self, other: &Rect) -> bool {
        self.x1 <= other.x2 && self.x2 >= other.x1 && self.y1 <= other.y2 && self.y2 >= other.y1
    }

    /// Returns true if this overlaps with other.
    pub fn intersect(&self, other: &Rect) -> (r: bool)
        ensures
            r == self.spec_intersect(other),
    {
        self.x1 <= other.x2 && self.x2 >= other.x1 && self.y1 <= other.y2 && self.y2 >= other.y1
    }

    /// The center of the rectangle.
    pub open spec fn spec_center(&self) -> Point {
        Point { x: half(self.x1 + self.x2) as i32, y: half(self.y1 + self.y2) as i32 }
    }

    /// Returns the center of the rectangle.
    pub fn center(&self) -> (r: Point)
        requires
            i32::MIN <= self.x1 + self.x2 <= i32::MAX,
            i32::MIN <= self.y1 + self.y2 <= i32::MAX,
        ensures
            r == self.spec_center(),
    {
        Point::new((self.x1 + self.x2) / 2, (self.y1 + self.y2) / 2)
    }
}

/// Overlap of rectangles is symmetric.
pub proof fn lemma_intersect_symmetric(a: Rect, b: Rect)
    ensures
        a.spec_intersect(&b) == b.spec_intersect(&a),
{
}

} // verus!
