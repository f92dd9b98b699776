//! Axis-aligned rectangles used by the room-based carving steps.

use vstd::prelude::*;

verus! {

/// The largest coordinate a rectangle corner may take; keeps sums of two
/// coordinates inside `i32`.
pub const MAX_COORD: i32 = 0x3fff_ffff;

/// A rectangle, stored by its two corners.  Rooms are carved from the
/// interior `(x1, x2] x (y1, y2]`, so two rects that merely share an edge
/// do not share carved tiles.
#[derive(Clone, Copy, PartialEq, Eq, Structural, Debug)]
pub struct Rect {
    pub x1: i32,
    pub y1: i32,
    pub x2: i32,
    pub y2: i32,
}

impl Rect {
    /// Corners ordered and small enough for overflow-free arithmetic.
    pub open spec fn wf(self) -> bool {
        &&& 0 <= self.x1 <= self.x2 <= MAX_COORD
        &&& 0 <= self.y1 <= self.y2 <= MAX_COORD
    }

    /// Whether (x, y) is one of the tiles this rectangle carves.
    pub open spec fn contains(self, x: int, y: int) -> bool {
        self.x1 < x <= self.x2 && self.y1 < y <= self.y2
    }

    /// Whether the two rectangles touch or overlap.
    pub open spec fn intersect_spec(self, other: Rect) -> bool {
        self.x1 <= other.x2 && self.x2 >= other.x1 && self.y1 <= other.y2 && self.y2 >= other.y1
    }

    pub fn new(x: i32, y: i32, w: i32, h: i32) -> (r: Rect)
        requires
            0 <= x,
            0 <= y,
            0 <= w,
            0 <= h,
            x + w <= MAX_COORD,
            y + h <= MAX_COORD,
        ensures
            r.x1 == x && r.y1 == y,
            r.x2 == x + w && r.y2 == y + h,
            r.wf(),
    {
        Rect { x1: x, y1: y, x2: x + w, y2: y + h }
    }

    pub fn intersect(&self, other: &Rect) -> (r: bool)
        ensures
            r == self.intersect_spec(*other),
    {
        self.x1 <= other.x2 && self.x2 >= other.x1 && self.y1 <= other.y2 && self.y2 >= other.y1
    }

    /// The centre tile, rounding down.
    pub fn center(&self) -> (c: (i32, i32))
        requires
            self.wf(),
        ensures
            c.0 == (self.x1 + self.x2) / 2,
            c.1 == (self.y1 + self.y2) / 2,
            self.x1 <= c.0 <= self.x2,
            self.y1 <= c.1 <= self.y2,
    {
        ((self.x1 + self.x2) / 2, (self.y1 + self.y2) / 2)
    }
}

} // verus!
