use vstd::prelude::*;

verus! {

/// An axis-aligned rectangle, stored by its two corner coordinates.
/// Rooms are rectangles; the carved (walkable) part is the interior,
/// which leaves the lowest row and column of the rectangle as wall.
#[derive(Clone, Copy, PartialEq, Eq, Structural, Debug)]
pub struct Rect {
    pub x1: i32,
    pub y1: i32,
    pub x2: i32,
    pub y2: i32,
}

impl Rect {
    /// True when the two closed rectangles share at least one cell.
    pub open spec fn overlaps(self, other: Rect) -> bool {
        self.x1 <= other.x2 && self.x2 >= other.x1 && self.y1 <= other.y2 && self.y2 >= other.y1
    }

    /// The room's center cell; always inside the interior for well-formed rooms.
    pub open spec fn center_spec(self) -> (int, int) {
        ((self.x1 + self.x2) / 2, (self.y1 + self.y2) / 2)
    }

    /// The cells carved to floor for this room.
    pub open spec fn interior_contains(self, x: int, y: int) -> bool {
        self.x1 < x <= self.x2 && self.y1 < y <= self.y2
    }

    /// A room that fits a width x height map with a one-cell wall margin,
    /// and is large enough that its center lies in its interior.
    pub open spec fn wf_in(self, width: int, height: int) -> bool {
        &&& 0 <= self.x1
        &&& self.x1 + 2 <= self.x2
        &&& self.x2 <= width - 2
        &&& 0 <= self.y1
        &&& self.y1 + 2 <= self.y2
        &&& self.y2 <= height - 2
    }

    /// A well-formed room's center lies strictly inside its carved interior.
    pub proof fn lemma_center_in_interior(self, width: int, height: int)
        requires
            self.wf_in(width, height),
        ensures
            self.interior_contains(self.center_spec().0, self.center_spec().1),
            0 < self.center_spec().0 < width - 1,
            0 < self.center_spec().1 < height - 1,
    {
        assert(self.x1 + 1 <= (self.x1 + self.x2) / 2 <= self.x2) by (nonlinear_arith)
            requires 0 <= self.x1, self.x1 + 2 <= self.x2;
        assert(self.y1 + 1 <= (self.y1 + self.y2) / 2 <= self.y2) by (nonlinear_arith)
            requires 0 <= self.y1, self.y1 + 2 <= self.y2;
    }

    pub fn new(x: i32, y: i32, w: i32, h: i32) -> (r: Rect)
        requires
            0 <= x,
            0 <= y,
            0 <= w,
            0 <= h,
            x + w <= i32::MAX,
            y + h <= i32::MAX,
        ensures
            r.x1 == x,
            r.y1 == y,
            r.x2 == x + w,
            r.y2 == y + h,
    {
        Rect { x1: x, y1: y, x2: x + w, y2: y + h }
    }

    pub fn intersect(&self, other: &Rect) -> (r: bool)
        ensures
            r == self.overlaps(*other),
    {
        self.x1 <= other.x2 && self.x2 >= other.x1 && self.y1 <= other.y2 && self.y2 >= other.y1
    }

    pub fn center(&self) -> (c: (i32, i32))
        requires
            0 <= self.x1 <= self.x2 <= 0x10000,
            0 <= self.y1 <= self.y2 <= 0x10000,
        ensures
            (c.0 as int, c.1 as int) == self.center_spec(),
    {
        ((self.x1 + self.x2) / 2, (self.y1 + self.y2) / 2)
    }
}

} // verus!
