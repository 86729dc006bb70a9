//! Plain rectangle and per-edge thickness types, in fixed-point units.

use vstd::prelude::*;

verus! {

/// Number of coordinate units per pixel: all geometry is stored in
/// fixed-point tenths of a pixel, so that sub-pixel border widths are exact.
pub const PX: i64 = 10;

/// Bound on coordinates and sizes. Keeping every coordinate within this
/// bound guarantees that the short sums the pipeline forms (a coordinate
/// plus a size, a size plus two edge thicknesses) stay representable in an
/// `i64`.
pub const COORD_LIMIT: i64 = 0x2000_0000_0000;

/// An axis-aligned rectangle: origin and size.
#[derive(Clone, Copy, Debug, PartialEq, Eq, Structural)]
pub struct Rect {
    pub x: i64,
    pub y: i64,
    pub width: i64,
    pub height: i64,
}

/// Per-edge thickness values (margin, border or padding of one element).
#[derive(Clone, Copy, Debug, PartialEq, Eq, Structural)]
pub struct Edges {
    pub top: i64,
    pub right: i64,
    pub bottom: i64,
    pub left: i64,
}

impl Rect {
    /// A rectangle is well formed when its size is non-negative and both its
    /// origin and its far corner lie within the coordinate bound.
    pub open spec fn wf(self) -> bool {
        &&& -COORD_LIMIT <= self.x
        &&& -COORD_LIMIT <= self.y
        &&& 0 <= self.width
        &&& 0 <= self.height
        &&& self.x + self.width <= COORD_LIMIT
        &&& self.y + self.height <= COORD_LIMIT
    }

    /// The point `(px, py)` lies inside the rectangle.
    pub open spec fn spec_contains_point(self, px: int, py: int) -> bool {
        &&& self.x <= px < self.x + self.width
        &&& self.y <= py < self.y + self.height
    }

    /// The rectangle `inner` lies entirely within `self`.
    pub open spec fn spec_contains_rect(self, inner: Rect) -> bool {
        &&& self.x <= inner.x
        &&& self.y <= inner.y
        &&& inner.x + inner.width <= self.x + self.width
        &&& inner.y + inner.height <= self.y + self.height
    }

    /// Classic rectangle-overlap test on the extents of the two
    /// rectangles. For rectangles of positive size it coincides with
    /// sharing a point ([`lemma_overlaps_iff_common_point`]).
    pub open spec fn spec_overlaps(self, other: Rect) -> bool {
        &&& self.x < other.x + other.width
        &&& other.x < self.x + self.width
        &&& self.y < other.y + other.height
        &&& other.y < self.y + self.height
    }

    /// Simple rectangle-overlap test.
    pub fn overlaps(&self, other: &Rect) -> (r: bool)
        requires
            self.wf(),
            other.wf(),
        ensures
            r == self.spec_overlaps(*other),
    {
        self.x < other.x + other.width && other.x < self.x + self.width
            && self.y < other.y + other.height && other.y < self.y + self.height
    }

    /// Shift the rectangle by `(dx, dy)` without changing its size.
    pub fn translate(&self, dx: i64, dy: i64) -> (r: Rect)
        requires
            self.wf(),
            -COORD_LIMIT <= dx <= COORD_LIMIT,
            -COORD_LIMIT <= dy <= COORD_LIMIT,
        ensures
            r.x == self.x + dx,
            r.y == self.y + dy,
            r.width == self.width,
            r.height == self.height,
    {
        Rect { x: self.x + dx, y: self.y + dy, width: self.width, height: self.height }
    }
}

/// For rectangles of positive size, overlap holds exactly when the two
/// rectangles share a point; the witness is the component-wise maximum of
/// the two origins.
pub proof fn lemma_overlaps_iff_common_point(a: Rect, b: Rect)
    requires
        a.wf(),
        b.wf(),
        a.width > 0,
        a.height > 0,
        b.width > 0,
        b.height > 0,
    ensures
        a.spec_overlaps(b) <==> exists|px: int, py: int|
            a.spec_contains_point(px, py) && b.spec_contains_point(px, py),
{
    if a.spec_overlaps(b) {
        let px = if a.x >= b.x { a.x as int } else { b.x as int };
        let py = if a.y >= b.y { a.y as int } else { b.y as int };
        assert(a.x <= px && b.x <= px && px < a.x + a.width && px < b.x + b.width);
        assert(a.y <= py && b.y <= py && py < a.y + a.height && py < b.y + b.height);
        assert(a.spec_contains_point(px, py) && b.spec_contains_point(px, py));
    }
}

/// Overlap is monotone in its second argument: anything overlapping a
/// rectangle also overlaps every rectangle containing it.
pub proof fn lemma_overlap_in_larger(a: Rect, inner: Rect, outer: Rect)
    requires
        a.spec_overlaps(inner),
        outer.spec_contains_rect(inner),
    ensures
        a.spec_overlaps(outer),
{
}

impl Edges {
    /// Edge thicknesses are non-negative and bounded.
    pub open spec fn wf(self) -> bool {
        &&& 0 <= self.top <= COORD_LIMIT
        &&& 0 <= self.right <= COORD_LIMIT
        &&& 0 <= self.bottom <= COORD_LIMIT
        &&& 0 <= self.left <= COORD_LIMIT
    }

    /// All four edges are zero.
    pub open spec fn spec_is_zero(self) -> bool {
        self.top == 0 && self.right == 0 && self.bottom == 0 && self.left == 0
    }

    /// Edges of zero thickness on every side.
    pub fn zero() -> (r: Edges)
        ensures
            r.spec_is_zero(),
            r.wf(),
    {
        Edges { top: 0, right: 0, bottom: 0, left: 0 }
    }
}

} // verus!
