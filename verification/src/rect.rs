//! Rectangle algebra for screen regions: union ("container"),
//! intersection, containment and offset, on integer pixel coordinates.

use vstd::prelude::*;
use vstd::math::{max, min};

verus! {

/// Coordinate magnitude bound. Every rectangle this library operates on
/// lies inside the square `[-COORD_MAX, COORD_MAX]` on both axes, which
/// keeps every edge computation (sums and differences of two
/// coordinates) inside `i32`.
pub const COORD_MAX: i32 = 0x3FFF_FFFF;

/// A rectangular screen region: top-left corner `(x, y)`, extent
/// `w` by `h`. Width and height are never negative.
#[derive(Clone, Copy, Debug, PartialEq, Eq, Structural)]
pub struct Rect {
    /// x coordinate of the top-left corner.
    pub x: i32,
    /// y coordinate of the top-left corner.
    pub y: i32,
    /// Width; never negative.
    pub w: i32,
    /// Height; never negative.
    pub h: i32,
}

impl Rect {
    /// Non-negative extent, and the whole region lies inside the
    /// coordinate square: every derived edge fits in `i32`.
    pub open spec fn wf(self) -> bool {
        &&& 0 <= self.w
        &&& 0 <= self.h
        &&& -COORD_MAX <= self.x
        &&& self.x + self.w <= COORD_MAX
        &&& -COORD_MAX <= self.y
        &&& self.y + self.h <= COORD_MAX
    }

    /// Right edge, one past the last column.
    pub open spec fn spec_right(self) -> int {
        self.x + self.w
    }

    /// Bottom edge, one past the last row.
    pub open spec fn spec_bottom(self) -> int {
        self.y + self.h
    }

    /// A rectangle with no pixels.
    pub open spec fn spec_is_empty(self) -> bool {
        self.w == 0 || self.h == 0
    }

    /// The pixel cell `(px, py)` lies inside the region (edges are
    /// half-open: the right and bottom edges are excluded).
    pub open spec fn covers(self, px: int, py: int) -> bool {
        &&& self.x <= px < self.x + self.w
        &&& self.y <= py < self.y + self.h
    }

    /// Some pixel cell lies in both regions.
    pub open spec fn overlaps(self, other: Rect) -> bool {
        &&& max(self.x as int, other.x as int) < min(self.spec_right(), other.spec_right())
        &&& max(self.y as int, other.y as int) < min(self.spec_bottom(), other.spec_bottom())
    }

    /// Every pixel cell of `inner` lies inside `self`; an empty `inner`
    /// is contained whenever its corner lies within `self`'s span.
    pub open spec fn spec_contains_rect(self, inner: Rect) -> bool {
        &&& self.x <= inner.x
        &&& inner.spec_right() <= self.spec_right()
        &&& self.y <= inner.y
        &&& inner.spec_bottom() <= self.spec_bottom()
    }

    /// The smallest rectangle covering both operands.
    pub open spec fn spec_container(self, other: Rect) -> Rect {
        Rect {
            x: min(self.x as int, other.x as int) as i32,
            y: min(self.y as int, other.y as int) as i32,
            w: (max(self.spec_right(), other.spec_right())
                - min(self.x as int, other.x as int)) as i32,
            h: (max(self.spec_bottom(), other.spec_bottom())
                - min(self.y as int, other.y as int)) as i32,
        }
    }

    /// The common region of both operands; empty when they do not
    /// overlap.
    pub open spec fn spec_intersection(self, other: Rect) -> Rect {
        Rect {
            x: max(self.x as int, other.x as int) as i32,
            y: max(self.y as int, other.y as int) as i32,
            w: max(0, min(self.spec_right(), other.spec_right())
                - max(self.x as int, other.x as int)) as i32,
            h: max(0, min(self.spec_bottom(), other.spec_bottom())
                - max(self.y as int, other.y as int)) as i32,
        }
    }

    /// The region shifted right by `dx` and down by `dy`.
    pub open spec fn spec_offset(self, dx: int, dy: int) -> Rect {
        Rect { x: (self.x + dx) as i32, y: (self.y + dy) as i32, w: self.w, h: self.h }
    }

    /// Builds a rectangle; the extent must be non-negative.
    pub fn new(x: i32, y: i32, w: i32, h: i32) -> (r: Rect)
        requires
            0 <= w,
            0 <= h,
        ensures
            r == (Rect { x, y, w, h }),
    {
        Rect { x, y, w, h }
    }

    /// Number of pixel cells in the region.
    pub fn area(&self) -> (r: i32)
        requires
            0 <= self.w,
            0 <= self.h,
            self.w * self.h <= i32::MAX,
        ensures
            r == self.w * self.h,
    {
        self.w * self.h
    }

    /// Left edge.
    pub fn left(&self) -> (r: i32)
        ensures
            r == self.x,
    {
        self.x
    }

    /// Right edge, one past the last column.
    pub fn right(&self) -> (r: i32)
        requires
            i32::MIN <= self.x + self.w <= i32::MAX,
        ensures
            r == self.spec_right(),
    {
        self.x + self.w
    }

    /// Top edge.
    pub fn top(&self) -> (r: i32)
        ensures
            r == self.y,
    {
        self.y
    }

    /// Bottom edge, one past the last row.
    pub fn bottom(&self) -> (r: i32)
        requires
            i32::MIN <= self.y + self.h <= i32::MAX,
        ensures
            r == self.spec_bottom(),
    {
        self.y + self.h
    }

    /// Width of the region.
    pub fn width(&self) -> (r: i32)
        ensures
            r == self.w,
    {
        self.w
    }

    /// Height of the region.
    pub fn height(&self) -> (r: i32)
        ensures
            r == self.h,
    {
        self.h
    }

    /// The smallest rectangle covering both `self` and `other`.
    pub fn container(&self, other: &Rect) -> (r: Rect)
        requires
            self.wf(),
            other.wf(),
        ensures
            r == self.spec_container(*other),
            r.wf(),
    {
        let left = if self.x < other.x { self.x } else { other.x };
        let right_a = self.x + self.w;
        let right_b = other.x + other.w;
        let right = if right_a > right_b { right_a } else { right_b };
        let top = if self.y < other.y { self.y } else { other.y };
        let bottom_a = self.y + self.h;
        let bottom_b = other.y + other.h;
        let bottom = if bottom_a > bottom_b { bottom_a } else { bottom_b };
        Rect { x: left, y: top, w: right - left, h: bottom - top }
    }

    /// The common region of `self` and `other`; empty when they do not
    /// overlap.
    pub fn intersection(&self, other: &Rect) -> (r: Rect)
        requires
            self.wf(),
            other.wf(),
        ensures
            r == self.spec_intersection(*other),
            r.wf(),
    {
        let left = if self.x > other.x { self.x } else { other.x };
        let right_a = self.x + self.w;
        let right_b = other.x + other.w;
        let right = if right_a < right_b { right_a } else { right_b };
        let top = if self.y > other.y { self.y } else { other.y };
        let bottom_a = self.y + self.h;
        let bottom_b = other.y + other.h;
        let bottom = if bottom_a < bottom_b { bottom_a } else { bottom_b };
        let w = if right - left > 0 { right - left } else { 0 };
        let h = if bottom - top > 0 { bottom - top } else { 0 };
        Rect { x: left, y: top, w, h }
    }

    /// The point `(x, y)` lies in the region; all four edges are
    /// inclusive here.
    pub fn contains(&self, x: i32, y: i32) -> (r: bool)
        requires
            self.wf(),
        ensures
            r == (self.x <= x && x <= self.spec_right() && self.y <= y && y <= self.spec_bottom()),
    {
        self.x <= x && self.x + self.w >= x && self.y <= y && self.y + self.h >= y
    }

    /// The region holds no pixels.
    pub fn is_empty(&self) -> (r: bool)
        ensures
            r == self.spec_is_empty(),
    {
        self.w == 0 || self.h == 0
    }

    /// Shifts the region right by `x` and down by `y`; used to convert
    /// between absolute and relative positions.
    pub fn offset(&self, x: i32, y: i32) -> (r: Rect)
        requires
            i32::MIN <= self.x + x <= i32::MAX,
            i32::MIN <= self.y + y <= i32::MAX,
        ensures
            r == self.spec_offset(x as int, y as int),
    {
        Rect { x: self.x + x, y: self.y + y, w: self.w, h: self.h }
    }
}

/// An intersection covers exactly the pixel cells common to both
/// operands; in particular it is empty unless the operands overlap.
pub proof fn lemma_intersection_covers(a: Rect, b: Rect)
    requires
        a.wf(),
        b.wf(),
    ensures
        forall|px: int, py: int|
            a.spec_intersection(b).covers(px, py) <==> a.covers(px, py) && b.covers(px, py),
        !a.overlaps(b) ==> a.spec_intersection(b).spec_is_empty(),
{
}

/// The intersection of well-formed rectangles is well-formed.
pub proof fn lemma_intersection_wf(a: Rect, b: Rect)
    requires
        a.wf(),
        b.wf(),
    ensures
        a.spec_intersection(b).wf(),
{
}

/// A non-empty intersection lies inside both operands.
pub proof fn lemma_intersection_in_both(a: Rect, b: Rect)
    requires
        a.wf(),
        b.wf(),
        !a.spec_intersection(b).spec_is_empty(),
    ensures
        a.spec_contains_rect(a.spec_intersection(b)),
        b.spec_contains_rect(a.spec_intersection(b)),
{
}

/// The container of two rectangles contains both of them.
pub proof fn lemma_container_contains_both(a: Rect, b: Rect)
    requires
        a.wf(),
        b.wf(),
    ensures
        a.spec_container(b).spec_contains_rect(a),
        a.spec_container(b).spec_contains_rect(b),
        a.spec_container(b).wf(),
{
}

/// Intersecting a rectangle with itself gives it back unchanged.
pub proof fn lemma_intersection_self(a: Rect)
    requires
        a.wf(),
    ensures
        a.spec_intersection(a) == a,
{
}

/// The container of a rectangle with itself is the rectangle.
pub proof fn lemma_container_self(a: Rect)
    requires
        a.wf(),
    ensures
        a.spec_container(a) == a,
{
}

} // verus!
