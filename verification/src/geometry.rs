//! Geometry for the widget toolkit: points, vectors, rectangles with
//! unsigned extents, and the alignment of one rectangle against
//! another around a pivot.

use vstd::prelude::*;

verus! {

/// A position on the screen.
#[derive(Clone, Copy, Debug, PartialEq, Eq, Structural)]
pub struct Point {
    /// x coordinate.
    pub x: i32,
    /// y coordinate.
    pub y: i32,
}

impl Point {
    /// Builds a point.
    pub fn new(x: i32, y: i32) -> (p: Point)
        ensures
            p == (Point { x, y }),
    {
        Point { x, y }
    }

    /// The componentwise sum of two points.
    pub fn add(self, other: Point) -> (r: Point)
        requires
            i32::MIN <= self.x + other.x <= i32::MAX,
            i32::MIN <= self.y + other.y <= i32::MAX,
        ensures
            r.x == self.x + other.x,
            r.y == self.y + other.y,
    {
        Point { x: self.x + other.x, y: self.y + other.y }
    }

    /// The componentwise difference of two points.
    pub fn sub(self, other: Point) -> (r: Point)
        requires
            i32::MIN <= self.x - other.x <= i32::MAX,
            i32::MIN <= self.y - other.y <= i32::MAX,
        ensures
            r.x == self.x - other.x,
            r.y == self.y - other.y,
    {
        Point { x: self.x - other.x, y: self.y - other.y }
    }
}

/// A two-dimensional integer vector.
#[derive(Clone, Copy, Debug, PartialEq, Eq, Structural)]
pub struct Vector2 {
    /// x component.
    pub x: i32,
    /// y component.
    pub y: i32,
}

impl Vector2 {
    /// Builds a vector.
    pub fn new(x: i32, y: i32) -> (v: Vector2)
        ensures
            v == (Vector2 { x, y }),
    {
        Vector2 { x, y }
    }

    /// The componentwise sum of two vectors.
    pub fn add(self, other: Vector2) -> (r: Vector2)
        requires
            i32::MIN <= self.x + other.x <= i32::MAX,
            i32::MIN <= self.y + other.y <= i32::MAX,
        ensures
            r.x == self.x + other.x,
            r.y == self.y + other.y,
    {
        Vector2 { x: self.x + other.x, y: self.y + other.y }
    }

    /// The componentwise difference of two vectors.
    pub fn sub(self, other: Vector2) -> (r: Vector2)
        requires
            i32::MIN <= self.x - other.x <= i32::MAX,
            i32::MIN <= self.y - other.y <= i32::MAX,
        ensures
            r.x == self.x - other.x,
            r.y == self.y - other.y,
    {
        Vector2 { x: self.x - other.x, y: self.y - other.y }
    }
}

/// A rectangle in world coordinates with an unsigned extent.
#[derive(Clone, Copy, Debug, PartialEq, Eq, Structural)]
pub struct Rect {
    /// x coordinate of the top-left corner.
    pub x: i32,
    /// y coordinate of the top-left corner.
    pub y: i32,
    /// Width.
    pub width: u32,
    /// Height.
    pub height: u32,
}

impl Rect {
    /// The extent fits signed arithmetic and the rectangle's far edges
    /// stay inside it.
    pub open spec fn wf(self) -> bool {
        &&& self.width <= i32::MAX
        &&& self.height <= i32::MAX
        &&& self.x + self.width <= i32::MAX
        &&& self.y + self.height <= i32::MAX
    }

    /// The point `(px, py)` lies inside the rectangle; the right and
    /// bottom edges are excluded.
    pub open spec fn spec_contains(self, px: int, py: int) -> bool {
        &&& self.x <= px < self.x + self.width
        &&& self.y <= py < self.y + self.height
    }

    /// Builds a rectangle.
    pub fn new(x: i32, y: i32, width: u32, height: u32) -> (r: Rect)
        ensures
            r == (Rect { x, y, width, height }),
    {
        Rect { x, y, width, height }
    }

    /// The top-left corner.
    pub fn top_left_pos(&self) -> (r: Vector2)
        ensures
            r.x == self.x,
            r.y == self.y,
    {
        Vector2::new(self.x, self.y)
    }

    /// The middle of the top edge.
    pub fn top_pos(&self) -> (r: Vector2)
        requires
            self.wf(),
        ensures
            r.x == self.x + self.width / 2,
            r.y == self.y,
    {
        Vector2::new(self.x + (self.width / 2) as i32, self.y)
    }

    /// The top-right corner.
    pub fn top_right_pos(&self) -> (r: Vector2)
        requires
            self.wf(),
        ensures
            r.x == self.x + self.width,
            r.y == self.y,
    {
        Vector2::new(self.x + self.width as i32, self.y)
    }

    /// The middle of the left edge.
    pub fn left_pos(&self) -> (r: Vector2)
        requires
            self.wf(),
        ensures
            r.x == self.x,
            r.y == self.y + self.height / 2,
    {
        Vector2::new(self.x, self.y + (self.height / 2) as i32)
    }

    /// The centre.
    pub fn center_pos(&self) -> (r: Vector2)
        requires
            self.wf(),
        ensures
            r.x == self.x + self.width / 2,
            r.y == self.y + self.height / 2,
    {
        Vector2::new(self.x + (self.width / 2) as i32, self.y + (self.height / 2) as i32)
    }

    /// The middle of the right edge.
    pub fn right_pos(&self) -> (r: Vector2)
        requires
            self.wf(),
        ensures
            r.x == self.x + self.width,
            r.y == self.y + self.height / 2,
    {
        Vector2::new(self.x + self.width as i32, self.y + (self.height / 2) as i32)
    }

    /// The bottom-left corner.
    pub fn bottom_left_pos(&self) -> (r: Vector2)
        requires
            self.wf(),
        ensures
            r.x == self.x,
            r.y == self.y + self.height,
    {
        Vector2::new(self.x, self.y + self.height as i32)
    }

    /// The middle of the bottom edge.
    pub fn bottom_pos(&self) -> (r: Vector2)
        requires
            self.wf(),
        ensures
            r.x == self.x + self.width / 2,
            r.y == self.y + self.height,
    {
        Vector2::new(self.x + (self.width / 2) as i32, self.y + self.height as i32)
    }

    /// The bottom-right corner.
    pub fn bottom_right_pos(&self) -> (r: Vector2)
        requires
            self.wf(),
        ensures
            r.x == self.x + self.width,
            r.y == self.y + self.height,
    {
        Vector2::new(self.x + self.width as i32, self.y + self.height as i32)
    }

    /// The point lies inside the rectangle; the right and bottom edges
    /// are excluded.
    pub fn contains(&self, p: Vector2) -> (r: bool)
        requires
            self.wf(),
        ensures
            r == self.spec_contains(p.x as int, p.y as int),
    {
        p.x >= self.x && p.x < self.x + self.width as i32 && p.y >= self.y && p.y < self.y
            + self.height as i32
    }

    /// The other rectangle lies wholly inside this one: both its
    /// top-left corner and the corner past its bottom-right do.
    pub fn contains_rect(&self, r: &Rect) -> (res: bool)
        requires
            self.wf(),
            r.wf(),
        ensures
            res == (self.spec_contains(r.x as int, r.y as int) && self.spec_contains(
                r.x + r.width,
                r.y + r.height,
            )),
    {
        let p1 = r.top_left_pos();
        let p2 = p1.add(Vector2::new(r.width as i32, r.height as i32));
        self.contains(p1) && self.contains(p2)
    }

    /// The two rectangles share at least one point.
    pub fn intersects(&self, r: &Rect) -> (res: bool)
        requires
            self.wf(),
            r.wf(),
        ensures
            res == !(r.x >= self.x + self.width || self.x >= r.x + r.width || r.y >= self.y
                + self.height || self.y >= r.y + r.height),
    {
        !(r.x >= self.x + self.width as i32 || self.x >= r.x + r.width as i32 || r.y >= self.y
            + self.height as i32 || self.y >= r.y + r.height as i32)
    }
}

/// Which point of a reference rectangle a widget is aligned against.
#[derive(Clone, Copy, Debug, PartialEq, Eq, Structural)]
pub enum PivotType {
    /// No alignment: the offset is an absolute position.
    NoAlign,
    /// The top-left corner.
    TopLeft,
    /// The middle of the top edge.
    Top,
    /// The top-right corner.
    TopRight,
    /// The middle of the left edge.
    Left,
    /// The centre.
    Center,
    /// The middle of the right edge.
    Right,
    /// The bottom-left corner.
    BottomLeft,
    /// The middle of the bottom edge.
    Bottom,
    /// The bottom-right corner.
    BottomRight,
}

/// The reference point a pivot selects on a rectangle.
pub open spec fn spec_pivot_pos(r: Rect, pivot: PivotType) -> (int, int) {
    match pivot {
        PivotType::NoAlign => (0int, 0int),
        PivotType::Bottom => (r.x + r.width / 2, r.y + r.height),
        PivotType::BottomLeft => (r.x as int, r.y + r.height),
        PivotType::BottomRight => (r.x + r.width, r.y + r.height),
        PivotType::Center => (r.x + r.width / 2, r.y + r.height / 2),
        PivotType::Top => (r.x + r.width / 2, r.y as int),
        PivotType::TopLeft => (r.x as int, r.y as int),
        PivotType::TopRight => (r.x + r.width, r.y as int),
        PivotType::Left => (r.x as int, r.y + r.height / 2),
        PivotType::Right => (r.x + r.width, r.y + r.height / 2),
    }
}

/// How far an aligned rectangle's top-left corner sits from the
/// reference point, given the rectangle's extent.
pub open spec fn spec_pivot_shift(w: u32, h: u32, pivot: PivotType) -> (int, int) {
    match pivot {
        PivotType::NoAlign => (0int, 0int),
        PivotType::Bottom => (-((w / 2) as int), -(h as int)),
        PivotType::BottomLeft => (0int, -(h as int)),
        PivotType::BottomRight => (-(w as int), -(h as int)),
        PivotType::Center => (-((w / 2) as int), -((h / 2) as int)),
        PivotType::Top => (-((w / 2) as int), 0int),
        PivotType::TopLeft => (0int, 0int),
        PivotType::TopRight => (-(w as int), 0int),
        PivotType::Left => (0int, -((h / 2) as int)),
        PivotType::Right => (-(w as int), -((h / 2) as int)),
    }
}

/// Aligns a rectangle against a reference rectangle: the pivot picks a
/// reference point, the offset shifts it, and the result keeps the
/// original extent with its top-left corner placed so the pivot's side
/// or corner of it lands on that point.
pub fn align_rect(origin_rect: Rect, relative_rect: Rect, pivot: PivotType, pivot_offset: Vector2)
    -> (r: Rect)
    requires
        origin_rect.wf(),
        relative_rect.wf(),
        i32::MIN <= spec_pivot_pos(relative_rect, pivot).0 + pivot_offset.x,
        spec_pivot_pos(relative_rect, pivot).0 + pivot_offset.x + spec_pivot_shift(
            origin_rect.width,
            origin_rect.height,
            pivot,
        ).0 <= i32::MAX,
        spec_pivot_pos(relative_rect, pivot).0 + pivot_offset.x <= i32::MAX,
        i32::MIN <= spec_pivot_pos(relative_rect, pivot).0 + pivot_offset.x + spec_pivot_shift(
            origin_rect.width,
            origin_rect.height,
            pivot,
        ).0,
        i32::MIN <= spec_pivot_pos(relative_rect, pivot).1 + pivot_offset.y,
        spec_pivot_pos(relative_rect, pivot).1 + pivot_offset.y <= i32::MAX,
        i32::MIN <= spec_pivot_pos(relative_rect, pivot).1 + pivot_offset.y + spec_pivot_shift(
            origin_rect.width,
            origin_rect.height,
            pivot,
        ).1,
        spec_pivot_pos(relative_rect, pivot).1 + pivot_offset.y + spec_pivot_shift(
            origin_rect.width,
            origin_rect.height,
            pivot,
        ).1 <= i32::MAX,
    ensures
        r.width == origin_rect.width,
        r.height == origin_rect.height,
        r.x == spec_pivot_pos(relative_rect, pivot).0 + pivot_offset.x + spec_pivot_shift(
            origin_rect.width,
            origin_rect.height,
            pivot,
        ).0,
        r.y == spec_pivot_pos(relative_rect, pivot).1 + pivot_offset.y + spec_pivot_shift(
            origin_rect.width,
            origin_rect.height,
            pivot,
        ).1,
{
    let relative_pos = match pivot {
        PivotType::NoAlign => Vector2::new(0, 0),
        PivotType::Bottom => relative_rect.bottom_pos(),
        PivotType::BottomLeft => relative_rect.bottom_left_pos(),
        PivotType::BottomRight => relative_rect.bottom_right_pos(),
        PivotType::Center => relative_rect.center_pos(),
        PivotType::Top => relative_rect.top_pos(),
        PivotType::TopLeft => relative_rect.top_left_pos(),
        PivotType::TopRight => relative_rect.top_right_pos(),
        PivotType::Left => relative_rect.left_pos(),
        PivotType::Right => relative_rect.right_pos(),
    };
    let target_pos = relative_pos.add(pivot_offset);
    let negative_width = -((origin_rect.width / 2) as i32);
    let negative_full_width = -(origin_rect.width as i32);
    let negative_height = -((origin_rect.height / 2) as i32);
    let negative_full_height = -(origin_rect.height as i32);
    let offset_vec = match pivot {
        PivotType::NoAlign => Vector2::new(0, 0),
        PivotType::Bottom => Vector2::new(negative_width, negative_full_height),
        PivotType::BottomLeft => Vector2::new(0, negative_full_height),
        PivotType::BottomRight => Vector2::new(negative_full_width, negative_full_height),
        PivotType::Center => Vector2::new(negative_width, negative_height),
        PivotType::Top => Vector2::new(negative_width, 0),
        PivotType::TopLeft => Vector2::new(0, 0),
        PivotType::TopRight => Vector2::new(negative_full_width, 0),
        PivotType::Left => Vector2::new(0, negative_height),
        PivotType::Right => Vector2::new(negative_full_width, negative_height),
    };
    let target_pos = target_pos.add(offset_vec);
    Rect::new(target_pos.x, target_pos.y, origin_rect.width, origin_rect.height)
}

/// The source rectangle expressed in the target rectangle's local
/// coordinates: its corner relative to the target's corner, its extent
/// unchanged.
pub fn get_local_rect(source_rect: Rect, target_rect: Rect) -> (r: Rect)
    requires
        i32::MIN <= source_rect.x - target_rect.x <= i32::MAX,
        i32::MIN <= source_rect.y - target_rect.y <= i32::MAX,
    ensures
        r.x == source_rect.x - target_rect.x,
        r.y == source_rect.y - target_rect.y,
        r.width == source_rect.width,
        r.height == source_rect.height,
{
    Rect::new(
        source_rect.x - target_rect.x,
        source_rect.y - target_rect.y,
        source_rect.width,
        source_rect.height,
    )
}

} // verus!
