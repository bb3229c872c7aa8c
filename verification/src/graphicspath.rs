//! Geometric paths: a current point and the list of points visited,
//! each marked as a plain move or as a connected line segment.

use vstd::prelude::*;

verus! {

/// How a path reaches a point.
#[derive(Clone, Copy, Debug, PartialEq, Eq, Structural)]
pub enum PointType {
    /// The pen jumps to the point without drawing.
    Move,
    /// The pen draws a line segment to the point.
    Connect,
}

/// A geometric path: the current pen position and every point visited
/// so far.
pub struct GraphicsPath {
    /// x coordinate of the pen.
    pub x: i32,
    /// y coordinate of the pen.
    pub y: i32,
    /// The points visited, in order, each with how it was reached.
    pub points: Vec<(i32, i32, PointType)>,
}

impl GraphicsPath {
    /// A path with no points, the pen parked at the origin.
    pub fn new() -> (p: GraphicsPath)
        ensures
            p.x == 0,
            p.y == 0,
            p.points@ == Seq::<(i32, i32, PointType)>::empty(),
    {
        let p = GraphicsPath { x: 0, y: 0, points: Vec::new() };
        proof {
            assert(p.points@ =~= Seq::<(i32, i32, PointType)>::empty());
        }
        p
    }

    /// Moves the pen to `(x, y)` without drawing.
    pub fn move_to(&mut self, x: i32, y: i32)
        ensures
            final(self).x == x,
            final(self).y == y,
            final(self).points@ == old(self).points@.push((x, y, PointType::Move)),
    {
        self.points.push((x, y, PointType::Move));
        self.x = x;
        self.y = y;
    }

    /// Draws a line segment from the pen to `(x, y)` and leaves the
    /// pen there.
    pub fn line_to(&mut self, x: i32, y: i32)
        ensures
            final(self).x == x,
            final(self).y == y,
            final(self).points@ == old(self).points@.push((x, y, PointType::Connect)),
    {
        self.points.push((x, y, PointType::Connect));
        self.x = x;
        self.y = y;
    }
}

} // verus!
