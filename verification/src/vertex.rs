//! A vertex: a point of a mesh, in whichever space the mesh currently lives.
use crate::binary64::{finite, in_closed_range, is_finite, range_contains, ZERO};
use crate::point::Point3;
use vstd::prelude::*;

verus! {

/// A point of a mesh. Its coordinates are bit patterns of doubles; two
/// vertices are equal when their patterns are.
#[derive(Clone, Copy, Debug, PartialEq, Eq, Structural)]
pub struct Vertex {
    pub position: Point3,
}

impl Vertex {
    /// Some coordinate is infinite or a NaN: the vertex is "at infinity"
    /// and cannot be drawn.
    pub open spec fn at_infinity(self) -> bool {
        !is_finite(self.position.x) || !is_finite(self.position.y) || !is_finite(
            self.position.z,
        )
    }

    /// The vertex on the screen, for a vertex that can be drawn: the pixel
    /// coordinates that were computed for it, and depth 0.
    pub open spec fn on_screen(px: u64, py: u64) -> Vertex {
        Vertex { position: Point3 { x: px, y: py, z: ZERO } }
    }

    /// The vertex at a point.
    pub fn from_point3(position: Point3) -> (v: Vertex)
        ensures
            v.position == position,
    {
        Vertex { position }
    }

    /// The vertex with the given coordinates.
    pub fn new(x: u64, y: u64, z: u64) -> (v: Vertex)
        ensures
            v.position == (Point3 { x, y, z }),
    {
        Vertex { position: Point3 { x, y, z } }
    }

    /// Where the vertex lies.
    pub fn position(&self) -> (p: Point3)
        ensures
            p == self.position,
    {
        self.position
    }

    pub fn x(&self) -> (x: u64)
        ensures
            x == self.position.x,
    {
        self.position.x
    }

    pub fn y(&self) -> (y: u64)
        ensures
            y == self.position.y,
    {
        self.position.y
    }

    pub fn z(&self) -> (z: u64)
        ensures
            z == self.position.z,
    {
        self.position.z
    }

    /// Whether some coordinate is infinite or a NaN.
    pub fn check_if_point_infinity(&self) -> (r: bool)
        ensures
            r == self.at_infinity(),
    {
        !finite(self.position.x) || !finite(self.position.y) || !finite(self.position.z)
    }

    /// Whether the camera sees the vertex: its squared distance from the
    /// camera, `distance2`, lies between `near` and `far`, both included.
    /// A NaN among the three makes the vertex invisible.
    pub fn is_visible(&self, distance2: u64, near: u64, far: u64) -> (r: bool)
        ensures
            r == in_closed_range(distance2, near, far),
    {
        range_contains(near, far, distance2)
    }

    /// The vertex in screen space, given the pixel coordinates `px` and `py`
    /// that its first two coordinates map to. The depth is dropped: the
    /// result has `z` zero. A vertex at infinity has no place on the screen.
    pub fn screen_coords(&self, px: u64, py: u64) -> (r: Option<Vertex>)
        ensures
            r == if self.at_infinity() {
                None
            } else {
                Some(Vertex::on_screen(px, py))
            },
    {
        if self.check_if_point_infinity() {
            return None;
        }
        Some(Vertex::new(px, py, ZERO))
    }

    /// As `screen_coords`, without the test for a vertex at infinity.
    pub fn project_to_view(&self, px: u64, py: u64) -> (v: Vertex)
        ensures
            v == Vertex::on_screen(px, py),
    {
        Vertex::new(px, py, ZERO)
    }
}

} // verus!
