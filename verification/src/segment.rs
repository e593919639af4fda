//! Line segments on the screen: what a renderer strokes.
use crate::binary64::{pixel, to_i32};
use crate::polygon::Edge;
use vstd::prelude::*;

verus! {

/// A line on the screen, from the pixel `(x0, y0)` to the pixel `(x1, y1)`.
#[derive(Clone, Copy, Debug, PartialEq, Eq, Structural)]
pub struct Segment {
    pub x0: i32,
    pub y0: i32,
    pub x1: i32,
    pub y1: i32,
}

/// The line that draws an edge in screen space: each end at the pixel that
/// its first two coordinates name, rounded towards zero.
pub open spec fn segment_of(e: Edge) -> Segment {
    Segment {
        x0: to_i32(e.v1.position.x) as i32,
        y0: to_i32(e.v1.position.y) as i32,
        x1: to_i32(e.v2.position.x) as i32,
        y1: to_i32(e.v2.position.y) as i32,
    }
}

impl Segment {
    /// The line with the given ends.
    pub fn new(x0: i32, y0: i32, x1: i32, y1: i32) -> (s: Segment)
        ensures
            s == (Segment { x0, y0, x1, y1 }),
    {
        Segment { x0, y0, x1, y1 }
    }

    /// The line that draws `edge`.
    pub fn of_edge(edge: &Edge) -> (s: Segment)
        ensures
            s == segment_of(*edge),
    {
        Segment {
            x0: pixel(edge.v1.position.x),
            y0: pixel(edge.v1.position.y),
            x1: pixel(edge.v2.position.x),
            y1: pixel(edge.v2.position.y),
        }
    }
}

} // verus!
