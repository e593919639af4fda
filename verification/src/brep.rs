//! A mesh as a shared list of vertices and a list of edges between them.
use crate::binary64::ZERO;
use crate::point::Point3;
use vstd::prelude::*;

verus! {

/// A mesh by its boundary: the points, and the edges as pairs of indices
/// into the points.
#[derive(Debug)]
pub struct Brep {
    pub vertices: Vec<Point3>,
    pub edges: Vec<(usize, usize)>,
}

/// The points on the screen: point `k` at the pixel coordinates
/// `pixels[k]`, with depth 0.
pub open spec fn points_on_screen(pixels: Seq<(u64, u64)>) -> Seq<Point3> {
    Seq::new(pixels.len(), |k: int| Point3 { x: pixels[k].0, y: pixels[k].1, z: ZERO })
}

impl Brep {
    /// The mesh of the given points and edges.
    pub fn new(vertices: Vec<Point3>, edges: Vec<(usize, usize)>) -> (b: Brep)
        ensures
            b.vertices == vertices,
            b.edges == edges,
    {
        Brep { vertices, edges }
    }

    /// The mesh in screen space, where `pixels[k]` are the pixel coordinates
    /// that point `k` maps to. The edges stay as they are.
    pub fn screen_coords(&self, pixels: &Vec<(u64, u64)>) -> (b: Brep)
        requires
            pixels@.len() == self.vertices@.len(),
        ensures
            b.vertices@ == points_on_screen(pixels@),
            b.edges@ == self.edges@,
    {
        let mut vertices: Vec<Point3> = Vec::new();
        let mut k: usize = 0;
        while k < pixels.len()
            invariant
                k <= pixels@.len(),
                vertices@ == points_on_screen(pixels@).take(k as int),
            decreases pixels@.len() - k,
        {
            vertices.push(Point3::new(pixels[k].0, pixels[k].1, ZERO));
            k += 1;
        }
        let mut edges: Vec<(usize, usize)> = Vec::new();
        let mut e: usize = 0;
        while e < self.edges.len()
            invariant
                e <= self.edges@.len(),
                edges@ == self.edges@.take(e as int),
            decreases self.edges@.len() - e,
        {
            edges.push(self.edges[e]);
            e += 1;
        }
        Brep { vertices, edges }
    }
}

} // verus!
