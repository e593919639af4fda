//! Edges and closed polygons.
//!
//! A polygon is a ring of at least two vertices. Its edges are not stored:
//! edge `i` joins vertex `i` to the next one, and the last vertex to the
//! first.
use crate::binary64::in_closed_range;
use crate::segment::{segment_of, Segment};
use crate::vertex::Vertex;
use vstd::arithmetic::div_mod::{lemma_mod_pos_bound, lemma_mod_self_0, lemma_small_mod};
use vstd::prelude::*;

verus! {

/// A colour: red, green, blue and opacity.
#[derive(Clone, Copy, Debug, PartialEq, Eq, Structural)]
pub struct Color {
    pub r: u8,
    pub g: u8,
    pub b: u8,
    pub a: u8,
}

impl Color {
    /// Opaque black, the colour of a polygon that was given none.
    pub open spec fn black() -> Color {
        Color { r: 0, g: 0, b: 0, a: 255 }
    }

    /// The colour with the given parts.
    pub fn new(r: u8, g: u8, b: u8, a: u8) -> (c: Color)
        ensures
            c == (Color { r, g, b, a }),
    {
        Color { r, g, b, a }
    }
}

/// Why a mesh was not accepted.
#[derive(Clone, Copy, Debug, PartialEq, Eq, Structural)]
pub enum GeometryError {
    /// A polygon needs two vertices at least.
    Degenerate,
}

/// A line between two vertices.
#[derive(Clone, Copy, Debug, PartialEq, Eq, Structural)]
pub struct Edge {
    pub v1: Vertex,
    pub v2: Vertex,
}

impl Edge {
    /// The edge from `v1` to `v2`.
    pub fn new(v1: Vertex, v2: Vertex) -> (e: Edge)
        ensures
            e == (Edge { v1, v2 }),
    {
        Edge { v1, v2 }
    }

    /// The two ends, in drawing order.
    pub fn vertices(&self) -> (ends: (Vertex, Vertex))
        ensures
            ends == (self.v1, self.v2),
    {
        (self.v1, self.v2)
    }

    /// Whether the camera sees the edge, that is both its ends, given the
    /// squared distance of each end from the camera.
    pub fn is_visible(&self, distance2_v1: u64, distance2_v2: u64, near: u64, far: u64) -> (r:
        bool)
        ensures
            r == (in_closed_range(distance2_v1, near, far) && in_closed_range(
                distance2_v2,
                near,
                far,
            )),
    {
        self.v1.is_visible(distance2_v1, near, far) && self.v2.is_visible(distance2_v2, near, far)
    }
}

/// The index of the vertex that follows vertex `i` in a ring of `n`.
pub open spec fn next_in_ring(i: int, n: int) -> int {
    (i + 1) % n
}

/// What a polygon is: its vertices in ring order, and its colour.
pub struct Ring {
    pub vertices: Seq<Vertex>,
    pub color: Color,
}

impl Ring {
    /// The edges of the ring: as many as vertices, edge `i` from vertex `i`
    /// to the one that follows it.
    pub open spec fn edges(self) -> Seq<Edge> {
        Seq::new(
            self.vertices.len(),
            |i: int|
                Edge {
                    v1: self.vertices[i],
                    v2: self.vertices[next_in_ring(i, self.vertices.len() as int)],
                },
        )
    }

    /// Some vertex of the ring is at infinity.
    pub open spec fn has_point_at_infinity(self) -> bool {
        exists|i: int| 0 <= i < self.vertices.len() && #[trigger] self.vertices[i].at_infinity()
    }

    /// The lines that draw the ring in screen space, one for each edge.
    pub open spec fn segments(self) -> Seq<Segment> {
        Seq::new(self.vertices.len(), |i: int| segment_of(self.edges()[i]))
    }

    /// The ring on the screen: vertex `i` at the pixel coordinates
    /// `pixels[i]`, with the colour kept.
    pub open spec fn on_screen(self, pixels: Seq<(u64, u64)>) -> Ring {
        Ring {
            vertices: Seq::new(
                self.vertices.len(),
                |i: int| Vertex::on_screen(pixels[i].0, pixels[i].1),
            ),
            color: self.color,
        }
    }
}

/// Edge `i` of a ring is seen, where `distances[k]` is the squared distance
/// of vertex `k` from the camera: both its ends are within range.
pub open spec fn edge_seen(distances: Seq<u64>, i: int, near: u64, far: u64) -> bool {
    in_closed_range(distances[i], near, far) && in_closed_range(
        distances[next_in_ring(i, distances.len() as int)],
        near,
        far,
    )
}

/// Every edge of a ring is seen.
pub open spec fn ring_seen(distances: Seq<u64>, near: u64, far: u64) -> bool {
    forall|i: int| 0 <= i < distances.len() ==> #[trigger] edge_seen(distances, i, near, far)
}

/// Every edge of a ring is seen if and only if every vertex is within
/// range.
pub proof fn lemma_ring_seen_by_vertices(distances: Seq<u64>, near: u64, far: u64)
    ensures
        ring_seen(distances, near, far) <==> forall|k: int|
            0 <= k < distances.len() ==> in_closed_range(#[trigger] distances[k], near, far),
{
    let n = distances.len() as int;
    if ring_seen(distances, near, far) {
        assert forall|k: int| 0 <= k < n implies in_closed_range(
            #[trigger] distances[k],
            near,
            far,
        ) by {
            assert(edge_seen(distances, k, near, far));
        }
    }
    if forall|k: int| 0 <= k < n ==> in_closed_range(#[trigger] distances[k], near, far) {
        assert forall|i: int| 0 <= i < n implies #[trigger] edge_seen(
            distances,
            i,
            near,
            far,
        ) by {
            lemma_mod_pos_bound(i + 1, n);
        }
    }
}

/// A closed polygon.
#[derive(Debug)]
pub struct Polygon {
    vertices: Vec<Vertex>,
    color: Color,
}

impl View for Polygon {
    type V = Ring;

    closed spec fn view(&self) -> Ring {
        Ring { vertices: self.vertices@, color: self.color }
    }
}

impl Clone for Polygon {
    fn clone(&self) -> (p: Polygon)
        ensures
            p@ == self@,
    {
        self.with_color(self.color)
    }
}

impl Polygon {
    #[verifier::type_invariant]
    spec fn has_two_vertices(self) -> bool {
        self.vertices@.len() >= 2
    }

    /// The black polygon on the given vertices, in their order. Fewer than
    /// two vertices make no polygon.
    pub fn from_vertices(vertices: Vec<Vertex>) -> (r: Result<Polygon, GeometryError>)
        ensures
            match r {
                Ok(p) => vertices@.len() >= 2 && p@ == (Ring {
                    vertices: vertices@,
                    color: Color::black(),
                }),
                Err(e) => vertices@.len() < 2 && e == GeometryError::Degenerate,
            },
    {
        if vertices.len() < 2 {
            return Err(GeometryError::Degenerate);
        }
        Ok(Polygon { vertices, color: Color { r: 0, g: 0, b: 0, a: 255 } })
    }

    /// The same polygon in another colour.
    pub fn with_color(&self, color: Color) -> (p: Polygon)
        ensures
            p@ == (Ring { vertices: self@.vertices, color }),
    {
        proof {
            use_type_invariant(self);
        }
        Polygon { vertices: self.vertices(), color }
    }

    /// The vertices, in ring order: two at least.
    pub fn vertices(&self) -> (vs: Vec<Vertex>)
        ensures
            vs@ == self@.vertices,
            vs@.len() >= 2,
    {
        proof {
            use_type_invariant(self);
        }
        let mut vs: Vec<Vertex> = Vec::new();
        let mut i: usize = 0;
        while i < self.vertices.len()
            invariant
                i <= self.vertices@.len(),
                vs@ == self.vertices@.take(i as int),
            decreases self.vertices@.len() - i,
        {
            vs.push(self.vertices[i]);
            i += 1;
        }
        vs
    }

    /// The colour.
    pub fn color(&self) -> (c: Color)
        ensures
            c == self@.color,
    {
        self.color
    }

    /// The edges, which close the ring: edge `i` joins vertex `i` to the
    /// one that follows it, and the last edge returns to the first vertex.
    pub fn edges(&self) -> (es: Vec<Edge>)
        ensures
            es@ == self@.edges(),
    {
        let n = self.vertices.len();
        let mut es: Vec<Edge> = Vec::new();
        let mut i: usize = 0;
        while i < n
            invariant
                n == self.vertices@.len(),
                i <= n,
                es@ == self@.edges().take(i as int),
            decreases n - i,
        {
            let j = if i + 1 == n {
                0
            } else {
                i + 1
            };
            proof {
                if i + 1 == n {
                    lemma_mod_self_0(n as int);
                } else {
                    lemma_small_mod((i + 1) as nat, n as nat);
                }
                assert(j == next_in_ring(i as int, n as int));
            }
            es.push(Edge::new(self.vertices[i], self.vertices[j]));
            i += 1;
        }
        es
    }

    /// Whether the camera sees the polygon, that is every edge of it, where
    /// `distances[k]` is the squared distance of vertex `k` from the camera.
    /// A polygon is seen whole or not at all.
    pub fn is_visible(&self, distances: &Vec<u64>, near: u64, far: u64) -> (r: bool)
        requires
            distances@.len() == self@.vertices.len(),
        ensures
            r == ring_seen(distances@, near, far),
    {
        let n = self.vertices.len();
        let mut i: usize = 0;
        while i < n
            invariant
                n == self.vertices@.len(),
                n == distances@.len(),
                i <= n,
                forall|k: int| 0 <= k < i ==> edge_seen(distances@, k, near, far),
            decreases n - i,
        {
            let j = if i + 1 == n {
                0
            } else {
                i + 1
            };
            proof {
                if i + 1 == n {
                    lemma_mod_self_0(n as int);
                } else {
                    lemma_small_mod((i + 1) as nat, n as nat);
                }
                assert(j == next_in_ring(i as int, n as int));
            }
            let e = Edge::new(self.vertices[i], self.vertices[j]);
            if !e.is_visible(distances[i], distances[j], near, far) {
                assert(!edge_seen(distances@, i as int, near, far));
                return false;
            }
            i += 1;
        }
        true
    }

    /// The polygon in screen space, where `pixels[k]` are the pixel
    /// coordinates that vertex `k` maps to. If any vertex is at infinity
    /// there is no such polygon.
    pub fn screen_coords(&self, pixels: &Vec<(u64, u64)>) -> (r: Option<Polygon>)
        requires
            pixels@.len() == self@.vertices.len(),
        ensures
            match r {
                Some(p) => !self@.has_point_at_infinity() && p@ == self@.on_screen(pixels@),
                None => self@.has_point_at_infinity(),
            },
    {
        proof {
            use_type_invariant(self);
        }
        let n = self.vertices.len();
        let mut vs: Vec<Vertex> = Vec::new();
        let mut i: usize = 0;
        while i < n
            invariant
                n == self.vertices@.len(),
                n == pixels@.len(),
                i <= n,
                forall|k: int| 0 <= k < i ==> !(#[trigger] self.vertices@[k]).at_infinity(),
                vs@ == self@.on_screen(pixels@).vertices.take(i as int),
            decreases n - i,
        {
            match self.vertices[i].screen_coords(pixels[i].0, pixels[i].1) {
                None => {
                    assert(self.vertices@[i as int].at_infinity());
                    return None;
                },
                Some(v) => {
                    vs.push(v);
                },
            }
            i += 1;
        }
        proof {
            assert(vs@ == self@.on_screen(pixels@).vertices);
            assert(!self@.has_point_at_infinity());
        }
        Some(Polygon { vertices: vs, color: self.color })
    }

    /// As `screen_coords`, without the test for vertices at infinity.
    pub fn project_to_view(&self, pixels: &Vec<(u64, u64)>) -> (p: Polygon)
        requires
            pixels@.len() == self@.vertices.len(),
        ensures
            p@ == self@.on_screen(pixels@),
    {
        proof {
            use_type_invariant(self);
        }
        let n = self.vertices.len();
        let mut vs: Vec<Vertex> = Vec::new();
        let mut i: usize = 0;
        while i < n
            invariant
                n == self.vertices@.len(),
                n == pixels@.len(),
                i <= n,
                vs@ == self@.on_screen(pixels@).vertices.take(i as int),
            decreases n - i,
        {
            vs.push(self.vertices[i].project_to_view(pixels[i].0, pixels[i].1));
            i += 1;
        }
        proof {
            assert(vs@ == self@.on_screen(pixels@).vertices);
        }
        Polygon { vertices: vs, color: self.color }
    }

    /// The lines that draw the polygon in screen space: one for each edge,
    /// in ring order.
    pub fn segments(&self) -> (segments: Vec<Segment>)
        ensures
            segments@ == self@.segments(),
    {
        let edges = self.edges();
        let mut segments: Vec<Segment> = Vec::new();
        let mut i: usize = 0;
        while i < edges.len()
            invariant
                edges@ == self@.edges(),
                i <= edges@.len(),
                segments@ == self@.segments().take(i as int),
            decreases edges@.len() - i,
        {
            segments.push(Segment::of_edge(&edges[i]));
            i += 1;
        }
        segments
    }
}

} // verus!
