//! Cubes to look at: the scene that is shown when no other is given.
use crate::binary64::{MINUS_ONE, ONE};
use crate::polygon::{Color, Polygon, Ring};
use crate::scene::rings_of;
use crate::vertex::Vertex;
use vstd::pervasive::unreached;
use vstd::prelude::*;

verus! {

/// The pattern of `59.0`, which is `-1.0` moved by 60.
pub const FIFTY_NINE: u64 = 0x404d_8000_0000_0000;

/// The pattern of `61.0`, which is `1.0` moved by 60.
pub const SIXTY_ONE: u64 = 0x404e_8000_0000_0000;

/// The vertex with the given coordinates.
pub open spec fn corner(x: u64, y: u64, z: u64) -> Vertex {
    Vertex { position: crate::point::Point3 { x, y, z } }
}

/// The black triangle on three vertices.
pub open spec fn triangle(a: Vertex, b: Vertex, c: Vertex) -> Ring {
    Ring { vertices: seq![a, b, c], color: Color::black() }
}

/// The twelve triangles of the cube template, with `p` for `1.0` and `m`
/// for `-1.0`.
pub open spec fn template_rings() -> Seq<Ring> {
    let p = ONE;
    let m = MINUS_ONE;
    seq![
        triangle(corner(m, p, p), corner(m, m, p), corner(p, m, p)),
        triangle(corner(p, m, m), corner(m, m, m), corner(m, p, m)),
        triangle(corner(m, p, m), corner(m, p, p), corner(p, p, p)),
        triangle(corner(m, m, p), corner(m, m, m), corner(p, m, m)),
        triangle(corner(m, p, m), corner(m, m, m), corner(m, m, p)),
        triangle(corner(p, m, p), corner(p, m, m), corner(p, p, m)),
        triangle(corner(m, p, p), corner(p, m, p), corner(p, p, m)),
        triangle(corner(m, p, p), corner(m, p, m), corner(p, m, m)),
        triangle(corner(m, m, p), corner(m, m, m), corner(p, p, m)),
        triangle(corner(m, m, p), corner(p, m, m), corner(p, m, p)),
        triangle(corner(m, p, m), corner(p, m, m), corner(p, p, p)),
        triangle(corner(m, m, m), corner(m, p, p), corner(p, p, p)),
    ]
}

/// The triangle on three corners.
fn face(a: (u64, u64, u64), b: (u64, u64, u64), c: (u64, u64, u64)) -> (t: Polygon)
    ensures
        t@ == triangle(corner(a.0, a.1, a.2), corner(b.0, b.1, b.2), corner(c.0, c.1, c.2)),
{
    let mut vertices: Vec<Vertex> = Vec::new();
    vertices.push(Vertex::new(a.0, a.1, a.2));
    vertices.push(Vertex::new(b.0, b.1, b.2));
    vertices.push(Vertex::new(c.0, c.1, c.2));
    match Polygon::from_vertices(vertices) {
        Ok(t) => {
            assert(t@.vertices == seq![
                corner(a.0, a.1, a.2),
                corner(b.0, b.1, b.2),
                corner(c.0, c.1, c.2),
            ]);
            t
        },
        Err(_) => unreached(),
    }
}

/// The cube template: twelve triangles on the corners of the cube that
/// reaches from -1 to 1 along every axis.
pub fn cube_template() -> (polygons: Vec<Polygon>)
    ensures
        rings_of(polygons@) == template_rings(),
{
    let p = ONE;
    let m = MINUS_ONE;
    let mut polygons: Vec<Polygon> = Vec::new();
    // Front face
    polygons.push(face((m, p, p), (m, m, p), (p, m, p)));
    // Back face
    polygons.push(face((p, m, m), (m, m, m), (m, p, m)));
    // Top face
    polygons.push(face((m, p, m), (m, p, p), (p, p, p)));
    // Bottom face
    polygons.push(face((m, m, p), (m, m, m), (p, m, m)));
    // Left face
    polygons.push(face((m, p, m), (m, m, m), (m, m, p)));
    // Right face
    polygons.push(face((p, m, p), (p, m, m), (p, p, m)));
    // The triangles that remain
    polygons.push(face((m, p, p), (p, m, p), (p, p, m)));
    polygons.push(face((m, p, p), (m, p, m), (p, m, m)));
    polygons.push(face((m, m, p), (m, m, m), (p, p, m)));
    polygons.push(face((m, m, p), (p, m, m), (p, m, p)));
    polygons.push(face((m, p, m), (p, m, m), (p, p, p)));
    polygons.push(face((m, m, m), (m, p, p), (p, p, p)));
    assert(rings_of(polygons@) == template_rings());
    polygons
}

/// A coordinate of the template, which is `1.0` or `-1.0`, in a cube of the
/// scene: where it was, or 60 further along its axis, which takes `1.0` to
/// `61.0` and `-1.0` to `59.0`.
pub open spec fn moved(c: u64, far: bool) -> u64 {
    if !far {
        c
    } else if c == ONE {
        SIXTY_ONE
    } else {
        FIFTY_NINE
    }
}

/// A vertex of the template in cube number `cube`. The cubes are counted
/// from 0 to 7; the three binary digits of the number say along which of
/// the axes x, y and z the cube stands 60 away from the origin.
pub open spec fn moved_vertex(v: Vertex, cube: int) -> Vertex {
    corner(
        moved(v.position.x, cube % 2 == 1),
        moved(v.position.y, (cube / 2) % 2 == 1),
        moved(v.position.z, cube / 4 == 1),
    )
}

/// A triangle of the template in cube number `cube`.
pub open spec fn moved_ring(r: Ring, cube: int) -> Ring {
    Ring { vertices: Seq::new(r.vertices.len(), |i: int| moved_vertex(r.vertices[i], cube)), color: r.color }
}

/// The triangles of the eight cubes: cube after cube, and in each cube the
/// triangles of the template in their order.
pub open spec fn cube_rings() -> Seq<Ring> {
    Seq::new(96, |k: int| moved_ring(template_rings()[k % 12], k / 12))
}

/// A coordinate of the template moved by 60, or left where it is.
fn move_coordinate(c: u64, far: bool) -> (r: u64)
    ensures
        r == moved(c, far),
{
    if !far {
        c
    } else if c == ONE {
        SIXTY_ONE
    } else {
        FIFTY_NINE
    }
}

/// A polygon of the template in cube number `cube`.
fn move_polygon(p: &Polygon, cube: usize) -> (q: Polygon)
    requires
        cube < 8,
    ensures
        q@ == moved_ring(p@, cube as int),
{
    let far_x = cube % 2 == 1;
    let far_y = (cube / 2) % 2 == 1;
    let far_z = cube / 4 == 1;
    let vertices = p.vertices();
    let mut moved_vertices: Vec<Vertex> = Vec::new();
    let mut i: usize = 0;
    while i < vertices.len()
        invariant
            vertices@ == p@.vertices,
            far_x == (cube % 2 == 1),
            far_y == ((cube / 2) % 2 == 1),
            far_z == (cube / 4 == 1),
            i <= vertices@.len(),
            moved_vertices@ == moved_ring(p@, cube as int).vertices.take(i as int),
        decreases vertices@.len() - i,
    {
        let v = vertices[i];
        moved_vertices.push(
            Vertex::new(
                move_coordinate(v.x(), far_x),
                move_coordinate(v.y(), far_y),
                move_coordinate(v.z(), far_z),
            ),
        );
        i += 1;
    }
    assert(moved_vertices@ == moved_ring(p@, cube as int).vertices);
    match Polygon::from_vertices(moved_vertices) {
        Ok(q) => q.with_color(p.color()),
        Err(_) => unreached(),
    }
}

/// The scene of eight cubes: the cube template at the origin and at the
/// other seven corners of a cube of side 60.
pub fn generate_cubes() -> (cubes: Vec<Polygon>)
    ensures
        rings_of(cubes@) == cube_rings(),
{
    let template = cube_template();
    let mut cubes: Vec<Polygon> = Vec::new();
    let mut cube: usize = 0;
    while cube < 8
        invariant
            rings_of(template@) == template_rings(),
            cube <= 8,
            rings_of(cubes@) == cube_rings().take(12 * cube),
        decreases 8 - cube,
    {
        let mut j: usize = 0;
        while j < 12
            invariant
                rings_of(template@) == template_rings(),
                cube < 8,
                j <= 12,
                rings_of(cubes@) == cube_rings().take(12 * cube + j),
            decreases 12 - j,
        {
            let ghost before = cubes@;
            assert(template@.len() == 12) by {
                assert(rings_of(template@).len() == template_rings().len());
            }
            assert(rings_of(template@)[j as int] == template@[j as int]@);
            cubes.push(move_polygon(&template[j], cube));
            assert(rings_of(cubes@) == rings_of(before).push(cube_rings()[12 * cube + j]));
            j += 1;
        }
        cube += 1;
    }
    cubes
}

} // verus!
