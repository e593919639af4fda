use virtual_camera::polygon::{Color, Edge, GeometryError, Polygon};
use virtual_camera::segment::Segment;
use virtual_camera::vertex::Vertex;

fn vertex(x: f64, y: f64, z: f64) -> Vertex {
    Vertex::new(x.to_bits(), y.to_bits(), z.to_bits())
}

fn bits(values: &[f64]) -> Vec<u64> {
    values.iter().map(|v| v.to_bits()).collect()
}

fn square() -> Polygon {
    Polygon::from_vertices(vec![
        vertex(0.0, 0.0, 0.0),
        vertex(10.0, 0.0, 0.0),
        vertex(10.0, 10.0, 0.0),
        vertex(0.0, 10.0, 0.0),
    ])
    .unwrap()
}

#[test]
fn edge_keeps_its_ends_in_order() {
    let a = vertex(1.0, 2.0, 3.0);
    let b = vertex(4.0, 5.0, 6.0);
    let e = Edge::new(a, b);
    assert_eq!(e.vertices(), (a, b));
    assert_eq!(Edge::new(b, a).vertices(), (b, a));
}

#[test]
fn edge_is_visible_when_both_ends_are() {
    let e = Edge::new(vertex(0.0, 0.0, 0.0), vertex(1.0, 0.0, 0.0));
    let near = 1.0f64.to_bits();
    let far = 100.0f64.to_bits();
    let inside = 50.0f64.to_bits();
    let outside = 101.0f64.to_bits();
    assert!(e.is_visible(inside, inside, near, far));
    assert!(!e.is_visible(outside, inside, near, far));
    assert!(!e.is_visible(inside, outside, near, far));
    assert!(!e.is_visible(outside, outside, near, far));
}

#[test]
fn polygon_needs_two_vertices() {
    assert_eq!(Polygon::from_vertices(vec![]).err(), Some(GeometryError::Degenerate));
    assert_eq!(
        Polygon::from_vertices(vec![vertex(0.0, 0.0, 0.0)]).err(),
        Some(GeometryError::Degenerate)
    );
    assert!(Polygon::from_vertices(vec![vertex(0.0, 0.0, 0.0), vertex(1.0, 0.0, 0.0)]).is_ok());
}

#[test]
fn polygon_keeps_its_vertices_in_order() {
    let vs = vec![vertex(0.0, 0.0, 0.0), vertex(1.0, 0.0, 0.0), vertex(0.0, 1.0, 0.0)];
    let p = Polygon::from_vertices(vs.clone()).unwrap();
    assert_eq!(p.vertices(), vs);
}

#[test]
fn polygon_is_black_unless_coloured() {
    let p = square();
    assert_eq!(p.color(), Color::new(0, 0, 0, 255));
    let red = Color::new(255, 0, 0, 255);
    let q = p.with_color(red);
    assert_eq!(q.color(), red);
    assert_eq!(q.vertices(), p.vertices());
    assert_eq!(p.color(), Color::new(0, 0, 0, 255));
}

#[test]
fn polygon_clone_is_the_same_polygon() {
    let p = square().with_color(Color::new(1, 2, 3, 4));
    let q = p.clone();
    assert_eq!(q.vertices(), p.vertices());
    assert_eq!(q.color(), p.color());
}

#[test]
fn edges_close_the_ring() {
    let p = square();
    let vs = p.vertices();
    let es = p.edges();
    assert_eq!(es.len(), 4);
    assert_eq!(es[0], Edge::new(vs[0], vs[1]));
    assert_eq!(es[1], Edge::new(vs[1], vs[2]));
    assert_eq!(es[2], Edge::new(vs[2], vs[3]));
    assert_eq!(es[3], Edge::new(vs[3], vs[0]));
}

#[test]
fn edges_of_two_vertices_go_there_and_back() {
    let a = vertex(0.0, 0.0, 0.0);
    let b = vertex(1.0, 1.0, 1.0);
    let p = Polygon::from_vertices(vec![a, b]).unwrap();
    assert_eq!(p.edges(), vec![Edge::new(a, b), Edge::new(b, a)]);
}

#[test]
fn polygon_is_visible_when_every_edge_is() {
    let p = square();
    let near = 1.0f64.to_bits();
    let far = 100.0f64.to_bits();
    assert!(p.is_visible(&bits(&[1.0, 50.0, 99.0, 100.0]), near, far));
}

#[test]
fn polygon_with_one_unseen_vertex_is_not_visible() {
    let p = square();
    let near = 1.0f64.to_bits();
    let far = 100.0f64.to_bits();
    assert!(!p.is_visible(&bits(&[0.5, 50.0, 50.0, 50.0]), near, far));
    assert!(!p.is_visible(&bits(&[50.0, 100.5, 50.0, 50.0]), near, far));
    assert!(!p.is_visible(&bits(&[50.0, 50.0, f64::NAN, 50.0]), near, far));
    assert!(!p.is_visible(&bits(&[50.0, 50.0, 50.0, f64::INFINITY]), near, far));
    assert!(!p.is_visible(&bits(&[0.0, 0.0, 0.0, 0.0]), near, far));
}

#[test]
fn polygon_screen_coords_places_every_vertex() {
    let p = square().with_color(Color::new(9, 8, 7, 6));
    let pixels = vec![
        (100.0f64.to_bits(), 200.0f64.to_bits()),
        (300.0f64.to_bits(), 200.0f64.to_bits()),
        (300.0f64.to_bits(), 400.0f64.to_bits()),
        (100.0f64.to_bits(), 400.0f64.to_bits()),
    ];
    let s = p.screen_coords(&pixels).unwrap();
    assert_eq!(
        s.vertices(),
        vec![
            vertex(100.0, 200.0, 0.0),
            vertex(300.0, 200.0, 0.0),
            vertex(300.0, 400.0, 0.0),
            vertex(100.0, 400.0, 0.0),
        ]
    );
    assert_eq!(s.color(), Color::new(9, 8, 7, 6));
}

#[test]
fn polygon_with_vertex_at_infinity_has_no_screen_coords() {
    let pixels = vec![(0u64, 0u64), (0, 0), (0, 0)];
    for bad in [f64::INFINITY, f64::NEG_INFINITY, f64::NAN] {
        for place in 0..3 {
            let mut vs = vec![vertex(0.0, 0.0, 0.0), vertex(1.0, 0.0, 0.0), vertex(0.0, 1.0, 0.0)];
            vs[place] = vertex(0.5, bad, 0.5);
            let p = Polygon::from_vertices(vs).unwrap();
            assert!(p.screen_coords(&pixels).is_none());
        }
    }
}

#[test]
fn polygon_project_to_view_keeps_a_vertex_at_infinity() {
    let p = Polygon::from_vertices(vec![vertex(f64::NAN, 0.0, 0.0), vertex(1.0, 0.0, 0.0)]).unwrap();
    let pixels = vec![(1.0f64.to_bits(), 2.0f64.to_bits()), (3.0f64.to_bits(), 4.0f64.to_bits())];
    let q = p.project_to_view(&pixels);
    assert_eq!(q.vertices(), vec![vertex(1.0, 2.0, 0.0), vertex(3.0, 4.0, 0.0)]);
}

#[test]
fn segment_of_edge_rounds_towards_zero() {
    let e = Edge::new(vertex(10.9, 20.1, 5.0), vertex(-0.5, 799.99, 7.0));
    assert_eq!(Segment::of_edge(&e), Segment::new(10, 20, 0, 799));
}

#[test]
fn polygon_segments_follow_the_ring() {
    let p = Polygon::from_vertices(vec![
        vertex(0.0, 0.0, 0.0),
        vertex(800.0, 0.0, 0.0),
        vertex(800.0, 600.0, 0.0),
    ])
    .unwrap();
    assert_eq!(
        p.segments(),
        vec![
            Segment::new(0, 0, 800, 0),
            Segment::new(800, 0, 800, 600),
            Segment::new(800, 600, 0, 0),
        ]
    );
}
