use virtual_camera::draw_order::draw_order;
use virtual_camera::polygon::{Color, Polygon};
use virtual_camera::scene::Scene;
use virtual_camera::segment::Segment;
use virtual_camera::vertex::Vertex;

fn vertex(x: f64, y: f64, z: f64) -> Vertex {
    Vertex::new(x.to_bits(), y.to_bits(), z.to_bits())
}

fn bits(values: &[f64]) -> Vec<u64> {
    values.iter().map(|v| v.to_bits()).collect()
}

/// A triangle that can be told from others by its tag.
fn tagged(tag: u8) -> Polygon {
    let t = tag as f64;
    Polygon::from_vertices(vec![vertex(t, 0.0, 0.0), vertex(t, 1.0, 0.0), vertex(t, 0.0, 1.0)])
        .unwrap()
        .with_color(Color::new(tag, tag, tag, 255))
}

fn tags(scene: &Scene) -> Vec<u8> {
    scene.polygons().iter().map(|p| p.color().r).collect()
}

fn pixels_for(scene: &Scene) -> Vec<Vec<(u64, u64)>> {
    scene
        .polygons()
        .iter()
        .map(|p| {
            p.vertices()
                .iter()
                .map(|v| ((f64::from_bits(v.x()) * 2.0).to_bits(), (f64::from_bits(v.y()) * 3.0).to_bits()))
                .collect()
        })
        .collect()
}

#[test]
fn scene_keeps_its_polygons_in_order() {
    let scene = Scene::new(vec![tagged(3), tagged(1), tagged(2)]);
    assert_eq!(tags(&scene), vec![3, 1, 2]);
    let ps = scene.polygons();
    assert_eq!(ps[0].vertices(), tagged(3).vertices());
    assert_eq!(ps[2].vertices(), tagged(2).vertices());
}

#[test]
fn empty_scene_stays_empty() {
    let scene = Scene::new(vec![]);
    assert!(scene.polygons().is_empty());
    assert!(scene.clip(&vec![], 1.0f64.to_bits(), 2.0f64.to_bits()).polygons().is_empty());
    assert!(scene.screen_coords(&vec![]).polygons().is_empty());
    assert!(scene.sorted(&vec![]).polygons().is_empty());
    assert!(scene.segments().is_empty());
}

#[test]
fn clip_keeps_what_is_seen_whole() {
    let scene = Scene::new(vec![tagged(1), tagged(2), tagged(3), tagged(4)]);
    let distances = vec![
        bits(&[10.0, 20.0, 30.0]),
        bits(&[10.0, 20.0, 301.0]),
        bits(&[1.0, 300.0, 150.0]),
        bits(&[0.5, 20.0, 30.0]),
    ];
    let clipped = scene.clip(&distances, 1.0f64.to_bits(), 300.0f64.to_bits());
    assert_eq!(tags(&clipped), vec![1, 3]);
    let kept = clipped.polygons();
    assert_eq!(kept[0].vertices(), tagged(1).vertices());
    assert_eq!(kept[1].vertices(), tagged(3).vertices());
    assert_eq!(tags(&scene), vec![1, 2, 3, 4]);
}

#[test]
fn clip_never_keeps_part_of_a_polygon() {
    let scene = Scene::new(vec![tagged(1), tagged(2), tagged(3)]);
    let near = 1.0f64.to_bits();
    let far = 100.0f64.to_bits();
    for unseen in 0..3 {
        let mut distances = vec![bits(&[50.0, 50.0, 50.0]); 3];
        distances[1][unseen] = 100.5f64.to_bits();
        let clipped = scene.clip(&distances, near, far);
        assert_eq!(tags(&clipped), vec![1, 3]);
        for p in clipped.polygons() {
            assert_eq!(p.vertices().len(), 3);
        }
    }
}

#[test]
fn clip_with_nothing_seen_is_empty() {
    let scene = Scene::new(vec![tagged(1), tagged(2)]);
    let distances = vec![bits(&[0.0, 0.0, 0.0]), bits(&[f64::NAN, 5.0, 5.0])];
    assert!(tags(&scene.clip(&distances, 1.0f64.to_bits(), 100.0f64.to_bits())).is_empty());
}

#[test]
fn sorted_draws_the_farthest_first() {
    let scene = Scene::new(vec![tagged(10), tagged(50), tagged(90)]);
    let sorted = scene.sorted(&bits(&[10.0, 50.0, 90.0]));
    assert_eq!(tags(&sorted), vec![90, 50, 10]);
    let scene = Scene::new(vec![tagged(50), tagged(90), tagged(10)]);
    let sorted = scene.sorted(&bits(&[50.0, 90.0, 10.0]));
    assert_eq!(tags(&sorted), vec![90, 50, 10]);
    let scene = Scene::new(vec![tagged(90), tagged(50), tagged(10)]);
    let sorted = scene.sorted(&bits(&[90.0, 50.0, 10.0]));
    assert_eq!(tags(&sorted), vec![90, 50, 10]);
}

#[test]
fn sorted_keeps_the_order_of_equal_distances() {
    let scene = Scene::new(vec![tagged(1), tagged(2), tagged(3), tagged(4), tagged(5)]);
    let sorted = scene.sorted(&bits(&[7.0, 9.0, 7.0, 9.0, 7.0]));
    assert_eq!(tags(&sorted), vec![2, 4, 1, 3, 5]);
}

#[test]
fn sorted_leaves_the_scene_as_it_was() {
    let scene = Scene::new(vec![tagged(1), tagged(2)]);
    let _ = scene.sorted(&bits(&[1.0, 2.0]));
    assert_eq!(tags(&scene), vec![1, 2]);
}

#[test]
fn draw_order_lists_every_polygon_back_to_front() {
    assert_eq!(draw_order(&bits(&[10.0, 50.0, 90.0])), vec![2, 1, 0]);
    assert_eq!(draw_order(&bits(&[])), Vec::<usize>::new());
    assert_eq!(draw_order(&bits(&[3.0])), vec![0]);
    assert_eq!(draw_order(&bits(&[1.0, 1.0, 1.0, 1.0])), vec![0, 1, 2, 3]);
    assert_eq!(draw_order(&bits(&[4.0, 8.0, 6.0, 2.0, 9.0, 1.0, 7.0])), vec![4, 1, 6, 2, 0, 3, 5]);
}

#[test]
fn draw_order_follows_the_total_order_of_doubles() {
    let keys = [0.0, -0.0, f64::INFINITY, f64::NAN, -1.0, f64::NEG_INFINITY, 1.0];
    assert_eq!(draw_order(&bits(&keys)), vec![3, 2, 6, 0, 1, 4, 5]);
}

#[test]
fn draw_order_agrees_with_a_stable_sort() {
    let mut keys: Vec<f64> = Vec::new();
    let mut state: u64 = 12345;
    for _ in 0..500 {
        state = state.wrapping_mul(6364136223846793005).wrapping_add(1442695040888963407);
        keys.push(((state >> 33) % 40) as f64 - 20.0);
    }
    let mut expected: Vec<usize> = (0..keys.len()).collect();
    expected.sort_by(|&a, &b| keys[b].total_cmp(&keys[a]));
    assert_eq!(draw_order(&bits(&keys)), expected);
}

#[test]
fn screen_coords_drops_polygons_with_a_vertex_at_infinity() {
    let bad = Polygon::from_vertices(vec![
        vertex(0.0, 0.0, 0.0),
        vertex(f64::INFINITY, 0.0, 0.0),
        vertex(0.0, 1.0, 0.0),
    ])
    .unwrap()
    .with_color(Color::new(7, 7, 7, 255));
    let nan = Polygon::from_vertices(vec![vertex(0.0, 0.0, f64::NAN), vertex(1.0, 0.0, 0.0)])
        .unwrap()
        .with_color(Color::new(8, 8, 8, 255));
    let scene = Scene::new(vec![tagged(1), bad, tagged(2), nan]);
    let pixels = pixels_for(&scene);
    let on_screen = scene.screen_coords(&pixels);
    assert_eq!(tags(&on_screen), vec![1, 2]);
    let ps = on_screen.polygons();
    assert_eq!(ps[0].vertices(), vec![vertex(2.0, 0.0, 0.0), vertex(2.0, 3.0, 0.0), vertex(2.0, 0.0, 0.0)]);
    assert_eq!(ps[1].vertices(), vec![vertex(4.0, 0.0, 0.0), vertex(4.0, 3.0, 0.0), vertex(4.0, 0.0, 0.0)]);
}

#[test]
fn projected_to_view_keeps_every_polygon() {
    let nan = Polygon::from_vertices(vec![vertex(0.0, 0.0, f64::NAN), vertex(1.0, 0.0, 0.0)])
        .unwrap()
        .with_color(Color::new(8, 8, 8, 255));
    let scene = Scene::new(vec![tagged(1), nan]);
    let pixels = pixels_for(&scene);
    let moved = scene.projected_to_view(&pixels);
    assert_eq!(tags(&moved), vec![1, 8]);
    assert_eq!(moved.polygons()[1].vertices(), vec![vertex(0.0, 0.0, 0.0), vertex(2.0, 0.0, 0.0)]);
}

#[test]
fn segments_come_polygon_after_polygon() {
    let a = Polygon::from_vertices(vec![vertex(0.0, 0.0, 0.0), vertex(10.5, 20.5, 0.0)]).unwrap();
    let b = Polygon::from_vertices(vec![
        vertex(1.0, 1.0, 0.0),
        vertex(2.0, 1.0, 0.0),
        vertex(2.0, 2.0, 0.0),
    ])
    .unwrap();
    let scene = Scene::new(vec![a, b]);
    assert_eq!(
        scene.segments(),
        vec![
            Segment::new(0, 0, 10, 20),
            Segment::new(10, 20, 0, 0),
            Segment::new(1, 1, 2, 1),
            Segment::new(2, 1, 2, 2),
            Segment::new(2, 2, 1, 1),
        ]
    );
}
