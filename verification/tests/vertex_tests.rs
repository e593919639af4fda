use virtual_camera::binary64::ZERO;
use virtual_camera::point::{Point3, Vector3};
use virtual_camera::vertex::Vertex;

fn vertex(x: f64, y: f64, z: f64) -> Vertex {
    Vertex::new(x.to_bits(), y.to_bits(), z.to_bits())
}

#[test]
fn vertex_keeps_its_coordinates() {
    let v = vertex(1.5, -2.25, 1e10);
    assert_eq!(f64::from_bits(v.x()), 1.5);
    assert_eq!(f64::from_bits(v.y()), -2.25);
    assert_eq!(f64::from_bits(v.z()), 1e10);
    assert_eq!(v.position(), Point3::new(1.5f64.to_bits(), (-2.25f64).to_bits(), 1e10f64.to_bits()));
}

#[test]
fn vertex_from_point3_is_the_same_as_new() {
    let p = Point3::new(3.0f64.to_bits(), 4.0f64.to_bits(), 5.0f64.to_bits());
    assert_eq!(Vertex::from_point3(p), vertex(3.0, 4.0, 5.0));
    assert_eq!(Vertex::from_point3(p).position(), p);
}

#[test]
fn vector3_keeps_its_components() {
    let v = Vector3::new(1, 2, 3);
    assert_eq!((v.x, v.y, v.z), (1, 2, 3));
}

#[test]
fn finite_vertex_is_not_at_infinity() {
    assert!(!vertex(0.0, 0.0, 0.0).check_if_point_infinity());
    assert!(!vertex(-1.0, 1.0, 0.5).check_if_point_infinity());
    assert!(!vertex(f64::MAX, f64::MIN, f64::MIN_POSITIVE).check_if_point_infinity());
}

#[test]
fn infinite_or_nan_coordinate_puts_vertex_at_infinity() {
    assert!(vertex(f64::INFINITY, 0.0, 0.0).check_if_point_infinity());
    assert!(vertex(0.0, f64::NEG_INFINITY, 0.0).check_if_point_infinity());
    assert!(vertex(0.0, 0.0, f64::NAN).check_if_point_infinity());
    assert!(vertex(f64::NAN, f64::NAN, f64::NAN).check_if_point_infinity());
}

#[test]
fn vertex_is_visible_within_the_range_ends_included() {
    let v = vertex(0.0, 0.0, 0.0);
    let near = 1.0f64.to_bits();
    let far = 300.0f64.to_bits();
    assert!(v.is_visible(1.0f64.to_bits(), near, far));
    assert!(v.is_visible(300.0f64.to_bits(), near, far));
    assert!(v.is_visible(20.75f64.to_bits(), near, far));
    assert!(!v.is_visible(0.999f64.to_bits(), near, far));
    assert!(!v.is_visible(300.001f64.to_bits(), near, far));
    assert!(!v.is_visible(0.0f64.to_bits(), near, far));
    assert!(!v.is_visible(f64::INFINITY.to_bits(), near, far));
}

#[test]
fn vertex_with_nan_distance_is_not_visible() {
    let v = vertex(0.0, 0.0, 0.0);
    assert!(!v.is_visible(f64::NAN.to_bits(), 1.0f64.to_bits(), 300.0f64.to_bits()));
    assert!(!v.is_visible(5.0f64.to_bits(), f64::NAN.to_bits(), 300.0f64.to_bits()));
    assert!(!v.is_visible(5.0f64.to_bits(), 1.0f64.to_bits(), f64::NAN.to_bits()));
}

#[test]
fn screen_coords_takes_the_pixels_and_drops_the_depth() {
    let v = vertex(-1.0, -1.0, 0.75);
    let s = v.screen_coords(0.0f64.to_bits(), 0.0f64.to_bits()).unwrap();
    assert_eq!(s, vertex(0.0, 0.0, 0.0));
    let v = vertex(1.0, 1.0, -0.3);
    let s = v.screen_coords(800.0f64.to_bits(), 600.0f64.to_bits()).unwrap();
    assert_eq!(f64::from_bits(s.x()), 800.0);
    assert_eq!(f64::from_bits(s.y()), 600.0);
    assert_eq!(s.z(), ZERO);
}

#[test]
fn screen_coords_of_vertex_at_infinity_is_none() {
    let px = 400.0f64.to_bits();
    let py = 300.0f64.to_bits();
    assert_eq!(vertex(f64::INFINITY, 0.0, 0.0).screen_coords(px, py), None);
    assert_eq!(vertex(0.0, f64::NEG_INFINITY, 0.0).screen_coords(px, py), None);
    assert_eq!(vertex(0.0, 0.0, f64::INFINITY).screen_coords(px, py), None);
    assert_eq!(vertex(f64::NAN, 0.0, 0.0).screen_coords(px, py), None);
    assert_eq!(vertex(0.0, f64::NAN, 0.0).screen_coords(px, py), None);
    assert_eq!(vertex(0.0, 0.0, f64::NAN).screen_coords(px, py), None);
}

#[test]
fn screen_coords_does_not_judge_the_pixels() {
    let v = vertex(0.0, 0.0, 0.0);
    let s = v.screen_coords(f64::INFINITY.to_bits(), (-5000.0f64).to_bits()).unwrap();
    assert_eq!(s, vertex(f64::INFINITY, -5000.0, 0.0));
}

#[test]
fn project_to_view_places_any_vertex() {
    let v = vertex(f64::NAN, 0.0, 0.0);
    assert_eq!(v.project_to_view(10.0f64.to_bits(), 20.0f64.to_bits()), vertex(10.0, 20.0, 0.0));
}
