//! The geometry pipeline of a wireframe renderer: vertices, edges, closed
//! polygons and scenes, and the decisions that turn a scene into the line
//! segments of one frame: which polygons the camera sees, which of them can
//! be drawn, in which order, and between which pixels.
//!
//! Numbers are doubles, held as their bit patterns in `u64`. The library
//! classifies and compares them, changes their signs and rounds them to
//! pixels, all with integers and all proved; it adds and multiplies
//! nothing. Whoever calls it measures the distances and maps the
//! coordinates, and hands the results in.
pub mod binary64;
pub mod brep;
pub mod cube_generator;
pub mod draw_order;
pub mod matrix_templates;
pub mod point;
pub mod polygon;
pub mod scene;
pub mod segment;
pub mod vertex;
