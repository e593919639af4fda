//! A scene: the polygons of a frame, in the order in which they were added.
//!
//! Every operation gives a new scene and leaves the old one as it was.
use crate::draw_order::{draw_order, draw_order_of, is_draw_order};
use crate::polygon::{edge_seen, ring_seen, Polygon, Ring};
use crate::segment::Segment;
use vstd::prelude::*;

verus! {

/// The rings of a list of polygons.
pub open spec fn rings_of(polygons: Seq<Polygon>) -> Seq<Ring> {
    polygons.map_values(|p: Polygon| p@)
}

/// The rings whose mark in `keep` is set, in their order.
pub open spec fn retained(rings: Seq<Ring>, keep: Seq<bool>) -> Seq<Ring>
    decreases rings.len(),
{
    if rings.len() == 0 {
        Seq::empty()
    } else {
        let front = retained(rings.drop_last(), keep);
        if keep[rings.len() - 1] {
            front.push(rings.last())
        } else {
            front
        }
    }
}

/// For each polygon whether the camera sees it, where `distances[i][k]` is
/// the squared distance of vertex `k` of polygon `i` from the camera.
pub open spec fn seen_marks(distances: Seq<Vec<u64>>, near: u64, far: u64) -> Seq<bool> {
    Seq::new(distances.len(), |i: int| ring_seen(distances[i]@, near, far))
}

/// For each ring whether it can be drawn: none of its vertices is at
/// infinity.
pub open spec fn drawable_marks(rings: Seq<Ring>) -> Seq<bool> {
    Seq::new(rings.len(), |i: int| !rings[i].has_point_at_infinity())
}

/// The rings on the screen, where `pixels[i][k]` are the pixel coordinates
/// of vertex `k` of ring `i`.
pub open spec fn placed(rings: Seq<Ring>, pixels: Seq<Vec<(u64, u64)>>) -> Seq<Ring> {
    Seq::new(rings.len(), |i: int| rings[i].on_screen(pixels[i]@))
}

/// The rings in the given order.
pub open spec fn arranged(rings: Seq<Ring>, order: Seq<usize>) -> Seq<Ring> {
    Seq::new(order.len(), |k: int| rings[order[k] as int])
}

/// The lines that draw the rings, ring after ring.
pub open spec fn all_segments(rings: Seq<Ring>) -> Seq<Segment>
    decreases rings.len(),
{
    if rings.len() == 0 {
        Seq::empty()
    } else {
        all_segments(rings.drop_last()) + rings.last().segments()
    }
}

/// `measures` holds one entry for each vertex of each ring.
pub open spec fn measures_vertices<T>(rings: Seq<Ring>, measures: Seq<Vec<T>>) -> bool {
    &&& measures.len() == rings.len()
    &&& forall|i: int|
        0 <= i < rings.len() ==> (#[trigger] measures[i])@.len() == rings[i].vertices.len()
}

/// What is retained depends on the marks of the rings alone.
pub proof fn lemma_retained_by_marks(rings: Seq<Ring>, keep: Seq<bool>, other: Seq<bool>)
    requires
        forall|i: int| 0 <= i < rings.len() ==> keep[i] == other[i],
    ensures
        retained(rings, keep) == retained(rings, other),
    decreases rings.len(),
{
    if rings.len() > 0 {
        lemma_retained_by_marks(rings.drop_last(), keep, other);
    }
}

/// A ring whose mark is not set might as well be absent: what is retained
/// is what would be retained of the rings without it.
pub proof fn lemma_unmarked_is_dropped(rings: Seq<Ring>, keep: Seq<bool>, i: int)
    requires
        0 <= i < rings.len(),
        keep.len() == rings.len(),
        !keep[i],
    ensures
        retained(rings, keep) == retained(rings.remove(i), keep.remove(i)),
    decreases rings.len(),
{
    let last = rings.len() - 1;
    if i == last {
        assert(rings.remove(i) == rings.drop_last());
        lemma_retained_by_marks(rings.drop_last(), keep, keep.remove(i));
    } else {
        lemma_unmarked_is_dropped(rings.drop_last(), keep.drop_last(), i);
        lemma_retained_by_marks(rings.drop_last(), keep, keep.drop_last());
        assert(rings.remove(i).drop_last() == rings.drop_last().remove(i));
        assert(rings.remove(i).last() == rings.last());
        lemma_retained_by_marks(
            rings.drop_last().remove(i),
            keep.remove(i),
            keep.drop_last().remove(i),
        );
    }
}

/// Every ring that is retained is one of the given rings, whole, and its
/// mark is set.
pub proof fn lemma_retained_is_marked(rings: Seq<Ring>, keep: Seq<bool>, j: int)
    requires
        0 <= j < retained(rings, keep).len(),
    ensures
        exists|i: int| 0 <= i < rings.len() && keep[i] && rings[i] == retained(rings, keep)[j],
    decreases rings.len(),
{
    let last = rings.len() - 1;
    let front = retained(rings.drop_last(), keep);
    if j < front.len() {
        lemma_retained_is_marked(rings.drop_last(), keep, j);
        let i = choose|i: int|
            0 <= i < rings.drop_last().len() && keep[i] && rings.drop_last()[i] == front[j];
        assert(rings[i] == retained(rings, keep)[j]);
    } else {
        assert(rings[last] == retained(rings, keep)[j]);
    }
}

/// Culling is all or nothing: a polygon with an edge that the camera does
/// not see is left out whole, and the clipped scene is what it would be
/// had the polygon never been in the scene.
pub proof fn lemma_unseen_edge_culls_polygon(
    rings: Seq<Ring>,
    distances: Seq<Vec<u64>>,
    near: u64,
    far: u64,
    i: int,
    k: int,
)
    requires
        distances.len() == rings.len(),
        0 <= i < rings.len(),
        0 <= k < distances[i]@.len(),
        !edge_seen(distances[i]@, k, near, far),
    ensures
        retained(rings, seen_marks(distances, near, far)) == retained(
            rings.remove(i),
            seen_marks(distances.remove(i), near, far),
        ),
{
    let marks = seen_marks(distances, near, far);
    assert(!ring_seen(distances[i]@, near, far));
    lemma_unmarked_is_dropped(rings, marks, i);
    assert(marks.remove(i) == seen_marks(distances.remove(i), near, far));
}

/// A vertex at infinity keeps its whole polygon off the screen: the scene
/// in screen space is what it would be had the polygon never been in the
/// scene.
pub proof fn lemma_point_at_infinity_drops_polygon(
    rings: Seq<Ring>,
    pixels: Seq<Vec<(u64, u64)>>,
    i: int,
    k: int,
)
    requires
        pixels.len() == rings.len(),
        0 <= i < rings.len(),
        0 <= k < rings[i].vertices.len(),
        rings[i].vertices[k].at_infinity(),
    ensures
        retained(placed(rings, pixels), drawable_marks(rings)) == retained(
            placed(rings.remove(i), pixels.remove(i)),
            drawable_marks(rings.remove(i)),
        ),
{
    assert(rings[i].has_point_at_infinity());
    lemma_unmarked_is_dropped(placed(rings, pixels), drawable_marks(rings), i);
    assert(placed(rings, pixels).remove(i) == placed(rings.remove(i), pixels.remove(i)));
    assert(drawable_marks(rings).remove(i) == drawable_marks(rings.remove(i)));
}

/// The polygons of a frame.
#[derive(Debug)]
pub struct Scene {
    polygons: Vec<Polygon>,
}

impl View for Scene {
    type V = Seq<Ring>;

    closed spec fn view(&self) -> Seq<Ring> {
        rings_of(self.polygons@)
    }
}

impl Scene {
    /// The scene of the given polygons, in their order.
    pub fn new(polygons: Vec<Polygon>) -> (scene: Scene)
        ensures
            scene@ == rings_of(polygons@),
    {
        Scene { polygons }
    }

    /// The polygons, in the order of the scene.
    pub fn polygons(&self) -> (polygons: Vec<Polygon>)
        ensures
            rings_of(polygons@) == self@,
    {
        let mut polygons: Vec<Polygon> = Vec::new();
        let mut i: usize = 0;
        while i < self.polygons.len()
            invariant
                i <= self.polygons@.len(),
                rings_of(polygons@) == self@.take(i as int),
            decreases self.polygons@.len() - i,
        {
            let ghost before = polygons@;
            polygons.push(self.polygons[i].clone());
            assert(rings_of(polygons@) == rings_of(before).push(self@[i as int]));
            i += 1;
        }
        polygons
    }

    /// The polygons that the camera sees, where `distances[i][k]` is the
    /// squared distance of vertex `k` of polygon `i` from the camera and
    /// `near` and `far` bound what is seen. A polygon stays if every edge of
    /// it is seen, and goes whole if one is not.
    pub fn clip(&self, distances: &Vec<Vec<u64>>, near: u64, far: u64) -> (scene: Scene)
        requires
            measures_vertices(self@, distances@),
        ensures
            scene@ == retained(self@, seen_marks(distances@, near, far)),
    {
        let ghost marks = seen_marks(distances@, near, far);
        let mut kept: Vec<Polygon> = Vec::new();
        let mut i: usize = 0;
        while i < self.polygons.len()
            invariant
                measures_vertices(self@, distances@),
                marks == seen_marks(distances@, near, far),
                i <= self.polygons@.len(),
                rings_of(kept@) == retained(self@.take(i as int), marks),
            decreases self.polygons@.len() - i,
        {
            let ghost before = kept@;
            assert(self@.take(i + 1).drop_last() == self@.take(i as int));
            if self.polygons[i].is_visible(&distances[i], near, far) {
                kept.push(self.polygons[i].clone());
                assert(rings_of(kept@) == rings_of(before).push(self@[i as int]));
            }
            i += 1;
        }
        assert(self@.take(i as int) == self@);
        Scene { polygons: kept }
    }

    /// The scene in screen space, where `pixels[i][k]` are the pixel
    /// coordinates that vertex `k` of polygon `i` maps to. A polygon with a
    /// vertex at infinity is left out.
    pub fn screen_coords(&self, pixels: &Vec<Vec<(u64, u64)>>) -> (scene: Scene)
        requires
            measures_vertices(self@, pixels@),
        ensures
            scene@ == retained(placed(self@, pixels@), drawable_marks(self@)),
    {
        let ghost marks = drawable_marks(self@);
        let ghost all = placed(self@, pixels@);
        let mut kept: Vec<Polygon> = Vec::new();
        let mut i: usize = 0;
        while i < self.polygons.len()
            invariant
                measures_vertices(self@, pixels@),
                marks == drawable_marks(self@),
                all == placed(self@, pixels@),
                i <= self.polygons@.len(),
                rings_of(kept@) == retained(all.take(i as int), marks),
            decreases self.polygons@.len() - i,
        {
            let ghost before = kept@;
            assert(all.take(i + 1).drop_last() == all.take(i as int));
            match self.polygons[i].screen_coords(&pixels[i]) {
                Some(p) => {
                    kept.push(p);
                    assert(rings_of(kept@) == rings_of(before).push(all[i as int]));
                },
                None => {},
            }
            i += 1;
        }
        assert(all.take(i as int) == all);
        Scene { polygons: kept }
    }

    /// As `screen_coords`, without the test for vertices at infinity: every
    /// polygon stays.
    pub fn projected_to_view(&self, pixels: &Vec<Vec<(u64, u64)>>) -> (scene: Scene)
        requires
            measures_vertices(self@, pixels@),
        ensures
            scene@ == placed(self@, pixels@),
    {
        let ghost all = placed(self@, pixels@);
        let mut moved: Vec<Polygon> = Vec::new();
        let mut i: usize = 0;
        while i < self.polygons.len()
            invariant
                measures_vertices(self@, pixels@),
                all == placed(self@, pixels@),
                i <= self.polygons@.len(),
                rings_of(moved@) == all.take(i as int),
            decreases self.polygons@.len() - i,
        {
            let ghost before = moved@;
            moved.push(self.polygons[i].project_to_view(&pixels[i]));
            assert(rings_of(moved@) == rings_of(before).push(all[i as int]));
            i += 1;
        }
        Scene { polygons: moved }
    }

    /// The scene in drawing order, where `distances[i]` is the distance of
    /// polygon `i` from the camera: back to front, the farthest polygon
    /// first and the nearest last, so that what is near is painted over what
    /// is far. Polygons at the same distance keep their order.
    pub fn sorted(&self, distances: &Vec<u64>) -> (scene: Scene)
        requires
            distances@.len() == self@.len(),
        ensures
            scene@ == arranged(self@, draw_order_of(distances@)),
    {
        let order = draw_order(distances);
        let mut polygons: Vec<Polygon> = Vec::new();
        let mut k: usize = 0;
        while k < order.len()
            invariant
                distances@.len() == self@.len(),
                is_draw_order(distances@, order@),
                k <= order@.len(),
                rings_of(polygons@) == arranged(self@, order@).take(k as int),
            decreases order@.len() - k,
        {
            let ghost before = polygons@;
            polygons.push(self.polygons[order[k]].clone());
            assert(rings_of(polygons@) == rings_of(before).push(self@[order@[k as int] as int]));
            k += 1;
        }
        Scene { polygons }
    }

    /// The lines of the frame, for a scene in screen space: the edges of
    /// every polygon as lines between pixels, polygon after polygon in the
    /// order of the scene.
    pub fn segments(&self) -> (segments: Vec<Segment>)
        ensures
            segments@ == all_segments(self@),
    {
        let mut segments: Vec<Segment> = Vec::new();
        let mut i: usize = 0;
        while i < self.polygons.len()
            invariant
                i <= self.polygons@.len(),
                segments@ == all_segments(self@.take(i as int)),
            decreases self.polygons@.len() - i,
        {
            assert(self@.take(i + 1).drop_last() == self@.take(i as int));
            let mut lines = self.polygons[i].segments();
            segments.append(&mut lines);
            i += 1;
        }
        assert(self@.take(i as int) == self@);
        segments
    }
}

} // verus!
