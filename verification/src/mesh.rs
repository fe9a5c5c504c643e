//! Triangle meshes: the buffers a tessellator hands back, the checks that
//! they have to pass, and the geometry that is handed on.

use std::collections::HashMap;
use vstd::prelude::*;
use crate::distinct::{distinct, lemma_distinct, lemma_distinct_of_distinct, pairwise_distinct};
use crate::point::LyonPoint;
use crate::scalar::{is_zero, zero};

verus! {

broadcast use vstd::std_specs::hash::group_hash_axioms;

/// The most vertices that 16-bit indices can address.
pub const MAX_VERTICES: usize = 65536;

/// A mesh as mathematics: positions, and indices into them, three to a
/// triangle.
pub struct GeometryView {
    pub vertices: Seq<LyonPoint>,
    pub indices: Seq<u16>,
}

/// What can be wrong with a mesh, in the order in which it is looked for.
#[derive(Clone, Copy, Debug, PartialEq, Eq, Structural)]
pub enum MeshDefect {
    /// More vertices than 16-bit indices can address.
    TooManyVertices,
    /// The number of indices is not a multiple of three.
    IncompleteTriangle,
    /// An index points past the last vertex.
    DanglingIndex,
}

impl GeometryView {
    /// The mesh without vertices and without triangles.
    pub open spec fn empty() -> GeometryView {
        GeometryView { vertices: Seq::empty(), indices: Seq::empty() }
    }

    /// Some index points past the last vertex.
    pub open spec fn has_dangling_index(self) -> bool {
        exists|k: int| 0 <= k < self.indices.len() && #[trigger] self.indices[k] >= self.vertices.len()
    }

    /// The first defect of the mesh, if it has one.
    pub open spec fn defect(self) -> Option<MeshDefect> {
        if self.vertices.len() > MAX_VERTICES {
            Some(MeshDefect::TooManyVertices)
        } else if self.indices.len() % 3 != 0 {
            Some(MeshDefect::IncompleteTriangle)
        } else if self.has_dangling_index() {
            Some(MeshDefect::DanglingIndex)
        } else {
            None
        }
    }

    /// The indices come in threes, each names a vertex, and the vertices are
    /// no more than 16-bit indices can address.
    pub open spec fn is_well_formed(self) -> bool {
        &&& self.vertices.len() <= MAX_VERTICES
        &&& self.indices.len() % 3 == 0
        &&& forall|k: int| 0 <= k < self.indices.len() ==> #[trigger] self.indices[k] < self.vertices.len()
    }

    /// The number of triangles.
    pub open spec fn triangle_count(self) -> nat {
        self.indices.len() / 3
    }

    /// The position that the `k`-th index names; corners `3t`, `3t + 1` and
    /// `3t + 2` make up triangle `t`.
    pub open spec fn corner(self, k: int) -> LyonPoint {
        self.vertices[self.indices[k] as int]
    }

    /// Both meshes have the same number of corners, and corner by corner the
    /// same positions.
    pub open spec fn has_corners_of(self, other: GeometryView) -> bool {
        &&& self.indices.len() == other.indices.len()
        &&& forall|k: int| 0 <= k < self.indices.len() ==> (#[trigger] self.corner(k)).coincides_with(other.corner(k))
    }

    /// `self` is `raw` with each position kept once: its vertices are the
    /// distinct positions of `raw` in order of first appearance, and its
    /// indices name, corner by corner, the positions that those of `raw` name.
    pub open spec fn is_deduplication_of(self, raw: GeometryView) -> bool {
        &&& self.vertices == distinct(raw.vertices)
        &&& self.indices.len() == raw.indices.len()
        &&& forall|k: int| 0 <= k < self.indices.len() ==> {
            &&& (#[trigger] self.indices[k]) < self.vertices.len()
            &&& self.corner(k).coincides_with(raw.corner(k))
        }
    }
}

/// The point that a pair of coordinates stands for.
pub open spec fn to_point(pair: (u32, u32)) -> LyonPoint {
    LyonPoint { x: pair.0, y: pair.1 }
}

/// The points that a sequence of coordinate pairs stands for.
pub open spec fn to_points(pairs: Seq<(u32, u32)>) -> Seq<LyonPoint> {
    Seq::new(pairs.len(), |i: int| to_point(pairs[i]))
}

/// Vertex and index buffers as a tessellator fills them: each vertex a pair
/// of coordinates, x then y. Nothing is known of them yet. Their view
/// reads the pairs as points.
#[derive(Clone, Debug)]
pub struct VertexBuffers {
    pub vertices: Vec<(u32, u32)>,
    pub indices: Vec<u16>,
}

impl View for VertexBuffers {
    type V = GeometryView;

    open spec fn view(&self) -> GeometryView {
        GeometryView { vertices: to_points(self.vertices@), indices: self.indices@ }
    }
}

/// A triangle mesh: every three consecutive indices name the corners of one
/// triangle.
#[derive(Clone, Debug)]
pub struct LyonGeometry {
    pub vertices: Vec<LyonPoint>,
    pub indices: Vec<u16>,
}

impl View for LyonGeometry {
    type V = GeometryView;

    open spec fn view(&self) -> GeometryView {
        GeometryView { vertices: self.vertices@, indices: self.indices@ }
    }
}

/// Reads each pair of coordinates as a point.
pub fn convert_points(old_points: Vec<(u32, u32)>) -> (new_vec: Vec<LyonPoint>)
    ensures
        new_vec@ == to_points(old_points@),
{
    let mut new_vec: Vec<LyonPoint> = Vec::with_capacity(old_points.len());
    let mut i: usize = 0;
    while i < old_points.len()
        invariant
            i <= old_points.len(),
            new_vec@ == to_points(old_points@.take(i as int)),
        decreases old_points.len() - i,
    {
        let old_point = old_points[i];
        new_vec.push(LyonPoint { x: old_point.0, y: old_point.1 });
        assert(old_points@.take(i + 1).drop_last() == old_points@.take(i as int));
        i = i + 1;
    }
    assert(old_points@.take(i as int) == old_points@);
    new_vec
}

/// A mesh without defect, with each position kept once, is well formed, has
/// pairwise distinct vertices, and has as many triangles as before, with the
/// same corners.
pub proof fn lemma_deduplication_keeps_triangles(out: GeometryView, raw: GeometryView)
    requires
        raw.defect() is None,
        out.is_deduplication_of(raw),
    ensures
        out.is_well_formed(),
        pairwise_distinct(out.vertices),
        out.triangle_count() == raw.triangle_count(),
        out.has_corners_of(raw),
{
    lemma_distinct(raw.vertices);
}

/// Keeping each position once a second time changes nothing.
pub proof fn lemma_deduplication_is_idempotent(
    twice: GeometryView,
    once: GeometryView,
    raw: GeometryView,
)
    requires
        once.is_deduplication_of(raw),
        twice.is_deduplication_of(once),
    ensures
        twice == once,
{
    lemma_distinct(raw.vertices);
    lemma_distinct_of_distinct(once.vertices);
    assert(once.is_deduplication_of(once));
    lemma_deduplication_is_unique(twice, once, once);
}

/// There is one way only to keep each position of a mesh once.
pub proof fn lemma_deduplication_is_unique(a: GeometryView, b: GeometryView, raw: GeometryView)
    requires
        a.is_deduplication_of(raw),
        b.is_deduplication_of(raw),
    ensures
        a == b,
{
    lemma_distinct(raw.vertices);
    assert forall|k: int| 0 <= k < a.indices.len() implies a.indices[k] == b.indices[k] by {
        assert(a.corner(k).coincides_with(b.corner(k)));
    }
    assert(a.indices =~= b.indices);
}

/// Two meshes without defect whose corners lie at the same positions still
/// have, with each position kept once, equally many triangles and corners at
/// the same positions, however each of them numbered its vertices.
pub proof fn lemma_same_corners_after_deduplication(
    out_a: GeometryView,
    raw_a: GeometryView,
    out_b: GeometryView,
    raw_b: GeometryView,
)
    requires
        raw_a.defect() is None,
        raw_b.defect() is None,
        raw_a.has_corners_of(raw_b),
        out_a.is_deduplication_of(raw_a),
        out_b.is_deduplication_of(raw_b),
    ensures
        out_a.triangle_count() == out_b.triangle_count(),
        out_a.has_corners_of(out_b),
{
    assert forall|k: int| 0 <= k < out_a.indices.len() implies (#[trigger] out_a.corner(k)).coincides_with(
        out_b.corner(k),
    ) by {
        assert(out_a.corner(k).coincides_with(raw_a.corner(k)));
        assert(raw_a.corner(k).coincides_with(raw_b.corner(k)));
        assert(out_b.corner(k).coincides_with(raw_b.corner(k)));
    }
}

/// A number that two patterns share exactly when they stand for the same
/// number.
spec fn canonical(bits: u32) -> u32 {
    if is_zero(bits) {
        0
    } else {
        bits
    }
}

/// A number that two points share exactly when they lie at the same position.
spec fn key_of(p: LyonPoint) -> u64 {
    (canonical(p.x) as u64 * 0x1_0000_0000 + canonical(p.y) as u64) as u64
}

proof fn lemma_key_tells_positions_apart(p: LyonPoint, q: LyonPoint)
    ensures
        key_of(p) == key_of(q) <==> p.coincides_with(q),
{
}

/// The key of the position of `p`.
fn position_key(p: &LyonPoint) -> (key: u64)
    ensures
        key == key_of(*p),
{
    let x: u32 = if zero(p.x) {
        0
    } else {
        p.x
    };
    let y: u32 = if zero(p.y) {
        0
    } else {
        p.y
    };
    x as u64 * 0x1_0000_0000 + y as u64
}

impl LyonGeometry {
    /// The mesh without vertices and without triangles.
    pub fn empty() -> (geometry: LyonGeometry)
        ensures
            geometry@ == GeometryView::empty(),
    {
        LyonGeometry { vertices: Vec::new(), indices: Vec::new() }
    }

    /// The number of triangles.
    pub fn triangle_count(&self) -> (n: usize)
        ensures
            n == self@.triangle_count(),
    {
        self.indices.len() / 3
    }

    /// The first defect of the mesh, if it has one.
    pub fn defect(&self) -> (r: Option<MeshDefect>)
        ensures
            r == self@.defect(),
    {
        if self.vertices.len() > MAX_VERTICES {
            return Some(MeshDefect::TooManyVertices);
        }
        if self.indices.len() % 3 != 0 {
            return Some(MeshDefect::IncompleteTriangle);
        }
        let mut k: usize = 0;
        while k < self.indices.len()
            invariant
                k <= self.indices.len(),
                self.vertices.len() <= MAX_VERTICES,
                self.indices.len() % 3 == 0,
                forall|i: int| 0 <= i < k ==> #[trigger] self.indices@[i] < self.vertices.len(),
            decreases self.indices.len() - k,
        {
            if self.indices[k] as usize >= self.vertices.len() {
                assert(self@.has_dangling_index());
                return Some(MeshDefect::DanglingIndex);
            }
            k = k + 1;
        }
        None
    }

    /// Keeps each position once. A mesh with a defect is refused with its
    /// first defect.
    pub fn deduplicated(self) -> (r: Result<LyonGeometry, MeshDefect>)
        ensures
            match self@.defect() {
                Some(defect) => r == Err::<LyonGeometry, MeshDefect>(defect),
                None => r matches Ok(out) && out@.is_deduplication_of(self@),
            },
    {
        if let Some(defect) = self.defect() {
            return Err(defect);
        }
        let mut vertices: Vec<LyonPoint> = Vec::new();
        let mut slots: Vec<u16> = Vec::with_capacity(self.vertices.len());
        let mut slot_of: HashMap<u64, u16> = HashMap::new();
        let mut i: usize = 0;
        while i < self.vertices.len()
            invariant
                i <= self.vertices.len() <= MAX_VERTICES,
                vertices@ == distinct(self.vertices@.take(i as int)),
                vertices.len() <= i,
                slots.len() == i,
                forall|j: int| 0 <= j < i ==> {
                    &&& (#[trigger] slots@[j]) < vertices.len()
                    &&& vertices@[slots@[j] as int].coincides_with(self.vertices@[j])
                },
                forall|j: int| 0 <= j < vertices.len() ==> {
                    &&& slot_of@.contains_key(key_of(#[trigger] vertices@[j]))
                    &&& slot_of@[key_of(vertices@[j])] == j
                },
                forall|key: u64| #[trigger] slot_of@.contains_key(key) ==> {
                    &&& slot_of@[key] < vertices.len()
                    &&& key_of(vertices@[slot_of@[key] as int]) == key
                },
            decreases self.vertices.len() - i,
        {
            let p = self.vertices[i];
            let key: u64 = position_key(&p);
            proof {
                assert(self.vertices@.take(i + 1).drop_last() == self.vertices@.take(i as int));
                assert forall|j: int| 0 <= j < vertices.len() implies ((#[trigger] vertices@[j]).coincides_with(p)
                    <==> key_of(vertices@[j]) == key) by {
                    lemma_key_tells_positions_apart(vertices@[j], p);
                }
            }
            match slot_of.get(&key) {
                Some(slot) => {
                    slots.push(*slot);
                },
                None => {
                    let slot: u16 = vertices.len() as u16;
                    slot_of.insert(key, slot);
                    slots.push(slot);
                    vertices.push(p);
                },
            }
            i = i + 1;
        }
        assert(self.vertices@.take(i as int) == self.vertices@);
        let mut indices: Vec<u16> = Vec::with_capacity(self.indices.len());
        let mut k: usize = 0;
        while k < self.indices.len()
            invariant
                k <= self.indices.len(),
                self@.defect() is None,
                slots.len() == self.vertices.len(),
                indices.len() == k,
                forall|j: int| 0 <= j < slots.len() ==> {
                    &&& (#[trigger] slots@[j]) < vertices.len()
                    &&& vertices@[slots@[j] as int].coincides_with(self.vertices@[j])
                },
                forall|j: int| 0 <= j < k ==> {
                    &&& (#[trigger] indices@[j]) < vertices.len()
                    &&& vertices@[indices@[j] as int].coincides_with(self@.corner(j))
                },
            decreases self.indices.len() - k,
        {
            let index: u16 = self.indices[k];
            assert(!self@.has_dangling_index());
            indices.push(slots[index as usize]);
            k = k + 1;
        }
        Ok(LyonGeometry { vertices, indices })
    }
}

} // verus!
